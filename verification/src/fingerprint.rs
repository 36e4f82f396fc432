use vstd::prelude::*;

use crate::text::{append, decimal, owned, push_decimal};

verus! {

/// How many seconds of audio a fingerprint covers.
pub const FINGERPRINT_AUDIO_SECONDS: u32 = 120;

/// How long fingerprinting may take, in seconds.
pub const FINGERPRINT_TIMEOUT_SECONDS: u64 = 60;

/// An acoustic fingerprint of one audio file and the duration it was taken over.
#[derive(Clone, Debug, PartialEq, Eq)]
pub struct AudioFingerprint {
    pub duration_seconds: u32,
    pub value: String,
}

/// Computes fingerprints of audio files.
pub trait AudioFingerprinter {
    fn calculate<Q: FingerprintProgress>(&mut self, audio: &str, progress: &mut Q) -> Result<AudioFingerprint, FingerprintError>;
}

/// Told when fingerprinting of a file starts; an error stops it.
pub trait FingerprintProgress {
    fn calculating(&mut self, audio: &str) -> Result<(), FingerprintError>;
}

impl FingerprintProgress for () {
    fn calculating(&mut self, audio: &str) -> (r: Result<(), FingerprintError>)
        ensures
            r is Ok,
    {
        Ok(())
    }
}

/// Fingerprints with the `fpcalc` program.
#[derive(Clone, Debug)]
pub struct FpcalcFingerprinter {
    executable: String,
    timeout_seconds: u64,
}

impl Default for FpcalcFingerprinter {
    fn default() -> (r: Self)
        ensures
            r.executable_view() == "fpcalc"@,
            r.timeout_view() == FINGERPRINT_TIMEOUT_SECONDS,
    {
        FpcalcFingerprinter { executable: owned("fpcalc"), timeout_seconds: FINGERPRINT_TIMEOUT_SECONDS }
    }
}

impl FpcalcFingerprinter {
    pub closed spec fn executable_view(&self) -> Seq<char> {
        self.executable@
    }

    pub closed spec fn timeout_view(&self) -> u64 {
        self.timeout_seconds
    }

    /// The program that is run.
    pub fn executable(&self) -> (r: &str)
        ensures
            r@ == self.executable_view(),
    {
        self.executable.as_str()
    }

    /// How long the program may run, in seconds.
    pub fn timeout_seconds(&self) -> (r: u64)
        ensures
            r == self.timeout_view(),
    {
        self.timeout_seconds
    }

    /// The arguments `fpcalc` is run with for `audio`: JSON output over the first
    /// fingerprint-length seconds.
    pub fn arguments(&self, audio: &str) -> (r: Vec<String>)
        ensures
            r.deep_view() == seq!["-json"@, "-length"@, decimal(FINGERPRINT_AUDIO_SECONDS as nat), audio@],
    {
        let mut args: Vec<String> = Vec::new();
        args.push(owned("-json"));
        args.push(owned("-length"));
        args.push(crate::text::decimal_string(FINGERPRINT_AUDIO_SECONDS as u64));
        args.push(owned(audio));
        assert(args.deep_view() =~= seq!["-json"@, "-length"@, decimal(FINGERPRINT_AUDIO_SECONDS as nat), audio@]);
        args
    }
}

/// Why fingerprinting failed.
#[derive(Debug)]
pub enum FingerprintError {
    Unavailable,
    Start(String),
    Timeout,
    Wait(String),
    Output(String),
    InvalidOutput(String),
    Failed { status: Option<i32>, message: String },
    Progress(String),
}

/// An `i32` in decimal, with a leading `-` when negative.
pub open spec fn signed_decimal(n: i32) -> Seq<char> {
    if n < 0 { "-"@ + decimal((-(n as int)) as nat) } else { decimal(n as nat) }
}

pub open spec fn fingerprint_error_text(e: FingerprintError) -> Seq<char> {
    match e {
        FingerprintError::Unavailable => "fpcalc is not available in PATH"@,
        FingerprintError::Start(m) => "cannot start fpcalc: "@ + m@,
        FingerprintError::Timeout => "fpcalc exceeded its 60-second timeout"@,
        FingerprintError::Wait(m) => "cannot wait for fpcalc: "@ + m@,
        FingerprintError::Output(m) => "cannot read fpcalc output: "@ + m@,
        FingerprintError::InvalidOutput(m) => "fpcalc returned invalid data: "@ + m@,
        FingerprintError::Failed { status, message } => "fpcalc failed"@ + (match status {
            Some(s) => " with status "@ + signed_decimal(s),
            None => Seq::empty(),
        }) + (if message@.len() > 0 { ": "@ + message@ } else { Seq::empty() }),
        FingerprintError::Progress(m) => "cannot report fingerprint progress: "@ + m@,
    }
}

impl FingerprintError {
    /// The message shown for this error.
    pub fn describe(&self) -> (r: String)
        ensures
            r@ == fingerprint_error_text(*self),
    {
        match self {
            FingerprintError::Unavailable => owned("fpcalc is not available in PATH"),
            FingerprintError::Start(m) => {
                let mut out = owned("cannot start fpcalc: ");
                append(&mut out, m.as_str());
                out
            },
            FingerprintError::Timeout => owned("fpcalc exceeded its 60-second timeout"),
            FingerprintError::Wait(m) => {
                let mut out = owned("cannot wait for fpcalc: ");
                append(&mut out, m.as_str());
                out
            },
            FingerprintError::Output(m) => {
                let mut out = owned("cannot read fpcalc output: ");
                append(&mut out, m.as_str());
                out
            },
            FingerprintError::InvalidOutput(m) => {
                let mut out = owned("fpcalc returned invalid data: ");
                append(&mut out, m.as_str());
                out
            },
            FingerprintError::Failed { status, message } => {
                let mut out = owned("fpcalc failed");
                match status {
                    Some(s) => {
                        append(&mut out, " with status ");
                        if *s < 0 {
                            append(&mut out, "-");
                            let magnitude: u64 = if *s == i32::MIN { 2147483648u64 } else { (-*s) as u64 };
                            push_decimal(&mut out, magnitude);
                        } else {
                            push_decimal(&mut out, *s as u64);
                        }
                    },
                    None => {},
                }
                if message.unicode_len() > 0 {
                    append(&mut out, ": ");
                    append(&mut out, message.as_str());
                }
                out
            },
            FingerprintError::Progress(m) => {
                let mut out = owned("cannot report fingerprint progress: ");
                append(&mut out, m.as_str());
                out
            },
        }
    }
}

/// The text that identifies a fingerprint in the cache: duration, newline, value.
pub fn fingerprint_identity(fingerprint: &AudioFingerprint) -> (r: String)
    ensures
        r@ == decimal(fingerprint.duration_seconds as nat) + "\n"@ + fingerprint.value@,
{
    let mut out = crate::text::decimal_string(fingerprint.duration_seconds as u64);
    append(&mut out, "\n");
    append(&mut out, fingerprint.value.as_str());
    out
}

} // verus!
