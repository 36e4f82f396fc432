use vstd::prelude::*;

use crate::fingerprint::AudioFingerprint;
use crate::provider::musicbrainz::{percent_encoded, url_encode};
use crate::provider::search::ProviderError;
use crate::text::{append, decimal, decimal_string, owned, utf8, text_eq};

verus! {

/// The client key this application identifies itself with to AcoustID.
pub const APPLICATION_KEY: &'static str = "5gtrNQDixK";

/// One field of a form body: its name, `=`, and its value percent-encoded.
pub open spec fn form_field(name: Seq<char>, value: Seq<char>) -> Seq<char> {
    name + "="@ + percent_encoded(utf8(value))
}

/// The form body of an AcoustID lookup: the client key and version, the answer
/// format and contents asked for, and the fingerprint with its duration. Nothing
/// of the audio itself is sent.
pub open spec fn lookup_form_text(fingerprint: AudioFingerprint, client_version: Seq<char>) -> Seq<char> {
    form_field("client"@, "5gtrNQDixK"@) + "&"@ + form_field("clientversion"@, client_version) + "&"@
        + form_field("format"@, "json"@) + "&"@ + form_field("meta"@, "recordingids"@) + "&"@
        + form_field("duration"@, decimal(fingerprint.duration_seconds as nat)) + "&"@
        + form_field("fingerprint"@, fingerprint.value@)
}

/// Appends one form field.
fn push_field(out: &mut String, name: &str, value: &str)
    ensures
        final(out)@ == old(out)@ + form_field(name@, value@),
{
    append(out, name);
    append(out, "=");
    let encoded = url_encode(value);
    append(out, encoded.as_str());
}

/// The form body of an AcoustID lookup for `fingerprint`.
pub fn lookup_form(fingerprint: &AudioFingerprint, client_version: &str) -> (r: String)
    ensures
        r@ == lookup_form_text(*fingerprint, client_version@),
{
    let mut out = String::new();
    push_field(&mut out, "client", APPLICATION_KEY);
    proof {
        reveal_strlit("5gtrNQDixK");
    }
    append(&mut out, "&");
    push_field(&mut out, "clientversion", client_version);
    append(&mut out, "&");
    push_field(&mut out, "format", "json");
    append(&mut out, "&");
    push_field(&mut out, "meta", "recordingids");
    append(&mut out, "&");
    let duration = decimal_string(fingerprint.duration_seconds as u64);
    push_field(&mut out, "duration", duration.as_str());
    append(&mut out, "&");
    push_field(&mut out, "fingerprint", fingerprint.value.as_str());
    out
}

/// The error for an AcoustID answer whose status is not "ok": the service's
/// message when it gave one, else the status itself. None for an "ok" answer.
pub fn rejection(status: &str, message: Option<String>) -> (r: Option<ProviderError>)
    ensures
        status@ == "ok"@ ==> r is None,
        status@ != "ok"@ ==> (r matches Some(ProviderError::InvalidResponse(m)) && m@ == "AcoustID rejected the lookup: "@
            + match message {
            Some(t) => t@,
            None => status@,
        }),
{
    if text_eq(status, "ok") {
        return None;
    }
    let mut text = owned("AcoustID rejected the lookup: ");
    match message {
        Some(t) => append(&mut text, t.as_str()),
        None => append(&mut text, status),
    }
    Some(ProviderError::InvalidResponse(text))
}

} // verus!
