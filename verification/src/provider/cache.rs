use vstd::prelude::*;

use crate::domain::CandidateRelease;
use crate::provider::cover_art_archive::ProviderArtwork;
use crate::provider::METADATA_FRESH_DAYS;
use crate::text::{append, decimal, owned, push_char, push_decimal};

verus! {

/// The version of the stored cache entries.
pub const CACHE_SCHEMA: u8 = 3;

/// The file that marks a directory as this program's provider cache.
pub const MARKER: &'static str = ".music-groomer-cache";

/// Seconds in a day.
pub const SECONDS_PER_DAY: u64 = 86400;

/// Cached provider data, under `root`, kept within `max_bytes`.
#[derive(Clone, Debug)]
pub struct ProviderCache {
    root: String,
    max_bytes: u64,
}

impl ProviderCache {
    /// A cache rooted at `root` that prunes itself to `max_bytes`.
    pub fn new(root: String, max_bytes: u64) -> (r: Self)
        ensures
            r.root_view() == root@,
            r.max_bytes_view() == max_bytes,
    {
        ProviderCache { root, max_bytes }
    }

    pub closed spec fn root_view(&self) -> Seq<char> {
        self.root@
    }

    pub closed spec fn max_bytes_view(&self) -> u64 {
        self.max_bytes
    }

    /// The cache directory.
    pub fn root(&self) -> (r: &str)
        ensures
            r@ == self.root_view(),
    {
        self.root.as_str()
    }

    /// The size the cache is pruned to.
    pub fn max_bytes(&self) -> (r: u64)
        ensures
            r == self.max_bytes_view(),
    {
        self.max_bytes
    }
}

/// Whether cached data is still fresh.
#[derive(Clone, Copy, Debug, PartialEq, Eq, Structural)]
pub enum MetadataFreshness {
    Fresh,
    Stale,
}

/// Data fetched at `fetched_at` is fresh at `now` (both in seconds since the Unix
/// epoch) while it is at most the freshness period old; data from the future is fresh.
pub open spec fn freshness_at(fetched_at: u64, now: u64) -> MetadataFreshness {
    let age: int = if now >= fetched_at { now - fetched_at } else { 0 };
    if age <= METADATA_FRESH_DAYS * SECONDS_PER_DAY { MetadataFreshness::Fresh } else { MetadataFreshness::Stale }
}

/// How fresh data fetched at `fetched_at` is at `now`.
pub fn freshness(fetched_at: u64, now: u64) -> (r: MetadataFreshness)
    ensures
        r == freshness_at(fetched_at, now),
{
    let age = if now >= fetched_at { now - fetched_at } else { 0 };
    if age <= METADATA_FRESH_DAYS * SECONDS_PER_DAY {
        MetadataFreshness::Fresh
    } else {
        MetadataFreshness::Stale
    }
}

/// A cached metadata search result.
#[derive(Debug)]
pub struct MetadataCacheEntry {
    pub candidates: Vec<CandidateRelease>,
    pub fetched_at: u64,
    pub freshness: MetadataFreshness,
    pub maintenance_warning: Option<String>,
}

/// A cached artwork lookup: the image, or the confirmation that there is none.
#[derive(Debug)]
pub enum ArtworkCacheEntry {
    Image(ProviderArtwork),
    ConfirmedAbsent { freshness: MetadataFreshness },
}

/// What the cache holds, by kind of entry.
#[derive(Clone, Debug, PartialEq, Eq)]
pub struct CacheStatus {
    pub location: String,
    pub total_bytes: u64,
    pub max_bytes: u64,
    pub fresh_metadata: usize,
    pub stale_metadata: usize,
    pub artwork_entries: usize,
    pub artwork_bytes: u64,
    pub confirmed_artwork_absences: usize,
    pub fresh_acoustid: usize,
    pub stale_acoustid: usize,
    pub acoustid_no_matches: usize,
    pub acoustid_bytes: u64,
    pub obsolete_entries: usize,
    pub damaged_entries: usize,
}

impl Default for CacheStatus {
    fn default() -> (r: Self)
        ensures
            r.location@.len() == 0,
            r.total_bytes == 0 && r.max_bytes == 0,
            r.fresh_metadata == 0 && r.stale_metadata == 0,
            r.artwork_entries == 0 && r.artwork_bytes == 0 && r.confirmed_artwork_absences == 0,
            r.fresh_acoustid == 0 && r.stale_acoustid == 0 && r.acoustid_no_matches == 0 && r.acoustid_bytes == 0,
            r.obsolete_entries == 0 && r.damaged_entries == 0,
    {
        CacheStatus {
            location: String::new(),
            total_bytes: 0,
            max_bytes: 0,
            fresh_metadata: 0,
            stale_metadata: 0,
            artwork_entries: 0,
            artwork_bytes: 0,
            confirmed_artwork_absences: 0,
            fresh_acoustid: 0,
            stale_acoustid: 0,
            acoustid_no_matches: 0,
            acoustid_bytes: 0,
            obsolete_entries: 0,
            damaged_entries: 0,
        }
    }
}

/// Why the cache could not be read or written.
#[derive(Debug)]
pub enum CacheError {
    NoPlatformCacheDirectory,
    Io(String, String),
    Obsolete { path: String, found_schema: u8, current_schema: u8 },
    Damaged(String, String),
    NotOwned(String),
    Serialize(String),
}

pub open spec fn cache_error_text(e: CacheError) -> Seq<char> {
    match e {
        CacheError::NoPlatformCacheDirectory => "this platform has no user cache directory"@,
        CacheError::Io(path, message) => path@ + ": "@ + message@,
        CacheError::Obsolete { path, found_schema, current_schema } => "obsolete cache entry "@ + path@ + " uses schema "@
            + decimal(found_schema as nat) + "; current schema is "@ + decimal(current_schema as nat),
        CacheError::Damaged(path, message) => "damaged cache entry "@ + path@ + ": "@ + message@,
        CacheError::NotOwned(path) => "refusing to use unmarked non-empty cache directory "@ + path@,
        CacheError::Serialize(message) => "cannot encode cache entry: "@ + message@,
    }
}

impl CacheError {
    /// The message shown for this error.
    pub fn describe(&self) -> (r: String)
        ensures
            r@ == cache_error_text(*self),
    {
        match self {
            CacheError::NoPlatformCacheDirectory => owned("this platform has no user cache directory"),
            CacheError::Io(path, message) => {
                let mut out = path.clone();
                append(&mut out, ": ");
                append(&mut out, message.as_str());
                out
            },
            CacheError::Obsolete { path, found_schema, current_schema } => {
                let mut out = owned("obsolete cache entry ");
                append(&mut out, path.as_str());
                append(&mut out, " uses schema ");
                push_decimal(&mut out, *found_schema as u64);
                append(&mut out, "; current schema is ");
                push_decimal(&mut out, *current_schema as u64);
                out
            },
            CacheError::Damaged(path, message) => {
                let mut out = owned("damaged cache entry ");
                append(&mut out, path.as_str());
                append(&mut out, ": ");
                append(&mut out, message.as_str());
                out
            },
            CacheError::NotOwned(path) => {
                let mut out = owned("refusing to use unmarked non-empty cache directory ");
                append(&mut out, path.as_str());
                out
            },
            CacheError::Serialize(message) => {
                let mut out = owned("cannot encode cache entry: ");
                append(&mut out, message.as_str());
                out
            },
        }
    }
}

// ---------------------------------------------------------------------------
// Entry names
// ---------------------------------------------------------------------------

/// What `Sha256::digest` returns for `bytes` (the SHA-256 hash, thirty-two bytes).
pub uninterp spec fn sha256_digest(bytes: Seq<u8>) -> Seq<u8>;

/// Calls `sha2::Sha256::digest`; the result is the name `sha256_digest` of the bytes,
/// thirty-two bytes long (the output size of SHA-256).
#[verifier::external_body]
fn sha256(bytes: &[u8]) -> (r: Vec<u8>)
    ensures
        r@ == sha256_digest(bytes@),
        r@.len() == 32,
{
    <sha2::Sha256 as sha2::Digest>::digest(bytes).to_vec()
}

/// The lowercase hexadecimal digit for `d < 16`.
pub open spec fn hex_digit(d: u8) -> char {
    if d < 10 { (('0' as u8) + d) as char } else { (('a' as u8) + (d - 10)) as char }
}

/// The bytes written as lowercase hexadecimal, two digits each (`{:x}` of a digest).
pub open spec fn hex_text(bytes: Seq<u8>) -> Seq<char>
    decreases bytes.len(),
{
    if bytes.len() == 0 {
        Seq::empty()
    } else {
        let b = bytes.last();
        hex_text(bytes.drop_last()) + seq![hex_digit(b / 16), hex_digit(b % 16)]
    }
}

fn hex_digit_of(d: u8) -> (r: char)
    requires
        d < 16,
    ensures
        r == hex_digit(d),
{
    if d < 10 { (48u8 + d) as char } else { (97u8 + (d - 10)) as char }
}

/// `bytes` in lowercase hexadecimal.
pub fn lower_hex(bytes: &Vec<u8>) -> (r: String)
    ensures
        r@ == hex_text(bytes@),
{
    let mut out = String::new();
    let mut i: usize = 0;
    while i < bytes.len()
        invariant
            i <= bytes@.len(),
            out@ == hex_text(bytes@.take(i as int)),
        decreases bytes@.len() - i,
    {
        let b = bytes[i];
        assert(bytes@.take(i + 1).drop_last() =~= bytes@.take(i as int));
        push_char(&mut out, hex_digit_of(b / 16));
        push_char(&mut out, hex_digit_of(b % 16));
        assert(out@ =~= hex_text(bytes@.take(i + 1)));
        i = i + 1;
    }
    assert(bytes@.take(bytes@.len() as int) =~= bytes@);
    out
}

/// The hexadecimal SHA-256 of `bytes`.
pub fn digest_hex(bytes: &[u8]) -> (r: String)
    ensures
        r@ == hex_text(sha256_digest(bytes@)),
        r@.len() == 64,
{
    let d = sha256(bytes);
    proof {
        lemma_hex_len(d@);
    }
    lower_hex(&d)
}

proof fn lemma_hex_len(bytes: Seq<u8>)
    ensures
        hex_text(bytes).len() == 2 * bytes.len(),
    decreases bytes.len(),
{
    if bytes.len() > 0 {
        lemma_hex_len(bytes.drop_last());
    }
}

/// The file name of the metadata entry for a search encoded as `encoded_search`.
pub fn metadata_file_name(encoded_search: &[u8]) -> (r: String)
    ensures
        r@ == hex_text(sha256_digest(encoded_search@)) + ".json"@,
{
    let mut out = digest_hex(encoded_search);
    append(&mut out, ".json");
    out
}

/// The file-name prefix of the artwork entries of a release group.
pub fn artwork_prefix(release_group_id: &str) -> (r: String)
    ensures
        r@ == hex_text(sha256_digest(crate::text::utf8(release_group_id@))) + "."@,
{
    let bytes = crate::text::utf8_bytes(release_group_id);
    let mut out = digest_hex(bytes.as_slice());
    append(&mut out, ".");
    out
}

/// Law: freshness only runs out: data fresh at some moment was fresh at every
/// earlier moment, and data exactly the freshness period old is still fresh.
pub proof fn law_freshness_only_runs_out(fetched_at: u64, earlier: u64, later: u64)
    requires
        earlier <= later,
        freshness_at(fetched_at, later) == MetadataFreshness::Fresh,
    ensures
        freshness_at(fetched_at, earlier) == MetadataFreshness::Fresh,
        fetched_at as int + METADATA_FRESH_DAYS * SECONDS_PER_DAY <= u64::MAX ==> freshness_at(
            fetched_at,
            (fetched_at + METADATA_FRESH_DAYS * SECONDS_PER_DAY) as u64,
        ) == MetadataFreshness::Fresh,
{
}

/// The file name of the AcoustID entry for a fingerprint.
pub fn acoustid_file_name(fingerprint: &crate::fingerprint::AudioFingerprint) -> (r: String)
    ensures
        r@ == hex_text(sha256_digest(crate::text::utf8(decimal(fingerprint.duration_seconds as nat) + "\n"@ + fingerprint.value@)))
            + ".json"@,
{
    let identity = crate::fingerprint::fingerprint_identity(fingerprint);
    let bytes = crate::text::utf8_bytes(identity.as_str());
    let mut out = digest_hex(bytes.as_slice());
    append(&mut out, ".json");
    out
}

/// The file name of a release group's cached cover with extension `extension`.
pub fn artwork_file_name(release_group_id: &str, extension: &str) -> (r: String)
    ensures
        r@ == hex_text(sha256_digest(crate::text::utf8(release_group_id@))) + "."@ + extension@,
{
    let mut out = artwork_prefix(release_group_id);
    append(&mut out, extension);
    out
}

/// The file name recording that a release group has no cover.
pub fn artwork_absence_file_name(release_group_id: &str) -> (r: String)
    ensures
        r@ == hex_text(sha256_digest(crate::text::utf8(release_group_id@))) + ".none.json"@,
{
    let bytes = crate::text::utf8_bytes(release_group_id);
    let mut out = digest_hex(bytes.as_slice());
    append(&mut out, ".none.json");
    out
}

/// Where the entries of one kind live: the `kind` directory under the cache root.
pub open spec fn entry_directory(root: Seq<char>, kind: Seq<char>) -> Seq<char> {
    crate::destination::path_push(root, kind)
}

impl ProviderCache {
    /// The directory that holds entries of `kind` ("metadata", "artwork", "acoustid").
    pub fn directory(&self, kind: &str) -> (r: String)
        ensures
            r@ == entry_directory(self.root_view(), kind@),
    {
        crate::destination::push_path(self.root.as_str(), kind)
    }

    /// The file that marks the root as this program's cache.
    pub fn marker_path(&self) -> (r: String)
        ensures
            r@ == crate::destination::path_push(self.root_view(), MARKER@),
    {
        crate::destination::push_path(self.root.as_str(), MARKER)
    }

    /// The metadata entry of a search that encodes to `encoded_search`.
    pub fn metadata_path(&self, encoded_search: &[u8]) -> (r: String)
        ensures
            r@ == crate::destination::path_push(
                entry_directory(self.root_view(), "metadata"@),
                hex_text(sha256_digest(encoded_search@)) + ".json"@,
            ),
    {
        let directory = self.directory("metadata");
        let name = metadata_file_name(encoded_search);
        crate::destination::push_path(directory.as_str(), name.as_str())
    }

    /// The AcoustID entry of a fingerprint.
    pub fn acoustid_path(&self, fingerprint: &crate::fingerprint::AudioFingerprint) -> (r: String)
        ensures
            r@ == crate::destination::path_push(
                entry_directory(self.root_view(), "acoustid"@),
                hex_text(sha256_digest(crate::text::utf8(decimal(fingerprint.duration_seconds as nat) + "\n"@ + fingerprint.value@)))
                    + ".json"@,
            ),
    {
        let directory = self.directory("acoustid");
        let name = acoustid_file_name(fingerprint);
        crate::destination::push_path(directory.as_str(), name.as_str())
    }

    /// The artwork entry of a release group's cover with extension `extension`.
    pub fn artwork_path(&self, release_group_id: &str, extension: &str) -> (r: String)
        ensures
            r@ == crate::destination::path_push(
                entry_directory(self.root_view(), "artwork"@),
                hex_text(sha256_digest(crate::text::utf8(release_group_id@))) + "."@ + extension@,
            ),
    {
        let directory = self.directory("artwork");
        let name = artwork_file_name(release_group_id, extension);
        crate::destination::push_path(directory.as_str(), name.as_str())
    }

    /// The entry recording that a release group has no cover.
    pub fn artwork_absence_path(&self, release_group_id: &str) -> (r: String)
        ensures
            r@ == crate::destination::path_push(
                entry_directory(self.root_view(), "artwork"@),
                hex_text(sha256_digest(crate::text::utf8(release_group_id@))) + ".none.json"@,
            ),
    {
        let directory = self.directory("artwork");
        let name = artwork_absence_file_name(release_group_id);
        crate::destination::push_path(directory.as_str(), name.as_str())
    }
}

/// An entry read from `path` is usable only under the current schema.
pub fn check_schema(path: &str, found_schema: u8) -> (r: Result<(), CacheError>)
    ensures
        r is Ok <==> found_schema == CACHE_SCHEMA,
        r matches Err(e) ==> e matches CacheError::Obsolete { path: p, found_schema: f, current_schema: c }
            && p@ == path@ && f == found_schema && c == CACHE_SCHEMA,
{
    if found_schema == CACHE_SCHEMA {
        Ok(())
    } else {
        Err(CacheError::Obsolete { path: owned(path), found_schema, current_schema: CACHE_SCHEMA })
    }
}

} // verus!
