use vstd::prelude::*;

use crate::provider::cache::{freshness, freshness_at, CacheStatus, MetadataFreshness, CACHE_SCHEMA};

verus! {

/// The directory of the cache that a file was found in.
#[derive(Clone, Copy, Debug, PartialEq, Eq, Structural)]
pub enum CacheArea {
    Metadata,
    Artwork,
    AcoustId,
}

/// What a cache file turned out to hold once read.
#[derive(Clone, Copy, Debug, PartialEq, Eq, Structural)]
pub enum StoredContent {
    /// Nothing that parses as an entry of its directory.
    Unparsable,
    /// A metadata search result of `schema`, fetched at `fetched_at`.
    Metadata { schema: u8, fetched_at: u64 },
    /// A confirmed absence of artwork, of `schema`.
    ArtworkAbsence { schema: u8 },
    /// An image file, and whether it decodes.
    Image { decodes: bool },
    /// An AcoustID answer of `schema`, fetched at `fetched_at`, and whether it
    /// associates the fingerprint with any usable recording.
    AcoustId { schema: u8, fetched_at: u64, usable: bool },
}

/// One regular file of the cache, as status saw it.
#[derive(Clone, Copy, Debug, PartialEq, Eq, Structural)]
pub enum CacheFileReading {
    /// The file could not be read.
    Unreadable,
    /// The file was read from `area`: `bytes` long, holding `content`.
    Read { area: CacheArea, bytes: u64, content: StoredContent },
}

/// `a + b`, saturating at `u64::MAX`.
pub open spec fn saturating(a: u64, b: u64) -> u64 {
    if a + b > u64::MAX { u64::MAX } else { (a + b) as u64 }
}

/// `n + 1` as a count.
pub open spec fn one_more(n: usize) -> usize {
    (n + 1) as usize
}

/// The status once one more file is counted: every readable file adds its size
/// to the total (and, under the AcoustID directory, to the AcoustID bytes); each
/// file counts once, as damaged, obsolete, or by kind and freshness at `now`.
pub open spec fn tally(s: CacheStatus, reading: CacheFileReading, now: u64) -> CacheStatus {
    match reading {
        CacheFileReading::Unreadable => CacheStatus { damaged_entries: one_more(s.damaged_entries), ..s },
        CacheFileReading::Read { area, bytes, content } => {
            let s = CacheStatus {
                total_bytes: saturating(s.total_bytes, bytes),
                acoustid_bytes: if area == CacheArea::AcoustId { saturating(s.acoustid_bytes, bytes) } else { s.acoustid_bytes },
                ..s
            };
            match content {
                StoredContent::Unparsable => CacheStatus { damaged_entries: one_more(s.damaged_entries), ..s },
                StoredContent::Metadata { schema, fetched_at } => if schema != CACHE_SCHEMA {
                    CacheStatus { obsolete_entries: one_more(s.obsolete_entries), ..s }
                } else if freshness_at(fetched_at, now) == MetadataFreshness::Fresh {
                    CacheStatus { fresh_metadata: one_more(s.fresh_metadata), ..s }
                } else {
                    CacheStatus { stale_metadata: one_more(s.stale_metadata), ..s }
                },
                StoredContent::ArtworkAbsence { schema } => if schema != CACHE_SCHEMA {
                    CacheStatus { obsolete_entries: one_more(s.obsolete_entries), ..s }
                } else {
                    CacheStatus { confirmed_artwork_absences: one_more(s.confirmed_artwork_absences), ..s }
                },
                StoredContent::Image { decodes } => if decodes {
                    CacheStatus {
                        artwork_entries: one_more(s.artwork_entries),
                        artwork_bytes: saturating(s.artwork_bytes, bytes),
                        ..s
                    }
                } else {
                    CacheStatus { damaged_entries: one_more(s.damaged_entries), ..s }
                },
                StoredContent::AcoustId { schema, fetched_at, usable } => if schema != CACHE_SCHEMA {
                    CacheStatus { obsolete_entries: one_more(s.obsolete_entries), ..s }
                } else if !usable {
                    CacheStatus { acoustid_no_matches: one_more(s.acoustid_no_matches), ..s }
                } else if freshness_at(fetched_at, now) == MetadataFreshness::Fresh {
                    CacheStatus { fresh_acoustid: one_more(s.fresh_acoustid), ..s }
                } else {
                    CacheStatus { stale_acoustid: one_more(s.stale_acoustid), ..s }
                },
            }
        },
    }
}

/// The status of the cache at `location`, pruned to `max_bytes`, before any file is counted.
pub open spec fn blank_status(location: String, max_bytes: u64) -> CacheStatus {
    CacheStatus {
        location,
        total_bytes: 0,
        max_bytes,
        fresh_metadata: 0,
        stale_metadata: 0,
        artwork_entries: 0,
        artwork_bytes: 0,
        confirmed_artwork_absences: 0,
        fresh_acoustid: 0,
        stale_acoustid: 0,
        acoustid_no_matches: 0,
        acoustid_bytes: 0,
        obsolete_entries: 0,
        damaged_entries: 0,
    }
}

/// The counts after the first `n` files, starting from `s`.
pub open spec fn tallied(s: CacheStatus, readings: Seq<CacheFileReading>, n: nat, now: u64) -> CacheStatus
    decreases n,
{
    if n == 0 || n > readings.len() {
        s
    } else {
        tally(tallied(s, readings, (n - 1) as nat, now), readings[n - 1], now)
    }
}

/// The number of files a status has counted, one category each.
pub open spec fn counted(s: CacheStatus) -> int {
    s.fresh_metadata + s.stale_metadata + s.artwork_entries + s.confirmed_artwork_absences + s.fresh_acoustid
        + s.stale_acoustid + s.acoustid_no_matches + s.obsolete_entries + s.damaged_entries
}

/// No counter of the status exceeds `n`.
pub open spec fn counts_within(s: CacheStatus, n: int) -> bool {
    &&& s.fresh_metadata <= n && s.stale_metadata <= n && s.artwork_entries <= n
    &&& s.confirmed_artwork_absences <= n && s.fresh_acoustid <= n && s.stale_acoustid <= n
    &&& s.acoustid_no_matches <= n && s.obsolete_entries <= n && s.damaged_entries <= n
}

proof fn lemma_tally_counts_one(s: CacheStatus, reading: CacheFileReading, now: u64, k: int)
    requires
        counts_within(s, k),
        k < usize::MAX,
    ensures
        counted(tally(s, reading, now)) == counted(s) + 1,
        counts_within(tally(s, reading, now), k + 1),
        tally(s, reading, now).location == s.location,
        tally(s, reading, now).max_bytes == s.max_bytes,
{
}

/// Counting a cache's files counts each of them exactly once: the categories
/// of a status add up to the number of files read.
pub proof fn law_every_file_counted_once(location: String, max_bytes: u64, readings: Seq<CacheFileReading>, now: u64)
    requires
        readings.len() < usize::MAX,
    ensures
        counted(tallied(blank_status(location, max_bytes), readings, readings.len(), now)) == readings.len(),
{
    lemma_tallied_counts(blank_status(location, max_bytes), readings, readings.len(), now);
}

proof fn lemma_tallied_counts(s: CacheStatus, readings: Seq<CacheFileReading>, n: nat, now: u64)
    requires
        n <= readings.len() < usize::MAX,
        counted(s) == 0,
        counts_within(s, 0),
    ensures
        counted(tallied(s, readings, n, now)) == n,
        counts_within(tallied(s, readings, n, now), n as int),
        tallied(s, readings, n, now).location == s.location,
        tallied(s, readings, n, now).max_bytes == s.max_bytes,
    decreases n,
{
    if n > 0 {
        lemma_tallied_counts(s, readings, (n - 1) as nat, now);
        lemma_tally_counts_one(tallied(s, readings, (n - 1) as nat, now), readings[n - 1], now, n - 1);
    }
}

/// `a + b`, saturating.
fn saturating_add(a: u64, b: u64) -> (r: u64)
    ensures
        r == saturating(a, b),
{
    a.saturating_add(b)
}

/// Counts one more file into `status`.
fn count_file(status: &mut CacheStatus, reading: CacheFileReading, now: u64, Ghost(limit): Ghost<int>)
    requires
        counts_within(*old(status), limit),
        limit < usize::MAX,
    ensures
        *final(status) == tally(*old(status), reading, now),
        counts_within(*final(status), limit + 1),
{
    match reading {
        CacheFileReading::Unreadable => {
            status.damaged_entries = status.damaged_entries + 1;
        },
        CacheFileReading::Read { area, bytes, content } => {
            status.total_bytes = saturating_add(status.total_bytes, bytes);
            if area == CacheArea::AcoustId {
                status.acoustid_bytes = saturating_add(status.acoustid_bytes, bytes);
            }
            match content {
                StoredContent::Unparsable => {
                    status.damaged_entries = status.damaged_entries + 1;
                },
                StoredContent::Metadata { schema, fetched_at } => {
                    if schema != CACHE_SCHEMA {
                        status.obsolete_entries = status.obsolete_entries + 1;
                    } else if freshness(fetched_at, now) == MetadataFreshness::Fresh {
                        status.fresh_metadata = status.fresh_metadata + 1;
                    } else {
                        status.stale_metadata = status.stale_metadata + 1;
                    }
                },
                StoredContent::ArtworkAbsence { schema } => {
                    if schema != CACHE_SCHEMA {
                        status.obsolete_entries = status.obsolete_entries + 1;
                    } else {
                        status.confirmed_artwork_absences = status.confirmed_artwork_absences + 1;
                    }
                },
                StoredContent::Image { decodes } => {
                    if decodes {
                        status.artwork_entries = status.artwork_entries + 1;
                        status.artwork_bytes = saturating_add(status.artwork_bytes, bytes);
                    } else {
                        status.damaged_entries = status.damaged_entries + 1;
                    }
                },
                StoredContent::AcoustId { schema, fetched_at, usable } => {
                    if schema != CACHE_SCHEMA {
                        status.obsolete_entries = status.obsolete_entries + 1;
                    } else if !usable {
                        status.acoustid_no_matches = status.acoustid_no_matches + 1;
                    } else if freshness(fetched_at, now) == MetadataFreshness::Fresh {
                        status.fresh_acoustid = status.fresh_acoustid + 1;
                    } else {
                        status.stale_acoustid = status.stale_acoustid + 1;
                    }
                },
            }
        },
    }
}

/// The status of the cache at `location`, pruned to `max_bytes`, from what
/// reading each of its regular files showed, at `now`.
pub fn cache_status(location: String, max_bytes: u64, readings: &Vec<CacheFileReading>, now: u64) -> (r: CacheStatus)
    ensures
        r == tallied(blank_status(location, max_bytes), readings@, readings@.len(), now),
{
    let ghost start = blank_status(location, max_bytes);
    let mut status = CacheStatus {
        location,
        total_bytes: 0,
        max_bytes,
        fresh_metadata: 0,
        stale_metadata: 0,
        artwork_entries: 0,
        artwork_bytes: 0,
        confirmed_artwork_absences: 0,
        fresh_acoustid: 0,
        stale_acoustid: 0,
        acoustid_no_matches: 0,
        acoustid_bytes: 0,
        obsolete_entries: 0,
        damaged_entries: 0,
    };
    let mut i: usize = 0;
    while i < readings.len()
        invariant
            i <= readings@.len(),
            status == tallied(start, readings@, i as nat, now),
            counts_within(status, i as int),
        decreases readings@.len() - i,
    {
        count_file(&mut status, readings[i], now, Ghost(i as int));
        i = i + 1;
    }
    status
}

} // verus!
