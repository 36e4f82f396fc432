use vstd::prelude::*;

use crate::domain::{same_position, InspectedTrack, InspectedTrackV, Inspection, SourceKind};
use crate::matching::{MatchDecision, RankedCandidate};
use crate::provider::search::search_key;
use crate::text::{all_whitespace, collapse_ws, is_blank, owned, text_eq, to_lowercase};

verus! {

/// Where the metadata for a plan comes from, as the user settled it.
#[derive(Debug)]
pub enum MetadataSelection {
    Provider(Box<RankedCandidate>),
    ExistingTags,
    Cancelled,
}

/// A value that is absent or only whitespace.
pub open spec fn blank(value: Option<Seq<char>>) -> bool {
    match value {
        None => true,
        Some(v) => all_whitespace(v),
    }
}

/// Whether the album titles (`album == true`) or album artists of the tracks that
/// have one differ in their comparison key.
pub open spec fn values_disagree(ts: Seq<InspectedTrackV>, album: bool) -> bool {
    exists|i: int, j: int|
        0 <= i < ts.len() && 0 <= j < ts.len() && #[trigger] album_value(ts[i], album) is Some && #[trigger] album_value(ts[j], album) is Some
            && search_key(album_value(ts[i], album)->0) != search_key(album_value(ts[j], album)->0)
}

/// A track's album title, or its album artist.
pub open spec fn album_value(t: InspectedTrackV, album: bool) -> Option<Seq<char>> {
    if album { t.album } else { t.album_artist }
}

/// Whether some track lacks a position or two tracks share one.
pub open spec fn positions_defective(ts: Seq<InspectedTrackV>) -> bool {
    ||| exists|i: int| 0 <= i < ts.len() && (#[trigger] ts[i]).position is None
    ||| exists|i: int, j: int| 0 <= i < j < ts.len() && (#[trigger] ts[i]).position == (#[trigger] ts[j]).position
}

/// The problems that keep existing tags from serving as metadata, each with the
/// condition that raises it, in the order they are reported (sorted by text).
pub open spec fn problem_list(kind: SourceKind, ts: Seq<InspectedTrackV>) -> Seq<(bool, Seq<char>)> {
    let album = kind == SourceKind::AlbumDirectory;
    seq![
        (album && exists|i: int| 0 <= i < ts.len() && (#[trigger] ts[i]).position is None, "a disc or track number is missing"@),
        (exists|i: int| 0 <= i < ts.len() && blank((#[trigger] ts[i]).artist), "a track artist is missing"@),
        (exists|i: int| 0 <= i < ts.len() && blank((#[trigger] ts[i]).title), "a track title is missing"@),
        (album && values_disagree(ts, false), "album artists disagree"@),
        (album && values_disagree(ts, true), "album titles disagree"@),
        (album && exists|i: int| 0 <= i < ts.len() && blank((#[trigger] ts[i]).album_artist), "an album artist is missing"@),
        (album && exists|i: int| 0 <= i < ts.len() && blank((#[trigger] ts[i]).album), "an album title is missing"@),
        (album && positions_defective(ts), "disc-track positions are duplicated or missing"@),
        (ts.len() == 0, "no audio tracks"@),
    ]
}

/// The texts of the raised problems, in order.
pub open spec fn raised(problems: Seq<(bool, Seq<char>)>) -> Seq<Seq<char>>
    decreases problems.len(),
{
    if problems.len() == 0 {
        Seq::empty()
    } else {
        let before = raised(problems.drop_last());
        if problems.last().0 { before.push(problems.last().1) } else { before }
    }
}

fn blank_of(value: &Option<String>) -> (r: bool)
    ensures
        r == blank(value.deep_view()),
{
    match value {
        None => true,
        Some(v) => is_blank(v.as_str()),
    }
}

fn album_value_of(t: &InspectedTrack, album: bool) -> (r: &Option<String>)
    ensures
        r.deep_view() == album_value(t.deep_view(), album),
{
    if album { &t.album } else { &t.album_artist }
}

/// Whether two texts have the same comparison key.
fn same_key(a: &str, b: &str) -> (r: bool)
    ensures
        r == (search_key(a@) == search_key(b@)),
{
    let x = to_lowercase(collapse_ws(a).as_str());
    let y = to_lowercase(collapse_ws(b).as_str());
    text_eq(x.as_str(), y.as_str())
}

/// Whether the present album titles (or album artists) of the tracks disagree.
fn disagree(tracks: &Vec<InspectedTrack>, album: bool) -> (r: bool)
    ensures
        r == values_disagree(tracks.deep_view(), album),
{
    let ghost ts = tracks.deep_view();
    let mut first: Option<usize> = None;
    let mut i: usize = 0;
    while i < tracks.len()
        invariant
            i <= tracks@.len(),
            ts == tracks.deep_view(),
            match first {
                None => forall|k: int| 0 <= k < i ==> (#[trigger] album_value(ts[k], album)) is None,
                Some(f) => f < i && album_value(ts[f as int], album) is Some && forall|k: int|
                    0 <= k < i && (#[trigger] album_value(ts[k], album)) is Some ==> search_key(album_value(ts[k], album)->0) == search_key(
                        album_value(ts[f as int], album)->0,
                    ),
            },
        decreases tracks@.len() - i,
    {
        assert(ts[i as int] == tracks@[i as int].deep_view());
        match album_value_of(&tracks[i], album) {
            None => {},
            Some(v) => match first {
                None => {
                    first = Some(i);
                },
                Some(f) => {
                    assert(ts[f as int] == tracks@[f as int].deep_view());
                    let reference = match album_value_of(&tracks[f], album) {
                        Some(w) => w,
                        None => {
                            return false;
                        },
                    };
                    if !same_key(v.as_str(), reference.as_str()) {
                        assert(album_value(ts[i as int], album) is Some && album_value(ts[f as int], album) is Some);
                        return true;
                    }
                },
            },
        }
        i = i + 1;
    }
    proof {
        assert forall|a: int, b: int|
            0 <= a < ts.len() && 0 <= b < ts.len() && #[trigger] album_value(ts[a], album) is Some && #[trigger] album_value(ts[b], album) is Some
            implies search_key(album_value(ts[a], album)->0) == search_key(album_value(ts[b], album)->0) by {
        }
    }
    false
}

/// Whether any track lacks a position.
fn some_position_missing(tracks: &Vec<InspectedTrack>) -> (r: bool)
    ensures
        r == exists|i: int| 0 <= i < tracks.deep_view().len() && (#[trigger] tracks.deep_view()[i]).position is None,
{
    let ghost ts = tracks.deep_view();
    let mut i: usize = 0;
    while i < tracks.len()
        invariant
            i <= tracks@.len(),
            ts == tracks.deep_view(),
            forall|k: int| 0 <= k < i ==> (#[trigger] ts[k]).position is Some,
        decreases tracks@.len() - i,
    {
        assert(ts[i as int] == tracks@[i as int].deep_view());
        if tracks[i].position.is_none() {
            return true;
        }
        i = i + 1;
    }
    false
}

/// Whether some track lacks a position or two share one.
fn positions_defective_of(tracks: &Vec<InspectedTrack>) -> (r: bool)
    ensures
        r == positions_defective(tracks.deep_view()),
{
    let ghost ts = tracks.deep_view();
    if some_position_missing(tracks) {
        return true;
    }
    let mut i: usize = 0;
    while i < tracks.len()
        invariant
            i <= tracks@.len(),
            ts == tracks.deep_view(),
            forall|a: int, b: int| 0 <= a < b < ts.len() && a < i ==> (#[trigger] ts[a]).position != (#[trigger] ts[b]).position,
        decreases tracks@.len() - i,
    {
        let mut j: usize = i + 1;
        while j < tracks.len()
            invariant
                i < j <= tracks@.len(),
                ts == tracks.deep_view(),
                forall|a: int, b: int| 0 <= a < b < ts.len() && a < i ==> (#[trigger] ts[a]).position != (#[trigger] ts[b]).position,
                forall|b: int| i < b < j ==> ts[i as int].position != (#[trigger] ts[b]).position,
            decreases tracks@.len() - j,
        {
            assert(ts[i as int] == tracks@[i as int].deep_view());
            assert(ts[j as int] == tracks@[j as int].deep_view());
            let same = match (tracks[i].position, tracks[j].position) {
                (Some(a), Some(b)) => same_position(a, b),
                (None, None) => true,
                _ => false,
            };
            if same {
                assert(ts[i as int].position == ts[j as int].position);
                return true;
            }
            j = j + 1;
        }
        i = i + 1;
    }
    false
}

/// Whether any track's title (`which == 0`), artist (`1`), album (`2`) or album artist (`3`) is blank.
fn any_blank(tracks: &Vec<InspectedTrack>, which: u8) -> (r: bool)
    requires
        which < 4,
    ensures
        r == exists|i: int| 0 <= i < tracks.deep_view().len() && blank(#[trigger] chosen_text(tracks.deep_view()[i], which)),
{
    let ghost ts = tracks.deep_view();
    let mut i: usize = 0;
    while i < tracks.len()
        invariant
            i <= tracks@.len(),
            which < 4,
            ts == tracks.deep_view(),
            forall|k: int| 0 <= k < i ==> !blank(#[trigger] chosen_text(ts[k], which)),
        decreases tracks@.len() - i,
    {
        assert(ts[i as int] == tracks@[i as int].deep_view());
        let track = &tracks[i];
        let value = if which == 0 {
            &track.title
        } else if which == 1 {
            &track.artist
        } else if which == 2 {
            &track.album
        } else {
            &track.album_artist
        };
        if blank_of(value) {
            assert(blank(chosen_text(ts[i as int], which)));
            return true;
        }
        i = i + 1;
    }
    false
}

/// The title, artist, album or album artist of a track.
pub open spec fn chosen_text(t: InspectedTrackV, which: u8) -> Option<Seq<char>> {
    if which == 0 {
        t.title
    } else if which == 1 {
        t.artist
    } else if which == 2 {
        t.album
    } else {
        t.album_artist
    }
}

/// Whether the existing tags can stand in for provider metadata: `Ok` when every
/// track is titled and credited (and, for an album, carries one album title, one
/// album artist and a distinct position), else the problems, sorted and each once.
pub fn coherent_existing_metadata(inspection: &Inspection) -> (r: Result<(), Vec<String>>)
    ensures
        match r {
            Ok(()) => raised(problem_list(inspection.kind, inspection.tracks.deep_view())).len() == 0,
            Err(problems) => problems.deep_view() == raised(problem_list(inspection.kind, inspection.tracks.deep_view()))
                && problems@.len() > 0,
        },
{
    let ghost ts = inspection.tracks.deep_view();
    let tracks = &inspection.tracks;
    let album = match inspection.kind {
        SourceKind::AlbumDirectory => true,
        SourceKind::LooseFile => false,
    };
    let mut flags: Vec<bool> = Vec::new();
    let mut texts: Vec<&str> = Vec::new();
    flags.push(album && some_position_missing(tracks));
    texts.push("a disc or track number is missing");
    flags.push(any_blank(tracks, 1));
    texts.push("a track artist is missing");
    flags.push(any_blank(tracks, 0));
    texts.push("a track title is missing");
    flags.push(album && disagree(tracks, false));
    texts.push("album artists disagree");
    flags.push(album && disagree(tracks, true));
    texts.push("album titles disagree");
    flags.push(album && any_blank(tracks, 3));
    texts.push("an album artist is missing");
    flags.push(album && any_blank(tracks, 2));
    texts.push("an album title is missing");
    flags.push(album && positions_defective_of(tracks));
    texts.push("disc-track positions are duplicated or missing");
    flags.push(tracks.len() == 0);
    texts.push("no audio tracks");
    let ghost expected = problem_list(inspection.kind, ts);
    proof {
        assert forall|i: int| 0 <= i < ts.len() implies #[trigger] chosen_text(ts[i], 1) == ts[i].artist by {}
        assert((exists|i: int| 0 <= i < ts.len() && blank(#[trigger] chosen_text(ts[i], 1))) == (exists|i: int|
            0 <= i < ts.len() && blank((#[trigger] ts[i]).artist))) by {
            if exists|i: int| 0 <= i < ts.len() && blank((#[trigger] ts[i]).artist) {
                let i = choose|i: int| 0 <= i < ts.len() && blank((#[trigger] ts[i]).artist);
                assert(blank(chosen_text(ts[i], 1)));
            }
        }
        assert((exists|i: int| 0 <= i < ts.len() && blank(#[trigger] chosen_text(ts[i], 0))) == (exists|i: int|
            0 <= i < ts.len() && blank((#[trigger] ts[i]).title))) by {
            if exists|i: int| 0 <= i < ts.len() && blank((#[trigger] ts[i]).title) {
                let i = choose|i: int| 0 <= i < ts.len() && blank((#[trigger] ts[i]).title);
                assert(blank(chosen_text(ts[i], 0)));
            }
        }
        assert((exists|i: int| 0 <= i < ts.len() && blank(#[trigger] chosen_text(ts[i], 2))) == (exists|i: int|
            0 <= i < ts.len() && blank((#[trigger] ts[i]).album))) by {
            if exists|i: int| 0 <= i < ts.len() && blank((#[trigger] ts[i]).album) {
                let i = choose|i: int| 0 <= i < ts.len() && blank((#[trigger] ts[i]).album);
                assert(blank(chosen_text(ts[i], 2)));
            }
        }
        assert((exists|i: int| 0 <= i < ts.len() && blank(#[trigger] chosen_text(ts[i], 3))) == (exists|i: int|
            0 <= i < ts.len() && blank((#[trigger] ts[i]).album_artist))) by {
            if exists|i: int| 0 <= i < ts.len() && blank((#[trigger] ts[i]).album_artist) {
                let i = choose|i: int| 0 <= i < ts.len() && blank((#[trigger] ts[i]).album_artist);
                assert(blank(chosen_text(ts[i], 3)));
            }
        }
        reveal_strlit("a disc or track number is missing");
        reveal_strlit("a track artist is missing");
        reveal_strlit("a track title is missing");
        reveal_strlit("album artists disagree");
        reveal_strlit("album titles disagree");
        reveal_strlit("an album artist is missing");
        reveal_strlit("an album title is missing");
        reveal_strlit("disc-track positions are duplicated or missing");
        reveal_strlit("no audio tracks");
        assert(expected.len() == 9);
        assert(flags@.len() == 9 && texts@.len() == 9);
        assert forall|k: int| 0 <= k < 9 implies #[trigger] flags@[k] == expected[k].0 && texts@[k]@ == expected[k].1 by {}
    }
    let mut problems: Vec<String> = Vec::new();
    let mut k: usize = 0;
    while k < flags.len()
        invariant
            k <= 9,
            flags@.len() == 9,
            texts@.len() == 9,
            expected.len() == 9,
            forall|m: int| 0 <= m < 9 ==> #[trigger] flags@[m] == expected[m].0 && texts@[m]@ == expected[m].1,
            problems.deep_view() == raised(expected.take(k as int)),
        decreases 9 - k,
    {
        assert(expected.take(k + 1).drop_last() =~= expected.take(k as int));
        if flags[k] {
            let ghost before = problems.deep_view();
            problems.push(owned(texts[k]));
            assert(problems.deep_view() =~= before.push(expected[k as int].1));
        }
        k = k + 1;
    }
    assert(expected.take(9) =~= expected);
    if problems.len() == 0 {
        Ok(())
    } else {
        Err(problems)
    }
}

/// What an answer to the candidate prompt asks for.
#[derive(Clone, Copy, Debug, PartialEq, Eq)]
pub enum CandidateAnswer {
    /// The candidate at this index (counted from zero) of those shown.
    Pick(usize),
    ShowMore,
    UseExisting,
    Cancel,
    Unrecognized,
}

/// The value of a text of decimal digits, when it is one.
pub open spec fn digits_value(s: Seq<char>) -> Option<nat>
    decreases s.len(),
{
    if s.len() == 0 || !('0' <= s.last() && s.last() <= '9') {
        None
    } else if s.len() == 1 {
        Some((s.last() as int - '0' as int) as nat)
    } else {
        match digits_value(s.drop_last()) {
            Some(v) => Some(v * 10 + (s.last() as int - '0' as int) as nat),
            None => None,
        }
    }
}

/// `str::parse::<usize>` read as a number: digits, optionally after one `+`.
pub open spec fn number_value(s: Seq<char>) -> Option<nat> {
    if s.len() > 0 && s[0] == '+' { digits_value(s.drop_first()) } else { digits_value(s) }
}

/// `str::to_ascii_lowercase`.
pub open spec fn ascii_lowered(s: Seq<char>) -> Seq<char> {
    s.map_values(|c: char| crate::text::ascii_lower(c))
}

/// How an answer to the candidate prompt is read: a shown number picks that
/// candidate; `m`/`more` shows all when some are hidden; `e`/`existing` takes the
/// existing tags when they are coherent; `c`/`cancel`/`q`/`quit` cancels.
pub open spec fn candidate_answer(answer: Seq<char>, shown: nat, total: nat, existing_usable: bool) -> CandidateAnswer {
    let word = ascii_lowered(answer);
    let picked = match number_value(answer) {
        Some(n) => 1 <= n <= shown,
        None => false,
    };
    if picked {
        CandidateAnswer::Pick((number_value(answer)->0 - 1) as usize)
    } else if (word == "m"@ || word == "more"@) && shown < total {
        CandidateAnswer::ShowMore
    } else if (word == "e"@ || word == "existing"@) && existing_usable {
        CandidateAnswer::UseExisting
    } else if word == "c"@ || word == "cancel"@ || word == "q"@ || word == "quit"@ {
        CandidateAnswer::Cancel
    } else {
        CandidateAnswer::Unrecognized
    }
}

proof fn lemma_digits_value_prefix(s: Seq<char>, i: int)
    requires
        0 < i <= s.len(),
        forall|k: int| 0 <= k < i ==> '0' <= #[trigger] s[k] && s[k] <= '9',
    ensures
        digits_value(s.take(i)) is Some,
        i < s.len() && '0' <= s[i] && s[i] <= '9' ==> digits_value(s.take(i + 1)) == Some(
            (digits_value(s.take(i))->0) * 10 + (s[i] as int - '0' as int) as nat,
        ),
    decreases i,
{
    if i < s.len() {
        assert(s.take(i + 1).drop_last() =~= s.take(i));
    }
    if i > 1 {
        assert(s.take(i).drop_last() =~= s.take(i - 1));
        lemma_digits_value_prefix(s, i - 1);
    }
}

/// The number a text of digits (after an optional `+`) spells: `None` when it spells
/// no number; otherwise whether it exceeds `limit` and, when it does not, its value.
pub(crate) fn read_number(answer: &str, limit: u64) -> (r: Option<(u64, bool)>)
    ensures
        match number_value(answer@) {
            None => r is None,
            Some(n) => r matches Some((v, over)) && over == (n > limit) && (!over ==> v == n),
        },
{
    let chars = crate::text::chars_of(answer);
    let ghost s = answer@;
    let start: usize = if chars.len() > 0 && chars[0] == '+' { 1 } else { 0 };
    let ghost digits = s.skip(start as int);
    assert(start == 1 ==> digits =~= s.drop_first());
    assert(start == 0 ==> digits =~= s);
    assert(number_value(s) == digits_value(digits));
    if start == chars.len() {
        return None;
    }
    let mut value: u64 = 0;
    let mut over = false;
    let mut i: usize = start;
    while i < chars.len()
        invariant
            chars@ == s,
            s == answer@,
            start < chars@.len(),
            digits == s.skip(start as int),
            number_value(s) == digits_value(digits),
            start <= i <= chars@.len(),
            forall|k: int| start <= k < i ==> '0' <= #[trigger] s[k] && s[k] <= '9',
            i > start ==> digits_value(digits.take(i - start)) is Some,
            i > start && !over ==> value == digits_value(digits.take(i - start))->0 && value <= limit,
            i > start && over ==> digits_value(digits.take(i - start))->0 > limit,
            i == start ==> value == 0 && !over,
        decreases chars@.len() - i,
    {
        let c = chars[i];
        if !('0' <= c && c <= '9') {
            proof {
                assert(digits[i - start] == c);
                lemma_digits_none(digits, i - start);
            }
            return None;
        }
        proof {
            assert(digits[i - start] == c);
            assert forall|k: int| 0 <= k < i - start + 1 implies '0' <= #[trigger] digits[k] && digits[k] <= '9' by {
                assert(digits[k] == s[k + start]);
            }
            lemma_digits_value_prefix(digits, i - start + 1);
            if i > start {
                lemma_digits_value_prefix(digits, i - start);
            } else {
                assert(digits.take(1).last() == c);
            }
        }
        let d = (c as u32 - 48) as u64;
        if !over {
            if d > limit || value > (limit - d) / 10 {
                over = true;
                assert(value * 10 + d > limit) by (nonlinear_arith)
                    requires
                        d > limit || value > (limit - d) / 10,
                        d <= 9,
                ;
            } else {
                assert(value * 10 + d <= limit) by (nonlinear_arith)
                    requires
                        value <= (limit - d) / 10,
                        d <= 9,
                ;
                value = value * 10 + d;
            }
        }
        i = i + 1;
    }
    assert(digits.take(digits.len() as int) =~= digits);
    Some((value, over))
}

/// The number a text of digits (after an optional `+`) spells, capped just above
/// `limit`: `Some(n)` with `n <= limit` when it spells `n`, `Some(limit + 1)` when it
/// spells more, `None` when it spells no number.
pub(crate) fn capped_number(answer: &str, limit: usize) -> (r: Option<usize>)
    requires
        limit < usize::MAX,
    ensures
        match number_value(answer@) {
            None => r is None,
            Some(n) => r matches Some(v) && (if n <= limit { v == n } else { v == limit + 1 }),
        },
{
    match read_number(answer, limit as u64) {
        Some((v, over)) => if over { Some(limit + 1) } else { Some(v as usize) },
        None => None,
    }
}

proof fn lemma_digits_none(s: Seq<char>, i: int)
    requires
        0 <= i < s.len(),
        !('0' <= s[i] && s[i] <= '9'),
    ensures
        digits_value(s) is None,
    decreases s.len(),
{
    if i < s.len() - 1 {
        lemma_digits_none(s.drop_last(), i);
    }
}

/// How an answer to the candidate prompt is read, with `shown` of `total` candidates listed.
pub fn interpret_candidate_answer(answer: &str, shown: usize, total: usize, existing_usable: bool) -> (r: CandidateAnswer)
    requires
        shown < usize::MAX,
    ensures
        r == candidate_answer(answer@, shown as nat, total as nat, existing_usable),
{
    match capped_number(answer, shown) {
        Some(n) => {
            if 1 <= n && n <= shown {
                return CandidateAnswer::Pick(n - 1);
            }
        },
        None => {},
    }
    let word = crate::text::to_ascii_lowercase(answer);
    assert(word@ == ascii_lowered(answer@));
    proof {
        reveal_strlit("m");
        reveal_strlit("more");
        reveal_strlit("e");
        reveal_strlit("existing");
        reveal_strlit("c");
        reveal_strlit("cancel");
        reveal_strlit("q");
        reveal_strlit("quit");
    }
    if shown < total && (text_eq(word.as_str(), "m") || text_eq(word.as_str(), "more")) {
        CandidateAnswer::ShowMore
    } else if existing_usable && (text_eq(word.as_str(), "e") || text_eq(word.as_str(), "existing")) {
        CandidateAnswer::UseExisting
    } else if text_eq(word.as_str(), "c") || text_eq(word.as_str(), "cancel") || text_eq(word.as_str(), "q")
        || text_eq(word.as_str(), "quit") {
        CandidateAnswer::Cancel
    } else {
        CandidateAnswer::Unrecognized
    }
}

/// What an answer to the existing-tags question says.
#[derive(Clone, Copy, Debug, PartialEq, Eq)]
pub enum FallbackAnswer {
    UseExisting,
    Cancel,
    Unrecognized,
}

/// Empty, `y` or `yes` accepts the existing tags; `n`, `no`, `c` or `cancel`
/// declines; anything else is asked again (letters compared without ASCII case).
pub open spec fn fallback_answer(answer: Seq<char>) -> FallbackAnswer {
    let word = ascii_lowered(answer);
    if word == ""@ || word == "y"@ || word == "yes"@ {
        FallbackAnswer::UseExisting
    } else if word == "n"@ || word == "no"@ || word == "c"@ || word == "cancel"@ {
        FallbackAnswer::Cancel
    } else {
        FallbackAnswer::Unrecognized
    }
}

/// How an answer to the existing-tags question is read.
pub fn interpret_fallback_answer(answer: &str) -> (r: FallbackAnswer)
    ensures
        r == fallback_answer(answer@),
{
    let word = crate::text::to_ascii_lowercase(answer);
    assert(word@ == ascii_lowered(answer@));
    proof {
        reveal_strlit("");
        reveal_strlit("y");
        reveal_strlit("yes");
        reveal_strlit("n");
        reveal_strlit("no");
        reveal_strlit("c");
        reveal_strlit("cancel");
    }
    if text_eq(word.as_str(), "") || text_eq(word.as_str(), "y") || text_eq(word.as_str(), "yes") {
        FallbackAnswer::UseExisting
    } else if text_eq(word.as_str(), "n") || text_eq(word.as_str(), "no") || text_eq(word.as_str(), "c")
        || text_eq(word.as_str(), "cancel") {
        FallbackAnswer::Cancel
    } else {
        FallbackAnswer::Unrecognized
    }
}

/// How many candidates are listed at first: three at most.
pub fn initially_shown(total: usize) -> (r: usize)
    ensures
        r == if total < 3 { total } else { 3 },
{
    if total < 3 { total } else { 3 }
}

/// Law: existing tags are accepted only when every track has a title and an artist,
/// and, for an album, every track has an album, an album artist and a position of
/// its own.
pub proof fn law_accepted_tags_are_complete(kind: SourceKind, ts: Seq<InspectedTrackV>)
    requires
        raised(problem_list(kind, ts)).len() == 0,
    ensures
        ts.len() > 0,
        forall|i: int| 0 <= i < ts.len() ==> !blank((#[trigger] ts[i]).title) && !blank(ts[i].artist),
        kind == SourceKind::AlbumDirectory ==> forall|i: int|
            0 <= i < ts.len() ==> !blank((#[trigger] ts[i]).album) && !blank(ts[i].album_artist) && ts[i].position is Some,
        kind == SourceKind::AlbumDirectory ==> forall|i: int, j: int|
            0 <= i < j < ts.len() ==> (#[trigger] ts[i]).position != (#[trigger] ts[j]).position,
{
    let problems = problem_list(kind, ts);
    lemma_raised_empty(problems);
    assert(!problems[8].0);
    assert(!problems[2].0);
    assert(!problems[1].0);
    assert forall|i: int| 0 <= i < ts.len() implies !blank((#[trigger] ts[i]).title) && !blank(ts[i].artist) by {
        assert(!(exists|k: int| 0 <= k < ts.len() && blank((#[trigger] ts[k]).title)));
        assert(!(exists|k: int| 0 <= k < ts.len() && blank((#[trigger] ts[k]).artist)));
    }
    if kind == SourceKind::AlbumDirectory {
        assert(!problems[5].0 && !problems[6].0 && !problems[0].0 && !problems[7].0);
    }
}

proof fn lemma_raised_empty(problems: Seq<(bool, Seq<char>)>)
    requires
        raised(problems).len() == 0,
    ensures
        forall|k: int| 0 <= k < problems.len() ==> !(#[trigger] problems[k]).0,
    decreases problems.len(),
{
    if problems.len() > 0 {
        let before = raised(problems.drop_last());
        if problems.last().0 {
            assert(before.push(problems.last().1).len() > 0);
        }
        lemma_raised_empty(problems.drop_last());
        assert forall|k: int| 0 <= k < problems.len() implies !(#[trigger] problems[k]).0 by {
            if k < problems.len() - 1 {
                assert(problems.drop_last()[k] == problems[k]);
            }
        }
    }
}

// ---------------------------------------------------------------------------
// Choosing the metadata
// ---------------------------------------------------------------------------

/// Where the choice of metadata stands.
#[derive(Clone, Copy, Debug, PartialEq, Eq, Structural)]
pub enum ChoicePhase {
    /// `shown` of `total` candidates are listed; `existing_usable` says whether the
    /// existing tags may be offered instead.
    Candidates { shown: usize, total: usize, existing_usable: bool },
    /// No candidate is usable; the coherent existing tags are offered.
    Fallback,
    Finished,
}

/// How the choice of metadata ended.
#[derive(Clone, Copy, Debug, PartialEq, Eq, Structural)]
pub enum ChoiceOutcome {
    /// The candidate matching selected on its own.
    Selected,
    /// The listed candidate at this index, counted from zero.
    Candidate(usize),
    ExistingTags,
    Cancelled,
}

/// What the choice of metadata does next.
#[derive(Clone, Copy, Debug, PartialEq, Eq, Structural)]
pub enum ChoiceAction {
    /// List the first `shown` candidates and the actions on offer, and ask.
    ListCandidates { shown: usize },
    ComplainThenListCandidates { shown: usize },
    /// Say that no defensible match was found and ask whether to use the existing tags.
    AskFallback,
    ComplainThenAskFallback,
    /// Say that reliable metadata cannot be built, listing what the existing tags lack.
    ExplainIncomplete,
    /// End with this outcome (after announcing a clear match, when selected).
    Finish(ChoiceOutcome),
}

/// The choice starts from the matching decision: a clear match ends it; a choice
/// lists at most three candidates first; without a usable match the existing tags
/// are offered when coherent, and otherwise the choice ends, cancelled, after
/// saying why.
pub open spec fn choice_begins(decision: MatchDecision, existing_usable: bool) -> (ChoicePhase, ChoiceAction) {
    match decision {
        MatchDecision::Selected { .. } => (ChoicePhase::Finished, ChoiceAction::Finish(ChoiceOutcome::Selected)),
        MatchDecision::NeedsChoice(candidates) => {
            let total = candidates@.len();
            let shown = if total < 3 { total } else { 3 };
            (
                ChoicePhase::Candidates { shown: shown as usize, total: total as usize, existing_usable },
                ChoiceAction::ListCandidates { shown: shown as usize },
            )
        },
        MatchDecision::NoUsableMatch(_) => if existing_usable {
            (ChoicePhase::Fallback, ChoiceAction::AskFallback)
        } else {
            (ChoicePhase::Finished, ChoiceAction::ExplainIncomplete)
        },
    }
}

/// Starts choosing the metadata for `decision`; `existing_usable` says whether
/// the existing tags are coherent.
pub fn choice_start(decision: &MatchDecision, existing_usable: bool) -> (r: (ChoicePhase, ChoiceAction))
    ensures
        r == choice_begins(*decision, existing_usable),
{
    match decision {
        MatchDecision::Selected { .. } => (ChoicePhase::Finished, ChoiceAction::Finish(ChoiceOutcome::Selected)),
        MatchDecision::NeedsChoice(candidates) => {
            let total = candidates.len();
            let shown = initially_shown(total);
            (ChoicePhase::Candidates { shown, total, existing_usable }, ChoiceAction::ListCandidates { shown })
        },
        MatchDecision::NoUsableMatch(_) => if existing_usable {
            (ChoicePhase::Fallback, ChoiceAction::AskFallback)
        } else {
            (ChoicePhase::Finished, ChoiceAction::ExplainIncomplete)
        },
    }
}

/// How the choice goes on after an answer.
pub open spec fn choice_transition(phase: ChoicePhase, answer: Seq<char>) -> (ChoicePhase, ChoiceAction) {
    match phase {
        ChoicePhase::Candidates { shown, total, existing_usable } => match candidate_answer(
            answer,
            shown as nat,
            total as nat,
            existing_usable,
        ) {
            CandidateAnswer::Pick(i) => (ChoicePhase::Finished, ChoiceAction::Finish(ChoiceOutcome::Candidate(i))),
            CandidateAnswer::ShowMore => (
                ChoicePhase::Candidates { shown: total, total, existing_usable },
                ChoiceAction::ListCandidates { shown: total },
            ),
            CandidateAnswer::UseExisting => (ChoicePhase::Finished, ChoiceAction::Finish(ChoiceOutcome::ExistingTags)),
            CandidateAnswer::Cancel => (ChoicePhase::Finished, ChoiceAction::Finish(ChoiceOutcome::Cancelled)),
            CandidateAnswer::Unrecognized => (phase, ChoiceAction::ComplainThenListCandidates { shown }),
        },
        ChoicePhase::Fallback => match fallback_answer(answer) {
            FallbackAnswer::UseExisting => (ChoicePhase::Finished, ChoiceAction::Finish(ChoiceOutcome::ExistingTags)),
            FallbackAnswer::Cancel => (ChoicePhase::Finished, ChoiceAction::Finish(ChoiceOutcome::Cancelled)),
            FallbackAnswer::Unrecognized => (ChoicePhase::Fallback, ChoiceAction::ComplainThenAskFallback),
        },
        ChoicePhase::Finished => (ChoicePhase::Finished, ChoiceAction::Finish(ChoiceOutcome::Cancelled)),
    }
}

/// Advances the choice of metadata by the user's answer.
pub fn choice_step(phase: ChoicePhase, answer: &str) -> (r: (ChoicePhase, ChoiceAction))
    requires
        phase matches ChoicePhase::Candidates { shown, .. } ==> shown < usize::MAX,
    ensures
        r == choice_transition(phase, answer@),
{
    match phase {
        ChoicePhase::Candidates { shown, total, existing_usable } => match interpret_candidate_answer(
            answer,
            shown,
            total,
            existing_usable,
        ) {
            CandidateAnswer::Pick(i) => (ChoicePhase::Finished, ChoiceAction::Finish(ChoiceOutcome::Candidate(i))),
            CandidateAnswer::ShowMore => (
                ChoicePhase::Candidates { shown: total, total, existing_usable },
                ChoiceAction::ListCandidates { shown: total },
            ),
            CandidateAnswer::UseExisting => (ChoicePhase::Finished, ChoiceAction::Finish(ChoiceOutcome::ExistingTags)),
            CandidateAnswer::Cancel => (ChoicePhase::Finished, ChoiceAction::Finish(ChoiceOutcome::Cancelled)),
            CandidateAnswer::Unrecognized => (phase, ChoiceAction::ComplainThenListCandidates { shown }),
        },
        ChoicePhase::Fallback => match interpret_fallback_answer(answer) {
            FallbackAnswer::UseExisting => (ChoicePhase::Finished, ChoiceAction::Finish(ChoiceOutcome::ExistingTags)),
            FallbackAnswer::Cancel => (ChoicePhase::Finished, ChoiceAction::Finish(ChoiceOutcome::Cancelled)),
            FallbackAnswer::Unrecognized => (ChoicePhase::Fallback, ChoiceAction::ComplainThenAskFallback),
        },
        ChoicePhase::Finished => (ChoicePhase::Finished, ChoiceAction::Finish(ChoiceOutcome::Cancelled)),
    }
}

/// Law: the existing tags are chosen only where they were found coherent.
pub proof fn law_existing_tags_only_when_coherent(decision: MatchDecision, existing_usable: bool)
    requires
        !existing_usable,
    ensures
        choice_begins(decision, existing_usable).1 != ChoiceAction::Finish(ChoiceOutcome::ExistingTags),
        choice_begins(decision, existing_usable).0 != ChoicePhase::Fallback,
        forall|shown: usize, total: usize, answer: Seq<char>| #![auto]
            choice_transition(ChoicePhase::Candidates { shown, total, existing_usable }, answer).1
                != ChoiceAction::Finish(ChoiceOutcome::ExistingTags),
{
}

} // verus!
