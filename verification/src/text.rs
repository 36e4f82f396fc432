use vstd::prelude::*;
use vstd::string::*;

verus! {

// ---------------------------------------------------------------------------
// Unicode character properties, as std computes them.
// ---------------------------------------------------------------------------

/// The characters that `char::to_lowercase` yields for `c` (Unicode tables).
pub uninterp spec fn char_lowercase(c: char) -> Seq<char>;

/// Whether `char::is_alphanumeric` holds of `c` (Unicode Alphabetic or Numeric).
pub uninterp spec fn char_is_alphanumeric(c: char) -> bool;

/// Whether `char::is_whitespace` holds of `c`: the code points with the
/// Unicode White_Space property.
pub open spec fn char_is_whitespace(c: char) -> bool {
    let n = c as u32;
    ||| 0x09 <= n <= 0x0d
    ||| n == 0x20
    ||| n == 0x85
    ||| n == 0xa0
    ||| n == 0x1680
    ||| 0x2000 <= n <= 0x200a
    ||| n == 0x2028
    ||| n == 0x2029
    ||| n == 0x202f
    ||| n == 0x205f
    ||| n == 0x3000
}

/// Whether `char::is_control` holds of `c`: the code points of Unicode
/// general category Cc.
pub open spec fn char_is_control(c: char) -> bool {
    let n = c as u32;
    n <= 0x1f || 0x7f <= n <= 0x9f
}

/// What `str::to_lowercase` returns for a text (Unicode tables, final-sigma rule).
pub uninterp spec fn str_lowercase(s: Seq<char>) -> Seq<char>;

/// Calls `char::to_lowercase`; the result is the name `char_lowercase` of `c`.
#[verifier::external_body]
pub(crate) fn lowercase_of(c: char) -> (r: Vec<char>)
    ensures
        r@ == char_lowercase(c),
{
    c.to_lowercase().collect()
}

/// Calls `char::is_alphanumeric`; the result is the name `char_is_alphanumeric` of `c`.
#[verifier::external_body]
pub(crate) fn is_alphanumeric(c: char) -> (r: bool)
    ensures
        r == char_is_alphanumeric(c),
{
    c.is_alphanumeric()
}

/// Whether `c` is white space, as `char::is_whitespace` decides it.
pub(crate) fn is_whitespace(c: char) -> (r: bool)
    ensures
        r == char_is_whitespace(c),
{
    let n = c as u32;
    (0x09 <= n && n <= 0x0d) || n == 0x20 || n == 0x85 || n == 0xa0 || n == 0x1680
        || (0x2000 <= n && n <= 0x200a) || n == 0x2028 || n == 0x2029 || n == 0x202f
        || n == 0x205f || n == 0x3000
}

/// Whether `c` is a control character, as `char::is_control` decides it.
pub(crate) fn is_control(c: char) -> (r: bool)
    ensures
        r == char_is_control(c),
{
    let n = c as u32;
    n <= 0x1f || (0x7f <= n && n <= 0x9f)
}

/// Calls `str::to_lowercase`; the result is the name `str_lowercase` of the text.
#[verifier::external_body]
pub(crate) fn to_lowercase(s: &str) -> (r: String)
    ensures
        r@ == str_lowercase(s@),
{
    s.to_lowercase()
}

/// The UTF-8 encoding of a text.
pub open spec fn utf8(s: Seq<char>) -> Seq<u8> {
    vstd::utf8::encode_utf8(s)
}

/// The UTF-8 bytes of a text.
pub(crate) fn utf8_bytes(s: &str) -> (r: Vec<u8>)
    ensures
        r@ == utf8(s@),
{
    s.as_bytes_vec()
}

/// Calls `String::push`: the string afterwards is the old one with `c` appended.
#[verifier::external_body]
pub(crate) fn push_char(s: &mut String, c: char)
    ensures
        final(s)@ == old(s)@.push(c),
{
    s.push(c)
}

// ---------------------------------------------------------------------------
// Building strings
// ---------------------------------------------------------------------------

/// A string holding exactly the characters of `s`.
pub fn owned(s: &str) -> (r: String)
    ensures
        r@ == s@,
{
    s.to_owned()
}

/// Appends `t` to `s`.
pub fn append(s: &mut String, t: &str)
    ensures
        final(s)@ == old(s)@ + t@,
{
    let n = t.unicode_len();
    let mut i: usize = 0;
    while i < n
        invariant
            n == t@.len(),
            i <= n,
            s@ == old(s)@ + t@.take(i as int),
        decreases n - i,
    {
        let c = t.get_char(i);
        push_char(s, c);
        i = i + 1;
        assert(t@.take(i as int) == t@.take(i - 1).push(c));
    }
    assert(t@.take(n as int) == t@);
}

/// A string holding the characters of `v`.
pub fn from_chars(v: &Vec<char>) -> (r: String)
    ensures
        r@ == v@,
{
    let mut s = String::new();
    let mut i: usize = 0;
    while i < v.len()
        invariant
            i <= v.len(),
            s@ == v@.take(i as int),
        decreases v.len() - i,
    {
        push_char(&mut s, v[i]);
        i = i + 1;
        assert(v@.take(i as int) == v@.take(i - 1).push(v@[i - 1]));
    }
    assert(v@.take(v.len() as int) == v@);
    s
}

/// The characters of `s`, in order.
pub fn chars_of(s: &str) -> (r: Vec<char>)
    ensures
        r@ == s@,
{
    let n = s.unicode_len();
    let mut v: Vec<char> = Vec::new();
    let mut i: usize = 0;
    while i < n
        invariant
            n == s@.len(),
            i <= n,
            v@ == s@.take(i as int),
        decreases n - i,
    {
        let c = s.get_char(i);
        v.push(c);
        i = i + 1;
        assert(s@.take(i as int) == s@.take(i - 1).push(c));
    }
    assert(s@.take(n as int) == s@);
    v
}

/// Whether two texts hold the same characters.
pub fn text_eq(a: &str, b: &str) -> (r: bool)
    ensures
        r == (a@ == b@),
{
    let n = a.unicode_len();
    let m = b.unicode_len();
    if n != m {
        return false;
    }
    let mut i: usize = 0;
    while i < n
        invariant
            n == a@.len(),
            m == b@.len(),
            n == m,
            i <= n,
            forall|k: int| 0 <= k < i ==> a@[k] == b@[k],
        decreases n - i,
    {
        if a.get_char(i) != b.get_char(i) {
            return false;
        }
        i = i + 1;
    }
    assert(a@ =~= b@);
    true
}

// ---------------------------------------------------------------------------
// Decimal numbers
// ---------------------------------------------------------------------------

/// The decimal digit character for `d` (`d < 10`).
pub open spec fn digit_char(d: nat) -> char {
    if d == 0 { '0' }
    else if d == 1 { '1' }
    else if d == 2 { '2' }
    else if d == 3 { '3' }
    else if d == 4 { '4' }
    else if d == 5 { '5' }
    else if d == 6 { '6' }
    else if d == 7 { '7' }
    else if d == 8 { '8' }
    else { '9' }
}

/// The decimal representation of `n`, without leading zeros.
pub open spec fn decimal(n: nat) -> Seq<char>
    decreases n,
{
    if n < 10 {
        seq![digit_char(n)]
    } else {
        decimal(n / 10).push(digit_char(n % 10))
    }
}

/// The decimal representation of `n`, zero-padded to at least two digits.
pub open spec fn decimal2(n: nat) -> Seq<char> {
    if n < 10 { seq!['0'] + decimal(n) } else { decimal(n) }
}

fn digit(d: u64) -> (c: char)
    requires
        d < 10,
    ensures
        c == digit_char(d as nat),
{
    if d == 0 { '0' }
    else if d == 1 { '1' }
    else if d == 2 { '2' }
    else if d == 3 { '3' }
    else if d == 4 { '4' }
    else if d == 5 { '5' }
    else if d == 6 { '6' }
    else if d == 7 { '7' }
    else if d == 8 { '8' }
    else { '9' }
}

/// Appends the decimal representation of `n` to `out`.
pub fn push_decimal(out: &mut String, n: u64)
    ensures
        final(out)@ == old(out)@ + decimal(n as nat),
    decreases n,
{
    if n >= 10 {
        push_decimal(out, n / 10);
    }
    let d = digit(n % 10);
    push_char(out, d);
    if n >= 10 {
        assert(decimal(n as nat) == decimal((n / 10) as nat).push(d));
    } else {
        assert(decimal(n as nat) == seq![d]);
    }
}

/// The decimal representation of `n`.
pub fn decimal_string(n: u64) -> (r: String)
    ensures
        r@ == decimal(n as nat),
{
    let mut out = String::new();
    push_decimal(&mut out, n);
    assert(out@ == Seq::<char>::empty() + decimal(n as nat));
    out
}

/// Appends the decimal representation of `n`, zero-padded to two digits, to `out`.
pub fn push_decimal2(out: &mut String, n: u64)
    ensures
        final(out)@ == old(out)@ + decimal2(n as nat),
{
    if n < 10 {
        push_char(out, '0');
        push_decimal(out, n);
        assert(old(out)@.push('0') + decimal(n as nat) == old(out)@ + (seq!['0'] + decimal(n as nat)));
    } else {
        push_decimal(out, n);
    }
}

// ---------------------------------------------------------------------------
// Collapsing runs of separators
// ---------------------------------------------------------------------------

/// Scans `s` from the left, keeping each maximal run of non-separator
/// characters and joining the runs with single spaces.  The second component
/// says whether a separator follows the text kept so far.
pub open spec fn squeeze_state(s: Seq<char>, sep: spec_fn(char) -> bool) -> (Seq<char>, bool)
    decreases s.len(),
{
    if s.len() == 0 {
        (Seq::<char>::empty(), false)
    } else {
        let (out, pending) = squeeze_state(s.drop_last(), sep);
        let c = s.last();
        if sep(c) {
            (out, out.len() > 0)
        } else {
            ((if pending { out.push(' ') } else { out }).push(c), false)
        }
    }
}

/// The words of `s` (maximal runs of characters outside `sep`), joined by single spaces.
pub open spec fn squeeze(s: Seq<char>, sep: spec_fn(char) -> bool) -> Seq<char> {
    squeeze_state(s, sep).0
}

/// Separator predicate: Unicode whitespace.
pub open spec fn ws_sep() -> spec_fn(char) -> bool {
    |c: char| char_is_whitespace(c)
}

/// Separator predicate: anything that is not alphanumeric.
pub open spec fn non_alnum_sep() -> spec_fn(char) -> bool {
    |c: char| !char_is_alphanumeric(c)
}

/// `split_whitespace` followed by `join(" ")`.
pub open spec fn collapse_whitespace(s: Seq<char>) -> Seq<char> {
    squeeze(s, ws_sep())
}

/// `s` with every character replaced by its lowercase expansion.
pub open spec fn lowercase_chars(s: Seq<char>) -> Seq<char>
    decreases s.len(),
{
    if s.len() == 0 {
        Seq::<char>::empty()
    } else {
        lowercase_chars(s.drop_last()) + char_lowercase(s.last())
    }
}

/// The comparison key of a text: lowercase, with every run of characters that
/// are not alphanumeric turned into a single space, and no space at either end.
pub open spec fn normalized_key(s: Seq<char>) -> Seq<char> {
    squeeze(lowercase_chars(s), non_alnum_sep())
}

/// Collapses whitespace runs of `s` to single spaces and drops whitespace at either end.
pub fn collapse_ws(s: &str) -> (r: String)
    ensures
        r@ == collapse_whitespace(s@),
{
    let chars = chars_of(s);
    let mut out = String::new();
    let mut pending = false;
    let mut i: usize = 0;
    while i < chars.len()
        invariant
            i <= chars.len(),
            (out@, pending) == squeeze_state(chars@.take(i as int), ws_sep()),
        decreases chars.len() - i,
    {
        let c = chars[i];
        assert(chars@.take(i + 1).drop_last() == chars@.take(i as int));
        if is_whitespace(c) {
            pending = out.as_str().unicode_len() > 0;
        } else {
            if pending {
                push_char(&mut out, ' ');
            }
            push_char(&mut out, c);
            pending = false;
        }
        i = i + 1;
    }
    assert(chars@.take(chars.len() as int) == chars@);
    out
}

/// The comparison key used to compare titles and names.
pub fn normalize(value: &str) -> (r: String)
    ensures
        r@ == normalized_key(value@),
{
    let chars = chars_of(value);
    let mut lowered: Vec<char> = Vec::new();
    let mut i: usize = 0;
    while i < chars.len()
        invariant
            i <= chars.len(),
            lowered@ == lowercase_chars(chars@.take(i as int)),
        decreases chars.len() - i,
    {
        let lower = lowercase_of(chars[i]);
        assert(chars@.take(i + 1).drop_last() == chars@.take(i as int));
        let ghost before = lowered@;
        let mut j: usize = 0;
        while j < lower.len()
            invariant
                j <= lower.len(),
                lowered@ == before + lower@.take(j as int),
            decreases lower.len() - j,
        {
            lowered.push(lower[j]);
            j = j + 1;
            assert(lower@.take(j as int) == lower@.take(j - 1).push(lower@[j - 1]));
        }
        assert(lower@.take(lower.len() as int) == lower@);
        i = i + 1;
    }
    assert(chars@.take(chars.len() as int) == chars@);
    let mut out = String::new();
    let mut pending = false;
    let mut k: usize = 0;
    while k < lowered.len()
        invariant
            k <= lowered.len(),
            (out@, pending) == squeeze_state(lowered@.take(k as int), non_alnum_sep()),
        decreases lowered.len() - k,
    {
        let c = lowered[k];
        assert(lowered@.take(k + 1).drop_last() == lowered@.take(k as int));
        if !is_alphanumeric(c) {
            pending = out.as_str().unicode_len() > 0;
        } else {
            if pending {
                push_char(&mut out, ' ');
            }
            push_char(&mut out, c);
            pending = false;
        }
        k = k + 1;
    }
    assert(lowered@.take(lowered.len() as int) == lowered@);
    out
}

// ---------------------------------------------------------------------------
// Trimming
// ---------------------------------------------------------------------------

/// Whether every character of `s` is whitespace.
pub open spec fn all_whitespace(s: Seq<char>) -> bool {
    forall|i: int| 0 <= i < s.len() ==> char_is_whitespace(#[trigger] s[i])
}

/// Whether `str::trim` of `s` would be empty: `s` holds only whitespace.
pub fn is_blank(s: &str) -> (r: bool)
    ensures
        r == all_whitespace(s@),
{
    let n = s.unicode_len();
    let mut i: usize = 0;
    while i < n
        invariant
            n == s@.len(),
            i <= n,
            forall|k: int| 0 <= k < i ==> char_is_whitespace(#[trigger] s@[k]),
        decreases n - i,
    {
        if !is_whitespace(s.get_char(i)) {
            return false;
        }
        i = i + 1;
    }
    true
}

/// Number of characters at the start of `s` satisfying `p`.
pub open spec fn leading_count(s: Seq<char>, p: spec_fn(char) -> bool) -> nat
    decreases s.len(),
{
    if s.len() == 0 || !p(s[0]) { 0 } else { 1 + leading_count(s.drop_first(), p) }
}

/// Number of characters at the end of `s` satisfying `p`.
pub open spec fn trailing_count(s: Seq<char>, p: spec_fn(char) -> bool) -> nat
    decreases s.len(),
{
    if s.len() == 0 || !p(s.last()) { 0 } else { 1 + trailing_count(s.drop_last(), p) }
}

/// `s` without the characters satisfying `p` at its start.
pub open spec fn trim_start_by(s: Seq<char>, p: spec_fn(char) -> bool) -> Seq<char> {
    s.skip(leading_count(s, p) as int)
}

/// `s` without the characters satisfying `p` at its end.
pub open spec fn trim_end_by(s: Seq<char>, p: spec_fn(char) -> bool) -> Seq<char> {
    s.take(s.len() - trailing_count(s, p))
}

/// `s` without the characters satisfying `p` at either end.
pub open spec fn trim_by(s: Seq<char>, p: spec_fn(char) -> bool) -> Seq<char> {
    trim_end_by(trim_start_by(s, p), p)
}

pub proof fn lemma_leading_count_bound(s: Seq<char>, p: spec_fn(char) -> bool)
    ensures
        leading_count(s, p) <= s.len(),
    decreases s.len(),
{
    if s.len() > 0 && p(s[0]) {
        lemma_leading_count_bound(s.drop_first(), p);
    }
}

pub proof fn lemma_trailing_count_bound(s: Seq<char>, p: spec_fn(char) -> bool)
    ensures
        trailing_count(s, p) <= s.len(),
    decreases s.len(),
{
    if s.len() > 0 && p(s.last()) {
        lemma_trailing_count_bound(s.drop_last(), p);
    }
}

/// Counts, from index `i`, the characters satisfying `p` before the first that does not.
pub proof fn lemma_leading_count_skip(s: Seq<char>, p: spec_fn(char) -> bool, i: int)
    requires
        0 <= i <= s.len(),
        forall|k: int| 0 <= k < i ==> p(#[trigger] s[k]),
    ensures
        leading_count(s, p) == i + leading_count(s.skip(i), p),
    decreases i,
{
    if i > 0 {
        assert(p(s[0]));
        let t = s.drop_first();
        assert forall|k: int| 0 <= k < i - 1 implies p(#[trigger] t[k]) by {
            assert(t[k] == s[k + 1]);
        }
        lemma_leading_count_skip(t, p, i - 1);
        assert(t.skip(i - 1) == s.skip(i));
    } else {
        assert(s.skip(0) == s);
    }
}

proof fn lemma_trailing_count_take(s: Seq<char>, p: spec_fn(char) -> bool, j: int)
    requires
        0 <= j <= s.len(),
        forall|k: int| j <= k < s.len() ==> p(#[trigger] s[k]),
    ensures
        trailing_count(s, p) == (s.len() - j) + trailing_count(s.take(j), p),
    decreases s.len() - j,
{
    if j < s.len() {
        assert(p(s[s.len() - 1]));
        let t = s.drop_last();
        assert forall|k: int| j <= k < t.len() implies p(#[trigger] t[k]) by {
            assert(t[k] == s[k]);
        }
        lemma_trailing_count_take(t, p, j);
        assert(t.take(j) == s.take(j));
    } else {
        assert(s.take(j) == s);
    }
}

/// The number of whitespace characters at the start of `s`.
pub fn leading_whitespace(s: &Vec<char>) -> (r: usize)
    ensures
        r == leading_count(s@, ws_sep()),
        r <= s@.len(),
{
    let n = s.len();
    let mut start: usize = 0;
    while start < n && is_whitespace(s[start])
        invariant
            n == s@.len(),
            start <= n,
            forall|k: int| 0 <= k < start ==> char_is_whitespace(#[trigger] s@[k]),
        decreases n - start,
    {
        start = start + 1;
    }
    proof {
        let p = ws_sep();
        assert forall|k: int| 0 <= k < start implies p(#[trigger] s@[k]) by {
            assert(char_is_whitespace(s@[k]));
        }
        lemma_leading_count_skip(s@, p, start as int);
        if start < n {
            assert(s@.skip(start as int)[0] == s@[start as int]);
        }
        assert(leading_count(s@.skip(start as int), p) == 0);
    }
    start
}

/// Whether `c` is a space or a full stop.
pub open spec fn is_space_or_dot(c: char) -> bool {
    c == ' ' || c == '.'
}

/// `str::trim_matches([' ', '.'])`.
pub fn trim_spaces_and_dots(s: &str) -> (r: String)
    ensures
        r@ == trim_by(s@, |c: char| is_space_or_dot(c)),
{
    let ghost p = |c: char| is_space_or_dot(c);
    let chars = chars_of(s);
    let n = chars.len();
    let mut start: usize = 0;
    while start < n && (chars[start] == ' ' || chars[start] == '.')
        invariant
            n == chars@.len(),
            chars@ == s@,
            start <= n,
            forall|k: int| 0 <= k < start ==> is_space_or_dot(#[trigger] chars@[k]),
        decreases n - start,
    {
        start = start + 1;
    }
    proof {
        lemma_leading_count_skip(s@, p, start as int);
        if start < n {
            assert(s@.skip(start as int)[0] == s@[start as int]);
        }
        assert(leading_count(s@.skip(start as int), p) == 0);
    }
    let ghost rest = s@.skip(start as int);
    let mut end: usize = n;
    while end > start && (chars[end - 1] == ' ' || chars[end - 1] == '.')
        invariant
            n == chars@.len(),
            chars@ == s@,
            start <= end <= n,
            rest == s@.skip(start as int),
            forall|k: int| end - start <= k < rest.len() ==> is_space_or_dot(#[trigger] rest[k]),
        decreases end - start,
    {
        assert(rest[end - 1 - start] == s@[end - 1]);
        end = end - 1;
    }
    proof {
        lemma_trailing_count_take(rest, p, end - start);
        if end > start {
            assert(rest.take(end - start).last() == s@[end - 1]);
        }
        assert(trailing_count(rest.take(end - start), p) == 0);
    }
    let mut out = String::new();
    let mut i = start;
    while i < end
        invariant
            n == chars@.len(),
            chars@ == s@,
            start <= i <= end <= n,
            out@ == s@.subrange(start as int, i as int),
        decreases end - i,
    {
        push_char(&mut out, chars[i]);
        i = i + 1;
        assert(s@.subrange(start as int, i as int) == s@.subrange(start as int, i - 1).push(s@[i - 1]));
    }
    assert(out@ == rest.take(rest.len() - trailing_count(rest, p)));
    out
}

/// The texts of `list` joined with `sep` between them (`[T]::join`).
pub open spec fn joined(list: Seq<Seq<char>>, sep: Seq<char>) -> Seq<char>
    decreases list.len(),
{
    if list.len() == 0 {
        Seq::empty()
    } else if list.len() == 1 {
        list[0]
    } else {
        joined(list.drop_last(), sep) + sep + list.last()
    }
}

/// Joins the texts of `list` with `sep` between them.
pub fn join_texts(list: &Vec<String>, sep: &str) -> (r: String)
    ensures
        r@ == joined(list.deep_view(), sep@),
{
    let ghost l = list.deep_view();
    let mut out = String::new();
    let mut i: usize = 0;
    while i < list.len()
        invariant
            i <= list@.len(),
            l == list.deep_view(),
            out@ == joined(l.take(i as int), sep@),
        decreases list@.len() - i,
    {
        assert(l.take(i + 1).drop_last() =~= l.take(i as int));
        assert(l.take(i + 1).last() == list@[i as int]@);
        if i > 0 {
            append(&mut out, sep);
        } else {
            assert(l.take(1)[0] == list@[0]@);
        }
        append(&mut out, list[i].as_str());
        i = i + 1;
    }
    assert(l.take(l.len() as int) =~= l);
    out
}

/// `str::trim`: `s` without whitespace at either end.
pub fn trim_whitespace(s: &str) -> (r: String)
    ensures
        r@ == trim_by(s@, ws_sep()),
{
    let ghost p = ws_sep();
    let chars = chars_of(s);
    let n = chars.len();
    let start = leading_whitespace(&chars);
    proof {
        lemma_leading_count_bound(s@, p);
    }
    let ghost rest = s@.skip(start as int);
    let mut end: usize = n;
    while end > start && is_whitespace(chars[end - 1])
        invariant
            n == chars@.len(),
            chars@ == s@,
            start <= end <= n,
            rest == s@.skip(start as int),
            p == ws_sep(),
            forall|k: int| end - start <= k < rest.len() ==> p(#[trigger] rest[k]),
        decreases end - start,
    {
        assert(rest[end - 1 - start] == s@[end - 1]);
        end = end - 1;
    }
    proof {
        lemma_trailing_count_take(rest, p, end - start);
        if end > start {
            assert(rest.take(end - start).last() == s@[end - 1]);
        }
        assert(trailing_count(rest.take(end - start), p) == 0);
    }
    let mut out = String::new();
    let mut i = start;
    while i < end
        invariant
            n == chars@.len(),
            chars@ == s@,
            start <= i <= end <= n,
            out@ == s@.subrange(start as int, i as int),
        decreases end - i,
    {
        push_char(&mut out, chars[i]);
        i = i + 1;
        assert(s@.subrange(start as int, i as int) == s@.subrange(start as int, i - 1).push(s@[i - 1]));
    }
    assert(out@ == rest.take(rest.len() - trailing_count(rest, p)));
    out
}

/// `str::trim_start_matches('.')`.
pub fn trim_leading_dots(s: &str) -> (r: String)
    ensures
        r@ == trim_start_by(s@, |c: char| c == '.'),
{
    let ghost p = |c: char| c == '.';
    let chars = chars_of(s);
    let n = chars.len();
    let mut start: usize = 0;
    while start < n && chars[start] == '.'
        invariant
            n == chars@.len(),
            chars@ == s@,
            start <= n,
            forall|k: int| 0 <= k < start ==> #[trigger] chars@[k] == '.',
        decreases n - start,
    {
        start = start + 1;
    }
    proof {
        lemma_leading_count_skip(s@, p, start as int);
        if start < n {
            assert(s@.skip(start as int)[0] == s@[start as int]);
        }
        assert(leading_count(s@.skip(start as int), p) == 0);
    }
    let mut out = String::new();
    let mut i = start;
    while i < n
        invariant
            n == chars@.len(),
            chars@ == s@,
            start <= i <= n,
            out@ == s@.subrange(start as int, i as int),
        decreases n - i,
    {
        push_char(&mut out, chars[i]);
        i = i + 1;
        assert(s@.subrange(start as int, i as int) == s@.subrange(start as int, i - 1).push(s@[i - 1]));
    }
    assert(out@ == s@.skip(start as int));
    out
}

// ---------------------------------------------------------------------------
// ASCII helpers
// ---------------------------------------------------------------------------

/// `char::to_ascii_lowercase`.
pub open spec fn ascii_lower(c: char) -> char {
    if 'A' <= c && c <= 'Z' { ((c as u32) + 32) as char } else { c }
}

/// `char::is_ascii_alphanumeric`.
pub open spec fn ascii_alnum(c: char) -> bool {
    ('a' <= c && c <= 'z') || ('A' <= c && c <= 'Z') || ('0' <= c && c <= '9')
}

pub fn ascii_lower_char(c: char) -> (r: char)
    ensures
        r == ascii_lower(c),
{
    if 'A' <= c && c <= 'Z' {
        let code: u32 = (c as u32) + 32;
        assert(0x61 <= code <= 0x7a);
        char_from_ascii(code)
    } else {
        c
    }
}

/// The character with code `code`, an ASCII code.
fn char_from_ascii(code: u32) -> (c: char)
    requires
        code < 128,
    ensures
        c == code as char,
{
    let b: u8 = code as u8;
    b as char
}

pub fn is_ascii_alnum(c: char) -> (r: bool)
    ensures
        r == ascii_alnum(c),
{
    ('a' <= c && c <= 'z') || ('A' <= c && c <= 'Z') || ('0' <= c && c <= '9')
}

/// `str::to_ascii_lowercase`.
pub fn to_ascii_lowercase(s: &str) -> (r: String)
    ensures
        r@ == s@.map_values(|c: char| ascii_lower(c)),
{
    let chars = chars_of(s);
    let mut out = String::new();
    let mut i: usize = 0;
    while i < chars.len()
        invariant
            i <= chars.len(),
            chars@ == s@,
            out@ == s@.take(i as int).map_values(|c: char| ascii_lower(c)),
        decreases chars.len() - i,
    {
        let c = ascii_lower_char(chars[i]);
        push_char(&mut out, c);
        i = i + 1;
        assert(s@.take(i as int).map_values(|c: char| ascii_lower(c))
            == s@.take(i - 1).map_values(|c: char| ascii_lower(c)).push(c));
    }
    assert(s@.take(chars.len() as int) == s@);
    out
}

/// Whether `a` and `b` are equal when ASCII letters are compared without case.
pub open spec fn eq_ignore_ascii_case(a: Seq<char>, b: Seq<char>) -> bool {
    a.map_values(|c: char| ascii_lower(c)) == b.map_values(|c: char| ascii_lower(c))
}

/// `str::eq_ignore_ascii_case`.
pub fn text_eq_ignore_ascii_case(a: &str, b: &str) -> (r: bool)
    ensures
        r == eq_ignore_ascii_case(a@, b@),
{
    let la = to_ascii_lowercase(a);
    let lb = to_ascii_lowercase(b);
    text_eq(la.as_str(), lb.as_str())
}

} // verus!
