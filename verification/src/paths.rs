use vstd::prelude::*;

use crate::text::{append, chars_of, owned, push_char, text_eq};

verus! {

// ---------------------------------------------------------------------------
// Paths as their components
//
// A path is read as `std::path::Path` reads it on Unix: a root (a leading `/`)
// or a leading `.` of a relative path, then its named parts; empty parts and
// `.` parts elsewhere are not components. Two paths are the same path when their
// components are equal.
// ---------------------------------------------------------------------------

/// The parts of `p` between separators, as written (empty ones included).
pub open spec fn segments(p: Seq<char>) -> Seq<Seq<char>>
    decreases p.len(),
{
    if p.len() == 0 {
        seq![Seq::<char>::empty()]
    } else {
        let s = segments(p.drop_last());
        if p.last() == '/' {
            s.push(Seq::<char>::empty())
        } else {
            s.update(s.len() - 1, s.last().push(p.last()))
        }
    }
}

/// A named part: not empty and not `.`.
pub open spec fn is_named(part: Seq<char>) -> bool {
    part.len() > 0 && part != seq!['.']
}

/// The named parts among `s`, in order.
pub open spec fn named_parts(s: Seq<Seq<char>>) -> Seq<Seq<char>>
    decreases s.len(),
{
    if s.len() == 0 {
        s
    } else if is_named(s.last()) {
        named_parts(s.drop_last()).push(s.last())
    } else {
        named_parts(s.drop_last())
    }
}

/// Whether `p` starts at the root.
pub open spec fn is_absolute(p: Seq<char>) -> bool {
    p.len() > 0 && p[0] == '/'
}

/// The components of `p`: `/` for the root, `.` for a leading current
/// directory of a relative path, then its named parts.
pub open spec fn components(p: Seq<char>) -> Seq<Seq<char>> {
    let lead = if is_absolute(p) {
        seq![seq!['/']]
    } else if segments(p)[0] == seq!['.'] {
        seq![seq!['.']]
    } else {
        Seq::empty()
    };
    lead + named_parts(segments(p))
}

/// Whether `a` and `b` are the same path: their components are equal.
pub open spec fn same_path(a: Seq<char>, b: Seq<char>) -> bool {
    components(a) == components(b)
}

/// Named parts fit to be written one after another: each is named and holds no separator.
pub open spec fn plain_parts(parts: Seq<Seq<char>>) -> bool {
    forall|i: int| 0 <= i < parts.len() ==> is_named(#[trigger] parts[i]) && !parts[i].contains('/')
}

/// `parts` written one after another with a separator between each two.
pub open spec fn render(parts: Seq<Seq<char>>) -> Seq<char>
    decreases parts.len(),
{
    if parts.len() == 0 {
        Seq::empty()
    } else if parts.len() == 1 {
        parts[0]
    } else {
        render(parts.drop_last()) + seq!['/'] + parts.last()
    }
}

/// `rel` pushed onto `base` as `PathBuf::push` does: an absolute `rel` replaces
/// `base`; otherwise a separator is added when `base` is not empty and does not
/// end with one.
pub open spec fn pushed(base: Seq<char>, rel: Seq<char>) -> Seq<char> {
    if is_absolute(rel) {
        rel
    } else if base.len() == 0 || base.last() == '/' {
        base + rel
    } else {
        base + seq!['/'] + rel
    }
}

/// `path` below `base` as `Path::strip_prefix` finds it: with an empty base, the
/// path itself; otherwise, when the components of `base` begin those of `path`,
/// the remaining components written one after another, and nothing when they do not.
pub open spec fn stripped(path: Seq<char>, base: Seq<char>) -> Option<Seq<char>> {
    if base.len() == 0 {
        Some(path)
    } else {
        let cp = components(path);
        let cb = components(base);
        if cb.len() <= cp.len() && cp.take(cb.len() as int) == cb {
            Some(render(cp.skip(cb.len() as int)))
        } else {
            None
        }
    }
}

/// The file name of `p`, as `Path::file_name` gives it: its last component when
/// that is a named part other than `..`.
pub open spec fn path_name(p: Seq<char>) -> Option<Seq<char>> {
    let c = components(p);
    if c.len() > 0 && c.last() != seq!['/'] && c.last() != seq!['.'] && c.last() != seq!['.', '.'] {
        Some(c.last())
    } else {
        None
    }
}

// ---------------------------------------------------------------------------
// Facts about components
// ---------------------------------------------------------------------------

pub proof fn lemma_segments_nonempty(p: Seq<char>)
    ensures
        segments(p).len() >= 1,
    decreases p.len(),
{
    if p.len() > 0 {
        lemma_segments_nonempty(p.drop_last());
    }
}

/// No part holds a separator.
pub proof fn lemma_segments_plain(p: Seq<char>)
    ensures
        forall|i: int| 0 <= i < segments(p).len() ==> !(#[trigger] segments(p)[i]).contains('/'),
    decreases p.len(),
{
    if p.len() > 0 {
        lemma_segments_plain(p.drop_last());
        lemma_segments_nonempty(p.drop_last());
        let s = segments(p.drop_last());
        if p.last() != '/' {
            assert forall|i: int| 0 <= i < segments(p).len() implies !(#[trigger] segments(p)[i]).contains('/') by {
                if i == s.len() - 1 {
                    let t = s.last().push(p.last());
                    if t.contains('/') {
                        let k = choose|k: int| 0 <= k < t.len() && t[k] == '/';
                        if k < s.last().len() {
                            assert(s.last()[k] == '/');
                        }
                    }
                }
            }
        } else {
            assert forall|i: int| 0 <= i < segments(p).len() implies !(#[trigger] segments(p)[i]).contains('/') by {
                if i == s.len() {
                    assert(segments(p)[i] =~= Seq::<char>::empty());
                }
            }
        }
    }
}

/// A path that does not start with a separator has a non-empty first part.
pub proof fn lemma_first_segment(p: Seq<char>)
    requires
        p.len() > 0,
        p[0] != '/',
    ensures
        segments(p)[0].len() > 0,
        segments(p)[0][0] == p[0],
    decreases p.len(),
{
    lemma_segments_nonempty(p.drop_last());
    if p.len() == 1 {
        assert(p.drop_last() =~= Seq::<char>::empty());
    } else {
        lemma_first_segment(p.drop_last());
        let s = segments(p.drop_last());
        if p.last() != '/' && s.len() == 1 {
            assert(s.last().push(p.last())[0] == s.last()[0]);
        }
    }
}

/// Joining with a separator joins the parts.
pub proof fn lemma_segments_join(a: Seq<char>, b: Seq<char>)
    ensures
        segments(a + seq!['/'] + b) == segments(a) + segments(b),
    decreases b.len(),
{
    lemma_segments_nonempty(a);
    if b.len() == 0 {
        assert((a + seq!['/'] + b).drop_last() =~= a);
        assert(segments(a + seq!['/'] + b) =~= segments(a) + segments(b));
    } else {
        lemma_segments_join(a, b.drop_last());
        lemma_segments_nonempty(b.drop_last());
        assert((a + seq!['/'] + b).drop_last() =~= a + seq!['/'] + b.drop_last());
        assert((a + seq!['/'] + b).last() == b.last());
        assert(segments(a + seq!['/'] + b) =~= segments(a) + segments(b));
    }
}

/// A text without separators is a single part.
pub proof fn lemma_segments_single(c: Seq<char>)
    requires
        !c.contains('/'),
    ensures
        segments(c) == seq![c],
    decreases c.len(),
{
    if c.len() > 0 {
        assert(!c.drop_last().contains('/')) by {
            if c.drop_last().contains('/') {
                let k = choose|k: int| 0 <= k < c.drop_last().len() && c.drop_last()[k] == '/';
                assert(c[k] == '/');
            }
        }
        lemma_segments_single(c.drop_last());
        assert(c[c.len() - 1] != '/');
        assert(c.drop_last().push(c.last()) =~= c);
        assert(segments(c) =~= seq![c]);
    } else {
        assert(c =~= Seq::<char>::empty());
    }
}

/// Written-out plain parts read back as themselves.
pub proof fn lemma_segments_render(parts: Seq<Seq<char>>)
    requires
        parts.len() > 0,
        plain_parts(parts),
    ensures
        segments(render(parts)) == parts,
    decreases parts.len(),
{
    if parts.len() == 1 {
        lemma_segments_single(parts[0]);
        assert(parts =~= seq![parts[0]]);
    } else {
        let init = parts.drop_last();
        assert(plain_parts(init)) by {
            assert forall|i: int| 0 <= i < init.len() implies is_named(#[trigger] init[i]) && !init[i].contains('/') by {
                assert(init[i] == parts[i]);
            }
        }
        lemma_segments_render(init);
        lemma_segments_join(render(init), parts.last());
        assert(is_named(parts[parts.len() - 1]) && !parts[parts.len() - 1].contains('/'));
        lemma_segments_single(parts.last());
        assert(init + seq![parts.last()] =~= parts);
    }
}

/// Named parts distribute over concatenation.
pub proof fn lemma_named_parts_add(x: Seq<Seq<char>>, y: Seq<Seq<char>>)
    ensures
        named_parts(x + y) == named_parts(x) + named_parts(y),
    decreases y.len(),
{
    if y.len() == 0 {
        assert(x + y =~= x);
        assert(named_parts(x) + named_parts(y) =~= named_parts(x));
    } else {
        lemma_named_parts_add(x, y.drop_last());
        assert((x + y).drop_last() =~= x + y.drop_last());
        assert((x + y).last() == y.last());
        if is_named(y.last()) {
            assert(named_parts(x + y) =~= named_parts(x) + named_parts(y));
        } else {
            assert(named_parts(x + y) =~= named_parts(x) + named_parts(y));
        }
    }
}

/// Plain parts are all named.
pub proof fn lemma_named_parts_plain(parts: Seq<Seq<char>>)
    requires
        plain_parts(parts),
    ensures
        named_parts(parts) == parts,
    decreases parts.len(),
{
    if parts.len() > 0 {
        let init = parts.drop_last();
        assert(plain_parts(init)) by {
            assert forall|i: int| 0 <= i < init.len() implies is_named(#[trigger] init[i]) && !init[i].contains('/') by {
                assert(init[i] == parts[i]);
            }
        }
        lemma_named_parts_plain(init);
        assert(is_named(parts[parts.len() - 1]));
        assert(init.push(parts.last()) =~= parts);
    }
}

/// The named parts of a path's parts are plain.
pub proof fn lemma_named_parts_of_path(p: Seq<char>)
    ensures
        plain_parts(named_parts(segments(p))),
{
    lemma_segments_plain(p);
    lemma_named_parts_keep(segments(p));
}

proof fn lemma_named_parts_keep(s: Seq<Seq<char>>)
    requires
        forall|i: int| 0 <= i < s.len() ==> !(#[trigger] s[i]).contains('/'),
    ensures
        plain_parts(named_parts(s)),
    decreases s.len(),
{
    if s.len() > 0 {
        let init = s.drop_last();
        assert forall|i: int| 0 <= i < init.len() implies !(#[trigger] init[i]).contains('/') by {
            assert(init[i] == s[i]);
        }
        lemma_named_parts_keep(init);
        assert(!s[s.len() - 1].contains('/'));
    }
}

/// The components of plain parts written out are those parts.
pub proof fn lemma_components_render(parts: Seq<Seq<char>>)
    requires
        plain_parts(parts),
    ensures
        components(render(parts)) == parts,
{
    if parts.len() == 0 {
        lemma_components_empty();
        assert(render(parts) =~= Seq::<char>::empty());
    } else {
        lemma_segments_render(parts);
        lemma_named_parts_plain(parts);
        assert(is_named(parts[0]) && !parts[0].contains('/'));
        lemma_render_first(parts);
        assert(segments(render(parts))[0] == parts[0]);
        assert(parts[0] != seq!['.']);
        assert(!is_absolute(render(parts)));
        assert(components(render(parts)) =~= parts);
    }
}

/// The empty path has no components, and no named parts.
pub proof fn lemma_components_empty()
    ensures
        named_parts(segments(Seq::<char>::empty())) == Seq::<Seq<char>>::empty(),
        components(Seq::<char>::empty()) == Seq::<Seq<char>>::empty(),
{
    let e = Seq::<char>::empty();
    let s = segments(e);
    assert(s =~= seq![e]);
    assert(s.len() == 1);
    assert(!is_named(s.last()));
    assert(s.drop_last().len() == 0);
    assert(named_parts(s) == named_parts(s.drop_last()));
    assert(named_parts(s.drop_last()) == s.drop_last());
    assert(named_parts(s) =~= Seq::<Seq<char>>::empty());
    assert(s[0] != seq!['.']) by {
        assert(seq!['.'].len() == 1);
    }
    assert(components(e) =~= Seq::<Seq<char>>::empty());
}

/// Written-out plain parts start with the first part's first character.
proof fn lemma_render_first(parts: Seq<Seq<char>>)
    requires
        parts.len() > 0,
        plain_parts(parts),
    ensures
        render(parts).len() > 0,
        render(parts)[0] == parts[0][0],
        parts[0][0] != '/',
    decreases parts.len(),
{
    assert(is_named(parts[0]) && !parts[0].contains('/'));
    assert(parts[0][0] != '/') by {
        if parts[0][0] == '/' {
            assert(parts[0].contains('/'));
        }
    }
    if parts.len() > 1 {
        let init = parts.drop_last();
        assert(plain_parts(init)) by {
            assert forall|i: int| 0 <= i < init.len() implies is_named(#[trigger] init[i]) && !init[i].contains('/') by {
                assert(init[i] == parts[i]);
            }
        }
        lemma_render_first(init);
    }
}

/// The components of a relative path pushed onto a non-empty base: the base's
/// components, then the relative path's named parts.
pub proof fn lemma_components_pushed(base: Seq<char>, rel: Seq<char>)
    requires
        base.len() > 0,
        !is_absolute(rel),
    ensures
        components(pushed(base, rel)) == components(base) + named_parts(segments(rel)),
{
    lemma_segments_nonempty(base);
    lemma_segments_nonempty(rel);
    let j = pushed(base, rel);
    if base.last() == '/' {
        let b = base.drop_last();
        assert(base =~= b + seq!['/'] + Seq::<char>::empty());
        lemma_segments_join(b, Seq::<char>::empty());
        assert(j =~= b + seq!['/'] + rel);
        lemma_segments_join(b, rel);
        lemma_segments_nonempty(b);
        lemma_named_parts_add(segments(b), segments(rel));
        lemma_named_parts_add(segments(b), segments(Seq::<char>::empty()));
        lemma_components_empty();
        assert(segments(j)[0] == segments(b)[0]);
        assert(segments(base)[0] == segments(b)[0]);
        assert(j[0] == base[0]) by {
            if b.len() > 0 {
                assert(j[0] == b[0] && base[0] == b[0]);
            }
        }
    } else {
        assert(j =~= base + seq!['/'] + rel);
        lemma_segments_join(base, rel);
        lemma_named_parts_add(segments(base), segments(rel));
        assert(segments(j)[0] == segments(base)[0]);
        assert(j[0] == base[0]);
    }
    assert(components(j) =~= components(base) + named_parts(segments(rel)));
}

/// A non-empty path has at least one component.
pub proof fn lemma_components_nonempty(p: Seq<char>)
    requires
        p.len() > 0,
    ensures
        components(p).len() > 0,
{
    if !is_absolute(p) {
        lemma_first_segment(p);
        lemma_segments_nonempty(p);
        if segments(p)[0] != seq!['.'] {
            lemma_named_parts_add(seq![segments(p)[0]], segments(p).skip(1));
            assert(seq![segments(p)[0]] + segments(p).skip(1) =~= segments(p));
            let x = segments(p)[0];
            assert(is_named(x));
            assert(named_parts(seq![x]) =~= seq![x]) by {
                assert(seq![x].drop_last() =~= Seq::<Seq<char>>::empty());
                assert(seq![x].last() == x);
                assert(named_parts(Seq::<Seq<char>>::empty()) =~= Seq::<Seq<char>>::empty());
                assert(Seq::<Seq<char>>::empty().push(x) =~= seq![x]);
            }
        }
    }
}

/// What is found below a non-empty base is its remaining components, plain.
pub proof fn lemma_stripped_plain(path: Seq<char>, base: Seq<char>)
    requires
        base.len() > 0,
        stripped(path, base) is Some,
    ensures
        plain_parts(components(path).skip(components(base).len() as int)),
        stripped(path, base) == Some(render(components(path).skip(components(base).len() as int))),
        components(base) + components(path).skip(components(base).len() as int) == components(path),
{
    let cp = components(path);
    let cb = components(base);
    lemma_components_nonempty(base);
    lemma_named_parts_of_path(path);
    let lead_len: int = cp.len() - named_parts(segments(path)).len();
    assert(lead_len <= 1);
    assert(cp.skip(cb.len() as int) =~= named_parts(segments(path)).skip(cb.len() - lead_len));
    assert(cb + cp.skip(cb.len() as int) =~= cp);
}

/// A relative path whose components are its named parts: it neither starts at
/// the root nor with `.`.
pub open spec fn plain_relative(p: Seq<char>) -> bool {
    !is_absolute(p) && segments(p)[0] != seq!['.']
}

/// Pushing onto an empty base gives the pushed path itself.
pub proof fn lemma_pushed_onto_empty(rel: Seq<char>)
    ensures
        pushed(Seq::<char>::empty(), rel) == rel,
{
    assert(Seq::<char>::empty() + rel =~= rel);
}

/// Written-out plain parts do not start at the root.
pub proof fn lemma_render_relative(parts: Seq<Seq<char>>)
    requires
        plain_parts(parts),
    ensures
        !is_absolute(render(parts)),
        named_parts(segments(render(parts))) == parts,
{
    if parts.len() > 0 {
        lemma_render_first(parts);
        lemma_segments_render(parts);
        lemma_named_parts_plain(parts);
    } else {
        lemma_components_empty();
        assert(render(parts) =~= Seq::<char>::empty());
        assert(parts =~= Seq::<Seq<char>>::empty());
    }
}

/// What is found below a non-empty base, pushed back onto it, is the same path;
/// pushed onto any non-empty base, it is found there again unchanged.
pub proof fn lemma_strip_then_push(path: Seq<char>, base: Seq<char>, other: Seq<char>)
    requires
        base.len() > 0,
        stripped(path, base) is Some,
    ensures
        !is_absolute(stripped(path, base)->0),
        same_path(pushed(base, stripped(path, base)->0), path),
        stripped(pushed(other, stripped(path, base)->0), other) == stripped(path, base),
{
    lemma_stripped_plain(path, base);
    let rest = components(path).skip(components(base).len() as int);
    let rel = render(rest);
    lemma_render_relative(rest);
    lemma_components_pushed(base, rel);
    if other.len() == 0 {
        lemma_pushed_onto_empty(rel);
    } else {
        lemma_components_pushed(other, rel);
        let co = components(other);
        assert((co + rest).take(co.len() as int) =~= co);
        assert((co + rest).skip(co.len() as int) =~= rest);
    }
}

/// A plain relative path's components are its named parts; pushed onto a
/// non-empty base it is found there again as those parts written out, which is
/// the same path and again plain.
pub proof fn lemma_plain_relative(path: Seq<char>, other: Seq<char>)
    requires
        plain_relative(path),
    ensures
        components(path) == named_parts(segments(path)),
        other.len() > 0 ==> stripped(pushed(other, path), other) == Some(render(named_parts(segments(path)))),
        same_path(render(named_parts(segments(path))), path),
        plain_relative(render(named_parts(segments(path)))),
        named_parts(segments(render(named_parts(segments(path))))) == named_parts(segments(path)),
{
    let parts = named_parts(segments(path));
    assert(components(path) =~= parts);
    lemma_named_parts_of_path(path);
    lemma_components_render(parts);
    lemma_render_relative(parts);
    if parts.len() > 0 {
        lemma_segments_render(parts);
        assert(is_named(parts[0]));
    } else {
        assert(render(parts) =~= Seq::<char>::empty());
        lemma_components_empty();
        assert(segments(Seq::<char>::empty())[0] != seq!['.']) by {
            assert(segments(Seq::<char>::empty()) =~= seq![Seq::<char>::empty()]);
            assert(seq!['.'].len() == 1);
        }
    }
    if other.len() > 0 {
        lemma_components_pushed(other, path);
        let co = components(other);
        assert((co + parts).take(co.len() as int) =~= co);
        assert((co + parts).skip(co.len() as int) =~= parts);
    }
}

// ---------------------------------------------------------------------------
// Computing with paths
// ---------------------------------------------------------------------------

/// A string of one character.
fn single(c: char) -> (r: String)
    ensures
        r@ == seq![c],
{
    let mut out = String::new();
    push_char(&mut out, c);
    assert(out@ =~= seq![c]);
    out
}

/// Whether `s` is exactly the characters `t`.
fn is_text(s: &String, first: char, second: Option<char>) -> (r: bool)
    ensures
        r == (s@ == match second {
            Some(d) => seq![first, d],
            None => seq![first],
        }),
{
    let ghost t = match second {
        Some(d) => seq![first, d],
        None => seq![first],
    };
    let n = s.unicode_len();
    match second {
        None => {
            let r = n == 1 && s.get_char(0) == first;
            proof {
                if s@ == t {
                    assert(s@.len() == 1);
                }
                if r {
                    assert(s@ =~= t);
                }
            }
            r
        },
        Some(d) => {
            let r = n == 2 && s.get_char(0) == first && s.get_char(1) == d;
            proof {
                if s@ == t {
                    assert(s@.len() == 2);
                }
                if r {
                    assert(s@ =~= t);
                }
            }
            r
        },
    }
}

/// The parts of `p` between separators.
fn segments_of(p: &str) -> (r: Vec<String>)
    ensures
        r.deep_view() == segments(p@),
{
    let chars = chars_of(p);
    let mut segs: Vec<String> = Vec::new();
    segs.push(String::new());
    assert(p@.take(0) =~= Seq::<char>::empty());
    assert(segs.deep_view() =~= segments(p@.take(0)));
    let mut i: usize = 0;
    while i < chars.len()
        invariant
            chars@ == p@,
            i <= chars@.len(),
            segs@.len() >= 1,
            segs.deep_view() == segments(p@.take(i as int)),
        decreases chars@.len() - i,
    {
        let c = chars[i];
        let ghost before = segs.deep_view();
        proof {
            assert(p@.take(i + 1).drop_last() =~= p@.take(i as int));
            assert(p@.take(i + 1).last() == c);
            lemma_segments_nonempty(p@.take(i as int));
        }
        if c == '/' {
            segs.push(String::new());
            assert(segs.deep_view() =~= before.push(Seq::<char>::empty()));
        } else {
            let mut cur = segs.pop().unwrap();
            push_char(&mut cur, c);
            segs.push(cur);
            assert(segs.deep_view() =~= before.update(before.len() - 1, before.last().push(c)));
        }
        i = i + 1;
    }
    assert(p@.take(chars@.len() as int) =~= p@);
    segs
}

/// The components of `p`.
pub fn components_of(p: &str) -> (r: Vec<String>)
    ensures
        r.deep_view() == components(p@),
{
    let segs = segments_of(p);
    proof {
        lemma_segments_nonempty(p@);
    }
    let mut out: Vec<String> = Vec::new();
    let ghost lead: Seq<Seq<char>>;
    if p.unicode_len() > 0 && p.get_char(0) == '/' {
        out.push(single('/'));
        proof {
            lead = seq![seq!['/']];
        }
    } else if is_text(&segs[0], '.', None) {
        out.push(single('.'));
        proof {
            lead = seq![seq!['.']];
        }
    } else {
        proof {
            lead = Seq::empty();
        }
    }
    assert(out.deep_view() =~= lead);
    let mut k: usize = 0;
    while k < segs.len()
        invariant
            k <= segs@.len(),
            segs.deep_view() == segments(p@),
            out.deep_view() == lead + named_parts(segs.deep_view().take(k as int)),
        decreases segs@.len() - k,
    {
        let seg = &segs[k];
        let ghost before = out.deep_view();
        proof {
            assert(segs.deep_view().take(k + 1).drop_last() =~= segs.deep_view().take(k as int));
            assert(segs.deep_view().take(k + 1).last() == seg@);
        }
        if seg.unicode_len() > 0 && !is_text(seg, '.', None) {
            out.push(owned(seg.as_str()));
            assert(out.deep_view() =~= before.push(seg@));
        }
        k = k + 1;
    }
    assert(segs.deep_view().take(segs@.len() as int) =~= segs.deep_view());
    out
}

/// `parts` from index `from` on, written one after another with separators.
fn render_from(parts: &Vec<String>, from: usize) -> (r: String)
    requires
        from <= parts@.len(),
    ensures
        r@ == render(parts.deep_view().skip(from as int)),
{
    let mut out = String::new();
    let mut j: usize = from;
    assert(parts.deep_view().subrange(from as int, from as int) =~= Seq::<Seq<char>>::empty());
    while j < parts.len()
        invariant
            from <= j <= parts@.len(),
            out@ == render(parts.deep_view().subrange(from as int, j as int)),
        decreases parts@.len() - j,
    {
        let ghost s = parts.deep_view().subrange(from as int, j as int);
        let ghost t = parts.deep_view().subrange(from as int, j + 1);
        assert(t.drop_last() =~= s);
        assert(t.last() == parts.deep_view()[j as int]);
        if j > from {
            push_char(&mut out, '/');
        }
        append(&mut out, parts[j].as_str());
        proof {
            if j > from {
                assert(out@ =~= render(s) + seq!['/'] + t.last());
            } else {
                assert(t =~= seq![t.last()]);
                assert(out@ =~= t.last());
            }
        }
        j = j + 1;
    }
    assert(parts.deep_view().subrange(from as int, parts@.len() as int) =~= parts.deep_view().skip(from as int));
    out
}

/// `path` below `base`, as `Path::strip_prefix` finds it.
pub fn strip_path(path: &str, base: &str) -> (r: Option<String>)
    ensures
        r.deep_view() == stripped(path@, base@),
{
    if base.unicode_len() == 0 {
        return Some(owned(path));
    }
    let cp = components_of(path);
    let cb = components_of(base);
    if cb.len() > cp.len() {
        return None;
    }
    let mut i: usize = 0;
    while i < cb.len()
        invariant
            cb@.len() <= cp@.len(),
            cp.deep_view() == components(path@),
            cb.deep_view() == components(base@),
            base@.len() > 0,
            i <= cb@.len(),
            forall|k: int| 0 <= k < i ==> cp.deep_view()[k] == cb.deep_view()[k],
        decreases cb@.len() - i,
    {
        if !text_eq(cp[i].as_str(), cb[i].as_str()) {
            assert(cp.deep_view().take(cb@.len() as int)[i as int] != cb.deep_view()[i as int]);
            assert(cp.deep_view().take(cb.deep_view().len() as int) != cb.deep_view());
            return None;
        }
        i = i + 1;
    }
    assert(cp.deep_view().take(cb@.len() as int) =~= cb.deep_view());
    Some(render_from(&cp, cb.len()))
}

/// `rel` pushed onto `base`, as `PathBuf::push` does.
pub fn pushed_path(base: &str, rel: &str) -> (r: String)
    ensures
        r@ == pushed(base@, rel@),
{
    if rel.unicode_len() > 0 && rel.get_char(0) == '/' {
        return owned(rel);
    }
    let n = base.unicode_len();
    let mut out = owned(base);
    if n > 0 && base.get_char(n - 1) != '/' {
        push_char(&mut out, '/');
    }
    append(&mut out, rel);
    out
}

/// The file name of `p`, as `Path::file_name` gives it.
pub fn file_name_of(p: &str) -> (r: Option<String>)
    ensures
        r.deep_view() == path_name(p@),
{
    let c = components_of(p);
    if c.len() == 0 {
        return None;
    }
    let last = &c[c.len() - 1];
    assert(c.deep_view().last() == last@);
    if is_text(last, '/', None) || is_text(last, '.', None)
        || is_text(last, '.', Some('.')) {
        None
    } else {
        Some(owned(last.as_str()))
    }
}

} // verus!
