use vstd::prelude::*;

use crate::text::{chars_of, str_lowercase, text_eq, to_lowercase};

verus! {

/// The comparison key of a path on a case-insensitive file system.
pub open spec fn case_key(p: Seq<char>) -> Seq<char> {
    str_lowercase(p)
}

/// `a` is a proper ancestor directory of `p`: a prefix of it that ends just before a `/`.
pub open spec fn proper_ancestor(p: Seq<char>, a: Seq<char>) -> bool {
    exists|i: int| 0 < i < p.len() && p[i] == '/' && #[trigger] p.take(i) == a
}

/// The file among the first `n` that repeats (ignoring case) an earlier one.
pub open spec fn first_repeat(files: Seq<Seq<char>>, n: nat) -> Option<Seq<char>>
    decreases n,
{
    if n == 0 {
        None
    } else {
        match first_repeat(files, (n - 1) as nat) {
            Some(f) => Some(f),
            None => if exists|j: int| 0 <= j < n - 1 && case_key(#[trigger] files[j]) == case_key(files[n - 1]) {
                Some(files[n - 1])
            } else {
                None
            },
        }
    }
}

/// The file is also needed as a directory: a planned directory, or an ancestor of
/// some planned file, has its name (ignoring case).
pub open spec fn clashes_with_directory(files: Seq<Seq<char>>, dirs: Seq<Seq<char>>, f: Seq<char>) -> bool {
    ||| exists|d: int| 0 <= d < dirs.len() && case_key(#[trigger] dirs[d]) == case_key(f)
    ||| exists|m: int, a: Seq<char>| 0 <= m < files.len() && #[trigger] proper_ancestor(files[m], a) && case_key(a) == case_key(f)
}

/// The first of the first `n` files that clashes with a directory.
pub open spec fn first_directory_clash(files: Seq<Seq<char>>, dirs: Seq<Seq<char>>, n: nat) -> Option<Seq<char>>
    decreases n,
{
    if n == 0 {
        None
    } else {
        match first_directory_clash(files, dirs, (n - 1) as nat) {
            Some(f) => Some(f),
            None => if clashes_with_directory(files, dirs, files[n - 1]) { Some(files[n - 1]) } else { None },
        }
    }
}

/// The first planned file that collides with another output on a file system that
/// ignores case: a repeated file first, else a file that is also a directory.
pub open spec fn first_collision(files: Seq<Seq<char>>, dirs: Seq<Seq<char>>) -> Option<Seq<char>> {
    match first_repeat(files, files.len()) {
        Some(f) => Some(f),
        None => first_directory_clash(files, dirs, files.len()),
    }
}

fn keys_of(list: &Vec<String>) -> (r: Vec<String>)
    ensures
        r@.len() == list@.len(),
        forall|k: int| 0 <= k < list@.len() ==> (#[trigger] r@[k])@ == case_key(list@[k]@),
{
    let mut keys: Vec<String> = Vec::new();
    let mut i: usize = 0;
    while i < list.len()
        invariant
            i <= list@.len(),
            keys@.len() == i,
            forall|k: int| 0 <= k < i ==> (#[trigger] keys@[k])@ == case_key(list@[k]@),
        decreases list@.len() - i,
    {
        keys.push(to_lowercase(list[i].as_str()));
        i = i + 1;
    }
    keys
}

/// Whether the key `key` names a proper ancestor of `p`.
fn ancestor_has_key(p: &str, key: &str) -> (r: bool)
    ensures
        r == exists|a: Seq<char>| proper_ancestor(p@, a) && case_key(a) == key@,
{
    let chars = chars_of(p);
    let mut prefix: Vec<char> = Vec::new();
    let mut i: usize = 0;
    while i < chars.len()
        invariant
            i <= chars@.len(),
            chars@ == p@,
            prefix@ == p@.take(i as int),
            forall|j: int| 0 < j < i && p@[j] == '/' ==> case_key(#[trigger] p@.take(j)) != key@,
        decreases chars@.len() - i,
    {
        if i > 0 && chars[i] == '/' {
            let text = crate::text::from_chars(&prefix);
            let lowered = to_lowercase(text.as_str());
            if text_eq(lowered.as_str(), key) {
                assert(proper_ancestor(p@, p@.take(i as int)));
                assert(case_key(p@.take(i as int)) == key@);
                return true;
            }
        }
        prefix.push(chars[i]);
        i = i + 1;
        assert(prefix@ =~= p@.take(i as int));
    }
    assert forall|a: Seq<char>| proper_ancestor(p@, a) implies case_key(a) != key@ by {
        let j = choose|j: int| 0 < j < p@.len() && p@[j] == '/' && #[trigger] p@.take(j) == a;
        assert(case_key(p@.take(j)) != key@);
    }
    false
}

/// The first planned file that collides with another output, ignoring case.
pub fn find_collision(files: &Vec<String>, dirs: &Vec<String>) -> (r: Option<String>)
    ensures
        r.deep_view() == first_collision(files.deep_view(), dirs.deep_view()),
{
    let ghost fs = files.deep_view();
    let ghost ds = dirs.deep_view();
    let file_keys = keys_of(files);
    let dir_keys = keys_of(dirs);
    let mut k: usize = 0;
    while k < files.len()
        invariant
            k <= fs.len(),
            fs == files.deep_view(),
            file_keys@.len() == fs.len(),
            forall|j: int| 0 <= j < fs.len() ==> (#[trigger] file_keys@[j])@ == case_key(fs[j]),
            first_repeat(fs, k as nat) is None,
        decreases fs.len() - k,
    {
        let mut j: usize = 0;
        while j < k
            invariant
                j <= k < fs.len(),
                fs == files.deep_view(),
                file_keys@.len() == fs.len(),
                forall|m: int| 0 <= m < fs.len() ==> (#[trigger] file_keys@[m])@ == case_key(fs[m]),
                forall|m: int| 0 <= m < j ==> case_key(#[trigger] fs[m]) != case_key(fs[k as int]),
                first_repeat(fs, k as nat) is None,
            decreases k - j,
        {
            if text_eq(file_keys[j].as_str(), file_keys[k].as_str()) {
                assert(case_key(fs[j as int]) == case_key(fs[k as int]));
                assert(first_repeat(fs, (k + 1) as nat) == Some(fs[k as int]));
                proof {
                    lemma_first_repeat_stays(fs, (k + 1) as nat, fs.len());
                }
                return Some(files[k].clone());
            }
            j = j + 1;
        }
        k = k + 1;
    }
    let mut k: usize = 0;
    while k < files.len()
        invariant
            k <= fs.len(),
            fs == files.deep_view(),
            ds == dirs.deep_view(),
            first_repeat(fs, fs.len()) is None,
            file_keys@.len() == fs.len(),
            forall|j: int| 0 <= j < fs.len() ==> (#[trigger] file_keys@[j])@ == case_key(fs[j]),
            dir_keys@.len() == ds.len(),
            forall|j: int| 0 <= j < ds.len() ==> (#[trigger] dir_keys@[j])@ == case_key(ds[j]),
            first_directory_clash(fs, ds, k as nat) is None,
        decreases fs.len() - k,
    {
        let key = file_keys[k].as_str();
        let mut clash = false;
        let mut d: usize = 0;
        while d < dirs.len()
            invariant
                d <= ds.len(),
                ds == dirs.deep_view(),
                dir_keys@.len() == ds.len(),
                forall|j: int| 0 <= j < ds.len() ==> (#[trigger] dir_keys@[j])@ == case_key(ds[j]),
                clash == exists|j: int| 0 <= j < d && case_key(#[trigger] ds[j]) == key@,
            decreases ds.len() - d,
        {
            if text_eq(dir_keys[d].as_str(), key) {
                clash = true;
            }
            d = d + 1;
        }
        let mut m: usize = 0;
        while m < files.len()
            invariant
                m <= fs.len(),
                fs == files.deep_view(),
                clash == ((exists|j: int| 0 <= j < ds.len() && case_key(#[trigger] ds[j]) == key@) || exists|j: int, a: Seq<char>|
                    0 <= j < m && #[trigger] proper_ancestor(fs[j], a) && case_key(a) == key@),
            decreases fs.len() - m,
        {
            assert(fs[m as int] == files@[m as int]@);
            if ancestor_has_key(files[m].as_str(), key) {
                clash = true;
            }
            m = m + 1;
        }
        if clash {
            assert(clashes_with_directory(fs, ds, fs[k as int]));
            assert(first_directory_clash(fs, ds, (k + 1) as nat) == Some(fs[k as int]));
            proof {
                lemma_first_clash_stays(fs, ds, (k + 1) as nat, fs.len());
            }
            return Some(files[k].clone());
        }
        k = k + 1;
    }
    None
}

proof fn lemma_first_repeat_stays(files: Seq<Seq<char>>, n: nat, m: nat)
    requires
        n <= m,
        first_repeat(files, n) is Some,
    ensures
        first_repeat(files, m) == first_repeat(files, n),
    decreases m - n,
{
    if n < m {
        lemma_first_repeat_stays(files, n, (m - 1) as nat);
    }
}

proof fn lemma_first_clash_stays(files: Seq<Seq<char>>, dirs: Seq<Seq<char>>, n: nat, m: nat)
    requires
        n <= m,
        first_directory_clash(files, dirs, n) is Some,
    ensures
        first_directory_clash(files, dirs, m) == first_directory_clash(files, dirs, n),
    decreases m - n,
{
    if n < m {
        lemma_first_clash_stays(files, dirs, n, (m - 1) as nat);
    }
}

/// Law: when no collision is found, no two planned files share a name ignoring
/// case, and no planned file shares one with a planned directory.
pub proof fn law_no_collision_means_distinct_names(files: Seq<Seq<char>>, dirs: Seq<Seq<char>>)
    requires
        first_collision(files, dirs) is None,
    ensures
        forall|i: int, j: int| 0 <= i < j < files.len() ==> case_key(#[trigger] files[i]) != case_key(#[trigger] files[j]),
        forall|i: int, d: int| 0 <= i < files.len() && 0 <= d < dirs.len() ==> case_key(#[trigger] files[i]) != case_key(#[trigger] dirs[d]),
{
    lemma_no_repeat(files, files.len());
    lemma_no_clash(files, dirs, files.len());
}

proof fn lemma_no_repeat(files: Seq<Seq<char>>, n: nat)
    requires
        n <= files.len(),
        first_repeat(files, n) is None,
    ensures
        forall|i: int, j: int| 0 <= i < j < n ==> case_key(#[trigger] files[i]) != case_key(#[trigger] files[j]),
    decreases n,
{
    if n > 0 {
        lemma_no_repeat(files, (n - 1) as nat);
        assert forall|i: int, j: int| 0 <= i < j < n implies case_key(#[trigger] files[i]) != case_key(#[trigger] files[j]) by {
            if j == n - 1 {
                if case_key(files[i]) == case_key(files[j]) {
                    assert(exists|k: int| 0 <= k < n - 1 && case_key(#[trigger] files[k]) == case_key(files[n - 1]));
                }
            }
        }
    }
}

proof fn lemma_no_clash(files: Seq<Seq<char>>, dirs: Seq<Seq<char>>, n: nat)
    requires
        n <= files.len(),
        first_directory_clash(files, dirs, n) is None,
    ensures
        forall|i: int, d: int| 0 <= i < n && 0 <= d < dirs.len() ==> case_key(#[trigger] files[i]) != case_key(#[trigger] dirs[d]),
    decreases n,
{
    if n > 0 {
        lemma_no_clash(files, dirs, (n - 1) as nat);
        assert forall|i: int, d: int| 0 <= i < n && 0 <= d < dirs.len() implies case_key(#[trigger] files[i]) != case_key(#[trigger] dirs[d]) by {
            if i == n - 1 && case_key(files[i]) == case_key(dirs[d]) {
                assert(clashes_with_directory(files, dirs, files[n - 1]));
            }
        }
    }
}

} // verus!
