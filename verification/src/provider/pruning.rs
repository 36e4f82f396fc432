use vstd::prelude::*;

verus! {

/// One cache file as pruning sees it: its size, and when it was last used (in
/// seconds since the Unix epoch).
#[derive(Clone, Copy, Debug, PartialEq, Eq)]
pub struct CacheFile {
    pub bytes: u64,
    pub accessed: u64,
}

/// File `a` goes before file `b`: it was used earlier, or at the same time and it
/// comes first in the listing.
pub open spec fn used_before(files: Seq<CacheFile>, a: int, b: int) -> bool {
    files[a].accessed < files[b].accessed || (files[a].accessed == files[b].accessed && a < b)
}

/// `order` lists every file once, least recently used first (ties in listing order).
pub open spec fn is_age_order(files: Seq<CacheFile>, order: Seq<usize>) -> bool {
    &&& order.len() == files.len()
    &&& forall|k: int| 0 <= k < order.len() ==> #[trigger] order[k] < files.len()
    &&& forall|a: int, b: int|
        #![trigger order[a], order[b]]
        0 <= a < b < order.len() ==> used_before(files, order[a] as int, order[b] as int)
}

/// The total size of the files that `picked` lists.
pub open spec fn size_sum(files: Seq<CacheFile>, picked: Seq<usize>) -> int
    decreases picked.len(),
{
    if picked.len() == 0 {
        0
    } else {
        files[picked[0] as int].bytes + size_sum(files, picked.skip(1))
    }
}

/// Removing the first `removed` files of the age order leaves at most `max_bytes`.
pub open spec fn fits_after_removing(files: Seq<CacheFile>, order: Seq<usize>, removed: int, max_bytes: u64) -> bool {
    size_sum(files, order.skip(removed)) <= max_bytes
}

/// The sizes of `k` files add up to at most `k` times the largest size.
proof fn lemma_size_sum_bound(files: Seq<CacheFile>, picked: Seq<usize>)
    ensures
        0 <= size_sum(files, picked) <= picked.len() * 18446744073709551615,
    decreases picked.len(),
{
    if picked.len() > 0 {
        lemma_size_sum_bound(files, picked.skip(1));
    }
}

/// The files in least-recently-used order.
pub fn age_order(files: &Vec<CacheFile>) -> (order: Vec<usize>)
    ensures
        is_age_order(files@, order@),
{
    let mut order: Vec<usize> = Vec::new();
    let mut i: usize = 0;
    while i < files.len()
        invariant
            i <= files@.len(),
            order@.len() == i,
            forall|k: int| 0 <= k < order@.len() ==> #[trigger] order@[k] < i,
            forall|a: int, b: int|
                #![trigger order@[a], order@[b]]
                0 <= a < b < order@.len() ==> used_before(files@, order@[a] as int, order@[b] as int),
        decreases files@.len() - i,
    {
        let accessed = files[i].accessed;
        let mut p: usize = 0;
        while p < order.len() && files[order[p]].accessed <= accessed
            invariant
                i < files@.len(),
                accessed == files@[i as int].accessed,
                p <= order@.len(),
                order@.len() == i,
                forall|k: int| 0 <= k < order@.len() ==> #[trigger] order@[k] < i,
                forall|q: int| 0 <= q < p ==> #[trigger] files@[order@[q] as int].accessed <= accessed,
            decreases order@.len() - p,
        {
            p = p + 1;
        }
        let ghost before = order@;
        proof {
            // Every file from position p on was used after file i.
            assert forall|q: int| p <= q < before.len() implies files@[before[q] as int].accessed > accessed by {
                if q > p {
                    assert(used_before(files@, before[p as int] as int, before[q] as int));
                }
            }
        }
        order.insert(p, i);
        proof {
            let after = order@;
            assert(after == before.insert(p as int, i));
            assert forall|k: int| 0 <= k < after.len() implies #[trigger] after[k] < i + 1 by {
                if k < p {
                    assert(after[k] == before[k]);
                } else if k > p {
                    assert(after[k] == before[k - 1]);
                }
            }
            assert forall|a: int, b: int|
                #![trigger after[a], after[b]]
                0 <= a < b < after.len() implies used_before(files@, after[a] as int, after[b] as int) by {
                if b < p {
                    assert(after[a] == before[a] && after[b] == before[b]);
                } else if b == p {
                    assert(after[a] == before[a]);
                    assert(files@[before[a] as int].accessed <= accessed);
                    assert(before[a] < i);
                } else if a < p {
                    assert(after[a] == before[a] && after[b] == before[b - 1]);
                } else if a == p {
                    assert(after[b] == before[b - 1]);
                    assert(files@[before[b - 1] as int].accessed > accessed);
                } else {
                    assert(after[a] == before[a - 1] && after[b] == before[b - 1]);
                }
            }
        }
        i = i + 1;
    }
    order
}

/// The files to delete so that the cache fits in `max_bytes`: the least recently
/// used ones, as few as will do. The result lists them, oldest first, by position.
pub fn eviction(files: &Vec<CacheFile>, max_bytes: u64) -> (r: Vec<usize>)
    ensures
        exists|order: Seq<usize>|
            {
                &&& #[trigger] is_age_order(files@, order)
                &&& r@.len() <= order.len()
                &&& r@ == order.take(r@.len() as int)
                &&& fits_after_removing(files@, order, r@.len() as int, max_bytes)
                &&& forall|k: int| 0 <= k < r@.len() ==> !fits_after_removing(files@, order, k, max_bytes)
            },
{
    let order = age_order(files);
    let n = order.len();
    // kept[k] is the size of the files left after removing the first k, for k from n down.
    let mut sums: Vec<u128> = Vec::new();
    let mut sum: u128 = 0;
    let mut k: usize = n;
    assert(order@.skip(n as int) =~= Seq::<usize>::empty());
    while k > 0
        invariant
            k <= n,
            n == order@.len(),
            is_age_order(files@, order@),
            sum == size_sum(files@, order@.skip(k as int)),
            sums@.len() == n - k,
            forall|j: int| k <= j < n ==> #[trigger] sums@[n - 1 - j] == size_sum(files@, order@.skip(j + 1)),
        decreases k,
    {
        sums.push(sum);
        k = k - 1;
        let file = files[order[k]];
        proof {
            assert(order@.skip(k as int).skip(1) =~= order@.skip(k + 1));
            lemma_size_sum_bound(files@, order@.skip(k as int));
            assert(order@.skip(k as int).len() <= 18446744073709551615);
        }
        sum = sum + file.bytes as u128;
    }
    // Now sum is the size of all files, and sums lists the sizes after each removal.
    let mut removed: usize = 0;
    let mut left: u128 = sum;
    while removed < n && left > max_bytes as u128
        invariant
            removed <= n,
            n == order@.len(),
            sums@.len() == n,
            is_age_order(files@, order@),
            left == size_sum(files@, order@.skip(removed as int)),
            forall|j: int| 0 <= j < n ==> #[trigger] sums@[n - 1 - j] == size_sum(files@, order@.skip(j + 1)),
            forall|j: int| 0 <= j < removed ==> !fits_after_removing(files@, order@, j, max_bytes),
        decreases n - removed,
    {
        left = sums[n - 1 - removed];
        removed = removed + 1;
    }
    let mut out: Vec<usize> = Vec::new();
    let mut j: usize = 0;
    while j < removed
        invariant
            j <= removed <= n,
            n == order@.len(),
            out@ == order@.take(j as int),
        decreases removed - j,
    {
        out.push(order[j]);
        j = j + 1;
        assert(order@.take(j as int) =~= order@.take(j - 1).push(order@[j - 1]));
    }
    assert(fits_after_removing(files@, order@, removed as int, max_bytes)) by {
        if removed == n {
            assert(order@.skip(n as int) =~= Seq::<usize>::empty());
        }
    }
    out
}

/// Law: pruning evicts least recently used files first: every file it deletes was
/// used no later than every file it keeps.
pub proof fn law_eviction_is_least_recently_used(
    files: Seq<CacheFile>,
    order: Seq<usize>,
    removed: int,
    deleted: int,
    kept: int,
)
    requires
        is_age_order(files, order),
        0 <= deleted < removed <= kept < order.len(),
    ensures
        files[order[deleted] as int].accessed <= files[order[kept] as int].accessed,
{
    assert(used_before(files, order[deleted] as int, order[kept] as int));
}

} // verus!
