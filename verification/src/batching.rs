//! Partitioning of unpacked release files into balanced formatting batches.
//!
//! Every regular file under a release directory is recorded with its byte
//! size. [`plan_batches`] sorts the files by descending size and assigns each
//! in turn to whichever batch currently holds the smallest cumulative byte
//! total. The batch count is fixed at the worker count, so the number of
//! formatter invocations is bounded regardless of file count, and the greedy
//! least-loaded choice keeps the per-worker byte totals balanced: no batch
//! ends more than one (maximal) file size above the theoretical even share.
//! That bound is the `worker_count * total <= sum + (worker_count - 1) * max`
//! clause of [`plan_batches`].

use vstd::prelude::*;
use vstd::multiset::Multiset;

verus! {

broadcast use vstd::seq_lib::group_to_multiset_ensures;

/// One file of an unpacked release: its path and its size in bytes.
pub struct FileEntry {
    pub path: String,
    pub size: u64,
}

/// The sum of the sizes of `s`.
pub open spec fn sizes_total(s: Seq<FileEntry>) -> int
    decreases s.len(),
{
    if s.len() == 0 {
        0
    } else {
        sizes_total(s.drop_last()) + s.last().size
    }
}

/// The largest size in `s`, or zero if `s` is empty.
pub open spec fn max_size(s: Seq<FileEntry>) -> int
    decreases s.len(),
{
    if s.len() == 0 {
        0
    } else if s.last().size >= max_size(s.drop_last()) {
        s.last().size as int
    } else {
        max_size(s.drop_last())
    }
}

/// The sum of a sequence of batch loads.
pub open spec fn loads_total(s: Seq<u64>) -> int
    decreases s.len(),
{
    if s.len() == 0 {
        0
    } else {
        loads_total(s.drop_last()) + s.last()
    }
}

/// All files held by a sequence of batches, as one multiset.
pub open spec fn batches_multiset(bs: Seq<Vec<FileEntry>>) -> Multiset<FileEntry>
    decreases bs.len(),
{
    if bs.len() == 0 {
        Multiset::empty()
    } else {
        batches_multiset(bs.drop_last()).add(bs.last()@.to_multiset())
    }
}

pub proof fn lemma_sizes_total_nonneg(s: Seq<FileEntry>)
    ensures
        sizes_total(s) >= 0,
    decreases s.len(),
{
    if s.len() > 0 {
        lemma_sizes_total_nonneg(s.drop_last());
    }
}

proof fn lemma_loads_total_nonneg(s: Seq<u64>)
    ensures
        loads_total(s) >= 0,
    decreases s.len(),
{
    if s.len() > 0 {
        lemma_loads_total_nonneg(s.drop_last());
    }
}

proof fn lemma_load_le_total(s: Seq<u64>, i: int)
    requires
        0 <= i < s.len(),
    ensures
        s[i] <= loads_total(s),
    decreases s.len(),
{
    if i == s.len() - 1 {
        lemma_loads_total_nonneg(s.drop_last());
    } else {
        lemma_load_le_total(s.drop_last(), i);
    }
}

pub proof fn lemma_size_le_max(s: Seq<FileEntry>, i: int)
    requires
        0 <= i < s.len(),
    ensures
        s[i].size <= max_size(s),
    decreases s.len(),
{
    if i < s.len() - 1 {
        lemma_size_le_max(s.drop_last(), i);
    }
}

proof fn lemma_max_size_nonneg(s: Seq<FileEntry>)
    ensures
        max_size(s) >= 0,
    decreases s.len(),
{
    if s.len() > 0 {
        lemma_max_size_nonneg(s.drop_last());
    }
}

proof fn lemma_sizes_total_remove(s: Seq<FileEntry>, m: int)
    requires
        0 <= m < s.len(),
    ensures
        sizes_total(s.remove(m)) == sizes_total(s) - s[m].size,
    decreases s.len(),
{
    if m == s.len() - 1 {
        assert(s.remove(m) =~= s.drop_last());
    } else {
        assert(s.remove(m).drop_last() =~= s.drop_last().remove(m));
        assert(s.remove(m).last() == s.last());
        lemma_sizes_total_remove(s.drop_last(), m);
    }
}

proof fn lemma_max_size_remove_le(s: Seq<FileEntry>, m: int)
    requires
        0 <= m < s.len(),
    ensures
        max_size(s.remove(m)) <= max_size(s),
    decreases s.len(),
{
    if m == s.len() - 1 {
        assert(s.remove(m) =~= s.drop_last());
    } else {
        assert(s.remove(m).drop_last() =~= s.drop_last().remove(m));
        assert(s.remove(m).last() == s.last());
        lemma_max_size_remove_le(s.drop_last(), m);
    }
}

/// A sequence whose every load is at least `v` sums to at least `len * v`.
proof fn lemma_min_times_len_le_total(s: Seq<u64>, v: int)
    requires
        forall|j: int| 0 <= j < s.len() ==> v <= #[trigger] s[j],
    ensures
        s.len() * v <= loads_total(s),
    decreases s.len(),
{
    if s.len() == 0 {
    } else {
        lemma_min_times_len_le_total(s.drop_last(), v);
        assert(s.len() * v == (s.len() - 1) * v + v) by (nonlinear_arith);
        assert(v <= s[s.len() - 1]);
    }
}

proof fn lemma_loads_total_update(s: Seq<u64>, j: int, x: u64)
    requires
        0 <= j < s.len(),
    ensures
        loads_total(s.update(j, x)) == loads_total(s) - s[j] + x,
    decreases s.len(),
{
    if j == s.len() - 1 {
        assert(s.update(j, x).drop_last() =~= s.drop_last());
    } else {
        assert(s.update(j, x).drop_last() =~= s.drop_last().update(j, x));
        assert(s.update(j, x).last() == s.last());
        lemma_loads_total_update(s.drop_last(), j, x);
    }
}

proof fn lemma_batches_multiset_update(
    bs: Seq<Vec<FileEntry>>,
    j: int,
    nb: Vec<FileEntry>,
    x: FileEntry,
)
    requires
        0 <= j < bs.len(),
        nb@ == bs[j]@.push(x),
    ensures
        batches_multiset(bs.update(j, nb)) =~= batches_multiset(bs).insert(x),
    decreases bs.len(),
{
    broadcast use vstd::seq_lib::group_to_multiset_ensures;

    if j == bs.len() - 1 {
        assert(bs.update(j, nb).drop_last() =~= bs.drop_last());
        assert(nb@.to_multiset() =~= bs[j]@.to_multiset().insert(x));
    } else {
        assert(bs.update(j, nb).drop_last() =~= bs.drop_last().update(j, nb));
        assert(bs.update(j, nb).last() == bs.last());
        lemma_batches_multiset_update(bs.drop_last(), j, nb, x);
    }
}

/// Sorts files by descending size, keeping exactly the same entries.
pub fn sort_files_desc(files: Vec<FileEntry>) -> (r: Vec<FileEntry>)
    ensures
        r@.len() == files@.len(),
        r@.to_multiset() == files@.to_multiset(),
        forall|i: int, j: int| 0 <= i < j < r@.len() ==> r@[i].size >= r@[j].size,
        sizes_total(r@) == sizes_total(files@),
        max_size(r@) <= max_size(files@),
{
    let ghost orig = files@;
    let mut rest = files;
    let mut r: Vec<FileEntry> = Vec::new();
    while rest.len() > 0
        invariant
            r@.len() + rest@.len() == orig.len(),
            r@.to_multiset().add(rest@.to_multiset()) =~= orig.to_multiset(),
            forall|i: int, j: int| 0 <= i < j < r@.len() ==> r@[i].size >= r@[j].size,
            forall|i: int, j: int|
                0 <= i < r@.len() && 0 <= j < rest@.len() ==> r@[i].size >= rest@[j].size,
            sizes_total(r@) + sizes_total(rest@) == sizes_total(orig),
            max_size(r@) <= max_size(orig),
            max_size(rest@) <= max_size(orig),
        decreases rest@.len(),
    {
        let n = rest.len();
        let mut m: usize = 0;
        let mut t: usize = 1;
        while t < n
            invariant
                n == rest@.len(),
                m < t <= n,
                forall|j: int| 0 <= j < t ==> rest@[j].size <= rest@[m as int].size,
            decreases n - t,
        {
            if rest[t].size > rest[m].size {
                m = t;
            }
            t += 1;
        }
        let ghost pre = rest@;
        let x = rest.remove(m);
        proof {
            assert(pre.contains(x)) by {
                assert(pre[m as int] == x);
            }
            assert(pre.to_multiset().count(x) > 0);
            assert(r@.push(x).to_multiset() =~= r@.to_multiset().insert(x));
            assert(r@.push(x).to_multiset().add(rest@.to_multiset()) =~= orig.to_multiset());
            lemma_sizes_total_remove(pre, m as int);
            lemma_max_size_remove_le(pre, m as int);
            lemma_size_le_max(pre, m as int);
            assert(sizes_total(r@.push(x)) == sizes_total(r@) + x.size) by {
                assert(r@.push(x).drop_last() =~= r@);
            }
            assert(max_size(r@.push(x)) <= max_size(orig)) by {
                assert(r@.push(x).drop_last() =~= r@);
            }
        }
        r.push(x);
    }
    proof {
        assert(rest@.to_multiset().len() == 0);
        assert(r@.to_multiset() =~= orig.to_multiset());
        assert(rest@ =~= Seq::<FileEntry>::empty());
    }
    r
}

/// Assigns each file, in the given order, to the batch whose byte total is
/// currently smallest, producing exactly `worker_count` batches that together
/// hold exactly the given files, each batch's total at most one maximal file
/// size above the even share.
pub fn assign_batches(files: Vec<FileEntry>, worker_count: usize) -> (batches: Vec<
    Vec<FileEntry>,
>)
    requires
        1 <= worker_count,
        sizes_total(files@) <= u64::MAX,
    ensures
        batches@.len() == worker_count,
        batches_multiset(batches@) == files@.to_multiset(),
        forall|b: int|
            0 <= b < batches@.len() ==> worker_count * sizes_total(#[trigger] batches@[b]@)
                <= sizes_total(files@) + (worker_count - 1) * max_size(files@),
{
    let ghost orig = files@;
    let k = worker_count;
    let mut batches: Vec<Vec<FileEntry>> = Vec::new();
    let mut loads: Vec<u64> = Vec::new();
    let mut c: usize = 0;
    while c < k
        invariant
            c <= k,
            batches@.len() == c,
            loads@.len() == c,
            batches_multiset(batches@) =~= Multiset::<FileEntry>::empty(),
            loads_total(loads@) == 0,
            forall|b: int| 0 <= b < c ==> loads@[b] == 0,
            forall|b: int| 0 <= b < c ==> (#[trigger] batches@[b]@).len() == 0,
        decreases k - c,
    {
        let nb: Vec<FileEntry> = Vec::new();
        proof {
            assert(batches@.push(nb).drop_last() =~= batches@);
            assert(nb@.to_multiset().len() == 0);
            assert(batches_multiset(batches@.push(nb)) =~= Multiset::<FileEntry>::empty());
            assert(loads@.push(0u64).drop_last() =~= loads@);
        }
        batches.push(nb);
        loads.push(0);
        c += 1;
    }
    let mut rest = files;
    while rest.len() > 0
        invariant
            1 <= k,
            batches@.len() == k,
            loads@.len() == k,
            sizes_total(orig) <= u64::MAX,
            loads_total(loads@) + sizes_total(rest@) == sizes_total(orig),
            max_size(rest@) <= max_size(orig),
            batches_multiset(batches@).add(rest@.to_multiset()) =~= orig.to_multiset(),
            forall|b: int|
                0 <= b < k ==> loads@[b] == sizes_total(#[trigger] batches@[b]@),
            forall|b: int|
                0 <= b < k ==> k * (#[trigger] loads@[b] as int) <= loads_total(loads@) + (k - 1)
                    * max_size(orig),
        decreases rest@.len(),
    {
        let ghost pre = rest@;
        let x = rest.remove(0);
        proof {
            assert(pre.contains(x)) by {
                assert(pre[0] == x);
            }
            assert(pre.to_multiset().count(x) > 0);
            lemma_sizes_total_remove(pre, 0);
            lemma_max_size_remove_le(pre, 0);
            lemma_size_le_max(pre, 0);
            lemma_sizes_total_nonneg(rest@);
            lemma_loads_total_nonneg(loads@);
        }
        let mut j: usize = 0;
        let mut t: usize = 1;
        while t < k
            invariant
                k == loads@.len(),
                j < t <= k,
                forall|b: int| 0 <= b < t ==> loads@[j as int] <= #[trigger] loads@[b],
            decreases k - t,
        {
            if loads[t] < loads[j] {
                j = t;
            }
            t += 1;
        }
        proof {
            lemma_load_le_total(loads@, j as int);
            lemma_min_times_len_le_total(loads@, loads@[j as int] as int);
        }
        let new_load = loads[j] + x.size;
        let ghost old_loads = loads@;
        let ghost old_batches = batches@;
        let ghost xsz = x.size as int;
        loads[j] = new_load;
        batches[j].push(x);
        proof {
            lemma_loads_total_update(old_loads, j as int, new_load);
            lemma_batches_multiset_update(old_batches, j as int, batches@[j as int], x);
            assert(sizes_total(batches@[j as int]@) == sizes_total(old_batches[j as int]@)
                + xsz) by {
                assert(batches@[j as int]@.drop_last() =~= old_batches[j as int]@);
            }
            assert(batches_multiset(batches@).add(rest@.to_multiset()) =~= orig.to_multiset());
            let lt = loads_total(old_loads);
            let nlt = loads_total(loads@);
            assert(nlt == lt + xsz);
            assert forall|b: int|
                0 <= b < k implies k * (#[trigger] loads@[b] as int) <= nlt + (k - 1) * max_size(
                orig,
            ) by {
                if b == j as int {
                    assert(k * (old_loads[b] as int) <= lt) by {
                        assert(k * (old_loads[j as int] as int) <= lt);
                    }
                    assert(k * (loads@[b] as int) == k * (old_loads[b] as int) + k * xsz)
                        by (nonlinear_arith)
                        requires
                            loads@[b] as int == old_loads[b] as int + xsz,
                    ;
                    assert((k - 1) * xsz <= (k - 1) * max_size(orig)) by (nonlinear_arith)
                        requires
                            k >= 1,
                            xsz <= max_size(orig),
                    ;
                    assert(k * xsz == xsz + (k - 1) * xsz) by (nonlinear_arith);
                } else {
                    assert(loads@[b] == old_loads[b]);
                    assert(k * (old_loads[b] as int) <= lt + (k - 1) * max_size(orig));
                }
            }
        }
    }
    proof {
        assert(rest@.to_multiset().len() == 0);
        assert(rest@ =~= Seq::<FileEntry>::empty());
        assert(batches_multiset(batches@) =~= orig.to_multiset());
    }
    batches
}

/// Plans the formatter batches for one release: files are taken in descending
/// size order and greedily assigned to the least-loaded of `worker_count`
/// batches. The batches hold exactly the given files; there are never more
/// than `worker_count` of them; and no batch's byte total exceeds the even
/// share of the total by more than one maximal file size.
pub fn plan_batches(files: Vec<FileEntry>, worker_count: usize) -> (batches: Vec<Vec<FileEntry>>)
    requires
        1 <= worker_count,
        sizes_total(files@) <= u64::MAX,
    ensures
        batches@.len() == worker_count,
        batches_multiset(batches@) == files@.to_multiset(),
        forall|b: int|
            0 <= b < batches@.len() ==> worker_count * sizes_total(#[trigger] batches@[b]@)
                <= sizes_total(files@) + (worker_count - 1) * max_size(files@),
{
    let ghost pre = files@;
    let sorted = sort_files_desc(files);
    let batches = assign_batches(sorted, worker_count);
    proof {
        assert forall|b: int|
            0 <= b < batches@.len() implies worker_count * sizes_total(
            #[trigger] batches@[b]@,
        ) <= sizes_total(pre) + (worker_count - 1) * max_size(pre) by {
            assert((worker_count - 1) * max_size(sorted@) <= (worker_count - 1) * max_size(pre))
                by (nonlinear_arith)
                requires
                    worker_count >= 1,
                    max_size(sorted@) <= max_size(pre),
            ;
        }
    }
    batches
}

/// How many formatting workers one package's release files are spread over.
pub const WORKER_COUNT: usize = 5;

} // verus!
