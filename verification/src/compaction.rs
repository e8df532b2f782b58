//! Compaction of one heap vector: the ranks of the marked slots, the
//! compaction map that they give, and the vector that is left.

use crate::gc::CompactionList;
use vstd::prelude::*;

verus! {

/// Number of marked slots before the position `i`.
pub open spec fn rank(bits: Seq<bool>, i: int) -> int
    decreases i,
{
    if i <= 0 {
        0
    } else {
        rank(bits, i - 1) + if bits[i - 1] {
            1int
        } else {
            0int
        }
    }
}

/// The rank is never negative.
pub proof fn lemma_rank_nonnegative(bits: Seq<bool>, i: int)
    ensures
        0 <= rank(bits, i),
        i >= 0 ==> rank(bits, i) <= i,
    decreases i,
{
    if i > 0 {
        lemma_rank_nonnegative(bits, i - 1);
    }
}

/// The rank grows with the position and by at most one per slot.
pub proof fn lemma_rank_monotonic(bits: Seq<bool>, i: int, j: int)
    requires
        0 <= i <= j,
    ensures
        0 <= rank(bits, i) <= rank(bits, j),
        rank(bits, j) - rank(bits, i) <= j - i,
        i < j && bits[i] ==> rank(bits, i) < rank(bits, j),
    decreases j - i,
{
    lemma_rank_nonnegative(bits, i);
    if i < j {
        lemma_rank_monotonic(bits, i, j - 1);
    }
}

/// Setting a mark raises the rank of every later position by one.
pub proof fn lemma_rank_set(bits: Seq<bool>, i: int, n: int)
    requires
        0 <= i < bits.len(),
        !bits[i],
        0 <= n <= bits.len(),
    ensures
        rank(bits.update(i, true), n) == rank(bits, n) + if i < n {
            1int
        } else {
            0int
        },
    decreases n,
{
    if n > 0 {
        lemma_rank_set(bits, i, n - 1);
    }
}

/// The marked slots of `s`, in their order.
pub open spec fn kept<T>(s: Seq<T>, bits: Seq<bool>) -> Seq<T>
    decreases s.len(),
{
    if s.len() == 0 {
        Seq::<T>::empty()
    } else if bits[s.len() - 1] {
        kept(s.drop_last(), bits).push(s.last())
    } else {
        kept(s.drop_last(), bits)
    }
}

/// The position of the marked slot of rank `j`.
pub open spec fn source(bits: Seq<bool>, j: int) -> int {
    choose|i: int| 0 <= i < bits.len() && bits[i] && rank(bits, i) == j
}

/// The marked slot at `i` is the marked slot of its rank.
pub proof fn lemma_source(bits: Seq<bool>, i: int)
    requires
        0 <= i < bits.len(),
        bits[i],
    ensures
        source(bits, rank(bits, i)) == i,
{
    let k = source(bits, rank(bits, i));
    assert(0 <= k < bits.len() && bits[k] && rank(bits, k) == rank(bits, i));
    if k < i {
        lemma_rank_monotonic(bits, k, i);
    }
    if i < k {
        lemma_rank_monotonic(bits, i, k);
    }
}

/// The kept slots are as many as the rank of the end, and a marked slot
/// is kept at its rank.
pub proof fn lemma_kept<T>(s: Seq<T>, bits: Seq<bool>)
    requires
        bits.len() >= s.len(),
    ensures
        kept(s, bits).len() == rank(bits, s.len() as int),
        forall|i: int|
            0 <= i < s.len() && bits[i] ==> 0 <= #[trigger] rank(bits, i) < kept(s, bits).len()
                && kept(s, bits)[rank(bits, i)] == s[i],
        forall|j: int|
            #![trigger source(bits, j)]
            0 <= j < kept(s, bits).len() ==> 0 <= source(bits, j) < s.len() && bits[source(bits, j)]
                && rank(bits, source(bits, j)) == j && kept(s, bits)[j] == s[source(bits, j)],
    decreases s.len(),
{
    if s.len() > 0 {
        let init = s.drop_last();
        lemma_kept(init, bits);
        let n = s.len() as int;
        assert forall|i: int| 0 <= i < s.len() && bits[i] implies 0 <= #[trigger] rank(bits, i)
            < kept(s, bits).len() && kept(s, bits)[rank(bits, i)] == s[i] by {
            lemma_rank_monotonic(bits, i, n - 1);
            if i < n - 1 {
                assert(init[i] == s[i]);
            }
        }
        assert forall|j: int|
            #![trigger source(bits, j)]
            0 <= j < kept(s, bits).len() implies 0 <= source(bits, j) < s.len() && bits[source(
            bits,
            j,
        )] && rank(bits, source(bits, j)) == j && kept(s, bits)[j] == s[source(bits, j)] by {
            if j < kept(init, bits).len() {
                let i = source(bits, j);
                assert(kept(init, bits)[j] == init[i]);
                assert(init[i] == s[i]);
            } else {
                assert(bits[n - 1] && rank(bits, n - 1) == j);
                lemma_source(bits, n - 1);
                assert(source(bits, j) == n - 1);
                assert(kept(s, bits)[j] == s[n - 1]);
            }
        }
    } else {
        assert(kept(s, bits).len() == 0);
    }
}

/// Whether `list` is the compaction map of a sweep that keeps the marked
/// slots: a marked slot moves to its rank, and any other slot is dropped.
pub open spec fn is_compaction(list: CompactionList, bits: Seq<bool>) -> bool {
    &&& list.map@.len() == bits.len()
    &&& forall|i: int|
        0 <= i < bits.len() ==> #[trigger] list.map@[i] == if bits[i] {
            Some(rank(bits, i) as u32)
        } else {
            None
        }
    &&& rank(bits, bits.len() as int) <= u32::MAX
}

/// Whether the compaction map moves no two slots to the same place.
pub open spec fn one_to_one(list: CompactionList) -> bool {
    forall|i: int, k: int|
        0 <= i < list.map@.len() && 0 <= k < list.map@.len() && (#[trigger] list.map@[i]) is Some
            && list.map@[i] == #[trigger] list.map@[k] ==> i == k
}

/// A slot that the compaction map `list` moves to the place `j`.
pub open spec fn origin(list: CompactionList, j: int) -> int {
    choose|i: int| 0 <= i < list.map@.len() && list.map@[i] == Some(j as u32)
}

/// The compaction map of a sweep that keeps the marked slots, or `None`
/// when there are more of them than a handle can name.
pub fn build_compaction_list(bits: &Vec<bool>) -> (r: Option<CompactionList>)
    ensures
        r is Some ==> is_compaction(r->0, bits@),
        r is None ==> rank(bits@, bits@.len() as int) > u32::MAX,
{
    let n: usize = bits.len();
    let mut map: Vec<Option<u32>> = Vec::new();
    let mut next: u32 = 0;
    let mut i: usize = 0;
    while i < n
        invariant
            i <= n,
            n == bits@.len(),
            map@.len() == i,
            next == rank(bits@, i as int),
            forall|j: int|
                0 <= j < i ==> #[trigger] map@[j] == if bits@[j] {
                    Some(rank(bits@, j) as u32)
                } else {
                    None
                },
        decreases n - i,
    {
        if bits[i] {
            map.push(Some(next));
            if next == u32::MAX {
                proof {
                    lemma_rank_monotonic(bits@, i + 1, n as int);
                }
                return None;
            }
            next += 1;
        } else {
            map.push(None);
        }
        i += 1;
    }
    Some(CompactionList { map })
}

/// Drops the slots of `v` that are not marked and closes the gaps.
pub fn compact<T>(v: &mut Vec<Option<T>>, bits: &Vec<bool>)
    requires
        bits@.len() == old(v)@.len(),
    ensures
        final(v)@ == kept(old(v)@, bits@),
{
    let n: usize = v.len();
    let mut out: Vec<Option<T>> = Vec::new();
    let mut i: usize = 0;
    while i < n
        invariant
            i <= n,
            n == v@.len(),
            n == bits@.len(),
            n == old(v)@.len(),
            out@ == kept(old(v)@.take(i as int), bits@),
            forall|j: int| i <= j < n ==> v@[j] == old(v)@[j],
        decreases n - i,
    {
        proof {
            assert(old(v)@.take(i + 1).drop_last() =~= old(v)@.take(i as int));
        }
        if bits[i] {
            let item = v[i].take();
            out.push(item);
        }
        i += 1;
    }
    proof {
        assert(old(v)@.take(n as int) =~= old(v)@);
    }
    *v = out;
}

/// Whether every marked slot of `v` holds a record and can be named by a
/// handle.
pub open spec fn marks_live<T>(bits: Seq<bool>, v: Seq<Option<T>>) -> bool {
    &&& bits.len() == v.len()
    &&& forall|i: int| 0 <= i < v.len() && bits[i] ==> (#[trigger] v[i]) is Some && i <= u32::MAX
}

/// Whether `after` is what a sweep that keeps the marked slots leaves of
/// the vector `before`: the marked records, each at its rank and changed
/// as `rel` says, and nothing else.
pub open spec fn rank_swept<T>(
    before: Seq<Option<T>>,
    after: Seq<Option<T>>,
    bits: Seq<bool>,
    rel: spec_fn(T, T) -> bool,
) -> bool {
    &&& after.len() == rank(bits, before.len() as int)
    &&& forall|i: int|
        0 <= i < before.len() && bits[i] ==> 0 <= #[trigger] rank(bits, i) < after.len()
            && after[rank(bits, i)] is Some && rel(before[i]->0, after[rank(bits, i)]->0)
    &&& forall|j: int| 0 <= j < after.len() ==> (#[trigger] after[j]) is Some
}

/// Whether `after` is what a sweep with the compaction map `list` leaves
/// of the vector `before`: every slot that the map keeps held a record,
/// which is now at the place that the map gives, changed as `rel` says;
/// and every slot of `after` holds a record.
pub open spec fn swept_by<T>(
    before: Seq<Option<T>>,
    after: Seq<Option<T>>,
    list: CompactionList,
    rel: spec_fn(T, T) -> bool,
) -> bool {
    &&& list.map@.len() == before.len()
    &&& forall|i: int|
        0 <= i < before.len() && (#[trigger] list.map@[i]) is Some ==> before[i] is Some && i
            <= u32::MAX && list.map@[i]->0 < after.len() && after[list.map@[i]->0 as int] is Some
            && rel(before[i]->0, after[list.map@[i]->0 as int]->0)
    &&& forall|j: int| 0 <= j < after.len() ==> (#[trigger] after[j]) is Some
    &&& forall|j: int|
        #![trigger origin(list, j)]
        0 <= j < after.len() ==> 0 <= origin(list, j) < before.len() && list.map@[origin(list, j)]
            == Some(j as u32)
    &&& after.len() <= u32::MAX
    &&& one_to_one(list)
}

/// A sweep that keeps the marked slots is a sweep by the compaction map
/// of the marks.
pub proof fn lemma_swept_by<T>(
    before: Seq<Option<T>>,
    after: Seq<Option<T>>,
    bits: Seq<bool>,
    list: CompactionList,
    rel: spec_fn(T, T) -> bool,
)
    requires
        marks_live(bits, before),
        is_compaction(list, bits),
        rank_swept(before, after, bits, rel),
    ensures
        swept_by(before, after, list, rel),
{
    assert forall|i: int| 0 <= i < before.len() && (#[trigger] list.map@[i]) is Some implies before[i] is Some
        && i <= u32::MAX && list.map@[i]->0 < after.len() && after[list.map@[i]->0 as int] is Some
        && rel(before[i]->0, after[list.map@[i]->0 as int]->0) by {
        assert(bits[i]);
        lemma_rank_monotonic(bits, i, before.len() as int);
        let k = rank(bits, i);
        assert(0 <= k < after.len());
        assert(list.map@[i] == Some(k as u32));
    }
    assert forall|i: int, k: int|
        0 <= i < list.map@.len() && 0 <= k < list.map@.len() && (#[trigger] list.map@[i]) is Some
            && list.map@[i] == #[trigger] list.map@[k] implies i == k by {
        assert(bits[i] && bits[k]);
        lemma_rank_monotonic(bits, i, before.len() as int);
        lemma_rank_monotonic(bits, k, before.len() as int);
        if i < k {
            lemma_rank_monotonic(bits, i, k);
        }
        if k < i {
            lemma_rank_monotonic(bits, k, i);
        }
    }
    lemma_kept(before, bits);
    assert forall|j: int|
        #![trigger origin(list, j)]
        0 <= j < after.len() implies 0 <= origin(list, j) < before.len() && list.map@[origin(
        list,
        j,
    )] == Some(j as u32) by {
        let i = source(bits, j);
        assert(0 <= i < before.len() && bits[i] && rank(bits, i) == j);
        assert(list.map@[i] == Some(j as u32));
    }
}

} // verus!
