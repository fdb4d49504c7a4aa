//! Newest-first ordering of timestamps, stable for equal ones.

use vstd::prelude::*;

verus! {

/// The weight of an optional timestamp: a missing one lies below every
/// timestamp there is.
pub open spec fn rank(time: Option<i64>) -> int {
    match time {
        Some(t) => t as int,
        None => i64::MIN as int - 1,
    }
}

/// Whether position `a` is listed before position `b`: the newer timestamp
/// goes first, and of two equal ones the earlier position.
pub open spec fn comes_before(keys: Seq<Option<i64>>, a: int, b: int) -> bool {
    rank(keys[a]) > rank(keys[b]) || (rank(keys[a]) == rank(keys[b]) && a < b)
}

/// Whether `order` lists every position of `keys` once, newest first.
pub open spec fn is_newest_first(keys: Seq<Option<i64>>, order: Seq<int>) -> bool {
    &&& order.len() == keys.len()
    &&& forall|i: int| 0 <= i < order.len() ==> 0 <= #[trigger] order[i] < keys.len()
    &&& forall|p: int| 0 <= p < keys.len() ==> #[trigger] order.contains(p)
    &&& forall|i: int, j: int|
        0 <= i < j < order.len() ==> comes_before(keys, #[trigger] order[i], #[trigger] order[j])
}

/// The positions of `keys`, newest first.
pub open spec fn newest_first(keys: Seq<Option<i64>>) -> Seq<int> {
    choose|order: Seq<int>| is_newest_first(keys, order)
}

/// The elements of `items` in the given order of positions.
pub open spec fn arrange<T>(items: Seq<T>, order: Seq<int>) -> Seq<T> {
    Seq::new(order.len(), |i: int| items[order[i]])
}

/// Indices as mathematical integers.
pub open spec fn positions(order: Seq<usize>) -> Seq<int> {
    Seq::new(order.len(), |i: int| order[i] as int)
}

proof fn lemma_agree_up_to(keys: Seq<Option<i64>>, a: Seq<int>, b: Seq<int>, n: int)
    requires
        is_newest_first(keys, a),
        is_newest_first(keys, b),
        0 <= n <= keys.len(),
    ensures
        forall|i: int| 0 <= i < n ==> a[i] == b[i],
    decreases n,
{
    if n > 0 {
        lemma_agree_up_to(keys, a, b, n - 1);
        let i = n - 1;
        if a[i] != b[i] {
            if comes_before(keys, a[i], b[i]) {
                assert(b.contains(a[i]));
            } else {
                assert(a.contains(b[i]));
            }
        }
    }
}

/// Only one order lists the positions of `keys` newest first.
pub proof fn lemma_newest_first_unique(keys: Seq<Option<i64>>, a: Seq<int>, b: Seq<int>)
    requires
        is_newest_first(keys, a),
        is_newest_first(keys, b),
    ensures
        a == b,
{
    lemma_agree_up_to(keys, a, b, keys.len() as int);
}

/// Putting the next position behind everything at least as new keeps a
/// newest-first order.
proof fn lemma_insert_next(keys: Seq<Option<i64>>, order: Seq<int>, p: int)
    requires
        order.len() < keys.len(),
        is_newest_first(keys.take(order.len() as int), order),
        0 <= p <= order.len(),
        forall|i: int| 0 <= i < p ==> rank(keys[#[trigger] order[i]]) >= rank(keys[order.len() as int]),
        p < order.len() ==> rank(keys[order[p]]) < rank(keys[order.len() as int]),
    ensures
        is_newest_first(keys.take(order.len() as int + 1), order.insert(p, order.len() as int)),
{
    let k = order.len() as int;
    let after = keys.take(k + 1);
    let grown = order.insert(p, k);
    assert forall|q: int| 0 <= q < after.len() implies #[trigger] grown.contains(q) by {
        if q == k {
            assert(grown[p] == k);
        } else {
            assert(order.contains(q));
            let i = choose|i: int| 0 <= i < order.len() && order[i] == q;
            if i < p {
                assert(grown[i] == q);
            } else {
                assert(grown[i + 1] == q);
            }
        }
    }
}

/// How many of the first `n` entries of `order` are at least as new as the
/// next position.
spec fn insert_point(keys: Seq<Option<i64>>, order: Seq<int>, n: int) -> int
    decreases n,
{
    if n <= 0 {
        0
    } else if rank(keys[order[n - 1]]) >= rank(keys[order.len() as int]) {
        n
    } else {
        insert_point(keys, order, n - 1)
    }
}

proof fn lemma_insert_point(keys: Seq<Option<i64>>, order: Seq<int>, n: int)
    requires
        order.len() < keys.len(),
        is_newest_first(keys.take(order.len() as int), order),
        0 <= n <= order.len(),
    ensures
        0 <= insert_point(keys, order, n) <= n,
        forall|i: int|
            0 <= i < insert_point(keys, order, n) ==> rank(keys[#[trigger] order[i]]) >= rank(
                keys[order.len() as int],
            ),
        forall|i: int|
            insert_point(keys, order, n) <= i < n ==> rank(keys[#[trigger] order[i]]) < rank(
                keys[order.len() as int],
            ),
    decreases n,
{
    if n > 0 {
        if rank(keys[order[n - 1]]) >= rank(keys[order.len() as int]) {
        } else {
            lemma_insert_point(keys, order, n - 1);
        }
    }
}

proof fn lemma_order_exists(keys: Seq<Option<i64>>, n: int) -> (order: Seq<int>)
    requires
        0 <= n <= keys.len(),
    ensures
        is_newest_first(keys.take(n), order),
    decreases n,
{
    if n == 0 {
        Seq::<int>::empty()
    } else {
        let shorter = lemma_order_exists(keys, n - 1);
        lemma_insert_point(keys, shorter, n - 1);
        let p = insert_point(keys, shorter, n - 1);
        lemma_insert_next(keys, shorter, p);
        shorter.insert(p, n - 1)
    }
}

/// `newest_first` lists every position once, newest first, whatever the
/// timestamps are.
pub proof fn lemma_newest_first(keys: Seq<Option<i64>>)
    ensures
        is_newest_first(keys, newest_first(keys)),
{
    let order = lemma_order_exists(keys, keys.len() as int);
    assert(keys.take(keys.len() as int) =~= keys);
}

/// Whether timestamp `a` ranks strictly below timestamp `b`.
pub fn ranks_below(a: Option<i64>, b: Option<i64>) -> (res: bool)
    ensures
        res == (rank(a) < rank(b)),
{
    match (a, b) {
        (Some(x), Some(y)) => x < y,
        (None, Some(_)) => true,
        (_, None) => false,
    }
}

/// Whether position `a` is listed before position `b`.
pub fn goes_first(keys: &Vec<Option<i64>>, a: usize, b: usize) -> (res: bool)
    requires
        a < keys@.len(),
        b < keys@.len(),
    ensures
        res == comes_before(keys@, a as int, b as int),
{
    if ranks_below(keys[b], keys[a]) {
        true
    } else if ranks_below(keys[a], keys[b]) {
        false
    } else {
        a < b
    }
}

/// Whether `run` lists the position `p`.
spec fn lists(run: Seq<usize>, p: int) -> bool {
    exists|i: int| 0 <= i < run.len() && run[i] == p
}

/// Whether `run` lists every position from `lo` up to, not including,
/// `hi` once, newest first.
spec fn is_run(keys: Seq<Option<i64>>, lo: int, hi: int, run: Seq<usize>) -> bool {
    &&& run.len() == hi - lo
    &&& forall|i: int| 0 <= i < run.len() ==> lo <= #[trigger] run[i] < hi
    &&& forall|p: int| lo <= p < hi ==> #[trigger] lists(run, p)
    &&& forall|i: int, j: int|
        0 <= i < j < run.len() ==> comes_before(
            keys,
            #[trigger] run[i] as int,
            #[trigger] run[j] as int,
        )
}

/// Merges two runs of neighbouring ranges of positions into one.
fn merge_runs(
    keys: &Vec<Option<i64>>,
    left: &Vec<usize>,
    right: &Vec<usize>,
    Ghost(lo): Ghost<int>,
    Ghost(mid): Ghost<int>,
    Ghost(hi): Ghost<int>,
) -> (out: Vec<usize>)
    requires
        0 <= lo <= mid <= hi <= keys@.len(),
        is_run(keys@, lo, mid, left@),
        is_run(keys@, mid, hi, right@),
    ensures
        is_run(keys@, lo, hi, out@),
{
    let mut out: Vec<usize> = Vec::new();
    let mut i: usize = 0;
    let mut j: usize = 0;
    while i < left.len() || j < right.len()
        invariant
            0 <= lo <= mid <= hi <= keys@.len(),
            is_run(keys@, lo, mid, left@),
            is_run(keys@, mid, hi, right@),
            i <= left@.len(),
            j <= right@.len(),
            out@.len() == i + j,
            forall|x: int| 0 <= x < out@.len() ==> lo <= #[trigger] out@[x] < hi,
            forall|x: int, y: int|
                0 <= x < y < out@.len() ==> comes_before(
                    keys@,
                    #[trigger] out@[x] as int,
                    #[trigger] out@[y] as int,
                ),
            forall|x: int, k: int|
                0 <= x < out@.len() && i <= k < left@.len() ==> comes_before(
                    keys@,
                    #[trigger] out@[x] as int,
                    #[trigger] left@[k] as int,
                ),
            forall|x: int, k: int|
                0 <= x < out@.len() && j <= k < right@.len() ==> comes_before(
                    keys@,
                    #[trigger] out@[x] as int,
                    #[trigger] right@[k] as int,
                ),
            forall|k: int| 0 <= k < i ==> lists(out@, #[trigger] left@[k] as int),
            forall|k: int| 0 <= k < j ==> lists(out@, #[trigger] right@[k] as int),
        decreases left@.len() - i + right@.len() - j,
    {
        let ghost before = out@;
        let from_left = if i == left.len() {
            false
        } else if j == right.len() {
            true
        } else {
            goes_first(keys, left[i], right[j])
        };
        if from_left {
            let next = left[i];
            out.push(next);
            proof {
                assert forall|k: int| 0 <= k < i + 1 implies lists(
                    out@,
                    #[trigger] left@[k] as int,
                ) by {
                    if k < i {
                        let x = choose|x: int| 0 <= x < before.len() && before[x] == left@[k];
                        assert(out@[x] == left@[k]);
                    } else {
                        assert(out@[before.len() as int] == left@[k]);
                    }
                }
                assert forall|k: int| 0 <= k < j implies lists(out@, #[trigger] right@[k] as int) by {
                    let x = choose|x: int| 0 <= x < before.len() && before[x] == right@[k];
                    assert(out@[x] == right@[k]);
                }
            }
            i += 1;
        } else {
            let next = right[j];
            out.push(next);
            proof {
                assert forall|k: int| 0 <= k < j + 1 implies lists(
                    out@,
                    #[trigger] right@[k] as int,
                ) by {
                    if k < j {
                        let x = choose|x: int| 0 <= x < before.len() && before[x] == right@[k];
                        assert(out@[x] == right@[k]);
                    } else {
                        assert(out@[before.len() as int] == right@[k]);
                    }
                }
                assert forall|k: int| 0 <= k < i implies lists(out@, #[trigger] left@[k] as int) by {
                    let x = choose|x: int| 0 <= x < before.len() && before[x] == left@[k];
                    assert(out@[x] == left@[k]);
                }
            }
            j += 1;
        }
    }
    proof {
        assert forall|p: int| lo <= p < hi implies #[trigger] lists(out@, p) by {
            if p < mid {
                assert(lists(left@, p));
            } else {
                assert(lists(right@, p));
            }
        }
    }
    out
}

/// Lists the positions from `lo` up to, not including, `hi`, newest first.
fn sort_range(keys: &Vec<Option<i64>>, lo: usize, hi: usize) -> (run: Vec<usize>)
    requires
        lo <= hi <= keys@.len(),
    ensures
        is_run(keys@, lo as int, hi as int, run@),
    decreases hi - lo,
{
    let mut run: Vec<usize> = Vec::new();
    if hi - lo == 0 {
        return run;
    }
    if hi - lo == 1 {
        run.push(lo);
        proof {
            assert(run@[0] == lo);
        }
        return run;
    }
    let mid = lo + (hi - lo) / 2;
    let left = sort_range(keys, lo, mid);
    let right = sort_range(keys, mid, hi);
    merge_runs(keys, &left, &right, Ghost(lo as int), Ghost(mid as int), Ghost(hi as int))
}

/// Computes the newest-first order of the positions of `keys`.
pub fn newest_first_order(keys: &Vec<Option<i64>>) -> (order: Vec<usize>)
    ensures
        positions(order@) == newest_first(keys@),
        is_newest_first(keys@, positions(order@)),
{
    let order = sort_range(keys, 0, keys.len());
    proof {
        let listed = positions(order@);
        assert forall|p: int| 0 <= p < keys@.len() implies #[trigger] listed.contains(p) by {
            assert(lists(order@, p));
            let i = choose|i: int| 0 <= i < order@.len() && order@[i] == p;
            assert(listed[i] == p);
        }
        lemma_newest_first_unique(keys@, listed, newest_first(keys@));
    }
    order
}

} // verus!
