//! Stable sorting of positions by a 64-bit key.

use vstd::prelude::*;

verus! {

/// Position `a` comes before position `b`: by key, then by position.
pub open spec fn comes_before(keys: Seq<i64>, a: usize, b: usize) -> bool {
    keys[a as int] < keys[b as int] || (keys[a as int] == keys[b as int] && a < b)
}

/// `order` lists all positions of `keys`, by key, equal keys by position.
pub open spec fn is_stable_order(keys: Seq<i64>, order: Seq<usize>) -> bool {
    &&& order.len() == keys.len()
    &&& lists_range(keys, order, 0, keys.len() as int)
}

/// `order` lists the positions from `lo` to `hi` (exclusive), by key, equal
/// keys by position.
pub open spec fn lists_range(keys: Seq<i64>, order: Seq<usize>, lo: int, hi: int) -> bool {
    &&& order.len() == hi - lo
    &&& forall|i: int| 0 <= i < order.len() ==> lo <= #[trigger] order[i] < hi
    &&& forall|i: int, j: int|
        0 <= i < j < order.len() ==> comes_before(keys, #[trigger] order[i], #[trigger] order[j])
    &&& forall|k: usize| lo <= k < hi ==> #[trigger] order.contains(k)
}

/// Lists all positions of `keys`, by key, equal keys by position.
pub fn stable_order(keys: &Vec<i64>) -> (r: Vec<usize>)
    ensures
        is_stable_order(keys@, r@),
{
    sort_range(keys, 0, keys.len())
}

fn sort_range(keys: &Vec<i64>, lo: usize, hi: usize) -> (r: Vec<usize>)
    requires
        lo <= hi <= keys@.len(),
    ensures
        lists_range(keys@, r@, lo as int, hi as int),
    decreases hi - lo,
{
    if hi - lo == 0 {
        return Vec::new();
    }
    if hi - lo == 1 {
        let mut r: Vec<usize> = Vec::new();
        r.push(lo);
        assert(r@[0] == lo);
        return r;
    }
    let mid: usize = lo + (hi - lo) / 2;
    let left = sort_range(keys, lo, mid);
    let right = sort_range(keys, mid, hi);
    merge_runs(keys, &left, &right, Ghost(lo as int), Ghost(mid as int), Ghost(hi as int))
}

fn merge_runs(
    keys: &Vec<i64>,
    left: &Vec<usize>,
    right: &Vec<usize>,
    Ghost(lo): Ghost<int>,
    Ghost(mid): Ghost<int>,
    Ghost(hi): Ghost<int>,
) -> (r: Vec<usize>)
    requires
        0 <= lo <= mid <= hi <= keys@.len(),
        lists_range(keys@, left@, lo, mid),
        lists_range(keys@, right@, mid, hi),
    ensures
        lists_range(keys@, r@, lo, hi),
{
    let mut r: Vec<usize> = Vec::new();
    let mut i: usize = 0;
    let mut j: usize = 0;
    while i < left.len() || j < right.len()
        invariant
            0 <= lo <= mid <= hi <= keys@.len(),
            lists_range(keys@, left@, lo, mid),
            lists_range(keys@, right@, mid, hi),
            i <= left@.len(),
            j <= right@.len(),
            r@.len() == i + j,
            forall|k: int| 0 <= k < r@.len() ==> lo <= #[trigger] r@[k] < hi,
            forall|k: int, l: int|
                0 <= k < l < r@.len() ==> comes_before(keys@, #[trigger] r@[k], #[trigger] r@[l]),
            forall|k: int, l: int|
                0 <= k < r@.len() && i <= l < left@.len() ==> comes_before(
                    keys@,
                    #[trigger] r@[k],
                    #[trigger] left@[l],
                ),
            forall|k: int, l: int|
                0 <= k < r@.len() && j <= l < right@.len() ==> comes_before(
                    keys@,
                    #[trigger] r@[k],
                    #[trigger] right@[l],
                ),
            forall|k: int| 0 <= k < i ==> r@.contains(#[trigger] left@[k]),
            forall|k: int| 0 <= k < j ==> r@.contains(#[trigger] right@[k]),
        decreases left.len() + right.len() - i - j,
    {
        let take_left: bool = if i >= left.len() {
            false
        } else if j >= right.len() {
            true
        } else {
            keys[left[i]] <= keys[right[j]]
        };
        let ghost before = r@;
        let next: usize = if take_left {
            left[i]
        } else {
            right[j]
        };
        r.push(next);
        assert forall|x: usize| before.contains(x) implies r@.contains(x) by {
            let k = choose|k: int| 0 <= k < before.len() && before[k] == x;
            assert(r@[k] == x);
        }
        assert(r@[r@.len() - 1] == next);
        if take_left {
            i += 1;
        } else {
            j += 1;
        }
    }
    assert forall|k: usize| lo <= k < hi implies #[trigger] r@.contains(k) by {
        if k < mid {
            assert(left@.contains(k));
        } else {
            assert(right@.contains(k));
        }
    }
    r
}

/// There is only one such order.
pub proof fn lemma_stable_order_unique(keys: Seq<i64>, a: Seq<usize>, b: Seq<usize>)
    requires
        is_stable_order(keys, a),
        is_stable_order(keys, b),
    ensures
        a == b,
{
    assert forall|i: int| 0 <= i < a.len() implies a[i] == b[i] by {
        lemma_same_until(keys, a, b, i);
    }
    assert(a =~= b);
}

proof fn lemma_same_until(keys: Seq<i64>, a: Seq<usize>, b: Seq<usize>, i: int)
    requires
        is_stable_order(keys, a),
        is_stable_order(keys, b),
        0 <= i < a.len(),
    ensures
        a[i] == b[i],
    decreases i,
{
    assert forall|j: int| 0 <= j < i implies a[j] == b[j] by {
        lemma_same_until(keys, a, b, j);
    }
    if a[i] != b[i] {
        assert(b.contains(a[i]));
        assert(a.contains(b[i]));
        let p = choose|p: int| 0 <= p < b.len() && b[p] == a[i];
        let q = choose|q: int| 0 <= q < a.len() && a[q] == b[i];
        if p < i {
            assert(comes_before(keys, a[p], a[i]));
        }
        if q < i {
            assert(comes_before(keys, b[q], b[i]));
        }
        assert(comes_before(keys, b[i], b[p]));
        assert(comes_before(keys, a[i], a[q]));
    }
}

/// How many of the leading positions of `order` have a key not above `key`.
spec fn not_above(keys: Seq<i64>, order: Seq<usize>, key: i64) -> nat
    decreases order.len(),
{
    if order.len() > 0 && keys[order[0] as int] <= key {
        1 + not_above(keys, order.drop_first(), key)
    } else {
        0
    }
}

proof fn lemma_not_above(keys: Seq<i64>, order: Seq<usize>, key: i64)
    requires
        forall|i: int, j: int|
            0 <= i < j < order.len() ==> keys[#[trigger] order[i] as int]
                <= keys[#[trigger] order[j] as int],
    ensures
        not_above(keys, order, key) <= order.len(),
        forall|i: int|
            0 <= i < not_above(keys, order, key) ==> keys[#[trigger] order[i] as int] <= key,
        forall|i: int|
            not_above(keys, order, key) <= i < order.len() ==> keys[#[trigger] order[i] as int]
                > key,
    decreases order.len(),
{
    if order.len() > 0 && keys[order[0] as int] <= key {
        let rest = order.drop_first();
        assert forall|i: int, j: int| 0 <= i < j < rest.len() implies keys[#[trigger] rest[i] as int]
            <= keys[#[trigger] rest[j] as int] by {
            assert(keys[order[i + 1] as int] <= keys[order[j + 1] as int]);
        }
        lemma_not_above(keys, rest, key);
        let n = not_above(keys, order, key);
        assert forall|i: int| 0 <= i < n implies keys[#[trigger] order[i] as int] <= key by {
            if i > 0 {
                assert(keys[rest[i - 1] as int] <= key);
            }
        }
        assert forall|i: int| n <= i < order.len() implies keys[#[trigger] order[i] as int]
            > key by {
            assert(keys[rest[i - 1] as int] > key);
        }
    } else if order.len() > 0 {
        assert forall|i: int| 0 <= i < order.len() implies keys[#[trigger] order[i] as int]
            > key by {
            if i > 0 {
                assert(keys[order[0] as int] <= keys[order[i] as int]);
            }
        }
    }
}

/// There always is such an order.
pub proof fn lemma_stable_order_exists(keys: Seq<i64>) -> (order: Seq<usize>)
    requires
        keys.len() <= usize::MAX,
    ensures
        is_stable_order(keys, order),
    decreases keys.len(),
{
    if keys.len() == 0 {
        Seq::empty()
    } else {
        let front = keys.drop_last();
        let sorted = lemma_stable_order_exists(front);
        let last = (keys.len() - 1) as usize;
        assert forall|i: int, j: int| 0 <= i < j < sorted.len() implies keys[
            #[trigger] sorted[i] as int
        ] <= keys[#[trigger] sorted[j] as int] by {
            assert(comes_before(front, sorted[i], sorted[j]));
        }
        lemma_not_above(keys, sorted, keys.last());
        let p = not_above(keys, sorted, keys.last()) as int;
        let order = sorted.insert(p, last);
        assert forall|i: int, j: int| 0 <= i < j < order.len() implies comes_before(
            keys,
            #[trigger] order[i],
            #[trigger] order[j],
        ) by {
            let a = if i < p {
                i
            } else {
                i - 1
            };
            let b = if j < p {
                j
            } else {
                j - 1
            };
            if i != p && j != p {
                assert(comes_before(front, sorted[a], sorted[b]));
            } else if i == p {
                assert(keys[sorted[b] as int] > keys.last());
            } else {
                assert(keys[sorted[a] as int] <= keys.last());
            }
        }
        assert forall|k: usize| 0 <= k < keys.len() implies #[trigger] order.contains(k) by {
            if k == last {
                assert(order[p] == k);
            } else {
                assert(sorted.contains(k));
                let i = choose|i: int| 0 <= i < sorted.len() && sorted[i] == k;
                if i < p {
                    assert(order[i] == k);
                } else {
                    assert(order[i + 1] == k);
                }
            }
        }
        order
    }
}

} // verus!
