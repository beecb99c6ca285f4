//! Listing rows newest first.
//!
//! A listing is described by positions: given the time of each row, in the
//! order the rows were stored, it names the rows from the newest to the
//! oldest. Rows of the same time keep the order in which they were stored.

use vstd::prelude::*;

verus! {

/// Position `a` is listed before position `b`: its time is later, or the
/// times are equal and `a` was stored first.
pub open spec fn listed_before(keys: Seq<i64>, a: int, b: int) -> bool {
    keys[a] > keys[b] || (keys[a] == keys[b] && a < b)
}

/// `order` names positions of `keys`, each listed before all that follow it.
pub open spec fn is_newest_first(keys: Seq<i64>, order: Seq<int>) -> bool {
    &&& forall|i: int| 0 <= i < order.len() ==> 0 <= #[trigger] order[i] < keys.len()
    &&& forall|i: int, j: int|
        0 <= i < j < order.len() ==> listed_before(keys, #[trigger] order[i], #[trigger] order[j])
}

/// `order` with position `k` put where it belongs: behind every position that
/// is at least as new, before every older one.
pub open spec fn placed(keys: Seq<i64>, order: Seq<int>, k: int) -> Seq<int>
    decreases order.len(),
{
    if order.len() == 0 {
        seq![k]
    } else if keys[order.last()] >= keys[k] {
        order.push(k)
    } else {
        placed(keys, order.drop_last(), k).push(order.last())
    }
}

/// The first `n` positions of `keys`, newest first.
pub open spec fn newest_first_prefix(keys: Seq<i64>, n: nat) -> Seq<int>
    decreases n,
{
    if n == 0 {
        Seq::empty()
    } else {
        placed(keys, newest_first_prefix(keys, (n - 1) as nat), n - 1)
    }
}

/// All positions of `keys`, newest first. This is the one order that names
/// every position and lists each before all that follow it.
pub open spec fn newest_first(keys: Seq<i64>) -> Seq<int> {
    newest_first_prefix(keys, keys.len())
}

/// The first `limit` positions of the newest-first order, or all of them if
/// there are fewer.
pub open spec fn newest_page(keys: Seq<i64>, limit: nat) -> Seq<int> {
    let order = newest_first(keys);
    if limit < order.len() {
        order.take(limit as int)
    } else {
        order
    }
}

/// The positions held in a vector of indices.
pub open spec fn positions(order: Seq<usize>) -> Seq<int> {
    order.map_values(|p: usize| p as int)
}

/// Putting a position in its place keeps the order newest first, adds exactly
/// that position, and lengthens the order by one.
pub proof fn lemma_placed(keys: Seq<i64>, order: Seq<int>, k: int)
    requires
        is_newest_first(keys, order),
        0 <= k < keys.len(),
        forall|i: int| 0 <= i < order.len() ==> #[trigger] order[i] < k,
    ensures
        placed(keys, order, k).len() == order.len() + 1,
        is_newest_first(keys, placed(keys, order, k)),
        forall|x: int| #[trigger]
            placed(keys, order, k).contains(x) <==> (order.contains(x) || x == k),
    decreases order.len(),
{
    let p = placed(keys, order, k);
    if order.len() == 0 {
        assert(p[0] == k);
    } else if keys[order.last()] >= keys[k] {
        assert forall|i: int, j: int| 0 <= i < j < p.len() implies listed_before(
            keys,
            #[trigger] p[i],
            #[trigger] p[j],
        ) by {}
        assert forall|x: int| #[trigger] p.contains(x) <==> (order.contains(x) || x == k) by {
            if order.contains(x) {
                let i = choose|i: int| 0 <= i < order.len() && order[i] == x;
                assert(p[i] == x);
            }
            if x == k {
                assert(p[order.len() as int] == x);
            }
        }
    } else {
        let front = order.drop_last();
        let last = order.last();
        assert(is_newest_first(keys, front)) by {
            assert forall|i: int, j: int| 0 <= i < j < front.len() implies listed_before(
                keys,
                #[trigger] front[i],
                #[trigger] front[j],
            ) by {}
        }
        lemma_placed(keys, front, k);
        let rec = placed(keys, front, k);
        assert(p == rec.push(last));
        assert forall|i: int| 0 <= i < p.len() implies 0 <= #[trigger] p[i] < keys.len() by {}
        assert forall|x: int| #[trigger] p.contains(x) <==> (order.contains(x) || x == k) by {
            if p.contains(x) {
                let i = choose|i: int| 0 <= i < p.len() && p[i] == x;
                if i < rec.len() {
                    assert(rec.contains(x));
                    if x != k {
                        let m = choose|m: int| 0 <= m < front.len() && front[m] == x;
                        assert(order[m] == x);
                    }
                }
            }
            if order.contains(x) {
                let m = choose|m: int| 0 <= m < order.len() && order[m] == x;
                if m < front.len() {
                    assert(front[m] == x);
                    assert(rec.contains(x));
                    let i = choose|i: int| 0 <= i < rec.len() && rec[i] == x;
                    assert(p[i] == x);
                } else {
                    assert(p[rec.len() as int] == x);
                }
            }
        }
    }
}

/// The newest-first order of the first `n` positions names each of them
/// exactly once, each before all that are listed after it.
pub proof fn lemma_newest_first_prefix(keys: Seq<i64>, n: nat)
    requires
        n <= keys.len(),
    ensures
        newest_first_prefix(keys, n).len() == n,
        is_newest_first(keys, newest_first_prefix(keys, n)),
        forall|x: int| #[trigger] newest_first_prefix(keys, n).contains(x) <==> 0 <= x < n,
    decreases n,
{
    if n > 0 {
        let before = newest_first_prefix(keys, (n - 1) as nat);
        lemma_newest_first_prefix(keys, (n - 1) as nat);
        assert forall|i: int| 0 <= i < before.len() implies #[trigger] before[i] < n - 1 by {
            assert(before.contains(before[i]));
        }
        lemma_placed(keys, before, n - 1);
    }
}

/// The newest-first order is a rearrangement of all positions in which every
/// position is listed before all that follow it.
pub proof fn lemma_newest_first(keys: Seq<i64>)
    ensures
        newest_first(keys).len() == keys.len(),
        is_newest_first(keys, newest_first(keys)),
        forall|x: int| #[trigger] newest_first(keys).contains(x) <==> 0 <= x < keys.len(),
{
    lemma_newest_first_prefix(keys, keys.len());
}

/// Two orders that name the same positions, each listing every position
/// before all that follow it, are the same order.
pub proof fn law_newest_first_is_unique(keys: Seq<i64>, a: Seq<int>, b: Seq<int>)
    requires
        is_newest_first(keys, a),
        is_newest_first(keys, b),
        forall|x: int| a.contains(x) <==> b.contains(x),
    ensures
        a == b,
    decreases a.len(),
{
    if a.len() == 0 {
        if b.len() > 0 {
            assert(b.contains(b[0]));
        }
    } else {
        assert(a.contains(a.last()));
        assert(b.contains(b.last()));
        let front_a = a.drop_last();
        let front_b = b.drop_last();
        assert forall|x: int| front_a.contains(x) <==> front_b.contains(x) by {
            if front_a.contains(x) {
                assert(a.contains(x));
                let n = choose|n: int| 0 <= n < b.len() && b[n] == x;
                assert(front_b[n] == x);
            }
            if front_b.contains(x) {
                assert(b.contains(x));
                let n = choose|n: int| 0 <= n < a.len() && a[n] == x;
                assert(front_a[n] == x);
            }
        }
        law_newest_first_is_unique(keys, front_a, front_b);
        assert(a =~= front_a.push(a.last()));
    }
}

/// The newest-first order is the only order that names every position of
/// `keys` and lists each before all that follow it.
pub proof fn law_newest_first_is_the_only_order(keys: Seq<i64>, order: Seq<int>)
    requires
        is_newest_first(keys, order),
        forall|x: int| 0 <= x < keys.len() ==> order.contains(x),
    ensures
        order == newest_first(keys),
{
    lemma_newest_first(keys);
    law_newest_first_is_unique(keys, order, newest_first(keys));
}

/// A page of the newest-first order holds `limit` positions, or all if there
/// are fewer; each is listed before all that follow it on the page, and
/// before every position that the page leaves out.
pub proof fn lemma_newest_page(keys: Seq<i64>, limit: nat)
    ensures
        newest_page(keys, limit).len() == if limit < keys.len() {
            limit
        } else {
            keys.len()
        },
        is_newest_first(keys, newest_page(keys, limit)),
        forall|i: int, q: int|
            0 <= i < newest_page(keys, limit).len() && 0 <= q < keys.len() && !newest_page(
                keys,
                limit,
            ).contains(q) ==> #[trigger] listed_before(keys, newest_page(keys, limit)[i], q),
{
    lemma_newest_first(keys);
    let order = newest_first(keys);
    let page = newest_page(keys, limit);
    assert forall|i: int, q: int|
        0 <= i < page.len() && 0 <= q < keys.len() && !page.contains(q) implies #[trigger] listed_before(
        keys,
        page[i],
        q,
    ) by {
        assert(order.contains(q));
        let at = choose|at: int| 0 <= at < order.len() && order[at] == q;
        if at < page.len() {
            assert(page[at] == q);
        }
    }
}

/// Lists the positions of `keys` newest first, at most `limit` of them.
pub fn newest_positions(keys: &Vec<i64>, limit: usize) -> (page: Vec<usize>)
    ensures
        positions(page@) == newest_page(keys@, limit as nat),
{
    let mut order: Vec<usize> = Vec::new();
    let mut k: usize = 0;
    while k < keys.len()
        invariant
            k <= keys@.len(),
            positions(order@) == newest_first_prefix(keys@, k as nat),
        decreases keys@.len() - k,
    {
        proof {
            lemma_newest_first_prefix(keys@, k as nat);
        }
        let ghost before = positions(order@);
        let mut at: usize = order.len();
        assert(before.take(at as int) =~= before);
        assert(placed(keys@, before.take(at as int), k as int) + before.skip(at as int) =~= placed(
            keys@,
            before,
            k as int,
        ));
        while at > 0 && keys[order[at - 1]] < keys[k]
            invariant
                at <= order@.len(),
                k < keys@.len(),
                before == positions(order@),
                is_newest_first(keys@, before),
                placed(keys@, before, k as int) == placed(keys@, before.take(at as int), k as int)
                    + before.skip(at as int),
            decreases at,
        {
            proof {
                let head = before.take(at as int);
                assert(head.drop_last() =~= before.take(at - 1));
                assert(placed(keys@, head, k as int) == placed(
                    keys@,
                    before.take(at - 1),
                    k as int,
                ).push(before[at - 1]));
                assert(placed(keys@, before.take(at - 1), k as int).push(before[at - 1])
                    + before.skip(at as int) =~= placed(keys@, before.take(at - 1), k as int)
                    + before.skip(at - 1));
            }
            at -= 1;
        }
        proof {
            let head = before.take(at as int);

            assert(head.push(k as int) + before.skip(at as int) =~= before.insert(
                at as int,
                k as int,
            ));
        }
        order.insert(at, k);
        k += 1;
    }

    if limit < order.len() {
        order.truncate(limit);
    }
    order
}

} // verus!
