//! Rows in the order of two numeric keys; rows with equal keys stay in the order in which
//! they came.

use vstd::prelude::*;

verus! {

/// A row with the two keys that it is ordered by.
pub struct Keyed<T> {
    pub first: i64,
    pub second: i64,
    pub item: T,
}

/// Whether the keys of `a` come before those of `b`.
pub open spec fn key_less<A>(a: Keyed<A>, b: Keyed<A>) -> bool {
    a.first < b.first || (a.first == b.first && a.second < b.second)
}

/// An ordered list with `x` put before all rows whose keys are not less.
pub open spec fn placed<A>(t: Seq<Keyed<A>>, x: Keyed<A>) -> Seq<Keyed<A>>
    decreases t.len(),
{
    if t.len() == 0 || !key_less(t[0], x) {
        seq![x] + t
    } else {
        seq![t[0]] + placed(t.skip(1), x)
    }
}

/// The rows in the order of their keys.
pub open spec fn in_order<A>(s: Seq<Keyed<A>>) -> Seq<Keyed<A>>
    decreases s.len(),
{
    if s.len() == 0 {
        s
    } else {
        placed(in_order(s.skip(1)), s[0])
    }
}

/// The keys ascend.
pub open spec fn ascending<A>(s: Seq<Keyed<A>>) -> bool {
    forall|i: int, j: int| 0 <= i < j < s.len() ==> !key_less(#[trigger] s[j], #[trigger] s[i])
}

/// Whether the keys of a row are these.
pub open spec fn has_key<A>(first: i64, second: i64) -> spec_fn(Keyed<A>) -> bool {
    |k: Keyed<A>| k.first == first && k.second == second
}

proof fn lemma_placed_ascending<A>(t: Seq<Keyed<A>>, x: Keyed<A>)
    requires
        ascending(t),
    ensures
        ascending(placed(t, x)),
        placed(t, x).len() == t.len() + 1,
        forall|i: int|
            0 <= i < placed(t, x).len() ==> #[trigger] placed(t, x)[i] == x || exists|j: int|
                0 <= j < t.len() && #[trigger] t[j] == placed(t, x)[i],
    decreases t.len(),
{
    let r = placed(t, x);
    if t.len() == 0 || !key_less(t[0], x) {
        assert forall|i: int| 0 <= i < r.len() implies #[trigger] r[i] == x || exists|j: int|
            0 <= j < t.len() && #[trigger] t[j] == r[i] by {
            if i > 0 {
                assert(t[i - 1] == r[i]);
            }
        }
    } else {
        let rest = t.skip(1);
        lemma_placed_ascending(rest, x);
        let inner = placed(rest, x);
        assert forall|i: int| 0 <= i < r.len() implies #[trigger] r[i] == x || exists|j: int|
            0 <= j < t.len() && #[trigger] t[j] == r[i] by {
            if i == 0 {
                assert(t[0] == r[0]);
            } else {
                assert(r[i] == inner[i - 1]);
                if r[i] != x {
                    let j = choose|j: int|
                        0 <= j < rest.len() && #[trigger] rest[j] == inner[i - 1];
                    assert(t[j + 1] == r[i]);
                }
            }
        }
        assert forall|i: int, j: int| 0 <= i < j < r.len() implies !key_less(
            #[trigger] r[j],
            #[trigger] r[i],
        ) by {
            assert(r[j] == inner[j - 1]);
            if i > 0 {
                assert(r[i] == inner[i - 1]);
            } else if r[j] != x {
                let k = choose|k: int| 0 <= k < rest.len() && #[trigger] rest[k] == inner[j - 1];
                assert(t[k + 1] == r[j]);
            }
        }
    }
}

proof fn lemma_placed_filter<A>(t: Seq<Keyed<A>>, x: Keyed<A>, first: i64, second: i64)
    requires
        ascending(t),
    ensures
        placed(t, x).filter(has_key(first, second)) == (seq![x] + t).filter(
            has_key(first, second),
        ),
    decreases t.len(),
{
    let p = has_key::<A>(first, second);
    if t.len() > 0 && key_less(t[0], x) {
        let rest = t.skip(1);
        lemma_placed_filter(rest, x, first, second);
        Seq::filter_distributes_over_add(seq![t[0]], placed(rest, x), p);
        Seq::filter_distributes_over_add(seq![x], rest, p);
        assert(t =~= seq![t[0]] + rest);
        Seq::filter_distributes_over_add(seq![x], t, p);
        Seq::filter_distributes_over_add(seq![t[0]], rest, p);
        reveal(Seq::filter);
        assert(seq![x].drop_last() =~= Seq::<Keyed<A>>::empty());
        assert(seq![t[0]].drop_last() =~= Seq::<Keyed<A>>::empty());
        assert(!p(x) || !p(t[0]));
        assert(placed(t, x).filter(p) =~= (seq![x] + t).filter(p));
    }
}

/// The order is by the keys.
pub proof fn law_order_ascends<A>(s: Seq<Keyed<A>>)
    ensures
        ascending(in_order(s)),
        in_order(s).len() == s.len(),
    decreases s.len(),
{
    if s.len() > 0 {
        law_order_ascends(s.skip(1));
        lemma_placed_ascending(in_order(s.skip(1)), s[0]);
    }
}

/// The order keeps every row, and rows with the same keys in the order in which they came.
pub proof fn law_order_is_stable<A>(s: Seq<Keyed<A>>, first: i64, second: i64)
    ensures
        in_order(s).filter(has_key(first, second)) == s.filter(has_key(first, second)),
    decreases s.len(),
{
    if s.len() > 0 {
        let p = has_key::<A>(first, second);
        let rest = s.skip(1);
        law_order_is_stable(rest, first, second);
        law_order_ascends(rest);
        lemma_placed_filter(in_order(rest), s[0], first, second);
        Seq::filter_distributes_over_add(seq![s[0]], in_order(rest), p);
        Seq::filter_distributes_over_add(seq![s[0]], rest, p);
        assert(s =~= seq![s[0]] + rest);
    }
}

/// Rows with their items replaced.
pub open spec fn with_items<A, B>(s: Seq<Keyed<A>>, f: spec_fn(A) -> B) -> Seq<Keyed<B>> {
    s.map_values(|k: Keyed<A>| Keyed { first: k.first, second: k.second, item: f(k.item) })
}

/// The items alone.
pub open spec fn items<A>(s: Seq<Keyed<A>>) -> Seq<A> {
    s.map_values(|k: Keyed<A>| k.item)
}

proof fn lemma_placed_with_items<A, B>(t: Seq<Keyed<A>>, x: Keyed<A>, f: spec_fn(A) -> B)
    ensures
        with_items(placed(t, x), f) == placed(
            with_items(t, f),
            Keyed { first: x.first, second: x.second, item: f(x.item) },
        ),
    decreases t.len(),
{
    let y = Keyed { first: x.first, second: x.second, item: f(x.item) };
    let u = with_items(t, f);
    if t.len() == 0 || !key_less(t[0], x) {
        assert(with_items(placed(t, x), f) =~= placed(u, y));
    } else {
        lemma_placed_with_items(t.skip(1), x, f);
        assert(u.skip(1) =~= with_items(t.skip(1), f));
        assert(with_items(placed(t, x), f) =~= placed(u, y));
    }
}

/// The order depends on the keys alone.
pub proof fn lemma_order_with_items<A, B>(s: Seq<Keyed<A>>, f: spec_fn(A) -> B)
    ensures
        with_items(in_order(s), f) == in_order(with_items(s, f)),
    decreases s.len(),
{
    let u = with_items(s, f);
    if s.len() == 0 {
        assert(with_items(in_order(s), f) =~= in_order(u));
    } else {
        lemma_order_with_items(s.skip(1), f);
        assert(u.skip(1) =~= with_items(s.skip(1), f));
        lemma_placed_with_items(in_order(s.skip(1)), s[0], f);
    }
}

/// What holds of every row still holds of every row in order.
pub proof fn lemma_order_all<A>(s: Seq<Keyed<A>>, p: spec_fn(Keyed<A>) -> bool)
    requires
        forall|i: int| 0 <= i < s.len() ==> p(#[trigger] s[i]),
    ensures
        forall|i: int| 0 <= i < in_order(s).len() ==> p(#[trigger] in_order(s)[i]),
    decreases s.len(),
{
    if s.len() > 0 {
        let rest = s.skip(1);
        assert forall|i: int| 0 <= i < rest.len() implies p(#[trigger] rest[i]) by {
            assert(p(s[i + 1]));
        }
        lemma_order_all(rest, p);
        law_order_ascends(rest);
        let t = in_order(rest);
        lemma_placed_ascending(t, s[0]);
        assert forall|i: int| 0 <= i < in_order(s).len() implies p(#[trigger] in_order(s)[i]) by {
            assert(placed(t, s[0])[i] == in_order(s)[i]);
            if in_order(s)[i] != s[0] {
                let j = choose|j: int| 0 <= j < t.len() && #[trigger] t[j] == placed(t, s[0])[i];
                assert(p(t[j]));
            }
        }
    }
}

proof fn lemma_placed_at<A>(t: Seq<Keyed<A>>, x: Keyed<A>, p: int)
    requires
        0 <= p <= t.len(),
        forall|i: int| 0 <= i < p ==> key_less(#[trigger] t[i], x),
        p < t.len() ==> !key_less(t[p], x),
    ensures
        placed(t, x) == t.insert(p, x),
    decreases p,
{
    if p == 0 {
        assert(placed(t, x) =~= t.insert(0, x));
    } else {
        assert(key_less(t[0], x));
        let rest = t.skip(1);
        assert forall|i: int| 0 <= i < p - 1 implies key_less(#[trigger] rest[i], x) by {
            assert(key_less(t[i + 1], x));
        }
        lemma_placed_at(rest, x, p - 1);
        assert(placed(t, x) =~= t.insert(p, x));
    }
}

/// The rows in the order of their keys.
pub fn sort_keyed<T>(rows: Vec<Keyed<T>>) -> (r: Vec<Keyed<T>>)
    ensures
        r@ == in_order(rows@),
{
    let mut rest = rows;
    let mut out: Vec<Keyed<T>> = Vec::new();
    let ghost all = rest@;
    assert(all.skip(all.len() as int) =~= Seq::<Keyed<T>>::empty());
    while rest.len() > 0
        invariant
            rest@ == all.take(rest@.len() as int),
            rest@.len() <= all.len(),
            out@ == in_order(all.skip(rest@.len() as int)),
        decreases rest@.len(),
    {
        let ghost n = rest@.len() as int;
        match rest.pop() {
            Some(x) => {
                let mut p: usize = 0;
                while p < out.len() && (out[p].first < x.first || (out[p].first == x.first
                    && out[p].second < x.second))
                    invariant
                        p <= out@.len(),
                        forall|i: int| 0 <= i < p ==> key_less(#[trigger] out@[i], x),
                    decreases out@.len() - p,
                {
                    p = p + 1;
                }
                proof {
                    lemma_placed_at(out@, x, p as int);
                    let s = all.skip(n - 1);
                    assert(s[0] == x);
                    assert(s.skip(1) =~= all.skip(n));
                    assert(rest@ =~= all.take(n - 1));
                }
                out.insert(p, x);
            },
            None => {},
        }
    }
    assert(all.skip(0) =~= all);
    out
}

/// Sorted rows come by their first number, those with the same by their second, and none is lost
/// or doubled.
pub proof fn law_rows_come_by_their_numbers<A>(s: Seq<Keyed<A>>, i: int, j: int, a: i64, b: i64)
    ensures
        in_order(s).len() == s.len(),
        0 <= i < j < s.len() ==> in_order(s)[i].first < in_order(s)[j].first || (in_order(
            s,
        )[i].first == in_order(s)[j].first && in_order(s)[i].second <= in_order(s)[j].second),
        in_order(s).filter(|k: Keyed<A>| k.first == a && k.second == b) == s.filter(
            |k: Keyed<A>| k.first == a && k.second == b,
        ),
{
    law_order_ascends(s);
    law_order_is_stable(s, a, b);
    if 0 <= i < j < s.len() {
        assert(!key_less(in_order(s)[j], in_order(s)[i]));
    }
    assert(has_key::<A>(a, b) =~= (|k: Keyed<A>| k.first == a && k.second == b));
}

} // verus!
