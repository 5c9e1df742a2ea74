//! The order of texts by their characters, and lists in that order.

use vstd::prelude::*;

use crate::text::{chars_of, same_text, texts};

verus! {

/// Whether `a` comes before `b`: the first character that differs decides, and a text comes
/// before every longer one that it begins.
pub open spec fn text_less(a: Seq<char>, b: Seq<char>) -> bool
    decreases a.len(),
{
    if b.len() == 0 {
        false
    } else if a.len() == 0 {
        true
    } else if a[0] != b[0] {
        (a[0] as int) < (b[0] as int)
    } else {
        text_less(a.skip(1), b.skip(1))
    }
}

/// No text comes before itself.
pub proof fn law_text_order_irreflexive(a: Seq<char>)
    ensures
        !text_less(a, a),
    decreases a.len(),
{
    if a.len() > 0 {
        law_text_order_irreflexive(a.skip(1));
    }
}

/// The order of texts is transitive.
pub proof fn law_text_order_transitive(a: Seq<char>, b: Seq<char>, c: Seq<char>)
    requires
        text_less(a, b),
        text_less(b, c),
    ensures
        text_less(a, c),
    decreases a.len(),
{
    if a.len() > 0 && a[0] == b[0] && b[0] == c[0] {
        law_text_order_transitive(a.skip(1), b.skip(1), c.skip(1));
    }
}

/// Of two different texts one comes before the other.
pub proof fn law_text_order_total(a: Seq<char>, b: Seq<char>)
    ensures
        a == b || text_less(a, b) || text_less(b, a),
        !(text_less(a, b) && text_less(b, a)),
    decreases a.len(),
{
    if a.len() == 0 && b.len() == 0 {
        assert(a =~= b);
    } else if a.len() > 0 && b.len() > 0 && a[0] == b[0] {
        law_text_order_total(a.skip(1), b.skip(1));
        if a.skip(1) == b.skip(1) {
            assert(a =~= seq![a[0]] + a.skip(1));
            assert(b =~= seq![b[0]] + b.skip(1));
        }
    }
}

/// Whether `a` comes before `b`.
pub fn text_before(a: &str, b: &str) -> (r: bool)
    ensures
        r == text_less(a@, b@),
{
    let x = chars_of(a);
    let y = chars_of(b);
    let mut i: usize = 0;
    assert(x@.skip(0) =~= x@);
    assert(y@.skip(0) =~= y@);
    while i < x.len() && i < y.len()
        invariant
            x@ == a@,
            y@ == b@,
            i <= x@.len(),
            i <= y@.len(),
            text_less(a@, b@) == text_less(x@.skip(i as int), y@.skip(i as int)),
        decreases x@.len() - i,
    {
        assert(x@.skip(i as int)[0] == x@[i as int]);
        assert(y@.skip(i as int)[0] == y@[i as int]);
        let c: char = x[i];
        let d: char = y[i];
        if c != d {
            return c < d;
        }
        assert(x@.skip(i as int).skip(1) =~= x@.skip(i + 1));
        assert(y@.skip(i as int).skip(1) =~= y@.skip(i + 1));
        i = i + 1;
    }
    i < y.len()
}

/// The texts stand in order, each of them once.
pub open spec fn strictly_ordered(s: Seq<Seq<char>>) -> bool {
    forall|i: int, j: int| 0 <= i < j < s.len() ==> text_less(#[trigger] s[i], #[trigger] s[j])
}

/// An ordered list with `x` at its place, unless it was there.
pub open spec fn placed_text(t: Seq<Seq<char>>, x: Seq<char>) -> Seq<Seq<char>>
    decreases t.len(),
{
    if t.len() == 0 {
        seq![x]
    } else if t[0] == x {
        t
    } else if text_less(t[0], x) {
        seq![t[0]] + placed_text(t.skip(1), x)
    } else {
        seq![x] + t
    }
}

/// The given texts in order, each of them once.
pub open spec fn ordered_texts(s: Seq<Seq<char>>) -> Seq<Seq<char>>
    decreases s.len(),
{
    if s.len() == 0 {
        s
    } else {
        placed_text(ordered_texts(s.drop_last()), s.last())
    }
}

proof fn lemma_placed_text_members(t: Seq<Seq<char>>, x: Seq<char>, u: Seq<char>)
    ensures
        placed_text(t, x).contains(u) <==> t.contains(u) || u == x,
    decreases t.len(),
{
    let r = placed_text(t, x);
    if t.len() == 0 {
        assert(r[0] == x);
    } else if t[0] == x {
        assert(t.contains(x));
    } else if text_less(t[0], x) {
        let rest = t.skip(1);
        lemma_placed_text_members(rest, x, u);
        let inner = placed_text(rest, x);
        assert(r[0] == t[0]);
        if r.contains(u) {
            let i = choose|i: int| 0 <= i < r.len() && r[i] == u;
            if i > 0 {
                assert(inner[i - 1] == u);
                if rest.contains(u) {
                    let k = choose|k: int| 0 <= k < rest.len() && rest[k] == u;
                    assert(t[k + 1] == u);
                }
            } else {
                assert(t[0] == u);
            }
        }
        if t.contains(u) {
            let i = choose|i: int| 0 <= i < t.len() && t[i] == u;
            if i > 0 {
                assert(rest[i - 1] == u);
                let k = choose|k: int| 0 <= k < inner.len() && inner[k] == u;
                assert(r[k + 1] == u);
            }
        }
        if u == x {
            let k = choose|k: int| 0 <= k < inner.len() && inner[k] == u;
            assert(r[k + 1] == u);
        }
    } else {
        assert(r[0] == x);
        if t.contains(u) {
            let i = choose|i: int| 0 <= i < t.len() && t[i] == u;
            assert(r[i + 1] == u);
        }
        if r.contains(u) {
            let i = choose|i: int| 0 <= i < r.len() && r[i] == u;
            if i > 0 {
                assert(t[i - 1] == u);
            }
        }
    }
}

proof fn lemma_placed_text_ordered(t: Seq<Seq<char>>, x: Seq<char>)
    requires
        strictly_ordered(t),
    ensures
        strictly_ordered(placed_text(t, x)),
    decreases t.len(),
{
    let r = placed_text(t, x);
    if t.len() > 0 && t[0] != x {
        if text_less(t[0], x) {
            let rest = t.skip(1);
            lemma_placed_text_ordered(rest, x);
            let inner = placed_text(rest, x);
            assert forall|i: int, j: int| 0 <= i < j < r.len() implies text_less(
                #[trigger] r[i],
                #[trigger] r[j],
            ) by {
                assert(r[j] == inner[j - 1]);
                if i > 0 {
                    assert(r[i] == inner[i - 1]);
                } else {
                    assert(inner.contains(r[j]));
                    lemma_placed_text_members(rest, x, r[j]);
                    if r[j] != x {
                        let k = choose|k: int| 0 <= k < rest.len() && rest[k] == r[j];
                        assert(t[k + 1] == r[j]);
                    }
                }
            }
        } else {
            law_text_order_total(t[0], x);
            assert forall|i: int, j: int| 0 <= i < j < r.len() implies text_less(
                #[trigger] r[i],
                #[trigger] r[j],
            ) by {
                assert(r[j] == t[j - 1]);
                if i > 0 {
                    assert(r[i] == t[i - 1]);
                } else if j > 1 {
                    assert(text_less(t[0], t[j - 1]));
                    law_text_order_transitive(x, t[0], t[j - 1]);
                }
            }
        }
    }
}

/// The ordered list is in order, without repetition.
pub proof fn law_ordered_texts_ascend(s: Seq<Seq<char>>)
    ensures
        strictly_ordered(ordered_texts(s)),
    decreases s.len(),
{
    if s.len() > 0 {
        law_ordered_texts_ascend(s.drop_last());
        lemma_placed_text_ordered(ordered_texts(s.drop_last()), s.last());
    }
}

/// The ordered list has the texts that were given, and no others.
pub proof fn law_ordered_texts_are_the_same(s: Seq<Seq<char>>, u: Seq<char>)
    ensures
        ordered_texts(s).contains(u) <==> s.contains(u),
    decreases s.len(),
{
    if s.len() > 0 {
        let rest = s.drop_last();
        law_ordered_texts_are_the_same(rest, u);
        lemma_placed_text_members(ordered_texts(rest), s.last(), u);
        assert(s[s.len() - 1] == s.last());
        if s.contains(u) {
            let i = choose|i: int| 0 <= i < s.len() && s[i] == u;
            if i < s.len() - 1 {
                assert(rest[i] == u);
            }
        }
        if rest.contains(u) {
            let i = choose|i: int| 0 <= i < rest.len() && rest[i] == u;
            assert(s[i] == u);
        }
    }
}

proof fn lemma_placed_text_at(t: Seq<Seq<char>>, x: Seq<char>, p: int)
    requires
        0 <= p <= t.len(),
        forall|i: int| 0 <= i < p ==> text_less(#[trigger] t[i], x),
        p < t.len() ==> !text_less(t[p], x),
    ensures
        placed_text(t, x) == if p < t.len() && t[p] == x {
            t
        } else {
            t.insert(p, x)
        },
    decreases p,
{
    if p == 0 {
        assert(t.insert(0, x) =~= seq![x] + t);
    } else {
        assert(text_less(t[0], x));
        law_text_order_irreflexive(x);
        let rest = t.skip(1);
        assert forall|i: int| 0 <= i < p - 1 implies text_less(#[trigger] rest[i], x) by {
            assert(text_less(t[i + 1], x));
        }
        lemma_placed_text_at(rest, x, p - 1);
        assert(t =~= seq![t[0]] + rest);
        assert(t.insert(p, x) =~= seq![t[0]] + rest.insert(p - 1, x));
    }
}

/// The given texts in order, each of them once.
pub fn distinct_in_order(names: &[String]) -> (r: Vec<String>)
    ensures
        texts(r@) == ordered_texts(texts(names@)),
{
    let mut out: Vec<String> = Vec::new();
    let mut k: usize = 0;
    assert(texts(names@).take(0) =~= Seq::<Seq<char>>::empty());
    assert(texts(out@) =~= Seq::<Seq<char>>::empty());
    while k < names.len()
        invariant
            k <= names@.len(),
            texts(out@) == ordered_texts(texts(names@).take(k as int)),
        decreases names@.len() - k,
    {
        let name = names[k].clone();
        let ghost before = texts(out@);
        let mut p: usize = 0;
        while p < out.len() && text_before(out[p].as_str(), name.as_str())
            invariant
                p <= out@.len(),
                before == texts(out@),
                forall|i: int| 0 <= i < p ==> text_less(#[trigger] before[i], name@),
            decreases out@.len() - p,
        {
            p = p + 1;
        }
        proof {
            let longer = texts(names@).take(k + 1);
            assert(longer.drop_last() =~= texts(names@).take(k as int));
            assert(longer.last() == name@);
            lemma_placed_text_at(before, name@, p as int);
        }
        let present = p < out.len() && same_text(out[p].as_str(), name.as_str());
        if !present {
            out.insert(p, name);
            assert(texts(out@) =~= before.insert(p as int, name@));
        }
        k = k + 1;
    }
    assert(texts(names@).take(k as int) =~= texts(names@));
    out
}

/// Texts are in the order of a dictionary by character codes: the first character in which they
/// differ decides, and a text comes before every longer one that begins with it.
pub proof fn law_the_first_difference_decides(
    front: Seq<char>,
    a: Seq<char>,
    b: Seq<char>,
    x: char,
    y: char,
)
    ensures
        (x as int) < (y as int) ==> text_less(front + seq![x] + a, front + seq![y] + b),
        text_less(front, front + seq![x] + a),
    decreases front.len(),
{
    let p = front + seq![x] + a;
    let q = front + seq![y] + b;
    if front.len() > 0 {
        law_the_first_difference_decides(front.skip(1), a, b, x, y);
        assert(p.skip(1) =~= front.skip(1) + seq![x] + a);
        assert(q.skip(1) =~= front.skip(1) + seq![y] + b);
        assert(p[0] == front[0] && q[0] == front[0]);
    } else {
        assert(p[0] == x && q[0] == y);
    }
}

} // verus!
