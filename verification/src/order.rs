//! The order of strings by their characters' code points, and sorting by it.

use vstd::prelude::*;

use crate::text::chars_of;

verus! {

/// `a` comes before `b` or equals it: at the first place where they differ, `a` has the lower
/// code point or ends.
pub open spec fn le(a: Seq<char>, b: Seq<char>) -> bool
    decreases a.len(),
{
    if a.len() == 0 {
        true
    } else if b.len() == 0 {
        false
    } else if a[0] == b[0] {
        le(a.drop_first(), b.drop_first())
    } else {
        (a[0] as u32) < (b[0] as u32)
    }
}

/// Any two strings are in order one way or the other; both ways only where they are equal.
pub proof fn law_order_total(a: Seq<char>, b: Seq<char>)
    ensures
        le(a, b) || le(b, a),
        le(a, b) && le(b, a) ==> a == b,
    decreases a.len(),
{
    if a.len() > 0 && b.len() > 0 {
        if a[0] == b[0] {
            law_order_total(a.drop_first(), b.drop_first());
            if a.drop_first() == b.drop_first() {
                assert(a =~= seq![a[0]] + a.drop_first());
                assert(b =~= seq![b[0]] + b.drop_first());
            }
        } else {
            vstd::utf8::char_u32_cast(a[0], a[0] as u32);
            vstd::utf8::char_u32_cast(b[0], b[0] as u32);
        }
    } else if le(a, b) && le(b, a) {
        assert(a =~= b);
    }
}

/// The order of strings is transitive.
pub proof fn law_order_transitive(a: Seq<char>, b: Seq<char>, c: Seq<char>)
    requires
        le(a, b),
        le(b, c),
    ensures
        le(a, c),
    decreases a.len(),
{
    if a.len() > 0 && b.len() > 0 && c.len() > 0 && a[0] == b[0] && b[0] == c[0] {
        law_order_transitive(a.drop_first(), b.drop_first(), c.drop_first());
    }
}

/// Compares two strings.
pub fn is_le(a: &str, b: &str) -> (r: bool)
    ensures
        r == le(a@, b@),
{
    let x = chars_of(a);
    let y = chars_of(b);
    let mut i: usize = 0;
    assert(x@.skip(0) =~= x@);
    assert(y@.skip(0) =~= y@);
    while i < x.len() && i < y.len() && x[i] == y[i]
        invariant
            i <= x@.len(),
            i <= y@.len(),
            le(x@, y@) == le(x@.skip(i as int), y@.skip(i as int)),
        decreases x@.len() - i,
    {
        assert(x@.skip(i as int).drop_first() =~= x@.skip(i + 1));
        assert(y@.skip(i as int).drop_first() =~= y@.skip(i + 1));
        i += 1;
    }
    if i == x.len() {
        true
    } else if i == y.len() {
        false
    } else {
        (x[i] as u32) < (y[i] as u32)
    }
}

/// Tells whether each string comes before the ones behind it or equals them.
pub open spec fn in_order(s: Seq<Seq<char>>) -> bool {
    forall|i: int, j: int| 0 <= i < j < s.len() ==> le(#[trigger] s[i], #[trigger] s[j])
}

/// Puts `x` into its place among strings that are in order.
fn insert(v: &mut Vec<String>, x: String)
    requires
        in_order(old(v).deep_view()),
    ensures
        in_order(final(v).deep_view()),
        final(v).deep_view().to_multiset() == old(v).deep_view().to_multiset().insert(x@),
{
    let ghost before = v.deep_view();
    let mut i: usize = v.len();
    while i > 0 && !is_le(v[i - 1].as_str(), x.as_str())
        invariant
            before == v.deep_view(),
            i <= v@.len(),
            in_order(before),
            forall|k: int| i <= k < v@.len() ==> le(x@, #[trigger] before[k]),
        decreases i,
    {
        proof {
            law_order_total(before[i - 1], x@);
        }
        i -= 1;
    }
    let ghost item = x@;
    v.insert(i, x);
    proof {
        let after = v.deep_view();
        let front = before.take(i as int);
        let back = before.skip(i as int);
        assert(after =~= front.push(item) + back);
        vstd::seq_lib::lemma_multiset_commutative(front.push(item), back);
        vstd::seq_lib::lemma_multiset_commutative(front, back);
        front.to_multiset_ensures();
        assert(before =~= front + back);
        assert(after.to_multiset() =~= before.to_multiset().insert(item));
        assert forall|a: int, b: int| 0 <= a < b < after.len() implies le(
            #[trigger] after[a],
            #[trigger] after[b],
        ) by {
            if b < i {
                assert(after[a] == before[a] && after[b] == before[b]);
            } else if b == i {
                assert(after[a] == before[a]);
                if a < i - 1 {
                    law_order_transitive(before[a], before[i - 1], item);
                }
            } else if a < i {
                assert(after[a] == before[a] && after[b] == before[b - 1]);
            } else if a == i {
                assert(after[b] == before[b - 1]);
            } else {
                assert(after[a] == before[a - 1] && after[b] == before[b - 1]);
            }
        }
    }
}

/// Sorts strings.
pub fn sort(v: &Vec<String>) -> (r: Vec<String>)
    ensures
        in_order(r.deep_view()),
        r.deep_view().to_multiset() == v.deep_view().to_multiset(),
{
    let mut out: Vec<String> = Vec::new();
    let mut i: usize = 0;
    let ghost all = v.deep_view();
    assert(all.take(0) =~= out.deep_view());
    while i < v.len()
        invariant
            all == v.deep_view(),
            i <= v@.len(),
            in_order(out.deep_view()),
            out.deep_view().to_multiset() == all.take(i as int).to_multiset(),
        decreases v@.len() - i,
    {
        insert(&mut out, v[i].clone());
        proof {
            all.take(i as int).to_multiset_ensures();
            assert(all.take(i + 1) =~= all.take(i as int).push(all[i as int]));
        }
        i += 1;
    }
    assert(all.take(i as int) =~= all);
    out
}

/// There is only one way to put given strings in order.
pub proof fn law_sorting_is_unique(a: Seq<Seq<char>>, b: Seq<Seq<char>>)
    requires
        in_order(a),
        in_order(b),
        a.to_multiset() == b.to_multiset(),
    ensures
        a == b,
    decreases a.len(),
{
    a.to_multiset_ensures();
    b.to_multiset_ensures();
    if a.len() > 0 {
        let x = a.last();
        let y = b.last();
        assert(a.contains(x));
        assert(b.contains(y));
        assert(b.to_multiset().count(x) > 0);
        assert(a.to_multiset().count(y) > 0);
        assert(b.contains(x));
        assert(a.contains(y));
        let i = choose|i: int| 0 <= i < b.len() && b[i] == x;
        let j = choose|j: int| 0 <= j < a.len() && a[j] == y;
        law_order_total(x, y);
        assert(le(x, y) || x == y);
        assert(le(y, x) || x == y);
        assert(a.drop_last() =~= a.remove(a.len() - 1));
        assert(b.drop_last() =~= b.remove(b.len() - 1));
        assert(a.drop_last().to_multiset() =~= b.drop_last().to_multiset());
        law_sorting_is_unique(a.drop_last(), b.drop_last());
        assert(a =~= a.drop_last().push(x));
        assert(b =~= b.drop_last().push(y));
    } else {
        assert(a =~= b);
    }
}

/// The first difference decides: the lower code point comes first, and so does a text that is
/// the beginning of another.
pub proof fn law_first_difference_decides(
    front: Seq<char>,
    c: char,
    a: Seq<char>,
    d: char,
    b: Seq<char>,
)
    ensures
        (c as u32) < (d as u32) ==> {
            &&& le(front + seq![c] + a, front + seq![d] + b)
            &&& !le(front + seq![d] + b, front + seq![c] + a)
        },
        le(front, front + a),
        le(front + a, front) ==> a.len() == 0,
    decreases front.len(),
{
    let x = front + seq![c] + a;
    let y = front + seq![d] + b;
    let z = front + a;
    if front.len() == 0 {
        assert(x[0] == c && y[0] == d);
        assert(z =~= a);
    } else {
        let rest = front.drop_first();
        law_first_difference_decides(rest, c, a, d, b);
        assert(x.drop_first() =~= rest + seq![c] + a);
        assert(y.drop_first() =~= rest + seq![d] + b);
        assert(z.drop_first() =~= rest + a);
    }
}

/// Strings in order stand so that none comes before one that stands ahead of it.
pub proof fn law_in_order_means_every_pair(s: Seq<Seq<char>>)
    ensures
        in_order(s) <==> forall|i: int, j: int|
            0 <= i && i < j && j < s.len() ==> le(#[trigger] s[i], #[trigger] s[j]),
{
}

} // verus!
