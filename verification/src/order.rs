//! Orders on texts, and sorting by an order.
use vstd::prelude::*;

use crate::model;
use crate::model::Plain;
use crate::text::chars_of;

verus! {

/// Whether a text stands before another, character by character.
pub open spec fn precedes(a: Seq<char>, b: Seq<char>) -> bool
    decreases a.len(),
{
    if b.len() == 0 {
        false
    } else if a.len() == 0 {
        true
    } else if a[0] != b[0] {
        a[0] < b[0]
    } else {
        precedes(a.drop_first(), b.drop_first())
    }
}

/// Of two different texts exactly one stands before the other.
pub proof fn text_order_is_total(a: Seq<char>, b: Seq<char>)
    ensures
        a == b ==> !precedes(a, b),
        a != b ==> precedes(a, b) != precedes(b, a),
    decreases a.len(),
{
    if a.len() == 0 || b.len() == 0 {
        if a.len() == b.len() {
            assert(a =~= b);
        }
    } else if a[0] == b[0] {
        let x = a.drop_first();
        let y = b.drop_first();
        text_order_is_total(x, y);
        assert(precedes(a, b) == precedes(x, y));
        assert(precedes(b, a) == precedes(y, x));
        if x == y {
            assert(a =~= seq![a[0]] + x);
            assert(b =~= seq![a[0]] + y);
        }
    } else {
        assert(precedes(a, b) == (a[0] < b[0]));
        assert(precedes(b, a) == (b[0] < a[0]));
    }
}

/// What stands before a text stands before what comes after it.
pub proof fn text_order_is_transitive(a: Seq<char>, b: Seq<char>, c: Seq<char>)
    requires
        precedes(a, b),
        precedes(b, c),
    ensures
        precedes(a, c),
    decreases a.len(),
{
    if a.len() > 0 && b.len() > 0 && c.len() > 0 && a[0] == b[0] && b[0] == c[0] {
        text_order_is_transitive(a.drop_first(), b.drop_first(), c.drop_first());
    }
}

/// Whether a text stands before another.
pub fn stands_before(a: &str, b: &str) -> (r: bool)
    ensures
        r == precedes(a@, b@),
{
    let x = chars_of(a);
    let y = chars_of(b);
    let mut i: usize = 0;
    assert(a@.skip(0) == a@);
    assert(b@.skip(0) == b@);
    while i < x.len() && i < y.len()
        invariant
            i <= x@.len(),
            i <= y@.len(),
            x@ == a@,
            y@ == b@,
            precedes(a@, b@) == precedes(a@.skip(i as int), b@.skip(i as int)),
        decreases x@.len() - i,
    {
        proof {
            assert(a@.skip(i as int)[0] == a@[i as int]);
            assert(b@.skip(i as int)[0] == b@[i as int]);
            assert(a@.skip(i as int).drop_first() == a@.skip(i + 1));
            assert(b@.skip(i as int).drop_first() == b@.skip(i + 1));
        }
        let c: char = x[i];
        let d: char = y[i];
        if c != d {
            return c < d;
        }
        i = i + 1;
    }
    i < y.len()
}

/// Values that can be put in order.
pub trait Ordered: Plain {
    /// Whether a value stands before another.
    spec fn before(a: Self::V, b: Self::V) -> bool;

    /// No two values stand before each other, and what stands before a value
    /// stands before all that it does.
    proof fn before_is_an_order(a: Self::V, b: Self::V, c: Self::V)
        ensures
            !(Self::before(a, b) && Self::before(b, a)),
            Self::before(a, b) && Self::before(b, c) ==> Self::before(a, c),
            Self::before(a, c) ==> Self::before(a, b) || Self::before(b, c),
    ;

    /// Whether a value stands before another.
    fn is_before(&self, other: &Self) -> (r: bool)
        ensures
            r == Self::before(self@, other@),
    ;
}

/// Where a value goes in a list: behind all that it does not stand before.
pub open spec fn slot<T: Ordered>(s: Seq<T::V>, x: T::V) -> int
    decreases s.len(),
{
    if s.len() == 0 {
        0
    } else if T::before(x, s.last()) {
        slot::<T>(s.drop_last(), x)
    } else {
        s.len() as int
    }
}

/// A list in order; values of which neither stands before the other stay as
/// they stand.
pub open spec fn sorted<T: Ordered>(s: Seq<T::V>) -> Seq<T::V>
    decreases s.len(),
{
    if s.len() == 0 {
        Seq::empty()
    } else {
        let before = sorted::<T>(s.drop_last());
        before.insert(slot::<T>(before, s.last()), s.last())
    }
}

/// Whether no value of a list stands before an earlier one.
pub open spec fn in_order<T: Ordered>(s: Seq<T::V>) -> bool {
    forall|i: int, j: int|
        0 <= i < j < s.len() ==> !T::before(#[trigger] s[j], #[trigger] s[i])
}

/// Where a value goes is a place of the list.
proof fn slot_is_within<T: Ordered>(s: Seq<T::V>, x: T::V)
    ensures
        0 <= slot::<T>(s, x) <= s.len(),
    decreases s.len(),
{
    if s.len() > 0 {
        slot_is_within::<T>(s.drop_last(), x);
    }
}

/// A value stands before all that come behind its place, and not before the
/// one in front of it.
proof fn slot_is_right<T: Ordered>(s: Seq<T::V>, x: T::V)
    ensures
        0 <= slot::<T>(s, x) <= s.len(),
        forall|k: int| slot::<T>(s, x) <= k < s.len() ==> T::before(x, #[trigger] s[k]),
        slot::<T>(s, x) > 0 ==> !T::before(x, s[slot::<T>(s, x) - 1]),
    decreases s.len(),
{
    if s.len() > 0 && T::before(x, s.last()) {
        slot_is_right::<T>(s.drop_last(), x);
        assert forall|k: int| slot::<T>(s, x) <= k < s.len() implies T::before(
            x,
            #[trigger] s[k],
        ) by {
            if k < s.len() - 1 {
                assert(s[k] == s.drop_last()[k]);
            }
        }
    }
}

/// A sorted list is in order.
pub proof fn sorted_is_in_order<T: Ordered>(s: Seq<T::V>)
    ensures
        in_order::<T>(sorted::<T>(s)),
        sorted::<T>(s).len() == s.len(),
    decreases s.len(),
{
    if s.len() > 0 {
        let x = s.last();
        let rest = sorted::<T>(s.drop_last());
        sorted_is_in_order::<T>(s.drop_last());
        let p = slot::<T>(rest, x);
        slot_is_right::<T>(rest, x);
        let all = rest.insert(p, x);
        assert forall|i: int, j: int| 0 <= i < j < all.len() implies !T::before(
            #[trigger] all[j],
            #[trigger] all[i],
        ) by {
            if j == p {
                // `x` comes behind `rest[i]`: it does not stand before the one in front of it,
                // and that one does not stand before `rest[i]`.
                assert(all[i] == rest[i]);
                if T::before(x, rest[i]) {
                    T::before_is_an_order(x, rest[p - 1], rest[i]);
                    if i < p - 1 {
                        assert(!T::before(rest[p - 1], rest[i]));
                    }
                }
            } else if i == p {
                assert(all[j] == rest[j - 1]);
                assert(T::before(x, rest[j - 1]));
                T::before_is_an_order(x, rest[j - 1], x);
            } else {
                let a = if i < p {
                    i
                } else {
                    i - 1
                };
                let b = if j < p {
                    j
                } else {
                    j - 1
                };
                assert(all[i] == rest[a]);
                assert(all[j] == rest[b]);
                assert(!T::before(rest[b], rest[a]));
            }
        }
    }
}

/// Sorting keeps every value, as often as it occurs.
pub proof fn sorted_keeps_all<T: Ordered>(s: Seq<T::V>)
    ensures
        sorted::<T>(s).to_multiset() == s.to_multiset(),
    decreases s.len(),
{
    broadcast use vstd::seq_lib::group_to_multiset_ensures;

    if s.len() > 0 {
        let x = s.last();
        let rest = sorted::<T>(s.drop_last());
        sorted_keeps_all::<T>(s.drop_last());
        slot_is_within::<T>(rest, x);
        let p = slot::<T>(rest, x);
        vstd::seq_lib::to_multiset_insert(rest, p, x);
        assert(s =~= s.drop_last().push(x));
    } else {
        assert(sorted::<T>(s) =~= s);
    }
}

/// Whether of any two values of a list one stands before the other.
pub open spec fn all_apart<T: Ordered>(s: Seq<T::V>) -> bool {
    forall|i: int, j: int|
        0 <= i < s.len() && 0 <= j < s.len() && i != j ==> T::before(
            #[trigger] s[i],
            #[trigger] s[j],
        ) || T::before(s[j], s[i])
}

/// Two lists in order with the same values are the same, where of any two
/// values one stands before the other.
pub proof fn order_is_unique<T: Ordered>(a: Seq<T::V>, b: Seq<T::V>)
    requires
        in_order::<T>(a),
        in_order::<T>(b),
        all_apart::<T>(a),
        a.to_multiset() == b.to_multiset(),
    ensures
        a == b,
    decreases a.len(),
{
    broadcast use vstd::seq_lib::group_to_multiset_ensures;

    assert(a.len() == a.to_multiset().len());
    assert(b.len() == b.to_multiset().len());
    if a.len() == 0 {
        assert(a =~= b);
    } else {
        let last_a = a.last();
        let last_b = b.last();
        // The last of `b` stands somewhere in `a`, and the last of `a` somewhere in `b`.
        assert(b.contains(last_b)) by {
            assert(b[b.len() - 1] == last_b);
        }
        assert(a.contains(last_a)) by {
            assert(a[a.len() - 1] == last_a);
        }
        assert(a.to_multiset().count(last_b) > 0);
        assert(b.to_multiset().count(last_a) > 0);
        let i = a.index_of(last_b);
        let j = b.index_of(last_a);
        assert(a[i] == last_b);
        assert(b[j] == last_a);
        if last_a != last_b {
            assert(i < a.len() - 1);
            assert(j < b.len() - 1);
            assert(!T::before(a[a.len() - 1], a[i]));
            assert(!T::before(b[b.len() - 1], b[j]));
            assert(T::before(a[i], a[a.len() - 1]) || T::before(a[a.len() - 1], a[i]));
        }
        let rest_a = a.drop_last();
        let rest_b = b.drop_last();
        assert(a =~= rest_a.push(last_a));
        assert(b =~= rest_b.push(last_b));
        assert(a.remove(a.len() - 1) =~= rest_a);
        assert(b.remove(b.len() - 1) =~= rest_b);
        vstd::seq_lib::to_multiset_remove(a, a.len() - 1);
        vstd::seq_lib::to_multiset_remove(b, b.len() - 1);
        assert forall|p: int, q: int| 0 <= p < q < rest_a.len() implies !T::before(
            #[trigger] rest_a[q],
            #[trigger] rest_a[p],
        ) by {
            assert(!T::before(a[q], a[p]));
        }
        assert forall|p: int, q: int| 0 <= p < q < rest_b.len() implies !T::before(
            #[trigger] rest_b[q],
            #[trigger] rest_b[p],
        ) by {
            assert(!T::before(b[q], b[p]));
        }
        assert forall|p: int, q: int|
            0 <= p < rest_a.len() && 0 <= q < rest_a.len() && p != q implies T::before(
            #[trigger] rest_a[p],
            #[trigger] rest_a[q],
        ) || T::before(rest_a[q], rest_a[p]) by {
            assert(T::before(a[p], a[q]) || T::before(a[q], a[p]));
        }
        order_is_unique::<T>(rest_a, rest_b);
    }
}

/// The order in which values come does not decide how they are sorted.
pub proof fn sorting_forgets_the_order<T: Ordered>(a: Seq<T::V>, b: Seq<T::V>)
    requires
        a.to_multiset() == b.to_multiset(),
        all_apart::<T>(sorted::<T>(a)),
    ensures
        sorted::<T>(a) == sorted::<T>(b),
{
    sorted_is_in_order::<T>(a);
    sorted_is_in_order::<T>(b);
    sorted_keeps_all::<T>(a);
    sorted_keeps_all::<T>(b);
    order_is_unique::<T>(sorted::<T>(a), sorted::<T>(b));
}

/// Sorts a list.
pub fn sort<T: Ordered>(list: &Vec<T>) -> (r: Vec<T>)
    ensures
        model::seq_view(r@) == sorted::<T>(model::seq_view(list@)),
        r@.len() == list@.len(),
{
    let ghost s = model::seq_view(list@);
    let mut out: Vec<T> = Vec::new();
    assert(model::seq_view(out@) =~= sorted::<T>(s.take(0)));
    let mut i: usize = 0;
    while i < list.len()
        invariant
            i <= list@.len(),
            s == model::seq_view(list@),
            out@.len() == i,
            model::seq_view(out@) == sorted::<T>(s.take(i as int)),
        decreases list@.len() - i,
    {
        let x = list[i].copied();
        let ghost now = model::seq_view(out@);
        proof {
            assert(s.take(i + 1).drop_last() == s.take(i as int));
            assert(s.take(i + 1).last() == x@);
            assert(now.take(now.len() as int) == now);
        }
        let mut p: usize = out.len();
        while p > 0 && x.is_before(&out[p - 1])
            invariant
                p <= out@.len(),
                now == model::seq_view(out@),
                slot::<T>(now, x@) == slot::<T>(now.take(p as int), x@),
            decreases p,
        {
            proof {
                assert(now.take(p as int).last() == out@[p - 1]@);
                assert(now.take(p as int).drop_last() == now.take(p - 1));
            }
            p = p - 1;
        }
        proof {
            if p > 0 {
                assert(now.take(p as int).last() == out@[p - 1]@);
            }
        }
        out.insert(p, x);
        assert(model::seq_view(out@) =~= now.insert(p as int, x@));
        i = i + 1;
    }
    assert(s.take(s.len() as int) == s);
    out
}

/// Texts are ordered as in a dictionary: by the first character in which they
/// differ, and a text before those that it begins.
pub proof fn first_difference_decides(
    common: Seq<char>,
    x: char,
    y: char,
    rest: Seq<char>,
    other: Seq<char>,
)
    requires
        x < y,
    ensures
        precedes(common.push(x) + rest, common.push(y) + other),
        precedes(common, common.push(x) + rest),
    decreases common.len(),
{
    let a = common.push(x) + rest;
    let b = common.push(y) + other;
    if common.len() > 0 {
        let less = common.drop_first();
        first_difference_decides(less, x, y, rest, other);
        assert(a.drop_first() =~= less.push(x) + rest);
        assert(b.drop_first() =~= less.push(y) + other);
        assert(a[0] == common[0] && b[0] == common[0]);
    } else {
        assert(a[0] == x && b[0] == y);
    }
}

/// What is in order already is left as it is: things of one rank keep the order
/// in which they came.
pub proof fn ordered_list_is_left<T: Ordered>(s: Seq<T::V>)
    requires
        in_order::<T>(s),
    ensures
        sorted::<T>(s) == s,
    decreases s.len(),
{
    if s.len() > 0 {
        let short = s.drop_last();
        assert forall|i: int, j: int| 0 <= i < j < short.len() implies !T::before(
            #[trigger] short[j],
            #[trigger] short[i],
        ) by {
            assert(short[j] == s[j] && short[i] == s[i]);
        }
        ordered_list_is_left::<T>(short);
        if short.len() > 0 {
            assert(!T::before(s[s.len() - 1], s[s.len() - 2]));
            assert(short.last() == s[s.len() - 2]);
        }
        assert(slot::<T>(short, s.last()) == short.len());
        assert(short.insert(short.len() as int, s.last()) =~= s);
    } else {
        assert(sorted::<T>(s) =~= s);
    }
}

/// Sorting takes nothing out and puts nothing in.
pub proof fn sorting_holds_the_same<T: Ordered>(s: Seq<T::V>, x: T::V)
    ensures
        sorted::<T>(s).contains(x) <==> s.contains(x),
        sorted::<T>(s).len() == s.len(),
{
    broadcast use vstd::seq_lib::group_to_multiset_ensures;

    sorted_keeps_all::<T>(s);
    sorted_is_in_order::<T>(s);
    assert(s.to_multiset().count(x) == sorted::<T>(s).to_multiset().count(x));
    assert(s.contains(x) <==> s.to_multiset().count(x) > 0);
    assert(sorted::<T>(s).contains(x) <==> sorted::<T>(s).to_multiset().count(x) > 0);
}

} // verus!
