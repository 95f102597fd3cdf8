//! Small tables: values under keys, each key at most once, in the order in
//! which the keys came.
use vstd::prelude::*;

use crate::model;
use crate::model::Plain;

verus! {

/// Where a key stands.
pub open spec fn place<K, T>(s: Seq<(K, T)>, k: K) -> Option<int>
    decreases s.len(),
{
    if s.len() == 0 {
        None
    } else if s.last().0 == k {
        Some(s.len() - 1)
    } else {
        place(s.drop_last(), k)
    }
}

/// The value under a key.
pub open spec fn get<K, T>(s: Seq<(K, T)>, k: K) -> Option<T> {
    match place(s, k) {
        Some(i) => Some(s[i].1),
        None => None,
    }
}

/// The table with a value under a key, in place of an older one.
pub open spec fn put<K, T>(s: Seq<(K, T)>, k: K, v: T) -> Seq<(K, T)> {
    match place(s, k) {
        Some(i) => s.update(i, (k, v)),
        None => s.push((k, v)),
    }
}

/// The table without a key.
pub open spec fn without<K, T>(s: Seq<(K, T)>, k: K) -> Seq<(K, T)> {
    match place(s, k) {
        Some(i) => s.remove(i),
        None => s,
    }
}

/// Whether no key stands twice.
pub open spec fn distinct<K, T>(s: Seq<(K, T)>) -> bool {
    forall|i: int, j: int|
        0 <= i < j < s.len() ==> (#[trigger] s[i]).0 != (#[trigger] s[j]).0
}

/// A place that was found is one of the key.
pub proof fn place_is_right<K, T>(s: Seq<(K, T)>, k: K)
    ensures
        place(s, k) matches Some(i) ==> 0 <= i < s.len() && s[i].0 == k,
        place(s, k) is None ==> forall|i: int| 0 <= i < s.len() ==> (#[trigger] s[i]).0 != k,
    decreases s.len(),
{
    if s.len() > 0 && s.last().0 != k {
        place_is_right(s.drop_last(), k);
        if place(s, k) is None {
            assert forall|i: int| 0 <= i < s.len() implies (#[trigger] s[i]).0 != k by {
                if i < s.len() - 1 {
                    assert(s[i] == s.drop_last()[i]);
                }
            }
        }
    }
}

/// Where keys stand once, the place of a key is the place where it stands.
pub proof fn place_is_the_only_one<K, T>(s: Seq<(K, T)>, k: K, i: int)
    requires
        distinct(s),
        0 <= i < s.len(),
        s[i].0 == k,
    ensures
        place(s, k) == Some(i),
{
    place_is_right(s, k);
    let j = place(s, k)->Some_0;
    if place(s, k) is Some && j != i {
        if i < j {
            assert(s[i].0 != s[j].0);
        } else {
            assert(s[j].0 != s[i].0);
        }
    }
}

/// What was put under a key is found under it, and other keys keep their
/// values.
pub proof fn put_is_found<K, T>(s: Seq<(K, T)>, k: K, v: T, other: K)
    requires
        distinct(s),
    ensures
        distinct(put(s, k, v)),
        get(put(s, k, v), k) == Some(v),
        other != k ==> get(put(s, k, v), other) == get(s, other),
{
    place_is_right(s, k);
    place_is_right(s, other);
    let t = put(s, k, v);
    match place(s, k) {
        Some(i) => {
            assert(t[i] == (k, v));
            assert forall|a: int, b: int| 0 <= a < b < t.len() implies (#[trigger] t[a]).0 != (
            #[trigger] t[b]).0 by {
                assert(s[a].0 != s[b].0);
            }
            place_is_the_only_one(t, k, i);
            if other != k {
                match place(s, other) {
                    Some(j) => {
                        assert(t[j] == s[j]);
                        place_is_the_only_one(t, other, j);
                    },
                    None => {
                        place_is_right(t, other);
                        if place(t, other) is Some {
                            let j = place(t, other)->Some_0;
                            assert(j != i);
                            assert(t[j] == s[j]);
                        }
                    },
                }
            }
        },
        None => {
            assert(t[t.len() - 1] == (k, v));
            assert(t.drop_last() =~= s);
            assert forall|a: int, b: int| 0 <= a < b < t.len() implies (#[trigger] t[a]).0 != (
            #[trigger] t[b]).0 by {
                assert(t[a] == s[a]);
                if b < s.len() {
                    assert(t[b] == s[b]);
                }
            }
        },
    }
}

/// A key that was taken out is not found, and other keys keep their values.
pub proof fn without_is_gone<K, T>(s: Seq<(K, T)>, k: K, other: K)
    requires
        distinct(s),
    ensures
        distinct(without(s, k)),
        get(without(s, k), k) is None,
        other != k ==> get(without(s, k), other) == get(s, other),
{
    place_is_right(s, k);
    place_is_right(s, other);
    let t = without(s, k);
    match place(s, k) {
        Some(i) => {
            assert forall|a: int, b: int| 0 <= a < b < t.len() implies (#[trigger] t[a]).0 != (
            #[trigger] t[b]).0 by {
                let p = if a < i {
                    a
                } else {
                    a + 1
                };
                let q = if b < i {
                    b
                } else {
                    b + 1
                };
                assert(t[a] == s[p] && t[b] == s[q]);
                assert(s[p].0 != s[q].0);
            }
            place_is_right(t, k);
            if place(t, k) is Some {
                let a = place(t, k)->Some_0;
                let p = if a < i {
                    a
                } else {
                    a + 1
                };
                assert(t[a] == s[p]);
                place_is_the_only_one(s, k, p);
            }
            if other != k {
                place_is_right(t, other);
                match place(s, other) {
                    Some(j) => {
                        let a = if j < i {
                            j
                        } else {
                            j - 1
                        };
                        assert(t[a] == s[j]);
                        place_is_the_only_one(t, other, a);
                    },
                    None => {
                        if place(t, other) is Some {
                            let a = place(t, other)->Some_0;
                            let p = if a < i {
                                a
                            } else {
                                a + 1
                            };
                            assert(t[a] == s[p]);
                        }
                    },
                }
            }
        },
        None => {},
    }
}

/// Values under keys.
pub struct Table<K: Plain, T: Plain> {
    pub slots: Vec<(K, T)>,
}

impl<K: Plain, T: Plain> View for Table<K, T> {
    type V = Seq<(K::V, T::V)>;

    open spec fn view(&self) -> Seq<(K::V, T::V)> {
        model::seq_view(self.slots@)
    }
}

impl<K: Plain, T: Plain> Table<K, T> {
    /// A table that holds nothing.
    pub fn new() -> (r: Self)
        ensures
            r@ == Seq::<(K::V, T::V)>::empty(),
    {
        let r = Table { slots: Vec::new() };
        assert(r@ =~= Seq::<(K::V, T::V)>::empty());
        r
    }

    /// How many keys there are.
    pub fn len(&self) -> (r: usize)
        ensures
            r == self@.len(),
    {
        self.slots.len()
    }

    /// Finds a key.
    pub fn find(&self, k: &K) -> (r: Option<usize>)
        ensures
            match r {
                Some(i) => place(self@, k@) == Some(i as int) && i < self.slots@.len(),
                None => place(self@, k@) is None,
            },
    {
        let ghost s = self@;
        let mut n: usize = self.slots.len();
        assert(s.take(s.len() as int) == s);
        while n > 0
            invariant
                n <= self.slots@.len(),
                s == self@,
                place(s, k@) == place(s.take(n as int), k@),
            decreases n,
        {
            proof {
                assert(s.take(n as int).drop_last() == s.take(n - 1));
                assert(s.take(n as int).last() == self.slots@[n - 1]@);
            }
            if self.slots[n - 1].0.same(k) {
                return Some(n - 1);
            }
            n = n - 1;
        }
        None
    }

    /// The value under a key.
    pub fn get(&self, k: &K) -> (r: Option<T>)
        ensures
            model::opt_view(r) == get(self@, k@),
    {
        match self.find(k) {
            Some(i) => Some(self.slots[i].1.copied()),
            None => None,
        }
    }

    /// Puts a value under a key, in place of an older one.
    pub fn put(&mut self, k: K, v: T)
        ensures
            final(self)@ == put(old(self)@, k@, v@),
    {
        let ghost s = self@;
        match self.find(&k) {
            Some(i) => {
                self.slots.set(i, (k, v));
                assert(self@ =~= s.update(i as int, (k@, v@)));
            },
            None => {
                self.slots.push((k, v));
                assert(self@ =~= s.push((k@, v@)));
            },
        }
    }

    /// Takes a key out.
    pub fn remove(&mut self, k: &K)
        ensures
            final(self)@ == without(old(self)@, k@),
    {
        let ghost s = self@;
        match self.find(k) {
            Some(i) => {
                let _gone = self.slots.remove(i);
                assert(self@ =~= s.remove(i as int));
            },
            None => {},
        }
    }

    /// Takes every key out.
    pub fn clear(&mut self)
        ensures
            final(self)@ == Seq::<(K::V, T::V)>::empty(),
    {
        self.slots = Vec::new();
        assert(self@ =~= Seq::<(K::V, T::V)>::empty());
    }
}

} // verus!
