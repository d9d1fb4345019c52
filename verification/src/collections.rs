//! Small verified containers over strings: a membership set backed by a
//! vector. The upstream catalog's key spaces are small enough that linear
//! lookup is adequate, and it keeps every operation fully verified.

use vstd::prelude::*;

use crate::text::str_eq;

verus! {

/// The set of character sequences held by a sequence of strings.
pub open spec fn strings_as_set(items: Seq<String>) -> Set<Seq<char>> {
    Set::new(|s: Seq<char>| exists|i: int| 0 <= i < items.len() && items[i]@ == s)
}

/// A set of strings with vector storage and linear membership tests.
pub struct StringSet {
    items: Vec<String>,
}

impl View for StringSet {
    type V = Set<Seq<char>>;

    closed spec fn view(&self) -> Set<Seq<char>> {
        strings_as_set(self.items@)
    }
}

impl StringSet {
    /// The empty set.
    pub fn new() -> (r: StringSet)
        ensures
            r@ == Set::<Seq<char>>::empty(),
    {
        let r = StringSet { items: Vec::new() };
        proof {
            assert(r@ =~= Set::<Seq<char>>::empty());
        }
        r
    }

    /// Membership test.
    pub fn contains(&self, s: &str) -> (r: bool)
        ensures
            r == self@.contains(s@),
    {
        let n = self.items.len();
        let mut i: usize = 0;
        while i < n
            invariant
                n == self.items@.len(),
                i <= n,
                forall|j: int| 0 <= j < i ==> self.items@[j]@ != s@,
            decreases n - i,
        {
            if str_eq(self.items[i].as_str(), s) {
                return true;
            }
            i = i + 1;
        }
        false
    }

    /// Adds a string; the set afterwards holds the old contents plus `s`.
    pub fn insert(&mut self, s: String)
        ensures
            final(self)@ == old(self)@.insert(s@),
    {
        let ghost sv = s@;
        if !self.contains(s.as_str()) {
            let ghost pre = self.items@;
            self.items.push(s);
            proof {
                assert forall|x: Seq<char>| self@.contains(x) implies old(self)@.insert(
                    sv,
                ).contains(x) by {
                    let k = choose|k: int| 0 <= k < self.items@.len() && self.items@[k]@ == x;
                    if k < pre.len() {
                        assert(pre[k]@ == x);
                    }
                }
                assert forall|x: Seq<char>| old(self)@.insert(sv).contains(x) implies self@.contains(
                    x,
                ) by {
                    if old(self)@.contains(x) {
                        let k = choose|k: int| 0 <= k < pre.len() && pre[k]@ == x;
                        assert(self.items@[k]@ == x);
                    } else {
                        assert(self.items@[pre.len() as int]@ == x);
                    }
                }
                assert(self@ =~= old(self)@.insert(sv));
            }
        } else {
            proof {
                assert(self@ =~= old(self)@.insert(sv));
            }
        }
    }

    /// Adds every element of another set into this one.
    pub fn extend(&mut self, other: &StringSet)
        ensures
            final(self)@ == old(self)@.union(other@),
    {
        let n = other.items.len();
        let mut i: usize = 0;
        while i < n
            invariant
                n == other.items@.len(),
                i <= n,
                self@ == old(self)@.union(strings_as_set(other.items@.subrange(0, i as int))),
            decreases n - i,
        {
            self.insert(other.items[i].clone());
            proof {
                assert(other.items@.subrange(0, i + 1 as int).drop_last() =~= other.items@.subrange(
                    0,
                    i as int,
                ));
                assert(strings_as_set(other.items@.subrange(0, i + 1 as int)) =~= strings_as_set(
                    other.items@.subrange(0, i as int),
                ).insert(other.items@[i as int]@)) by {
                    let small = other.items@.subrange(0, i as int);
                    let big = other.items@.subrange(0, i + 1 as int);
                    assert forall|s: Seq<char>| strings_as_set(big).contains(s) implies strings_as_set(
                        small,
                    ).insert(other.items@[i as int]@).contains(s) by {
                        let k = choose|k: int| 0 <= k < big.len() && big[k]@ == s;
                        if k < i {
                            assert(small[k]@ == s);
                        }
                    }
                    assert forall|s: Seq<char>|
                        strings_as_set(small).insert(
                            other.items@[i as int]@,
                        ).contains(s) implies strings_as_set(big).contains(s) by {
                        if strings_as_set(small).contains(s) {
                            let k = choose|k: int| 0 <= k < small.len() && small[k]@ == s;
                            assert(big[k]@ == s);
                        } else {
                            assert(big[i as int]@ == s);
                        }
                    }
                }
                assert(self@ =~= old(self)@.union(
                    strings_as_set(other.items@.subrange(0, i + 1 as int)),
                ));
            }
            i = i + 1;
        }
        proof {
            assert(other.items@.subrange(0, n as int) =~= other.items@);
            assert(self@ =~= old(self)@.union(other@));
        }
    }

    /// Read access to the stored strings; every stored string is a member.
    pub fn items(&self) -> (r: &Vec<String>)
        ensures
            forall|i: int| 0 <= i < r@.len() ==> self@.contains(#[trigger] r@[i]@),
            forall|s: Seq<char>| self@.contains(s) ==> exists|i: int|
                0 <= i < r@.len() && r@[i]@ == s,
    {
        &self.items
    }
}

} // verus!
