//! A set of names that can be walked, such as the conversations the terminal
//! client has open; and the hashed set of names the server keeps where it only
//! adds, removes and asks.

use vstd::prelude::*;
pub use vstd::hash_set::StringHashSet;
use crate::text::{str_eq, string_views};

verus! {

/// A set of names, each held once, in a list: the names are walked (the client
/// leaves each open conversation on quitting), and `StringHashSet` specifies no walk
/// over its names.
#[derive(Debug, Clone)]
pub struct NameSet {
    items: Vec<String>,
}

/// The views of `v` are pairwise different.
pub open spec fn distinct_views(v: Seq<String>) -> bool {
    forall|i: int, j: int| 0 <= i < j < v.len() ==> #[trigger] v[i]@ != #[trigger] v[j]@
}

impl View for NameSet {
    type V = Set<Seq<char>>;

    closed spec fn view(&self) -> Set<Seq<char>> {
        Set::new(|n: Seq<char>| string_views(self.items@).contains(n))
    }
}

impl NameSet {
    /// No name is held twice.
    pub closed spec fn wf(&self) -> bool {
        distinct_views(self.items@)
    }

    /// The empty set.
    pub fn new() -> (s: NameSet)
        ensures
            s.wf(),
            s@ == Set::<Seq<char>>::empty(),
    {
        let s = NameSet { items: Vec::new() };
        assert(s@ =~= Set::<Seq<char>>::empty());
        s
    }

    fn position(&self, name: &str) -> (r: Option<usize>)
        ensures
            match r {
                Some(i) => i < self.items.len() && self.items@[i as int]@ == name@,
                None => !self@.contains(name@),
            },
    {
        let mut i: usize = 0;
        while i < self.items.len()
            invariant
                i <= self.items.len(),
                forall|j: int| 0 <= j < i ==> self.items@[j]@ != name@,
            decreases self.items.len() - i,
        {
            if str_eq(self.items[i].as_str(), name) {
                return Some(i);
            }
            i = i + 1;
        }
        assert(!string_views(self.items@).contains(name@)) by {
            if string_views(self.items@).contains(name@) {
                let k = choose|k: int| 0 <= k < string_views(self.items@).len() && string_views(self.items@)[k] == name@;
                assert(self.items@[k]@ == name@);
            }
        }
        None
    }

    /// Whether `name` is in the set.
    pub fn contains(&self, name: &str) -> (r: bool)
        ensures
            r == self@.contains(name@),
    {
        match self.position(name) {
            Some(i) => {
                assert(string_views(self.items@)[i as int] == name@);
                true
            },
            None => false,
        }
    }

    /// Adds `name`; true where it was not in the set before.
    pub fn insert(&mut self, name: String) -> (added: bool)
        requires
            old(self).wf(),
        ensures
            final(self).wf(),
            added == !old(self)@.contains(name@),
            final(self)@ == old(self)@.insert(name@),
    {
        if self.contains(name.as_str()) {
            assert(self@ =~= old(self)@.insert(name@));
            false
        } else {
            let ghost nv = name@;
            let ghost before = self.items@;
            self.items.push(name);
            assert(string_views(self.items@) =~= string_views(before).push(nv));
            assert forall|i: int, j: int| 0 <= i < j < self.items@.len() implies #[trigger] self.items@[i]@ != #[trigger] self.items@[j]@ by {
                if j == before.len() {
                    assert(string_views(before)[i] == before[i]@);
                }
            }
            assert forall|n: Seq<char>| #[trigger] self@.contains(n) == old(self)@.insert(nv).contains(n) by {
                if string_views(self.items@).contains(n) && n != nv {
                    let k = choose|k: int| 0 <= k < string_views(self.items@).len() && string_views(self.items@)[k] == n;
                    assert(string_views(before)[k] == n);
                }
                if string_views(before).contains(n) {
                    let k = choose|k: int| 0 <= k < string_views(before).len() && string_views(before)[k] == n;
                    assert(string_views(self.items@)[k] == n);
                }
                if n == nv {
                    assert(string_views(self.items@)[before.len() as int] == n);
                }
            }
            assert(self@ =~= old(self)@.insert(nv));
            true
        }
    }

    /// Removes `name`; true where it was in the set.
    pub fn remove(&mut self, name: &str) -> (removed: bool)
        requires
            old(self).wf(),
        ensures
            final(self).wf(),
            removed == old(self)@.contains(name@),
            final(self)@ == old(self)@.remove(name@),
    {
        match self.position(name) {
            Some(i) => {
                let ghost before = self.items@;
                assert(string_views(before)[i as int] == name@);
                self.items.remove(i);
                assert(self.items@ =~= before.remove(i as int));
                assert forall|n: Seq<char>| #[trigger] self@.contains(n) == old(self)@.remove(name@).contains(n) by {
                    if string_views(self.items@).contains(n) {
                        let k = choose|k: int| 0 <= k < string_views(self.items@).len() && string_views(self.items@)[k] == n;
                        if k < i {
                            assert(string_views(before)[k] == n);
                        } else {
                            assert(string_views(before)[k + 1] == n);
                        }
                    }
                    if n != name@ && string_views(before).contains(n) {
                        let k = choose|k: int| 0 <= k < string_views(before).len() && string_views(before)[k] == n;
                        if k < i {
                            assert(string_views(self.items@)[k] == n);
                        } else {
                            assert(k != i);
                            assert(string_views(self.items@)[k - 1] == n);
                        }
                    }
                }
                assert(self@ =~= old(self)@.remove(name@));
                true
            },
            None => {
                assert(self@ =~= old(self)@.remove(name@));
                false
            },
        }
    }

    /// The names in the set, each once.
    pub fn to_vec(&self) -> (r: Vec<String>)
        requires
            self.wf(),
        ensures
            distinct_views(r@),
            forall|n: Seq<char>| self@.contains(n) <==> string_views(r@).contains(n),
    {
        let r = crate::message::copy_strings(&self.items);
        assert(string_views(r@).len() == r@.len());
        assert(string_views(self.items@).len() == self.items@.len());
        assert forall|i: int, j: int| 0 <= i < j < r@.len() implies #[trigger] r@[i]@ != #[trigger] r@[j]@ by {
            assert(r@[i]@ == string_views(r@)[i]);
            assert(r@[j]@ == string_views(r@)[j]);
            assert(string_views(r@)[i] == string_views(self.items@)[i]);
            assert(string_views(r@)[j] == string_views(self.items@)[j]);
            assert(self.items@[i]@ == string_views(self.items@)[i]);
            assert(self.items@[j]@ == string_views(self.items@)[j]);
        }
        r
    }
}

} // verus!
