//! A table of lists keyed by room name, each list growing at its end and updated
//! in place.

use vstd::prelude::*;
use vstd::hash_map::StringHashMap;

verus! {

/// Lists of items keyed by room name. The map gives each room the slot of its list,
/// and the lists themselves stand in a `Vec`: `StringHashMap` hands out no mutable
/// access to a stored value, and its `remove` does not give the value back, so a list
/// held in the map could only grow by being copied whole.
pub struct RoomTable<T> {
    slots: StringHashMap<usize>,
    names: Vec<String>,
    lists: Vec<Vec<T>>,
}

impl<T> RoomTable<T> {
    /// Every room has a slot of its own, and every slot belongs to one room.
    pub closed spec fn wf(&self) -> bool {
        &&& self.names.len() == self.lists.len()
        &&& forall|r: Seq<char>| #[trigger]
            self.slots@.contains_key(r) ==> self.slots@[r] < self.names.len()
                && self.names@[self.slots@[r] as int]@ == r
        &&& forall|s: int|
            0 <= s < self.names.len() ==> self.slots@.contains_key(#[trigger] self.names@[s]@)
                && self.slots@[self.names@[s]@] == s
    }

    /// The list of each room.
    pub closed spec fn view(&self) -> Map<Seq<char>, Seq<T>> {
        Map::new(
            |r: Seq<char>| self.slots@.contains_key(r),
            |r: Seq<char>| self.lists@[self.slots@[r] as int]@,
        )
    }

    /// The list of `room`, empty where the room has none.
    pub open spec fn list_of(&self, room: Seq<char>) -> Seq<T> {
        if self.view().contains_key(room) {
            self.view()[room]
        } else {
            Seq::empty()
        }
    }

    /// A table without rooms.
    pub fn new() -> (t: Self)
        ensures
            t.wf(),
            t.view() == Map::<Seq<char>, Seq<T>>::empty(),
    {
        let t = RoomTable { slots: StringHashMap::new(), names: Vec::new(), lists: Vec::new() };
        assert(t.view() =~= Map::<Seq<char>, Seq<T>>::empty());
        t
    }

    fn find(&self, room: &str) -> (r: Option<usize>)
        requires
            self.wf(),
        ensures
            match r {
                Some(s) => self.slots@.contains_key(room@) && self.slots@[room@] == s && s
                    < self.lists.len(),
                None => !self.slots@.contains_key(room@),
            },
    {
        match self.slots.get(room) {
            Some(s) => Some(*s),
            None => None,
        }
    }

    /// Appends `item` to the list of `room`, creating the room where it has none, and
    /// returns the position of the item.
    pub fn push(&mut self, room: &str, item: T) -> (pos: usize)
        requires
            old(self).wf(),
        ensures
            final(self).wf(),
            pos == old(self).list_of(room@).len(),
            final(self).view() == old(self).view().insert(room@, old(self).list_of(room@).push(item)),
    {
        match self.find(room) {
            Some(s) => {
                let pos = self.lists[s].len();
                let ghost before = self.view();
                self.lists[s].push(item);
                assert(self.view() =~= before.insert(room@, before[room@].push(item))) by {
                    assert forall|r: Seq<char>| #[trigger] self.view().contains_key(r) && r != room@
                        implies self.view()[r] == before[r] by {
                        assert(self.names@[self.slots@[r] as int]@ == r);
                    }
                }
                pos
            },
            None => {
                let s = self.lists.len();
                let ghost before = self.view();
                self.names.push(room.to_owned());
                let mut list: Vec<T> = Vec::new();
                list.push(item);
                self.lists.push(list);
                self.slots.insert(room.to_owned(), s);
                assert forall|r: Seq<char>| #[trigger]
                    self.slots@.contains_key(r) implies self.slots@[r] < self.names.len()
                        && self.names@[self.slots@[r] as int]@ == r by {
                    if r != room@ {
                        assert(old(self).slots@.contains_key(r));
                    }
                }
                assert forall|i: int|
                    0 <= i < self.names.len() implies self.slots@.contains_key(
                        #[trigger] self.names@[i]@,
                    ) && self.slots@[self.names@[i]@] == i by {
                    if i < s {
                        assert(old(self).names@[i] == self.names@[i]);
                        assert(old(self).slots@.contains_key(self.names@[i]@));
                    }
                }
                assert(self.view() =~= before.insert(room@, Seq::<T>::empty().push(item)));
                0
            },
        }
    }

    /// The list of `room`, where it has one.
    pub fn list(&self, room: &str) -> (r: Option<&Vec<T>>)
        requires
            self.wf(),
        ensures
            match r {
                Some(l) => self.view().contains_key(room@) && l@ == self.view()[room@],
                None => !self.view().contains_key(room@),
            },
    {
        match self.find(room) {
            Some(s) => Some(&self.lists[s]),
            None => None,
        }
    }

    /// The item at `pos` in the list of `room`.
    pub fn get(&self, room: &str, pos: usize) -> (r: &T)
        requires
            self.wf(),
            self.view().contains_key(room@),
            pos < self.view()[room@].len(),
        ensures
            *r == self.view()[room@][pos as int],
    {
        let s = self.find(room).unwrap();
        &self.lists[s][pos]
    }

    /// Puts `item` at `pos` in the list of `room`.
    pub fn set(&mut self, room: &str, pos: usize, item: T)
        requires
            old(self).wf(),
            old(self).view().contains_key(room@),
            pos < old(self).view()[room@].len(),
        ensures
            final(self).wf(),
            final(self).view() == old(self).view().insert(
                room@,
                old(self).view()[room@].update(pos as int, item),
            ),
    {
        let s = self.find(room).unwrap();
        let ghost before = self.view();
        self.lists[s].set(pos, item);
        assert(self.view() =~= before.insert(room@, before[room@].update(pos as int, item))) by {
            assert forall|r: Seq<char>| #[trigger] self.view().contains_key(r) && r != room@
                implies self.view()[r] == before[r] by {
                assert(self.names@[self.slots@[r] as int]@ == r);
            }
        }
    }

    /// Removes the item at `pos` from the list of `room`.
    pub fn remove_at(&mut self, room: &str, pos: usize)
        requires
            old(self).wf(),
            old(self).view().contains_key(room@),
            pos < old(self).view()[room@].len(),
        ensures
            final(self).wf(),
            final(self).view() == old(self).view().insert(
                room@,
                old(self).view()[room@].remove(pos as int),
            ),
    {
        let s = self.find(room).unwrap();
        let ghost before = self.view();
        self.lists[s].remove(pos);
        assert(self.view() =~= before.insert(room@, before[room@].remove(pos as int))) by {
            assert forall|r: Seq<char>| #[trigger] self.view().contains_key(r) && r != room@
                implies self.view()[r] == before[r] by {
                assert(self.names@[self.slots@[r] as int]@ == r);
            }
        }
    }
}

} // verus!
