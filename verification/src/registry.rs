//! Who is in which public room, and what was said in each room, as the server keeps it.

use vstd::prelude::*;
use crate::message::{ChatMessage, MessageView, copy_strings};
use vstd::hash_set::StringHashSet;
use crate::names::distinct_views;
use crate::rooms::{is_private_room, is_private_spec, participants_spec, private_room_participants};
use crate::table::RoomTable;
use crate::text::{str_eq, string_views};

verus! {

/// The set of names a list holds.
pub open spec fn name_set(l: Seq<String>) -> Set<Seq<char>> {
    Set::new(|u: Seq<char>| string_views(l).contains(u))
}

/// What the server keeps of its rooms: the members of each public room, and the
/// messages said in each room.
pub struct RoomsModel {
    pub members: Map<Seq<char>, Set<Seq<char>>>,
    pub history: Map<Seq<char>, Seq<MessageView>>,
}

impl RoomsModel {
    /// The members of `room`, none where it has none.
    pub open spec fn members_of(self, room: Seq<char>) -> Set<Seq<char>> {
        if self.members.contains_key(room) {
            self.members[room]
        } else {
            Set::empty()
        }
    }

    /// The rooms after `user` enters `room` on a connection that had joined `joined`.
    pub open spec fn after_join(self, joined: Set<Seq<char>>, user: Seq<char>, room: Seq<char>) -> RoomsModel {
        if !joined.contains(room) && !is_private_spec(room) {
            RoomsModel {
                members: self.members.insert(room, self.members_of(room).insert(user)),
                history: self.history,
            }
        } else {
            self
        }
    }

    /// The rooms after `user` leaves `room` on a connection that had joined `joined`.
    pub open spec fn after_leave(self, joined: Set<Seq<char>>, user: Seq<char>, room: Seq<char>) -> RoomsModel {
        if joined.contains(room) && !is_private_spec(room) && self.members.contains_key(room) {
            RoomsModel {
                members: self.members.insert(room, self.members[room].remove(user)),
                history: self.history,
            }
        } else {
            self
        }
    }

    /// The messages said in `room`.
    pub open spec fn history_of(self, room: Seq<char>) -> Seq<MessageView> {
        if self.history.contains_key(room) {
            self.history[room]
        } else {
            Seq::empty()
        }
    }
}

/// The members of each public room, and the messages said in each room.
pub struct ServerRooms {
    room_members: RoomTable<String>,
    rooms: RoomTable<ChatMessage>,
}

impl View for ServerRooms {
    type V = RoomsModel;

    closed spec fn view(&self) -> RoomsModel {
        RoomsModel {
            members: self.room_members.view().map_values(|l: Seq<String>| name_set(l)),
            history: self.rooms.view().map_values(|l: Seq<ChatMessage>| l.map_values(|m: ChatMessage| m@)),
        }
    }
}

impl ServerRooms {
    /// Both tables are sound and no room lists a member twice.
    pub closed spec fn wf(&self) -> bool {
        &&& self.room_members.wf()
        &&& self.rooms.wf()
        &&& forall|r: Seq<char>| #[trigger]
            self.room_members.view().contains_key(r) ==> distinct_views(self.room_members.view()[r])
    }

    /// No rooms, no messages.
    pub fn new() -> (s: ServerRooms)
        ensures
            s.wf(),
            s@.members == Map::<Seq<char>, Set<Seq<char>>>::empty(),
            s@.history == Map::<Seq<char>, Seq<MessageView>>::empty(),
    {
        let s = ServerRooms { room_members: RoomTable::new(), rooms: RoomTable::new() };
        assert(s@.members =~= Map::<Seq<char>, Set<Seq<char>>>::empty());
        assert(s@.history =~= Map::<Seq<char>, Seq<MessageView>>::empty());
        s
    }

    fn member_position(&self, room: &str, user: &str) -> (r: Option<usize>)
        requires
            self.wf(),
        ensures
            match r {
                Some(i) => self.room_members.view().contains_key(room@) && i
                    < self.room_members.view()[room@].len()
                    && self.room_members.view()[room@][i as int]@ == user@,
                None => !self@.members_of(room@).contains(user@),
            },
    {
        match self.room_members.list(room) {
            Some(list) => {
                let mut i: usize = 0;
                while i < list.len()
                    invariant
                        i <= list.len(),
                        self.room_members.view().contains_key(room@),
                        list@ == self.room_members.view()[room@],
                        forall|j: int| 0 <= j < i ==> list@[j]@ != user@,
                    decreases list.len() - i,
                {
                    if str_eq(list[i].as_str(), user) {
                        return Some(i);
                    }
                    i = i + 1;
                }
                assert(!string_views(list@).contains(user@)) by {
                    if string_views(list@).contains(user@) {
                        let k = choose|k: int| 0 <= k < string_views(list@).len() && string_views(list@)[k] == user@;
                        assert(list@[k]@ == user@);
                    }
                }
                None
            },
            None => None,
        }
    }

    /// The members of `room`, each once.
    pub fn members(&self, room: &str) -> (r: Vec<String>)
        requires
            self.wf(),
        ensures
            distinct_views(r@),
            name_set(r@) == self@.members_of(room@),
    {
        match self.room_members.list(room) {
            Some(list) => {
                let r = copy_strings(list);
                assert(string_views(r@).len() == r@.len());
                assert(string_views(list@).len() == list@.len());
                assert forall|i: int, j: int| 0 <= i < j < r@.len() implies #[trigger] r@[i]@ != #[trigger] r@[j]@ by {
                    assert(r@[i]@ == string_views(r@)[i]);
                    assert(r@[j]@ == string_views(r@)[j]);
                    assert(list@[i]@ == string_views(list@)[i]);
                    assert(list@[j]@ == string_views(list@)[j]);
                }
                assert(name_set(r@) =~= self@.members_of(room@));
                r
            },
            None => {
                let r: Vec<String> = Vec::new();
                assert(name_set(r@) =~= self@.members_of(room@)) by {
                    assert(string_views(r@) =~= Seq::<Seq<char>>::empty());
                }
                r
            },
        }
    }

    /// Puts `user` among the members of `room`.
    pub fn add_member(&mut self, room: &str, user: &str)
        requires
            old(self).wf(),
        ensures
            final(self).wf(),
            final(self)@.history == old(self)@.history,
            final(self)@.members == old(self)@.members.insert(
                room@,
                old(self)@.members_of(room@).insert(user@),
            ),
    {
        let ghost old_model = self@;
        let ghost old_table = self.room_members.view();
        match self.member_position(room, user) {
            Some(_) => {
                proof {
                    let l = old_table[room@];
                    assert(old_model.members_of(room@).contains(user@)) by {
                        let i = choose|i: int| 0 <= i < l.len() && l[i]@ == user@;
                        assert(string_views(l)[i] == user@);
                    }
                    assert(old_model.members_of(room@).insert(user@) =~= old_model.members_of(room@));
                    assert(self@.members =~= old_model.members.insert(room@, old_model.members_of(room@).insert(user@)));
                }
            },
            None => {
                let name = user.to_owned();
                let ghost nm = name;
                self.room_members.push(room, name);
                proof {
                    let new_table = self.room_members.view();
                    let ol = if old_table.contains_key(room@) { old_table[room@] } else { Seq::<String>::empty() };
                    assert(new_table[room@] == ol.push(nm));
                    assert(string_views(ol.push(nm)) =~= string_views(ol).push(user@));
                    assert forall|r: Seq<char>| #[trigger] new_table.contains_key(r) implies distinct_views(new_table[r]) by {
                        if r == room@ {
                            assert forall|i: int, j: int| 0 <= i < j < ol.push(nm).len() implies #[trigger] ol.push(nm)[i]@ != #[trigger] ol.push(nm)[j]@ by {
                                if j == ol.len() {
                                    assert(string_views(ol)[i] == ol[i]@);
                                    assert(!string_views(ol).contains(user@));
                                }
                            }
                        }
                    }
                    assert(old_model.members_of(room@) =~= name_set(ol));
                    assert forall|u: Seq<char>| #[trigger] name_set(ol.push(nm)).contains(u) == name_set(ol).insert(user@).contains(u) by {
                        let sv = string_views(ol.push(nm));
                        if sv.contains(u) && u != user@ {
                            let k = choose|k: int| 0 <= k < sv.len() && sv[k] == u;
                            assert(k < ol.len());
                            assert(string_views(ol)[k] == u);
                        }
                        if string_views(ol).contains(u) {
                            let k = choose|k: int| 0 <= k < string_views(ol).len() && string_views(ol)[k] == u;
                            assert(sv[k] == u);
                        }
                        if u == user@ {
                            assert(sv[ol.len() as int] == u);
                        }
                    }
                    assert(name_set(ol.push(nm)) =~= old_model.members_of(room@).insert(user@));
                    assert(self@.members =~= old_model.members.insert(room@, old_model.members_of(room@).insert(user@)));
                }
            },
        }
    }

    /// Takes `user` out of the members of `room`, where the room has members.
    pub fn remove_member(&mut self, room: &str, user: &str)
        requires
            old(self).wf(),
        ensures
            final(self).wf(),
            final(self)@.history == old(self)@.history,
            final(self)@.members == (if old(self)@.members.contains_key(room@) {
                old(self)@.members.insert(room@, old(self)@.members[room@].remove(user@))
            } else {
                old(self)@.members
            }),
    {
        let ghost old_model = self@;
        let ghost old_table = self.room_members.view();
        match self.member_position(room, user) {
            Some(i) => {
                self.room_members.remove_at(room, i);
                proof {
                    let ol = old_table[room@];
                    let nl = ol.remove(i as int);
                    assert(string_views(nl) =~= string_views(ol).remove(i as int));
                    let new_table = self.room_members.view();
                    assert forall|r: Seq<char>| #[trigger] new_table.contains_key(r) implies distinct_views(new_table[r]) by {
                        if r == room@ {
                            assert forall|a: int, b: int| 0 <= a < b < nl.len() implies #[trigger] nl[a]@ != #[trigger] nl[b]@ by {
                                let a2 = if a < i { a } else { a + 1 };
                                let b2 = if b < i { b } else { b + 1 };
                                assert(nl[a] == ol[a2]);
                                assert(nl[b] == ol[b2]);
                            }
                        }
                    }
                    assert forall|u: Seq<char>| #[trigger] name_set(nl).contains(u) == old_model.members[room@].remove(user@).contains(u) by {
                        if string_views(nl).contains(u) {
                            let k = choose|k: int| 0 <= k < string_views(nl).len() && string_views(nl)[k] == u;
                            let k2 = if k < i { k } else { k + 1 };
                            assert(nl[k] == ol[k2]);
                            assert(string_views(ol)[k2] == u);
                            assert(k2 != i);
                            assert(ol[k2]@ != ol[i as int]@);
                        }
                        if u != user@ && string_views(ol).contains(u) {
                            let k = choose|k: int| 0 <= k < string_views(ol).len() && string_views(ol)[k] == u;
                            assert(k != i);
                            let k2 = if k < i { k } else { k - 1 };
                            assert(nl[k2] == ol[k]);
                            assert(string_views(nl)[k2] == u);
                        }
                    }
                    assert(name_set(nl) =~= old_model.members[room@].remove(user@));
                    assert(self@.members =~= old_model.members.insert(room@, old_model.members[room@].remove(user@)));
                }
            },
            None => {
                proof {
                    if old_model.members.contains_key(room@) {
                        assert(old_model.members[room@].remove(user@) =~= old_model.members[room@]);
                        assert(self@.members =~= old_model.members.insert(room@, old_model.members[room@].remove(user@)));
                    }
                }
            },
        }
    }

    /// Keeps `msg` at the end of what was said in its room.
    pub fn record_message(&mut self, msg: ChatMessage)
        requires
            old(self).wf(),
        ensures
            final(self).wf(),
            final(self)@.members == old(self)@.members,
            final(self)@.history == old(self)@.history.insert(
                msg.room@,
                old(self)@.history_of(msg.room@).push(msg@),
            ),
    {
        let ghost old_model = self@;
        let ghost old_table = self.rooms.view();
        let ghost mv = msg@;
        let ghost m = msg;
        let room = msg.room.clone();
        self.rooms.push(room.as_str(), msg);
        proof {
            let target = old_model.history.insert(mv.room, old_model.history_of(mv.room).push(mv));
            assert(self@.history.dom() =~= target.dom());
            assert forall|k: Seq<char>| #[trigger] self@.history.contains_key(k) implies self@.history[k] == target[k] by {
                if k == mv.room {
                    assert(self@.history[k] =~= target[k]);
                }
            }
            assert(self@.history =~= target);
        }
    }

    /// Enters `room` (the checked, trimmed name) for `user` on a connection that has
    /// joined `joined`: the room joins the connection's rooms and, where the connection
    /// had not joined it and it is a public room, the user joins its members.
    pub fn join_room(&mut self, joined: &mut StringHashSet, user: &str, room: &str)
        requires
            old(self).wf(),
        ensures
            final(self).wf(),
            final(joined)@ == old(joined)@.insert(room@),
            final(self)@ == old(self)@.after_join(old(joined)@, user@, room@),
    {
        if joined.insert(room.to_owned()) {
            if !is_private_room(room) {
                self.add_member(room, user);
            }
        }
    }

    /// Leaves `room` for `user` on a connection that has joined `joined`: where the
    /// connection had joined it, the room leaves its rooms and, for a public room, the
    /// user leaves its members.
    pub fn leave_room(&mut self, joined: &mut StringHashSet, user: &str, room: &str)
        requires
            old(self).wf(),
        ensures
            final(self).wf(),
            final(joined)@ == old(joined)@.remove(room@),
            final(self)@ == old(self)@.after_leave(old(joined)@, user@, room@),
    {
        if !joined.remove(room) {
            return;
        }
        if !is_private_room(room) {
            self.remove_member(room, user);
        }
    }

    /// Who receives what is said in `room`: the participants of a private room, the
    /// members of any other room.
    pub fn recipients(&self, room: &str) -> (r: Vec<String>)
        requires
            self.wf(),
        ensures
            is_private_spec(room@) ==> string_views(r@) == participants_spec(room@),
            !is_private_spec(room@) ==> name_set(r@) == self@.members_of(room@),
            !is_private_spec(room@) ==> distinct_views(r@),
    {
        if is_private_room(room) {
            private_room_participants(room)
        } else {
            self.members(room)
        }
    }
}

/// Entering a public room makes the user one of its members; leaving it again, on
/// the same connection, takes the user out and leaves every other room as it was.
pub proof fn law_leave_undoes_join(m: RoomsModel, joined: Set<Seq<char>>, user: Seq<char>, room: Seq<char>, other: Seq<char>)
    requires
        !joined.contains(room),
        !is_private_spec(room),
        other != room,
    ensures
        m.after_join(joined, user, room).members_of(room).contains(user),
        !m.after_join(joined, user, room).after_leave(joined.insert(room), user, room).members_of(room).contains(user),
        m.after_join(joined, user, room).after_leave(joined.insert(room), user, room).members_of(other) == m.members_of(other),
        m.after_join(joined, user, room).after_leave(joined.insert(room), user, room).history == m.history,
{
}

/// Entering a room that the connection has joined already changes nothing.
pub proof fn law_join_idempotent(m: RoomsModel, joined: Set<Seq<char>>, user: Seq<char>, room: Seq<char>)
    requires
        joined.contains(room),
    ensures
        m.after_join(joined, user, room) == m,
{
}

} // verus!
