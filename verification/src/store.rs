//! The in-memory message store: the messages of each room in the order they came,
//! and an index from message id to where the message stands.

use vstd::prelude::*;
use vstd::hash_map::StringHashMap;
use crate::message::{ChatMessage, MessageView};
use crate::table::RoomTable;
use crate::text::str_eq;

verus! {

/// The message type of a message that was taken back.
pub open spec fn deleted_type() -> Seq<char> {
    seq!['d', 'e', 'l', 'e', 't', 'e', 'd']
}

/// The message type of a message that was changed.
pub open spec fn edited_type() -> Seq<char> {
    seq!['e', 'd', 'i', 't', 'e', 'd']
}

/// The text that a taken-back message shows.
pub open spec fn deleted_text() -> Seq<char> {
    "[Tin nhắn đã bị xóa]"@
}

/// The message types that their sender may still change or take back.
pub open spec fn modifiable_type(t: Seq<char>) -> bool {
    ||| t == seq!['m', 'e', 's', 's', 'a', 'g', 'e']
    ||| t == seq!['m', 'e', 'd', 'i', 'a']
    ||| t == edited_type()
}

/// `m` taken back: its type becomes `deleted`, its text the deletion notice, its media gone.
pub open spec fn deleted_view(m: MessageView) -> MessageView {
    MessageView { msg_type: deleted_type(), content: deleted_text(), media: None, ..m }
}

/// `m` with the text `content`: its type becomes `edited`, its media gone.
pub open spec fn edited_view(m: MessageView, content: Seq<char>) -> MessageView {
    MessageView { msg_type: edited_type(), content, media: None, ..m }
}

/// What a store holds: the messages of each room, and where each message id points.
pub struct StoreModel {
    pub rooms: Map<Seq<char>, Seq<MessageView>>,
    pub index: Map<Seq<char>, (Seq<char>, int)>,
}

impl StoreModel {
    /// Every id points at a message of that id.
    pub open spec fn wf(self) -> bool {
        forall|id: Seq<char>| #[trigger]
            self.index.contains_key(id) ==> {
                let (r, p) = self.index[id];
                &&& self.rooms.contains_key(r)
                &&& 0 <= p < self.rooms[r].len()
                &&& self.rooms[r][p].message_id == id
            }
    }

    /// The messages of `room`, none where it has none.
    pub open spec fn room(self, room: Seq<char>) -> Seq<MessageView> {
        if self.rooms.contains_key(room) {
            self.rooms[room]
        } else {
            Seq::empty()
        }
    }

    /// `m` stored at the end of its room, its id pointing at it.
    pub open spec fn add(self, m: MessageView) -> StoreModel {
        StoreModel {
            rooms: self.rooms.insert(m.room, self.room(m.room).push(m)),
            index: self.index.insert(m.message_id, (m.room, self.room(m.room).len() as int)),
        }
    }

    /// The message that `id` points at.
    pub open spec fn lookup(self, id: Seq<char>) -> Option<MessageView> {
        if self.index.contains_key(id) {
            let (r, p) = self.index[id];
            if self.rooms.contains_key(r) && 0 <= p < self.rooms[r].len() {
                Some(self.rooms[r][p])
            } else {
                None
            }
        } else {
            None
        }
    }

    /// The message that `id` points at replaced by `m`.
    pub open spec fn replace(self, id: Seq<char>, m: MessageView) -> StoreModel {
        let (r, p) = self.index[id];
        StoreModel { rooms: self.rooms.insert(r, self.rooms[r].update(p, m)), index: self.index }
    }

    /// Taking back the message `id`: the store after it and the message as it now
    /// stands, or no change and nothing where there is no such message or it was
    /// taken back already.
    pub open spec fn delete(self, id: Seq<char>) -> (StoreModel, Option<MessageView>) {
        match self.lookup(id) {
            Some(m) => if m.msg_type == deleted_type() {
                (self, None)
            } else {
                (self.replace(id, deleted_view(m)), Some(deleted_view(m)))
            },
            None => (self, None),
        }
    }

    /// Changing the text of message `id`, on the same terms as taking it back.
    pub open spec fn edit(self, id: Seq<char>, content: Seq<char>) -> (StoreModel, Option<MessageView>) {
        match self.lookup(id) {
            Some(m) => if m.msg_type == deleted_type() {
                (self, None)
            } else {
                (self.replace(id, edited_view(m, content)), Some(edited_view(m, content)))
            },
            None => (self, None),
        }
    }

    /// `username` sent message `id` and may still change it.
    pub open spec fn can_modify(self, id: Seq<char>, username: Seq<char>) -> bool {
        match self.lookup(id) {
            Some(m) => m.username == username && modifiable_type(m.msg_type),
            None => false,
        }
    }
}

/// A stored message is found again by its id, and it stands at the end of its room.
pub proof fn law_get_after_add(s: StoreModel, m: MessageView)
    ensures
        s.add(m).lookup(m.message_id) == Some(m),
        s.add(m).room(m.room) == s.room(m.room).push(m),
{
}

/// Storing a message changes no other room.
pub proof fn law_add_leaves_other_rooms(s: StoreModel, m: MessageView, room: Seq<char>)
    requires
        room != m.room,
    ensures
        s.add(m).room(room) == s.room(room),
{
}

/// Every operation keeps every id pointing at a message of that id.
pub proof fn law_operations_keep_wf(s: StoreModel, m: MessageView, id: Seq<char>, content: Seq<char>)
    requires
        s.wf(),
    ensures
        s.add(m).wf(),
        s.delete(id).0.wf(),
        s.edit(id, content).0.wf(),
{
    let a = s.add(m);
    assert forall|i: Seq<char>| #[trigger] a.index.contains_key(i) implies {
        let (r, p) = a.index[i];
        &&& a.rooms.contains_key(r)
        &&& 0 <= p < a.rooms[r].len()
        &&& a.rooms[r][p].message_id == i
    } by {
        if i != m.message_id {
            let (r, p) = s.index[i];
            if r == m.room {
                assert(a.rooms[r][p] == s.rooms[r][p]);
            }
        }
    }
    lemma_replace_keeps_wf(s, id);
}

proof fn lemma_replace_keeps_wf(s: StoreModel, id: Seq<char>)
    requires
        s.wf(),
    ensures
        forall|c: Seq<char>| #[trigger] s.edit(id, c).0.wf(),
        s.delete(id).0.wf(),
{
    if s.lookup(id) is Some {
        let (r, p) = s.index[id];
        let m = s.rooms[r][p];
        assert forall|n: MessageView| n.message_id == m.message_id implies #[trigger] s.replace(id, n).wf() by {
            let t = s.replace(id, n);
            assert forall|i: Seq<char>| #[trigger] t.index.contains_key(i) implies {
                let (r2, p2) = t.index[i];
                &&& t.rooms.contains_key(r2)
                &&& 0 <= p2 < t.rooms[r2].len()
                &&& t.rooms[r2][p2].message_id == i
            } by {
                let (r2, p2) = s.index[i];
                if r2 == r && p2 != p {
                    assert(t.rooms[r2][p2] == s.rooms[r2][p2]);
                }
            }
        }
        assert(deleted_view(m).message_id == m.message_id);
        assert forall|c: Seq<char>| #[trigger] s.edit(id, c).0.wf() by {
            assert(edited_view(m, c).message_id == m.message_id);
        }
    }
}

/// A message taken back is found again as taken back, and cannot be taken back,
/// changed, or claimed as changeable a second time.
pub proof fn law_delete_is_final(s: StoreModel, id: Seq<char>, content: Seq<char>, username: Seq<char>)
    requires
        s.wf(),
        s.delete(id).1 is Some,
    ensures
        s.delete(id).0.lookup(id) == s.delete(id).1,
        s.delete(id).1.unwrap().msg_type == deleted_type(),
        s.delete(id).0.delete(id).1 is None,
        s.delete(id).0.edit(id, content).1 is None,
        !s.delete(id).0.can_modify(id, username),
{
    assert(!modifiable_type(deleted_type())) by {
        assert(deleted_type()[0] != seq!['m', 'e', 's', 's', 'a', 'g', 'e'][0]);
        assert(deleted_type()[0] != seq!['m', 'e', 'd', 'i', 'a'][0]);
        assert(deleted_type().len() != edited_type().len());
    }
}

/// Changing a message keeps its id, sender and room, gives it the new text, and
/// leaves it found by its id as changed.
pub proof fn law_edit_keeps_identity(s: StoreModel, id: Seq<char>, content: Seq<char>)
    requires
        s.wf(),
        s.edit(id, content).1 is Some,
    ensures
        ({
            let e = s.edit(id, content).1.unwrap();
            let m = s.lookup(id).unwrap();
            &&& e.message_id == id
            &&& e.username == m.username
            &&& e.room == m.room
            &&& e.content == content
            &&& e.msg_type == edited_type()
            &&& s.edit(id, content).0.lookup(id) == Some(e)
        }),
{
}

/// Taking back or changing a message moves no message: every room keeps its length.
pub proof fn law_rooms_keep_length(s: StoreModel, id: Seq<char>, content: Seq<char>, room: Seq<char>)
    requires
        s.wf(),
    ensures
        s.delete(id).0.room(room).len() == s.room(room).len(),
        s.edit(id, content).0.room(room).len() == s.room(room).len(),
{
}

/// Every message not taken back yet can be taken back, whatever it went through
/// before: the answer is the message as taken back, and it is then found so.
pub proof fn law_live_message_can_be_deleted(s: StoreModel, id: Seq<char>)
    requires
        s.wf(),
        s.lookup(id) is Some,
        s.lookup(id).unwrap().msg_type != deleted_type(),
    ensures
        s.delete(id).1 == Some(deleted_view(s.lookup(id).unwrap())),
        s.delete(id).0.lookup(id) == s.delete(id).1,
{
}

/// A changed message can still be taken back, and is then shown as taken back.
pub proof fn law_edited_message_can_be_deleted(s: StoreModel, id: Seq<char>, content: Seq<char>)
    requires
        s.wf(),
        s.edit(id, content).1 is Some,
    ensures
        s.edit(id, content).0.delete(id).1 is Some,
        s.edit(id, content).0.delete(id).1.unwrap().msg_type == deleted_type(),
        s.edit(id, content).0.delete(id).1.unwrap().content == deleted_text(),
        s.edit(id, content).0.delete(id).0.lookup(id) == s.edit(id, content).0.delete(id).1,
{
    lemma_replace_keeps_wf(s, id);
    assert(edited_type() != deleted_type()) by {
        assert(edited_type().len() != deleted_type().len());
    }
    let e = s.edit(id, content).0;
    assert(e.lookup(id) == s.edit(id, content).1);
}

/// The view of an optional message.
pub open spec fn opt_message_view(o: Option<ChatMessage>) -> Option<MessageView> {
    match o {
        Some(m) => Some(m@),
        None => None,
    }
}

/// The messages of each room and an index from message id to where it stands.
pub struct MessageStore {
    room_messages: RoomTable<ChatMessage>,
    message_index: StringHashMap<(String, usize)>,
}

impl View for MessageStore {
    type V = StoreModel;

    closed spec fn view(&self) -> StoreModel {
        StoreModel {
            rooms: self.room_messages.view().map_values(|l: Seq<ChatMessage>| l.map_values(|m: ChatMessage| m@)),
            index: self.message_index@.map_values(|e: (String, usize)| (e.0@, e.1 as int)),
        }
    }
}

impl MessageStore {
    /// The tables agree: every id points at a stored message of that id.
    pub closed spec fn wf(&self) -> bool {
        &&& self.room_messages.wf()
        &&& forall|id: Seq<char>| #[trigger]
            self.message_index@.contains_key(id) ==> {
                let (r, p) = self.message_index@[id];
                &&& self.room_messages.view().contains_key(r@)
                &&& p < self.room_messages.view()[r@].len()
                &&& self.room_messages.view()[r@][p as int].message_id@ == id
            }
    }

    /// In a well-formed store every id of the index points at a stored message of
    /// that id, so the laws on `StoreModel` apply to its view.
    pub proof fn law_index_points_at_message(&self)
        requires
            self.wf(),
        ensures
            self@.wf(),
    {
        assert forall|id: Seq<char>| #[trigger] self@.index.contains_key(id) implies {
            let (r, p) = self@.index[id];
            &&& self@.rooms.contains_key(r)
            &&& 0 <= p < self@.rooms[r].len()
            &&& self@.rooms[r][p].message_id == id
        } by {
            assert(self.message_index@.contains_key(id));
        }
    }

    /// An empty store.
    pub fn new() -> (s: MessageStore)
        ensures
            s.wf(),
            s@.rooms == Map::<Seq<char>, Seq<MessageView>>::empty(),
            s@.index == Map::<Seq<char>, (Seq<char>, int)>::empty(),
    {
        let s = MessageStore { room_messages: RoomTable::new(), message_index: StringHashMap::new() };
        assert(s@.rooms =~= Map::<Seq<char>, Seq<MessageView>>::empty());
        assert(s@.index =~= Map::<Seq<char>, (Seq<char>, int)>::empty());
        s
    }

    /// Stores `msg` at the end of its room; its id now points at it.
    pub fn add_message(&mut self, msg: ChatMessage)
        requires
            old(self).wf(),
        ensures
            final(self).wf(),
            final(self)@ == old(self)@.add(msg@),
    {
        let ghost old_model = self@;
        let ghost old_table = self.room_messages.view();
        let room = msg.room.clone();
        let id = msg.message_id.clone();
        let ghost mv = msg@;
        let ghost m = msg;
        let pos = self.room_messages.push(room.as_str(), msg);
        self.message_index.insert(id, (room, pos));
        proof {
            let new_table = self.room_messages.view();
            assert(new_table == old_table.insert(mv.room, self_list_or_empty(old_table, mv.room).push(m)));
            assert forall|i: Seq<char>| #[trigger] self.message_index@.contains_key(i) implies {
                let (r, p) = self.message_index@[i];
                &&& self.room_messages.view().contains_key(r@)
                &&& p < self.room_messages.view()[r@].len()
                &&& self.room_messages.view()[r@][p as int].message_id@ == i
            } by {
                if i != mv.message_id {
                    assert(old(self).message_index@.contains_key(i));
                    let (r, p) = old(self).message_index@[i];
                    if r@ == mv.room {
                        assert(new_table[r@][p as int] == old_table[r@][p as int]);
                    }
                }
            }
            assert(old_model.room(mv.room) =~= self_list_or_empty(old_table, mv.room).map_values(|x: ChatMessage| x@));
            let target = old_model.add(mv).rooms;
            assert(self@.rooms.dom() =~= target.dom());
            assert forall|k: Seq<char>| #[trigger] self@.rooms.contains_key(k) implies self@.rooms[k] == target[k] by {
                if k == mv.room {
                    assert(self@.rooms[k] =~= target[k]);
                }
            }
            assert(self@.rooms =~= target);
            assert(self@.index =~= old_model.add(mv).index);
        }
    }

    /// Where message `id` stands, if the index knows it.
    fn locate(&self, id: &str) -> (r: Option<(&String, usize)>)
        requires
            self.wf(),
        ensures
            match r {
                Some((room, p)) => self@.index.contains_key(id@) && self@.index[id@] == (
                    room@,
                    p as int,
                ) && self.room_messages.view().contains_key(room@) && p
                    < self.room_messages.view()[room@].len() && self@.lookup(id@) == Some(
                    self.room_messages.view()[room@][p as int]@,
                ),
                None => !self@.index.contains_key(id@) && self@.lookup(id@) is None,
            },
    {
        match self.message_index.get(id) {
            Some(e) => {
                assert(self.message_index@.contains_key(id@));
                Some((&e.0, e.1))
            },
            None => None,
        }
    }

    /// All messages of `room`, in the order they came; none for an unknown room.
    pub fn get_room_messages(&self, room: &str) -> (r: Vec<ChatMessage>)
        requires
            self.wf(),
        ensures
            r@.map_values(|m: ChatMessage| m@) == self@.room(room@),
    {
        let mut out: Vec<ChatMessage> = Vec::new();
        match self.room_messages.list(room) {
            Some(list) => {
                let mut i: usize = 0;
                while i < list.len()
                    invariant
                        i <= list.len(),
                        out.len() == i,
                        forall|j: int| 0 <= j < i ==> #[trigger] out@[j]@ == list@[j]@,
                    decreases list.len() - i,
                {
                    out.push(list[i].duplicate());
                    i = i + 1;
                }
                assert(out@.map_values(|m: ChatMessage| m@) =~= self@.room(room@));
            },
            None => {
                assert(out@.map_values(|m: ChatMessage| m@) =~= self@.room(room@));
            },
        }
        out
    }

    /// A copy of the message that `id` points at.
    pub fn get_message(&self, id: &str) -> (r: Option<ChatMessage>)
        requires
            self.wf(),
        ensures
            opt_message_view(r) == self@.lookup(id@),
    {
        match self.locate(id) {
            Some((room, p)) => {
                let m = self.room_messages.get(room.as_str(), p);
                Some(m.duplicate())
            },
            None => None,
        }
    }

    /// Takes back the message `id`, unless it is unknown or taken back already; gives
    /// the message as it now stands.
    pub fn delete_message(&mut self, id: &str) -> (r: Option<ChatMessage>)
        requires
            old(self).wf(),
        ensures
            final(self).wf(),
            final(self)@ == old(self)@.delete(id@).0,
            opt_message_view(r) == old(self)@.delete(id@).1,
    {
        proof {
            reveal_strlit("deleted");
            assert("deleted"@ =~= deleted_type());
        }
        let (room, p) = match self.locate(id) {
            Some((room, p)) => (room.clone(), p),
            None => return None,
        };
        let current = self.room_messages.get(room.as_str(), p);
        if str_eq(current.msg_type.as_str(), "deleted") {
            return None;
        }
        let mut updated = current.duplicate();
        updated.msg_type = "deleted".to_owned();
        updated.content = "[Tin nhắn đã bị xóa]".to_owned();
        updated.media = None;
        let answer = updated.duplicate();
        self.replace_at(id, room.as_str(), p, updated);
        Some(answer)
    }

    /// Changes the text of the message `id` on the same terms as `delete_message`.
    pub fn edit_message(&mut self, id: &str, new_content: &str) -> (r: Option<ChatMessage>)
        requires
            old(self).wf(),
        ensures
            final(self).wf(),
            final(self)@ == old(self)@.edit(id@, new_content@).0,
            opt_message_view(r) == old(self)@.edit(id@, new_content@).1,
    {
        proof {
            reveal_strlit("deleted");
            reveal_strlit("edited");
            assert("deleted"@ =~= deleted_type());
            assert("edited"@ =~= edited_type());
        }
        let (room, p) = match self.locate(id) {
            Some((room, p)) => (room.clone(), p),
            None => return None,
        };
        let current = self.room_messages.get(room.as_str(), p);
        if str_eq(current.msg_type.as_str(), "deleted") {
            return None;
        }
        let mut updated = current.duplicate();
        updated.content = new_content.to_owned();
        updated.msg_type = "edited".to_owned();
        updated.media = None;
        let answer = updated.duplicate();
        self.replace_at(id, room.as_str(), p, updated);
        Some(answer)
    }

    fn replace_at(&mut self, id: &str, room: &str, p: usize, m: ChatMessage)
        requires
            old(self).wf(),
            old(self)@.index.contains_key(id@),
            old(self)@.index[id@] == (room@, p as int),
            old(self).room_messages.view().contains_key(room@),
            p < old(self).room_messages.view()[room@].len(),
            m.message_id@ == old(self).room_messages.view()[room@][p as int].message_id@,
        ensures
            final(self).wf(),
            final(self)@ == old(self)@.replace(id@, m@),
    {
        let ghost old_model = self@;
        let ghost old_table = self.room_messages.view();
        let ghost mv = m@;
        let ghost mm = m;
        self.room_messages.set(room, p, m);
        proof {
            let new_table = self.room_messages.view();
            assert(new_table == old_table.insert(room@, old_table[room@].update(p as int, mm)));
            assert forall|i: Seq<char>| #[trigger] self.message_index@.contains_key(i) implies {
                let (r, q) = self.message_index@[i];
                &&& self.room_messages.view().contains_key(r@)
                &&& q < self.room_messages.view()[r@].len()
                &&& self.room_messages.view()[r@][q as int].message_id@ == i
            } by {
                let (r, q) = old(self).message_index@[i];
                if r@ == room@ && q == p {
                } else if r@ == room@ {
                    assert(new_table[r@][q as int] == old_table[r@][q as int]);
                }
            }
            let target = old_model.replace(id@, mv).rooms;
            assert(self@.rooms.dom() =~= target.dom());
            assert forall|k: Seq<char>| #[trigger] self@.rooms.contains_key(k) implies self@.rooms[k] == target[k] by {
                if k == room@ {
                    assert(self@.rooms[k] =~= target[k]);
                }
            }
            assert(self@.rooms =~= target);
            assert(self@.index =~= old_model.replace(id@, mv).index);
        }
    }

    /// Whether `username` sent message `id` and may still change it.
    pub fn can_modify_message(&self, id: &str, username: &str) -> (r: bool)
        requires
            self.wf(),
        ensures
            r == self@.can_modify(id@, username@),
    {
        proof {
            reveal_strlit("message");
            reveal_strlit("media");
            reveal_strlit("edited");
            assert("message"@ =~= seq!['m', 'e', 's', 's', 'a', 'g', 'e']);
            assert("media"@ =~= seq!['m', 'e', 'd', 'i', 'a']);
            assert("edited"@ =~= edited_type());
        }
        match self.get_message(id) {
            Some(msg) => {
                let t = msg.msg_type.as_str();
                str_eq(msg.username.as_str(), username) && (str_eq(t, "message") || str_eq(t, "media")
                    || str_eq(t, "edited"))
            },
            None => false,
        }
    }
}

/// The list of `room` in a table view, empty where it has none.
pub open spec fn self_list_or_empty<T>(t: Map<Seq<char>, Seq<T>>, room: Seq<char>) -> Seq<T> {
    if t.contains_key(room) {
        t[room]
    } else {
        Seq::empty()
    }
}

} // verus!
