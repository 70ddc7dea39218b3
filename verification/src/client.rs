//! The terminal client: how it reads a typed line, what it sends, and what it shows.

use vstd::prelude::*;
use crate::message::{ChatMessage, MessageView, simple_view};
use crate::names::{NameSet, distinct_views};
use crate::rooms::{
    display_room, display_room_spec, normalize_conversation, normalize_spec,
    other_participant_spec, other_private_participant, private_room_id, private_room_spec,
};
use crate::text::{lemma_contains_push, find_char, first_index, has_prefix, starts_with, str_eq, strip_prefix, trim, trimmed};

verus! {

/// A private message typed as `/dm <user> <message>`.
pub struct DirectMessage {
    pub room: String,
    pub message: String,
}

/// The first word of `s` (up to its first space) and, where it has a space, the rest
/// after that space.
pub open spec fn split_first_space(s: Seq<char>) -> (Seq<char>, Option<Seq<char>>) {
    if s.contains(' ') {
        let i = first_index(s, ' ');
        (s.take(i), Some(s.skip(i + 1)))
    } else {
        (s, None)
    }
}

/// What `/dm <user> <message>` asks for: the private conversation with the user,
/// and the message, both trimmed; nothing where either is blank or the user is
/// oneself.
pub open spec fn dm_spec(username: Seq<char>, input: Seq<char>) -> Option<(Seq<char>, Seq<char>)> {
    if has_prefix(input, "/dm "@) {
        let (first, rest) = split_first_space(input.skip(4));
        let target = trimmed(first);
        match rest {
            Some(r) => {
                let message = trimmed(r);
                if target.len() == 0 || message.len() == 0 || target == username {
                    None
                } else {
                    Some((private_room_spec(username, target), message))
                }
            },
            None => None,
        }
    } else {
        None
    }
}

/// Reads a `/dm <user> <message>` line.
pub fn parse_dm_command(username: &str, input: &str) -> (r: Option<DirectMessage>)
    ensures
        match r {
            Some(dm) => dm_spec(username@, input@) == Some((dm.room@, dm.message@)),
            None => dm_spec(username@, input@) is None,
        },
{
    proof {
        reveal_strlit("/dm ");
        assert("/dm "@.len() == 4);
    }
    let command = match strip_prefix(input, "/dm ") {
        Some(c) => c,
        None => return None,
    };
    let n = command.unicode_len();
    let (first, rest) = match find_char(command, ' ') {
        Some(i) => (command.substring_char(0, i), Some(command.substring_char(i + 1, n))),
        None => (command, None),
    };
    let target = trim(first);
    let message = match rest {
        Some(r) => trim(r),
        None => return None,
    };
    if target.is_empty() || message.is_empty() || str_eq(target, username) {
        return None;
    }
    Some(DirectMessage { room: private_room_id(username, target), message: message.to_owned() })
}

/// What the client does after a line.
#[derive(Debug, Clone, PartialEq, Eq)]
pub enum ClientAction {
    /// Send a request to join this conversation.
    Join(String),
    /// Send this message to this conversation.
    Chat(String, String),
    /// Send a request to leave this room.
    Leave(String),
    /// Show this line.
    Print(String),
    /// Stop.
    Quit,
}

/// The view of an action.
pub enum ActionView {
    Join(Seq<char>),
    Chat(Seq<char>, Seq<char>),
    Leave(Seq<char>),
    Print(Seq<char>),
    Quit,
}

/// The view of an action.
pub open spec fn action_view(a: ClientAction) -> ActionView {
    match a {
        ClientAction::Join(r) => ActionView::Join(r@),
        ClientAction::Chat(r, m) => ActionView::Chat(r@, m@),
        ClientAction::Leave(r) => ActionView::Leave(r@),
        ClientAction::Print(t) => ActionView::Print(t@),
        ClientAction::Quit => ActionView::Quit,
    }
}

/// The views of a list of actions.
pub open spec fn actions_view(v: Seq<ClientAction>) -> Seq<ActionView> {
    v.map_values(|a: ClientAction| action_view(a))
}

/// What the client keeps between lines: the conversations it has open and the one
/// it is in.
pub struct ClientModel {
    pub username: Seq<char>,
    pub open: Set<Seq<char>>,
    pub active: Seq<char>,
}

/// Opening `room` and moving to it: a join request where it was not open yet.
pub open spec fn open_and_enter(m: ClientModel, room: Seq<char>) -> (ClientModel, Seq<ActionView>) {
    (
        ClientModel { open: m.open.insert(room), active: room, ..m },
        if m.open.contains(room) {
            Seq::empty()
        } else {
            seq![ActionView::Join(room)]
        },
    )
}

/// Opening `room`, moving to it, and saying so.
pub open spec fn switch_to(m: ClientModel, room: Seq<char>) -> (ClientModel, Seq<ActionView>) {
    let (m2, acts) = open_and_enter(m, room);
    (m2, acts.push(ActionView::Print("Switched to "@ + display_room_spec(m.username, room))))
}

/// What a typed line does: `/quit` stops; an empty line does nothing; a valid `/dm`
/// opens the private conversation and sends the message there; `/join <room>` opens
/// a public room; `/switch <room|@user>` opens a room or private conversation;
/// `/leave` closes the conversation one is in (the general room stays); any other
/// line is a message to the conversation one is in, which is opened first where
/// it is closed.
pub open spec fn step_spec(m: ClientModel, input: Seq<char>) -> (ClientModel, Seq<ActionView>) {
    let username = m.username;
    if input == "/quit"@ {
        (m, seq![ActionView::Quit])
    } else if input.len() == 0 {
        (m, Seq::empty())
    } else if dm_spec(username, input) is Some {
        let (room, message) = dm_spec(username, input).unwrap();
        let (m2, acts) = open_and_enter(m, room);
        (m2, acts.push(ActionView::Chat(room, message)))
    } else if has_prefix(input, "/join "@) {
        let room = trimmed(input.skip(6));
        if room.len() == 0 {
            (m, seq![ActionView::Print("Room name cannot be empty"@)])
        } else if has_prefix(room, "@"@) {
            (
                m,
                seq![
                    ActionView::Print(
                        "Use /switch @username or /dm <username> <message> for private chat"@,
                    ),
                ],
            )
        } else {
            switch_to(m, room)
        }
    } else if has_prefix(input, "/switch "@) {
        let target = trimmed(input.skip(8));
        if target.len() == 0 {
            (m, seq![ActionView::Print("Conversation name cannot be empty"@)])
        } else {
            switch_to(m, normalize_spec(username, target))
        }
    } else if input == "/leave"@ {
        if m.active == "general"@ {
            (m, seq![ActionView::Print("The general room stays available. Use /switch to move elsewhere."@)])
        } else if has_prefix(m.active, "dm:"@) {
            (
                ClientModel { open: m.open.remove(m.active), active: "general"@, ..m },
                seq![ActionView::Print("Closed "@ + display_room_spec(username, m.active))],
            )
        } else {
            (
                ClientModel { open: m.open.remove(m.active), active: "general"@, ..m },
                seq![ActionView::Leave(m.active), ActionView::Print("Left "@ + m.active)],
            )
        }
    } else {
        let (m2, acts) = open_and_enter(m, m.active);
        (m2, acts.push(ActionView::Chat(m.active, input)))
    }
}

/// The terminal client's state.
pub struct ClientState {
    username: String,
    open_rooms: NameSet,
    active_room: String,
}

impl View for ClientState {
    type V = ClientModel;

    closed spec fn view(&self) -> ClientModel {
        ClientModel { username: self.username@, open: self.open_rooms@, active: self.active_room@ }
    }
}

impl ClientState {
    /// The set of open conversations is sound.
    pub closed spec fn wf(&self) -> bool {
        self.open_rooms.wf()
    }

    /// A client that has the general room open and is in it.
    pub fn new(username: String) -> (c: ClientState)
        ensures
            c.wf(),
            c@.username == username@,
            c@.open == Set::<Seq<char>>::empty().insert("general"@),
            c@.active == "general"@,
    {
        let mut open_rooms = NameSet::new();
        open_rooms.insert("general".to_owned());
        ClientState { username, open_rooms, active_room: "general".to_owned() }
    }

    /// The user of this client.
    pub fn username(&self) -> (r: &str)
        ensures
            r@ == self@.username,
    {
        self.username.as_str()
    }

    /// The conversation the client is in.
    pub fn active_room(&self) -> (r: &str)
        ensures
            r@ == self@.active,
    {
        self.active_room.as_str()
    }

    /// The prompt: the user, and the conversation as it is shown.
    pub fn prompt(&self) -> (p: String)
        ensures
            p@ == self@.username + " ["@ + display_room_spec(self@.username, self@.active) + "]> "@,
    {
        let mut p = self.username.clone();
        p.append(" [");
        let shown = display_room(self.username.as_str(), self.active_room.as_str());
        p.append(shown.as_str());
        p.append("]> ");
        p
    }

    fn open_and_enter(&mut self, room: String, actions: &mut Vec<ClientAction>)
        requires
            old(self).wf(),
        ensures
            final(self).wf(),
            final(self).username == old(self).username,
            (final(self)@, actions_view(final(actions)@)) == ({
                let (m2, acts) = open_and_enter(old(self)@, room@);
                (m2, actions_view(old(actions)@) + acts)
            }),
    {
        let ghost before = actions@;
        let ghost rv = room@;
        if self.open_rooms.insert(room.clone()) {
            actions.push(ClientAction::Join(room.clone()));
            assert(actions_view(actions@) =~= actions_view(before) + seq![ActionView::Join(rv)]);
        } else {
            assert(actions_view(actions@) =~= actions_view(before) + Seq::<ActionView>::empty());
        }
        self.active_room = room;
    }

    fn switch_to(&mut self, room: String, actions: &mut Vec<ClientAction>)
        requires
            old(self).wf(),
            old(actions)@.len() == 0,
        ensures
            final(self).wf(),
            final(self).username == old(self).username,
            (final(self)@, actions_view(final(actions)@)) == switch_to(old(self)@, room@),
    {
        proof {
            reveal_strlit("Switched to ");
        }
        self.open_and_enter(room, actions);
        let ghost before = actions@;
        let mut line = "Switched to ".to_owned();
        let shown = display_room(self.username.as_str(), self.active_room.as_str());
        line.append(shown.as_str());
        let ghost lv = line@;
        actions.push(ClientAction::Print(line));
        assert(actions_view(actions@) =~= actions_view(before).push(ActionView::Print(lv)));
        assert(actions_view(old(actions)@) =~= Seq::<ActionView>::empty());
    }

    /// Takes a typed line (already trimmed) and gives what to do, in order.
    pub fn handle_input(&mut self, input: &str) -> (actions: Vec<ClientAction>)
        requires
            old(self).wf(),
        ensures
            final(self).wf(),
            (final(self)@, actions_view(actions@)) == step_spec(old(self)@, input@),
    {
        let mut actions: Vec<ClientAction> = Vec::new();
        assert(actions_view(actions@) =~= Seq::<ActionView>::empty());
        if str_eq(input, "/quit") {
            actions.push(ClientAction::Quit);
            assert(actions_view(actions@) =~= seq![ActionView::Quit]);
            return actions;
        }
        if input.is_empty() {
            return actions;
        }
        match parse_dm_command(self.username.as_str(), input) {
            Some(dm) => {
                let room = dm.room;
                let ghost rv = room@;
                let ghost mv = dm.message@;
                self.open_and_enter(room.clone(), &mut actions);
                let ghost before = actions@;
                actions.push(ClientAction::Chat(room, dm.message));
                assert(actions_view(actions@) =~= actions_view(before).push(ActionView::Chat(rv, mv)));
                return actions;
            },
            None => {},
        }
        proof {
            reveal_strlit("/join ");
            reveal_strlit("/switch ");
            assert("/join "@.len() == 6);
            assert("/switch "@.len() == 8);
        }
        match strip_prefix(input, "/join ") {
            Some(rest) => {
                let room = trim(rest);
                if room.is_empty() {
                    actions.push(ClientAction::Print("Room name cannot be empty".to_owned()));
                    assert(actions_view(actions@) =~= seq![ActionView::Print("Room name cannot be empty"@)]);
                    return actions;
                }
                if starts_with(room, "@") {
                    actions.push(
                        ClientAction::Print(
                            "Use /switch @username or /dm <username> <message> for private chat".to_owned(),
                        ),
                    );
                    assert(actions_view(actions@) =~= seq![ActionView::Print("Use /switch @username or /dm <username> <message> for private chat"@)]);
                    return actions;
                }
                self.switch_to(room.to_owned(), &mut actions);
                return actions;
            },
            None => {},
        }
        match strip_prefix(input, "/switch ") {
            Some(rest) => {
                let target = trim(rest);
                if target.is_empty() {
                    actions.push(ClientAction::Print("Conversation name cannot be empty".to_owned()));
                    assert(actions_view(actions@) =~= seq![ActionView::Print("Conversation name cannot be empty"@)]);
                    return actions;
                }
                let room = normalize_conversation(self.username.as_str(), target);
                self.switch_to(room, &mut actions);
                return actions;
            },
            None => {},
        }
        if str_eq(input, "/leave") {
            if str_eq(self.active_room.as_str(), "general") {
                actions.push(
                    ClientAction::Print(
                        "The general room stays available. Use /switch to move elsewhere.".to_owned(),
                    ),
                );
                assert(actions_view(actions@) =~= seq![ActionView::Print("The general room stays available. Use /switch to move elsewhere."@)]);
                return actions;
            }
            if starts_with(self.active_room.as_str(), "dm:") {
                proof {
                    reveal_strlit("Closed ");
                }
                self.open_rooms.remove(self.active_room.as_str());
                let mut line = "Closed ".to_owned();
                let shown = display_room(self.username.as_str(), self.active_room.as_str());
                line.append(shown.as_str());
                let ghost lv = line@;
                actions.push(ClientAction::Print(line));
                assert(actions_view(actions@) =~= seq![ActionView::Print(lv)]);
                self.active_room = "general".to_owned();
                return actions;
            }
            proof {
                reveal_strlit("Left ");
            }
            let ghost av = self.active_room@;
            actions.push(ClientAction::Leave(self.active_room.clone()));
            self.open_rooms.remove(self.active_room.as_str());
            let mut line = "Left ".to_owned();
            line.append(self.active_room.as_str());
            let ghost lv = line@;
            actions.push(ClientAction::Print(line));
            assert(actions_view(actions@) =~= seq![ActionView::Leave(av), ActionView::Print(lv)]);
            self.active_room = "general".to_owned();
            return actions;
        }
        let room = self.active_room.clone();
        let ghost rv = room@;
        self.open_and_enter(room.clone(), &mut actions);
        let ghost before = actions@;
        actions.push(ClientAction::Chat(room, input.to_owned()));
        assert(actions_view(actions@) =~= actions_view(before).push(ActionView::Chat(rv, input@)));
        actions
    }

    /// The public rooms to leave on quitting: the open conversations that are not
    /// private ones.
    pub fn farewell_rooms(&self) -> (r: Vec<String>)
        requires
            self.wf(),
        ensures
            distinct_views(r@),
            forall|n: Seq<char>|
                (self@.open.contains(n) && !has_prefix(n, "dm:"@)) <==> crate::text::string_views(
                    r@,
                ).contains(n),
    {
        let all = self.open_rooms.to_vec();
        let ghost av = crate::text::string_views(all@);
        let mut r: Vec<String> = Vec::new();
        let mut i: usize = 0;
        while i < all.len()
            invariant
                av == crate::text::string_views(all@),
                distinct_views(all@),
                distinct_views(r@),
                i <= all.len(),
                forall|n: Seq<char>|
                    (av.take(i as int).contains(n) && !has_prefix(n, "dm:"@)) <==> #[trigger] crate::text::string_views(
                        r@,
                    ).contains(n),
            decreases all.len() - i,
        {
            let ghost before = r@;
            let ghost x = all@[i as int]@;
            assert(av.take(i + 1) =~= av.take(i as int).push(x));
            proof {
                lemma_contains_push(av.take(i as int), x);
            }
            let keep = !starts_with(all[i].as_str(), "dm:");
            if keep {
                proof {
                    assert forall|j: int| 0 <= j < before.len() implies #[trigger] before[j]@ != x by {
                        assert(crate::text::string_views(before)[j] == before[j]@);
                        assert(crate::text::string_views(before).contains(before[j]@));
                        assert(av.take(i as int).contains(before[j]@));
                        let k = choose|k: int| 0 <= k < i && av.take(i as int)[k] == before[j]@;
                        assert(av[k] == all@[k]@);
                        assert(all@[k]@ != all@[i as int]@);
                    }
                }
                r.push(all[i].clone());
                assert(crate::text::string_views(r@) =~= crate::text::string_views(before).push(x));
                proof {
                    lemma_contains_push(crate::text::string_views(before), x);
                }
            }
            proof {
                assert forall|n: Seq<char>|
                    (#[trigger] av.take(i + 1).contains(n) && !has_prefix(n, "dm:"@)) <==> crate::text::string_views(r@).contains(n) by {
                    assert(crate::text::string_views(before).contains(n) == (av.take(i as int).contains(n) && !has_prefix(n, "dm:"@)));
                    assert(av.take(i + 1).contains(n) == (av.take(i as int).contains(n) || n == x));
                    if keep {
                        assert(crate::text::string_views(r@).contains(n) == (crate::text::string_views(before).contains(n) || n == x));
                    } else {
                        assert(r@ == before);
                    }
                }
            }
            i = i + 1;
        }
        assert(av.take(all.len() as int) =~= av);
        assert forall|n: Seq<char>|
            (self@.open.contains(n) && !has_prefix(n, "dm:"@)) <==> #[trigger] crate::text::string_views(r@).contains(n) by {
            assert(self@.open.contains(n) <==> av.contains(n));
            assert((av.take(all.len() as int).contains(n) && !has_prefix(n, "dm:"@)) <==> crate::text::string_views(r@).contains(n));
        }
        r
    }
}

/// The line shown for an incoming message: notices with their conversation, errors
/// marked, other messages with their conversation and sender.
pub open spec fn incoming_line_spec(current_user: Seq<char>, msg: MessageView) -> Seq<char> {
    if msg.msg_type == "system"@ {
        "["@ + display_room_spec(current_user, msg.room) + "] "@ + msg.content
    } else if msg.msg_type == "error"@ {
        "[ERROR] "@ + msg.content
    } else {
        "["@ + display_room_spec(current_user, msg.room) + "] "@ + msg.username + ": "@ + msg.content
    }
}

/// The line shown for an incoming message.
pub fn incoming_line(current_user: &str, msg: &ChatMessage) -> (l: String)
    ensures
        l@ == incoming_line_spec(current_user@, msg@),
{
    if str_eq(msg.msg_type.as_str(), "system") {
        let mut l = "[".to_owned();
        l.append(display_room(current_user, msg.room.as_str()).as_str());
        l.append("] ");
        l.append(msg.content.as_str());
        l
    } else if str_eq(msg.msg_type.as_str(), "error") {
        let mut l = "[ERROR] ".to_owned();
        l.append(msg.content.as_str());
        l
    } else {
        let mut l = "[".to_owned();
        l.append(display_room(current_user, msg.room.as_str()).as_str());
        l.append("] ");
        l.append(msg.username.as_str());
        l.append(": ");
        l.append(msg.content.as_str());
        l
    }
}

/// The login request the client sends first, with the password.
pub fn login_request(username: &str, password: &str) -> (m: ChatMessage)
    ensures
        m@ == (MessageView { password: password@, ..simple_view("login"@, username@, ""@, ""@) }),
{
    let mut m = ChatMessage::simple("login", username, "", "");
    m.password = password.to_owned();
    m
}

/// A request to join a conversation.
pub fn join_request(username: &str, room: &str) -> (m: ChatMessage)
    ensures
        m@ == simple_view("join"@, username@, ""@, room@),
{
    ChatMessage::simple("join", username, "", room)
}

/// A request to leave a room.
pub fn leave_request(username: &str, room: &str) -> (m: ChatMessage)
    ensures
        m@ == simple_view("leave"@, username@, ""@, room@),
{
    ChatMessage::simple("leave", username, "", room)
}

/// A message to a conversation; for a private one, addressed to the other side.
pub fn chat_request(username: &str, room: &str, content: &str) -> (m: ChatMessage)
    ensures
        m@ == (MessageView {
            target: other_participant_spec(username@, room@),
            ..simple_view("message"@, username@, content@, room@)
        }),
{
    let mut m = ChatMessage::simple("message", username, content, room);
    m.target = other_private_participant(username, room);
    m
}

/// The general room stays open, and the conversation one is in is always open:
/// whatever line is typed, both hold after it where they held before.
pub proof fn law_active_stays_open(m: ClientModel, input: Seq<char>)
    requires
        m.open.contains("general"@),
        m.open.contains(m.active),
    ensures
        step_spec(m, input).0.open.contains("general"@),
        step_spec(m, input).0.open.contains(step_spec(m, input).0.active),
{
}

/// `/leave` in the general room leaves everything as it was and only says why.
pub proof fn law_general_room_stays(m: ClientModel)
    requires
        m.active == "general"@,
    ensures
        step_spec(m, "/leave"@) == (
            m,
            seq![ActionView::Print("The general room stays available. Use /switch to move elsewhere."@)],
        ),
{
    lemma_leave_line();
}

proof fn lemma_leave_line()
    ensures
        "/leave"@ != "/quit"@,
        "/leave"@.len() != 0,
        !has_prefix("/leave"@, "/dm "@),
        !has_prefix("/leave"@, "/join "@),
        !has_prefix("/leave"@, "/switch "@),
{
    reveal_strlit("/leave");
    reveal_strlit("/quit");
    reveal_strlit("/dm ");
    reveal_strlit("/join ");
    reveal_strlit("/switch ");
    assert("/leave"@ != "/quit"@) by {
        assert("/leave"@[1] != "/quit"@[1]);
    }
    assert(!has_prefix("/leave"@, "/dm "@)) by {
        assert("/leave"@.take(4)[1] != "/dm "@[1]);
    }
    assert(!has_prefix("/leave"@, "/join "@)) by {
        assert("/leave"@.take(6)[1] != "/join "@[1]);
    }
    assert(!has_prefix("/leave"@, "/switch "@)) by {
        assert("/leave"@.len() < "/switch "@.len());
    }
}

/// `/leave` anywhere but the general room closes the conversation one is in and
/// moves to the general room, keeping every other conversation open; a public room
/// left so is left on the server too, and opening it again sends a new join request.
pub proof fn law_leave_closes_conversation(m: ClientModel)
    requires
        m.active != "general"@,
    ensures
        step_spec(m, "/leave"@).0.open == m.open.remove(m.active),
        step_spec(m, "/leave"@).0.active == "general"@,
        !has_prefix(m.active, "dm:"@) ==> step_spec(m, "/leave"@).1[0] == ActionView::Leave(m.active),
        open_and_enter(step_spec(m, "/leave"@).0, m.active).1 == seq![ActionView::Join(m.active)],
{
    lemma_leave_line();
    assert(dm_spec(m.username, "/leave"@) is None);
}

} // verus!
