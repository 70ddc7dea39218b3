//! The decisions the chat server makes for one connection: which request a message
//! is, who may make it, whether a message may go to a room, what goes out, and who
//! receives it.

use vstd::prelude::*;
use vstd::utf8::encode_utf8;
use crate::auth::{UserSession, has_permission_spec, email_ok, phone_ok, validate_email, validate_phone};
use crate::message::{ChatMessage, MessageView, simple_view, stamped_view, opt_view, copy_opt, copy_media, secs_since_epoch};
use vstd::hash_set::StringHashSet;
use crate::records::ProfileInfo;
use crate::rooms::{
    dm_prefix, first_other, group_name_spec, group_prefix, group_room_name, is_private_room, is_private_spec,
    participants_spec, private_room_contains_user, private_room_participants,
};
use crate::text::{decimal, has_prefix, is_white_space, str_eq, string_views, to_decimal, trim, trim_end, trim_start, trimmed};

verus! {

/// What a client asks the server to do, by the type of its message.
#[derive(Debug, Clone, Copy, PartialEq, Eq)]
pub enum Request {
    Join,
    Message,
    Media,
    Delete,
    Edit,
    Leave,
    ProfileGet,
    ProfileUpdate,
    FriendSearch,
    FriendRequest,
    FriendAccept,
    FriendDecline,
    FriendsList,
    GroupCreate,
    GroupInvite,
    GroupInviteAccept,
    GroupJoinRequest,
    GroupJoinAccept,
    GroupJoinDecline,
    GroupsList,
    ChangePassword,
    AdminUsersList,
    AdminUserUpdate,
    Logout,
    Ignored,
}

/// The request that a message type names; any other type is ignored.
pub open spec fn request_of(t: Seq<char>) -> Request {
    if t == "join"@ {
        Request::Join
    } else if t == "message"@ {
        Request::Message
    } else if t == "media"@ {
        Request::Media
    } else if t == "delete"@ {
        Request::Delete
    } else if t == "edit"@ {
        Request::Edit
    } else if t == "leave"@ {
        Request::Leave
    } else if t == "profile_get"@ {
        Request::ProfileGet
    } else if t == "profile_update"@ {
        Request::ProfileUpdate
    } else if t == "friend_search"@ {
        Request::FriendSearch
    } else if t == "friend_request"@ {
        Request::FriendRequest
    } else if t == "friend_accept"@ {
        Request::FriendAccept
    } else if t == "friend_decline"@ {
        Request::FriendDecline
    } else if t == "friends_list"@ {
        Request::FriendsList
    } else if t == "group_create"@ {
        Request::GroupCreate
    } else if t == "group_invite"@ {
        Request::GroupInvite
    } else if t == "group_invite_accept"@ {
        Request::GroupInviteAccept
    } else if t == "group_join_request"@ {
        Request::GroupJoinRequest
    } else if t == "group_join_accept"@ {
        Request::GroupJoinAccept
    } else if t == "group_join_decline"@ {
        Request::GroupJoinDecline
    } else if t == "groups_list"@ {
        Request::GroupsList
    } else if t == "settings_change_password"@ {
        Request::ChangePassword
    } else if t == "admin_users_list"@ {
        Request::AdminUsersList
    } else if t == "admin_user_update"@ {
        Request::AdminUserUpdate
    } else if t == "logout"@ {
        Request::Logout
    } else {
        Request::Ignored
    }
}

/// The request that a message type names.
pub fn classify(msg_type: &str) -> (r: Request)
    ensures
        r == request_of(msg_type@),
{
    let t = msg_type;
    if str_eq(t, "join") {
        Request::Join
    } else if str_eq(t, "message") {
        Request::Message
    } else if str_eq(t, "media") {
        Request::Media
    } else if str_eq(t, "delete") {
        Request::Delete
    } else if str_eq(t, "edit") {
        Request::Edit
    } else if str_eq(t, "leave") {
        Request::Leave
    } else if str_eq(t, "profile_get") {
        Request::ProfileGet
    } else if str_eq(t, "profile_update") {
        Request::ProfileUpdate
    } else if str_eq(t, "friend_search") {
        Request::FriendSearch
    } else if str_eq(t, "friend_request") {
        Request::FriendRequest
    } else if str_eq(t, "friend_accept") {
        Request::FriendAccept
    } else if str_eq(t, "friend_decline") {
        Request::FriendDecline
    } else if str_eq(t, "friends_list") {
        Request::FriendsList
    } else if str_eq(t, "group_create") {
        Request::GroupCreate
    } else if str_eq(t, "group_invite") {
        Request::GroupInvite
    } else if str_eq(t, "group_invite_accept") {
        Request::GroupInviteAccept
    } else if str_eq(t, "group_join_request") {
        Request::GroupJoinRequest
    } else if str_eq(t, "group_join_accept") {
        Request::GroupJoinAccept
    } else if str_eq(t, "group_join_decline") {
        Request::GroupJoinDecline
    } else if str_eq(t, "groups_list") {
        Request::GroupsList
    } else if str_eq(t, "settings_change_password") {
        Request::ChangePassword
    } else if str_eq(t, "admin_users_list") {
        Request::AdminUsersList
    } else if str_eq(t, "admin_user_update") {
        Request::AdminUserUpdate
    } else if str_eq(t, "logout") {
        Request::Logout
    } else {
        Request::Ignored
    }
}

/// The permission a request needs, and the notice that refuses it.
pub open spec fn permission_of(r: Request) -> Option<(Seq<char>, Seq<char>)> {
    match r {
        Request::Message => Some(("chat.send"@, "You do not have permission to send messages"@)),
        Request::Media => Some(("chat.media"@, "You do not have permission to send media"@)),
        Request::Delete => Some(
            ("message.delete.own"@, "You do not have permission to delete messages"@),
        ),
        Request::Edit => Some(("message.edit.own"@, "You do not have permission to edit messages"@)),
        Request::ProfileUpdate => Some(
            ("profile.update"@, "You do not have permission to update profile"@),
        ),
        Request::FriendRequest => Some(
            ("friend.manage"@, "You do not have permission to manage friends"@),
        ),
        Request::GroupCreate => Some(("group.create"@, "You do not have permission to create groups"@)),
        Request::ChangePassword => Some(
            ("settings.update_password"@, "You do not have permission to update password"@),
        ),
        Request::AdminUsersList => Some(
            ("admin.manage_users"@, "You do not have permission to manage users"@),
        ),
        Request::AdminUserUpdate => Some(
            ("admin.manage_users"@, "You do not have permission to manage users"@),
        ),
        _ => None,
    }
}

/// The permission a request needs, and the notice that refuses it.
pub fn required_permission(r: Request) -> (p: Option<(&'static str, &'static str)>)
    ensures
        match p {
            Some((perm, notice)) => permission_of(r) == Some((perm@, notice@)),
            None => permission_of(r) is None,
        },
{
    match r {
        Request::Message => Some(("chat.send", "You do not have permission to send messages")),
        Request::Media => Some(("chat.media", "You do not have permission to send media")),
        Request::Delete => Some(
            ("message.delete.own", "You do not have permission to delete messages"),
        ),
        Request::Edit => Some(("message.edit.own", "You do not have permission to edit messages")),
        Request::ProfileUpdate => Some(
            ("profile.update", "You do not have permission to update profile"),
        ),
        Request::FriendRequest => Some(
            ("friend.manage", "You do not have permission to manage friends"),
        ),
        Request::GroupCreate => Some(("group.create", "You do not have permission to create groups")),
        Request::ChangePassword => Some(
            ("settings.update_password", "You do not have permission to update password"),
        ),
        Request::AdminUsersList => Some(
            ("admin.manage_users", "You do not have permission to manage users"),
        ),
        Request::AdminUserUpdate => Some(
            ("admin.manage_users", "You do not have permission to manage users"),
        ),
        _ => None,
    }
}

/// The refusal a session gets for a request, where it lacks the permission the
/// request needs.
pub open spec fn permission_refusal(session: UserSession, r: Request) -> Option<Seq<char>> {
    match permission_of(r) {
        Some((perm, notice)) => if has_permission_spec(session, perm) {
            None
        } else {
            Some(notice)
        },
        None => None,
    }
}

/// Refuses a request with its notice where the session lacks the permission it needs.
pub fn permission_gate(session: &UserSession, r: Request) -> (res: Result<(), String>)
    ensures
        match permission_refusal(*session, r) {
            Some(notice) => (res matches Err(e) && e@ == notice),
            None => res is Ok,
        },
{
    match required_permission(r) {
        Some((perm, notice)) => {
            if session.has_permission(perm) {
                Ok(())
            } else {
                Err(notice.to_owned())
            }
        },
        None => Ok(()),
    }
}

/// A refusal notice addressed to one connection.
pub fn error_message(content: &str) -> (m: ChatMessage)
    ensures
        m@ == simple_view("error"@, "SYSTEM"@, content@, ""@),
{
    ChatMessage::simple("error", "SYSTEM", content, "")
}

/// A notice from the server in the general room.
pub fn system_message(content: &str) -> (m: ChatMessage)
    ensures
        m@ == simple_view("system"@, "SYSTEM"@, content@, "general"@),
{
    ChatMessage::simple("system", "SYSTEM", content, "general")
}

/// A reply carrying data (`content`, already serialized) of type `msg_type`.
pub fn data_message(msg_type: &str, content: &str) -> (m: ChatMessage)
    ensures
        m@ == simple_view(msg_type@, "SYSTEM"@, content@, "general"@),
{
    ChatMessage::simple(msg_type, "SYSTEM", content, "general")
}

/// The answer to a registration that succeeded.
pub fn registered_message() -> (m: ChatMessage)
    ensures
        m@ == simple_view(
            "system"@,
            "System"@,
            "Đăng ký thành công! Vui lòng đăng nhập."@,
            "general"@,
        ),
{
    ChatMessage::simple("system", "System", "Đăng ký thành công! Vui lòng đăng nhập.", "general")
}

/// The greeting of a session that just logged in.
pub open spec fn welcome_text(username: Seq<char>, role: Seq<char>) -> Seq<char> {
    "Đăng nhập thành công! Chào mừng "@ + username + " ("@ + role + ")"@
}

/// The greeting of a session that just logged in, naming the user and its role.
pub fn welcome_message(session: &UserSession) -> (m: ChatMessage)
    ensures
        m@ == simple_view(
            "system"@,
            "System"@,
            welcome_text(session.username@, session.role@),
            "general"@,
        ),
{
    let mut text = "Đăng nhập thành công! Chào mừng ".to_owned();
    text.append(session.username.as_str());
    text.append(" (");
    text.append(session.role.as_str());
    text.append(")");
    ChatMessage::simple("system", "System", text.as_str(), "general")
}

/// What to do with a message on a connection, before its request is handled.
#[derive(Debug, Clone, PartialEq, Eq)]
pub enum Gate {
    /// The connection is logged in: handle the request.
    Proceed,
    /// Try to create an account from the message.
    Register,
    /// Try to log in with the message.
    Login,
    /// Answer with this refusal and handle nothing.
    Refuse(String),
}

/// The view of a gate decision.
pub enum GateView {
    Proceed,
    Register,
    Login,
    Refuse(Seq<char>),
}

/// Before login, only `register` and `login` are taken; after it, a session is
/// enough; a name without a session must be the one the message gives (trimmed).
pub open spec fn gate_spec(current: Seq<char>, has_session: bool, msg: MessageView) -> GateView {
    if current.len() == 0 {
        if msg.msg_type == "register"@ {
            GateView::Register
        } else if msg.msg_type == "login"@ {
            GateView::Login
        } else {
            GateView::Refuse("Vui lòng đăng nhập trước"@)
        }
    } else if has_session {
        GateView::Proceed
    } else if current != trimmed(msg.username) {
        GateView::Refuse("Phiên làm việc không hợp lệ (Session mismatch)"@)
    } else {
        GateView::Proceed
    }
}

/// The view of a gate decision.
pub open spec fn gate_view(g: Gate) -> GateView {
    match g {
        Gate::Proceed => GateView::Proceed,
        Gate::Register => GateView::Register,
        Gate::Login => GateView::Login,
        Gate::Refuse(s) => GateView::Refuse(s@),
    }
}

/// What to do with `msg` on a connection logged in as `current` (empty before login).
pub fn gate(current: &str, has_session: bool, msg: &ChatMessage) -> (g: Gate)
    ensures
        gate_view(g) == gate_spec(current@, has_session, msg@),
{
    if current.is_empty() {
        if str_eq(msg.msg_type.as_str(), "register") {
            Gate::Register
        } else if str_eq(msg.msg_type.as_str(), "login") {
            Gate::Login
        } else {
            Gate::Refuse("Vui lòng đăng nhập trước".to_owned())
        }
    } else if has_session {
        Gate::Proceed
    } else if !str_eq(current, trim(msg.username.as_str())) {
        Gate::Refuse("Phiên làm việc không hợp lệ (Session mismatch)".to_owned())
    } else {
        Gate::Proceed
    }
}

/// The names logged in after `user` logs in, where `online` were logged in
/// before: none where `user` is logged in already, on another connection.
pub open spec fn admit_spec(online: Set<Seq<char>>, user: Seq<char>) -> Option<Set<Seq<char>>> {
    if online.contains(user) {
        None
    } else {
        Some(online.insert(user))
    }
}

/// Admits a login of `user` among the names logged in: refused while the name is
/// logged in on another connection, else the name is logged in from now on.
pub fn admit_login(online: &mut StringHashSet, user: &str) -> (r: Result<(), String>)
    ensures
        match admit_spec(old(online)@, user@) {
            Some(after) => r is Ok && final(online)@ == after,
            None => (r matches Err(e) && e@ == "Tài khoản này đang đăng nhập ở nơi khác"@)
                && final(online)@ == old(online)@,
        },
{
    if online.contains(user) {
        return Err("Tài khoản này đang đăng nhập ở nơi khác".to_owned());
    }
    online.insert(user.to_owned());
    Ok(())
}

/// A name is logged in on one connection at a time: once admitted, a second login
/// under it is refused, and it is admitted again once its connection has closed.
pub proof fn law_one_connection_per_user(online: Set<Seq<char>>, user: Seq<char>)
    requires
        admit_spec(online, user) is Some,
    ensures
        admit_spec(online, user).unwrap().contains(user),
        admit_spec(admit_spec(online, user).unwrap(), user) is None,
        admit_spec(admit_spec(online, user).unwrap().remove(user), user) is Some,
{
}

/// Where a connection stands: the name it is logged in as (empty before login) and
/// whether it holds a session.
pub struct ConnView {
    pub current: Seq<char>,
    pub has_session: bool,
}

/// The connection after the frame `msg`, where `login` is the name that a login
/// attempt at this frame admitted (none where it failed or none was made).
pub open spec fn conn_step(c: ConnView, msg: MessageView, login: Option<Seq<char>>) -> ConnView {
    match gate_spec(c.current, c.has_session, msg) {
        GateView::Login => match login {
            Some(u) => ConnView { current: u, has_session: true },
            None => c,
        },
        _ => c,
    }
}

/// A connection after the frames `msgs`, from its opening; `logins[i]` is what a
/// login attempt at frame `i` admitted.
pub open spec fn conn_after(msgs: Seq<MessageView>, logins: Seq<Option<Seq<char>>>) -> ConnView
    decreases msgs.len(),
{
    if msgs.len() == 0 {
        ConnView { current: Seq::empty(), has_session: false }
    } else {
        conn_step(conn_after(msgs.drop_last(), logins), msgs.last(), logins[msgs.len() - 1])
    }
}

/// Frame `i` of a connection is handled as a request.
pub open spec fn handled_at(msgs: Seq<MessageView>, logins: Seq<Option<Seq<char>>>, i: int) -> bool {
    let c = conn_after(msgs.take(i), logins);
    gate_spec(c.current, c.has_session, msgs[i]) is Proceed
}

/// Frame `j` of a connection is a login that was admitted.
pub open spec fn logged_in_at(msgs: Seq<MessageView>, logins: Seq<Option<Seq<char>>>, j: int) -> bool {
    let c = conn_after(msgs.take(j), logins);
    gate_spec(c.current, c.has_session, msgs[j]) is Login && logins[j] is Some
}

proof fn lemma_named_after_login(msgs: Seq<MessageView>, logins: Seq<Option<Seq<char>>>, k: int)
    requires
        0 <= k <= msgs.len(),
    ensures
        conn_after(msgs.take(k), logins).current.len() > 0 ==> exists|j: int|
            0 <= j < k && #[trigger] logged_in_at(msgs, logins, j),
    decreases k,
{
    if k > 0 {
        lemma_named_after_login(msgs, logins, k - 1);
        assert(msgs.take(k).drop_last() =~= msgs.take(k - 1));
        assert(msgs.take(k).last() == msgs[k - 1]);
        let before = conn_after(msgs.take(k - 1), logins);
        let after = conn_after(msgs.take(k), logins);
        if after.current.len() > 0 && before.current != after.current {
            assert(logged_in_at(msgs, logins, k - 1));
        }
    }
}

/// Over a whole connection, no frame is handled as a request before a login on it
/// was admitted.
pub proof fn law_no_request_before_login(msgs: Seq<MessageView>, logins: Seq<Option<Seq<char>>>, i: int)
    requires
        0 <= i < msgs.len(),
    ensures
        handled_at(msgs, logins, i) ==> exists|j: int| 0 <= j < i && #[trigger] logged_in_at(msgs, logins, j),
{
    lemma_named_after_login(msgs, logins, i);
}

/// The account a registration message asks for: its name, e-mail address and phone
/// number, each trimmed.
pub struct Applicant {
    pub username: String,
    pub email: String,
    pub phone: String,
}

/// Checks a registration message: the trimmed e-mail address first, then the
/// trimmed phone number.
pub fn registration_check(msg: &ChatMessage) -> (r: Result<Applicant, String>)
    ensures
        !email_ok(trimmed(msg.email@)) ==> (r matches Err(e) && e@ == "Email không hợp lệ"@),
        email_ok(trimmed(msg.email@)) && !phone_ok(trimmed(msg.phone@)) ==> (r matches Err(e)
            && e@ == "Số điện thoại không hợp lệ"@),
        email_ok(trimmed(msg.email@)) && phone_ok(trimmed(msg.phone@)) ==> r is Ok,
        r matches Ok(a) ==> a.username@ == trimmed(msg.username@) && a.email@ == trimmed(msg.email@)
            && a.phone@ == trimmed(msg.phone@) && email_ok(a.email@) && phone_ok(a.phone@),
{
    let email = trim(msg.email.as_str());
    let phone = trim(msg.phone.as_str());
    if !validate_email(email) {
        return Err("Email không hợp lệ".to_owned());
    }
    if !validate_phone(phone) {
        return Err("Số điện thoại không hợp lệ".to_owned());
    }
    Ok(Applicant {
        username: trim(msg.username.as_str()).to_owned(),
        email: email.to_owned(),
        phone: phone.to_owned(),
    })
}

/// The two kinds of message a client sends to a room.
#[derive(Debug, Clone, Copy, PartialEq, Eq)]
pub enum MessageKind {
    Text,
    Media,
}

/// The message type of a kind.
pub open spec fn kind_type(kind: MessageKind) -> Seq<char> {
    match kind {
        MessageKind::Text => "message"@,
        MessageKind::Media => "media"@,
    }
}

/// Where a check on a room stands.
#[derive(Debug, Clone, PartialEq, Eq)]
pub enum Step {
    /// Drop the request without an answer.
    Ignore,
    /// Answer with this refusal.
    Refuse(String),
    /// Ask the database whether the sender and this user are friends, then check again.
    AskFriends(String),
    /// Ask the database whether the sender belongs to this group, then check again.
    AskMember(String),
    /// The request may go ahead.
    Accept,
}

/// The view of a step.
pub enum StepView {
    Ignore,
    Refuse(Seq<char>),
    AskFriends(Seq<char>),
    AskMember(Seq<char>),
    Accept,
}

/// The view of a step.
pub open spec fn step_view(s: Step) -> StepView {
    match s {
        Step::Ignore => StepView::Ignore,
        Step::Refuse(t) => StepView::Refuse(t@),
        Step::AskFriends(t) => StepView::AskFriends(t@),
        Step::AskMember(t) => StepView::AskMember(t@),
        Step::Accept => StepView::Accept,
    }
}

/// The other participant of a private room as the server picks it: the first
/// participant that is not `user`, or nobody (the empty name).
pub open spec fn private_target(room: Seq<char>, user: Seq<char>) -> Seq<char> {
    match first_other(participants_spec(room), user) {
        Some(p) => p,
        None => Seq::empty(),
    }
}

/// The largest attachment address accepted, in bytes.
pub open spec fn max_file_url_bytes() -> int {
    10485760int
}

/// The refusal of an attachment whose address is too long, naming its size.
pub open spec fn too_large_text(size: u64) -> Seq<char> {
    "File quá lớn! Tối đa 10MB (hiện tại: "@ + decimal(size as nat) + ")"@
}

/// The checks a message to a room passes, in order: the sender's permission; a room
/// name that is not blank; for media, attachment data of an accepted size; for a
/// private room, that the sender is one of its participants and a friend of the
/// other one; for a group room, that the sender belongs to the group; for any other
/// than a private room, that the connection has joined it. `friends` and `member`
/// are the database's answers, where it was asked.
pub open spec fn send_step_spec(
    session: UserSession,
    joined: Set<Seq<char>>,
    msg: MessageView,
    kind: MessageKind,
    friends: Option<bool>,
    member: Option<bool>,
) -> StepView {
    let room = msg.room;
    let user = session.username@;
    let request = match kind {
        MessageKind::Text => Request::Message,
        MessageKind::Media => Request::Media,
    };
    let target = private_target(room, user);
    if permission_refusal(session, request) is Some {
        StepView::Refuse(permission_refusal(session, request).unwrap())
    } else if trimmed(room).len() == 0 {
        StepView::Refuse("Room name is required"@)
    } else if kind == MessageKind::Media && msg.media is None {
        StepView::Refuse("Media metadata is required"@)
    } else if kind == MessageKind::Media && encode_utf8(msg.media.unwrap().file_url).len() as usize
        > max_file_url_bytes() {
        StepView::Refuse(too_large_text(msg.media.unwrap().file_size))
    } else if is_private_spec(room) && !participants_spec(room).contains(user) {
        StepView::Refuse("Access denied to private room"@)
    } else if is_private_spec(room) && target.len() == 0 {
        StepView::Refuse("Only friends can use private chat"@)
    } else if is_private_spec(room) && friends is None {
        StepView::AskFriends(target)
    } else if is_private_spec(room) && friends == Some(false) {
        StepView::Refuse("Only friends can use private chat"@)
    } else if group_name_spec(room) is Some && member is None {
        StepView::AskMember(group_name_spec(room).unwrap())
    } else if group_name_spec(room) is Some && member == Some(false) {
        StepView::Refuse(
            match kind {
                MessageKind::Text => "Join the group before sending messages"@,
                MessageKind::Media => "Join the group before sending media"@,
            },
        )
    } else if !is_private_spec(room) && !joined.contains(room) {
        StepView::Refuse(
            match kind {
                MessageKind::Text => "Join the room before sending messages"@,
                MessageKind::Media => "Join the room before sending media"@,
            },
        )
    } else {
        StepView::Accept
    }
}

/// The participant of a private room that is not `user`, as the server picks it.
pub fn private_room_target(room: &str, user: &str) -> (t: String)
    ensures
        t@ == private_target(room@, user@),
{
    let ps = private_room_participants(room);
    let ghost pv = string_views(ps@);
    let mut i: usize = 0;
    assert(pv.skip(0) =~= pv);
    while i < ps.len()
        invariant
            pv == string_views(ps@),
            pv == participants_spec(room@),
            i <= ps.len(),
            first_other(pv, user@) == first_other(pv.skip(i as int), user@),
        decreases ps.len() - i,
    {
        assert(pv.skip(i as int)[0] == pv[i as int]);
        if !str_eq(ps[i].as_str(), user) {
            return ps[i].clone();
        }
        assert(pv.skip(i as int).drop_first() =~= pv.skip(i + 1));
        i = i + 1;
    }
    assert(pv.skip(i as int) =~= Seq::<Seq<char>>::empty());
    String::new()
}

/// The refusal of an attachment whose address is too long.
fn too_large_notice(size: u64) -> (t: String)
    ensures
        t@ == too_large_text(size),
{
    let mut t = "File quá lớn! Tối đa 10MB (hiện tại: ".to_owned();
    let digits = to_decimal(size as u128);
    t.append(digits.as_str());
    t.append(")");
    t
}

/// Where a message to a room stands, given the database's answers so far.
pub fn send_step(
    session: &UserSession,
    joined: &StringHashSet,
    msg: &ChatMessage,
    kind: MessageKind,
    friends: Option<bool>,
    member: Option<bool>,
) -> (s: Step)
    ensures
        step_view(s) == send_step_spec(*session, joined@, msg@, kind, friends, member),
{
    let request = match kind {
        MessageKind::Text => Request::Message,
        MessageKind::Media => Request::Media,
    };
    match permission_gate(session, request) {
        Err(notice) => return Step::Refuse(notice),
        Ok(()) => {},
    }
    let room = msg.room.as_str();
    if trim(room).is_empty() {
        return Step::Refuse("Room name is required".to_owned());
    }
    if let MessageKind::Media = kind {
        match &msg.media {
            None => return Step::Refuse("Media metadata is required".to_owned()),
            Some(media) => {
                if media.file_url.as_str().len() > 10 * 1024 * 1024 {
                    return Step::Refuse(too_large_notice(media.file_size));
                }
            },
        }
    }
    let private = is_private_room(room);
    let user = session.username.as_str();
    if private && !private_room_contains_user(room, user) {
        return Step::Refuse("Access denied to private room".to_owned());
    }
    if private {
        let target = private_room_target(room, user);
        if target.as_str().is_empty() {
            return Step::Refuse("Only friends can use private chat".to_owned());
        }
        match friends {
            None => return Step::AskFriends(target),
            Some(false) => return Step::Refuse("Only friends can use private chat".to_owned()),
            Some(true) => {},
        }
    }
    match group_room_name(room) {
        Some(name) => {
            proof {
                reveal_strlit("group:");
            }
            match member {
                None => return Step::AskMember(name.to_owned()),
                Some(false) => {
                    return Step::Refuse(
                        match kind {
                            MessageKind::Text => "Join the group before sending messages".to_owned(),
                            MessageKind::Media => "Join the group before sending media".to_owned(),
                        },
                    )
                },
                Some(true) => {},
            }
        },
        None => {},
    }
    if !private && !joined.contains(room) {
        return Step::Refuse(
            match kind {
                MessageKind::Text => "Join the room before sending messages".to_owned(),
                MessageKind::Media => "Join the room before sending media".to_owned(),
            },
        );
    }
    Step::Accept
}

/// The checks a request to join a room passes, in order: the room name, trimmed,
/// must not be blank, and a private room must name the requester (both are dropped
/// silently); a private room needs the other participant to be a friend; a group room
/// needs the requester to belong to the group.
pub open spec fn join_step_spec(
    session: UserSession,
    requested: Seq<char>,
    friends: Option<bool>,
    member: Option<bool>,
) -> StepView {
    let room = trimmed(requested);
    let user = session.username@;
    let target = private_target(room, user);
    if room.len() == 0 {
        StepView::Ignore
    } else if is_private_spec(room) && !participants_spec(room).contains(user) {
        StepView::Ignore
    } else if is_private_spec(room) && target.len() == 0 {
        StepView::Refuse("Only friends can use private chat"@)
    } else if is_private_spec(room) && friends is None {
        StepView::AskFriends(target)
    } else if is_private_spec(room) && friends == Some(false) {
        StepView::Refuse("Only friends can use private chat"@)
    } else if group_name_spec(room) is Some && member is None {
        StepView::AskMember(group_name_spec(room).unwrap())
    } else if group_name_spec(room) is Some && member == Some(false) {
        StepView::Refuse("You are not a member of this group"@)
    } else {
        StepView::Accept
    }
}

/// Where a request to join `requested` stands, given the database's answers so far.
pub fn join_step(session: &UserSession, requested: &str, friends: Option<bool>, member: Option<bool>) -> (s:
    Step)
    ensures
        step_view(s) == join_step_spec(*session, requested@, friends, member),
{
    let room = trim(requested);
    if room.is_empty() {
        return Step::Ignore;
    }
    let private = is_private_room(room);
    let user = session.username.as_str();
    if private && !private_room_contains_user(room, user) {
        return Step::Ignore;
    }
    if private {
        let target = private_room_target(room, user);
        if target.as_str().is_empty() {
            return Step::Refuse("Only friends can use private chat".to_owned());
        }
        match friends {
            None => return Step::AskFriends(target),
            Some(false) => return Step::Refuse("Only friends can use private chat".to_owned()),
            Some(true) => {},
        }
    }
    match group_room_name(room) {
        Some(name) => {
            match member {
                None => return Step::AskMember(name.to_owned()),
                Some(false) => return Step::Refuse("You are not a member of this group".to_owned()),
                Some(true) => {},
            }
        },
        None => {},
    }
    Step::Accept
}

/// The message that goes out for an accepted message to a room, stamped at `secs`:
/// the sender is the session's user, the text and room are the request's, the
/// target is the other participant of a private room (nobody otherwise), the media
/// are the request's for a media message, the avatar is the session's.
pub open spec fn outgoing_view(session: UserSession, msg: MessageView, kind: MessageKind, secs: u64) -> MessageView {
    MessageView {
        target: if is_private_spec(msg.room) {
            private_target(msg.room, session.username@)
        } else {
            Seq::empty()
        },
        media: match kind {
            MessageKind::Text => None,
            MessageKind::Media => msg.media,
        },
        sender_avatar: opt_view(session.avatar_url),
        ..stamped_view(kind_type(kind), session.username@, msg.content, msg.room, secs)
    }
}

/// The message that goes out for an accepted message to a room, stamped at `secs`.
pub fn outgoing_message_at(session: &UserSession, msg: &ChatMessage, kind: MessageKind, secs: u64) -> (m:
    ChatMessage)
    ensures
        m@ == outgoing_view(*session, msg@, kind, secs),
{
    let msg_type = match kind {
        MessageKind::Text => "message",
        MessageKind::Media => "media",
    };
    let mut m = ChatMessage::new_at(msg_type, session.username.as_str(), msg.content.as_str(), msg.room.as_str(), secs);
    m.target = if is_private_room(msg.room.as_str()) {
        private_room_target(msg.room.as_str(), session.username.as_str())
    } else {
        String::new()
    };
    m.password = String::new();
    if let MessageKind::Media = kind {
        m.media = copy_media(&msg.media);
    }
    m.sender_avatar = copy_opt(&session.avatar_url);
    m
}

/// The message that goes out for an accepted message to a room, stamped now.
pub fn outgoing_message(session: &UserSession, msg: &ChatMessage, kind: MessageKind) -> (m: ChatMessage)
    ensures
        exists|secs: u64| m@ == outgoing_view(*session, msg@, kind, secs),
{
    let secs = secs_since_epoch();
    outgoing_message_at(session, msg, kind, secs)
}

/// Checks a request to take back a message: the permission, then a message id, given
/// in the request's content, that is not blank. Gives that id as the request holds it.
pub fn delete_check(session: &UserSession, msg: &ChatMessage) -> (r: Result<String, String>)
    ensures
        permission_refusal(*session, Request::Delete) is Some ==> (r matches Err(e) && e@
            == permission_refusal(*session, Request::Delete).unwrap()),
        permission_refusal(*session, Request::Delete) is None && trimmed(msg.content@).len() == 0
            ==> (r matches Err(e) && e@ == "Message ID is required for deletion"@),
        permission_refusal(*session, Request::Delete) is None && trimmed(msg.content@).len() > 0
            ==> (r matches Ok(id) && id@ == msg.content@),
{
    permission_gate(session, Request::Delete)?;
    if trim(msg.content.as_str()).is_empty() {
        return Err("Message ID is required for deletion".to_owned());
    }
    Ok(msg.content.clone())
}

/// Checks a request to change a message: the permission, a message id, given in the
/// request's target, that is not blank, then a new text, given in its content, that
/// is not blank. Gives that id as the request holds it.
pub fn edit_check(session: &UserSession, msg: &ChatMessage) -> (r: Result<String, String>)
    ensures
        permission_refusal(*session, Request::Edit) is Some ==> (r matches Err(e) && e@
            == permission_refusal(*session, Request::Edit).unwrap()),
        permission_refusal(*session, Request::Edit) is None && trimmed(msg.target@).len() == 0
            ==> (r matches Err(e) && e@ == "Message ID is required for edit"@),
        permission_refusal(*session, Request::Edit) is None && trimmed(msg.target@).len() > 0
            && trimmed(msg.content@).len() == 0 ==> (r matches Err(e) && e@
            == "New content is required for edit"@),
        permission_refusal(*session, Request::Edit) is None && trimmed(msg.target@).len() > 0
            && trimmed(msg.content@).len() > 0 ==> (r matches Ok(id) && id@ == msg.target@),
{
    permission_gate(session, Request::Edit)?;
    if trim(msg.target.as_str()).is_empty() {
        return Err("Message ID is required for edit".to_owned());
    }
    if trim(msg.content.as_str()).is_empty() {
        return Err("New content is required for edit".to_owned());
    }
    Ok(msg.target.clone())
}

/// The acknowledgement of a message taken back, in the request's room.
pub fn delete_ack(room: &str) -> (m: ChatMessage)
    ensures
        m@ == simple_view("delete_ack"@, "SYSTEM"@, "Message deleted successfully"@, room@),
{
    ChatMessage::simple("delete_ack", "SYSTEM", "Message deleted successfully", room)
}

/// The acknowledgement of a message changed, in the request's room.
pub fn edit_ack(room: &str) -> (m: ChatMessage)
    ensures
        m@ == simple_view("edit_ack"@, "SYSTEM"@, "Message edited successfully"@, room@),
{
    ChatMessage::simple("edit_ack", "SYSTEM", "Message edited successfully", room)
}

/// The text of the acknowledgement of a media message.
pub open spec fn media_ack_text(file_name: Seq<char>) -> Seq<char> {
    "Media sent: "@ + file_name
}

/// The acknowledgement of a media message that went out: it names the file, stands
/// in the message's room and carries the message's time.
pub fn media_ack(sent: &ChatMessage) -> (m: Option<ChatMessage>)
    ensures
        match sent.media {
            Some(media) => m matches Some(a) && a@ == (MessageView {
                timestamp: sent.timestamp,
                ..simple_view("media_ack"@, "SYSTEM"@, media_ack_text(media.file_name@), sent.room@)
            }),
            None => m is None,
        },
{
    match &sent.media {
        Some(media) => {
            let mut text = "Media sent: ".to_owned();
            text.append(media.file_name.as_str());
            let mut a = ChatMessage::simple("media_ack", "SYSTEM", text.as_str(), sent.room.as_str());
            a.timestamp = sent.timestamp;
            Some(a)
        },
        None => None,
    }
}

/// The group a group request names: the name after `group:` in its room, or else
/// its room trimmed.
pub fn group_target(room: &str) -> (g: &str)
    ensures
        g@ == (match group_name_spec(room@) {
            Some(n) => n,
            None => trimmed(room@),
        }),
{
    match group_room_name(room) {
        Some(name) => name,
        None => trim(room),
    }
}

impl UserSession {
    /// Takes the display name and avatar of a profile that was just saved.
    pub fn apply_profile(&mut self, profile: ProfileInfo)
        ensures
            final(self).user_id == old(self).user_id,
            final(self).username == old(self).username,
            final(self).role == old(self).role,
            final(self).permissions == old(self).permissions,
            final(self).email == old(self).email,
            final(self).phone == old(self).phone,
            opt_view(final(self).display_name) == Some(profile.display_name@),
            opt_view(final(self).avatar_url) == opt_view(profile.avatar_url),
    {
        self.display_name = Some(profile.display_name);
        self.avatar_url = profile.avatar_url;
    }
}

/// What came of trying to listen on a port.
#[derive(Debug, Clone, Copy, PartialEq, Eq)]
pub enum BindOutcome {
    /// The port is now listened on.
    Bound,
    /// The port is taken.
    InUse,
    /// Binding failed for another reason.
    Failed,
}

/// What the server does next while looking for a port to listen on.
#[derive(Debug, Clone, Copy, PartialEq, Eq)]
pub enum PortAction {
    /// Serve on the port just bound.
    Serve,
    /// Try this port next.
    Try(u16),
    /// Every port of the range is taken: report the address as in use.
    AllInUse,
    /// Stop with the error that binding gave.
    Stop,
}

/// The first action for the ports from `start` to `end`, both included.
pub open spec fn first_port_spec(start: u16, end: u16) -> PortAction {
    if start <= end {
        PortAction::Try(start)
    } else {
        PortAction::AllInUse
    }
}

/// The next action after trying `port` of a range that ends at `end`: serve where it
/// was bound, stop on an error other than a taken port, else try the next port, and
/// once the range is exhausted report every port as in use.
pub open spec fn port_step_spec(port: u16, end: u16, outcome: BindOutcome) -> PortAction {
    match outcome {
        BindOutcome::Bound => PortAction::Serve,
        BindOutcome::Failed => PortAction::Stop,
        BindOutcome::InUse => if port < end {
            PortAction::Try((port + 1) as u16)
        } else {
            PortAction::AllInUse
        },
    }
}

/// The first action for the ports from `start` to `end`, both included.
pub fn first_port(start: u16, end: u16) -> (a: PortAction)
    ensures
        a == first_port_spec(start, end),
{
    if start <= end {
        PortAction::Try(start)
    } else {
        PortAction::AllInUse
    }
}

/// The next action after trying `port` of a range that ends at `end`.
pub fn port_step(port: u16, end: u16, outcome: BindOutcome) -> (a: PortAction)
    ensures
        a == port_step_spec(port, end, outcome),
{
    match outcome {
        BindOutcome::Bound => PortAction::Serve,
        BindOutcome::Failed => PortAction::Stop,
        BindOutcome::InUse => if port < end {
            PortAction::Try(port + 1)
        } else {
            PortAction::AllInUse
        },
    }
}

/// The ports are tried in rising order and never beyond the end of the range, so
/// the search ends.
pub proof fn law_ports_tried_in_order(start: u16, port: u16, end: u16, outcome: BindOutcome)
    ensures
        first_port_spec(start, end) matches PortAction::Try(p) ==> start <= p <= end,
        port_step_spec(port, end, outcome) matches PortAction::Try(p) ==> port < p <= end,
{
}

/// A message is accepted for a private room only from one of its participants who
/// is a friend of the other one (the database said so).
pub proof fn law_private_send_needs_friendship(
    session: UserSession,
    joined: Set<Seq<char>>,
    msg: MessageView,
    kind: MessageKind,
    friends: Option<bool>,
    member: Option<bool>,
)
    requires
        send_step_spec(session, joined, msg, kind, friends, member) is Accept,
        is_private_spec(msg.room),
    ensures
        participants_spec(msg.room).contains(session.username@),
        private_target(msg.room, session.username@).len() > 0,
        friends == Some(true),
{
}

/// A message is accepted for a group room only from a member of the group, and for
/// any other public room only on a connection that has joined it.
pub proof fn law_room_send_needs_membership(
    session: UserSession,
    joined: Set<Seq<char>>,
    msg: MessageView,
    kind: MessageKind,
    friends: Option<bool>,
    member: Option<bool>,
)
    requires
        send_step_spec(session, joined, msg, kind, friends, member) is Accept,
    ensures
        group_name_spec(msg.room) is Some ==> member == Some(true),
        !is_private_spec(msg.room) ==> joined.contains(msg.room),
        trimmed(msg.room).len() > 0,
{
}

/// A message is accepted only from a session that holds the permission its kind
/// needs, and a media message only with its attachment data.
pub proof fn law_send_needs_permission(
    session: UserSession,
    joined: Set<Seq<char>>,
    msg: MessageView,
    kind: MessageKind,
    friends: Option<bool>,
    member: Option<bool>,
)
    requires
        send_step_spec(session, joined, msg, kind, friends, member) is Accept,
    ensures
        kind == MessageKind::Text ==> has_permission_spec(session, "chat.send"@),
        kind == MessageKind::Media ==> has_permission_spec(session, "chat.media"@) && msg.media is Some,
{
}

/// Entering a private room is granted only to a participant who is a friend of the
/// other one; entering a group room only to a member of the group.
pub proof fn law_join_needs_access(session: UserSession, requested: Seq<char>, friends: Option<bool>, member: Option<bool>)
    requires
        join_step_spec(session, requested, friends, member) is Accept,
    ensures
        is_private_spec(trimmed(requested)) ==> participants_spec(trimmed(requested)).contains(session.username@)
            && friends == Some(true),
        group_name_spec(trimmed(requested)) is Some ==> member == Some(true),
{
}

/// Before login, no request is handled: only registration and login are taken up.
pub proof fn law_nothing_before_login(msg: MessageView)
    ensures
        !(gate_spec(Seq::empty(), false, msg) is Proceed),
        !(gate_spec(Seq::empty(), true, msg) is Proceed),
{
}

/// The administrators' requests are refused to every session without the permission
/// to manage users.
pub proof fn law_admin_requests_need_permission(session: UserSession, t: Seq<char>)
    requires
        request_of(t) == Request::AdminUsersList || request_of(t) == Request::AdminUserUpdate,
        !has_permission_spec(session, "admin.manage_users"@),
    ensures
        permission_refusal(session, request_of(t)) == Some(
            "You do not have permission to manage users"@,
        ),
{
}

/// A name that starts with a character other than white space stays non-blank
/// once trimmed.
proof fn lemma_trimmed_nonblank(s: Seq<char>)
    requires
        s.len() > 0,
        !is_white_space(s[0]),
    ensures
        trimmed(s).len() > 0,
{
    assert(trim_start(s) == s);
    lemma_trim_end_nonempty(s);
}

proof fn lemma_trim_end_nonempty(s: Seq<char>)
    requires
        s.len() > 0,
        !is_white_space(s[0]),
    ensures
        trim_end(s).len() > 0,
    decreases s.len(),
{
    if s.len() > 1 && is_white_space(s.last()) {
        assert(s.drop_last()[0] == s[0]);
        lemma_trim_end_nonempty(s.drop_last());
    }
}

/// A private room is no group room, and a group room no private one.
proof fn lemma_private_not_group(room: Seq<char>)
    ensures
        is_private_spec(room) ==> group_name_spec(room) is None,
        group_name_spec(room) is Some ==> !is_private_spec(room),
{
    if is_private_spec(room) && has_prefix(room, group_prefix()) {
        assert(room.take(3)[0] == room[0]);
        assert(room.take(6)[0] == room[0]);
        assert(dm_prefix()[0] != group_prefix()[0]);
    }
}

/// A member of a group enters its room: once the database says the requester belongs
/// to the group, joining a group room is granted.
pub proof fn law_member_enters_group(session: UserSession, requested: Seq<char>, friends: Option<bool>)
    requires
        group_name_spec(trimmed(requested)) is Some,
    ensures
        join_step_spec(session, requested, friends, Some(true)) == StepView::Accept,
{
    let room = trimmed(requested);
    lemma_private_not_group(room);
}

/// Sending to a private room asks nothing more of text than of media: a participant
/// who holds the permission its kind needs, whose conversation names another
/// participant that is a friend, and whose media (for a media message) is given and
/// small enough, has the message accepted, whatever rooms the connection joined.
pub proof fn law_private_send_accepted(
    session: UserSession,
    joined: Set<Seq<char>>,
    msg: MessageView,
    kind: MessageKind,
    member: Option<bool>,
)
    requires
        is_private_spec(msg.room),
        participants_spec(msg.room).contains(session.username@),
        private_target(msg.room, session.username@).len() > 0,
        permission_refusal(
            session,
            match kind {
                MessageKind::Text => Request::Message,
                MessageKind::Media => Request::Media,
            },
        ) is None,
        kind == MessageKind::Media ==> (msg.media is Some && encode_utf8(msg.media.unwrap().file_url).len() as usize
            <= max_file_url_bytes()),
    ensures
        send_step_spec(session, joined, msg, kind, Some(true), member) == StepView::Accept,
{
    let room = msg.room;
    assert(room.take(3)[0] == room[0]);
    assert(dm_prefix()[0] == 'd');
    lemma_trimmed_nonblank(room);
    lemma_private_not_group(room);
}

/// What goes out for an accepted message carries what was asked: the request's text
/// and room, the session's user as sender, the type of its kind, the id made of the
/// sender and the time, that time, and, for media, the request's media.
pub proof fn law_outgoing_carries_request(session: UserSession, msg: MessageView, kind: MessageKind, secs: u64)
    ensures
        outgoing_view(session, msg, kind, secs).content == msg.content,
        outgoing_view(session, msg, kind, secs).room == msg.room,
        outgoing_view(session, msg, kind, secs).username == session.username@,
        outgoing_view(session, msg, kind, secs).msg_type == (match kind {
            MessageKind::Text => "message"@,
            MessageKind::Media => "media"@,
        }),
        outgoing_view(session, msg, kind, secs).message_id == session.username@ + "-"@ + decimal(secs as nat),
        outgoing_view(session, msg, kind, secs).timestamp == secs,
        kind == MessageKind::Media ==> outgoing_view(session, msg, kind, secs).media == msg.media,
        kind == MessageKind::Text ==> outgoing_view(session, msg, kind, secs).media is None,
{
    reveal_strlit("-");
    assert("-"@ =~= seq!['-']);
}

} // verus!
