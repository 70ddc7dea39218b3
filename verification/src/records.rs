//! What the server reads from and writes to its database, as plain values, and the
//! decisions it makes between one query and the next.

use vstd::prelude::*;
use crate::message::{ChatMessage, MediaInfo, MessageView, MediaView, empty_view, media_view, opt_view, copy_opt};
use crate::text::{str_eq, trim, trimmed};

verus! {

/// A user's profile.
#[derive(Debug, Clone, PartialEq, Eq)]
pub struct ProfileInfo {
    pub username: String,
    pub email: String,
    pub phone: String,
    pub display_name: String,
    pub bio: String,
    pub avatar_url: Option<String>,
    pub role: String,
}

/// What another user sees of a user.
#[derive(Debug, Clone, PartialEq, Eq)]
pub struct UserSummary {
    pub username: String,
    pub display_name: String,
    pub bio: String,
    pub avatar_url: Option<String>,
}

/// What an administrator sees of a user.
#[derive(Debug, Clone, PartialEq, Eq)]
pub struct AdminUserSummary {
    pub id: i32,
    pub username: String,
    pub display_name: String,
    pub role: String,
    pub is_active: bool,
    pub created_at: String,
    pub last_login_at: Option<String>,
}

/// The users an administrator asked for.
#[derive(Debug, Clone, PartialEq, Eq)]
pub struct AdminUserList {
    pub users: Vec<AdminUserSummary>,
}

/// A user's friends and pending friend requests.
#[derive(Debug, Clone, PartialEq, Eq)]
pub struct FriendLists {
    pub friends: Vec<UserSummary>,
    pub incoming: Vec<UserSummary>,
    pub outgoing: Vec<UserSummary>,
}

/// A group as one of its members or invitees sees it.
#[derive(Debug, Clone, PartialEq, Eq)]
pub struct GroupSummary {
    pub name: String,
    pub role: String,
    pub owner: String,
}

/// A request to join a group that its owner has still to answer.
#[derive(Debug, Clone, PartialEq, Eq)]
pub struct PendingGroupItem {
    pub group: String,
    pub username: String,
}

/// A user's groups, group invitations, and join requests to the groups it owns.
#[derive(Debug, Clone, PartialEq, Eq)]
pub struct GroupLists {
    pub groups: Vec<GroupSummary>,
    pub invites: Vec<GroupSummary>,
    pub join_requests: Vec<PendingGroupItem>,
}

/// A text column as read: its value, or the empty text where it held none.
pub open spec fn or_empty(o: Option<String>) -> Seq<char> {
    match o {
        Some(s) => s@,
        None => Seq::empty(),
    }
}

/// The value of a text column, or the empty text.
pub fn text_or_empty(o: Option<String>) -> (r: String)
    ensures
        r@ == or_empty(o),
{
    match o {
        Some(s) => s,
        None => String::new(),
    }
}

/// The columns of a profile row.
pub struct ProfileRow {
    pub username: Option<String>,
    pub email: Option<String>,
    pub phone: Option<String>,
    pub display_name: Option<String>,
    pub bio: Option<String>,
    pub avatar_url: Option<String>,
    pub role: Option<String>,
}

/// The profile a row holds; missing texts read as empty.
pub fn profile_from_row(row: ProfileRow) -> (p: ProfileInfo)
    ensures
        p.username@ == or_empty(row.username),
        p.email@ == or_empty(row.email),
        p.phone@ == or_empty(row.phone),
        p.display_name@ == or_empty(row.display_name),
        p.bio@ == or_empty(row.bio),
        opt_view(p.avatar_url) == opt_view(row.avatar_url),
        p.role@ == or_empty(row.role),
{
    ProfileInfo {
        username: text_or_empty(row.username),
        email: text_or_empty(row.email),
        phone: text_or_empty(row.phone),
        display_name: text_or_empty(row.display_name),
        bio: text_or_empty(row.bio),
        avatar_url: row.avatar_url,
        role: text_or_empty(row.role),
    }
}

/// The columns of a user row: name, display name, bio, avatar.
pub struct UserRow {
    pub username: Option<String>,
    pub display_name: Option<String>,
    pub bio: Option<String>,
    pub avatar_url: Option<String>,
}

/// The summary a user row holds; missing texts read as empty.
pub fn user_summary_from_row(row: UserRow) -> (u: UserSummary)
    ensures
        u.username@ == or_empty(row.username),
        u.display_name@ == or_empty(row.display_name),
        u.bio@ == or_empty(row.bio),
        opt_view(u.avatar_url) == opt_view(row.avatar_url),
{
    UserSummary {
        username: text_or_empty(row.username),
        display_name: text_or_empty(row.display_name),
        bio: text_or_empty(row.bio),
        avatar_url: row.avatar_url,
    }
}

/// The columns of a row of the administrators' user list.
pub struct AdminUserRow {
    pub id: Option<i32>,
    pub username: Option<String>,
    pub display_name: Option<String>,
    pub role: Option<String>,
    pub is_active: Option<bool>,
    pub created_at: Option<String>,
    pub last_login_at: Option<String>,
}

/// The summary a row of the administrators' user list holds: a missing id reads as
/// 0, a missing flag as inactive, missing texts as empty.
pub fn admin_user_summary_from_row(row: AdminUserRow) -> (u: AdminUserSummary)
    ensures
        u.id == (match row.id {
            Some(i) => i,
            None => 0i32,
        }),
        u.username@ == or_empty(row.username),
        u.display_name@ == or_empty(row.display_name),
        u.role@ == or_empty(row.role),
        u.is_active == (row.is_active == Some(true)),
        u.created_at@ == or_empty(row.created_at),
        opt_view(u.last_login_at) == opt_view(row.last_login_at),
{
    AdminUserSummary {
        id: match row.id {
            Some(i) => i,
            None => 0,
        },
        username: text_or_empty(row.username),
        display_name: text_or_empty(row.display_name),
        role: text_or_empty(row.role),
        is_active: match row.is_active {
            Some(b) => b,
            None => false,
        },
        created_at: text_or_empty(row.created_at),
        last_login_at: row.last_login_at,
    }
}

/// The columns of a group row: name, the user's role in it, owner.
pub struct GroupRow {
    pub name: Option<String>,
    pub role: Option<String>,
    pub owner: Option<String>,
}

/// The summary a group row holds; missing texts read as empty.
pub fn group_summary_from_row(row: GroupRow) -> (g: GroupSummary)
    ensures
        g.name@ == or_empty(row.name),
        g.role@ == or_empty(row.role),
        g.owner@ == or_empty(row.owner),
{
    GroupSummary {
        name: text_or_empty(row.name),
        role: text_or_empty(row.role),
        owner: text_or_empty(row.owner),
    }
}

/// The item a join-request row holds (group, requester); missing texts read as empty.
pub fn pending_item_from_row(group: Option<String>, username: Option<String>) -> (p: PendingGroupItem)
    ensures
        p.group@ == or_empty(group),
        p.username@ == or_empty(username),
{
    PendingGroupItem { group: text_or_empty(group), username: text_or_empty(username) }
}

/// The columns of a chat history row.
pub struct HistoryRow {
    pub message_id: Option<String>,
    pub sender: Option<String>,
    pub message: Option<String>,
    pub room: Option<String>,
    pub msg_type: Option<String>,
    pub is_deleted: Option<bool>,
    pub media_type: Option<String>,
    pub file_url: Option<String>,
    pub file_name: Option<String>,
    pub file_size: Option<i64>,
    pub mime_type: Option<String>,
    pub created_timestamp: Option<i64>,
    pub sender_avatar: Option<String>,
}

/// A count that may be negative, clamped at 0.
pub open spec fn clamp_nonneg(o: Option<i64>) -> u64 {
    match o {
        Some(v) => if v < 0 {
            0u64
        } else {
            v as u64
        },
        None => 0u64,
    }
}

/// The message a history row holds: a deleted row shows as `deleted` and without
/// media; otherwise its type (`message` where missing), and its media where the row
/// names a media type; negative sizes and times read as 0, missing texts as empty.
pub open spec fn history_view(row: HistoryRow) -> MessageView {
    let deleted = row.is_deleted == Some(true);
    MessageView {
        msg_type: if deleted {
            seq!['d', 'e', 'l', 'e', 't', 'e', 'd']
        } else {
            match row.msg_type {
                Some(t) => t@,
                None => seq!['m', 'e', 's', 's', 'a', 'g', 'e'],
            }
        },
        username: or_empty(row.sender),
        content: or_empty(row.message),
        room: or_empty(row.room),
        message_id: or_empty(row.message_id),
        timestamp: clamp_nonneg(row.created_timestamp),
        sender_avatar: opt_view(row.sender_avatar),
        media: if !deleted && row.media_type is Some {
            Some(
                MediaView {
                    media_type: row.media_type.unwrap()@,
                    file_url: or_empty(row.file_url),
                    file_name: or_empty(row.file_name),
                    file_size: clamp_nonneg(row.file_size),
                    mime_type: opt_view(row.mime_type),
                },
            )
        } else {
            None
        },
        ..empty_view()
    }
}

fn clamp(o: Option<i64>) -> (r: u64)
    ensures
        r == clamp_nonneg(o),
{
    match o {
        Some(v) => if v < 0 {
            0
        } else {
            v as u64
        },
        None => 0,
    }
}

/// The message that a history row holds.
pub fn message_from_row(row: HistoryRow) -> (m: ChatMessage)
    ensures
        m@ == history_view(row),
{
    proof {
        reveal_strlit("deleted");
        reveal_strlit("message");
    }
    let ghost g = row;
    let deleted = match row.is_deleted {
        Some(b) => b,
        None => false,
    };
    let mut m = ChatMessage::default();
    m.msg_type = if deleted {
        "deleted".to_owned()
    } else {
        match row.msg_type {
            Some(t) => t,
            None => "message".to_owned(),
        }
    };
    m.username = text_or_empty(row.sender);
    m.content = text_or_empty(row.message);
    m.room = text_or_empty(row.room);
    m.message_id = text_or_empty(row.message_id);
    m.timestamp = clamp(row.created_timestamp);
    m.sender_avatar = row.sender_avatar;
    if !deleted {
        match row.media_type {
            Some(media_type) => {
                m.media = Some(
                    MediaInfo {
                        media_type,
                        file_url: text_or_empty(row.file_url),
                        file_name: text_or_empty(row.file_name),
                        file_size: clamp(row.file_size),
                        mime_type: row.mime_type,
                    },
                );
            },
            None => {},
        }
    }
    assert("deleted"@ =~= seq!['d', 'e', 'l', 'e', 't', 'e', 'd']);
    assert("message"@ =~= seq!['m', 'e', 's', 's', 'a', 'g', 'e']);
    m
}

/// The messages that history rows hold, in the order of the rows.
pub fn rows_to_messages(rows: Vec<HistoryRow>) -> (r: Vec<ChatMessage>)
    ensures
        r.len() == rows.len(),
        forall|i: int| 0 <= i < rows.len() ==> #[trigger] r@[i]@ == history_view(rows@[i]),
{
    let mut rows = rows;
    let ghost all = rows@;
    let mut out: Vec<ChatMessage> = Vec::new();
    // Rows are taken from the back, then the messages put back in order.
    let mut rev: Vec<ChatMessage> = Vec::new();
    while rows.len() > 0
        invariant
            rows@ == all.take(rows.len() as int),
            rows.len() + rev.len() == all.len(),
            forall|i: int| 0 <= i < rev.len() ==> #[trigger] rev@[i]@ == history_view(all[all.len() - 1 - i]),
        decreases rows.len(),
    {
        let row = rows.pop().unwrap();
        rev.push(message_from_row(row));
        assert(rows@ =~= all.take(rows.len() as int));
    }
    while rev.len() > 0
        invariant
            rev.len() + out.len() == all.len(),
            forall|i: int| 0 <= i < rev.len() ==> #[trigger] rev@[i]@ == history_view(all[all.len() - 1 - i]),
            forall|i: int| 0 <= i < out.len() ==> #[trigger] out@[i]@ == history_view(all[i]),
        decreases rev.len(),
    {
        let m = rev.pop().unwrap();
        out.push(m);
    }
    out
}

/// The media columns a message is stored with: type, address, file name, size and
/// MIME type of its media, all empty for a message without media.
pub open spec fn media_columns(media: Option<MediaView>) -> (
    Option<Seq<char>>,
    Option<Seq<char>>,
    Option<Seq<char>>,
    Option<i64>,
    Option<Seq<char>>,
) {
    match media {
        Some(m) => (Some(m.media_type), Some(m.file_url), Some(m.file_name), Some(m.file_size as i64), m.mime_type),
        None => (None, None, None, None, None),
    }
}

/// The media columns of a message to store: type, address, file name, size, MIME
/// type; all empty for a message without media.
pub fn media_params(msg: &ChatMessage) -> (r: (
    Option<String>,
    Option<String>,
    Option<String>,
    Option<i64>,
    Option<String>,
))
    ensures
        (opt_view(r.0), opt_view(r.1), opt_view(r.2), r.3, opt_view(r.4)) == media_columns(
            media_view(msg.media),
        ),
{
    match &msg.media {
        Some(media) => (
            Some(media.media_type.clone()),
            Some(media.file_url.clone()),
            Some(media.file_name.clone()),
            Some(media.file_size as i64),
            copy_opt(&media.mime_type),
        ),
        None => (None, None, None, None, None),
    }
}

/// A message stored with its id, sender, text, room, type and media columns, and
/// not taken back since, reads back as that message: the same id, sender, text,
/// room, type and media. Sizes above `i64::MAX` are left out: the column cannot
/// hold them.
pub proof fn law_saved_message_reads_back(msg: MessageView, row: HistoryRow)
    requires
        opt_view(row.message_id) == Some(msg.message_id),
        opt_view(row.sender) == Some(msg.username),
        opt_view(row.message) == Some(msg.content),
        opt_view(row.room) == Some(msg.room),
        opt_view(row.msg_type) == Some(msg.msg_type),
        row.is_deleted != Some(true),
        (opt_view(row.media_type), opt_view(row.file_url), opt_view(row.file_name), row.file_size, opt_view(
            row.mime_type,
        )) == media_columns(msg.media),
        msg.media matches Some(m) ==> m.file_size <= i64::MAX,
    ensures
        history_view(row).message_id == msg.message_id,
        history_view(row).username == msg.username,
        history_view(row).content == msg.content,
        history_view(row).room == msg.room,
        history_view(row).msg_type == msg.msg_type,
        history_view(row).media == msg.media,
{
}

/// The search text and `LIKE` pattern of an administrator's user search: the query
/// trimmed, and the same between two `%`.
pub fn search_pattern(query: &str) -> (r: (String, String))
    ensures
        r.0@ == trimmed(query@),
        r.1@ == seq!['%'] + trimmed(query@) + seq!['%'],
{
    proof {
        reveal_strlit("%");
    }
    let search = trim(query);
    let mut pattern = String::new();
    pattern.append("%");
    pattern.append(search);
    pattern.append("%");
    (search.to_owned(), pattern)
}

/// The role names an administrator may give.
pub open spec fn role_ok(role: Seq<char>) -> bool {
    role == seq!['a', 'd', 'm', 'i', 'n'] || role == seq!['u', 's', 'e', 'r']
}

/// The role an administrator asked for, trimmed, where it is `admin` or `user`.
pub fn admin_role(role: &str) -> (r: Option<&str>)
    ensures
        r is Some <==> role_ok(trimmed(role@)),
        r matches Some(t) ==> t@ == trimmed(role@),
{
    proof {
        reveal_strlit("admin");
        reveal_strlit("user");
        assert("admin"@ =~= seq!['a', 'd', 'm', 'i', 'n']);
        assert("user"@ =~= seq!['u', 's', 'e', 'r']);
    }
    let t = trim(role);
    if str_eq(t, "admin") || str_eq(t, "user") {
        Some(t)
    } else {
        None
    }
}

/// Whether a statement changed any row, from the counts of its parts.
pub fn any_row_affected(counts: &Vec<u64>) -> (r: bool)
    ensures
        r == exists|i: int| 0 <= i < counts.len() && #[trigger] counts@[i] > 0,
{
    let mut i: usize = 0;
    while i < counts.len()
        invariant
            i <= counts.len(),
            forall|j: int| 0 <= j < i ==> #[trigger] counts@[j] == 0,
        decreases counts.len() - i,
    {
        if counts[i] > 0 {
            return true;
        }
        i = i + 1;
    }
    false
}

/// The two ids of a friendship, the smaller first.
pub open spec fn pair_spec(a: i32, b: i32) -> (i32, i32) {
    if a <= b {
        (a, b)
    } else {
        (b, a)
    }
}

/// The two ids of a friendship, the smaller first, as friendships are stored.
pub fn friend_pair(a: i32, b: i32) -> (r: (i32, i32))
    ensures
        r == pair_spec(a, b),
{
    if a <= b {
        (a, b)
    } else {
        (b, a)
    }
}

/// A friendship is stored under the same pair whichever of the two asks, and the
/// pair of two different users names two different ids, the smaller first, so
/// nobody is stored as a friend of themself.
pub proof fn law_friend_pair_symmetric(a: i32, b: i32)
    ensures
        pair_spec(a, b) == pair_spec(b, a),
        pair_spec(a, b).0 <= pair_spec(a, b).1,
        (pair_spec(a, b).0 < pair_spec(a, b).1) <==> a != b,
        (pair_spec(a, b) == (a, b)) || (pair_spec(a, b) == (b, a)),
{
}

/// The status an answered request gets.
pub fn answer_status(accept: bool) -> (r: &'static str)
    ensures
        accept ==> r@ == seq!['a', 'c', 'c', 'e', 'p', 't', 'e', 'd'],
        !accept ==> r@ == seq!['d', 'e', 'c', 'l', 'i', 'n', 'e', 'd'],
{
    proof {
        reveal_strlit("accepted");
        reveal_strlit("declined");
        assert("accepted"@ =~= seq!['a', 'c', 'c', 'e', 'p', 't', 'e', 'd']);
        assert("declined"@ =~= seq!['d', 'e', 'c', 'l', 'i', 'n', 'e', 'd']);
    }
    if accept {
        "accepted"
    } else {
        "declined"
    }
}

/// Why a request about friends or groups was refused.
#[derive(Debug, Clone, Copy, PartialEq, Eq)]
pub enum Refusal {
    FriendRequestNotAllowed,
    FriendRequestPending,
    FriendRequestNotFound,
    NotGroupOwner,
    AlreadyInGroup,
    GroupInviteNotFound,
    AlreadyMember,
    NotOwnerToRespond,
    JoinRequestNotFound,
}

/// The text a refusal is reported with.
pub open spec fn refusal_spec(r: Refusal) -> Seq<char> {
    match r {
        Refusal::FriendRequestNotAllowed => "friend request not allowed"@,
        Refusal::FriendRequestPending => "friend request already pending"@,
        Refusal::FriendRequestNotFound => "friend request not found"@,
        Refusal::NotGroupOwner => "only group owner can invite"@,
        Refusal::AlreadyInGroup => "user already in group"@,
        Refusal::GroupInviteNotFound => "group invite not found"@,
        Refusal::AlreadyMember => "already in group"@,
        Refusal::NotOwnerToRespond => "only group owner can respond"@,
        Refusal::JoinRequestNotFound => "join request not found"@,
    }
}

/// The text a refusal is reported with.
pub fn refusal_text(r: Refusal) -> (t: &'static str)
    ensures
        t@ == refusal_spec(r),
{
    match r {
        Refusal::FriendRequestNotAllowed => "friend request not allowed",
        Refusal::FriendRequestPending => "friend request already pending",
        Refusal::FriendRequestNotFound => "friend request not found",
        Refusal::NotGroupOwner => "only group owner can invite",
        Refusal::AlreadyInGroup => "user already in group",
        Refusal::GroupInviteNotFound => "group invite not found",
        Refusal::AlreadyMember => "already in group",
        Refusal::NotOwnerToRespond => "only group owner can respond",
        Refusal::JoinRequestNotFound => "join request not found",
    }
}

/// Whether a friend request may be sent: not to oneself, not to a friend, and not
/// while a request between the two is pending.
pub fn friend_request_check(requester_id: i32, target_id: i32, already_friends: bool, pending: bool)
    -> (r: Result<(), Refusal>)
    ensures
        (requester_id == target_id || already_friends) ==> r == Err::<(), Refusal>(
            Refusal::FriendRequestNotAllowed,
        ),
        !(requester_id == target_id || already_friends) && pending ==> r == Err::<(), Refusal>(
            Refusal::FriendRequestPending,
        ),
        !(requester_id == target_id || already_friends) && !pending ==> r is Ok,
{
    if requester_id == target_id || already_friends {
        Err(Refusal::FriendRequestNotAllowed)
    } else if pending {
        Err(Refusal::FriendRequestPending)
    } else {
        Ok(())
    }
}

/// Whether a user may be invited to a group: only by its owner, and not once a member.
pub fn group_invite_check(is_owner: bool, invitee_is_member: bool) -> (r: Result<(), Refusal>)
    ensures
        !is_owner ==> r == Err::<(), Refusal>(Refusal::NotGroupOwner),
        is_owner && invitee_is_member ==> r == Err::<(), Refusal>(Refusal::AlreadyInGroup),
        is_owner && !invitee_is_member ==> r is Ok,
{
    if !is_owner {
        Err(Refusal::NotGroupOwner)
    } else if invitee_is_member {
        Err(Refusal::AlreadyInGroup)
    } else {
        Ok(())
    }
}

/// Whether a friend request may be answered: one from that user must be pending.
pub fn friend_answer_check(pending: bool) -> (r: Result<(), Refusal>)
    ensures
        pending ==> r is Ok,
        !pending ==> r == Err::<(), Refusal>(Refusal::FriendRequestNotFound),
{
    if pending {
        Ok(())
    } else {
        Err(Refusal::FriendRequestNotFound)
    }
}

/// Whether a group invitation may be accepted: one must be pending.
pub fn invite_accept_check(pending: bool) -> (r: Result<(), Refusal>)
    ensures
        pending ==> r is Ok,
        !pending ==> r == Err::<(), Refusal>(Refusal::GroupInviteNotFound),
{
    if pending {
        Ok(())
    } else {
        Err(Refusal::GroupInviteNotFound)
    }
}

/// Whether a user may ask to join a group: not once a member.
pub fn join_request_check(is_member: bool) -> (r: Result<(), Refusal>)
    ensures
        !is_member ==> r is Ok,
        is_member ==> r == Err::<(), Refusal>(Refusal::AlreadyMember),
{
    if is_member {
        Err(Refusal::AlreadyMember)
    } else {
        Ok(())
    }
}

/// Whether a request to join a group may be answered: only by the group's owner,
/// and only where such a request is pending.
pub fn join_answer_check(is_owner: bool, pending: bool) -> (r: Result<(), Refusal>)
    ensures
        !is_owner ==> r == Err::<(), Refusal>(Refusal::NotOwnerToRespond),
        is_owner && !pending ==> r == Err::<(), Refusal>(Refusal::JoinRequestNotFound),
        is_owner && pending ==> r is Ok,
{
    if !is_owner {
        Err(Refusal::NotOwnerToRespond)
    } else if !pending {
        Err(Refusal::JoinRequestNotFound)
    } else {
        Ok(())
    }
}

/// How a stored message stands for a request to change or take it back.
#[derive(Debug, Clone, Copy, PartialEq, Eq)]
pub enum StoredVerdict {
    /// No message has that id.
    Missing,
    /// The message is another user's.
    NotOwn,
    /// The message was taken back already.
    Deleted,
    /// The requester may change it.
    Allowed,
}

/// The verdict on `existing` for `username`: a missing message first, then one of
/// another user, then one taken back already.
pub open spec fn stored_verdict_spec(existing: Option<MessageView>, username: Seq<char>) -> StoredVerdict {
    match existing {
        None => StoredVerdict::Missing,
        Some(m) => if m.username != username {
            StoredVerdict::NotOwn
        } else if m.msg_type == seq!['d', 'e', 'l', 'e', 't', 'e', 'd'] {
            StoredVerdict::Deleted
        } else {
            StoredVerdict::Allowed
        },
    }
}

/// How the stored message `existing` stands for a change requested by `username`.
pub fn stored_verdict(existing: &Option<ChatMessage>, username: &str) -> (v: StoredVerdict)
    ensures
        v == stored_verdict_spec(
            match existing {
                Some(m) => Some(m@),
                None => None,
            },
            username@,
        ),
{
    proof {
        reveal_strlit("deleted");
        assert("deleted"@ =~= seq!['d', 'e', 'l', 'e', 't', 'e', 'd']);
    }
    match existing {
        None => StoredVerdict::Missing,
        Some(m) => if !str_eq(m.username.as_str(), username) {
            StoredVerdict::NotOwn
        } else if str_eq(m.msg_type.as_str(), "deleted") {
            StoredVerdict::Deleted
        } else {
            StoredVerdict::Allowed
        },
    }
}

/// The reply to a request to take back a message that may not be taken back: a
/// message of another user is refused as such, a missing or deleted one as not found.
pub open spec fn delete_refusal_spec(v: StoredVerdict) -> Option<Seq<char>> {
    match v {
        StoredVerdict::Missing => Some("Message not found or already deleted"@),
        StoredVerdict::Deleted => Some("Message not found or already deleted"@),
        StoredVerdict::NotOwn => Some("You can only delete your own messages"@),
        StoredVerdict::Allowed => None,
    }
}

/// The reply to a request to take back a message, where it is refused.
pub fn delete_refusal(v: StoredVerdict) -> (r: Option<&'static str>)
    ensures
        match r {
            Some(t) => delete_refusal_spec(v) == Some(t@),
            None => delete_refusal_spec(v) is None,
        },
{
    match v {
        StoredVerdict::Missing => Some("Message not found or already deleted"),
        StoredVerdict::Deleted => Some("Message not found or already deleted"),
        StoredVerdict::NotOwn => Some("You can only delete your own messages"),
        StoredVerdict::Allowed => None,
    }
}

/// The reply to a request to change a message, where it is refused: one notice for
/// a missing message, one of another user and one taken back.
pub fn edit_refusal(v: StoredVerdict) -> (r: Option<&'static str>)
    ensures
        v == StoredVerdict::Allowed ==> r is None,
        v != StoredVerdict::Allowed ==> (r matches Some(t) && t@ == "Message not found or cannot be edited"@),
{
    match v {
        StoredVerdict::Allowed => None,
        _ => Some("Message not found or cannot be edited"),
    }
}

} // verus!
