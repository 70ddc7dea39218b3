//! The messages that clients and the server exchange.

use vstd::prelude::*;
use crate::text::{decimal, string_views, to_decimal};

verus! {

/// The view of an optional string.
pub open spec fn opt_view(o: Option<String>) -> Option<Seq<char>> {
    match o {
        Some(s) => Some(s@),
        None => None,
    }
}

/// Attachment data of a media message.
#[derive(Debug, Clone, PartialEq, Eq)]
pub struct MediaInfo {
    pub media_type: String,
    pub file_url: String,
    pub file_name: String,
    pub file_size: u64,
    pub mime_type: Option<String>,
}

/// What a `MediaInfo` holds.
pub struct MediaView {
    pub media_type: Seq<char>,
    pub file_url: Seq<char>,
    pub file_name: Seq<char>,
    pub file_size: u64,
    pub mime_type: Option<Seq<char>>,
}

impl View for MediaInfo {
    type V = MediaView;

    open spec fn view(&self) -> MediaView {
        MediaView {
            media_type: self.media_type@,
            file_url: self.file_url@,
            file_name: self.file_name@,
            file_size: self.file_size,
            mime_type: opt_view(self.mime_type),
        }
    }
}

/// The view of optional media.
pub open spec fn media_view(o: Option<MediaInfo>) -> Option<MediaView> {
    match o {
        Some(m) => Some(m@),
        None => None,
    }
}

/// One message as clients and the server exchange it.
#[derive(Debug, Clone, PartialEq, Eq)]
pub struct ChatMessage {
    pub msg_type: String,
    pub username: String,
    pub password: String,
    pub content: String,
    pub room: String,
    pub target: String,
    pub users: Vec<String>,
    pub message_id: String,
    pub timestamp: u64,
    pub media: Option<MediaInfo>,
    pub email: String,
    pub phone: String,
    pub sender_avatar: Option<String>,
}

/// What a `ChatMessage` holds.
pub struct MessageView {
    pub msg_type: Seq<char>,
    pub username: Seq<char>,
    pub password: Seq<char>,
    pub content: Seq<char>,
    pub room: Seq<char>,
    pub target: Seq<char>,
    pub users: Seq<Seq<char>>,
    pub message_id: Seq<char>,
    pub timestamp: u64,
    pub media: Option<MediaView>,
    pub email: Seq<char>,
    pub phone: Seq<char>,
    pub sender_avatar: Option<Seq<char>>,
}

impl View for ChatMessage {
    type V = MessageView;

    open spec fn view(&self) -> MessageView {
        MessageView {
            msg_type: self.msg_type@,
            username: self.username@,
            password: self.password@,
            content: self.content@,
            room: self.room@,
            target: self.target@,
            users: string_views(self.users@),
            message_id: self.message_id@,
            timestamp: self.timestamp,
            media: media_view(self.media),
            email: self.email@,
            phone: self.phone@,
            sender_avatar: opt_view(self.sender_avatar),
        }
    }
}

/// The empty message: every text empty, no users, no media, time 0.
pub open spec fn empty_view() -> MessageView {
    MessageView {
        msg_type: Seq::empty(),
        username: Seq::empty(),
        password: Seq::empty(),
        content: Seq::empty(),
        room: Seq::empty(),
        target: Seq::empty(),
        users: Seq::empty(),
        message_id: Seq::empty(),
        timestamp: 0,
        media: None,
        email: Seq::empty(),
        phone: Seq::empty(),
        sender_avatar: None,
    }
}

/// The empty message with a type, a sender, a content and a room.
pub open spec fn simple_view(
    msg_type: Seq<char>,
    username: Seq<char>,
    content: Seq<char>,
    room: Seq<char>,
) -> MessageView {
    MessageView { msg_type, username, content, room, ..empty_view() }
}

/// A new message stamped at `secs` seconds after the UNIX epoch: its id is the
/// sender, a hyphen and that count; its time is the same count.
pub open spec fn stamped_view(
    msg_type: Seq<char>,
    username: Seq<char>,
    content: Seq<char>,
    room: Seq<char>,
    secs: u64,
) -> MessageView {
    MessageView {
        message_id: username + seq!['-'] + decimal(secs as nat),
        timestamp: secs,
        ..simple_view(msg_type, username, content, room)
    }
}

/// A copy of an optional string.
pub fn copy_opt(o: &Option<String>) -> (r: Option<String>)
    ensures
        opt_view(r) == opt_view(*o),
{
    match o {
        Some(s) => Some(s.clone()),
        None => None,
    }
}

/// A copy of a list of strings.
pub fn copy_strings(v: &Vec<String>) -> (r: Vec<String>)
    ensures
        string_views(r@) == string_views(v@),
{
    let mut r: Vec<String> = Vec::new();
    let mut i: usize = 0;
    while i < v.len()
        invariant
            i <= v.len(),
            r.len() == i,
            forall|j: int| 0 <= j < i ==> #[trigger] r@[j]@ == v@[j]@,
        decreases v.len() - i,
    {
        r.push(v[i].clone());
        i = i + 1;
    }
    assert(string_views(r@) =~= string_views(v@));
    r
}

impl MediaInfo {
    /// A copy of this attachment data.
    pub fn duplicate(&self) -> (r: MediaInfo)
        ensures
            r@ == self@,
    {
        MediaInfo {
            media_type: self.media_type.clone(),
            file_url: self.file_url.clone(),
            file_name: self.file_name.clone(),
            file_size: self.file_size,
            mime_type: copy_opt(&self.mime_type),
        }
    }
}

/// A copy of optional attachment data.
pub fn copy_media(o: &Option<MediaInfo>) -> (r: Option<MediaInfo>)
    ensures
        media_view(r) == media_view(*o),
{
    match o {
        Some(m) => Some(m.duplicate()),
        None => None,
    }
}

impl Default for ChatMessage {
    /// The empty message: every text empty, no users, no media, time 0.
    fn default() -> (r: ChatMessage)
        ensures
            r@ == empty_view(),
    {
        let r = ChatMessage {
            msg_type: String::new(),
            username: String::new(),
            password: String::new(),
            content: String::new(),
            room: String::new(),
            target: String::new(),
            users: Vec::new(),
            message_id: String::new(),
            timestamp: 0,
            media: None,
            email: String::new(),
            phone: String::new(),
            sender_avatar: None,
        };
        assert(string_views(r.users@) =~= Seq::<Seq<char>>::empty());
        r
    }
}

/// The system clock.
#[verifier::external_type_specification]
#[verifier::external_body]
pub struct ExSystemTime(std::time::SystemTime);

/// What `SystemTime::duration_since` gives where the clock is set before the instant.
#[verifier::external_type_specification]
#[verifier::external_body]
pub struct ExSystemTimeError(std::time::SystemTimeError);

/// Calls `SystemTime::now`. Which instant comes back is not stated.
#[verifier::external_body]
fn system_now() -> (t: std::time::SystemTime) {
    std::time::SystemTime::now()
}

/// Calls `SystemTime::duration_since` with `UNIX_EPOCH`. What comes back depends on
/// the clock and is not stated.
#[verifier::external_body]
fn since_epoch(t: &std::time::SystemTime) -> (r: Result<std::time::Duration, std::time::SystemTimeError>) {
    t.duration_since(std::time::UNIX_EPOCH)
}

/// Calls `Duration::as_secs`. What comes back depends on the clock and is not stated.
#[verifier::external_body]
fn whole_secs(d: &std::time::Duration) -> (s: u64) {
    d.as_secs()
}

/// Whole seconds since the UNIX epoch on the system clock, 0 where the clock is set
/// before the epoch.
pub(crate) fn secs_since_epoch() -> (s: u64) {
    let now = system_now();
    match since_epoch(&now) {
        Ok(d) => whole_secs(&d),
        Err(_) => 0,
    }
}

impl ChatMessage {
    /// The empty message with a type, a sender, a content and a room.
    pub fn simple(msg_type: &str, username: &str, content: &str, room: &str) -> (r: ChatMessage)
        ensures
            r@ == simple_view(msg_type@, username@, content@, room@),
    {
        let r = ChatMessage {
            msg_type: msg_type.to_owned(),
            username: username.to_owned(),
            password: String::new(),
            content: content.to_owned(),
            room: room.to_owned(),
            target: String::new(),
            users: Vec::new(),
            message_id: String::new(),
            timestamp: 0,
            media: None,
            email: String::new(),
            phone: String::new(),
            sender_avatar: None,
        };
        assert(string_views(r.users@) =~= Seq::<Seq<char>>::empty());
        r
    }

    /// A new message stamped with the instant `secs` (seconds since the UNIX epoch).
    pub fn new_at(msg_type: &str, username: &str, content: &str, room: &str, secs: u64) -> (r:
        ChatMessage)
        ensures
            r@ == stamped_view(msg_type@, username@, content@, room@, secs),
    {
        proof {
            reveal_strlit("-");
        }
        let mut r = ChatMessage::simple(msg_type, username, content, room);
        let mut id = username.to_owned();
        id.append("-");
        let digits = to_decimal(secs as u128);
        id.append(digits.as_str());
        assert(id@ =~= username@ + seq!['-'] + decimal(secs as nat));
        r.message_id = id;
        r.timestamp = secs;
        assert(r@.message_id == stamped_view(msg_type@, username@, content@, room@, secs).message_id);
        assert(r@.users == stamped_view(msg_type@, username@, content@, room@, secs).users);
        r
    }

    /// A new message stamped with the current time.
    pub fn new(msg_type: &str, username: &str, content: &str, room: &str) -> (r: ChatMessage)
        ensures
            exists|secs: u64| r@ == stamped_view(msg_type@, username@, content@, room@, secs),
    {
        let secs = secs_since_epoch();
        ChatMessage::new_at(msg_type, username, content, room, secs)
    }

    /// A copy of this message.
    pub fn duplicate(&self) -> (r: ChatMessage)
        ensures
            r@ == self@,
    {
        ChatMessage {
            msg_type: self.msg_type.clone(),
            username: self.username.clone(),
            password: self.password.clone(),
            content: self.content.clone(),
            room: self.room.clone(),
            target: self.target.clone(),
            users: copy_strings(&self.users),
            message_id: self.message_id.clone(),
            timestamp: self.timestamp,
            media: copy_media(&self.media),
            email: self.email.clone(),
            phone: self.phone.clone(),
            sender_avatar: copy_opt(&self.sender_avatar),
        }
    }
}

} // verus!
