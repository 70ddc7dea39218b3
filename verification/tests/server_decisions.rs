use rust_network_project::auth::UserSession;
use rust_network_project::message::{ChatMessage, MediaInfo};
use rust_network_project::names::StringHashSet;
use rust_network_project::records::ProfileInfo;
use rust_network_project::registry::ServerRooms;
use rust_network_project::server::{
    admit_login, classify, first_port, port_step, BindOutcome, PortAction, data_message, delete_ack, delete_check, edit_ack, edit_check, error_message, gate, group_target,
    join_step, media_ack, outgoing_message, outgoing_message_at, permission_gate, private_room_target,
    registered_message, registration_check, send_step, system_message, welcome_message, Gate,
    MessageKind, Request, Step,
};

const ALL: [&str; 9] = [
    "chat.send",
    "chat.media",
    "message.edit.own",
    "message.delete.own",
    "profile.update",
    "friend.manage",
    "group.create",
    "group.manage.own",
    "settings.update_password",
];

fn session(name: &str, perms: &[&str]) -> UserSession {
    UserSession {
        user_id: 1,
        username: name.to_string(),
        email: format!("{}@example.com", name),
        phone: "0123456789".to_string(),
        display_name: None,
        avatar_url: Some("me.png".to_string()),
        role: "user".to_string(),
        permissions: perms.iter().map(|p| p.to_string()).collect(),
    }
}

fn request(kind: &str, room: &str, content: &str) -> ChatMessage {
    let mut m = ChatMessage::default();
    m.msg_type = kind.to_string();
    m.room = room.to_string();
    m.content = content.to_string();
    m
}

#[test]
fn message_types_name_requests() {
    assert_eq!(classify("join"), Request::Join);
    assert_eq!(classify("message"), Request::Message);
    assert_eq!(classify("media"), Request::Media);
    assert_eq!(classify("friend_decline"), Request::FriendDecline);
    assert_eq!(classify("group_join_accept"), Request::GroupJoinAccept);
    assert_eq!(classify("settings_change_password"), Request::ChangePassword);
    assert_eq!(classify("admin_user_update"), Request::AdminUserUpdate);
    assert_eq!(classify("logout"), Request::Logout);
    assert_eq!(classify("register"), Request::Ignored);
    assert_eq!(classify(""), Request::Ignored);
}

#[test]
fn law_admin_requests_need_permission() {
    let user = session("alice", &ALL);
    assert_eq!(
        permission_gate(&user, classify("admin_users_list")),
        Err("You do not have permission to manage users".to_string())
    );
    let admin = session("root", &["admin.manage_users"]);
    assert_eq!(permission_gate(&admin, Request::AdminUserUpdate), Ok(()));
    assert_eq!(permission_gate(&session("x", &[]), Request::FriendsList), Ok(()));
}

#[test]
fn law_nothing_before_login() {
    let msg = request("message", "general", "hi");
    assert_eq!(gate("", false, &msg), Gate::Refuse("Vui lòng đăng nhập trước".to_string()));
    assert_eq!(gate("", false, &request("login", "", "")), Gate::Login);
    assert_eq!(gate("", false, &request("register", "", "")), Gate::Register);
    assert_eq!(gate("alice", true, &msg), Gate::Proceed);
    let mut other = msg.clone();
    other.username = "bob".to_string();
    assert_eq!(
        gate("alice", false, &other),
        Gate::Refuse("Phiên làm việc không hợp lệ (Session mismatch)".to_string())
    );
    other.username = " alice ".to_string();
    assert_eq!(gate("alice", false, &other), Gate::Proceed);
}

#[test]
fn registration_messages_are_checked() {
    let mut m = request("register", "", "");
    m.username = " alice ".to_string();
    m.email = " alice@example.com ".to_string();
    m.phone = "0123".to_string();
    assert_eq!(registration_check(&m).err(), Some("Số điện thoại không hợp lệ".to_string()));
    m.phone = " 0123456789 ".to_string();
    let a = registration_check(&m).unwrap();
    assert_eq!((a.username.as_str(), a.email.as_str(), a.phone.as_str()), ("alice", "alice@example.com", "0123456789"));
    m.email = "nope".to_string();
    assert_eq!(registration_check(&m).err(), Some("Email không hợp lệ".to_string()));
}

#[test]
fn law_room_send_needs_membership() {
    let alice = session("alice", &ALL);
    let mut joined = StringHashSet::new();
    let msg = request("message", "rust", "hello");
    assert_eq!(
        send_step(&alice, &joined, &msg, MessageKind::Text, None, None),
        Step::Refuse("Join the room before sending messages".to_string())
    );
    joined.insert("rust".to_string());
    assert_eq!(send_step(&alice, &joined, &msg, MessageKind::Text, None, None), Step::Accept);
    let group = request("message", "group:team", "hi");
    assert_eq!(
        send_step(&alice, &joined, &group, MessageKind::Text, None, None),
        Step::AskMember("team".to_string())
    );
    assert_eq!(
        send_step(&alice, &joined, &group, MessageKind::Text, None, Some(false)),
        Step::Refuse("Join the group before sending messages".to_string())
    );
    assert_eq!(
        send_step(&alice, &joined, &group, MessageKind::Text, None, Some(true)),
        Step::Refuse("Join the room before sending messages".to_string())
    );
}

#[test]
fn law_private_send_needs_friendship() {
    let alice = session("alice", &ALL);
    let joined = StringHashSet::new();
    let dm = request("message", "dm:alice:bob", "hi");
    assert_eq!(
        send_step(&alice, &joined, &dm, MessageKind::Text, None, None),
        Step::AskFriends("bob".to_string())
    );
    assert_eq!(
        send_step(&alice, &joined, &dm, MessageKind::Text, Some(false), None),
        Step::Refuse("Only friends can use private chat".to_string())
    );
    assert_eq!(send_step(&alice, &joined, &dm, MessageKind::Text, Some(true), None), Step::Accept);
    let carol = session("carol", &ALL);
    assert_eq!(
        send_step(&carol, &joined, &dm, MessageKind::Text, Some(true), None),
        Step::Refuse("Access denied to private room".to_string())
    );
    let lonely = request("message", "dm:alice", "hi");
    assert_eq!(
        send_step(&alice, &joined, &lonely, MessageKind::Text, None, None),
        Step::Refuse("Only friends can use private chat".to_string())
    );
}

#[test]
fn law_send_needs_permission() {
    let mut joined = StringHashSet::new();
    joined.insert("general".to_string());
    let msg = request("message", "general", "hi");
    assert_eq!(
        send_step(&session("x", &[]), &joined, &msg, MessageKind::Text, None, None),
        Step::Refuse("You do not have permission to send messages".to_string())
    );
    let alice = session("alice", &ALL);
    assert_eq!(
        send_step(&alice, &joined, &request("message", "  ", "hi"), MessageKind::Text, None, None),
        Step::Refuse("Room name is required".to_string())
    );
    assert_eq!(
        send_step(&alice, &joined, &msg, MessageKind::Media, None, None),
        Step::Refuse("Media metadata is required".to_string())
    );
    let mut big = msg.clone();
    big.media = Some(MediaInfo {
        media_type: "image".into(),
        file_url: "x".repeat(10 * 1024 * 1024 + 1),
        file_name: "big.png".into(),
        file_size: 123,
        mime_type: None,
    });
    assert_eq!(
        send_step(&alice, &joined, &big, MessageKind::Media, None, None),
        Step::Refuse("File quá lớn! Tối đa 10MB (hiện tại: 123)".to_string())
    );
    big.media.as_mut().unwrap().file_url = "x".repeat(10 * 1024 * 1024);
    assert_eq!(send_step(&alice, &joined, &big, MessageKind::Media, None, None), Step::Accept);
}

#[test]
fn law_join_needs_access() {
    let alice = session("alice", &ALL);
    assert_eq!(join_step(&alice, "   ", None, None), Step::Ignore);
    assert_eq!(join_step(&alice, "dm:bob:carol", None, None), Step::Ignore);
    assert_eq!(join_step(&alice, " dm:alice:bob ", None, None), Step::AskFriends("bob".to_string()));
    assert_eq!(
        join_step(&alice, "dm:alice:bob", Some(false), None),
        Step::Refuse("Only friends can use private chat".to_string())
    );
    assert_eq!(join_step(&alice, "dm:alice:bob", Some(true), None), Step::Accept);
    assert_eq!(join_step(&alice, "group:team", None, None), Step::AskMember("team".to_string()));
    assert_eq!(
        join_step(&alice, "group:team", None, Some(false)),
        Step::Refuse("You are not a member of this group".to_string())
    );
    assert_eq!(join_step(&alice, " rust ", None, None), Step::Accept);
}

#[test]
fn outgoing_messages() {
    let alice = session("alice", &ALL);
    let mut req = request("media", "dm:alice:bob", "pic");
    req.password = "secret".to_string();
    req.media = Some(MediaInfo {
        media_type: "image".into(),
        file_url: "u".into(),
        file_name: "f".into(),
        file_size: 1,
        mime_type: None,
    });
    let m = outgoing_message_at(&alice, &req, MessageKind::Media, 1_715_000_001);
    assert_eq!(m.msg_type, "media");
    assert_eq!(m.username, "alice");
    assert_eq!(m.target, "bob");
    assert_eq!(m.password, "");
    assert_eq!(m.message_id, "alice-1715000001");
    assert_eq!(m.timestamp, 1_715_000_001);
    let ack = media_ack(&m).unwrap();
    assert_eq!(
        (ack.msg_type.as_str(), ack.username.as_str(), ack.content.as_str(), ack.room.as_str(), ack.timestamp),
        ("media_ack", "SYSTEM", "Media sent: f", "dm:alice:bob", 1_715_000_001)
    );
    assert_eq!(m.media, req.media);
    assert_eq!(m.sender_avatar.as_deref(), Some("me.png"));
    let t = outgoing_message(&alice, &request("message", "rust", "hi"), MessageKind::Text);
    assert_eq!(t.msg_type, "message");
    assert_eq!(t.target, "");
    assert_eq!(t.media, None);
    assert!(t.message_id.starts_with("alice-"));
    assert!(media_ack(&t).is_none());
    assert_eq!(private_room_target("dm::alice:bob", "alice"), "bob");
}

#[test]
fn delete_and_edit_checks() {
    let alice = session("alice", &ALL);
    let mut m = request("delete", "general", "");
    assert_eq!(delete_check(&alice, &m), Err("Message ID is required for deletion".to_string()));
    m.content = " alice-1715000000 ".to_string();
    assert_eq!(delete_check(&alice, &m), Ok(" alice-1715000000 ".to_string()));
    assert_eq!(
        delete_check(&session("x", &[]), &m),
        Err("You do not have permission to delete messages".to_string())
    );
    let mut e = request("edit", "general", "");
    assert_eq!(edit_check(&alice, &e), Err("Message ID is required for edit".to_string()));
    e.target = "alice-1715000000".to_string();
    assert_eq!(edit_check(&alice, &e), Err("New content is required for edit".to_string()));
    e.content = "Updated content".to_string();
    assert_eq!(edit_check(&alice, &e), Ok("alice-1715000000".to_string()));
    e.message_id = "ignored".to_string();
    e.target = " ".to_string();
    assert_eq!(edit_check(&alice, &e), Err("Message ID is required for edit".to_string()));
    assert_eq!(
        edit_check(&session("x", &[]), &e),
        Err("You do not have permission to edit messages".to_string())
    );
}

#[test]
fn acknowledgements() {
    let d = delete_ack("general");
    assert_eq!(
        (d.msg_type.as_str(), d.username.as_str(), d.content.as_str(), d.room.as_str()),
        ("delete_ack", "SYSTEM", "Message deleted successfully", "general")
    );
    let e = edit_ack("general");
    assert_eq!(
        (e.msg_type.as_str(), e.username.as_str(), e.content.as_str(), e.room.as_str()),
        ("edit_ack", "SYSTEM", "Message edited successfully", "general")
    );
}

#[test]
fn one_connection_per_user() {
    let mut online = StringHashSet::new();
    assert_eq!(admit_login(&mut online, "alice"), Ok(()));
    assert_eq!(
        admit_login(&mut online, "alice"),
        Err("Tài khoản này đang đăng nhập ở nơi khác".to_string())
    );
    assert_eq!(admit_login(&mut online, "bob"), Ok(()));
    assert!(online.remove("alice"));
    assert_eq!(admit_login(&mut online, "alice"), Ok(()));
}

#[test]
fn notices() {
    let e = error_message("boom");
    assert_eq!((e.msg_type.as_str(), e.username.as_str(), e.content.as_str(), e.room.as_str()), ("error", "SYSTEM", "boom", ""));
    let s = system_message("hi");
    assert_eq!((s.msg_type.as_str(), s.room.as_str()), ("system", "general"));
    let d = data_message("profile_data", "{}");
    assert_eq!((d.msg_type.as_str(), d.username.as_str(), d.content.as_str()), ("profile_data", "SYSTEM", "{}"));
    let r = registered_message();
    assert_eq!(r.content, "Đăng ký thành công! Vui lòng đăng nhập.");
    let w = welcome_message(&session("alice", &[]));
    assert_eq!(w.content, "Đăng nhập thành công! Chào mừng alice (user)");
    assert_eq!(w.username, "System");
}

#[test]
fn group_targets_and_profiles() {
    assert_eq!(group_target("group:team"), "team");
    assert_eq!(group_target(" team "), "team");
    let mut s = session("alice", &[]);
    s.apply_profile(ProfileInfo {
        username: "alice".into(),
        email: "e".into(),
        phone: "p".into(),
        display_name: "Alice A.".into(),
        bio: "".into(),
        avatar_url: None,
        role: "user".into(),
    });
    assert_eq!(s.display_name.as_deref(), Some("Alice A."));
    assert_eq!(s.avatar_url, None);
}

#[test]
fn law_leave_undoes_join() {
    let mut rooms = ServerRooms::new();
    let mut joined = StringHashSet::new();
    rooms.join_room(&mut joined, "alice", "rust");
    assert!(joined.contains("rust"));
    assert_eq!(rooms.members("rust"), vec!["alice".to_string()]);
    rooms.join_room(&mut joined, "alice", "rust");
    assert_eq!(rooms.members("rust"), vec!["alice".to_string()]);
    let mut bob_joined = StringHashSet::new();
    rooms.join_room(&mut bob_joined, "bob", "rust");
    rooms.leave_room(&mut joined, "alice", "rust");
    assert!(!joined.contains("rust"));
    assert_eq!(rooms.members("rust"), vec!["bob".to_string()]);
    rooms.leave_room(&mut joined, "alice", "rust");
    assert_eq!(rooms.members("rust"), vec!["bob".to_string()]);
}

#[test]
fn private_rooms_have_no_members_but_their_participants() {
    let mut rooms = ServerRooms::new();
    let mut joined = StringHashSet::new();
    rooms.join_room(&mut joined, "alice", "dm:alice:bob");
    assert!(joined.contains("dm:alice:bob"));
    assert!(rooms.members("dm:alice:bob").is_empty());
    assert_eq!(rooms.recipients("dm:alice:bob"), vec!["alice".to_string(), "bob".to_string()]);
    rooms.join_room(&mut joined, "alice", "general");
    assert_eq!(rooms.recipients("general"), vec!["alice".to_string()]);
    assert!(rooms.recipients("empty").is_empty());
    rooms.record_message(ChatMessage::new_at("message", "alice", "hi", "general", 0));
    rooms.remove_member("general", "alice");
    assert!(rooms.recipients("general").is_empty());
}

#[test]
fn ports_are_tried_in_order() {
    assert_eq!(first_port(3000, 3010), PortAction::Try(3000));
    assert_eq!(first_port(3011, 3010), PortAction::AllInUse);
    assert_eq!(port_step(3000, 3010, BindOutcome::InUse), PortAction::Try(3001));
    assert_eq!(port_step(3010, 3010, BindOutcome::InUse), PortAction::AllInUse);
    assert_eq!(port_step(3004, 3010, BindOutcome::Bound), PortAction::Serve);
    assert_eq!(port_step(3004, 3010, BindOutcome::Failed), PortAction::Stop);
    assert_eq!(port_step(65535, 65535, BindOutcome::InUse), PortAction::AllInUse);
}
