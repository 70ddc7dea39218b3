use rust_network_project::message::{ChatMessage, MediaInfo};
use rust_network_project::records::{
    admin_role, admin_user_summary_from_row, answer_status, any_row_affected, friend_pair,
    friend_answer_check, friend_request_check, group_invite_check, invite_accept_check,
    join_answer_check, join_request_check, refusal_text, group_summary_from_row, stored_verdict, delete_refusal, edit_refusal,
    media_params, message_from_row, pending_item_from_row, profile_from_row, rows_to_messages,
    search_pattern, user_summary_from_row, AdminUserRow, GroupRow, HistoryRow, ProfileRow,
    Refusal, StoredVerdict, UserRow,
};

#[test]
fn message_ids_name_the_sender_and_the_instant() {
    let m = ChatMessage::new_at("message", "alice", "hello", "general", 1_715_000_000);
    assert_eq!(m.message_id, "alice-1715000000");
    assert_eq!(m.timestamp, 1_715_000_000);
    assert_eq!(m.msg_type, "message");
    assert_eq!(m.username, "alice");
    assert_eq!(m.content, "hello");
    assert_eq!(m.room, "general");
    assert_eq!(m.password, "");
    assert_eq!(m.target, "");
    assert!(m.users.is_empty());
    assert_eq!(m.media, None);
}

#[test]
fn new_messages_are_stamped_now() {
    let m = ChatMessage::new("message", "bob", "hi", "rust");
    assert!(m.message_id.starts_with("bob-"));
    assert!(m.timestamp > 1_600_000_000);
    let digits = &m.message_id["bob-".len()..];
    let secs: u64 = digits.parse().unwrap();
    assert_eq!(secs, m.timestamp);
}

#[test]
fn copies_and_defaults() {
    let mut m = ChatMessage::new_at("media", "a", "b", "c", 5);
    m.media = Some(MediaInfo {
        media_type: "image".into(),
        file_url: "u".into(),
        file_name: "f".into(),
        file_size: 3,
        mime_type: None,
    });
    m.users = vec!["x".into(), "y".into()];
    assert_eq!(m.duplicate(), m);
    let d = ChatMessage::default();
    assert_eq!(d.msg_type, "");
    assert_eq!(d.timestamp, 0);
    assert_eq!(d.media, None);
}

fn history(deleted: Option<bool>, media_type: Option<&str>) -> HistoryRow {
    HistoryRow {
        message_id: Some("alice-1".into()),
        sender: Some("alice".into()),
        message: Some("look".into()),
        room: Some("photos".into()),
        msg_type: Some("media".into()),
        is_deleted: deleted,
        media_type: media_type.map(|s| s.to_string()),
        file_url: Some("https://cdn/x.jpg".into()),
        file_name: None,
        file_size: Some(-5),
        mime_type: Some("image/jpeg".into()),
        created_timestamp: Some(1_715_000_000),
        sender_avatar: Some("avatar.png".into()),
    }
}

#[test]
fn history_rows_become_messages() {
    let m = message_from_row(history(Some(false), Some("image")));
    assert_eq!(m.msg_type, "media");
    assert_eq!(m.username, "alice");
    assert_eq!(m.timestamp, 1_715_000_000);
    assert_eq!(m.sender_avatar.as_deref(), Some("avatar.png"));
    let media = m.media.unwrap();
    assert_eq!(media.media_type, "image");
    assert_eq!(media.file_name, "");
    assert_eq!(media.file_size, 0);
    assert_eq!(media.mime_type.as_deref(), Some("image/jpeg"));
}

#[test]
fn deleted_rows_show_no_media() {
    let m = message_from_row(history(Some(true), Some("image")));
    assert_eq!(m.msg_type, "deleted");
    assert_eq!(m.media, None);
    let plain = message_from_row(history(None, None));
    assert_eq!(plain.msg_type, "media");
    assert_eq!(plain.media, None);
}

#[test]
fn missing_columns_read_as_defaults() {
    let row = HistoryRow {
        message_id: None,
        sender: None,
        message: None,
        room: None,
        msg_type: None,
        is_deleted: None,
        media_type: None,
        file_url: None,
        file_name: None,
        file_size: None,
        mime_type: None,
        created_timestamp: Some(-1),
        sender_avatar: None,
    };
    let m = message_from_row(row);
    assert_eq!(m.msg_type, "message");
    assert_eq!(m.message_id, "");
    assert_eq!(m.timestamp, 0);
}

#[test]
fn rows_keep_their_order() {
    let rows = vec![history(Some(false), None), history(Some(true), None)];
    let ms = rows_to_messages(rows);
    assert_eq!(ms.len(), 2);
    assert_eq!(ms[0].msg_type, "media");
    assert_eq!(ms[1].msg_type, "deleted");
    assert!(rows_to_messages(vec![]).is_empty());
}

#[test]
fn media_columns() {
    let mut m = ChatMessage::new_at("media", "a", "b", "c", 0);
    assert_eq!(media_params(&m), (None, None, None, None, None));
    m.media = Some(MediaInfo {
        media_type: "video".into(),
        file_url: "u".into(),
        file_name: "f.mp4".into(),
        file_size: 52_428_800,
        mime_type: Some("video/mp4".into()),
    });
    assert_eq!(
        media_params(&m),
        (
            Some("video".to_string()),
            Some("u".to_string()),
            Some("f.mp4".to_string()),
            Some(52_428_800i64),
            Some("video/mp4".to_string())
        )
    );
}

#[test]
fn summaries_from_rows() {
    let p = profile_from_row(ProfileRow {
        username: Some("alice".into()),
        email: None,
        phone: Some("0123456789".into()),
        display_name: Some("Alice".into()),
        bio: None,
        avatar_url: None,
        role: Some("user".into()),
    });
    assert_eq!(p.email, "");
    assert_eq!(p.display_name, "Alice");
    let u = user_summary_from_row(UserRow {
        username: Some("bob".into()),
        display_name: None,
        bio: Some("hi".into()),
        avatar_url: Some("a.png".into()),
    });
    assert_eq!(u.display_name, "");
    assert_eq!(u.avatar_url.as_deref(), Some("a.png"));
    let a = admin_user_summary_from_row(AdminUserRow {
        id: None,
        username: Some("carol".into()),
        display_name: None,
        role: Some("admin".into()),
        is_active: None,
        created_at: Some("2024-01-01T00:00:00".into()),
        last_login_at: None,
    });
    assert_eq!(a.id, 0);
    assert!(!a.is_active);
    assert_eq!(a.last_login_at, None);
    let g = group_summary_from_row(GroupRow { name: Some("g".into()), role: None, owner: Some("o".into()) });
    assert_eq!((g.name.as_str(), g.role.as_str(), g.owner.as_str()), ("g", "", "o"));
    let item = pending_item_from_row(None, Some("dave".into()));
    assert_eq!((item.group.as_str(), item.username.as_str()), ("", "dave"));
}

#[test]
fn admin_search_and_roles() {
    assert_eq!(search_pattern("  al "), ("al".to_string(), "%al%".to_string()));
    assert_eq!(search_pattern(""), ("".to_string(), "%%".to_string()));
    assert_eq!(admin_role(" admin "), Some("admin"));
    assert_eq!(admin_role("user"), Some("user"));
    assert_eq!(admin_role("root"), None);
    assert!(any_row_affected(&vec![0, 1]));
    assert!(!any_row_affected(&vec![0, 0]));
    assert!(!any_row_affected(&vec![]));
}

#[test]
fn friends_and_groups_decisions() {
    assert_eq!(friend_pair(9, 4), (4, 9));
    assert_eq!(friend_pair(4, 9), (4, 9));
    assert_eq!(friend_pair(7, 7), (7, 7));
    assert_eq!(answer_status(true), "accepted");
    assert_eq!(answer_status(false), "declined");
    assert_eq!(friend_request_check(1, 1, false, false), Err(Refusal::FriendRequestNotAllowed));
    assert_eq!(friend_request_check(1, 2, true, true), Err(Refusal::FriendRequestNotAllowed));
    assert_eq!(friend_request_check(1, 2, false, true), Err(Refusal::FriendRequestPending));
    assert_eq!(friend_request_check(1, 2, false, false), Ok(()));
    assert_eq!(group_invite_check(false, false), Err(Refusal::NotGroupOwner));
    assert_eq!(group_invite_check(true, true), Err(Refusal::AlreadyInGroup));
    assert_eq!(group_invite_check(true, false), Ok(()));
    assert_eq!(friend_answer_check(true), Ok(()));
    assert_eq!(friend_answer_check(false), Err(Refusal::FriendRequestNotFound));
    assert_eq!(invite_accept_check(true), Ok(()));
    assert_eq!(invite_accept_check(false), Err(Refusal::GroupInviteNotFound));
    assert_eq!(join_request_check(false), Ok(()));
    assert_eq!(join_request_check(true), Err(Refusal::AlreadyMember));
    assert_eq!(join_answer_check(false, true), Err(Refusal::NotOwnerToRespond));
    assert_eq!(join_answer_check(true, false), Err(Refusal::JoinRequestNotFound));
    assert_eq!(join_answer_check(true, true), Ok(()));
    assert_eq!(refusal_text(Refusal::AlreadyMember), "already in group");
    assert_eq!(refusal_text(Refusal::AlreadyInGroup), "user already in group");
    assert_eq!(refusal_text(Refusal::NotOwnerToRespond), "only group owner can respond");
}

#[test]
fn stored_messages_change_only_by_their_sender() {
    let m = ChatMessage::new_at("message", "alice", "x", "general", 0);
    assert_eq!(stored_verdict(&Some(m.clone()), "alice"), StoredVerdict::Allowed);
    assert_eq!(stored_verdict(&Some(m.clone()), "bob"), StoredVerdict::NotOwn);
    assert_eq!(stored_verdict(&None, "alice"), StoredVerdict::Missing);
    let mut d = m.clone();
    d.msg_type = "deleted".into();
    assert_eq!(stored_verdict(&Some(d.clone()), "alice"), StoredVerdict::Deleted);
    assert_eq!(stored_verdict(&Some(d), "bob"), StoredVerdict::NotOwn);
}

#[test]
fn refused_changes_are_answered() {
    assert_eq!(delete_refusal(StoredVerdict::NotOwn), Some("You can only delete your own messages"));
    assert_eq!(delete_refusal(StoredVerdict::Missing), Some("Message not found or already deleted"));
    assert_eq!(delete_refusal(StoredVerdict::Deleted), Some("Message not found or already deleted"));
    assert_eq!(delete_refusal(StoredVerdict::Allowed), None);
    assert_eq!(edit_refusal(StoredVerdict::NotOwn), Some("Message not found or cannot be edited"));
    assert_eq!(edit_refusal(StoredVerdict::Allowed), None);
}
