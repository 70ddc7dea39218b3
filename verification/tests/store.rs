use rust_network_project::message::{ChatMessage, MediaInfo};
use rust_network_project::store::MessageStore;

fn msg(id: &str, user: &str, room: &str, kind: &str, content: &str) -> ChatMessage {
    let mut m = ChatMessage::new_at(kind, user, content, room, 1_000_000_000);
    m.message_id = id.to_string();
    m
}

fn media() -> MediaInfo {
    MediaInfo {
        media_type: "image".to_string(),
        file_url: "https://cdn.example.com/photo.jpg".to_string(),
        file_name: "photo.jpg".to_string(),
        file_size: 512000,
        mime_type: Some("image/jpeg".to_string()),
    }
}

#[test]
fn law_get_after_add() {
    let mut store = MessageStore::new();
    let m = msg("alice-1", "alice", "general", "message", "hello");
    store.add_message(m.clone());
    assert_eq!(store.get_message("alice-1"), Some(m));
    assert_eq!(store.get_message("missing"), None);
}

#[test]
fn rooms_keep_their_order() {
    let mut store = MessageStore::new();
    store.add_message(msg("a-1", "alice", "general", "message", "one"));
    store.add_message(msg("b-1", "bob", "rust", "message", "other room"));
    store.add_message(msg("a-2", "alice", "general", "message", "two"));
    let general = store.get_room_messages("general");
    assert_eq!(general.len(), 2);
    assert_eq!(general[0].content, "one");
    assert_eq!(general[1].content, "two");
    assert_eq!(store.get_room_messages("rust").len(), 1);
    assert!(store.get_room_messages("nowhere").is_empty());
}

#[test]
fn law_delete_is_final() {
    let mut store = MessageStore::new();
    let mut m = msg("alice-1", "alice", "photos", "media", "look");
    m.media = Some(media());
    store.add_message(m);
    let deleted = store.delete_message("alice-1").unwrap();
    assert_eq!(deleted.msg_type, "deleted");
    assert_eq!(deleted.content, "[Tin nhắn đã bị xóa]");
    assert_eq!(deleted.media, None);
    assert_eq!(deleted.username, "alice");
    assert_eq!(store.get_message("alice-1"), Some(deleted));
    assert_eq!(store.delete_message("alice-1"), None);
    assert_eq!(store.edit_message("alice-1", "again"), None);
    assert!(!store.can_modify_message("alice-1", "alice"));
    assert_eq!(store.get_room_messages("photos").len(), 1);
}

#[test]
fn law_edit_keeps_identity() {
    let mut store = MessageStore::new();
    let mut m = msg("bob-1", "bob", "general", "media", "pic");
    m.media = Some(media());
    store.add_message(m);
    let edited = store.edit_message("bob-1", "new text").unwrap();
    assert_eq!(edited.msg_type, "edited");
    assert_eq!(edited.content, "new text");
    assert_eq!(edited.media, None);
    assert_eq!(edited.message_id, "bob-1");
    assert_eq!(edited.room, "general");
    assert_eq!(store.get_message("bob-1"), Some(edited));
    assert!(store.can_modify_message("bob-1", "bob"));
}

#[test]
fn unknown_messages_cannot_be_changed() {
    let mut store = MessageStore::new();
    assert_eq!(store.delete_message("x"), None);
    assert_eq!(store.edit_message("x", "y"), None);
    assert!(!store.can_modify_message("x", "alice"));
}

#[test]
fn only_the_sender_may_modify() {
    let mut store = MessageStore::new();
    store.add_message(msg("alice-1", "alice", "general", "message", "hi"));
    store.add_message(msg("sys-1", "System", "general", "system", "notice"));
    assert!(store.can_modify_message("alice-1", "alice"));
    assert!(!store.can_modify_message("alice-1", "bob"));
    assert!(!store.can_modify_message("sys-1", "System"));
}

#[test]
fn a_repeated_id_points_at_the_latest_message() {
    let mut store = MessageStore::new();
    store.add_message(msg("same", "alice", "general", "message", "first"));
    store.add_message(msg("same", "alice", "rust", "message", "second"));
    assert_eq!(store.get_message("same").unwrap().content, "second");
    store.delete_message("same");
    assert_eq!(store.get_room_messages("general")[0].content, "first");
    assert_eq!(store.get_room_messages("rust")[0].msg_type, "deleted");
}

#[test]
fn deleted_message_stays_in_history() {
    let mut store = MessageStore::new();
    let m = ChatMessage::new_at("message", "alice", "hi", "general", 1_715_000_000);
    assert_eq!(m.message_id, "alice-1715000000");
    store.add_message(m);
    let deleted = store.delete_message("alice-1715000000").unwrap();
    assert_eq!(deleted.msg_type, "deleted");
    assert_eq!(deleted.content, "[Tin nhắn đã bị xóa]");
    assert_eq!(deleted.media, None);
    assert_eq!(deleted.username, "alice");
    assert_eq!(deleted.room, "general");
    assert_eq!(deleted.message_id, "alice-1715000000");
    assert_eq!(store.get_message("alice-1715000000"), Some(deleted));
}
