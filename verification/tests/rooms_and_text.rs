use rust_network_project::rooms::{
    display_room, group_room_name, is_private_room, normalize_conversation,
    other_private_participant, private_room_contains_user, private_room_id,
    private_room_participants,
};
use rust_network_project::text::{find_char, less_than, split, strip_prefix, to_decimal, trim};

#[test]
fn trim_removes_unicode_white_space() {
    assert_eq!(trim("  hello \t\n"), "hello");
    assert_eq!(trim("\u{3000}room\u{2028}"), "room");
    assert_eq!(trim("   "), "");
    assert_eq!(trim("a b"), "a b");
}

#[test]
fn split_keeps_empty_pieces() {
    assert_eq!(split("a::b", ':'), vec!["a".to_string(), "".to_string(), "b".to_string()]);
    assert_eq!(split("", ':'), vec!["".to_string()]);
    assert_eq!(split("alice", ':'), vec!["alice".to_string()]);
}

#[test]
fn decimal_notation() {
    assert_eq!(to_decimal(0), "0");
    assert_eq!(to_decimal(7), "7");
    assert_eq!(to_decimal(1715000000123456789), "1715000000123456789");
    assert_eq!(to_decimal(u128::MAX), u128::MAX.to_string());
}

#[test]
fn order_and_search() {
    assert!(less_than("alice", "bob"));
    assert!(!less_than("bob", "alice"));
    assert!(less_than("al", "alice"));
    assert!(!less_than("alice", "alice"));
    assert_eq!(find_char("bob hello", ' '), Some(3));
    assert_eq!(find_char("bob", ' '), None);
    assert_eq!(strip_prefix("/dm bob hi", "/dm "), Some("bob hi"));
    assert_eq!(strip_prefix("/d", "/dm "), None);
}

#[test]
fn private_rooms_are_recognised() {
    assert!(is_private_room("dm:alice:bob"));
    assert!(!is_private_room("general"));
    assert!(!is_private_room("dm"));
}

#[test]
fn group_rooms_name_their_group() {
    assert_eq!(group_room_name("group:rustaceans"), Some("rustaceans"));
    assert_eq!(group_room_name("group:   "), None);
    assert_eq!(group_room_name("group:"), None);
    assert_eq!(group_room_name("general"), None);
}

#[test]
fn participants_of_private_rooms() {
    assert_eq!(
        private_room_participants("dm:alice:bob"),
        vec!["alice".to_string(), "bob".to_string()]
    );
    assert_eq!(private_room_participants("dm::bob"), vec!["bob".to_string()]);
    assert!(private_room_participants("general").is_empty());
    assert!(private_room_contains_user("dm:alice:bob", "bob"));
    assert!(!private_room_contains_user("dm:alice:bob", "carol"));
    assert!(!private_room_contains_user("general", "alice"));
}

#[test]
fn private_room_names_are_ordered_and_trimmed() {
    assert_eq!(private_room_id("bob", " alice "), "dm:alice:bob");
    assert_eq!(private_room_id("alice", "bob"), "dm:alice:bob");
    assert_eq!(private_room_id("bob", "alice"), private_room_id("alice", "bob"));
    assert_eq!(private_room_id("alice", "alice"), "dm:alice:alice");
}

#[test]
fn law_private_room_participants_on_values() {
    let room = private_room_id(" carol", "bob ");
    assert_eq!(room, "dm:bob:carol");
    assert!(private_room_contains_user(&room, "carol"));
    assert!(private_room_contains_user(&room, "bob"));
    assert_eq!(private_room_participants(&room).len(), 2);
}

#[test]
fn the_other_side_of_a_private_room() {
    assert_eq!(other_private_participant("alice", "dm:alice:bob"), "bob");
    assert_eq!(other_private_participant("bob", "dm:alice:bob"), "alice");
    assert_eq!(other_private_participant("carol", "dm::bob"), "");
    assert_eq!(other_private_participant("alice", "general"), "");
    assert_eq!(other_private_participant("alice", "dm:alice:alice"), "");
}

#[test]
fn how_rooms_are_shown() {
    assert_eq!(display_room("alice", "dm:alice:bob"), "@bob");
    assert_eq!(display_room("alice", "rust"), "#rust");
    assert_eq!(display_room("alice", "dm:alice:alice"), "@alice");
    assert_eq!(display_room("alice", "general"), "#general");
}

#[test]
fn switch_targets() {
    assert_eq!(normalize_conversation("alice", "@bob"), "dm:alice:bob");
    assert_eq!(normalize_conversation("alice", "@ bob "), "dm:alice:bob");
    assert_eq!(normalize_conversation("alice", "rust"), "rust");
}
