use rust_network_project::client::{
    chat_request, incoming_line, join_request, leave_request, login_request, parse_dm_command,
    ClientAction, ClientState,
};
use rust_network_project::message::ChatMessage;

fn print(s: &str) -> ClientAction {
    ClientAction::Print(s.to_string())
}

#[test]
fn dm_commands() {
    let dm = parse_dm_command("alice", "/dm bob hello Bob").unwrap();
    assert_eq!(dm.room, "dm:alice:bob");
    assert_eq!(dm.message, "hello Bob");
    assert!(parse_dm_command("alice", "/dm alice hi").is_none());
    assert!(parse_dm_command("alice", "/dm bob").is_none());
    assert!(parse_dm_command("alice", "/dm  hi").is_none());
    assert!(parse_dm_command("alice", "/dm bob   ").is_none());
    assert!(parse_dm_command("alice", "hello").is_none());
}

#[test]
fn readme_join_and_chat() {
    let mut c = ClientState::new("alice".to_string());
    assert_eq!(c.prompt(), "alice [#general]> ");
    assert_eq!(
        c.handle_input("hello everyone"),
        vec![ClientAction::Chat("general".into(), "hello everyone".into())]
    );
    assert_eq!(
        c.handle_input("/join rust"),
        vec![ClientAction::Join("rust".into()), print("Switched to #rust")]
    );
    assert_eq!(c.prompt(), "alice [#rust]> ");
    assert_eq!(c.handle_input("/switch general"), vec![print("Switched to #general")]);
    assert_eq!(c.handle_input("/switch rust"), vec![print("Switched to #rust")]);
    assert_eq!(
        c.handle_input("/leave"),
        vec![ClientAction::Leave("rust".into()), print("Left rust")]
    );
    assert_eq!(c.active_room(), "general");
}

#[test]
fn readme_private_chat() {
    let mut c = ClientState::new("alice".to_string());
    assert_eq!(
        c.handle_input("/dm bob hello Bob"),
        vec![
            ClientAction::Join("dm:alice:bob".into()),
            ClientAction::Chat("dm:alice:bob".into(), "hello Bob".into())
        ]
    );
    assert_eq!(c.prompt(), "alice [@bob]> ");
    assert_eq!(
        c.handle_input("still there?"),
        vec![ClientAction::Chat("dm:alice:bob".into(), "still there?".into())]
    );
    assert_eq!(c.handle_input("/leave"), vec![print("Closed @bob")]);
    assert_eq!(c.handle_input("/switch @bob"), vec![ClientAction::Join("dm:alice:bob".into()), print("Switched to @bob")]);
}

#[test]
fn law_general_room_stays() {
    let mut c = ClientState::new("alice".to_string());
    assert_eq!(
        c.handle_input("/leave"),
        vec![print("The general room stays available. Use /switch to move elsewhere.")]
    );
    assert_eq!(c.active_room(), "general");
    assert_eq!(c.farewell_rooms(), vec!["general".to_string()]);
}

#[test]
fn bad_commands() {
    let mut c = ClientState::new("alice".to_string());
    assert_eq!(c.handle_input("/quit"), vec![ClientAction::Quit]);
    assert!(c.handle_input("").is_empty());
    assert_eq!(c.handle_input("/join   "), vec![print("Room name cannot be empty")]);
    assert_eq!(
        c.handle_input("/join @bob"),
        vec![print("Use /switch @username or /dm <username> <message> for private chat")]
    );
    assert_eq!(c.handle_input("/switch  "), vec![print("Conversation name cannot be empty")]);
    assert_eq!(
        c.handle_input("/dm alice me"),
        vec![ClientAction::Chat("general".into(), "/dm alice me".into())]
    );
}

#[test]
fn law_active_stays_open() {
    let mut c = ClientState::new("alice".to_string());
    c.handle_input("/join rust");
    c.handle_input("/dm bob hi");
    c.handle_input("/leave");
    let mut rooms = c.farewell_rooms();
    rooms.sort();
    assert_eq!(rooms, vec!["general".to_string(), "rust".to_string()]);
    assert_eq!(c.handle_input("x"), vec![ClientAction::Chat("general".into(), "x".into())]);
}

#[test]
fn incoming_lines() {
    let mut m = ChatMessage::new_at("system", "SYSTEM", "welcome", "general", 0);
    assert_eq!(incoming_line("alice", &m), "[#general] welcome");
    m.msg_type = "error".into();
    assert_eq!(incoming_line("alice", &m), "[ERROR] welcome");
    let dm = ChatMessage::new_at("message", "bob", "hi", "dm:alice:bob", 0);
    assert_eq!(incoming_line("alice", &dm), "[@bob] bob: hi");
}

#[test]
fn requests_the_client_sends() {
    let l = login_request("alice", "pw");
    assert_eq!((l.msg_type.as_str(), l.username.as_str(), l.password.as_str()), ("login", "alice", "pw"));
    let j = join_request("alice", "general");
    assert_eq!((j.msg_type.as_str(), j.room.as_str(), j.password.as_str()), ("join", "general", ""));
    let v = leave_request("alice", "rust");
    assert_eq!((v.msg_type.as_str(), v.room.as_str()), ("leave", "rust"));
    let c = chat_request("alice", "dm:alice:bob", "hi");
    assert_eq!((c.msg_type.as_str(), c.target.as_str(), c.content.as_str()), ("message", "bob", "hi"));
    assert_eq!(chat_request("alice", "rust", "hi").target, "");
}
