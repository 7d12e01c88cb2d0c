use ipchat::chat_client::ChatWebSocketContext;
use ipchat::proto::{ChatMessage, IpAddress, Room, ServerMessage, Timestamp};
use ipchat::text::parse_i64;
use ipchat::views::{
    can_send, format_time, empty_nodes_hint, home_redirect, is_active_room, message_destination, message_kind,
    message_placeholder, new_room_name, nodes_heading, participants_label, room_messages, sign_in_name,
    signin_redirect, MessageKind,
};

fn room(id: u128, name: &str) -> Room {
    Room { id, name: name.to_string(), host: IpAddress::V4(0x0a000001), participants: vec![], messages: vec![] }
}

fn msg(room_id: u128, content: &str) -> ChatMessage {
    ChatMessage {
        sender: "bob".to_string(),
        content: content.to_string(),
        timestamp: Timestamp { secs: 5, nanos: 0 },
        room_id,
    }
}

#[test]
fn pages_redirect_by_session() {
    assert_eq!(home_redirect(&None), Some("/signin"));
    assert_eq!(home_redirect(&Some("ann".to_string())), None);
    assert_eq!(signin_redirect(&Some("ann".to_string())), Some("/"));
    assert_eq!(signin_redirect(&None), None);
}

#[test]
fn blank_names_are_not_submitted() {
    assert_eq!(sign_in_name("  \t".to_string()), None);
    assert_eq!(sign_in_name(" ann ".to_string()), Some(" ann ".to_string()));
    assert_eq!(new_room_name(String::new()), None);
    assert_eq!(new_room_name("lobby".to_string()), Some("lobby".to_string()));
}

#[test]
fn active_room_is_highlighted() {
    let active = Some(room(7, "lobby"));
    assert!(is_active_room(&active, 7));
    assert!(!is_active_room(&active, 8));
    assert!(!is_active_room(&None, 7));
}

#[test]
fn counting_labels() {
    assert_eq!(participants_label(0), "0 participant(s)");
    assert_eq!(participants_label(12), "12 participant(s)");
    assert_eq!(nodes_heading(3), "Nodes (3)");
    assert_eq!(empty_nodes_hint(true), "No nodes discovered yet...");
    assert_eq!(empty_nodes_hint(false), "Connect to see nodes");
    assert_eq!(message_placeholder(true), "Type a message...");
    assert_eq!(message_placeholder(false), "Connecting...");
}

#[test]
fn message_kinds() {
    assert_eq!(message_kind("System", "ann"), MessageKind { own: false, system: true, shows_sender: false });
    assert_eq!(message_kind("System", "System"), MessageKind { own: true, system: true, shows_sender: false });
    assert_eq!(message_kind("ann", "ann"), MessageKind { own: true, system: false, shows_sender: false });
    assert_eq!(message_kind("bob", "ann"), MessageKind { own: false, system: false, shows_sender: true });
}

#[test]
fn sending_needs_connection_text_and_room() {
    assert!(can_send(true, "hi"));
    assert!(!can_send(false, "hi"));
    assert!(!can_send(true, "   "));
    let active = Some(room(3, "r"));
    assert_eq!(message_destination("hi", &active), Some(3));
    assert_eq!(message_destination(" ", &active), None);
    assert_eq!(message_destination("hi", &None), None);
}

#[test]
fn chat_area_shows_active_room_messages() {
    let mut ctx = ChatWebSocketContext::new();
    assert!(room_messages(&ctx).is_empty());
    ctx.handle_server_message(ServerMessage::RoomCreated { room: room(1, "a") }, Timestamp { secs: 1, nanos: 0 });
    ctx.handle_server_message(ServerMessage::NewMessage { message: msg(1, "hello") }, Timestamp { secs: 2, nanos: 0 });
    ctx.handle_server_message(ServerMessage::NewMessage { message: msg(2, "elsewhere") }, Timestamp { secs: 3, nanos: 0 });
    assert!(room_messages(&ctx).is_empty());
    ctx.set_active_room(Some(room(1, "a")));
    let shown = room_messages(&ctx);
    assert_eq!(shown.len(), 1);
    assert_eq!(shown[0].content, "hello");
    ctx.set_active_room(Some(room(9, "none")));
    assert!(room_messages(&ctx).is_empty());
}

#[test]
fn chat_time_labels() {
    assert_eq!(format_time("0", 0), "00:00");
    assert_eq!(format_time("3723000", 0), "01:02");
    assert_eq!(format_time("3723000", 120), "03:02");
    assert_eq!(format_time("+60000", 0), "00:01");
    assert_eq!(format_time("-60000", 0), "23:59");
    assert_eq!(format_time("0", -90), "22:30");
    assert_eq!(format_time("86399999", 0), "23:59");
    assert_eq!(format_time("-9223372036854775808", 0), "16:47");
    assert_eq!(format_time("9223372036854775807", 0), "07:12");
    assert_eq!(format_time("abc", 60), "00:00");
    assert_eq!(format_time("9223372036854775808", 0), "00:00");
    assert_eq!(format_time("", 0), "00:00");
}

#[test]
fn integers_read_as_parse_does() {
    for s in ["0", "-0", "+7", "-12", "9223372036854775807", "-9223372036854775808", "9223372036854775808", "", "-", "+", " 1", "1 ", "12a", "--1", "00042", "99999999999999999999999"] {
        assert_eq!(parse_i64(s), s.parse::<i64>().ok(), "{}", s);
    }
}
