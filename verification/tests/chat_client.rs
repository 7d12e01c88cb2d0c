use ipchat::chat_client::{
    encode_request, ChatRequest, ChatWebSocketConfig, ChatWebSocketContext, ChatWebSocketService, ChatWsError,
    ConnectionStatus, Notice, OpenAction,
};
use ipchat::proto::{ChatMessage, IpAddress, Room, ServerMessage, Timestamp};

fn ts(secs: i64) -> Timestamp {
    Timestamp { secs, nanos: 0 }
}

fn room(id: u128, name: &str) -> Room {
    Room { id, name: name.to_string(), host: IpAddress::V4(1), participants: vec![IpAddress::V4(1)], messages: vec![] }
}

fn msg(room_id: u128, content: &str) -> ChatMessage {
    ChatMessage { sender: "Ana".to_string(), content: content.to_string(), timestamp: ts(5), room_id }
}

#[test]
fn status_labels() {
    assert_eq!(ConnectionStatus::Disconnected.label(), "Disconnected");
    assert_eq!(ConnectionStatus::Connecting.label(), "Connecting...");
    assert_eq!(ConnectionStatus::Connected.label(), "Connected");
    assert_eq!(ConnectionStatus::Error.label(), "Error");
    assert_eq!(ConnectionStatus::Reconnecting.label(), "Reconnecting...");
    assert_eq!(ConnectionStatus::ConnectionFailed.label(), "Connection Failed");
}

#[test]
fn requests_as_json() {
    assert_eq!(encode_request(&ChatRequest::ListNodes).unwrap(), "{\"type\":\"ListNodes\"}");
    assert_eq!(encode_request(&ChatRequest::ListRooms).unwrap(), "{\"type\":\"ListRooms\"}");
    assert_eq!(
        encode_request(&ChatRequest::CreateRoom { name: "a \"b\"\n".to_string() }).unwrap(),
        "{\"type\":\"CreateRoom\",\"name\":\"a \\\"b\\\"\\n\"}"
    );
    assert_eq!(
        encode_request(&ChatRequest::JoinRoom { room_id: "r1".to_string(), peer_ip: "10.0.0.1".to_string() }).unwrap(),
        "{\"type\":\"JoinRoom\",\"room_id\":\"r1\",\"peer_ip\":\"10.0.0.1\"}"
    );
    assert_eq!(
        encode_request(&ChatRequest::SendMessage {
            room_id: "r1".to_string(),
            content: "hi".to_string(),
            sender: "me".to_string()
        })
        .unwrap(),
        "{\"type\":\"SendMessage\",\"room_id\":\"r1\",\"content\":\"hi\",\"sender\":\"me\"}"
    );
}

#[test]
fn connecting_needs_a_server() {
    let mut s = ChatWebSocketService::new();
    assert_eq!(s.connect(), Err(ChatWsError::ServerUrlNotSet));
    assert_eq!(ChatWsError::ServerUrlNotSet.message(), "Server URL is not set");
    s.set_server_url("ws://localhost:1".to_string());
    assert_eq!(s.connect(), Ok(Notice { connected: false, status: ConnectionStatus::Connecting }));
    assert!(!s.is_connected());
    assert_eq!(
        s.connection_opened(),
        vec![OpenAction::Notify(Notice { connected: true, status: ConnectionStatus::Connected }), OpenAction::InitialConnect]
    );
    assert!(s.is_connected());
    assert_eq!(s.connection_failed().status, ConnectionStatus::ConnectionFailed);
    assert_eq!(s.stream_failed().status, ConnectionStatus::Error);
    let plan = s.close_plan();
    assert_eq!(plan.notices.len(), 2);
    assert_eq!(plan.notices[1].status, ConnectionStatus::Reconnecting);
    assert_eq!(plan.wait_ms, Some(3000));
    s.disconnect();
    assert!(!s.is_connected());
    let plan = s.close_plan();
    assert_eq!(plan.notices, vec![Notice { connected: false, status: ConnectionStatus::Disconnected }]);
    assert_eq!(plan.wait_ms, None);
}

#[test]
fn reconnect_delay_is_taken_modulo_u32() {
    let mut s = ChatWebSocketService::new();
    s.set_should_reconnect(true);
    s.set_reconnect_delay((1u64 << 32) + 5);
    assert_eq!(s.close_plan().wait_ms, Some(5));
}

#[test]
fn sending_without_socket_is_refused() {
    let s = ChatWebSocketService::new();
    assert_eq!(s.list_nodes(), Err(ChatWsError::NotConnected));
    assert_eq!(s.create_room("x".to_string()), Err(ChatWsError::NotConnected));
    assert_eq!(ChatWsError::NotConnected.message(), "WebSocket is not connected");
}

#[test]
fn created_room_gets_empty_history() {
    let mut c = ChatWebSocketContext::new();
    c.handle_server_message(ServerMessage::NewMessage { message: msg(1, "old") }, ts(0));
    c.handle_server_message(ServerMessage::RoomCreated { room: room(1, "general") }, ts(0));
    assert_eq!(c.rooms().len(), 1);
    assert!(c.messages_for(1).is_empty());
}

#[test]
fn joining_posts_a_welcome_once() {
    let mut c = ChatWebSocketContext::new();
    c.handle_server_message(ServerMessage::RoomJoined { room: room(3, "games") }, ts(9));
    let h = c.messages_for(3);
    assert_eq!(h.len(), 1);
    assert_eq!(h[0].sender, "System");
    assert_eq!(h[0].content, "You joined games");
    assert_eq!(h[0].timestamp, ts(9));
    assert_eq!(c.active_room().unwrap().id, 3);
    c.handle_server_message(ServerMessage::NewMessage { message: msg(3, "yo") }, ts(10));
    c.handle_server_message(ServerMessage::RoomJoined { room: room(3, "games") }, ts(11));
    assert_eq!(c.messages_for(3).len(), 2);
}

#[test]
fn new_messages_are_appended() {
    let mut c = ChatWebSocketContext::new();
    c.handle_server_message(ServerMessage::NewMessage { message: msg(2, "a") }, ts(0));
    c.handle_server_message(ServerMessage::NewMessage { message: msg(2, "b") }, ts(0));
    c.handle_server_message(ServerMessage::NewMessage { message: msg(4, "c") }, ts(0));
    let h = c.messages_for(2);
    assert_eq!(h.len(), 2);
    assert_eq!(h[1].content, "b");
    assert_eq!(c.messages_for(4).len(), 1);
    assert!(c.messages_for(5).is_empty());
}

#[test]
fn room_list_keeps_histories() {
    let mut c = ChatWebSocketContext::new();
    c.handle_server_message(ServerMessage::NewMessage { message: msg(2, "a") }, ts(0));
    c.handle_server_message(ServerMessage::RoomList { rooms: vec![room(2, "x"), room(8, "y")] }, ts(0));
    assert_eq!(c.rooms().len(), 2);
    assert_eq!(c.messages_for(2).len(), 1);
    assert!(c.messages_for(8).is_empty());
    c.handle_server_message(ServerMessage::Error { message: "boom".to_string() }, ts(0));
    assert_eq!(c.rooms().len(), 2);
}

#[test]
fn connection_notices_are_recorded() {
    let mut c = ChatWebSocketContext::new();
    c.set_connection(Notice { connected: true, status: ConnectionStatus::Connected });
    c.set_active_room(Some(room(1, "a")));
    assert_eq!(c.active_room().unwrap().name, "a");
    c.set_active_room(None);
    assert!(c.active_room().is_none());
}

#[test]
fn config_builders_set_each_part() {
    let c = ChatWebSocketConfig::new("ws://node:9000".to_string());
    let c = c
        .with_reconnect_delay(250)
        .with_connection_change(|_connected: bool, _status: ConnectionStatus| {})
        .with_message(|_message: ServerMessage| {})
        .with_initial_connect(|| {});
    assert_eq!(c.server_url, "ws://node:9000");
    assert_eq!(c.reconnect_delay_ms, 250);
    assert!(c.on_connection_change.is_some());
    assert!(c.on_message.is_some());
    assert!(c.on_initial_connect.is_some());
}

#[test]
fn config_defaults() {
    let c: ChatWebSocketConfig<fn(bool, ConnectionStatus), fn(ServerMessage), fn()> =
        ChatWebSocketConfig::new("ws://a".to_string());
    assert_eq!(c.reconnect_delay_ms, 3000);
    assert!(c.on_connection_change.is_none());
    assert!(c.on_message.is_none());
    assert!(c.on_initial_connect.is_none());
}

#[test]
fn request_text_escapes_controls_and_keeps_unicode() {
    assert_eq!(
        encode_request(&ChatRequest::CreateRoom { name: "\u{1}\t\\é\u{8}\u{c}\r\u{1f}".to_string() }).unwrap(),
        "{\"type\":\"CreateRoom\",\"name\":\"\\u0001\\t\\\\é\\b\\f\\r\\u001f\"}"
    );
}
