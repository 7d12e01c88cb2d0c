use ipchat::discovery::{IfAddr, Interface};
use ipchat::node::{frame_step, ChatService, Frame, FrameAction, Node};
use ipchat::proto::{ClientMessage, IpAddress, NodeInfo, ServerMessage, SocketAddress, Timestamp};

fn ip(a: u8, b: u8, c: u8, d: u8) -> u32 {
    u32::from_be_bytes([a, b, c, d])
}

fn node() -> Node {
    let ifs = vec![Interface { name: "eth0".to_string(), addr: IfAddr::V4 { ip: ip(192, 168, 1, 7), netmask: ip(255, 255, 255, 0) } }];
    Node::new("Leo".to_string(), &ifs).unwrap()
}

fn addr(port: u16) -> SocketAddress {
    SocketAddress { ip: IpAddress::V4(ip(127, 0, 0, 1)), port }
}

fn now() -> Timestamp {
    Timestamp { secs: 1_700_000_000, nanos: 5 }
}

#[test]
fn created_room_is_listed() {
    let mut n = node();
    n.add_connection(addr(1));
    let out = n.handle_client_message(ClientMessage::CreateRoom { name: "general".to_string() }, addr(1), 42, now());
    assert_eq!(out.len(), 1);
    assert_eq!(out[0].to, addr(1));
    match &out[0].message {
        ServerMessage::RoomCreated { room } => {
            assert_eq!(room.id, 42);
            assert_eq!(room.name, "general");
            assert_eq!(room.host, IpAddress::V4(ip(192, 168, 1, 7)));
            assert_eq!(room.participants, vec![IpAddress::V4(ip(192, 168, 1, 7))]);
        },
        _ => panic!("expected RoomCreated"),
    }
    let out = n.handle_client_message(ClientMessage::ListRooms, addr(1), 0, now());
    match &out[0].message {
        ServerMessage::RoomList { rooms } => {
            assert_eq!(rooms.len(), 1);
            assert_eq!(rooms[0].id, 42);
        },
        _ => panic!("expected RoomList"),
    }
}

#[test]
fn message_is_appended_and_broadcast() {
    let mut n = node();
    n.add_connection(addr(1));
    n.add_connection(addr(2));
    n.handle_client_message(ClientMessage::CreateRoom { name: "r".to_string() }, addr(1), 7, now());
    let out = n.handle_client_message(ClientMessage::SendMessage { room_id: 7, content: "hi".to_string() }, addr(2), 0, now());
    assert_eq!(out.len(), 2);
    assert_eq!(out[0].to, addr(1));
    assert_eq!(out[1].to, addr(2));
    match &out[1].message {
        ServerMessage::NewMessage { message } => {
            assert_eq!(message.sender, "Leo");
            assert_eq!(message.content, "hi");
            assert_eq!(message.room_id, 7);
            assert_eq!(message.timestamp, now());
        },
        _ => panic!("expected NewMessage"),
    }
    let rooms = n.rooms();
    assert_eq!(rooms[0].messages.len(), 1);
    assert_eq!(rooms[0].messages[0].content, "hi");
}

#[test]
fn message_to_unknown_room_is_dropped() {
    let mut n = node();
    n.add_connection(addr(1));
    let out = n.handle_client_message(ClientMessage::SendMessage { room_id: 9, content: "x".to_string() }, addr(1), 0, now());
    assert!(out.is_empty());
    assert!(n.rooms().is_empty());
}

#[test]
fn unconnected_client_gets_no_reply() {
    let mut n = node();
    let out = n.handle_client_message(ClientMessage::CreateRoom { name: "r".to_string() }, addr(5), 1, now());
    assert!(out.is_empty());
    assert_eq!(n.rooms().len(), 1);
    assert!(n.handle_client_message(ClientMessage::ListPeers, addr(5), 0, now()).is_empty());
}

#[test]
fn join_and_leave_change_nothing() {
    let mut n = node();
    n.add_connection(addr(1));
    let out = n.handle_client_message(ClientMessage::JoinRoom { room_id: 1, peer_ip: IpAddress::V4(1) }, addr(1), 0, now());
    assert!(out.is_empty());
    let out = n.handle_client_message(ClientMessage::LeaveRoom { room_id: 1 }, addr(1), 0, now());
    assert!(out.is_empty());
    assert!(n.rooms().is_empty());
}

#[test]
fn disconnect_undoes_connect() {
    let mut n = node();
    n.add_connection(addr(1));
    n.add_connection(addr(2));
    n.add_connection(addr(1));
    assert_eq!(n.connections(), vec![addr(1), addr(2)]);
    n.remove_connection(addr(1));
    assert_eq!(n.connections(), vec![addr(2)]);
    assert!(!n.is_connected(addr(1)));
}

#[test]
fn discovered_nodes_are_kept_by_address() {
    let mut n = node();
    n.add_node(NodeInfo { ip: IpAddress::V4(1), name: "a".to_string(), rooms: vec![] });
    n.add_node(NodeInfo { ip: IpAddress::V4(2), name: "b".to_string(), rooms: vec![] });
    n.add_node(NodeInfo { ip: IpAddress::V4(1), name: "c".to_string(), rooms: vec![] });
    let d = n.discovered_nodes();
    assert_eq!(d.len(), 2);
    assert_eq!(d[0].name, "c");
    assert_eq!(d[1].name, "b");
    n.add_connection(addr(1));
    let out = n.handle_client_message(ClientMessage::ListPeers, addr(1), 0, now());
    match &out[0].message {
        ServerMessage::PeerList { peers } => assert_eq!(peers.len(), 2),
        _ => panic!("expected PeerList"),
    }
}

#[test]
fn info_lists_rooms() {
    let mut n = node();
    n.handle_client_message(ClientMessage::CreateRoom { name: "r1".to_string() }, addr(1), 11, now());
    let info = n.info();
    assert_eq!(info.ip, IpAddress::V4(ip(192, 168, 1, 7)));
    assert_eq!(info.name, "Leo");
    assert_eq!(info.rooms.len(), 1);
    assert_eq!(info.rooms[0].id, 11);
    assert_eq!(info.rooms[0].name, "r1");
}

#[test]
fn chat_service_answers_for_its_node() {
    let mut s = ChatService::new(node());
    s.connect(addr(3));
    let out = s.handle_client_message(ClientMessage::ListRooms, addr(3), 0, now());
    assert_eq!(out.len(), 1);
    s.disconnect(addr(3));
    let out = s.handle_client_message(ClientMessage::ListRooms, addr(3), 0, now());
    assert!(out.is_empty());
}

#[test]
fn frames_and_what_they_ask() {
    match frame_step(Frame::Text("{}".to_string())) {
        FrameAction::Handle(t) => assert_eq!(t, "{}"),
        _ => panic!(),
    }
    assert!(matches!(frame_step(Frame::Close), FrameAction::Stop));
    assert!(matches!(frame_step(Frame::Failed), FrameAction::Stop));
    assert!(matches!(frame_step(Frame::Binary), FrameAction::Skip));
    assert!(matches!(frame_step(Frame::Ping), FrameAction::Skip));
    assert!(matches!(frame_step(Frame::Pong), FrameAction::Skip));
}
