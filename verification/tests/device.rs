use ipchat::device::{DeviceManager, Message, MessageType, PeerInfo, SignalingMessage};
use ipchat::webrtc_error::IPChatWebRTCError;
use ipchat::webrtc_types::IPChatWebRTCConfig;

fn manager() -> DeviceManager {
    let mut cfg = IPChatWebRTCConfig::new("ws://signal".to_string());
    cfg.set_room_id(Some("room".to_string()));
    DeviceManager::new(cfg, "laptop".to_string())
}

fn info(id: &str, name: &str) -> PeerInfo {
    PeerInfo::new(id.to_string(), name.to_string(), "desktop".to_string())
}

#[test]
fn registration_message() {
    let mut d = manager();
    assert!(!d.has_signaling());
    match d.signaling_opened() {
        SignalingMessage::Register { device_name, room_id } => {
            assert_eq!(device_name, "laptop");
            assert_eq!(room_id.as_deref(), Some("room"));
        },
        _ => panic!(),
    }
    assert!(d.has_signaling());
    d.drop_signaling();
    assert!(!d.has_signaling());
}

#[test]
fn registered_id_becomes_own_id() {
    let mut d = manager();
    assert!(d.peer_id().is_none());
    assert!(d.handle_signaling_message(SignalingMessage::Registered { peer_id: "p1".to_string() }).is_none());
    assert_eq!(d.peer_id().as_deref(), Some("p1"));
    assert_eq!(d.device_name(), "laptop");
}

#[test]
fn registered_device_routes_offers_and_signs_messages() {
    let mut d = manager();
    d.signaling_opened();
    d.handle_signaling_message(SignalingMessage::Registered { peer_id: "me".to_string() });
    assert_eq!(d.offer_route("you".to_string()), Some(("me".to_string(), "you".to_string())));
    d.add_connection("you".to_string());
    match d.send_message("you".to_string(), "hi".to_string(), 7) {
        Ok(Some(m)) => {
            assert_eq!(m.from, "me");
            assert_eq!(m.to, "you");
            assert_eq!(m.text_content().as_deref(), Some("hi"));
        },
        _ => panic!(),
    }
}

#[test]
fn peers_update_replaces_peers() {
    let mut d = manager();
    d.handle_signaling_message(SignalingMessage::PeersUpdate { peers: vec![info("z", "old")] });
    let reported = d
        .handle_signaling_message(SignalingMessage::PeersUpdate { peers: vec![info("a", "A"), info("b", "B"), info("a", "A2")] })
        .unwrap();
    assert_eq!(reported.len(), 3);
    let mut peers: Vec<(String, String)> = d.get_peers().into_iter().map(|p| (p.id, p.name)).collect();
    peers.sort();
    assert_eq!(peers, vec![("a".to_string(), "A2".to_string()), ("b".to_string(), "B".to_string())]);
}

#[test]
fn departed_peer_is_forgotten() {
    let mut d = manager();
    d.handle_signaling_message(SignalingMessage::PeersUpdate { peers: vec![info("a", "A"), info("b", "B")] });
    d.add_connection("a".to_string());
    assert!(d.is_connected_to("a"));
    d.handle_signaling_message(SignalingMessage::PeerDisconnected { peer_id: "a".to_string() });
    assert!(!d.is_connected_to("a"));
    let peers = d.get_peers();
    assert_eq!(peers.len(), 1);
    assert_eq!(peers[0].id, "b");
}

#[test]
fn sending_needs_a_connection() {
    let mut d = manager();
    match d.send_message("a".to_string(), "hi".to_string(), 0) {
        Err(e) => assert_eq!(e.message(), "Peer not found: a"),
        Ok(_) => panic!(),
    }
    d.add_connection("a".to_string());
    assert!(d.send_message("a".to_string(), "hi".to_string(), 0).unwrap().is_none());
    assert!(matches!(d.send_file_offer("b".to_string(), "[]".to_string()), Err(IPChatWebRTCError::PeerNotFound(_))));
    assert_eq!(d.send_file_offer("a".to_string(), "[]".to_string()).unwrap(), "[]");
    d.clear_connections();
    assert!(!d.is_connected_to("a"));
}

#[test]
fn offers_need_an_id() {
    let mut d = manager();
    d.signaling_opened();
    assert!(d.offer_route("p".to_string()).is_none());
}

#[test]
fn text_messages() {
    let m = Message::text("me".to_string(), "you".to_string(), "hello".to_string(), 1.5f64.to_bits());
    assert_eq!(m.text_content().as_deref(), Some("hello"));
    let p = Message { from: "a".to_string(), to: "b".to_string(), timestamp_bits: 0, payload: MessageType::Ping };
    assert!(p.text_content().is_none());
}

#[test]
fn signaling_keeps_identity() {
    let mut d = manager();
    d.signaling_opened();
    let msgs = vec![
        SignalingMessage::Registered { peer_id: "p9".to_string() },
        SignalingMessage::Ping,
        SignalingMessage::Error { message: "bad".to_string() },
        SignalingMessage::PeersUpdate { peers: vec![info("laptop", "laptop")] },
        SignalingMessage::PeerDisconnected { peer_id: "laptop".to_string() },
    ];
    for m in msgs {
        d.handle_signaling_message(m);
        assert_eq!(d.device_name(), "laptop");
        assert_eq!(d.peer_id().as_deref(), Some("p9"));
        assert!(d.has_signaling());
    }
}
