use ipchat::command::{Command, Config, StartCmd, DEFAULT_PORT};
use ipchat::proto::{IpAddress, SocketAddress};
use ipchat::text::decimal_string;
use ipchat::version;
use ipchat::webrtc_error::IPChatWebRTCError;
use ipchat::webrtc_types::{ConnectionState, IPChatWebRTCConfig, IceServerConfig, TransferStatus};

#[test]
fn version_string() {
    assert_eq!(version(), "0.1.0");
}

#[test]
fn decimals() {
    assert_eq!(decimal_string(0), "0");
    assert_eq!(decimal_string(7), "7");
    assert_eq!(decimal_string(1234567890), "1234567890");
    assert_eq!(decimal_string(u64::MAX), u64::MAX.to_string());
}

#[test]
fn default_configuration() {
    let mut c = IPChatWebRTCConfig::new("ws://x".to_string());
    assert_eq!(c.signaling_server, "ws://x");
    assert_eq!(c.ice_servers.len(), 1);
    assert_eq!(c.ice_servers[0].urls, vec!["stun:stun.l.google.com:19302".to_string()]);
    assert!(c.room_id.is_none());
    c.set_room_id(Some("r".to_string()));
    assert_eq!(c.room_id.as_deref(), Some("r"));
}

#[test]
fn ice_server_credentials() {
    let mut s = IceServerConfig::new(vec!["turn:t".to_string()]);
    assert!(s.username.is_none() && s.credential.is_none());
    s.set_username(Some("u".to_string()));
    s.set_credential(Some("p".to_string()));
    assert_eq!(s.username.as_deref(), Some("u"));
    assert_eq!(s.credential.as_deref(), Some("p"));
    assert_eq!(s.urls, vec!["turn:t".to_string()]);
}

#[test]
fn start_command() {
    let c = StartCmd::new();
    assert_eq!(c.port, DEFAULT_PORT);
    assert_eq!(DEFAULT_PORT, 4724);
    assert_eq!(c.bind_address(), SocketAddress { ip: IpAddress::V4(0), port: 4724 });
    assert_eq!(c.local_address(IpAddress::V4(5)).ip, IpAddress::V4(5));
    assert_eq!(Command::Start(c), Command::Start(StartCmd { port: 4724 }));
    assert_eq!(Config::new().name, "anonymous");
}

#[test]
fn webrtc_error_messages() {
    assert_eq!(IPChatWebRTCError::WebSocketError("a".to_string()).message(), "WebSocket error: a");
    assert_eq!(IPChatWebRTCError::JsError("b".to_string()).message(), "JavaScript error: b");
    assert_eq!(IPChatWebRTCError::InvalidPeerId("c".to_string()).message(), "Invalid peer ID: c");
}

#[test]
fn status_enums() {
    assert_ne!(TransferStatus::Pending, TransferStatus::Completed);
    assert_eq!(ConnectionState::Connected, ConnectionState::Connected);
}
