use ipchat::api::{asset_path, static_file_headers};
use ipchat::client::{ApiError, NodeObject};
use ipchat::text::is_blank;
use ipchat::ui::{quick_connect_device_name, server_url_for, use_toggle_sidebar, NodeContext, SessionContext, UIContext};

fn node(client_ip: &str, local_ip: &str, ws: &str) -> NodeObject {
    NodeObject::new(client_ip.to_string(), "/home/u/.ipchat".to_string(), local_ip.to_string(), ws.to_string())
}

#[test]
fn chat_server_on_localhost() {
    assert_eq!(server_url_for(&node("127.0.0.1:5555", "192.168.1.7:4724", "0.0.0.0:40123")), "ws://localhost:40123");
}

#[test]
fn chat_server_on_local_address() {
    assert_eq!(server_url_for(&node("192.168.1.9:5555", "192.168.1.7:4724", "0.0.0.0:40123")), "ws://192.168.1.7:40123");
}

#[test]
fn chat_server_default_port() {
    assert_eq!(server_url_for(&node("10.0.0.2:1", "10.0.0.1", "nowhere")), "ws://10.0.0.1:8080");
}

#[test]
fn fetch_node_info_records_the_node() {
    let mut c = NodeContext::new();
    assert!(c.is_loading);
    c.fetch_node_info(Err(ApiError::NetworkError("down".to_string())));
    assert!(!c.is_loading);
    assert!(c.server_url.is_none());
    c.fetch_node_info(Ok(node("127.0.0.1:1", "192.168.1.7:4724", "0.0.0.0:9")));
    assert_eq!(c.server_url.as_deref(), Some("ws://localhost:9"));
    assert!(c.node_info.is_some());
}

#[test]
fn sidebar_toggles() {
    let mut u = UIContext::new();
    assert!(u.is_sidebar_open);
    u.toggle_sidebar();
    assert!(!u.is_sidebar_open);
    let toggle = use_toggle_sidebar();
    let u = toggle(u);
    assert!(u.is_sidebar_open);
}

#[test]
fn session_username() {
    let mut s = SessionContext::new();
    assert!(s.username.is_none());
    s.set_username(Some("Leo".to_string()));
    assert_eq!(s.username.as_deref(), Some("Leo"));
}

#[test]
fn blank_names() {
    assert!(is_blank(""));
    assert!(is_blank(" \t\n\u{3000}"));
    assert!(!is_blank("  a "));
}

#[test]
fn asset_paths() {
    assert_eq!(asset_path("/index.html"), "index.html");
    assert_eq!(asset_path("//dist/app.js"), "app.js");
    assert_eq!(asset_path("/dist/x/dist/y.css"), "x/y.css");
    assert_eq!(asset_path("/img/dist/a.png"), "img/dist/a.png");
    assert_eq!(asset_path("/"), "");
}

#[test]
fn quick_connect_names() {
    assert_eq!(quick_connect_device_name(0), "Device-0");
    assert_eq!(quick_connect_device_name(9999), "Device-9999");
    assert_eq!(quick_connect_device_name(420), "Device-420");
}

#[test]
fn static_file_headers_for_found_files() {
    let h = static_file_headers("app.js", true);
    assert_eq!(h.content_type, "text/javascript");
    assert_eq!(h.cache_control.as_deref(), Some("max-age=604800"));
    let h = static_file_headers("style.CSS", true);
    assert_eq!(h.content_type, "text/css");
    let h = static_file_headers("LICENSE", true);
    assert_eq!(h.content_type, "application/octet-stream");
}

#[test]
fn static_file_headers_for_missing_files() {
    let h = static_file_headers("nowhere.png", false);
    assert_eq!(h.content_type, "text/html");
    assert!(h.cache_control.is_none());
}

#[test]
fn toggling_twice_restores_the_sidebar() {
    let toggle = use_toggle_sidebar();
    let u = UIContext::new();
    let u = toggle(toggle(u));
    assert!(u.is_sidebar_open);
    let mut v = UIContext::new();
    v.toggle_sidebar();
    v.toggle_sidebar();
    assert!(v.is_sidebar_open);
}
