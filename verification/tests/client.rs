use ipchat::client::{ApiClient, ApiError, NodeObject};

#[test]
fn urls() {
    let c = ApiClient::remote("http://10.0.0.1:4724".to_string());
    assert_eq!(c.node_info_url(), "http://10.0.0.1:4724/api/v0/node");
    assert_eq!(c.user_register_url(), "http://10.0.0.1:4724/api/v0/user");
    assert_eq!(ApiClient::new().node_info_url(), "/api/v0/node");
}

#[test]
fn node_info_statuses() {
    assert!(ApiClient::node_info_status(200).is_ok());
    match ApiClient::node_info_status(500) {
        Err(e) => assert_eq!(e.message(), "Server error: Internal server error"),
        Ok(_) => panic!(),
    }
    match ApiClient::node_info_status(404) {
        Err(ApiError::ServerError(m)) => assert_eq!(m, "Unexpected status code: 404"),
        _ => panic!(),
    }
    match ApiClient::node_info_status(201) {
        Err(ApiError::ServerError(m)) => assert_eq!(m, "Unexpected status code: 201"),
        _ => panic!(),
    }
}

#[test]
fn user_register_statuses() {
    assert!(ApiClient::user_register_status(201).is_ok());
    match ApiClient::user_register_status(200) {
        Err(ApiError::ServerError(m)) => assert_eq!(m, "Unexpected status code: 200"),
        _ => panic!(),
    }
    assert!(ApiClient::user_register_status(500).is_err());
    match ApiClient::user_register_status(0) {
        Err(ApiError::ServerError(m)) => assert_eq!(m, "Unexpected status code: 0"),
        _ => panic!(),
    }
}

#[test]
fn error_messages() {
    assert_eq!(ApiError::NetworkError("x".to_string()).message(), "Network error: x");
    assert_eq!(ApiError::DeserializationError("y".to_string()).message(), "Deserialization error: y");
}

#[test]
fn node_object_new() {
    let o = NodeObject::new("a".to_string(), "b".to_string(), "c".to_string(), "d".to_string());
    assert_eq!((o.client_ip.as_str(), o.install_path.as_str(), o.local_ip.as_str(), o.web_socket_addr.as_str()), ("a", "b", "c", "d"));
}
