//! The HTTP client of a node's API: the addresses it asks and how it reads
//! the answers' status codes.

use vstd::prelude::*;

use crate::text::{decimal, decimal_string};

verus! {

/// Errors of the API client, each with a human-readable detail.
#[derive(Debug)]
pub enum ApiError {
    NetworkError(String),
    ServerError(String),
    DeserializationError(String),
}

/// The text that describes an API error.
pub open spec fn api_error_text(e: ApiError) -> Seq<char> {
    match e {
        ApiError::NetworkError(m) => "Network error: "@ + m@,
        ApiError::ServerError(m) => "Server error: "@ + m@,
        ApiError::DeserializationError(m) => "Deserialization error: "@ + m@,
    }
}

impl ApiError {
    /// The text that describes this error.
    pub fn message(&self) -> (s: String)
        ensures
            s@ == api_error_text(*self),
    {
        match self {
            ApiError::NetworkError(m) => String::from_str("Network error: ").concat(m.as_str()),
            ApiError::ServerError(m) => String::from_str("Server error: ").concat(m.as_str()),
            ApiError::DeserializationError(m) => String::from_str("Deserialization error: ").concat(m.as_str()),
        }
    }
}

/// Node information: where the node is installed and how to reach it.
pub struct NodeObject {
    /// The client's IP address.
    pub client_ip: String,
    /// Installation path of the node.
    pub install_path: String,
    /// The node's local IP address.
    pub local_ip: String,
    /// The node's WebSocket address.
    pub web_socket_addr: String,
}

impl NodeObject {
    pub fn new(client_ip: String, install_path: String, local_ip: String, web_socket_addr: String) -> (o: NodeObject)
        ensures
            o.client_ip@ == client_ip@,
            o.install_path@ == install_path@,
            o.local_ip@ == local_ip@,
            o.web_socket_addr@ == web_socket_addr@,
    {
        NodeObject { client_ip, install_path, local_ip, web_socket_addr }
    }
}

/// The detail of a server error for an unexpected status code.
pub open spec fn unexpected_status_text(status: u16) -> Seq<char> {
    "Unexpected status code: "@ + decimal(status as nat)
}

/// Reads a status code: success when it is `expected`, else a server error.
pub fn status_outcome(status: u16, expected: u16) -> (r: Result<(), ApiError>)
    requires
        expected != 500,
    ensures
        status == expected <==> r is Ok,
        status == 500 ==> (r matches Err(ApiError::ServerError(m)) && m@ == "Internal server error"@),
        status != expected && status != 500 ==> (r matches Err(ApiError::ServerError(m)) && m@
            == unexpected_status_text(status)),
{
    if status == expected {
        Ok(())
    } else if status == 500 {
        Err(ApiError::ServerError(String::from_str("Internal server error")))
    } else {
        Err(ApiError::ServerError(String::from_str("Unexpected status code: ").concat(decimal_string(status as u64).as_str())))
    }
}

/// Client of a node's HTTP API at `base_url` (empty: the current origin).
pub struct ApiClient {
    base_url: String,
}

impl ApiClient {
    pub closed spec fn base(&self) -> Seq<char> {
        self.base_url@
    }

    /// A client of the current origin.
    pub fn new() -> (c: ApiClient)
        ensures
            c.base() == Seq::<char>::empty(),
    {
        ApiClient { base_url: String::new() }
    }

    /// A client of the node at `base_url`.
    pub fn remote(base_url: String) -> (c: ApiClient)
        ensures
            c.base() == base_url@,
    {
        ApiClient { base_url }
    }

    /// Where node information is asked.
    pub fn node_info_url(&self) -> (u: String)
        ensures
            u@ == self.base() + "/api/v0/node"@,
    {
        self.base_url.clone().concat("/api/v0/node")
    }

    /// Where users register.
    pub fn user_register_url(&self) -> (u: String)
        ensures
            u@ == self.base() + "/api/v0/user"@,
    {
        self.base_url.clone().concat("/api/v0/user")
    }

    /// Reads the status of a node-information answer: 200 means its body
    /// holds the information.
    pub fn node_info_status(status: u16) -> (r: Result<(), ApiError>)
        ensures
            status == 200 <==> r is Ok,
            status == 500 ==> (r matches Err(ApiError::ServerError(m)) && m@ == "Internal server error"@),
            status != 200 && status != 500 ==> (r matches Err(ApiError::ServerError(m)) && m@
                == unexpected_status_text(status)),
    {
        status_outcome(status, 200)
    }

    /// Reads the status of a registration answer: 201 means registered.
    pub fn user_register_status(status: u16) -> (r: Result<(), ApiError>)
        ensures
            status == 201 <==> r is Ok,
            status == 500 ==> (r matches Err(ApiError::ServerError(m)) && m@ == "Internal server error"@),
            status != 201 && status != 500 ==> (r matches Err(ApiError::ServerError(m)) && m@
                == unexpected_status_text(status)),
    {
        status_outcome(status, 201)
    }
}

} // verus!
