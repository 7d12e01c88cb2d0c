//! Errors of the peer-to-peer layer.

use vstd::prelude::*;

verus! {

/// Errors of the peer-to-peer layer, each with a human-readable detail.
#[derive(Debug)]
pub enum IPChatWebRTCError {
    WebSocketError(String),
    WebRtcError(String),
    ConnectionError(String),
    SerializationError(String),
    FileTransferError(String),
    InvalidPeerId(String),
    PeerNotFound(String),
    NetworkError(String),
    JsError(String),
}

/// The text that describes an error: a fixed label for its kind, then its detail.
pub open spec fn webrtc_error_text(e: IPChatWebRTCError) -> Seq<char> {
    match e {
        IPChatWebRTCError::WebSocketError(m) => "WebSocket error: "@ + m@,
        IPChatWebRTCError::WebRtcError(m) => "WebRTC error: "@ + m@,
        IPChatWebRTCError::ConnectionError(m) => "Connection error: "@ + m@,
        IPChatWebRTCError::SerializationError(m) => "Serialization error: "@ + m@,
        IPChatWebRTCError::FileTransferError(m) => "File transfer error: "@ + m@,
        IPChatWebRTCError::InvalidPeerId(m) => "Invalid peer ID: "@ + m@,
        IPChatWebRTCError::PeerNotFound(m) => "Peer not found: "@ + m@,
        IPChatWebRTCError::NetworkError(m) => "Network error: "@ + m@,
        IPChatWebRTCError::JsError(m) => "JavaScript error: "@ + m@,
    }
}

impl IPChatWebRTCError {
    /// The text that describes this error.
    pub fn message(&self) -> (s: String)
        ensures
            s@ == webrtc_error_text(*self),
    {
        match self {
            IPChatWebRTCError::WebSocketError(m) => String::from_str("WebSocket error: ").concat(m.as_str()),
            IPChatWebRTCError::WebRtcError(m) => String::from_str("WebRTC error: ").concat(m.as_str()),
            IPChatWebRTCError::ConnectionError(m) => String::from_str("Connection error: ").concat(m.as_str()),
            IPChatWebRTCError::SerializationError(m) => String::from_str("Serialization error: ").concat(m.as_str()),
            IPChatWebRTCError::FileTransferError(m) => String::from_str("File transfer error: ").concat(m.as_str()),
            IPChatWebRTCError::InvalidPeerId(m) => String::from_str("Invalid peer ID: ").concat(m.as_str()),
            IPChatWebRTCError::PeerNotFound(m) => String::from_str("Peer not found: ").concat(m.as_str()),
            IPChatWebRTCError::NetworkError(m) => String::from_str("Network error: ").concat(m.as_str()),
            IPChatWebRTCError::JsError(m) => String::from_str("JavaScript error: ").concat(m.as_str()),
        }
    }
}

} // verus!
