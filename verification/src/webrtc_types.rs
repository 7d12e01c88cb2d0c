//! Configuration and descriptive types of the peer-to-peer layer.

use vstd::prelude::*;

verus! {

/// The STUN server that a fresh configuration lists.
pub open spec fn default_stun_url() -> Seq<char> {
    "stun:stun.l.google.com:19302"@
}

/// Configuration of one ICE server (STUN or TURN).
pub struct IceServerConfig {
    pub urls: Vec<String>,
    pub username: Option<String>,
    pub credential: Option<String>,
}

impl IceServerConfig {
    /// A server reached at `urls`, with no credentials.
    pub fn new(urls: Vec<String>) -> (c: Self)
        ensures
            c.urls@ == urls@,
            c.username is None,
            c.credential is None,
    {
        IceServerConfig { urls, username: None, credential: None }
    }

    /// Replaces the user name; nothing else changes.
    pub fn set_username(&mut self, username: Option<String>)
        ensures
            final(self).username == username,
            final(self).urls@ == old(self).urls@,
            final(self).credential == old(self).credential,
    {
        self.username = username;
    }

    /// Replaces the credential; nothing else changes.
    pub fn set_credential(&mut self, credential: Option<String>)
        ensures
            final(self).credential == credential,
            final(self).urls@ == old(self).urls@,
            final(self).username == old(self).username,
    {
        self.credential = credential;
    }
}

/// Configuration of the peer-to-peer client.
pub struct IPChatWebRTCConfig {
    pub signaling_server: String,
    pub ice_servers: Vec<IceServerConfig>,
    pub room_id: Option<String>,
}

impl IPChatWebRTCConfig {
    /// A configuration for `signaling_server`, with the public Google STUN
    /// server as its only ICE server and no room.
    pub fn new(signaling_server: String) -> (c: Self)
        ensures
            c.signaling_server@ == signaling_server@,
            c.ice_servers@.len() == 1,
            c.ice_servers@[0].urls@.len() == 1,
            c.ice_servers@[0].urls@[0]@ == default_stun_url(),
            c.ice_servers@[0].username is None,
            c.ice_servers@[0].credential is None,
            c.room_id is None,
    {
        let mut urls: Vec<String> = Vec::new();
        urls.push(String::from_str("stun:stun.l.google.com:19302"));
        let mut ice_servers: Vec<IceServerConfig> = Vec::new();
        ice_servers.push(IceServerConfig { urls, username: None, credential: None });
        IPChatWebRTCConfig { signaling_server, ice_servers, room_id: None }
    }

    /// Replaces the room; nothing else changes.
    pub fn set_room_id(&mut self, room_id: Option<String>)
        ensures
            final(self).room_id == room_id,
            final(self).signaling_server == old(self).signaling_server,
            final(self).ice_servers@ == old(self).ice_servers@,
    {
        self.room_id = room_id;
    }
}

/// Description of a device.
pub struct DeviceInfo {
    pub id: String,
    pub name: String,
    pub device_type: String,
    pub os: String,
    pub browser: String,
}

/// Metadata of one offered file. The modification time is a floating-point
/// number of milliseconds, held here by its IEEE-754 bit pattern.
pub struct FileMetadata {
    pub name: String,
    pub size: u64,
    pub mime_type: String,
    pub last_modified_bits: u64,
}

impl FileMetadata {
    pub fn new(name: String, size: u64, mime_type: String, last_modified_bits: u64) -> (m: Self)
        ensures
            m.name@ == name@,
            m.size == size,
            m.mime_type@ == mime_type@,
            m.last_modified_bits == last_modified_bits,
    {
        FileMetadata { name, size, mime_type, last_modified_bits }
    }
}

/// Status of a file transfer.
#[derive(PartialEq, Eq, Structural, Clone, Copy, Debug)]
pub enum TransferStatus {
    Pending,
    Accepted,
    Declined,
    Transferring,
    Completed,
    Failed,
    Cancelled,
}

/// State of a peer connection.
#[derive(PartialEq, Eq, Structural, Clone, Copy, Debug)]
pub enum ConnectionState {
    Disconnected,
    Connecting,
    Connected,
    Failed,
}

} // verus!
