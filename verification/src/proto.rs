//! The chat protocol between a node and its browser clients: addresses,
//! rooms, messages, and the requests and replies on the wire.

use vstd::prelude::*;

verus! {

/// An IP address: IPv4 as a 32-bit number in network order (first octet
/// highest), IPv6 as a 128-bit number.
#[derive(PartialEq, Eq, Structural, Clone, Copy, Debug)]
pub enum IpAddress {
    V4(u32),
    V6(u128),
}

/// An IP address and a port.
#[derive(PartialEq, Eq, Structural, Clone, Copy, Debug)]
pub struct SocketAddress {
    pub ip: IpAddress,
    pub port: u16,
}

/// A point in time: seconds and nanoseconds since the Unix epoch, UTC.
#[derive(PartialEq, Eq, Structural, Clone, Copy, Debug)]
pub struct Timestamp {
    pub secs: i64,
    pub nanos: u32,
}

/// A room as another node advertises it.
pub struct PeerRoom {
    /// The room's UUID, as a 128-bit number.
    pub id: u128,
    pub ip: IpAddress,
    pub name: String,
}

pub struct PeerRoomView {
    pub id: u128,
    pub ip: IpAddress,
    pub name: Seq<char>,
}

impl View for PeerRoom {
    type V = PeerRoomView;

    open spec fn view(&self) -> PeerRoomView {
        PeerRoomView { id: self.id, ip: self.ip, name: self.name@ }
    }
}

impl PeerRoom {
    pub fn deep_copy(&self) -> (c: PeerRoom)
        ensures
            c@ == self@,
    {
        PeerRoom { id: self.id, ip: self.ip, name: self.name.clone() }
    }
}

/// What a node tells about itself.
pub struct NodeInfo {
    pub ip: IpAddress,
    pub name: String,
    pub rooms: Vec<PeerRoom>,
}

pub struct NodeInfoView {
    pub ip: IpAddress,
    pub name: Seq<char>,
    pub rooms: Seq<PeerRoomView>,
}

pub open spec fn peer_rooms_view(s: Seq<PeerRoom>) -> Seq<PeerRoomView> {
    s.map_values(|r: PeerRoom| r@)
}

impl View for NodeInfo {
    type V = NodeInfoView;

    open spec fn view(&self) -> NodeInfoView {
        NodeInfoView { ip: self.ip, name: self.name@, rooms: peer_rooms_view(self.rooms@) }
    }
}

impl NodeInfo {
    pub fn deep_copy(&self) -> (c: NodeInfo)
        ensures
            c@ == self@,
    {
        let mut rooms: Vec<PeerRoom> = Vec::new();
        let mut i: usize = 0;
        while i < self.rooms.len()
            invariant
                i <= self.rooms@.len(),
                rooms@.len() == i,
                forall|j: int| 0 <= j < i ==> rooms@[j]@ == self.rooms@[j]@,
            decreases self.rooms@.len() - i,
        {
            rooms.push(self.rooms[i].deep_copy());
            i = i + 1;
        }
        assert(peer_rooms_view(rooms@) =~= peer_rooms_view(self.rooms@));
        NodeInfo { ip: self.ip, name: self.name.clone(), rooms }
    }
}

pub open spec fn node_infos_view(s: Seq<NodeInfo>) -> Seq<NodeInfoView> {
    s.map_values(|n: NodeInfo| n@)
}

pub fn copy_node_infos(s: &Vec<NodeInfo>) -> (c: Vec<NodeInfo>)
    ensures
        node_infos_view(c@) == node_infos_view(s@),
{
    let mut out: Vec<NodeInfo> = Vec::new();
    let mut i: usize = 0;
    while i < s.len()
        invariant
            i <= s@.len(),
            out@.len() == i,
            forall|j: int| 0 <= j < i ==> out@[j]@ == s@[j]@,
        decreases s@.len() - i,
    {
        out.push(s[i].deep_copy());
        i = i + 1;
    }
    assert(node_infos_view(out@) =~= node_infos_view(s@));
    out
}

/// A chat message in a room.
pub struct ChatMessage {
    pub sender: String,
    pub content: String,
    pub timestamp: Timestamp,
    /// The room's UUID, as a 128-bit number.
    pub room_id: u128,
}

pub struct ChatMessageView {
    pub sender: Seq<char>,
    pub content: Seq<char>,
    pub timestamp: Timestamp,
    pub room_id: u128,
}

impl View for ChatMessage {
    type V = ChatMessageView;

    open spec fn view(&self) -> ChatMessageView {
        ChatMessageView {
            sender: self.sender@,
            content: self.content@,
            timestamp: self.timestamp,
            room_id: self.room_id,
        }
    }
}

impl ChatMessage {
    pub fn deep_copy(&self) -> (c: ChatMessage)
        ensures
            c@ == self@,
    {
        ChatMessage {
            sender: self.sender.clone(),
            content: self.content.clone(),
            timestamp: self.timestamp,
            room_id: self.room_id,
        }
    }
}

pub open spec fn messages_view(s: Seq<ChatMessage>) -> Seq<ChatMessageView> {
    s.map_values(|m: ChatMessage| m@)
}

pub fn copy_messages(s: &Vec<ChatMessage>) -> (c: Vec<ChatMessage>)
    ensures
        messages_view(c@) == messages_view(s@),
{
    let mut out: Vec<ChatMessage> = Vec::new();
    let mut i: usize = 0;
    while i < s.len()
        invariant
            i <= s@.len(),
            out@.len() == i,
            forall|j: int| 0 <= j < i ==> out@[j]@ == s@[j]@,
        decreases s@.len() - i,
    {
        out.push(s[i].deep_copy());
        i = i + 1;
    }
    assert(messages_view(out@) =~= messages_view(s@));
    out
}

/// A chat room hosted by a node. Participants are a set (no address twice).
pub struct Room {
    /// The room's UUID, as a 128-bit number.
    pub id: u128,
    pub name: String,
    pub host: IpAddress,
    pub participants: Vec<IpAddress>,
    pub messages: Vec<ChatMessage>,
}

pub struct RoomView {
    pub id: u128,
    pub name: Seq<char>,
    pub host: IpAddress,
    pub participants: Seq<IpAddress>,
    pub messages: Seq<ChatMessageView>,
}

impl View for Room {
    type V = RoomView;

    open spec fn view(&self) -> RoomView {
        RoomView {
            id: self.id,
            name: self.name@,
            host: self.host,
            participants: self.participants@,
            messages: messages_view(self.messages@),
        }
    }
}

impl Room {
    pub fn deep_copy(&self) -> (c: Room)
        ensures
            c@ == self@,
    {
        let participants = self.participants.clone();
        assert(participants@ =~= self.participants@);
        Room {
            id: self.id,
            name: self.name.clone(),
            host: self.host,
            participants,
            messages: copy_messages(&self.messages),
        }
    }
}

pub open spec fn rooms_view(s: Seq<Room>) -> Seq<RoomView> {
    s.map_values(|r: Room| r@)
}

pub fn copy_rooms(s: &Vec<Room>) -> (c: Vec<Room>)
    ensures
        rooms_view(c@) == rooms_view(s@),
{
    let mut out: Vec<Room> = Vec::new();
    let mut i: usize = 0;
    while i < s.len()
        invariant
            i <= s@.len(),
            out@.len() == i,
            forall|j: int| 0 <= j < i ==> out@[j]@ == s@[j]@,
        decreases s@.len() - i,
    {
        out.push(s[i].deep_copy());
        i = i + 1;
    }
    assert(rooms_view(out@) =~= rooms_view(s@));
    out
}

/// A request from a browser client to its node.
pub enum ClientMessage {
    CreateRoom { name: String },
    JoinRoom { room_id: u128, peer_ip: IpAddress },
    LeaveRoom { room_id: u128 },
    SendMessage { room_id: u128, content: String },
    ListPeers,
    ListRooms,
}

/// A reply or notification from a node to a browser client.
pub enum ServerMessage {
    RoomCreated { room: Room },
    RoomJoined { room: Room },
    RoomLeft { room_id: u128 },
    NewMessage { message: ChatMessage },
    PeerList { peers: Vec<NodeInfo> },
    RoomList { rooms: Vec<Room> },
    Error { message: String },
}

pub enum ServerMessageView {
    RoomCreated { room: RoomView },
    RoomJoined { room: RoomView },
    RoomLeft { room_id: u128 },
    NewMessage { message: ChatMessageView },
    PeerList { peers: Seq<NodeInfoView> },
    RoomList { rooms: Seq<RoomView> },
    Error { message: Seq<char> },
}

impl View for ServerMessage {
    type V = ServerMessageView;

    open spec fn view(&self) -> ServerMessageView {
        match self {
            ServerMessage::RoomCreated { room } => ServerMessageView::RoomCreated { room: room@ },
            ServerMessage::RoomJoined { room } => ServerMessageView::RoomJoined { room: room@ },
            ServerMessage::RoomLeft { room_id } => ServerMessageView::RoomLeft { room_id: *room_id },
            ServerMessage::NewMessage { message } => ServerMessageView::NewMessage { message: message@ },
            ServerMessage::PeerList { peers } => ServerMessageView::PeerList { peers: node_infos_view(peers@) },
            ServerMessage::RoomList { rooms } => ServerMessageView::RoomList { rooms: rooms_view(rooms@) },
            ServerMessage::Error { message } => ServerMessageView::Error { message: message@ },
        }
    }
}

} // verus!
