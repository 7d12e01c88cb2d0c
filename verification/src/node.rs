//! The state of a chat node: its connected browser clients, the rooms it
//! hosts and the nodes it has discovered, and how it answers client requests.

use vstd::prelude::*;

use crate::discovery::{find_local_ip, DiscoveryError, Interface};
use crate::proto::{ChatMessage, ChatMessageView, PeerRoom, PeerRoomView, copy_node_infos, copy_rooms, peer_rooms_view, ClientMessage, IpAddress, NodeInfo, NodeInfoView, Room, RoomView, ServerMessage, ServerMessageView, SocketAddress, Timestamp, node_infos_view, rooms_view};

verus! {

/// The reply that `deliver_to_sender` sends: one message to `from` if it is connected.
pub open spec fn reply_to(connections: Seq<SocketAddress>, from: SocketAddress, m: ServerMessageView) -> Seq<DeliveryView> {
    if connections.contains(from) {
        seq![DeliveryView { to: from, message: m }]
    } else {
        Seq::empty()
    }
}

/// The same message to every connection, in order.
pub open spec fn broadcast(connections: Seq<SocketAddress>, m: ServerMessageView) -> Seq<DeliveryView> {
    connections.map_values(|c: SocketAddress| DeliveryView { to: c, message: m })
}

/// A message for one connected client.
pub struct Delivery {
    pub to: SocketAddress,
    pub message: ServerMessage,
}

pub struct DeliveryView {
    pub to: SocketAddress,
    pub message: ServerMessageView,
}

impl View for Delivery {
    type V = DeliveryView;

    open spec fn view(&self) -> DeliveryView {
        DeliveryView { to: self.to, message: self.message@ }
    }
}

pub open spec fn deliveries_view(s: Seq<Delivery>) -> Seq<DeliveryView> {
    s.map_values(|d: Delivery| d@)
}

/// The index of the room with id `id`, if any.
pub open spec fn room_index(rooms: Seq<RoomView>, id: u128) -> Option<int> {
    if exists|i: int| 0 <= i < rooms.len() && rooms[i].id == id {
        Some(choose|i: int| 0 <= i < rooms.len() && rooms[i].id == id)
    } else {
        None
    }
}

/// Rooms have distinct ids.
pub open spec fn room_ids_unique(rooms: Seq<RoomView>) -> bool {
    forall|i: int, j: int| 0 <= i < j < rooms.len() ==> rooms[i].id != rooms[j].id
}

/// Nodes have distinct addresses.
pub open spec fn node_ips_unique(nodes: Seq<NodeInfoView>) -> bool {
    forall|i: int, j: int| 0 <= i < j < nodes.len() ==> nodes[i].ip != nodes[j].ip
}

/// Rooms after `r` is stored under its id: the room with that id is
/// replaced where it stands, or `r` is added at the end.
pub open spec fn store_room(rooms: Seq<RoomView>, r: RoomView) -> Seq<RoomView> {
    match room_index(rooms, r.id) {
        Some(i) => rooms.update(i, r),
        None => rooms.push(r),
    }
}

/// Nodes after `n` is recorded under its address: the node with that address
/// is replaced where it stands, or `n` is added at the end.
pub open spec fn store_node(nodes: Seq<NodeInfoView>, n: NodeInfoView) -> Seq<NodeInfoView> {
    if exists|i: int| 0 <= i < nodes.len() && nodes[i].ip == n.ip {
        nodes.update(choose|i: int| 0 <= i < nodes.len() && nodes[i].ip == n.ip, n)
    } else {
        nodes.push(n)
    }
}

/// A node's state as values.
pub struct NodeView {
    pub ip: u32,
    pub name: Seq<char>,
    pub connections: Seq<SocketAddress>,
    pub rooms: Seq<RoomView>,
    pub discovered_nodes: Seq<NodeInfoView>,
}

/// The room that a `CreateRoom` request makes: named `name`, hosted and
/// joined by this node, with no message.
pub open spec fn new_room(ip: u32, id: u128, name: Seq<char>) -> RoomView {
    RoomView {
        id,
        name,
        host: IpAddress::V4(ip),
        participants: seq![IpAddress::V4(ip)],
        messages: Seq::empty(),
    }
}

/// The message that a `SendMessage` request posts: sent by this node, at `now`.
pub open spec fn new_message(sender: Seq<char>, content: Seq<char>, room_id: u128, now: Timestamp) -> ChatMessageView {
    ChatMessageView { sender, content, timestamp: now, room_id }
}

/// How a node answers a client request that came from `from`: its next
/// state and the messages it sends. A new room gets the id `fresh_id`; a new
/// message is stamped `now`. Joining and leaving rooms change nothing.
pub open spec fn node_step(
    n: NodeView,
    msg: ClientMessageView,
    from: SocketAddress,
    fresh_id: u128,
    now: Timestamp,
) -> (NodeView, Seq<DeliveryView>) {
    match msg {
        ClientMessageView::CreateRoom { name } => {
            let room = new_room(n.ip, fresh_id, name);
            (
                NodeView { rooms: store_room(n.rooms, room), ..n },
                reply_to(n.connections, from, ServerMessageView::RoomCreated { room }),
            )
        },
        ClientMessageView::SendMessage { room_id, content } => match room_index(n.rooms, room_id) {
            Some(i) => {
                let m = new_message(n.name, content, room_id, now);
                let room = RoomView { messages: n.rooms[i].messages.push(m), ..n.rooms[i] };
                (
                    NodeView { rooms: n.rooms.update(i, room), ..n },
                    broadcast(n.connections, ServerMessageView::NewMessage { message: m }),
                )
            },
            None => (n, Seq::empty()),
        },
        ClientMessageView::ListPeers => (
            n,
            reply_to(n.connections, from, ServerMessageView::PeerList { peers: n.discovered_nodes }),
        ),
        ClientMessageView::ListRooms => (
            n,
            reply_to(n.connections, from, ServerMessageView::RoomList { rooms: n.rooms }),
        ),
        _ => (n, Seq::empty()),
    }
}

pub enum ClientMessageView {
    CreateRoom { name: Seq<char> },
    JoinRoom { room_id: u128, peer_ip: IpAddress },
    LeaveRoom { room_id: u128 },
    SendMessage { room_id: u128, content: Seq<char> },
    ListPeers,
    ListRooms,
}

impl View for ClientMessage {
    type V = ClientMessageView;

    open spec fn view(&self) -> ClientMessageView {
        match self {
            ClientMessage::CreateRoom { name } => ClientMessageView::CreateRoom { name: name@ },
            ClientMessage::JoinRoom { room_id, peer_ip } => ClientMessageView::JoinRoom { room_id: *room_id, peer_ip: *peer_ip },
            ClientMessage::LeaveRoom { room_id } => ClientMessageView::LeaveRoom { room_id: *room_id },
            ClientMessage::SendMessage { room_id, content } => ClientMessageView::SendMessage { room_id: *room_id, content: content@ },
            ClientMessage::ListPeers => ClientMessageView::ListPeers,
            ClientMessage::ListRooms => ClientMessageView::ListRooms,
        }
    }
}

/// A chat node.
pub struct Node {
    ip: u32,
    name: String,
    connections: Vec<SocketAddress>,
    rooms: Vec<Room>,
    discovered_nodes: Vec<NodeInfo>,
}

impl View for Node {
    type V = NodeView;

    closed spec fn view(&self) -> NodeView {
        NodeView {
            ip: self.ip,
            name: self.name@,
            connections: self.connections@,
            rooms: rooms_view(self.rooms@),
            discovered_nodes: node_infos_view(self.discovered_nodes@),
        }
    }
}

impl Node {
    /// No connection twice, no room id twice, no node address twice.
    pub open spec fn wf(&self) -> bool {
        &&& self@.connections.no_duplicates()
        &&& room_ids_unique(self@.rooms)
        &&& node_ips_unique(self@.discovered_nodes)
    }

    /// A node named `name` at the local address chosen among `interfaces`
    /// (see `find_local_ip`), with no connection, room or known node.
    pub fn new(name: String, interfaces: &Vec<Interface>) -> (r: Result<Node, DiscoveryError>)
        ensures
            match r {
                Ok(n) => {
                    &&& n.wf()
                    &&& find_local_ip(interfaces@) == Some(n@.ip)
                    &&& n@.name == name@
                    &&& n@.connections.len() == 0
                    &&& n@.rooms.len() == 0
                    &&& n@.discovered_nodes.len() == 0
                },
                Err(e) => find_local_ip(interfaces@) is None && e == DiscoveryError::NoSuitableInterface,
            },
    {
        let ip = crate::discovery::find_local_ip_exec(interfaces)?;
        let n = Node { ip, name, connections: Vec::new(), rooms: Vec::new(), discovered_nodes: Vec::new() };
        assert(n@.rooms =~= Seq::empty());
        assert(n@.discovered_nodes =~= Seq::empty());
        Ok(n)
    }
}

/// With distinct ids, the room found at `i` is the one `room_index` names.
pub proof fn lemma_room_index(rooms: Seq<RoomView>, i: int)
    requires
        room_ids_unique(rooms),
        0 <= i < rooms.len(),
    ensures
        room_index(rooms, rooms[i].id) == Some(i),
{
}

/// A node after the client at `addr` has connected.
pub open spec fn connected(n: NodeView, addr: SocketAddress) -> NodeView {
    NodeView {
        connections: if n.connections.contains(addr) {
            n.connections
        } else {
            n.connections.push(addr)
        },
        ..n
    }
}

/// A node after the client at `addr` has gone.
pub open spec fn disconnected(n: NodeView, addr: SocketAddress) -> NodeView {
    NodeView { connections: n.connections.remove_value(addr), ..n }
}

/// The rooms a node advertises: each room's id, host and name.
pub open spec fn advertised_rooms(rooms: Seq<RoomView>) -> Seq<PeerRoomView> {
    rooms.map_values(|r: RoomView| PeerRoomView { id: r.id, ip: r.host, name: r.name })
}

impl Node {
    pub fn ip(&self) -> (ip: u32)
        ensures
            ip == self@.ip,
    {
        self.ip
    }

    pub fn name(&self) -> (n: String)
        ensures
            n@ == self@.name,
    {
        self.name.clone()
    }

    /// The connected clients.
    pub fn connections(&self) -> (c: Vec<SocketAddress>)
        ensures
            c@ == self@.connections,
    {
        let c = self.connections.clone();
        assert(c@ =~= self.connections@);
        c
    }

    /// Whether `addr` is a connected client.
    pub fn is_connected(&self, addr: SocketAddress) -> (r: bool)
        ensures
            r == self@.connections.contains(addr),
    {
        let mut i: usize = 0;
        while i < self.connections.len()
            invariant
                i <= self.connections@.len(),
                forall|j: int| 0 <= j < i ==> self.connections@[j] != addr,
            decreases self.connections@.len() - i,
        {
            if self.connections[i] == addr {
                return true;
            }
            i = i + 1;
        }
        false
    }

    /// Registers the client at `addr` (a client already there stays once).
    pub fn add_connection(&mut self, addr: SocketAddress)
        requires
            old(self).wf(),
        ensures
            final(self).wf(),
            final(self)@ == connected(old(self)@, addr),
    {
        if !self.is_connected(addr) {
            self.connections.push(addr);
        }
        assert(self@.rooms =~= old(self)@.rooms);
        assert(self@.discovered_nodes =~= old(self)@.discovered_nodes);
    }

    /// Forgets the client at `addr`; the others keep their order.
    pub fn remove_connection(&mut self, addr: SocketAddress)
        requires
            old(self).wf(),
        ensures
            final(self).wf(),
            final(self)@ == disconnected(old(self)@, addr),
    {
        let mut i: usize = 0;
        while i < self.connections.len()
            invariant
                i <= self.connections@.len(),
                self@ == old(self)@,
                old(self).wf(),
                forall|j: int| 0 <= j < i ==> self.connections@[j] != addr,
            decreases self.connections@.len() - i,
        {
            if self.connections[i] == addr {
                let ghost before = self.connections@;
                self.connections.remove(i);
                proof {
                    before.index_of_first_ensures(addr);
                    let k = before.index_of_first(addr).unwrap();
                    assert(k == i);
                    assert(self@.connections == before.remove(i as int));
                    assert(self@.connections.no_duplicates()) by {
                        assert forall|a: int, b: int| 0 <= a < self@.connections.len() && 0 <= b < self@.connections.len() && a != b
                            implies self@.connections[a] != self@.connections[b] by {
                            let a0 = if a < i { a } else { a + 1 };
                            let b0 = if b < i { b } else { b + 1 };
                            assert(self@.connections[a] == before[a0]);
                            assert(self@.connections[b] == before[b0]);
                        }
                    }
                }
                assert(self@.rooms =~= old(self)@.rooms);
                assert(self@.discovered_nodes =~= old(self)@.discovered_nodes);
                return;
            }
            i = i + 1;
        }
        proof {
            old(self)@.connections.index_of_first_ensures(addr);
        }
    }

    /// Records a discovered node under its address.
    pub fn add_node(&mut self, node_info: NodeInfo)
        requires
            old(self).wf(),
        ensures
            final(self).wf(),
            final(self)@ == (NodeView {
                discovered_nodes: store_node(old(self)@.discovered_nodes, node_info@),
                ..old(self)@
            }),
    {
        let ghost nodes = self@.discovered_nodes;
        let ghost nv = node_info@;
        let mut i: usize = 0;
        while i < self.discovered_nodes.len()
            invariant
                i <= self.discovered_nodes@.len(),
                self@ == old(self)@,
                old(self).wf(),
                nodes == old(self)@.discovered_nodes,
                nv == node_info@,
                forall|j: int| 0 <= j < i ==> nodes[j].ip != nv.ip,
            decreases self.discovered_nodes@.len() - i,
        {
            assert(nodes[i as int] == self.discovered_nodes@[i as int]@);
            if self.discovered_nodes[i].ip == node_info.ip {
                self.discovered_nodes.set(i, node_info);
                proof {
                    assert(nodes[i as int].ip == nv.ip);
                    let k = choose|k: int| 0 <= k < nodes.len() && nodes[k].ip == nv.ip;
                    assert(k == i);
                    assert(self@.discovered_nodes =~= nodes.update(i as int, nv));
                }
                assert(self@.rooms =~= old(self)@.rooms);
                return;
            }
            i = i + 1;
        }
        self.discovered_nodes.push(node_info);
        assert(self@.discovered_nodes =~= nodes.push(nv));
        assert(self@.rooms =~= old(self)@.rooms);
    }

    /// What this node tells about itself: its address, its name and its rooms.
    pub fn info(&self) -> (r: NodeInfo)
        ensures
            r@ == (NodeInfoView {
                ip: IpAddress::V4(self@.ip),
                name: self@.name,
                rooms: advertised_rooms(self@.rooms),
            }),
    {
        let mut rooms: Vec<PeerRoom> = Vec::new();
        let mut i: usize = 0;
        while i < self.rooms.len()
            invariant
                i <= self.rooms@.len(),
                rooms@.len() == i,
                forall|j: int| 0 <= j < i ==> rooms@[j]@ == advertised_rooms(self@.rooms)[j],
            decreases self.rooms@.len() - i,
        {
            let room = &self.rooms[i];
            rooms.push(PeerRoom { id: room.id, ip: room.host, name: room.name.clone() });
            i = i + 1;
        }
        let r = NodeInfo { ip: IpAddress::V4(self.ip), name: self.name.clone(), rooms };
        assert(r@.rooms =~= advertised_rooms(self@.rooms));
        r
    }

    /// The rooms this node hosts.
    pub fn rooms(&self) -> (r: Vec<Room>)
        ensures
            rooms_view(r@) == self@.rooms,
    {
        copy_rooms(&self.rooms)
    }

    /// The nodes this node has discovered.
    pub fn discovered_nodes(&self) -> (r: Vec<NodeInfo>)
        ensures
            node_infos_view(r@) == self@.discovered_nodes,
    {
        copy_node_infos(&self.discovered_nodes)
    }

    fn find_room(&self, id: u128) -> (r: Option<usize>)
        requires
            self.wf(),
        ensures
            r matches Some(i) ==> room_index(self@.rooms, id) == Some(i as int),
            r is None ==> room_index(self@.rooms, id) is None,
    {
        let mut i: usize = 0;
        while i < self.rooms.len()
            invariant
                i <= self.rooms@.len(),
                self.wf(),
                forall|j: int| 0 <= j < i ==> self@.rooms[j].id != id,
            decreases self.rooms@.len() - i,
        {
            assert(self@.rooms[i as int] == self.rooms@[i as int]@);
            if self.rooms[i].id == id {
                proof {
                    lemma_room_index(self@.rooms, i as int);
                }
                return Some(i);
            }
            i = i + 1;
        }
        None
    }

    /// Answers a client request that came from `from` (see `node_step`). A
    /// new room gets the id `fresh_id`; a new message is stamped `now`.
    pub fn handle_client_message(
        &mut self,
        msg: ClientMessage,
        from: SocketAddress,
        fresh_id: u128,
        now: Timestamp,
    ) -> (out: Vec<Delivery>)
        requires
            old(self).wf(),
        ensures
            final(self).wf(),
            (final(self)@, deliveries_view(out@)) == node_step(old(self)@, msg@, from, fresh_id, now),
    {
        let ghost n0 = self@;
        let ghost mv = msg@;
        let mut out: Vec<Delivery> = Vec::new();
        match msg {
            ClientMessage::CreateRoom { name } => {
                let mut participants: Vec<IpAddress> = Vec::new();
                participants.push(IpAddress::V4(self.ip));
                let room = Room { id: fresh_id, name, host: IpAddress::V4(self.ip), participants, messages: Vec::new() };
                assert(room@.participants =~= seq![IpAddress::V4(n0.ip)]);
                assert(room@.messages =~= Seq::empty());
                assert(room@ == new_room(n0.ip, fresh_id, room.name@));
                let copy = room.deep_copy();
                match self.find_room(fresh_id) {
                    Some(i) => {
                        self.rooms.set(i, room);
                        assert(self@.rooms =~= n0.rooms.update(i as int, copy@));
                    },
                    None => {
                        self.rooms.push(room);
                        assert(self@.rooms =~= n0.rooms.push(copy@));
                    },
                }
                if self.is_connected(from) {
                    out.push(Delivery { to: from, message: ServerMessage::RoomCreated { room: copy } });
                }
                assert(deliveries_view(out@) =~= reply_to(n0.connections, from, ServerMessageView::RoomCreated { room: copy@ }));
                assert(self@.discovered_nodes =~= n0.discovered_nodes);
            },
            ClientMessage::SendMessage { room_id, content } => {
                match self.find_room(room_id) {
                    Some(i) => {
                        let m = ChatMessage { sender: self.name.clone(), content, timestamp: now, room_id };
                        let mut room = self.rooms.remove(i);
                        room.messages.push(m.deep_copy());
                        let ghost rv = room@;
                        assert(rv.messages =~= n0.rooms[i as int].messages.push(m@));
                        self.rooms.insert(i, room);
                        assert(self@.rooms =~= n0.rooms.update(i as int, rv));
                        let mut k: usize = 0;
                        while k < self.connections.len()
                            invariant
                                k <= self.connections@.len(),
                                self.connections@ == n0.connections,
                                out@.len() == k,
                                forall|j: int| 0 <= j < k ==> out@[j]@ == (DeliveryView {
                                    to: n0.connections[j],
                                    message: ServerMessageView::NewMessage { message: m@ },
                                }),
                            decreases self.connections@.len() - k,
                        {
                            out.push(Delivery { to: self.connections[k], message: ServerMessage::NewMessage { message: m.deep_copy() } });
                            k = k + 1;
                        }
                        assert(deliveries_view(out@) =~= broadcast(n0.connections, ServerMessageView::NewMessage { message: m@ }));
                        assert(self@.discovered_nodes =~= n0.discovered_nodes);
                        assert(room_ids_unique(self@.rooms)) by {
                            assert forall|a: int, b: int| 0 <= a < b < self@.rooms.len() implies self@.rooms[a].id != self@.rooms[b].id by {
                                assert(self@.rooms[a].id == n0.rooms[a].id);
                                assert(self@.rooms[b].id == n0.rooms[b].id);
                            }
                        }
                    },
                    None => {
                        assert(deliveries_view(out@) =~= Seq::empty());
                    },
                }
            },
            ClientMessage::ListPeers => {
                if self.is_connected(from) {
                    out.push(Delivery { to: from, message: ServerMessage::PeerList { peers: copy_node_infos(&self.discovered_nodes) } });
                }
                assert(deliveries_view(out@) =~= reply_to(n0.connections, from, ServerMessageView::PeerList { peers: n0.discovered_nodes }));
            },
            ClientMessage::ListRooms => {
                if self.is_connected(from) {
                    out.push(Delivery { to: from, message: ServerMessage::RoomList { rooms: copy_rooms(&self.rooms) } });
                }
                assert(deliveries_view(out@) =~= reply_to(n0.connections, from, ServerMessageView::RoomList { rooms: n0.rooms }));
            },
            _ => {
                assert(deliveries_view(out@) =~= Seq::empty());
            },
        }
        out
    }
}

/// A frame received on a client's WebSocket: its text, or only its kind.
pub enum Frame {
    Text(String),
    Binary,
    Ping,
    Pong,
    Close,
    /// Reading the socket failed.
    Failed,
}

/// What the server does with a frame it received.
pub enum FrameAction {
    /// Read the text as a client request and answer it.
    Handle(String),
    /// Stop reading: the client is gone.
    Stop,
    /// Nothing; go on reading.
    Skip,
}

/// What a received frame asks of the server: a text is handled as a
/// request; a close or a failed read ends the connection; anything else is
/// passed over.
pub fn frame_step(frame: Frame) -> (a: FrameAction)
    ensures
        match frame {
            Frame::Text(t) => a matches FrameAction::Handle(u) && u@ == t@,
            Frame::Close | Frame::Failed => a is Stop,
            _ => a is Skip,
        },
{
    match frame {
        Frame::Text(t) => FrameAction::Handle(t),
        Frame::Close | Frame::Failed => FrameAction::Stop,
        _ => FrameAction::Skip,
    }
}

/// The chat service of a node: it answers the clients of that node.
pub struct ChatService {
    peer: Node,
}

impl ChatService {
    /// The node state behind the service.
    pub closed spec fn state(&self) -> NodeView {
        self.peer@
    }

    pub closed spec fn wf(&self) -> bool {
        self.peer.wf()
    }

    pub fn new(peer: Node) -> (s: ChatService)
        requires
            peer.wf(),
        ensures
            s.wf(),
            s.state() == peer@,
    {
        ChatService { peer }
    }

    /// A client has connected from `addr`.
    pub fn connect(&mut self, addr: SocketAddress)
        requires
            old(self).wf(),
        ensures
            final(self).wf(),
            final(self).state() == connected(old(self).state(), addr),
    {
        self.peer.add_connection(addr);
    }

    /// The client at `addr` has gone.
    pub fn disconnect(&mut self, addr: SocketAddress)
        requires
            old(self).wf(),
        ensures
            final(self).wf(),
            final(self).state() == disconnected(old(self).state(), addr),
    {
        self.peer.remove_connection(addr);
    }

    /// Answers a client request that came from `from` (see `node_step`).
    pub fn handle_client_message(
        &mut self,
        msg: ClientMessage,
        from: SocketAddress,
        fresh_id: u128,
        now: Timestamp,
    ) -> (out: Vec<Delivery>)
        requires
            old(self).wf(),
        ensures
            final(self).wf(),
            (final(self).state(), deliveries_view(out@)) == node_step(old(self).state(), msg@, from, fresh_id, now),
    {
        self.peer.handle_client_message(msg, from, fresh_id, now)
    }
}

// ---------------------------------------------------------------------------
// What a node guarantees across requests
// ---------------------------------------------------------------------------

/// A room created by a connected client is in the room list that the same
/// client asks for next, and the creator heard of it: it was told of exactly
/// the new room. With a fresh id the room is added after the others.
pub proof fn lemma_created_room_is_listed(n: NodeView, c: SocketAddress, name: Seq<char>, id: u128, now: Timestamp, later: Timestamp)
    requires
        n.connections.contains(c),
    ensures
        ({
            let (n1, d1) = node_step(n, ClientMessageView::CreateRoom { name }, c, id, now);
            let (n2, d2) = node_step(n1, ClientMessageView::ListRooms, c, id, later);
            &&& d1 == seq![DeliveryView { to: c, message: ServerMessageView::RoomCreated { room: new_room(n.ip, id, name) } }]
            &&& n2 == n1
            &&& d2 == seq![DeliveryView { to: c, message: ServerMessageView::RoomList { rooms: n1.rooms } }]
            &&& n1.rooms.contains(new_room(n.ip, id, name))
            &&& room_index(n.rooms, id) is None ==> n1.rooms == n.rooms.push(new_room(n.ip, id, name))
        }),
{
    let r = new_room(n.ip, id, name);
    let n1 = node_step(n, ClientMessageView::CreateRoom { name }, c, id, now).0;
    match room_index(n.rooms, id) {
        Some(i) => {
            assert(n1.rooms[i] == r);
        },
        None => {
            assert(n1.rooms[n.rooms.len() as int] == r);
        },
    }
}

/// Posting to an existing room appends the message, stamped and signed by
/// the node, at the end of that room and of no other, and every connected
/// client receives it, in connection order.
pub proof fn lemma_message_appended(n: NodeView, c: SocketAddress, i: int, content: Seq<char>, now: Timestamp, fresh: u128)
    requires
        room_ids_unique(n.rooms),
        0 <= i < n.rooms.len(),
    ensures
        ({
            let id = n.rooms[i].id;
            let m = new_message(n.name, content, id, now);
            let (n1, d) = node_step(n, ClientMessageView::SendMessage { room_id: id, content }, c, fresh, now);
            &&& n1.rooms.len() == n.rooms.len()
            &&& n1.rooms[i].messages == n.rooms[i].messages.push(m)
            &&& n1.rooms[i].id == id && n1.rooms[i].name == n.rooms[i].name
            &&& forall|j: int| 0 <= j < n.rooms.len() && j != i ==> n1.rooms[j] == n.rooms[j]
            &&& n1.connections == n.connections && n1.discovered_nodes == n.discovered_nodes
            &&& d.len() == n.connections.len()
            &&& forall|j: int| 0 <= j < d.len() ==> d[j] == (DeliveryView {
                to: n.connections[j],
                message: ServerMessageView::NewMessage { message: m },
            })
        }),
{
    lemma_room_index(n.rooms, i);
}

/// A message to a room that does not exist changes nothing and reaches nobody.
pub proof fn lemma_message_to_unknown_room(n: NodeView, c: SocketAddress, id: u128, content: Seq<char>, now: Timestamp, fresh: u128)
    requires
        forall|j: int| 0 <= j < n.rooms.len() ==> n.rooms[j].id != id,
    ensures
        node_step(n, ClientMessageView::SendMessage { room_id: id, content }, c, fresh, now) == (n, Seq::<DeliveryView>::empty()),
{
}

/// Listing, joining and leaving change nothing in the node.
pub proof fn lemma_queries_keep_state(n: NodeView, msg: ClientMessageView, c: SocketAddress, fresh: u128, now: Timestamp)
    requires
        !(msg is CreateRoom),
        !(msg is SendMessage),
    ensures
        node_step(n, msg, c, fresh, now).0 == n,
{
}

/// A request from a client that is not connected is answered to nobody,
/// except a posted message, which every connected client receives.
pub proof fn lemma_unconnected_gets_no_reply(n: NodeView, msg: ClientMessageView, c: SocketAddress, fresh: u128, now: Timestamp)
    requires
        !n.connections.contains(c),
        !(msg is SendMessage),
    ensures
        node_step(n, msg, c, fresh, now).1 == Seq::<DeliveryView>::empty(),
{
}

/// Disconnecting undoes connecting.
pub proof fn lemma_disconnect_undoes_connect(n: NodeView, addr: SocketAddress)
    requires
        !n.connections.contains(addr),
    ensures
        disconnected(connected(n, addr), addr) == n,
{
    let s = n.connections.push(addr);
    assert(s[n.connections.len() as int] == addr);
    assert(s.contains(addr));
    s.index_of_first_ensures(addr);
    let k = s.index_of_first(addr).unwrap();
    assert(k == n.connections.len()) by {
        if k < n.connections.len() {
            assert(n.connections[k] == addr);
            assert(n.connections.contains(addr));
        }
    }
    assert(s.remove(k) =~= n.connections);
    assert(disconnected(connected(n, addr), addr).connections =~= n.connections);
}


/// One request of a client: what it asks, the id a new room would get, and
/// the time it is answered at.
pub struct Request {
    pub msg: ClientMessageView,
    pub fresh_id: u128,
    pub now: Timestamp,
}

/// The node after answering the requests `reqs` of the client at `from`,
/// one after the other.
pub open spec fn serve(n: NodeView, from: SocketAddress, reqs: Seq<Request>) -> NodeView
    decreases reqs.len(),
{
    if reqs.len() == 0 {
        n
    } else {
        serve(node_step(n, reqs[0].msg, from, reqs[0].fresh_id, reqs[0].now).0, from, reqs.drop_first())
    }
}

/// Answering requests never changes who is connected.
pub proof fn lemma_requests_keep_connections(n: NodeView, from: SocketAddress, reqs: Seq<Request>)
    ensures
        serve(n, from, reqs).connections == n.connections,
    decreases reqs.len(),
{
    if reqs.len() > 0 {
        lemma_requests_keep_connections(
            node_step(n, reqs[0].msg, from, reqs[0].fresh_id, reqs[0].now).0,
            from,
            reqs.drop_first(),
        );
    }
}

/// Taking `a` out of a list where nothing occurs twice leaves every other
/// element and no `a`.
proof fn lemma_remove_value_contains(s: Seq<SocketAddress>, a: SocketAddress, x: SocketAddress)
    requires
        s.no_duplicates(),
    ensures
        s.remove_value(a).contains(x) <==> (s.contains(x) && x != a),
{
    s.index_of_first_ensures(a);
    match s.index_of_first(a) {
        Some(i) => {
            let t = s.remove(i);
            if t.contains(x) {
                let k = choose|k: int| 0 <= k < t.len() && t[k] == x;
                if k < i {
                    assert(s[k] == x);
                    assert(k != i);
                } else {
                    assert(s[k + 1] == x);
                    assert(k + 1 != i);
                }
            }
            if s.contains(x) && x != a {
                let k = choose|k: int| 0 <= k < s.len() && s[k] == x;
                if k < i {
                    assert(t[k] == x);
                } else {
                    assert(k != i);
                    assert(t[k - 1] == x);
                }
            }
        },
        None => {},
    }
}

/// The life of a client's connection: from the moment it connects until it
/// goes, whatever it asks, the node counts it as connected; once it has
/// gone, the node no longer does, and every other client is connected
/// exactly when it was before.
pub proof fn lemma_connection_lifecycle(n: NodeView, addr: SocketAddress, reqs: Seq<Request>, x: SocketAddress)
    requires
        n.connections.no_duplicates(),
    ensures
        serve(connected(n, addr), addr, reqs).connections.contains(addr),
        !disconnected(serve(connected(n, addr), addr, reqs), addr).connections.contains(addr),
        x != addr ==> (disconnected(serve(connected(n, addr), addr, reqs), addr).connections.contains(x)
            <==> n.connections.contains(x)),
{
    let c = connected(n, addr);
    lemma_requests_keep_connections(c, addr, reqs);
    if !n.connections.contains(addr) {
        assert(c.connections[n.connections.len() as int] == addr);
        assert forall|i: int, j: int| 0 <= i < c.connections.len() && 0 <= j < c.connections.len() && i != j
            implies c.connections[i] != c.connections[j] by {
            if i == n.connections.len() {
                assert(n.connections.contains(c.connections[j]));
            } else if j == n.connections.len() {
                assert(n.connections.contains(c.connections[i]));
            }
        }
        if c.connections.contains(x) && x != addr {
            let k = choose|k: int| 0 <= k < c.connections.len() && c.connections[k] == x;
            assert(n.connections[k] == x);
        }
        if n.connections.contains(x) {
            let k = choose|k: int| 0 <= k < n.connections.len() && n.connections[k] == x;
            assert(c.connections[k] == x);
        }
    }
    assert(c.connections.no_duplicates());
    lemma_remove_value_contains(c.connections, addr, addr);
    lemma_remove_value_contains(c.connections, addr, x);
}

/// A connected client that asks for the room list gets exactly one answer,
/// sent to it: the list of all the node's rooms, in order, however many
/// there are (none included); the node stays as it was.
pub proof fn lemma_room_list_answer(n: NodeView, c: SocketAddress, fresh: u128, now: Timestamp)
    requires
        n.connections.contains(c),
    ensures
        ({
            let (after, out) = node_step(n, ClientMessageView::ListRooms, c, fresh, now);
            &&& after == n
            &&& out.len() == 1
            &&& out[0].to == c
            &&& out[0].message == ServerMessageView::RoomList { rooms: n.rooms }
        }),
{
}

/// A connected client that asks for the node list gets exactly one answer,
/// sent to it: every node discovered so far; the node stays as it was.
pub proof fn lemma_peer_list_answer(n: NodeView, c: SocketAddress, fresh: u128, now: Timestamp)
    requires
        n.connections.contains(c),
    ensures
        ({
            let (after, out) = node_step(n, ClientMessageView::ListPeers, c, fresh, now);
            &&& after == n
            &&& out.len() == 1
            &&& out[0].to == c
            &&& out[0].message == ServerMessageView::PeerList { peers: n.discovered_nodes }
        }),
{
}

} // verus!
