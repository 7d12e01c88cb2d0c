//! The browser side of the chat: the connection to the node and the state
//! that the views show (rooms, the active room, message histories).

use vstd::prelude::*;

use std::collections::HashMap;

use crate::json::{json_quote, json_string};
use crate::proto::{ChatMessage, ChatMessageView, PeerRoom, Room, RoomView, ServerMessage, ServerMessageView, Timestamp,
    copy_messages, copy_rooms, messages_view, rooms_view};

verus! {

/// State of the connection to the node.
#[derive(PartialEq, Eq, Structural, Clone, Copy, Debug)]
pub enum ConnectionStatus {
    Disconnected,
    Connecting,
    Connected,
    Error,
    Reconnecting,
    ConnectionFailed,
}

/// The text that shows a connection status.
pub open spec fn status_label(s: ConnectionStatus) -> Seq<char> {
    match s {
        ConnectionStatus::Disconnected => "Disconnected"@,
        ConnectionStatus::Connecting => "Connecting..."@,
        ConnectionStatus::Connected => "Connected"@,
        ConnectionStatus::Error => "Error"@,
        ConnectionStatus::Reconnecting => "Reconnecting..."@,
        ConnectionStatus::ConnectionFailed => "Connection Failed"@,
    }
}

impl ConnectionStatus {
    /// The text that shows this status.
    pub fn label(&self) -> (s: String)
        ensures
            s@ == status_label(*self),
    {
        match self {
            ConnectionStatus::Disconnected => String::from_str("Disconnected"),
            ConnectionStatus::Connecting => String::from_str("Connecting..."),
            ConnectionStatus::Connected => String::from_str("Connected"),
            ConnectionStatus::Error => String::from_str("Error"),
            ConnectionStatus::Reconnecting => String::from_str("Reconnecting..."),
            ConnectionStatus::ConnectionFailed => String::from_str("Connection Failed"),
        }
    }
}

/// A change of connection to report to the views: whether connected, and the status.
#[derive(PartialEq, Eq, Structural, Clone, Copy, Debug)]
pub struct Notice {
    pub connected: bool,
    pub status: ConnectionStatus,
}

/// Why a request cannot be sent or a connection not be made.
#[derive(PartialEq, Eq, Structural, Clone, Copy, Debug)]
pub enum ChatWsError {
    ServerUrlNotSet,
    NotConnected,
}

/// The text of an error.
pub open spec fn chat_ws_error_text(e: ChatWsError) -> Seq<char> {
    match e {
        ChatWsError::ServerUrlNotSet => "Server URL is not set"@,
        ChatWsError::NotConnected => "WebSocket is not connected"@,
    }
}

impl ChatWsError {
    pub fn message(&self) -> (s: String)
        ensures
            s@ == chat_ws_error_text(*self),
    {
        match self {
            ChatWsError::ServerUrlNotSet => String::from_str("Server URL is not set"),
            ChatWsError::NotConnected => String::from_str("WebSocket is not connected"),
        }
    }
}

/// What happens when the stream of the node's messages ends: the views are
/// told of the disconnection, then, when reconnecting, of that; and how long
/// to wait, in milliseconds, before anything else.
pub struct ClosePlan {
    pub notices: Vec<Notice>,
    pub wait_ms: Option<u32>,
}

/// What is due once the socket to the node has opened.
#[derive(PartialEq, Eq, Structural, Clone, Copy, Debug)]
pub enum OpenAction {
    /// Tell the views of a change of the connection.
    Notify(Notice),
    /// Run the first-connection action (asking for the node and room lists).
    InitialConnect,
}

/// A request to the node, as the browser client sends it.
pub enum ChatRequest {
    ListNodes,
    ListRooms,
    CreateRoom { name: String },
    JoinRoom { room_id: String, peer_ip: String },
    SendMessage { room_id: String, content: String, sender: String },
}

pub enum ChatRequestView {
    ListNodes,
    ListRooms,
    CreateRoom { name: Seq<char> },
    JoinRoom { room_id: Seq<char>, peer_ip: Seq<char> },
    SendMessage { room_id: Seq<char>, content: Seq<char>, sender: Seq<char> },
}

impl View for ChatRequest {
    type V = ChatRequestView;

    open spec fn view(&self) -> ChatRequestView {
        match self {
            ChatRequest::ListNodes => ChatRequestView::ListNodes,
            ChatRequest::ListRooms => ChatRequestView::ListRooms,
            ChatRequest::CreateRoom { name } => ChatRequestView::CreateRoom { name: name@ },
            ChatRequest::JoinRoom { room_id, peer_ip } => ChatRequestView::JoinRoom { room_id: room_id@, peer_ip: peer_ip@ },
            ChatRequest::SendMessage { room_id, content, sender } => ChatRequestView::SendMessage {
                room_id: room_id@,
                content: content@,
                sender: sender@,
            },
        }
    }
}

/// The JSON text of a request: an object whose `type` names the request,
/// followed by its fields in order, each value a JSON string.
pub open spec fn request_json(r: ChatRequestView) -> Seq<char> {
    match r {
        ChatRequestView::ListNodes => "{\"type\":\"ListNodes\"}"@,
        ChatRequestView::ListRooms => "{\"type\":\"ListRooms\"}"@,
        ChatRequestView::CreateRoom { name } => "{\"type\":\"CreateRoom\",\"name\":"@ + json_string(name) + "}"@,
        ChatRequestView::JoinRoom { room_id, peer_ip } => "{\"type\":\"JoinRoom\",\"room_id\":"@ + json_string(room_id)
            + ",\"peer_ip\":"@ + json_string(peer_ip) + "}"@,
        ChatRequestView::SendMessage { room_id, content, sender } => "{\"type\":\"SendMessage\",\"room_id\":"@
            + json_string(room_id) + ",\"content\":"@ + json_string(content) + ",\"sender\":"@ + json_string(sender)
            + "}"@,
    }
}

/// Writes a request as JSON (writing its fields never fails, so the text
/// always comes).
pub fn encode_request(r: &ChatRequest) -> (out: Option<String>)
    ensures
        out matches Some(s) && s@ == request_json(r@),
{
    match r {
        ChatRequest::ListNodes => Some(String::from_str("{\"type\":\"ListNodes\"}")),
        ChatRequest::ListRooms => Some(String::from_str("{\"type\":\"ListRooms\"}")),
        ChatRequest::CreateRoom { name } => {
            let q = match json_quote(name.as_str()) {
                Ok(q) => q,
                Err(_) => return None,
            };
            let s = String::from_str("{\"type\":\"CreateRoom\",\"name\":").concat(q.as_str()).concat("}");
            Some(s)
        },
        ChatRequest::JoinRoom { room_id, peer_ip } => {
            let a = match json_quote(room_id.as_str()) {
                Ok(q) => q,
                Err(_) => return None,
            };
            let b = match json_quote(peer_ip.as_str()) {
                Ok(q) => q,
                Err(_) => return None,
            };
            let s = String::from_str("{\"type\":\"JoinRoom\",\"room_id\":").concat(a.as_str()).concat(
                ",\"peer_ip\":",
            ).concat(b.as_str()).concat("}");
            Some(s)
        },
        ChatRequest::SendMessage { room_id, content, sender } => {
            let a = match json_quote(room_id.as_str()) {
                Ok(q) => q,
                Err(_) => return None,
            };
            let b = match json_quote(content.as_str()) {
                Ok(q) => q,
                Err(_) => return None,
            };
            let c = match json_quote(sender.as_str()) {
                Ok(q) => q,
                Err(_) => return None,
            };
            let s = String::from_str("{\"type\":\"SendMessage\",\"room_id\":").concat(a.as_str()).concat(
                ",\"content\":",
            ).concat(b.as_str()).concat(",\"sender\":").concat(c.as_str()).concat("}");
            Some(s)
        },
    }
}

/// How the browser client is to connect: the server, the delay before
/// reconnecting (in milliseconds), and the callbacks that hear of changes of
/// the connection, of the server's messages, and of the first connection.
pub struct ChatWebSocketConfig<F1, F2, F3> {
    pub server_url: String,
    pub reconnect_delay_ms: u64,
    pub on_connection_change: Option<F1>,
    pub on_message: Option<F2>,
    pub on_initial_connect: Option<F3>,
}

impl<F1, F2, F3> ChatWebSocketConfig<F1, F2, F3> where
    F1: Fn(bool, ConnectionStatus) + 'static,
    F2: Fn(ServerMessage) + 'static,
    F3: Fn() + 'static,
 {
    /// Connecting to `server_url`, reconnecting after 3000 ms, with no callback.
    pub fn new(server_url: String) -> (c: Self)
        ensures
            c.server_url@ == server_url@,
            c.reconnect_delay_ms == 3000,
            c.on_connection_change is None,
            c.on_message is None,
            c.on_initial_connect is None,
    {
        ChatWebSocketConfig {
            server_url,
            reconnect_delay_ms: 3000,
            on_connection_change: None,
            on_message: None,
            on_initial_connect: None,
        }
    }

    /// The same, reconnecting after `delay_ms`.
    pub fn with_reconnect_delay(self, delay_ms: u64) -> (c: Self)
        ensures
            c == (ChatWebSocketConfig { reconnect_delay_ms: delay_ms, ..self }),
    {
        ChatWebSocketConfig { reconnect_delay_ms: delay_ms, ..self }
    }

    /// The same, with `callback` hearing of changes of the connection.
    pub fn with_connection_change(self, callback: F1) -> (c: Self)
        ensures
            c == (ChatWebSocketConfig { on_connection_change: Some(callback), ..self }),
    {
        ChatWebSocketConfig { on_connection_change: Some(callback), ..self }
    }

    /// The same, with `callback` hearing of the server's messages.
    pub fn with_message(self, callback: F2) -> (c: Self)
        ensures
            c == (ChatWebSocketConfig { on_message: Some(callback), ..self }),
    {
        ChatWebSocketConfig { on_message: Some(callback), ..self }
    }

    /// The same, with `callback` hearing of the first connection.
    pub fn with_initial_connect(self, callback: F3) -> (c: Self)
        ensures
            c == (ChatWebSocketConfig { on_initial_connect: Some(callback), ..self }),
    {
        ChatWebSocketConfig { on_initial_connect: Some(callback), ..self }
    }
}

/// The connection of the browser client to its node: where it connects,
/// whether it reconnects and after how long, and whether it is connected.
/// The socket itself lives with the caller; `ws_attached` says whether one
/// is held for sending. Connecting reads from a socket without holding it
/// for sending, and nothing else attaches one, so requests are refused as
/// not connected.
pub struct ChatWebSocketService {
    server_url: Option<String>,
    reconnect_delay_ms: u64,
    should_reconnect: bool,
    is_connected: bool,
    ws_attached: bool,
}

pub struct ServiceView {
    pub server_url: Option<Seq<char>>,
    pub reconnect_delay_ms: u64,
    pub should_reconnect: bool,
    pub is_connected: bool,
    pub ws_attached: bool,
}

impl View for ChatWebSocketService {
    type V = ServiceView;

    closed spec fn view(&self) -> ServiceView {
        ServiceView {
            server_url: match self.server_url {
                Some(u) => Some(u@),
                None => None,
            },
            reconnect_delay_ms: self.reconnect_delay_ms,
            should_reconnect: self.should_reconnect,
            is_connected: self.is_connected,
            ws_attached: self.ws_attached,
        }
    }
}

impl ChatWebSocketService {
    /// No server yet, a 3000 ms reconnect delay, no reconnecting, not connected.
    pub fn new() -> (s: ChatWebSocketService)
        ensures
            s@ == (ServiceView {
                server_url: None,
                reconnect_delay_ms: 3000,
                should_reconnect: false,
                is_connected: false,
                ws_attached: false,
            }),
    {
        ChatWebSocketService {
            server_url: None,
            reconnect_delay_ms: 3000,
            should_reconnect: false,
            is_connected: false,
            ws_attached: false,
        }
    }

    pub fn server_url(&self) -> (u: Option<String>)
        ensures
            match u {
                Some(x) => self@.server_url == Some(x@),
                None => self@.server_url is None,
            },
    {
        match &self.server_url {
            Some(u) => Some(u.clone()),
            None => None,
        }
    }

    pub fn set_server_url(&mut self, server_url: String)
        ensures
            final(self)@ == (ServiceView { server_url: Some(server_url@), ..old(self)@ }),
    {
        self.server_url = Some(server_url);
    }

    pub fn set_reconnect_delay(&mut self, delay_ms: u64)
        ensures
            final(self)@ == (ServiceView { reconnect_delay_ms: delay_ms, ..old(self)@ }),
    {
        self.reconnect_delay_ms = delay_ms;
    }

    pub fn set_should_reconnect(&mut self, should_reconnect: bool)
        ensures
            final(self)@ == (ServiceView { should_reconnect, ..old(self)@ }),
    {
        self.should_reconnect = should_reconnect;
    }

    pub fn is_connected(&self) -> (b: bool)
        ensures
            b == self@.is_connected,
    {
        self.is_connected
    }

    /// Starts connecting, with reconnecting on: refused when no server is
    /// set; otherwise the views are to be told that it is connecting, and
    /// the caller opens the socket to the server.
    pub fn connect(&mut self) -> (r: Result<Notice, ChatWsError>)
        ensures
            final(self)@ == (ServiceView { should_reconnect: true, ..old(self)@ }),
            old(self)@.server_url is None <==> r == Err::<Notice, ChatWsError>(ChatWsError::ServerUrlNotSet),
            old(self)@.server_url is Some ==> r == Ok::<Notice, ChatWsError>(
                Notice { connected: false, status: ConnectionStatus::Connecting },
            ),
    {
        self.should_reconnect = true;
        self.create_connection()
    }

    /// The first step of connecting (see `connect`), without touching reconnecting.
    pub fn create_connection(&self) -> (r: Result<Notice, ChatWsError>)
        ensures
            self@.server_url is None <==> r == Err::<Notice, ChatWsError>(ChatWsError::ServerUrlNotSet),
            self@.server_url is Some ==> r == Ok::<Notice, ChatWsError>(
                Notice { connected: false, status: ConnectionStatus::Connecting },
            ),
    {
        if self.server_url.is_none() {
            return Err(ChatWsError::ServerUrlNotSet);
        }
        Ok(Notice { connected: false, status: ConnectionStatus::Connecting })
    }

    /// The socket opened: the service is connected; the views are told so,
    /// and then the first-connection action runs, in that order.
    pub fn connection_opened(&mut self) -> (actions: Vec<OpenAction>)
        ensures
            final(self)@ == (ServiceView { is_connected: true, ..old(self)@ }),
            actions@ == seq![
                OpenAction::Notify(Notice { connected: true, status: ConnectionStatus::Connected }),
                OpenAction::InitialConnect,
            ],
    {
        self.is_connected = true;
        let mut actions: Vec<OpenAction> = Vec::new();
        actions.push(OpenAction::Notify(Notice { connected: true, status: ConnectionStatus::Connected }));
        actions.push(OpenAction::InitialConnect);
        actions
    }

    /// The socket could not be opened: the views are told the connection failed.
    pub fn connection_failed(&self) -> (n: Notice)
        ensures
            n == (Notice { connected: false, status: ConnectionStatus::ConnectionFailed }),
    {
        Notice { connected: false, status: ConnectionStatus::ConnectionFailed }
    }

    /// The stream failed: the views are told of the error and reading stops.
    pub fn stream_failed(&self) -> (n: Notice)
        ensures
            n == (Notice { connected: false, status: ConnectionStatus::Error }),
    {
        Notice { connected: false, status: ConnectionStatus::Error }
    }

    /// What to do when the stream ends, as decided when the connection was
    /// made: tell the views it is disconnected, and, if reconnecting, that
    /// it is reconnecting and wait the reconnect delay (its milliseconds
    /// taken modulo 2^32).
    pub fn close_plan(&self) -> (p: ClosePlan)
        ensures
            self@.should_reconnect ==> p.notices@ == seq![
                Notice { connected: false, status: ConnectionStatus::Disconnected },
                Notice { connected: false, status: ConnectionStatus::Reconnecting },
            ] && p.wait_ms == Some((self@.reconnect_delay_ms % 0x1_0000_0000) as u32),
            !self@.should_reconnect ==> p.notices@ == seq![
                Notice { connected: false, status: ConnectionStatus::Disconnected },
            ] && p.wait_ms is None,
    {
        let mut notices: Vec<Notice> = Vec::new();
        notices.push(Notice { connected: false, status: ConnectionStatus::Disconnected });
        if self.should_reconnect {
            notices.push(Notice { connected: false, status: ConnectionStatus::Reconnecting });
            let ms = (self.reconnect_delay_ms % 0x1_0000_0000) as u32;
            assert(notices@ =~= seq![
                Notice { connected: false, status: ConnectionStatus::Disconnected },
                Notice { connected: false, status: ConnectionStatus::Reconnecting },
            ]);
            ClosePlan { notices, wait_ms: Some(ms) }
        } else {
            assert(notices@ =~= seq![Notice { connected: false, status: ConnectionStatus::Disconnected }]);
            ClosePlan { notices, wait_ms: None }
        }
    }

    /// Drops the socket, stops reconnecting and is no longer connected.
    pub fn disconnect(&mut self)
        ensures
            final(self)@ == (ServiceView {
                ws_attached: false,
                should_reconnect: false,
                is_connected: false,
                ..old(self)@
            }),
    {
        self.ws_attached = false;
        self.should_reconnect = false;
        self.is_connected = false;
    }

    /// The text to send for `request`: refused when no socket is held.
    pub fn send(&self, request: &ChatRequest) -> (r: Result<Option<String>, ChatWsError>)
        ensures
            !self@.ws_attached <==> r == Err::<Option<String>, ChatWsError>(ChatWsError::NotConnected),
            self@.ws_attached ==> (r matches Ok(Some(s)) && s@ == request_json(request@)),
    {
        if !self.ws_attached {
            return Err(ChatWsError::NotConnected);
        }
        Ok(encode_request(request))
    }

    pub fn list_nodes(&self) -> (r: Result<Option<String>, ChatWsError>)
        ensures
            !self@.ws_attached <==> r == Err::<Option<String>, ChatWsError>(ChatWsError::NotConnected),
            self@.ws_attached ==> (r matches Ok(Some(s)) && s@ == request_json(ChatRequestView::ListNodes)),
    {
        self.send(&ChatRequest::ListNodes)
    }

    pub fn list_rooms(&self) -> (r: Result<Option<String>, ChatWsError>)
        ensures
            !self@.ws_attached <==> r == Err::<Option<String>, ChatWsError>(ChatWsError::NotConnected),
            self@.ws_attached ==> (r matches Ok(Some(s)) && s@ == request_json(ChatRequestView::ListRooms)),
    {
        self.send(&ChatRequest::ListRooms)
    }

    pub fn create_room(&self, name: String) -> (r: Result<Option<String>, ChatWsError>)
        ensures
            !self@.ws_attached <==> r == Err::<Option<String>, ChatWsError>(ChatWsError::NotConnected),
            self@.ws_attached ==> (r matches Ok(Some(s)) && s@ == request_json(ChatRequestView::CreateRoom { name: name@ })),
    {
        self.send(&ChatRequest::CreateRoom { name })
    }

    pub fn join_room(&self, room_id: String, peer_ip: String) -> (r: Result<Option<String>, ChatWsError>)
        ensures
            !self@.ws_attached <==> r == Err::<Option<String>, ChatWsError>(ChatWsError::NotConnected),
            self@.ws_attached ==> (r matches Ok(Some(s)) && s@ == request_json(
                ChatRequestView::JoinRoom { room_id: room_id@, peer_ip: peer_ip@ },
            )),
    {
        self.send(&ChatRequest::JoinRoom { room_id, peer_ip })
    }

    pub fn send_message(&self, room_id: String, content: String, sender: String) -> (r: Result<Option<String>, ChatWsError>)
        ensures
            !self@.ws_attached <==> r == Err::<Option<String>, ChatWsError>(ChatWsError::NotConnected),
            self@.ws_attached ==> (r matches Ok(Some(s)) && s@ == request_json(
                ChatRequestView::SendMessage { room_id: room_id@, content: content@, sender: sender@ },
            )),
    {
        self.send(&ChatRequest::SendMessage { room_id, content, sender })
    }
}

/// The message that tells a user they joined a room.
pub open spec fn joined_message(room: RoomView, now: Timestamp) -> ChatMessageView {
    ChatMessageView { sender: "System"@, content: "You joined "@ + room.name, timestamp: now, room_id: room.id }
}

/// What the views show of the chat, as values.
pub struct ChatStateView {
    pub is_connected: bool,
    pub connection_status: ConnectionStatus,
    pub rooms: Seq<RoomView>,
    pub active_room: Option<RoomView>,
    /// Message history, by room id.
    pub messages: Map<u128, Seq<ChatMessageView>>,
}

/// Some room of `rooms` has id `id`.
pub open spec fn lists_room(rooms: Seq<RoomView>, id: u128) -> bool {
    exists|i: int| 0 <= i < rooms.len() && rooms[i].id == id
}

/// The histories after `rooms` are listed: every listed room has one, and
/// histories already there are kept.
pub open spec fn with_histories(m: Map<u128, Seq<ChatMessageView>>, rooms: Seq<RoomView>) -> Map<u128, Seq<ChatMessageView>> {
    Map::new(
        |k: u128| m.contains_key(k) || lists_room(rooms, k),
        |k: u128| if m.contains_key(k) { m[k] } else { Seq::empty() },
    )
}

/// How the chat state changes on a message from the node. A new room is
/// listed, with an empty history (replacing any). A joined room becomes
/// active and, if it has no history yet, gets the joined message stamped
/// `now`. A new message is appended to its room's history (started if
/// needed). A room list replaces the rooms and starts a history for each new
/// one. Anything else changes nothing.
pub open spec fn chat_step(c: ChatStateView, m: ServerMessageView, now: Timestamp) -> ChatStateView {
    match m {
        ServerMessageView::RoomCreated { room } => ChatStateView {
            rooms: c.rooms.push(room),
            messages: c.messages.insert(room.id, Seq::empty()),
            ..c
        },
        ServerMessageView::RoomJoined { room } => ChatStateView {
            active_room: Some(room),
            messages: if c.messages.contains_key(room.id) {
                c.messages
            } else {
                c.messages.insert(room.id, seq![joined_message(room, now)])
            },
            ..c
        },
        ServerMessageView::NewMessage { message } => ChatStateView {
            messages: c.messages.insert(
                message.room_id,
                if c.messages.contains_key(message.room_id) {
                    c.messages[message.room_id]
                } else {
                    Seq::empty()
                }.push(message),
            ),
            ..c
        },
        ServerMessageView::RoomList { rooms } => ChatStateView {
            rooms,
            messages: with_histories(c.messages, rooms),
            ..c
        },
        _ => c,
    }
}

/// The chat state behind the browser views.
pub struct ChatWebSocketContext {
    is_connected: bool,
    connection_status: ConnectionStatus,
    rooms: Vec<Room>,
    discovered_peers: Vec<PeerRoom>,
    active_room: Option<Room>,
    messages: HashMap<u128, Vec<ChatMessage>>,
}

impl View for ChatWebSocketContext {
    type V = ChatStateView;

    closed spec fn view(&self) -> ChatStateView {
        ChatStateView {
            is_connected: self.is_connected,
            connection_status: self.connection_status,
            rooms: rooms_view(self.rooms@),
            active_room: match self.active_room {
                Some(r) => Some(r@),
                None => None,
            },
            messages: self.messages@.map_values(|v: Vec<ChatMessage>| messages_view(v@)),
        }
    }
}

impl ChatWebSocketContext {
    /// Not connected, disconnected, no room, no active room, no history.
    pub fn new() -> (c: ChatWebSocketContext)
        ensures
            c@ == (ChatStateView {
                is_connected: false,
                connection_status: ConnectionStatus::Disconnected,
                rooms: Seq::empty(),
                active_room: None,
                messages: Map::empty(),
            }),
    {
        let c = ChatWebSocketContext {
            is_connected: false,
            connection_status: ConnectionStatus::Disconnected,
            rooms: Vec::new(),
            discovered_peers: Vec::new(),
            active_room: None,
            messages: HashMap::new(),
        };
        assert(c@.rooms =~= Seq::empty());
        assert(c@.messages =~= Map::empty());
        c
    }

    /// Records a change of connection.
    pub fn set_connection(&mut self, notice: Notice)
        ensures
            final(self)@ == (ChatStateView {
                is_connected: notice.connected,
                connection_status: notice.status,
                ..old(self)@
            }),
    {
        self.is_connected = notice.connected;
        self.connection_status = notice.status;
    }

    /// Makes `room` the active room (or none).
    pub fn set_active_room(&mut self, room: Option<Room>)
        ensures
            final(self)@ == (ChatStateView {
                active_room: match room {
                    Some(r) => Some(r@),
                    None => None,
                },
                ..old(self)@
            }),
    {
        self.active_room = room;
    }

    /// Whether `room_id` has a history.
    fn has_history(&self, room_id: u128) -> (r: bool)
        ensures
            r == self@.messages.contains_key(room_id),
    {
        broadcast use vstd::std_specs::hash::group_hash_axioms;
        self.messages.contains_key(&room_id)
    }

    /// Sets the history of `room_id` to `msgs`.
    fn put_history(&mut self, room_id: u128, msgs: Vec<ChatMessage>)
        ensures
            final(self)@ == (ChatStateView {
                messages: old(self)@.messages.insert(room_id, messages_view(msgs@)),
                ..old(self)@
            }),
    {
        broadcast use vstd::std_specs::hash::group_hash_axioms;
        let ghost before = self@.messages;
        self.messages.insert(room_id, msgs);
        assert(self@.messages =~= before.insert(room_id, messages_view(msgs@)));
    }

    /// The message history of `room_id` (empty when it has none).
    pub fn messages_for(&self, room_id: u128) -> (r: Vec<ChatMessage>)
        ensures
            messages_view(r@) == (if self@.messages.contains_key(room_id) {
                self@.messages[room_id]
            } else {
                Seq::empty()
            }),
    {
        broadcast use vstd::std_specs::hash::group_hash_axioms;
        match self.messages.get(&room_id) {
            Some(v) => copy_messages(v),
            None => {
                let v: Vec<ChatMessage> = Vec::new();
                assert(messages_view(v@) =~= Seq::empty());
                v
            },
        }
    }

    /// The rooms known to the views.
    pub fn rooms(&self) -> (r: Vec<Room>)
        ensures
            rooms_view(r@) == self@.rooms,
    {
        copy_rooms(&self.rooms)
    }

    /// The active room.
    pub fn active_room(&self) -> (r: Option<Room>)
        ensures
            match r {
                Some(x) => self@.active_room == Some(x@),
                None => self@.active_room is None,
            },
    {
        match &self.active_room {
            Some(x) => Some(x.deep_copy()),
            None => None,
        }
    }

    /// Applies a message from the node (see `chat_step`); `now` stamps the
    /// joined message.
    pub fn handle_server_message(&mut self, message: ServerMessage, now: Timestamp)
        ensures
            final(self)@ == chat_step(old(self)@, message@, now),
    {
        let ghost c0 = self@;
        let ghost mv = message@;
        match message {
            ServerMessage::RoomCreated { room } => {
                let id = room.id;
                self.rooms.push(room);
                assert(self@.rooms =~= c0.rooms.push(mv->RoomCreated_room));
                let empty: Vec<ChatMessage> = Vec::new();
                assert(messages_view(empty@) =~= Seq::empty());
                self.put_history(id, empty);
            },
            ServerMessage::RoomJoined { room } => {
                let id = room.id;
                let present = self.has_history(id);
                if !present {
                    let content = String::from_str("You joined ").concat(room.name.as_str());
                    let m = ChatMessage { sender: String::from_str("System"), content, timestamp: now, room_id: id };
                    let mut msgs: Vec<ChatMessage> = Vec::new();
                    msgs.push(m);
                    assert(messages_view(msgs@) =~= seq![joined_message(room@, now)]);
                    self.active_room = Some(room);
                    self.put_history(id, msgs);
                } else {
                    self.active_room = Some(room);
                }
            },
            ServerMessage::NewMessage { message } => {
                let id = message.room_id;
                let mut msgs = self.messages_for(id);
                let ghost before = messages_view(msgs@);
                msgs.push(message);
                assert(messages_view(msgs@) =~= before.push(mv->NewMessage_message));
                assert(before =~= (if c0.messages.contains_key(id) { c0.messages[id] } else { Seq::empty() }));
                self.put_history(id, msgs);
            },
            ServerMessage::RoomList { rooms } => {
                assert(with_histories(c0.messages, rooms_view(rooms@).take(0)) =~= c0.messages);
                let mut k: usize = 0;
                while k < rooms.len()
                    invariant
                        k <= rooms@.len(),
                        self@ == (ChatStateView {
                            messages: with_histories(c0.messages, rooms_view(rooms@).take(k as int)),
                            ..c0
                        }),
                    decreases rooms@.len() - k,
                {
                    let id = rooms[k].id;
                    let ghost m0 = self@.messages;
                    if !self.has_history(id) {
                        let empty: Vec<ChatMessage> = Vec::new();
                        assert(messages_view(empty@) =~= Seq::empty());
                        self.put_history(id, empty);
                    }
                    proof {
                        let a = rooms_view(rooms@).take(k as int);
                        let b = rooms_view(rooms@).take(k as int + 1);
                        assert(b[k as int].id == id);
                        assert forall|x: u128| #[trigger] lists_room(b, x) <==> (lists_room(a, x) || x == id) by {
                            if lists_room(a, x) {
                                let i = choose|i: int| 0 <= i < a.len() && a[i].id == x;
                                assert(b[i].id == x);
                            }
                            if lists_room(b, x) {
                                let i = choose|i: int| 0 <= i < b.len() && b[i].id == x;
                                if i < k {
                                    assert(a[i].id == x);
                                }
                            }
                        }
                        assert(self@.messages =~= with_histories(c0.messages, b));
                    }
                    k = k + 1;
                }
                assert(rooms_view(rooms@).take(rooms@.len() as int) =~= rooms_view(rooms@));
                let ghost rv = rooms_view(rooms@);
                self.rooms = rooms;
                assert(self@.rooms == rv);
            },
            _ => {},
        }
    }
}

/// A message from the node lands at the end of its room's history; every
/// other history, the rooms and the active room stay as they were.
pub proof fn lemma_new_message_appended(c: ChatStateView, m: ChatMessageView, now: Timestamp, other: u128)
    requires
        other != m.room_id,
    ensures
        ({
            let c1 = chat_step(c, ServerMessageView::NewMessage { message: m }, now);
            &&& c1.messages.contains_key(m.room_id)
            &&& c1.messages[m.room_id].last() == m
            &&& c1.messages[m.room_id].drop_last() == (if c.messages.contains_key(m.room_id) {
                c.messages[m.room_id]
            } else {
                Seq::empty()
            })
            &&& c1.messages.contains_key(other) == c.messages.contains_key(other)
            &&& c.messages.contains_key(other) ==> c1.messages[other] == c.messages[other]
            &&& c1.rooms == c.rooms && c1.active_room == c.active_room
        }),
{
    let c1 = chat_step(c, ServerMessageView::NewMessage { message: m }, now);
    let before = if c.messages.contains_key(m.room_id) { c.messages[m.room_id] } else { Seq::empty() };
    assert(before.push(m).drop_last() =~= before);
}

/// Joining a room never loses its history: a room that has one keeps it;
/// a room without one starts with the joined message.
pub proof fn lemma_join_keeps_history(c: ChatStateView, room: RoomView, now: Timestamp)
    ensures
        ({
            let c1 = chat_step(c, ServerMessageView::RoomJoined { room }, now);
            &&& c1.active_room == Some(room)
            &&& c.messages.contains_key(room.id) ==> c1.messages == c.messages
            &&& !c.messages.contains_key(room.id) ==> c1.messages[room.id] == seq![joined_message(room, now)]
        }),
{
}

/// A room list keeps every history already there and gives each listed
/// room one.
pub proof fn lemma_room_list_keeps_histories(c: ChatStateView, rooms: Seq<RoomView>, now: Timestamp)
    ensures
        ({
            let c1 = chat_step(c, ServerMessageView::RoomList { rooms }, now);
            &&& c1.rooms == rooms
            &&& forall|k: u128| c.messages.contains_key(k) ==> #[trigger] c1.messages.contains_key(k) && c1.messages[k] == c.messages[k]
            &&& forall|i: int| 0 <= i < rooms.len() ==> c1.messages.contains_key(#[trigger] rooms[i].id)
        }),
{
    let c1 = chat_step(c, ServerMessageView::RoomList { rooms }, now);
    assert forall|i: int| 0 <= i < rooms.len() implies c1.messages.contains_key(#[trigger] rooms[i].id) by {
        assert(lists_room(rooms, rooms[i].id));
    }
}

/// A created room is added after the rooms already listed, which all stay
/// in place; it starts with an empty history, every other history is kept,
/// and the connection and the active room are untouched.
pub proof fn lemma_created_room_appended(c: ChatStateView, room: RoomView, now: Timestamp, other: u128)
    requires
        other != room.id,
    ensures
        ({
            let c1 = chat_step(c, ServerMessageView::RoomCreated { room }, now);
            &&& c1.rooms.len() == c.rooms.len() + 1
            &&& forall|i: int| 0 <= i < c.rooms.len() ==> #[trigger] c1.rooms[i] == c.rooms[i]
            &&& c1.rooms[c.rooms.len() as int] == room
            &&& c1.messages.contains_key(room.id) && c1.messages[room.id].len() == 0
            &&& c1.messages.contains_key(other) <==> c.messages.contains_key(other)
            &&& c.messages.contains_key(other) ==> c1.messages[other] == c.messages[other]
            &&& c1.active_room == c.active_room
            &&& c1.is_connected == c.is_connected
            &&& c1.connection_status == c.connection_status
        }),
{
}

/// A room list replaces the listed rooms and nothing else of what the views
/// show: the active room, the connection flag and its status stay as they were.
pub proof fn lemma_room_list_keeps_active_room(c: ChatStateView, rooms: Seq<RoomView>, now: Timestamp)
    ensures
        ({
            let c1 = chat_step(c, ServerMessageView::RoomList { rooms }, now);
            &&& c1.rooms == rooms
            &&& c1.active_room == c.active_room
            &&& c1.is_connected == c.is_connected
            &&& c1.connection_status == c.connection_status
        }),
{
}

} // verus!
