//! Peers of the peer-to-peer layer: the messages they exchange, the
//! signaling messages, and the device manager's bookkeeping of peers and
//! connections.

use vstd::prelude::*;

use crate::assoc::{assoc_map, has_key, keys_unique, lemma_assoc_absent, lemma_assoc_get, lemma_assoc_has_key, lemma_assoc_last_wins, lemma_assoc_len,
    lemma_assoc_push, lemma_assoc_remove, lemma_assoc_update};
use crate::text::str_eq;
use crate::webrtc_error::IPChatWebRTCError;
use crate::webrtc_types::{FileMetadata, IPChatWebRTCConfig};

verus! {

/// Another device, as the signaling server lists it.
pub struct PeerInfo {
    pub id: String,
    pub name: String,
    pub device_type: String,
}

/// A peer, by id.
pub struct Peer {
    pub id: String,
    pub name: String,
    pub device_type: String,
}

pub struct PeerView {
    pub id: Seq<char>,
    pub name: Seq<char>,
    pub device_type: Seq<char>,
}

impl View for PeerInfo {
    type V = PeerView;

    open spec fn view(&self) -> PeerView {
        PeerView { id: self.id@, name: self.name@, device_type: self.device_type@ }
    }
}

impl View for Peer {
    type V = PeerView;

    open spec fn view(&self) -> PeerView {
        PeerView { id: self.id@, name: self.name@, device_type: self.device_type@ }
    }
}

impl PeerInfo {
    pub fn new(id: String, name: String, device_type: String) -> (p: PeerInfo)
        ensures
            p@ == (PeerView { id: id@, name: name@, device_type: device_type@ }),
    {
        PeerInfo { id, name, device_type }
    }

    pub fn deep_copy(&self) -> (c: PeerInfo)
        ensures
            c@ == self@,
    {
        PeerInfo { id: self.id.clone(), name: self.name.clone(), device_type: self.device_type.clone() }
    }
}

impl Peer {
    pub fn new(id: String, name: String, device_type: String) -> (p: Peer)
        ensures
            p@ == (PeerView { id: id@, name: name@, device_type: device_type@ }),
    {
        Peer { id, name, device_type }
    }

    pub fn deep_copy(&self) -> (c: Peer)
        ensures
            c@ == self@,
    {
        Peer { id: self.id.clone(), name: self.name.clone(), device_type: self.device_type.clone() }
    }
}

/// What peers send each other.
pub enum MessageType {
    Text { content: String },
    FileOffer { files: Vec<FileMetadata>, transfer_id: String },
    FileResponse { transfer_id: String, accepted: bool },
    FileChunk { transfer_id: String, file_index: usize, chunk_index: usize, data: Vec<u8> },
    FileProgress { transfer_id: String, bytes_transferred: u64, total_bytes: u64 },
    FileComplete { transfer_id: String },
    Ping,
    Pong,
}

/// A message between peers. The timestamp is a floating-point number of
/// milliseconds since the epoch, held by its IEEE-754 bit pattern.
pub struct Message {
    pub from: String,
    pub to: String,
    pub timestamp_bits: u64,
    pub payload: MessageType,
}

impl Message {
    /// A text message from `from` to `to`, stamped `timestamp_bits`.
    pub fn text(from: String, to: String, content: String, timestamp_bits: u64) -> (m: Message)
        ensures
            m.from@ == from@,
            m.to@ == to@,
            m.timestamp_bits == timestamp_bits,
            m.payload matches MessageType::Text { content: c } && c@ == content@,
    {
        Message { from, to, timestamp_bits, payload: MessageType::Text { content } }
    }

    /// The text of a text message; `None` for any other payload.
    pub fn text_content(&self) -> (r: Option<String>)
        ensures
            match self.payload {
                MessageType::Text { content } => r matches Some(c) && c@ == content@,
                _ => r is None,
            },
    {
        match &self.payload {
            MessageType::Text { content } => Some(content.clone()),
            _ => None,
        }
    }
}

/// Messages exchanged with the signaling server.
pub enum SignalingMessage {
    Register { device_name: String, room_id: Option<String> },
    Registered { peer_id: String },
    PeersUpdate { peers: Vec<PeerInfo> },
    Offer { from: String, to: String, sdp: String },
    Answer { from: String, to: String, sdp: String },
    IceCandidate { from: String, to: String, candidate: String, sdp_mid: Option<String>, sdp_m_line_index: Option<u16> },
    PeerDisconnected { peer_id: String },
    Error { message: String },
    Ping,
    Pong,
}

pub open spec fn peer_pairs(s: Seq<Peer>) -> Seq<(Seq<char>, PeerView)> {
    s.map_values(|p: Peer| (p.id@, p@))
}

pub open spec fn info_pairs(s: Seq<PeerInfo>) -> Seq<(Seq<char>, PeerView)> {
    s.map_values(|p: PeerInfo| (p.id@, p@))
}

pub open spec fn opt_view(o: Option<String>) -> Option<Seq<char>> {
    match o {
        Some(s) => Some(s@),
        None => None,
    }
}

/// What the device manager knows, as values.
pub struct DeviceView {
    /// The manager's own peer id, as the signaling server assigned it.
    pub own_peer_id: Option<Seq<char>>,
    pub device_name: Seq<char>,
    /// Whether a signaling connection is held.
    pub signaling: bool,
    /// Known peers, by id.
    pub peers: Map<Seq<char>, PeerView>,
    /// Ids of the peers with an open connection.
    pub connections: Set<Seq<char>>,
}

/// How the manager's knowledge changes on a signaling message, and the peer
/// list to report to the peer-update callback, if any. A registration
/// records the given id; a peer update replaces all peers (a later entry
/// with the same id wins) and is reported; a departed peer loses its entry
/// and its connection. Anything else changes nothing.
pub open spec fn signaling_step(d: DeviceView, m: SignalingMessage) -> (DeviceView, Option<Seq<PeerView>>) {
    match m {
        SignalingMessage::Registered { peer_id } => (DeviceView { own_peer_id: Some(peer_id@), ..d }, None),
        SignalingMessage::PeersUpdate { peers } => (
            DeviceView { peers: assoc_map(info_pairs(peers@)), ..d },
            Some(peers@.map_values(|p: PeerInfo| p@)),
        ),
        SignalingMessage::PeerDisconnected { peer_id } => (
            DeviceView { peers: d.peers.remove(peer_id@), connections: d.connections.remove(peer_id@), ..d },
            None,
        ),
        _ => (d, None),
    }
}

/// Manages the device's peers and peer connections. The signaling socket
/// and the connections themselves live with the caller; the manager keeps
/// whether they exist.
pub struct DeviceManager {
    config: IPChatWebRTCConfig,
    own_peer_id: Option<String>,
    own_device_name: String,
    signaling: bool,
    peers: Vec<Peer>,
    connections: Vec<String>,
}

impl View for DeviceManager {
    type V = DeviceView;

    closed spec fn view(&self) -> DeviceView {
        DeviceView {
            own_peer_id: opt_view(self.own_peer_id),
            device_name: self.own_device_name@,
            signaling: self.signaling,
            peers: assoc_map(peer_pairs(self.peers@)),
            connections: self.connections@.map_values(|s: String| s@).to_set(),
        }
    }
}

impl DeviceManager {
    pub closed spec fn wf(&self) -> bool {
        &&& keys_unique(peer_pairs(self.peers@))
        &&& self.connections@.map_values(|s: String| s@).no_duplicates()
    }

    pub closed spec fn config_view(&self) -> IPChatWebRTCConfig {
        self.config
    }

    /// A manager for the device `device_name`, with no id, no signaling,
    /// no peer and no connection.
    pub fn new(config: IPChatWebRTCConfig, device_name: String) -> (d: DeviceManager)
        ensures
            d.wf(),
            d.config_view() == config,
            d@ == (DeviceView {
                own_peer_id: None,
                device_name: device_name@,
                signaling: false,
                peers: Map::empty(),
                connections: Set::empty(),
            }),
    {
        let d = DeviceManager {
            config,
            own_peer_id: None,
            own_device_name: device_name,
            signaling: false,
            peers: Vec::new(),
            connections: Vec::new(),
        };
        assert(peer_pairs(d.peers@) =~= Seq::empty());
        assert(d@.peers =~= Map::empty());
        assert(d.connections@.map_values(|s: String| s@) =~= Seq::empty());
        assert(d@.connections =~= Set::empty());
        d
    }

    /// The device's own peer id.
    pub fn peer_id(&self) -> (r: Option<String>)
        ensures
            opt_view(r) == self@.own_peer_id,
    {
        match &self.own_peer_id {
            Some(s) => Some(s.clone()),
            None => None,
        }
    }

    pub fn device_name(&self) -> (r: String)
        ensures
            r@ == self@.device_name,
    {
        self.own_device_name.clone()
    }

    /// Whether a signaling connection is held.
    pub fn has_signaling(&self) -> (r: bool)
        ensures
            r == self@.signaling,
    {
        self.signaling
    }
}

pub open spec fn ids_view(s: Seq<String>) -> Seq<Seq<char>> {
    s.map_values(|x: String| x@)
}

impl DeviceManager {
    /// The signaling connection is open: it is held from now on, and the
    /// device registers with its name and the configured room.
    pub fn signaling_opened(&mut self) -> (reg: SignalingMessage)
        requires
            old(self).wf(),
        ensures
            final(self).wf(),
            final(self)@ == (DeviceView { signaling: true, ..old(self)@ }),
            final(self).config_view() == old(self).config_view(),
            reg matches SignalingMessage::Register { device_name, room_id } && (device_name@ == old(self)@.device_name
                && opt_view(room_id) == opt_view(old(self).config_view().room_id)),
    {
        self.signaling = true;
        let room_id = match &self.config.room_id {
            Some(r) => Some(r.clone()),
            None => None,
        };
        SignalingMessage::Register { device_name: self.own_device_name.clone(), room_id }
    }

    /// The signaling connection is closed and no longer held.
    pub fn drop_signaling(&mut self)
        requires
            old(self).wf(),
        ensures
            final(self).wf(),
            final(self)@ == (DeviceView { signaling: false, ..old(self)@ }),
            final(self).config_view() == old(self).config_view(),
    {
        self.signaling = false;
    }

    /// Every peer connection is closed and forgotten.
    pub fn clear_connections(&mut self)
        requires
            old(self).wf(),
        ensures
            final(self).wf(),
            final(self)@ == (DeviceView { connections: Set::empty(), ..old(self)@ }),
            final(self).config_view() == old(self).config_view(),
    {
        self.connections = Vec::new();
        assert(ids_view(self.connections@) =~= Seq::empty());
        assert(self@.connections =~= Set::empty());
    }

    fn connection_index(&self, peer_id: &str) -> (r: Option<usize>)
        ensures
            r matches Some(i) ==> i < self.connections@.len() && self.connections@[i as int]@ == peer_id@,
            r is None ==> !self@.connections.contains(peer_id@),
    {
        let mut i: usize = 0;
        while i < self.connections.len()
            invariant
                i <= self.connections@.len(),
                forall|j: int| 0 <= j < i ==> self.connections@[j]@ != peer_id@,
            decreases self.connections@.len() - i,
        {
            if str_eq(self.connections[i].as_str(), peer_id) {
                return Some(i);
            }
            i = i + 1;
        }
        proof {
            if self@.connections.contains(peer_id@) {
                let k = choose|k: int| 0 <= k < ids_view(self.connections@).len() && ids_view(self.connections@)[k] == peer_id@;
                assert(self.connections@[k]@ == peer_id@);
            }
        }
        None
    }

    /// Whether a connection to `peer_id` is open.
    pub fn is_connected_to(&self, peer_id: &str) -> (r: bool)
        ensures
            r == self@.connections.contains(peer_id@),
    {
        match self.connection_index(peer_id) {
            Some(i) => {
                assert(ids_view(self.connections@)[i as int] == peer_id@);
                true
            },
            None => false,
        }
    }

    /// A connection to `peer_id` is now open.
    pub fn add_connection(&mut self, peer_id: String)
        requires
            old(self).wf(),
        ensures
            final(self).wf(),
            final(self)@ == (DeviceView { connections: old(self)@.connections.insert(peer_id@), ..old(self)@ }),
            final(self).config_view() == old(self).config_view(),
    {
        let ghost ids = ids_view(self.connections@);
        if self.is_connected_to(peer_id.as_str()) {
            assert(self@.connections.insert(peer_id@) =~= self@.connections);
            return;
        }
        let ghost p = peer_id@;
        self.connections.push(peer_id);
        assert(ids_view(self.connections@) =~= ids.push(p));
        assert forall|x: Seq<char>| ids.push(p).contains(x) <==> (ids.contains(x) || x == p) by {
            if ids.contains(x) {
                let k = choose|k: int| 0 <= k < ids.len() && ids[k] == x;
                assert(ids.push(p)[k] == x);
            }
            if x == p {
                assert(ids.push(p)[ids.len() as int] == x);
            }
            if ids.push(p).contains(x) && x != p {
                let k = choose|k: int| 0 <= k < ids.push(p).len() && ids.push(p)[k] == x;
                assert(ids[k] == x);
            }
        }
        assert(self@.connections =~= old(self)@.connections.insert(p));
        assert(ids.push(p).no_duplicates()) by {
            assert forall|a: int, b: int| 0 <= a < ids.len() + 1 && 0 <= b < ids.len() + 1 && a != b
                implies ids.push(p)[a] != ids.push(p)[b] by {
                if a == ids.len() {
                    assert(ids.contains(ids[b]));
                } else if b == ids.len() {
                    assert(ids.contains(ids[a]));
                }
            }
        }
    }

    /// Where an offer to `peer_id` goes: from this device's own id to the
    /// peer, when a signaling connection is held and the own id is known.
    pub fn offer_route(&self, peer_id: String) -> (r: Option<(String, String)>)
        ensures
            (self@.signaling && self@.own_peer_id is Some) <==> r is Some,
            r matches Some(p) ==> self@.own_peer_id == Some(p.0@) && p.1@ == peer_id@,
    {
        if self.signaling {
            match &self.own_peer_id {
                Some(own) => Some((own.clone(), peer_id)),
                None => None,
            }
        } else {
            None
        }
    }

    /// The text message to send to `peer_id`, stamped `timestamp_bits`:
    /// refused when no connection to that peer is open; nothing to send
    /// while the device has no id.
    pub fn send_message(&self, peer_id: String, content: String, timestamp_bits: u64)
        -> (r: Result<Option<Message>, IPChatWebRTCError>)
        ensures
            !self@.connections.contains(peer_id@) ==> (r matches Err(IPChatWebRTCError::PeerNotFound(p)) && p@ == peer_id@),
            self@.connections.contains(peer_id@) && self@.own_peer_id is None ==> (r matches Ok(None)),
            self@.connections.contains(peer_id@) && self@.own_peer_id is Some ==> (r matches Ok(Some(m)) && Some(m.from@)
                == self@.own_peer_id && m.to@ == peer_id@ && m.timestamp_bits == timestamp_bits
                && (m.payload matches MessageType::Text { content: c } && c@ == content@)),
    {
        if !self.is_connected_to(peer_id.as_str()) {
            return Err(IPChatWebRTCError::PeerNotFound(peer_id));
        }
        match &self.own_peer_id {
            Some(own) => Ok(Some(Message::text(own.clone(), peer_id, content, timestamp_bits))),
            None => Ok(None),
        }
    }

    /// The file offer to send to `peer_id`: refused when no connection to
    /// that peer is open.
    pub fn send_file_offer(&self, peer_id: String, files_json: String) -> (r: Result<String, IPChatWebRTCError>)
        ensures
            !self@.connections.contains(peer_id@) ==> (r matches Err(IPChatWebRTCError::PeerNotFound(p)) && p@ == peer_id@),
            self@.connections.contains(peer_id@) ==> (r matches Ok(t) && t@ == files_json@),
    {
        if !self.is_connected_to(peer_id.as_str()) {
            return Err(IPChatWebRTCError::PeerNotFound(peer_id));
        }
        Ok(files_json)
    }

    /// The known peers, each once, in no particular order.
    pub fn get_peers(&self) -> (r: Vec<Peer>)
        requires
            self.wf(),
        ensures
            r@.len() == self@.peers.len(),
            keys_unique(peer_pairs(r@)),
            forall|i: int| 0 <= i < r@.len() ==> self@.peers.contains_key(#[trigger] r@[i].id@) && self@.peers[r@[i].id@] == r@[i]@,
            forall|k: Seq<char>| #[trigger] self@.peers.contains_key(k) ==> has_key(peer_pairs(r@), k),
    {
        let mut out: Vec<Peer> = Vec::new();
        let mut i: usize = 0;
        while i < self.peers.len()
            invariant
                i <= self.peers@.len(),
                out@.len() == i,
                forall|j: int| 0 <= j < i ==> (#[trigger] out@[j])@ == self.peers@[j]@,
            decreases self.peers@.len() - i,
        {
            out.push(self.peers[i].deep_copy());
            i = i + 1;
        }
        proof {
            let p = peer_pairs(self.peers@);
            assert(peer_pairs(out@) =~= p);
            assert forall|j: int| 0 <= j < out@.len() implies self@.peers.contains_key(#[trigger] out@[j].id@) && self@.peers[out@[j].id@] == out@[j]@ by {
                lemma_assoc_get(p, j);
            }
            assert forall|k: Seq<char>| #[trigger] self@.peers.contains_key(k) implies has_key(peer_pairs(out@), k) by {
                lemma_assoc_has_key(p, k);
            }
            lemma_assoc_len(p);
        }
        out
    }
}

pub open spec fn infos_view(s: Seq<PeerInfo>) -> Seq<PeerView> {
    s.map_values(|p: PeerInfo| p@)
}

fn peer_index(peers: &Vec<Peer>, id: &str) -> (r: Option<usize>)
    requires
        keys_unique(peer_pairs(peers@)),
    ensures
        r matches Some(i) ==> i < peers@.len() && peers@[i as int].id@ == id@,
        r is None ==> !has_key(peer_pairs(peers@), id@),
{
    let mut i: usize = 0;
    while i < peers.len()
        invariant
            i <= peers@.len(),
            forall|j: int| 0 <= j < i ==> peers@[j].id@ != id@,
        decreases peers@.len() - i,
    {
        if str_eq(peers[i].id.as_str(), id) {
            return Some(i);
        }
        i = i + 1;
    }
    proof {
        if has_key(peer_pairs(peers@), id@) {
            let k = choose|k: int| 0 <= k < peer_pairs(peers@).len() && peer_pairs(peers@)[k].0 == id@;
            assert(peers@[k].id@ == id@);
        }
    }
    None
}

impl DeviceManager {
    /// Applies a message from the signaling server (see `signaling_step`);
    /// returns the peer list to report, if any.
    pub fn handle_signaling_message(&mut self, msg: SignalingMessage) -> (r: Option<Vec<PeerInfo>>)
        requires
            old(self).wf(),
        ensures
            final(self).wf(),
            final(self).config_view() == old(self).config_view(),
            final(self)@ == signaling_step(old(self)@, msg).0,
            match signaling_step(old(self)@, msg).1 {
                Some(l) => r matches Some(v) && infos_view(v@) == l,
                None => r is None,
            },
    {
        let ghost d0 = self@;
        match msg {
            SignalingMessage::Registered { peer_id } => {
                self.own_peer_id = Some(peer_id);
                None
            },
            SignalingMessage::PeersUpdate { peers } => {
                let mut table: Vec<Peer> = Vec::new();
                let mut reported: Vec<PeerInfo> = Vec::new();
                let ghost ip = info_pairs(peers@);
                assert(peer_pairs(table@) =~= Seq::empty());
                assert(ip.take(0) =~= Seq::empty());
                let mut k: usize = 0;
                while k < peers.len()
                    invariant
                        k <= peers@.len(),
                        ip == info_pairs(peers@),
                        keys_unique(peer_pairs(table@)),
                        assoc_map(peer_pairs(table@)) == assoc_map(ip.take(k as int)),
                        reported@.len() == k,
                        forall|j: int| 0 <= j < k ==> (#[trigger] reported@[j])@ == peers@[j]@,
                    decreases peers@.len() - k,
                {
                    let info = &peers[k];
                    reported.push(info.deep_copy());
                    let peer = Peer::new(info.id.clone(), info.name.clone(), info.device_type.clone());
                    let ghost tp = peer_pairs(table@);
                    let ghost pv = peer@;
                    assert(ip.take(k as int + 1).drop_last() =~= ip.take(k as int));
                    assert(ip.take(k as int + 1).last() == (pv.id, pv));
                    match peer_index(&table, info.id.as_str()) {
                        Some(i) => {
                            proof {
                                assert(tp[i as int].0 == pv.id);
                                lemma_assoc_update(tp, i as int, pv);
                            }
                            table.set(i, peer);
                            assert(peer_pairs(table@) =~= tp.update(i as int, (pv.id, pv)));
                        },
                        None => {
                            proof {
                                lemma_assoc_push(tp, pv.id, pv);
                            }
                            table.push(peer);
                            assert(peer_pairs(table@) =~= tp.push((pv.id, pv)));
                        },
                    }
                    k = k + 1;
                }
                assert(ip.take(peers@.len() as int) =~= ip);
                self.peers = table;
                assert(infos_view(reported@) =~= infos_view(peers@));
                assert(self@.peers == assoc_map(info_pairs(peers@)));
                Some(reported)
            },
            SignalingMessage::PeerDisconnected { peer_id } => {
                let ghost pp = peer_pairs(self.peers@);
                match peer_index(&self.peers, peer_id.as_str()) {
                    Some(i) => {
                        proof {
                            lemma_assoc_remove(pp, i as int);
                        }
                        self.peers.remove(i);
                        assert(peer_pairs(self.peers@) =~= pp.remove(i as int));
                    },
                    None => {
                        proof {
                            lemma_assoc_has_key(pp, peer_id@);
                        }
                        assert(d0.peers.remove(peer_id@) =~= d0.peers);
                    },
                }
                let ghost ids = ids_view(self.connections@);
                match self.connection_index(peer_id.as_str()) {
                    Some(i) => {
                        self.connections.remove(i);
                        proof {
                            let nids = ids_view(self.connections@);
                            assert(nids =~= ids.remove(i as int));
                            assert forall|x: Seq<char>| nids.contains(x) <==> (ids.contains(x) && x != peer_id@) by {
                                if nids.contains(x) {
                                    let k = choose|k: int| 0 <= k < nids.len() && nids[k] == x;
                                    assert(ids[i as int] == peer_id@);
                                    assert(ids.no_duplicates());
                                    if k < i {
                                        assert(ids[k] == x);
                                        assert(ids.contains(x));
                                    } else {
                                        assert(ids[k + 1] == x);
                                        assert(ids.contains(x));
                                    }
                                }
                                if ids.contains(x) && x != peer_id@ {
                                    let k = choose|k: int| 0 <= k < ids.len() && ids[k] == x;
                                    if k < i {
                                        assert(nids[k] == x);
                                    } else {
                                        assert(nids[k - 1] == x);
                                    }
                                }
                            }
                            assert(self@.connections =~= d0.connections.remove(peer_id@));
                            assert(nids.no_duplicates()) by {
                                assert forall|a: int, b: int| 0 <= a < nids.len() && 0 <= b < nids.len() && a != b
                                    implies nids[a] != nids[b] by {
                                    let a0 = if a < i { a } else { a + 1 };
                                    let b0 = if b < i { b } else { b + 1 };
                                    assert(nids[a] == ids[a0]);
                                    assert(nids[b] == ids[b0]);
                                }
                            }
                        }
                    },
                    None => {
                        assert(d0.connections.remove(peer_id@) =~= d0.connections);
                    },
                }
                None
            },
            _ => None,
        }
    }
}


/// After the signaling server reports that a peer left, the device neither
/// knows that peer nor holds a connection to it.
pub proof fn lemma_departed_peer_forgotten(d: DeviceView, peer_id: String)
    ensures
        !signaling_step(d, SignalingMessage::PeerDisconnected { peer_id }).0.peers.contains_key(peer_id@),
        !signaling_step(d, SignalingMessage::PeerDisconnected { peer_id }).0.connections.contains(peer_id@),
{
}

/// A peer's departure touches that peer alone: every other peer stays
/// known as it was, every other connection stays open or closed as it was,
/// and nothing is reported.
pub proof fn lemma_departure_spares_others(d: DeviceView, peer_id: String, x: Seq<char>)
    requires
        x != peer_id@,
    ensures
        ({
            let (after, reported) = signaling_step(d, SignalingMessage::PeerDisconnected { peer_id });
            &&& after.connections.contains(x) <==> d.connections.contains(x)
            &&& after.peers.contains_key(x) <==> d.peers.contains_key(x)
            &&& d.peers.contains_key(x) ==> after.peers[x] == d.peers[x]
            &&& after.own_peer_id == d.own_peer_id
            &&& after.device_name == d.device_name
            &&& after.signaling == d.signaling
            &&& reported is None
        }),
{
}

/// No signaling message changes the device's name or whether a signaling
/// connection is held; the own peer id is the one the server assigns at
/// registration, and no other message changes it.
pub proof fn lemma_signaling_keeps_identity(d: DeviceView, m: SignalingMessage)
    ensures
        signaling_step(d, m).0.device_name == d.device_name,
        signaling_step(d, m).0.signaling == d.signaling,
        match m {
            SignalingMessage::Registered { peer_id } => signaling_step(d, m).0.own_peer_id == Some(peer_id@),
            _ => signaling_step(d, m).0.own_peer_id == d.own_peer_id,
        },
{
}

/// A peer update replaces the known peers by exactly the listed ones, each
/// known as its last entry in the list, and reports the list as received.
pub proof fn lemma_peer_update_replaces_peers(d: DeviceView, peers: Vec<PeerInfo>, j: int, k: Seq<char>)
    requires
        0 <= j < peers@.len(),
        forall|l: int| j < l < peers@.len() ==> peers@[l].id@ != peers@[j].id@,
    ensures
        ({
            let (after, reported) = signaling_step(d, SignalingMessage::PeersUpdate { peers });
            &&& after.peers.contains_key(peers@[j].id@)
            &&& after.peers[peers@[j].id@] == peers@[j]@
            &&& after.peers.contains_key(k) <==> exists|i: int| 0 <= i < peers@.len() && peers@[i].id@ == k
            &&& reported == Some(infos_view(peers@))
        }),
{
    let s = info_pairs(peers@);
    assert forall|l: int| j < l < s.len() implies s[l].0 != s[j].0 by {}
    lemma_assoc_last_wins(s, j);
    lemma_assoc_has_key(s, k);
    if has_key(s, k) {
        let i = choose|i: int| 0 <= i < s.len() && s[i].0 == k;
        assert(peers@[i].id@ == k);
    }
    if exists|i: int| 0 <= i < peers@.len() && peers@[i].id@ == k {
        let i = choose|i: int| 0 <= i < peers@.len() && peers@[i].id@ == k;
        assert(s[i].0 == k);
    }
}

} // verus!
