//! Discovery of other chat nodes on the local network: which local address
//! to announce, where to broadcast, and which announcements to keep.

use vstd::prelude::*;

use crate::proto::{IpAddress, NodeInfo, NodeInfoView, PeerRoom, SocketAddress};
use crate::text::{is_prefix, starts_with};

verus! {

/// Seconds between two announcements.
pub const BROADCAST_INTERVAL_SECS: u64 = 5;

/// UDP port of announcements.
pub const DISCOVERY_PORT: u16 = 9001;

/// Size of the buffer that receives one announcement.
pub const LISTENER_BUFFER_SIZE: usize = 1024;

/// The address of a network interface.
#[derive(PartialEq, Eq, Structural, Clone, Copy, Debug)]
pub enum IfAddr {
    /// An IPv4 address (first octet highest) with its netmask.
    V4 { ip: u32, netmask: u32 },
    V6,
}

/// A network interface: its name (such as `eth0`) and its address.
pub struct Interface {
    pub name: String,
    pub addr: IfAddr,
}

/// Why no local address could be chosen.
#[derive(PartialEq, Eq, Structural, Clone, Copy, Debug)]
pub enum DiscoveryError {
    NoSuitableInterface,
}

/// `127.0.0.0/8`.
pub open spec fn is_loopback(ip: u32) -> bool {
    ip / 0x100_0000 == 127
}

/// `169.254.0.0/16`.
pub open spec fn is_link_local(ip: u32) -> bool {
    ip / 0x1_0000 == 0xA9FE
}

/// The IPv4 address of an interface, when it is neither loopback nor link-local.
pub open spec fn usable_ip(i: Interface) -> Option<u32> {
    match i.addr {
        IfAddr::V4 { ip, netmask } => if !is_loopback(ip) && !is_link_local(ip) {
            Some(ip)
        } else {
            None
        },
        IfAddr::V6 => None,
    }
}

/// Names of the interfaces that usually carry the active connection:
/// Ethernet (`eth0`, `enp3s0`) and Wi-Fi (`wlan0`, `wlp2s0`).
pub open spec fn is_common_name(name: Seq<char>) -> bool {
    is_prefix("eth"@, name) || is_prefix("en"@, name) || is_prefix("wlan"@, name) || is_prefix("wlp"@, name)
}

/// The first usable address, from interface `k` on, of an interface with a common name.
pub open spec fn first_common_from(ifs: Seq<Interface>, k: int) -> Option<u32>
    decreases ifs.len() - k,
{
    if k < 0 || k >= ifs.len() {
        None
    } else if usable_ip(ifs[k]) is Some && is_common_name(ifs[k].name@) {
        usable_ip(ifs[k])
    } else {
        first_common_from(ifs, k + 1)
    }
}

/// The first usable address, from interface `k` on.
pub open spec fn first_usable_from(ifs: Seq<Interface>, k: int) -> Option<u32>
    decreases ifs.len() - k,
{
    if k < 0 || k >= ifs.len() {
        None
    } else if usable_ip(ifs[k]) is Some {
        usable_ip(ifs[k])
    } else {
        first_usable_from(ifs, k + 1)
    }
}

/// The local address to announce: the first usable address of a commonly
/// named interface, else the first usable address at all.
pub open spec fn find_local_ip(ifs: Seq<Interface>) -> Option<u32> {
    match first_common_from(ifs, 0) {
        Some(ip) => Some(ip),
        None => first_usable_from(ifs, 0),
    }
}

/// The broadcast address of `ip` in a network with mask `netmask`: the host bits set.
pub open spec fn broadcast_of(ip: u32, netmask: u32) -> u32 {
    ip | !netmask
}

/// The interface that carries `local_ip`, from `k` on: its netmask.
pub open spec fn netmask_from(ifs: Seq<Interface>, local_ip: u32, k: int) -> Option<u32>
    decreases ifs.len() - k,
{
    if k < 0 || k >= ifs.len() {
        None
    } else {
        match ifs[k].addr {
            IfAddr::V4 { ip, netmask } => if ip == local_ip {
                Some(netmask)
            } else {
                netmask_from(ifs, local_ip, k + 1)
            },
            IfAddr::V6 => netmask_from(ifs, local_ip, k + 1),
        }
    }
}

/// The broadcast address for `local_ip`: from the netmask of its interface,
/// or, when no interface carries it, as in a /24 network (last octet 255).
pub open spec fn find_broadcast_ip(ifs: Seq<Interface>, local_ip: u32) -> u32 {
    match netmask_from(ifs, local_ip, 0) {
        Some(mask) => broadcast_of(local_ip, mask),
        None => local_ip | 0xff,
    }
}

/// Computes the broadcast address given an IP and its netmask.
pub fn compute_broadcast_from_netmask(ip: u32, netmask: u32) -> (b: u32)
    ensures
        b == broadcast_of(ip, netmask),
{
    ip | !netmask
}

fn is_usable(ip: u32) -> (r: bool)
    ensures
        r == (!is_loopback(ip) && !is_link_local(ip)),
{
    let first = ip >> 24u32;
    let first_two = ip >> 16u32;
    assert(first == ip / 0x100_0000) by (bit_vector)
        requires
            first == ip >> 24u32,
    ;
    assert(first_two == ip / 0x1_0000) by (bit_vector)
        requires
            first_two == ip >> 16u32,
    ;
    first != 127 && first_two != 0xA9FE
}

fn has_common_name(name: &String) -> (r: bool)
    ensures
        r == is_common_name(name@),
{
    starts_with(name.as_str(), "eth") || starts_with(name.as_str(), "en") || starts_with(name.as_str(), "wlan")
        || starts_with(name.as_str(), "wlp")
}

/// The first usable address of a commonly named interface.
pub fn find_common_network_interfaces(ifs: &Vec<Interface>) -> (r: Option<u32>)
    ensures
        r == first_common_from(ifs@, 0),
{
    let mut k: usize = 0;
    while k < ifs.len()
        invariant
            k <= ifs@.len(),
            first_common_from(ifs@, 0) == first_common_from(ifs@, k as int),
        decreases ifs@.len() - k,
    {
        match ifs[k].addr {
            IfAddr::V4 { ip, netmask } => {
                if is_usable(ip) && has_common_name(&ifs[k].name) {
                    return Some(ip);
                }
            },
            IfAddr::V6 => {},
        }
        k = k + 1;
    }
    None
}

/// The first usable address of any interface.
pub fn find_first_non_loopback_ip(ifs: &Vec<Interface>) -> (r: Option<u32>)
    ensures
        r == first_usable_from(ifs@, 0),
{
    let mut k: usize = 0;
    while k < ifs.len()
        invariant
            k <= ifs@.len(),
            first_usable_from(ifs@, 0) == first_usable_from(ifs@, k as int),
        decreases ifs@.len() - k,
    {
        match ifs[k].addr {
            IfAddr::V4 { ip, netmask } => {
                if is_usable(ip) {
                    return Some(ip);
                }
            },
            IfAddr::V6 => {},
        }
        k = k + 1;
    }
    None
}

/// The local address to announce, chosen among `ifs`; an error when no
/// interface has a usable IPv4 address.
pub fn find_local_ip_exec(ifs: &Vec<Interface>) -> (r: Result<u32, DiscoveryError>)
    ensures
        match r {
            Ok(ip) => find_local_ip(ifs@) == Some(ip),
            Err(e) => find_local_ip(ifs@) is None && e == DiscoveryError::NoSuitableInterface,
        },
{
    if let Some(ip) = find_common_network_interfaces(ifs) {
        return Ok(ip);
    }
    if let Some(ip) = find_first_non_loopback_ip(ifs) {
        return Ok(ip);
    }
    Err(DiscoveryError::NoSuitableInterface)
}

/// The broadcast address for `local_ip` among `ifs`.
pub fn find_broadcast_ip_exec(ifs: &Vec<Interface>, local_ip: u32) -> (b: u32)
    ensures
        b == find_broadcast_ip(ifs@, local_ip),
{
    let mut k: usize = 0;
    while k < ifs.len()
        invariant
            k <= ifs@.len(),
            netmask_from(ifs@, local_ip, 0) == netmask_from(ifs@, local_ip, k as int),
        decreases ifs@.len() - k,
    {
        match ifs[k].addr {
            IfAddr::V4 { ip, netmask } => {
                if ip == local_ip {
                    return compute_broadcast_from_netmask(local_ip, netmask);
                }
            },
            IfAddr::V6 => {},
        }
        k = k + 1;
    }
    local_ip | 0xff
}

/// What a node announces: its name and address.
pub struct DiscoveryMessage {
    pub username: String,
    pub ip: u32,
}

/// Discovery of the other nodes on the local network.
pub struct DiscoveryService {
    local_ip: u32,
    broadcast_ip: u32,
}

impl DiscoveryService {
    pub closed spec fn local(&self) -> u32 {
        self.local_ip
    }

    pub closed spec fn broadcast(&self) -> u32 {
        self.broadcast_ip
    }

    /// Chooses the local address among `ifs` and its broadcast address.
    pub fn new(ifs: &Vec<Interface>) -> (r: Result<DiscoveryService, DiscoveryError>)
        ensures
            match r {
                Ok(d) => find_local_ip(ifs@) == Some(d.local()) && d.broadcast() == find_broadcast_ip(ifs@, d.local()),
                Err(e) => find_local_ip(ifs@) is None && e == DiscoveryError::NoSuitableInterface,
            },
    {
        let local_ip = find_local_ip_exec(ifs)?;
        let broadcast_ip = find_broadcast_ip_exec(ifs, local_ip);
        Ok(DiscoveryService { local_ip, broadcast_ip })
    }

    pub fn local_ip(&self) -> (ip: u32)
        ensures
            ip == self.local(),
    {
        self.local_ip
    }

    pub fn broadcast_ip(&self) -> (ip: u32)
        ensures
            ip == self.broadcast(),
    {
        self.broadcast_ip
    }

    /// The announcement of a node named `username`, and where it is sent.
    pub fn beacon(&self, username: String) -> (r: (DiscoveryMessage, SocketAddress))
        ensures
            r.0.username@ == username@,
            r.0.ip == self.local(),
            r.1 == (SocketAddress { ip: IpAddress::V4(self.broadcast()), port: DISCOVERY_PORT }),
    {
        (
            DiscoveryMessage { username, ip: self.local_ip },
            SocketAddress { ip: IpAddress::V4(self.broadcast_ip), port: DISCOVERY_PORT },
        )
    }

    /// What an announcement received from `sender` teaches: nothing when it
    /// comes from this node itself, else a node with the announced name and
    /// address and no room.
    pub fn accept_announcement(&self, sender: IpAddress, msg: DiscoveryMessage) -> (r: Option<NodeInfo>)
        ensures
            sender == IpAddress::V4(self.local()) ==> r is None,
            sender != IpAddress::V4(self.local()) ==> (r matches Some(n) && n@ == (NodeInfoView {
                ip: IpAddress::V4(msg.ip),
                name: msg.username@,
                rooms: Seq::empty(),
            })),
    {
        if sender == IpAddress::V4(self.local_ip) {
            return None;
        }
        let rooms: Vec<PeerRoom> = Vec::new();
        let n = NodeInfo { ip: IpAddress::V4(msg.ip), name: msg.username, rooms };
        assert(n@.rooms =~= Seq::empty());
        Some(n)
    }
}

proof fn lemma_first_common_reaches(ifs: Seq<Interface>, k0: int, k: int)
    requires
        0 <= k0 <= k < ifs.len(),
        usable_ip(ifs[k]) is Some,
        is_common_name(ifs[k].name@),
        forall|j: int| k0 <= j < k ==> !(usable_ip(ifs[j]) is Some && is_common_name(#[trigger] ifs[j].name@)),
    ensures
        first_common_from(ifs, k0) == usable_ip(ifs[k]),
    decreases k - k0,
{
    if k0 < k {
        lemma_first_common_reaches(ifs, k0 + 1, k);
    }
}

proof fn lemma_first_common_none(ifs: Seq<Interface>, k0: int)
    requires
        0 <= k0,
        forall|j: int| k0 <= j < ifs.len() ==> !(usable_ip(ifs[j]) is Some && is_common_name(#[trigger] ifs[j].name@)),
    ensures
        first_common_from(ifs, k0) is None,
    decreases ifs.len() - k0,
{
    if k0 < ifs.len() {
        lemma_first_common_none(ifs, k0 + 1);
    }
}

/// Interfaces named like Ethernet or Wi-Fi come first: when some interface
/// whose name starts with `eth`, `en`, `wlan` or `wlp` has a usable IPv4
/// address (neither loopback nor link-local), the local address is that of
/// the first such interface, wherever other usable interfaces stand in the
/// list; when none has, it is the first usable address of any interface.
pub proof fn lemma_common_interface_preferred(ifs: Seq<Interface>, k: int)
    requires
        0 <= k < ifs.len(),
    ensures
        ({
            let named = |name: Seq<char>|
                is_prefix("eth"@, name) || is_prefix("en"@, name) || is_prefix("wlan"@, name) || is_prefix("wlp"@, name);
            &&& (usable_ip(ifs[k]) is Some && named(ifs[k].name@) && (forall|j: int|
                0 <= j < k ==> !(usable_ip(ifs[j]) is Some && named(#[trigger] ifs[j].name@))))
                ==> find_local_ip(ifs) == usable_ip(ifs[k])
            &&& (forall|j: int| 0 <= j < ifs.len() ==> !(usable_ip(ifs[j]) is Some && named(#[trigger] ifs[j].name@)))
                ==> find_local_ip(ifs) == first_usable_from(ifs, 0)
        }),
{
    let named = |name: Seq<char>|
        is_prefix("eth"@, name) || is_prefix("en"@, name) || is_prefix("wlan"@, name) || is_prefix("wlp"@, name);
    if usable_ip(ifs[k]) is Some && named(ifs[k].name@) && (forall|j: int|
        0 <= j < k ==> !(usable_ip(ifs[j]) is Some && named(#[trigger] ifs[j].name@))) {
        assert forall|j: int| 0 <= j < k implies !(usable_ip(ifs[j]) is Some && is_common_name(#[trigger] ifs[j].name@)) by {
            assert(!(usable_ip(ifs[j]) is Some && named(ifs[j].name@)));
        }
        lemma_first_common_reaches(ifs, 0, k);
    }
    if forall|j: int| 0 <= j < ifs.len() ==> !(usable_ip(ifs[j]) is Some && named(#[trigger] ifs[j].name@)) {
        assert forall|j: int| 0 <= j < ifs.len() implies !(usable_ip(ifs[j]) is Some && is_common_name(
            #[trigger] ifs[j].name@,
        )) by {
            assert(!(usable_ip(ifs[j]) is Some && named(ifs[j].name@)));
        }
        lemma_first_common_none(ifs, 0);
    }
}

} // verus!
