use ipchat::discovery::{
    compute_broadcast_from_netmask, find_broadcast_ip_exec, find_common_network_interfaces, find_first_non_loopback_ip,
    find_local_ip_exec, DiscoveryError, DiscoveryMessage, DiscoveryService, IfAddr, Interface, DISCOVERY_PORT,
};
use ipchat::proto::{IpAddress, SocketAddress};

fn ip(a: u8, b: u8, c: u8, d: u8) -> u32 {
    u32::from_be_bytes([a, b, c, d])
}

fn iface(name: &str, a: u32, mask: u32) -> Interface {
    Interface { name: name.to_string(), addr: IfAddr::V4 { ip: a, netmask: mask } }
}

#[test]
fn broadcast_from_netmask() {
    assert_eq!(compute_broadcast_from_netmask(ip(192, 168, 1, 7), ip(255, 255, 255, 0)), ip(192, 168, 1, 255));
    assert_eq!(compute_broadcast_from_netmask(ip(10, 1, 2, 3), ip(255, 0, 0, 0)), ip(10, 255, 255, 255));
    assert_eq!(compute_broadcast_from_netmask(ip(172, 16, 5, 4), ip(255, 255, 240, 0)), ip(172, 16, 15, 255));
}

#[test]
fn broadcast_falls_back_to_slash_24() {
    let ifs = vec![iface("eth0", ip(10, 0, 0, 2), ip(255, 0, 0, 0))];
    assert_eq!(find_broadcast_ip_exec(&ifs, ip(10, 0, 0, 2)), ip(10, 255, 255, 255));
    assert_eq!(find_broadcast_ip_exec(&ifs, ip(192, 168, 3, 9)), ip(192, 168, 3, 255));
}

#[test]
fn common_interfaces_are_preferred() {
    let ifs = vec![
        iface("lo", ip(127, 0, 0, 1), ip(255, 0, 0, 0)),
        iface("docker0", ip(172, 17, 0, 1), ip(255, 255, 0, 0)),
        iface("wlp2s0", ip(192, 168, 0, 12), ip(255, 255, 255, 0)),
    ];
    assert_eq!(find_common_network_interfaces(&ifs), Some(ip(192, 168, 0, 12)));
    assert_eq!(find_first_non_loopback_ip(&ifs), Some(ip(172, 17, 0, 1)));
    assert_eq!(find_local_ip_exec(&ifs), Ok(ip(192, 168, 0, 12)));
}

#[test]
fn link_local_and_loopback_are_skipped() {
    let ifs = vec![
        iface("eth0", ip(169, 254, 3, 3), ip(255, 255, 0, 0)),
        iface("en0", ip(127, 1, 1, 1), ip(255, 0, 0, 0)),
        Interface { name: "eth1".to_string(), addr: IfAddr::V6 },
        iface("tun0", ip(10, 8, 0, 1), ip(255, 255, 255, 0)),
    ];
    assert_eq!(find_common_network_interfaces(&ifs), None);
    assert_eq!(find_local_ip_exec(&ifs), Ok(ip(10, 8, 0, 1)));
}

#[test]
fn no_usable_interface_is_an_error() {
    let ifs = vec![iface("lo", ip(127, 0, 0, 1), ip(255, 0, 0, 0))];
    assert_eq!(find_local_ip_exec(&ifs), Err(DiscoveryError::NoSuitableInterface));
    assert!(DiscoveryService::new(&ifs).is_err());
}

#[test]
fn own_announcements_are_ignored() {
    let ifs = vec![iface("eth0", ip(192, 168, 1, 7), ip(255, 255, 255, 0))];
    let d = DiscoveryService::new(&ifs).unwrap();
    assert_eq!(d.local_ip(), ip(192, 168, 1, 7));
    assert_eq!(d.broadcast_ip(), ip(192, 168, 1, 255));
    let (msg, to) = d.beacon("Leo".to_string());
    assert_eq!(msg.username, "Leo");
    assert_eq!(msg.ip, ip(192, 168, 1, 7));
    assert_eq!(to, SocketAddress { ip: IpAddress::V4(ip(192, 168, 1, 255)), port: DISCOVERY_PORT });
    let own = DiscoveryMessage { username: "Leo".to_string(), ip: ip(192, 168, 1, 7) };
    assert!(d.accept_announcement(IpAddress::V4(ip(192, 168, 1, 7)), own).is_none());
    let other = DiscoveryMessage { username: "Ana".to_string(), ip: ip(192, 168, 1, 9) };
    let n = d.accept_announcement(IpAddress::V4(ip(192, 168, 1, 9)), other).unwrap();
    assert_eq!(n.ip, IpAddress::V4(ip(192, 168, 1, 9)));
    assert_eq!(n.name, "Ana");
    assert!(n.rooms.is_empty());
}
