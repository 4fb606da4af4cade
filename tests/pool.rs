use wasi_ctx::{IpAddress, IpNetwork, NetworkPool, SocketAddress};

fn v4(a: u8, b: u8, c: u8, d: u8) -> IpAddress {
    IpAddress::V4(u32::from_be_bytes([a, b, c, d]))
}

fn sock(ip: IpAddress, port: u16) -> SocketAddress {
    SocketAddress { ip, port }
}

#[test]
fn any_port_grant_authorizes_every_port() {
    let mut p = NetworkPool::new();
    p.insert_ip_net_port_any(IpNetwork { addr: v4(10, 1, 0, 0), prefix_len: 16 });
    for port in [0u16, 1, 80, 443, 65535] {
        assert!(p.is_authorized(sock(v4(10, 1, 200, 3), port)));
    }
    assert!(!p.is_authorized(sock(v4(10, 2, 0, 1), 80)));
    assert!(!p.is_authorized(sock(IpAddress::V6(1), 80)));
}

#[test]
fn ranged_grant_authorizes_only_ports_in_range() {
    let mut p = NetworkPool::new();
    p.insert_ip_net_port_range(IpNetwork { addr: v4(192, 168, 1, 0), prefix_len: 24 }, 8000, Some(8010));
    assert!(!p.is_authorized(sock(v4(192, 168, 1, 7), 7999)));
    assert!(p.is_authorized(sock(v4(192, 168, 1, 7), 8000)));
    assert!(p.is_authorized(sock(v4(192, 168, 1, 7), 8009)));
    assert!(!p.is_authorized(sock(v4(192, 168, 1, 7), 8010)));
    assert!(!p.is_authorized(sock(v4(192, 168, 2, 7), 8005)));
}

#[test]
fn open_ended_range_and_single_port() {
    let mut p = NetworkPool::new();
    p.insert_ip_net_port_range(IpNetwork { addr: v4(1, 2, 3, 4), prefix_len: 32 }, 1024, None);
    assert!(p.is_authorized(sock(v4(1, 2, 3, 4), 65535)));
    assert!(!p.is_authorized(sock(v4(1, 2, 3, 4), 1023)));
    p.insert_ip_net(IpNetwork { addr: v4(5, 6, 7, 0), prefix_len: 24 }, 22);
    assert!(p.is_authorized(sock(v4(5, 6, 7, 9), 22)));
    assert!(!p.is_authorized(sock(v4(5, 6, 7, 9), 23)));
    p.insert_ip_net(IpNetwork { addr: v4(9, 9, 9, 9), prefix_len: 32 }, 65535);
    assert!(p.is_authorized(sock(v4(9, 9, 9, 9), 65535)));
}

#[test]
fn socket_addr_grant_is_that_address_alone() {
    let mut p = NetworkPool::new();
    p.insert_socket_addr(sock(IpAddress::V6(0x2001_0db8 << 96), 443));
    assert!(p.is_authorized(sock(IpAddress::V6(0x2001_0db8 << 96), 443)));
    assert!(!p.is_authorized(sock(IpAddress::V6((0x2001_0db8 << 96) + 1), 443)));
    assert!(!p.is_authorized(sock(IpAddress::V6(0x2001_0db8 << 96), 444)));
}

#[test]
fn empty_pool_authorizes_nothing() {
    let p = NetworkPool::new();
    assert!(!p.is_authorized(sock(v4(127, 0, 0, 1), 80)));
    assert!(!p.is_authorized(sock(IpAddress::V6(0), 0)));
}

#[test]
fn insert_all_covers_both_families() {
    let mut p = NetworkPool::new();
    p.insert_all();
    assert!(p.is_authorized(sock(v4(93, 184, 216, 34), 443)));
    assert!(p.is_authorized(sock(IpAddress::V6(u128::MAX), 1)));
}
