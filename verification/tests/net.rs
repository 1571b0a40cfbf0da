use edge_gateway::net::{
    parse_ip, parse_ipv4, parse_ipv6, same_address, IpAddr, SocketAddr,
};

const CANDIDATES: [&str; 48] = [
    "127.0.0.1",
    "0.0.0.0",
    "255.255.255.255",
    "256.0.0.1",
    "1.2.3",
    "1.2.3.4.5",
    "01.2.3.4",
    "1.2.3.04",
    "0.0.0.00",
    "1..2.3",
    " 1.2.3.4",
    "1.2.3.4 ",
    "+1.2.3.4",
    "",
    "::",
    "::1",
    "1::",
    "1::2",
    "1:2:3:4:5:6:7:8",
    "1:2:3:4:5:6:7",
    "1:2:3:4:5:6:7:8:9",
    "1:2:3:4:5:6:7::",
    "::2:3:4:5:6:7:8",
    "1:2:3:4::5:6:7:8",
    "1::2::3",
    "12345::",
    "g::",
    "abcd:EF01::0",
    "::ffff:1.2.3.4",
    "::1.2.3.4",
    "1:2:3:4:5:6:1.2.3.4",
    "1:2:3:4:5:6:7:1.2.3.4",
    "1.2.3.4::",
    "::1.2.3",
    "::1.2.3.256",
    "1:::2",
    ":1",
    "1:",
    ":",
    ":::",
    "[::1]",
    "fe80::1%1",
    "0000:0000:0000:0000:0000:0000:0000:0001",
    "00000::",
    "2001:db8::0:0:1",
    "2001:0:0:1::",
    "1:0:0:2:0:0:0:3",
    "::ffff:0:0",
];

fn groups_of(s: &str) -> [u16; 8] {
    match parse_ipv6(s) {
        Some(groups) => groups,
        None => panic!("{s:?} should be an address"),
    }
}

#[test]
fn addresses_are_read_as_the_standard_library_reads_them() {
    for s in CANDIDATES {
        let v4 = s.parse::<core::net::Ipv4Addr>().ok().map(|ip| ip.octets());
        let v6 = s.parse::<core::net::Ipv6Addr>().ok().map(|ip| ip.segments());
        assert_eq!(parse_ipv4(s), v4, "{s:?}");
        assert_eq!(parse_ipv6(s), v6, "{s:?}");
        let expected = match (v4, v6) {
            (Some(octets), _) => Some(IpAddr::V4(octets)),
            (None, Some(groups)) => Some(IpAddr::V6(groups)),
            (None, None) => None,
        };
        assert_eq!(parse_ip(s), expected, "{s:?}");
        assert_eq!(
            parse_ip(s).map(|ip| ip.is_loopback()),
            s.parse::<core::net::IpAddr>().ok().map(|ip| ip.is_loopback()),
            "{s:?}"
        );
    }
}

#[test]
fn socket_addresses_are_written_as_the_standard_library_writes_them() {
    for s in CANDIDATES {
        let Some(ip) = parse_ip(s) else {
            continue;
        };
        let Ok(theirs) = s.parse::<core::net::IpAddr>() else {
            panic!("{s:?} should be an address");
        };
        for port in [0, 1, 443, 65535] {
            assert_eq!(
                SocketAddr::new(ip, port).to_string(),
                core::net::SocketAddr::new(theirs, port).to_string(),
                "{s:?}"
            );
        }
    }
}

#[test]
fn scopes_are_written() {
    let address = SocketAddr::V6 {
        groups: groups_of("fe80::1"),
        port: 80,
        flowinfo: 7,
        scope_id: 3,
    };
    assert_eq!(address.to_string(), "[fe80::1%3]:80");
}

#[test]
fn loopback_addresses() {
    assert!(IpAddr::V4([127, 9, 8, 7]).is_loopback());
    assert!(!IpAddr::V4([128, 0, 0, 1]).is_loopback());
    assert!(IpAddr::V6([0, 0, 0, 0, 0, 0, 0, 1]).is_loopback());
    assert!(!IpAddr::V6([0, 0, 0, 0, 0, 0xffff, 0x7f00, 1]).is_loopback());
}

#[test]
fn addresses_are_told_apart() {
    let one = SocketAddr::new(IpAddr::V4([127, 0, 0, 1]), 1);
    let two = SocketAddr::new(IpAddr::V4([127, 0, 0, 1]), 2);
    let six = SocketAddr::new(IpAddr::V6([0, 0, 0, 0, 0, 0, 0, 1]), 1);
    assert!(same_address(&one, &one));
    assert!(!same_address(&one, &two));
    assert!(!same_address(&one, &six));
    assert!(same_address(&six, &six));
}
