use vpn_core::ipv6::{ipv6_to_string, parse_ipv6};
use vpn_core::agent::{parse_allowed_ip, ConnectRequest};
use vpn_core::session::allowed_ip_to_string;
use vpn_core::wg::{
    cidr_to_string, endpoint_to_string, ipv4_to_string, parse_ipv4, parse_socket_addr, AllowedIp, IpAddress,
    SocketEndpoint,
};

/// A small deterministic generator of test values.
struct Lcg(u64);

impl Lcg {
    fn next(&mut self) -> u64 {
        self.0 = self.0.wrapping_mul(6364136223846793005).wrapping_add(1442695040888963407);
        self.0 >> 16
    }

    /// An address whose segments are often zero, so that runs of zeros of
    /// every length and position occur.
    fn address(&mut self) -> u128 {
        let mut bits: u128 = 0;
        for _ in 0..8 {
            let seg: u128 = match self.next() % 4 {
                0 | 1 => 0,
                2 => (self.next() % 16) as u128,
                _ => (self.next() % 0x10000) as u128,
            };
            bits = (bits << 16) | seg;
        }
        bits
    }
}

fn segs(s: [u16; 8]) -> u128 {
    s.iter().fold(0u128, |acc, x| (acc << 16) | (*x as u128))
}

#[test]
fn ipv6_text_compresses_the_first_longest_zero_run() {
    let cases: Vec<([u16; 8], &str)> = vec![
        ([0; 8], "::"),
        ([0, 0, 0, 0, 0, 0, 0, 1], "::1"),
        ([1, 0, 0, 0, 0, 0, 0, 0], "1::"),
        ([0xffff; 8], "ffff:ffff:ffff:ffff:ffff:ffff:ffff:ffff"),
        ([0x2001, 0xdb8, 0, 0, 0, 0, 0, 1], "2001:db8::1"),
        ([0x2001, 0xdb8, 0, 0, 1, 0, 0, 1], "2001:db8::1:0:0:1"),
        ([1, 0, 0, 2, 0, 0, 0, 3], "1:0:0:2::3"),
        ([0, 1, 0, 0, 0, 0, 0, 0], "0:1::"),
        ([1, 0, 2, 3, 4, 5, 6, 7], "1:0:2:3:4:5:6:7"),
        ([0xfe80, 0, 0, 0, 0x1ff, 0xfe23, 0x4567, 0x890a], "fe80::1ff:fe23:4567:890a"),
        ([0, 0, 0, 0, 0, 0xffff, 0xc000, 0x0280], "::ffff:192.0.2.128"),
        ([0, 0, 0, 0, 0, 0, 0xc000, 0x0280], "::c000:280"),
    ];
    for (s, text) in cases {
        assert_eq!(ipv6_to_string(segs(s)), text);
        assert_eq!(parse_ipv6(text), Some(segs(s)));
    }
}

#[test]
fn ipv6_text_parses_back() {
    let mut g = Lcg(7);
    for _ in 0..3000 {
        let bits = g.address();
        assert_eq!(parse_ipv6(&ipv6_to_string(bits)), Some(bits), "bits {bits:#x}");
    }
    assert_eq!(parse_ipv6(&ipv6_to_string(u128::MAX)), Some(u128::MAX));
}

#[test]
fn ipv6_parse_grammar() {
    let accepted: Vec<(&str, [u16; 8])> = vec![
        ("1:2:3:4:5:6:7:8", [1, 2, 3, 4, 5, 6, 7, 8]),
        ("1:2:3:4:5:6:7::", [1, 2, 3, 4, 5, 6, 7, 0]),
        ("::2:3:4:5:6:7:8", [0, 2, 3, 4, 5, 6, 7, 8]),
        ("abcd:EF01::", [0xabcd, 0xef01, 0, 0, 0, 0, 0, 0]),
        ("::192.0.2.128", [0, 0, 0, 0, 0, 0, 0xc000, 0x0280]),
        ("1:2:3:4:5:6:192.0.2.128", [1, 2, 3, 4, 5, 6, 0xc000, 0x0280]),
        ("0000:0000::0001", [0, 0, 0, 0, 0, 0, 0, 1]),
    ];
    for (t, s) in accepted {
        assert_eq!(parse_ipv6(t), Some(segs(s)), "text {t:?}");
    }
    let refused = [
        "",
        ":::",
        "1:",
        ":1",
        "1::2::3",
        "12345::",
        "g::",
        "1:2:3:4:5:6:7:8:9",
        "1:2:3:4:5:6::7:8",
        "1:2:3:4:5:6:7:192.0.2.128",
        "192.0.2.128::",
        "fe80::1%eth0",
    ];
    for t in refused {
        assert_eq!(parse_ipv6(t), None, "text {t:?}");
    }
}

#[test]
fn ipv4_text_parses_back() {
    let mut g = Lcg(11);
    let mut values: Vec<u32> = vec![0, 1, u32::MAX, 0x7f00_0001, 0x0a00_0000];
    for _ in 0..500 {
        values.push(g.next() as u32);
    }
    for a in values {
        assert_eq!(parse_ipv4(&ipv4_to_string(a)), Some(a));
    }
    assert_eq!(ipv4_to_string(0xc000_0280), "192.0.2.128");
    for t in ["1.2.3", "1.2.3.4.5", "256.0.0.1", "01.2.3.4", "1.2.3.4 ", "", "a.b.c.d"] {
        assert_eq!(parse_ipv4(t), None, "text {t:?}");
    }
}

#[test]
fn socket_addresses() {
    let v4 = SocketEndpoint { ip: IpAddress::V4(0xc000_0201), port: 51820, scope_id: 0 };
    assert_eq!(parse_socket_addr("192.0.2.1:51820"), Some(v4));
    assert_eq!(endpoint_to_string(v4), "192.0.2.1:51820");
    let v6 = SocketEndpoint { ip: IpAddress::V6(segs([0x2001, 0xdb8, 0, 0, 0, 0, 0, 1])), port: 443, scope_id: 3 };
    assert_eq!(parse_socket_addr("[2001:db8::1%3]:443"), Some(v6));
    assert_eq!(endpoint_to_string(v6), "[2001:db8::1%3]:443");
    let mapped = SocketEndpoint { ip: IpAddress::V6(segs([0, 0, 0, 0, 0, 0xffff, 0xc000, 0x0201])), port: 80, scope_id: 0 };
    assert_eq!(parse_socket_addr("[::ffff:192.0.2.1]:80"), Some(mapped));
    assert_eq!(endpoint_to_string(mapped), "[::ffff:192.0.2.1]:80");
    for t in ["192.0.2.1:65536", "192.0.2.1", "2001:db8::1:443", "[::1]:", ":80", "[::1]"] {
        assert_eq!(parse_socket_addr(t), None, "text {t:?}");
    }
}

#[test]
fn cidr_texts_parse_back() {
    let mut g = Lcg(23);
    for _ in 0..300 {
        let a4 = g.next() as u32;
        let p4 = (g.next() % 33) as u8;
        let t4 = cidr_to_string(IpAddress::V4(a4), p4);
        assert_eq!(ConnectRequest::parse_ipv4_cidr(&t4).ok(), Some((a4, p4)), "text {t4:?}");
        let ip4 = AllowedIp::V4 { addr: a4, cidr: p4 };
        assert_eq!(parse_allowed_ip(&allowed_ip_to_string(ip4)).ok(), Some(ip4));

        let a6 = g.address();
        let p6 = (g.next() % 129) as u8;
        let t6 = cidr_to_string(IpAddress::V6(a6), p6);
        assert_eq!(ConnectRequest::parse_ipv6_cidr(&t6).ok(), Some((a6, p6)), "text {t6:?}");
        let ip6 = AllowedIp::V6 { addr: a6, cidr: p6 };
        assert_eq!(parse_allowed_ip(&allowed_ip_to_string(ip6)).ok(), Some(ip6));
    }
    assert_eq!(cidr_to_string(IpAddress::V4(0x0a07_0002), 32), "10.7.0.2/32");
    assert_eq!(allowed_ip_to_string(AllowedIp::V6 { addr: 0, cidr: 0 }), "::/0");
}
