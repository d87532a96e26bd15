//! The WireGuard device model: keys, addresses, peers, and the interfaces of
//! TUN backends and session managers.

use vstd::prelude::*;

use crate::error::CoreError;
use crate::ipv6::{
    is_address_char, law_ipv6_text_parses_back, lemma_ipv4_text_chars, lemma_ipv6_text_chars, ipv6_parse, ipv6_text,
    ipv6_to_string,
};
use crate::text::{all_digits, chars_of, concat3, decimal, decimal_exec, digits_value, is_digit, lemma_decimal_digits, lemma_decimal_shape, lemma_split_char_concat, lemma_split_char_none, owned, find_char, is_first_index, lemma_find_char_is, parse_unsigned_exec, push_char, split_char, split_char_exec};

verus! {

/// An X25519 key pair.
#[derive(Debug, Clone, PartialEq, Eq)]
pub struct KeyPair {
    pub private: [u8; 32],
    pub public: [u8; 32],
}

/// An IPv4 or IPv6 address, as the 32-bit or 128-bit number whose
/// big-endian bytes are the address.
#[derive(Debug, Clone, Copy, PartialEq, Eq, Structural)]
pub enum IpAddress {
    V4(u32),
    V6(u128),
}

/// An address range that a peer may use.
#[derive(Debug, Clone, Copy, PartialEq, Eq, Structural)]
pub enum AllowedIp {
    V4 { addr: u32, cidr: u8 },
    V6 { addr: u128, cidr: u8 },
}

/// A peer's UDP endpoint. `scope_id` is the IPv6 zone (0 for none and for
/// IPv4).
#[derive(Debug, Clone, Copy, PartialEq, Eq, Structural)]
pub struct SocketEndpoint {
    pub ip: IpAddress,
    pub port: u16,
    pub scope_id: u32,
}

/// A WireGuard peer.
#[derive(Debug, Clone, PartialEq, Eq)]
pub struct Peer {
    pub public_key: [u8; 32],
    pub endpoint: Option<SocketEndpoint>,
    pub allowed_ips: Vec<AllowedIp>,
    pub persistent_keepalive_secs: Option<u16>,
}

/// The addresses of the device, each with its prefix length.
#[derive(Debug, Clone, Copy, PartialEq, Eq)]
pub struct DeviceAddress {
    pub v4: Option<(u32, u8)>,
    pub v6: Option<(u128, u8)>,
}

/// Everything needed to bring a WireGuard device up.
#[derive(Debug, Clone, PartialEq, Eq)]
pub struct WgDeviceConfig {
    pub name: String,
    pub mtu: Option<u32>,
    pub keypair: KeyPair,
    pub address: DeviceAddress,
    pub peers: Vec<Peer>,
}

/// A platform's TUN interface.
pub trait TunBackend {
    /// Creates or opens the interface with the given name.
    fn open(&self, name: &str) -> Result<(), CoreError>;

    /// Brings the interface up.
    fn up(&self) -> Result<(), CoreError>;

    /// Brings the interface down.
    fn down(&self) -> Result<(), CoreError>;

    /// Sets the interface MTU.
    fn set_mtu(&self, mtu: u32) -> Result<(), CoreError>;

    /// Assigns the IPv4 and IPv6 addresses.
    fn set_address(&self, address: &DeviceAddress) -> Result<(), CoreError>;
}

/// A running WireGuard session.
pub trait SessionManager {
    /// Starts a session: configures the interface and its peers.
    fn start(&mut self, cfg: &WgDeviceConfig) -> Result<(), CoreError>;

    /// Stops the running session and tears its state down.
    fn stop(&mut self) -> Result<(), CoreError>;

    /// Replaces the peers of the running session.
    fn update_peers(&mut self, peers: &Vec<Peer>) -> Result<(), CoreError>;
}

/// The dotted-decimal text of an IPv4 address (how `Ipv4Addr` displays).
pub open spec fn ipv4_text(a: u32) -> Seq<char> {
    decimal((a as nat / 0x1000000) % 256) + "."@ + decimal((a as nat / 0x10000) % 256) + "."@
        + decimal((a as nat / 0x100) % 256) + "."@ + decimal(a as nat % 256)
}

/// The dotted-decimal text of an IPv4 address.
pub fn ipv4_to_string(a: u32) -> (r: String)
    ensures
        r@ == ipv4_text(a),
{
    let o0: u64 = ((a / 0x1000000) % 256) as u64;
    let o1: u64 = ((a / 0x10000) % 256) as u64;
    let o2: u64 = ((a / 0x100) % 256) as u64;
    let o3: u64 = (a % 256) as u64;
    assert(o0 as nat == (a as nat / 0x1000000) % 256);
    assert(o1 as nat == (a as nat / 0x10000) % 256);
    assert(o2 as nat == (a as nat / 0x100) % 256);
    assert(o3 as nat == a as nat % 256);
    let mut r = decimal_exec(o0);
    push_char(&mut r, '.');
    r.append(decimal_exec(o1).as_str());
    push_char(&mut r, '.');
    r.append(decimal_exec(o2).as_str());
    push_char(&mut r, '.');
    r.append(decimal_exec(o3).as_str());
    proof {
        reveal_strlit(".");
    }
    assert(r@ =~= ipv4_text(a));
    r
}

/// The value of a decimal IPv4 octet text: one to three digits, no
/// leading zero unless the octet is `0`, at most 255.
pub open spec fn ipv4_octet(t: Seq<char>) -> Option<nat> {
    if 1 <= t.len() <= 3 && all_digits(t) && !(t.len() > 1 && t[0] == '0') && digits_value(t) <= 255 {
        Some(digits_value(t))
    } else {
        None
    }
}

/// The address that a dotted-decimal text spells: four octets separated by
/// dots (what `str::parse::<Ipv4Addr>` accepts).
pub open spec fn ipv4_parse(s: Seq<char>) -> Option<u32> {
    let p = split_char(s, '.');
    if p.len() == 4 && ipv4_octet(p[0]) is Some && ipv4_octet(p[1]) is Some && ipv4_octet(p[2]) is Some
        && ipv4_octet(p[3]) is Some {
        Some(
            (ipv4_octet(p[0])->0 * 0x1000000 + ipv4_octet(p[1])->0 * 0x10000 + ipv4_octet(p[2])->0
                * 0x100 + ipv4_octet(p[3])->0) as u32,
        )
    } else {
        None
    }
}

fn ipv4_octet_exec(t: &Vec<char>) -> (r: Option<u32>)
    ensures
        match r {
            Some(v) => ipv4_octet(t@) == Some(v as nat) && v <= 255,
            None => ipv4_octet(t@) is None,
        },
{
    if t.len() < 1 || t.len() > 3 {
        return None;
    }
    if t.len() > 1 && t[0] == '0' {
        return None;
    }
    let mut i: usize = 0;
    while i < t.len()
        invariant
            i <= t.len(),
            forall|j: int| 0 <= j < i ==> is_digit(t@[j]),
        decreases t.len() - i,
    {
        if !('0' <= t[i] && t[i] <= '9') {
            assert(!is_digit(t@[i as int]));
            return None;
        }
        i = i + 1;
    }
    match parse_unsigned_exec(t, 255) {
        Some(v) => {
            assert(t@[0] != '+');
            Some(v as u32)
        },
        None => {
            assert(t@[0] != '+');
            None
        },
    }
}

/// Parses a dotted-decimal IPv4 address.
pub fn parse_ipv4(s: &str) -> (r: Option<u32>)
    ensures
        r == ipv4_parse(s@),
{
    let v = chars_of(s);
    parse_ipv4_chars(&v)
}

/// Parses a dotted-decimal IPv4 address given as characters.
pub fn parse_ipv4_chars(v: &Vec<char>) -> (r: Option<u32>)
    ensures
        r == ipv4_parse(v@),
{
    let p = split_char_exec(v, '.');
    if p.len() != 4 {
        return None;
    }
    assert(p@[0]@ == split_char(v@, '.')[0]);
    assert(p@[1]@ == split_char(v@, '.')[1]);
    assert(p@[2]@ == split_char(v@, '.')[2]);
    assert(p@[3]@ == split_char(v@, '.')[3]);
    let a = ipv4_octet_exec(&p[0]);
    let b = ipv4_octet_exec(&p[1]);
    let c = ipv4_octet_exec(&p[2]);
    let d = ipv4_octet_exec(&p[3]);
    match (a, b, c, d) {
        (Some(a), Some(b), Some(c), Some(d)) => Some(a * 0x1000000 + b * 0x10000 + c * 0x100 + d),
        _ => None,
    }
}

/// The text of an address followed by `/` and a prefix length.
pub open spec fn cidr_text(ip: IpAddress, prefix: u8) -> Seq<char> {
    match ip {
        IpAddress::V4(a) => ipv4_text(a) + "/"@ + decimal(prefix as nat),
        IpAddress::V6(a) => ipv6_text(a) + "/"@ + decimal(prefix as nat),
    }
}

/// `<address>/<prefix>`
pub fn cidr_to_string(ip: IpAddress, prefix: u8) -> (r: String)
    ensures
        r@ == cidr_text(ip, prefix),
{
    let a = match ip {
        IpAddress::V4(a) => ipv4_to_string(a),
        IpAddress::V6(a) => ipv6_to_string(a),
    };
    let p = decimal_exec(prefix as u64);
    concat3(a.as_str(), "/", p.as_str())
}

/// The text of an allowed range.
pub open spec fn allowed_ip_text(ip: AllowedIp) -> Seq<char> {
    match ip {
        AllowedIp::V4 { addr, cidr } => cidr_text(IpAddress::V4(addr), cidr),
        AllowedIp::V6 { addr, cidr } => cidr_text(IpAddress::V6(addr), cidr),
    }
}

/// The text of an endpoint, as `SocketAddr` displays it.
pub open spec fn endpoint_text(e: SocketEndpoint) -> Seq<char> {
    match e.ip {
        IpAddress::V4(a) => ipv4_text(a) + ":"@ + decimal(e.port as nat),
        IpAddress::V6(a) => if e.scope_id == 0 {
            "["@ + ipv6_text(a) + "]:"@ + decimal(e.port as nat)
        } else {
            "["@ + ipv6_text(a) + "%"@ + decimal(e.scope_id as nat) + "]:"@ + decimal(e.port as nat)
        },
    }
}

/// The text of an endpoint.
pub fn endpoint_to_string(e: SocketEndpoint) -> (r: String)
    ensures
        r@ == endpoint_text(e),
{
    let port = decimal_exec(e.port as u64);
    match e.ip {
        IpAddress::V4(a) => {
            let ip = ipv4_to_string(a);
            concat3(ip.as_str(), ":", port.as_str())
        },
        IpAddress::V6(a) => {
            let ip = ipv6_to_string(a);
            let mut r = owned("[");
            r.append(ip.as_str());
            if e.scope_id != 0 {
                r.append("%");
                r.append(decimal_exec(e.scope_id as u64).as_str());
            }
            r.append("]:");
            r.append(port.as_str());
            r
        },
    }
}


/// A port or scope number: one or more decimal digits (leading zeros
/// allowed, no sign) whose value is at most `max`.
pub open spec fn plain_number(t: Seq<char>, max: nat) -> Option<nat> {
    if t.len() > 0 && all_digits(t) && digits_value(t) <= max {
        Some(digits_value(t))
    } else {
        None
    }
}

/// The endpoint that a socket-address text spells, in the grammar that
/// `str::parse::<SocketAddr>` accepts: `a.b.c.d:port`, or `[ipv6]:port`
/// with an optional `%scope` before the `]`.
pub open spec fn socket_addr_parse(s: Seq<char>) -> Option<SocketEndpoint> {
    let v4 = match find_char(s, ':') {
        Some(k) => match (ipv4_parse(s.take(k)), plain_number(s.skip(k + 1), 65535)) {
            (Some(a), Some(p)) => Some(SocketEndpoint { ip: IpAddress::V4(a), port: p as u16, scope_id: 0 }),
            _ => None,
        },
        None => None,
    };
    if v4 is Some {
        v4
    } else if s.len() > 0 && s[0] == '[' {
        match find_char(s, ']') {
            Some(k) => {
                let inside = s.subrange(1, k);
                let rest = s.skip(k + 1);
                let port = if rest.len() > 0 && rest[0] == ':' {
                    plain_number(rest.skip(1), 65535)
                } else {
                    None
                };
                let addr = match find_char(inside, '%') {
                    None => match ipv6_parse(inside) {
                        Some(a) => Some((a, 0nat)),
                        None => None,
                    },
                    Some(j) => match (ipv6_parse(inside.take(j)), plain_number(inside.skip(j + 1), 0xffff_ffff)) {
                        (Some(a), Some(z)) => Some((a, z)),
                        _ => None,
                    },
                };
                match (addr, port) {
                    (Some(a), Some(p)) => Some(SocketEndpoint { ip: IpAddress::V6(a.0), port: p as u16, scope_id: a.1 as u32 }),
                    _ => None,
                }
            },
            None => None,
        }
    } else {
        None
    }
}

fn plain_number_exec(v: &Vec<char>, from: usize, max: u64) -> (r: Option<u64>)
    requires
        from <= v.len(),
    ensures
        match r {
            Some(n) => plain_number(v@.skip(from as int), max as nat) == Some(n as nat) && n <= max,
            None => plain_number(v@.skip(from as int), max as nat) is None,
        },
{
    let t = crate::text::slice_vec(v, from, v.len());
    assert(t@ =~= v@.skip(from as int));
    if t.len() == 0 {
        return None;
    }
    let mut i: usize = 0;
    while i < t.len()
        invariant
            i <= t.len(),
            t@ == v@.skip(from as int),
            forall|j: int| 0 <= j < i ==> is_digit(t@[j]),
        decreases t.len() - i,
    {
        if !('0' <= t[i] && t[i] <= '9') {
            assert(!is_digit(t@[i as int]));
            return None;
        }
        i = i + 1;
    }
    assert(t@[0] != '+');
    parse_unsigned_exec(&t, max)
}

/// Parses a socket address.
pub fn parse_socket_addr(s: &str) -> (r: Option<SocketEndpoint>)
    ensures
        r == socket_addr_parse(s@),
{
    let v = chars_of(s);
    let mut v4: Option<SocketEndpoint> = None;
    match crate::text::find_char_exec(&v, ':') {
        Some(k) => {
            let head = crate::text::slice_vec(&v, 0, k);
            assert(head@ =~= v@.take(k as int));
            let a = parse_ipv4_chars(&head);
            let p = plain_number_exec(&v, k + 1, 65535);
            match (a, p) {
                (Some(a), Some(p)) => {
                    v4 = Some(SocketEndpoint { ip: IpAddress::V4(a), port: p as u16, scope_id: 0 });
                },
                _ => {},
            }
        },
        None => {},
    }
    if v4.is_some() {
        return v4;
    }
    if v.len() == 0 || v[0] != '[' {
        return None;
    }
    match crate::text::find_char_exec(&v, ']') {
        Some(k) => {
            if k == 0 {
                return None;
            }
            let inside = crate::text::slice_vec(&v, 1, k);
            let rest = crate::text::slice_vec(&v, k + 1, v.len());
            assert(rest@ =~= v@.skip(k + 1));
            let port = if rest.len() > 0 && rest[0] == ':' {
                let pn = plain_number_exec(&rest, 1, 65535);
                pn
            } else {
                None
            };
            let addr: Option<(u128, u32)> = match crate::text::find_char_exec(&inside, '%') {
                None => match crate::ipv6::parse_ipv6_chars(&inside) {
                    Some(a) => Some((a, 0u32)),
                    None => None,
                },
                Some(j) => {
                    let ip = crate::text::slice_vec(&inside, 0, j);
                    assert(ip@ =~= inside@.take(j as int));
                    match (crate::ipv6::parse_ipv6_chars(&ip), plain_number_exec(&inside, j + 1, 0xffff_ffff)) {
                        (Some(a), Some(z)) => Some((a, z as u32)),
                        _ => None,
                    }
                },
            };
            match (addr, port) {
                (Some(a), Some(p)) => Some(SocketEndpoint { ip: IpAddress::V6(a.0), port: p as u16, scope_id: a.1 }),
                _ => None,
            }
        },
        None => None,
    }
}


proof fn lemma_octet_text(n: nat)
    requires
        n <= 255,
    ensures
        ipv4_octet(decimal(n)) == Some(n),
        forall|i: int| 0 <= i < decimal(n).len() ==> decimal(n)[i] != '.',
{
    lemma_decimal_digits(n);
    lemma_decimal_shape(n);
    assert forall|i: int| 0 <= i < decimal(n).len() implies decimal(n)[i] != '.' by {
        assert(is_digit(decimal(n)[i]));
    }
}

/// A dotted-decimal address reads back as the same address.
pub proof fn law_ipv4_text_parses_back(a: u32)
    ensures
        ipv4_parse(ipv4_text(a)) == Some(a),
{
    let o0 = (a as nat / 0x1000000) % 256;
    let o1 = (a as nat / 0x10000) % 256;
    let o2 = (a as nat / 0x100) % 256;
    let o3 = a as nat % 256;
    lemma_octet_text(o0);
    lemma_octet_text(o1);
    lemma_octet_text(o2);
    lemma_octet_text(o3);
    let d0 = decimal(o0);
    let d1 = decimal(o1);
    let d2 = decimal(o2);
    let d3 = decimal(o3);
    reveal_strlit(".");
    assert(ipv4_text(a) =~= d0 + seq!['.'] + (d1 + seq!['.'] + (d2 + seq!['.'] + d3)));
    lemma_split_char_concat(d0, '.', d1 + seq!['.'] + (d2 + seq!['.'] + d3));
    lemma_split_char_concat(d1, '.', d2 + seq!['.'] + d3);
    lemma_split_char_concat(d2, '.', d3);
    lemma_split_char_none(d3, '.');
    let p = split_char(ipv4_text(a), '.');
    assert(p =~= seq![d0, d1, d2, d3]);
    assert((((a / 0x1000000) % 256) * 0x1000000 + ((a / 0x10000) % 256) * 0x10000 + ((a / 0x100) % 256)
        * 0x100 + a % 256) as u32 == a) by (bit_vector);
}


/// A text that starts with anything but a digit is no dotted-decimal
/// address.
pub proof fn lemma_not_ipv4_start(t: Seq<char>)
    requires
        t.len() > 0,
        !is_digit(t[0]),
    ensures
        ipv4_parse(t) is None,
{
    let p = split_char(t, '.');
    if exists|k: int| is_first_index(t, '.', k) {
        let k = choose|k: int| is_first_index(t, '.', k);
        lemma_find_char_is(t, '.', k);
        assert(p[0] == t.take(k));
        if k > 0 {
            assert(!is_digit(t.take(k)[0]));
        }
    } else {
        assert(p =~= seq![t]);
    }
}

/// A text without dots is no dotted-decimal address.
pub proof fn lemma_no_dot_not_ipv4(t: Seq<char>)
    requires
        forall|i: int| 0 <= i < t.len() ==> t[i] != '.',
    ensures
        ipv4_parse(t) is None,
{
    lemma_split_char_none(t, '.');
}

/// The decimal text of a number within `max` reads back as a port or
/// scope number.
pub proof fn lemma_port_text(n: nat, max: nat)
    requires
        n <= max,
    ensures
        plain_number(decimal(n), max) == Some(n),
{
    lemma_decimal_digits(n);
}

/// The address part between the brackets of an IPv6 endpoint's text.
pub open spec fn bracketed_address(a: u128, scope: u32) -> Seq<char> {
    if scope == 0 {
        ipv6_text(a)
    } else {
        ipv6_text(a) + "%"@ + decimal(scope as nat)
    }
}

proof fn lemma_v4_endpoint(a: u32, port: u16)
    ensures
        socket_addr_parse(endpoint_text(SocketEndpoint { ip: IpAddress::V4(a), port, scope_id: 0 })) == Some(
            SocketEndpoint { ip: IpAddress::V4(a), port, scope_id: 0 },
        ),
{
    let e = SocketEndpoint { ip: IpAddress::V4(a), port, scope_id: 0 };
    let d = decimal(port as nat);
    lemma_port_text(port as nat, 65535);
    reveal_strlit(":");
    let v4 = ipv4_text(a);
    let t = endpoint_text(e);
    assert(t =~= v4 + seq![':'] + d);
    lemma_ipv4_text_chars(a);
    assert(is_first_index(t, ':', v4.len() as int)) by {
        assert forall|j: int| 0 <= j < v4.len() implies t[j] != ':' by {
            assert(t[j] == v4[j]);
            assert(is_digit(v4[j]) || v4[j] == '.');
        }
    }
    lemma_find_char_is(t, ':', v4.len() as int);
    assert(t.take(v4.len() as int) =~= v4);
    assert(t.skip(v4.len() as int + 1) =~= d);
    law_ipv4_text_parses_back(a);
}

proof fn lemma_bracketed_address(a: u128, scope: u32)
    ensures
        forall|j: int| 0 <= j < bracketed_address(a, scope).len() ==> #[trigger] bracketed_address(a, scope)[j] != ']',
        match find_char(bracketed_address(a, scope), '%') {
            None => scope == 0 && ipv6_parse(bracketed_address(a, scope)) == Some(a),
            Some(j) => ipv6_parse(bracketed_address(a, scope).take(j)) == Some(a) && plain_number(
                bracketed_address(a, scope).skip(j + 1),
                0xffff_ffff,
            ) == Some(scope as nat),
        },
{
    let v6 = ipv6_text(a);
    let x = bracketed_address(a, scope);
    lemma_ipv6_text_chars(a);
    law_ipv6_text_parses_back(a);
    let sc = decimal(scope as nat);
    lemma_decimal_digits(scope as nat);
    lemma_port_text(scope as nat, 0xffff_ffff);
    reveal_strlit("%");
    if scope == 0 {
        assert forall|j: int| 0 <= j < x.len() implies x[j] != '%' && #[trigger] x[j] != ']' by {
            assert(is_address_char(v6[j]));
        }
        crate::text::lemma_find_char_none(x, '%');
    } else {
        assert(x =~= v6 + seq!['%'] + sc);
        assert forall|j: int| 0 <= j < x.len() implies #[trigger] x[j] != ']' by {
            if j < v6.len() {
                assert(x[j] == v6[j]);
                assert(is_address_char(v6[j]));
            } else if j > v6.len() {
                assert(x[j] == sc[j - v6.len() - 1]);
                assert(is_digit(sc[j - v6.len() - 1]));
            }
        }
        assert(is_first_index(x, '%', v6.len() as int)) by {
            assert forall|j: int| 0 <= j < v6.len() implies x[j] != '%' by {
                assert(x[j] == v6[j]);
                assert(is_address_char(v6[j]));
            }
        }
        lemma_find_char_is(x, '%', v6.len() as int);
        assert(x.take(v6.len() as int) =~= v6);
        assert(x.skip(v6.len() as int + 1) =~= sc);
    }
}

#[verifier::rlimit(40)]
proof fn lemma_bracketed_endpoint(x: Seq<char>, a: u128, port: u16, scope: u32)
    requires
        forall|j: int| 0 <= j < x.len() ==> #[trigger] x[j] != ']',
        match find_char(x, '%') {
            None => scope == 0 && ipv6_parse(x) == Some(a),
            Some(j) => ipv6_parse(x.take(j)) == Some(a) && plain_number(x.skip(j + 1), 0xffff_ffff) == Some(
                scope as nat,
            ),
        },
    ensures
        socket_addr_parse(seq!['['] + x + seq![']', ':'] + decimal(port as nat)) == Some(
            SocketEndpoint { ip: IpAddress::V6(a), port, scope_id: scope },
        ),
{
    let d = decimal(port as nat);
    lemma_port_text(port as nat, 65535);
    let t = seq!['['] + x + seq![']', ':'] + d;
    if exists|k: int| is_first_index(t, ':', k) {
        let k = choose|k: int| is_first_index(t, ':', k);
        lemma_find_char_is(t, ':', k);
        assert(t.take(k)[0] == '[');
        lemma_not_ipv4_start(t.take(k));
    }
    assert(is_first_index(t, ']', x.len() as int + 1)) by {
        assert forall|j: int| 0 <= j < x.len() as int + 1 implies t[j] != ']' by {
            if j > 0 {
                assert(t[j] == x[j - 1]);
            }
        }
    }
    lemma_find_char_is(t, ']', x.len() as int + 1);
    assert(t.subrange(1, x.len() as int + 1) =~= x);
    assert(t.skip(x.len() as int + 2) =~= seq![':'] + d);
    assert((seq![':'] + d).skip(1) =~= d);
}

proof fn lemma_v6_endpoint(a: u128, port: u16, scope: u32)
    ensures
        socket_addr_parse(endpoint_text(SocketEndpoint { ip: IpAddress::V6(a), port, scope_id: scope })) == Some(
            SocketEndpoint { ip: IpAddress::V6(a), port, scope_id: scope },
        ),
{
    let e = SocketEndpoint { ip: IpAddress::V6(a), port, scope_id: scope };
    reveal_strlit("]:");
    reveal_strlit("[");
    reveal_strlit("%");
    let x = bracketed_address(a, scope);
    lemma_bracketed_address(a, scope);
    assert(endpoint_text(e) =~= seq!['['] + x + seq![']', ':'] + decimal(port as nat));
    lemma_bracketed_endpoint(x, a, port, scope);
}

/// The text of a peer endpoint reads back as the same endpoint. (An IPv4
/// endpoint's text carries no scope, so only a scope of 0 comes back.)
pub proof fn law_endpoint_text_parses_back(e: SocketEndpoint)
    requires
        e.ip is V4 ==> e.scope_id == 0,
    ensures
        socket_addr_parse(endpoint_text(e)) == Some(e),
{
    match e.ip {
        IpAddress::V4(a) => lemma_v4_endpoint(a, e.port),
        IpAddress::V6(a) => lemma_v6_endpoint(a, e.port, e.scope_id),
    }
}

} // verus!
