//! The local agent's request model: turning a connect request into a device
//! configuration and session policy, and the agent's errors.

use vstd::prelude::*;

use crate::codec::{base64_decode, base64_standard_decoded, x25519_public, x25519_public_key};
use crate::error::{core_error_text, CoreError};
use crate::ipv6::{is_ipv4_mapped, law_ipv6_text_parses_back, lemma_ipv4_text_chars, lemma_ipv6_text_chars, ipv6_parse, ipv6_text, parse_ipv6_chars};
use crate::session::SessionPolicy;
use vstd::string::StrSliceExecFns;
use crate::text::{
    chars_of, decimal, is_digit, is_first_index, lemma_decimal_digits, lemma_find_char_is, owned, parse_unsigned,
    parse_unsigned_exec, split_once, split_once_exec, string_of, trim, trim_exec,
};
use crate::wg::{
    allowed_ip_text, cidr_text, ipv4_parse, ipv4_text, law_ipv4_text_parses_back, lemma_no_dot_not_ipv4,
    lemma_not_ipv4_start, parse_ipv4_chars, parse_socket_addr, socket_addr_parse, AllowedIp, DeviceAddress,
    IpAddress, KeyPair, Peer, SocketEndpoint, WgDeviceConfig,
};

verus! {

/// The agent's answer to a status query.
#[derive(Debug)]
pub struct StatusResponse {
    pub status: &'static str,
    pub interface: Option<String>,
}

/// A bare status answer.
#[derive(Debug)]
pub struct BasicResponse {
    pub status: &'static str,
}

/// A request to bring a WireGuard session up.
#[derive(Debug)]
pub struct ConnectRequest {
    pub interface: String,
    pub private_key: String,
    pub address_v4: String,
    pub address_v6: Option<String>,
    pub peer: PeerRequest,
    pub dns_servers: Vec<String>,
    pub routes_v4: Vec<String>,
    pub routes_v6: Vec<String>,
    pub kill_switch_allow_v4: Vec<String>,
    pub kill_switch_allow_v6: Vec<String>,
    pub kill_switch_allow_uids: Vec<u32>,
    pub mtu: Option<u32>,
}

/// The peer part of a connect request.
#[derive(Debug)]
pub struct PeerRequest {
    pub public_key: String,
    pub endpoint: Option<String>,
    pub allowed_ips: Vec<String>,
    pub persistent_keepalive_secs: Option<u16>,
}

/// Errors of the agent.
#[derive(Debug)]
pub enum AgentError {
    Core(CoreError),
    BadRequest(String),
    Conflict(String),
    NotImplemented(String),
}

/// The body of an error answer.
#[derive(Debug)]
pub struct ErrorResponse {
    pub error: String,
}

/// `r` is the agent error for the core error `err`: invalid input is a bad
/// request, an existing item a conflict, an unsupported platform "not
/// implemented", anything else stays a core error.
pub open spec fn is_agent_error_of(err: CoreError, r: AgentError) -> bool {
    match err {
        CoreError::InvalidInput(msg) => r == AgentError::BadRequest(msg),
        CoreError::AlreadyExists(msg) => r == AgentError::Conflict(msg),
        CoreError::UnsupportedPlatform => r matches AgentError::NotImplemented(m) && m@
            == "platform not yet supported"@,
        other => r == AgentError::Core(other),
    }
}

impl AgentError {
    /// A bad-request error with the given message.
    pub fn bad_request(msg: &str) -> (r: Self)
        ensures
            r matches AgentError::BadRequest(m) && m@ == msg@,
    {
        AgentError::BadRequest(owned(msg))
    }

    /// The HTTP status and message of the error answer: 400, 409, 501, or
    /// 500 with the core error's text.
    pub fn status_and_message(&self) -> (r: (u16, String))
        ensures
            match self {
                AgentError::BadRequest(m) => r.0 == 400 && r.1@ == m@,
                AgentError::Conflict(m) => r.0 == 409 && r.1@ == m@,
                AgentError::NotImplemented(m) => r.0 == 501 && r.1@ == m@,
                AgentError::Core(e) => r.0 == 500 && (!(e is Io) ==> r.1@ == core_error_text(*e)),
            },
    {
        match self {
            AgentError::BadRequest(m) => (400, owned(m.as_str())),
            AgentError::Conflict(m) => (409, owned(m.as_str())),
            AgentError::NotImplemented(m) => (501, owned(m.as_str())),
            AgentError::Core(e) => (500, e.message()),
        }
    }

    /// The status code and body of the error answer.
    pub fn into_response(self) -> (r: (u16, ErrorResponse))
        ensures
            match self {
                AgentError::BadRequest(m) => r.0 == 400 && r.1.error@ == m@,
                AgentError::Conflict(m) => r.0 == 409 && r.1.error@ == m@,
                AgentError::NotImplemented(m) => r.0 == 501 && r.1.error@ == m@,
                AgentError::Core(e) => r.0 == 500 && (!(e is Io) ==> r.1.error@ == core_error_text(e)),
            },
    {
        let (status, msg) = self.status_and_message();
        (status, ErrorResponse { error: msg })
    }
}

impl AgentError {
    /// The agent error for a core error.
    pub fn from_core(err: CoreError) -> (r: Self)
        ensures
            is_agent_error_of(err, r),
    {
        match err {
            CoreError::InvalidInput(msg) => AgentError::BadRequest(msg),
            CoreError::AlreadyExists(msg) => AgentError::Conflict(msg),
            CoreError::UnsupportedPlatform => AgentError::NotImplemented(
                owned("platform not yet supported"),
            ),
            other => AgentError::Core(other),
        }
    }
}


/// An IPv4 address with a prefix length, `a.b.c.d/n`, and the message of
/// each refusal.
pub open spec fn ipv4_cidr_parse(s: Seq<char>) -> Result<(u32, u8), Seq<char>> {
    match split_once(s, '/') {
        None => Err("invalid IPv4 CIDR"@),
        Some(parts) => match ipv4_parse(parts.0) {
            None => Err("invalid IPv4 address"@),
            Some(ip) => match parse_unsigned(parts.1, 255) {
                None => Err("invalid IPv4 prefix"@),
                Some(c) => if c > 32 {
                    Err("IPv4 prefix out of range"@)
                } else {
                    Ok((ip, c as u8))
                },
            },
        },
    }
}

/// An IPv6 address with a prefix length, and the message of each refusal.
pub open spec fn ipv6_cidr_parse(s: Seq<char>) -> Result<(u128, u8), Seq<char>> {
    match split_once(s, '/') {
        None => Err("invalid IPv6 CIDR"@),
        Some(parts) => match ipv6_parse(parts.0) {
            None => Err("invalid IPv6 address"@),
            Some(ip) => match parse_unsigned(parts.1, 255) {
                None => Err("invalid IPv6 prefix"@),
                Some(c) => if c > 128 {
                    Err("IPv6 prefix out of range"@)
                } else {
                    Ok((ip, c as u8))
                },
            },
        },
    }
}

/// An allowed range `addr/n` of either family, and the message of each
/// refusal. The prefix is read before the address.
pub open spec fn allowed_ip_parse(s: Seq<char>) -> Result<AllowedIp, Seq<char>> {
    match split_once(s, '/') {
        None => Err("invalid allowed IP"@),
        Some(parts) => match parse_unsigned(parts.1, 255) {
            None => Err("invalid CIDR prefix"@),
            Some(c) => match ipv4_parse(parts.0) {
                Some(a) => if c > 32 {
                    Err("IPv4 CIDR out of range"@)
                } else {
                    Ok(AllowedIp::V4 { addr: a, cidr: c as u8 })
                },
                None => match ipv6_parse(parts.0) {
                    Some(a) => if c > 128 {
                        Err("IPv6 CIDR out of range"@)
                    } else {
                        Ok(AllowedIp::V6 { addr: a, cidr: c as u8 })
                    },
                    None => Err("invalid CIDR address"@),
                },
            },
        },
    }
}

/// A 32-byte key in standard Base64 (surrounding white space ignored), and
/// the message of each refusal.
pub open spec fn key_parse(text: Seq<char>, invalid: Seq<char>, wrong_size: Seq<char>) -> Result<
    Seq<u8>,
    Seq<char>,
> {
    match base64_standard_decoded(trim(text)) {
        None => Err(invalid),
        Some(b) => if b.len() == 32 {
            Ok(b)
        } else {
            Err(wrong_size)
        },
    }
}

/// `e` is the bad-request error with message `m`.
pub open spec fn is_bad_request(e: AgentError, m: Seq<char>) -> bool {
    e matches AgentError::BadRequest(msg) && msg@ == m
}

fn bad_request_of(m: &str) -> (e: AgentError)
    ensures
        is_bad_request(e, m@),
{
    AgentError::BadRequest(owned(m))
}

fn key_array(v: &Vec<u8>) -> (r: [u8; 32])
    requires
        v@.len() == 32,
    ensures
        r@ == v@,
{
    let mut r = [0u8; 32];
    let mut i: usize = 0;
    while i < 32
        invariant
            v@.len() == 32,
            i <= 32,
            forall|j: int| 0 <= j < i ==> r@[j] == v@[j],
        decreases 32 - i,
    {
        r[i] = v[i];
        i = i + 1;
    }
    assert(r@ =~= v@);
    r
}

fn decode_key_with(b64: &str, invalid: &str, wrong_size: &str) -> (r: Result<[u8; 32], AgentError>)
    ensures
        match key_parse(b64@, invalid@, wrong_size@) {
            Ok(k) => r matches Ok(a) && a@ == k,
            Err(m) => r matches Err(e) && is_bad_request(e, m),
        },
{
    let t = trim_exec(&chars_of(b64));
    let ts = string_of(&t);
    match base64_decode(ts.as_str()) {
        None => Err(bad_request_of(invalid)),
        Some(bytes) => {
            if bytes.len() != 32 {
                return Err(bad_request_of(wrong_size));
            }
            Ok(key_array(&bytes))
        },
    }
}

/// Decodes a peer's public key.
pub fn decode_key(b64: &str) -> (r: Result<[u8; 32], AgentError>)
    ensures
        match key_parse(b64@, "invalid public key"@, "public key must be 32 bytes"@) {
            Ok(k) => r matches Ok(a) && a@ == k,
            Err(m) => r matches Err(e) && is_bad_request(e, m),
        },
{
    decode_key_with(b64, "invalid public key", "public key must be 32 bytes")
}

/// Reads an allowed range `addr/n`.
pub fn parse_allowed_ip(value: &str) -> (r: Result<AllowedIp, AgentError>)
    ensures
        match allowed_ip_parse(value@) {
            Ok(a) => r == Ok::<AllowedIp, AgentError>(a),
            Err(m) => r matches Err(e) && is_bad_request(e, m),
        },
{
    let v = chars_of(value);
    let (addr, prefix) = match split_once_exec(&v, '/') {
        Some(p) => p,
        None => return Err(bad_request_of("invalid allowed IP")),
    };
    let cidr = match parse_unsigned_exec(&prefix, 255) {
        Some(c) => c,
        None => return Err(bad_request_of("invalid CIDR prefix")),
    };
    match parse_ipv4_chars(&addr) {
        Some(a) => {
            if cidr > 32 {
                return Err(bad_request_of("IPv4 CIDR out of range"));
            }
            Ok(AllowedIp::V4 { addr: a, cidr: cidr as u8 })
        },
        None => match parse_ipv6_chars(&addr) {
            Some(a) => {
                if cidr > 128 {
                    return Err(bad_request_of("IPv6 CIDR out of range"));
                }
                Ok(AllowedIp::V6 { addr: a, cidr: cidr as u8 })
            },
            None => Err(bad_request_of("invalid CIDR address")),
        },
    }
}

/// The allowed ranges of a list, in order; the first refusal wins.
pub open spec fn allowed_ips_parse(list: Seq<Seq<char>>) -> Result<Seq<AllowedIp>, Seq<char>>
    decreases list.len(),
{
    if list.len() == 0 {
        Ok(seq![])
    } else {
        match allowed_ip_parse(list[0]) {
            Err(m) => Err(m),
            Ok(a) => match allowed_ips_parse(list.drop_first()) {
                Ok(rest) => Ok(seq![a] + rest),
                Err(m) => Err(m),
            },
        }
    }
}

/// An optional endpoint; an empty text counts as none.
pub open spec fn endpoint_parse(ep: Option<Seq<char>>) -> Result<Option<SocketEndpoint>, Seq<char>> {
    match ep {
        Some(e) => if e.len() > 0 {
            match socket_addr_parse(e) {
                Some(a) => Ok(Some(a)),
                None => Err("invalid peer endpoint"@),
            }
        } else {
            Ok(None)
        },
        None => Ok(None),
    }
}

/// The peer that a peer request describes: its key, endpoint and allowed
/// ranges, or the message of the first refusal, checked in that order:
/// key, ranges, at least one range, endpoint.
pub open spec fn peer_parse(
    public_key: Seq<char>,
    endpoint: Option<Seq<char>>,
    allowed: Seq<Seq<char>>,
) -> Result<(Seq<u8>, Option<SocketEndpoint>, Seq<AllowedIp>), Seq<char>> {
    match key_parse(public_key, "invalid public key"@, "public key must be 32 bytes"@) {
        Err(m) => Err(m),
        Ok(k) => match allowed_ips_parse(allowed) {
            Err(m) => Err(m),
            Ok(ips) => if ips.len() == 0 {
                Err("peer allowed_ips cannot be empty"@)
            } else {
                match endpoint_parse(endpoint) {
                    Err(m) => Err(m),
                    Ok(e) => Ok((k, e, ips)),
                }
            },
        },
    }
}

/// The text of an optional string.
pub open spec fn opt_view(o: Option<String>) -> Option<Seq<char>> {
    match o {
        Some(s) => Some(s@),
        None => None,
    }
}

/// The character sequences of a list of strings.
pub open spec fn texts(v: Seq<String>) -> Seq<Seq<char>> {
    v.map_values(|s: String| s@)
}

proof fn lemma_allowed_prefix(list: Seq<Seq<char>>, i: int)
    requires
        0 <= i < list.len(),
        allowed_ips_parse(list.take(i)) is Ok,
    ensures
        allowed_ips_parse(list.take(i + 1)) == match allowed_ip_parse(list[i]) {
            Ok(a) => Ok(allowed_ips_parse(list.take(i))->Ok_0.push(a)),
            Err(m) => Err::<Seq<AllowedIp>, Seq<char>>(m),
        },
    decreases i,
{
    let t = list.take(i + 1);
    if i == 0 {
        assert(t.drop_first() =~= Seq::<Seq<char>>::empty());
        assert(t[0] == list[0]);
        match allowed_ip_parse(list[0]) {
            Ok(a) => {
                assert(seq![a] + Seq::<AllowedIp>::empty() =~= Seq::<AllowedIp>::empty().push(a));
            },
            Err(m) => {},
        }
    } else {
        let tail = list.drop_first();
        assert(t.drop_first() =~= tail.take(i));
        assert(list.take(i).drop_first() =~= tail.take(i - 1));
        assert(t[0] == list[0]);
        assert(list.take(i)[0] == list[0]);
        assert(tail[i - 1] == list[i]);
        lemma_allowed_prefix(tail, i - 1);
        match allowed_ip_parse(list[0]) {
            Ok(a0) => {
                let prev = allowed_ips_parse(tail.take(i - 1))->Ok_0;
                match allowed_ip_parse(list[i]) {
                    Ok(a) => {
                        assert(seq![a0] + prev.push(a) =~= (seq![a0] + prev).push(a));
                    },
                    Err(m) => {},
                }
            },
            Err(m) => {},
        }
    }
}

impl PeerRequest {
    /// The peer that the request describes, or a bad-request error naming
    /// what was wrong.
    pub fn to_peer(&self) -> (r: Result<Peer, AgentError>)
        ensures
            match peer_parse(self.public_key@, opt_view(self.endpoint), texts(self.allowed_ips@)) {
                Ok(p) => r matches Ok(peer) && peer.public_key@ == p.0 && peer.endpoint == p.1
                    && peer.allowed_ips@ == p.2 && peer.persistent_keepalive_secs
                    == self.persistent_keepalive_secs,
                Err(m) => r matches Err(e) && is_bad_request(e, m),
            },
    {
        let public_key = decode_key(self.public_key.as_str())?;
        let ghost list = texts(self.allowed_ips@);
        let mut allowed: Vec<AllowedIp> = Vec::new();
        let mut i: usize = 0;
        assert(list.take(0) =~= Seq::<Seq<char>>::empty());
        while i < self.allowed_ips.len()
            invariant
                i <= self.allowed_ips.len(),
                list == texts(self.allowed_ips@),
                key_parse(self.public_key@, "invalid public key"@, "public key must be 32 bytes"@) == Ok::<Seq<u8>, Seq<char>>(public_key@),
                allowed_ips_parse(list.take(i as int)) == Ok::<Seq<AllowedIp>, Seq<char>>(allowed@),
            decreases self.allowed_ips.len() - i,
        {
            proof {
                lemma_allowed_prefix(list, i as int);
            }
            assert(list[i as int] == self.allowed_ips@[i as int]@);
            let a = parse_allowed_ip(self.allowed_ips[i].as_str());
            match a {
                Ok(a) => {
                    allowed.push(a);
                    i = i + 1;
                },
                Err(e) => {
                    proof {
                        lemma_allowed_error_stays(list, (i + 1) as int);
                        assert(allowed_ips_parse(list) is Err);
                        assert(is_bad_request(e, allowed_ips_parse(list)->Err_0));
                    }
                    return Err(e);
                },
            }
        }
        assert(list.take(i as int) =~= list);
        if allowed.len() == 0 {
            return Err(bad_request_of("peer allowed_ips cannot be empty"));
        }
        let endpoint = match &self.endpoint {
            Some(ep) => {
                if ep.as_str().unicode_len() > 0 {
                    match parse_socket_addr(ep.as_str()) {
                        Some(a) => Some(a),
                        None => return Err(bad_request_of("invalid peer endpoint")),
                    }
                } else {
                    None
                }
            },
            None => None,
        };
        Ok(Peer {
            public_key,
            endpoint,
            allowed_ips: allowed,
            persistent_keepalive_secs: self.persistent_keepalive_secs,
        })
    }
}

proof fn lemma_allowed_error_stays(list: Seq<Seq<char>>, i: int)
    requires
        0 < i <= list.len(),
        allowed_ips_parse(list.take(i)) is Err,
    ensures
        allowed_ips_parse(list) == allowed_ips_parse(list.take(i)),
    decreases i,
{
    if i < list.len() {
        lemma_allowed_error_extends(list, i);
    } else {
        assert(list.take(i) =~= list);
    }
}

proof fn lemma_allowed_error_extends(list: Seq<Seq<char>>, i: int)
    requires
        0 < i <= list.len(),
        allowed_ips_parse(list.take(i)) is Err,
    ensures
        allowed_ips_parse(list) == allowed_ips_parse(list.take(i)),
    decreases list.len(),
{
    let t = list.take(i);
    if allowed_ip_parse(list[0]) is Err {
        assert(t[0] == list[0]);
    } else {
        assert(t[0] == list[0]);
        let tail = list.drop_first();
        assert(t.drop_first() =~= tail.take(i - 1));
        if i - 1 == 0 {
            assert(tail.take(0) =~= Seq::<Seq<char>>::empty());
        } else {
            lemma_allowed_error_extends(tail, i - 1);
        }
    }
}


/// The optional IPv6 address of a request; an empty text counts as none.
pub open spec fn optional_v6_parse(v6: Option<Seq<char>>) -> Result<Option<(u128, u8)>, Seq<char>> {
    match v6 {
        Some(s) => if s.len() > 0 {
            match ipv6_cidr_parse(s) {
                Ok(a) => Ok(Some(a)),
                Err(m) => Err(m),
            }
        } else {
            Ok(None)
        },
        None => Ok(None),
    }
}

/// What a connect request describes: the private key, the device
/// addresses and the peer, or the message of the first refusal, checked in
/// that order.
pub open spec fn session_parse(req: ConnectRequest) -> Result<
    (Seq<u8>, DeviceAddress, (Seq<u8>, Option<SocketEndpoint>, Seq<AllowedIp>)),
    Seq<char>,
> {
    match key_parse(req.private_key@, "invalid private key"@, "private key must be 32 bytes"@) {
        Err(m) => Err(m),
        Ok(k) => match ipv4_cidr_parse(req.address_v4@) {
            Err(m) => Err(m),
            Ok(v4) => match optional_v6_parse(opt_view(req.address_v6)) {
                Err(m) => Err(m),
                Ok(v6) => match peer_parse(
                    req.peer.public_key@,
                    opt_view(req.peer.endpoint),
                    texts(req.peer.allowed_ips@),
                ) {
                    Err(m) => Err(m),
                    Ok(p) => Ok((k, DeviceAddress { v4: Some(v4), v6: v6 }, p)),
                },
            },
        },
    }
}

/// `cfg` and `pol` are the device configuration and session policy that
/// the request describes, given the parts that `session_parse` read.
pub open spec fn session_described(
    req: ConnectRequest,
    parts: (Seq<u8>, DeviceAddress, (Seq<u8>, Option<SocketEndpoint>, Seq<AllowedIp>)),
    cfg: WgDeviceConfig,
    pol: SessionPolicy,
) -> bool {
    &&& cfg.name@ == req.interface@
    &&& cfg.mtu == req.mtu
    &&& cfg.keypair.private@ == parts.0
    &&& cfg.keypair.public@ == x25519_public_key(parts.0)
    &&& cfg.address == parts.1
    &&& cfg.peers@.len() == 1
    &&& cfg.peers@[0].public_key@ == parts.2.0
    &&& cfg.peers@[0].endpoint == parts.2.1
    &&& cfg.peers@[0].allowed_ips@ == parts.2.2
    &&& cfg.peers@[0].persistent_keepalive_secs == req.peer.persistent_keepalive_secs
    &&& pol.interface@ == req.interface@
    &&& pol.dns_servers == req.dns_servers
    &&& pol.routes_v4 == req.routes_v4
    &&& pol.routes_v6 == req.routes_v6
    &&& pol.kill_switch_allow_v4 == req.kill_switch_allow_v4
    &&& pol.kill_switch_allow_v6 == req.kill_switch_allow_v6
    &&& pol.kill_switch_allow_uids == req.kill_switch_allow_uids
    &&& pol.mtu == req.mtu
}

impl ConnectRequest {
    /// The device configuration and session policy that the request
    /// describes, or a bad-request error naming the first thing wrong.
    pub fn into_session(self) -> (r: Result<(WgDeviceConfig, SessionPolicy), AgentError>)
        ensures
            match session_parse(self) {
                Ok(parts) => r matches Ok((cfg, pol)) && session_described(self, parts, cfg, pol),
                Err(m) => r matches Err(e) && is_bad_request(e, m),
            },
    {
        let keypair = Self::decode_private_key(self.private_key.as_str())?;
        let v4 = Self::parse_ipv4_cidr(self.address_v4.as_str())?;
        let v6 = match &self.address_v6 {
            Some(s) => {
                if s.as_str().unicode_len() > 0 {
                    Some(Self::parse_ipv6_cidr(s.as_str())?)
                } else {
                    None
                }
            },
            None => None,
        };
        let address = DeviceAddress { v4: Some(v4), v6 };
        let peer = self.peer.to_peer()?;
        let mut peers: Vec<Peer> = Vec::new();
        peers.push(peer);
        let config = WgDeviceConfig {
            name: owned(self.interface.as_str()),
            mtu: self.mtu,
            keypair,
            address,
            peers,
        };
        let policy = SessionPolicy {
            interface: self.interface,
            dns_servers: self.dns_servers,
            routes_v4: self.routes_v4,
            routes_v6: self.routes_v6,
            kill_switch_allow_v4: self.kill_switch_allow_v4,
            kill_switch_allow_v6: self.kill_switch_allow_v6,
            kill_switch_allow_uids: self.kill_switch_allow_uids,
            mtu: self.mtu,
        };
        Ok((config, policy))
    }

    /// The key pair whose private key the text holds.
    pub fn decode_private_key(b64: &str) -> (r: Result<KeyPair, AgentError>)
        ensures
            match key_parse(b64@, "invalid private key"@, "private key must be 32 bytes"@) {
                Ok(k) => r matches Ok(kp) && kp.private@ == k && kp.public@ == x25519_public_key(k),
                Err(m) => r matches Err(e) && is_bad_request(e, m),
            },
    {
        let private = decode_key_with(b64, "invalid private key", "private key must be 32 bytes")?;
        let public = x25519_public(private);
        Ok(KeyPair { private, public })
    }

    /// Reads `a.b.c.d/n`.
    pub fn parse_ipv4_cidr(value: &str) -> (r: Result<(u32, u8), AgentError>)
        ensures
            match ipv4_cidr_parse(value@) {
                Ok(a) => r == Ok::<(u32, u8), AgentError>(a),
                Err(m) => r matches Err(e) && is_bad_request(e, m),
            },
    {
        let v = chars_of(value);
        let (addr, prefix) = match split_once_exec(&v, '/') {
            Some(p) => p,
            None => return Err(bad_request_of("invalid IPv4 CIDR")),
        };
        let ip = match parse_ipv4_chars(&addr) {
            Some(ip) => ip,
            None => return Err(bad_request_of("invalid IPv4 address")),
        };
        let cidr = match parse_unsigned_exec(&prefix, 255) {
            Some(c) => c,
            None => return Err(bad_request_of("invalid IPv4 prefix")),
        };
        if cidr > 32 {
            return Err(bad_request_of("IPv4 prefix out of range"));
        }
        Ok((ip, cidr as u8))
    }

    /// Reads an IPv6 address with a prefix length.
    pub fn parse_ipv6_cidr(value: &str) -> (r: Result<(u128, u8), AgentError>)
        ensures
            match ipv6_cidr_parse(value@) {
                Ok(a) => r == Ok::<(u128, u8), AgentError>(a),
                Err(m) => r matches Err(e) && is_bad_request(e, m),
            },
    {
        let v = chars_of(value);
        let (addr, prefix) = match split_once_exec(&v, '/') {
            Some(p) => p,
            None => return Err(bad_request_of("invalid IPv6 CIDR")),
        };
        let ip = match parse_ipv6_chars(&addr) {
            Some(ip) => ip,
            None => return Err(bad_request_of("invalid IPv6 address")),
        };
        let cidr = match parse_unsigned_exec(&prefix, 255) {
            Some(c) => c,
            None => return Err(bad_request_of("invalid IPv6 prefix")),
        };
        if cidr > 128 {
            return Err(bad_request_of("IPv6 prefix out of range"));
        }
        Ok((ip, cidr as u8))
    }
}


proof fn lemma_cidr_split(addr: Seq<char>, p: u8)
    requires
        forall|i: int| 0 <= i < addr.len() ==> addr[i] != '/',
    ensures
        split_once(addr + "/"@ + decimal(p as nat), '/') == Some((addr, decimal(p as nat))),
        parse_unsigned(decimal(p as nat), 255) == Some(p as nat),
{
    reveal_strlit("/");
    let d = decimal(p as nat);
    lemma_decimal_digits(p as nat);
    let t = addr + "/"@ + d;
    assert(t =~= addr + seq!['/'] + d);
    assert(is_first_index(t, '/', addr.len() as int)) by {
        assert forall|j: int| 0 <= j < addr.len() implies t[j] != '/' by {
            assert(t[j] == addr[j]);
        }
    }
    lemma_find_char_is(t, '/', addr.len() as int);
    assert(t.take(addr.len() as int) =~= addr);
    assert(t.skip(addr.len() as int + 1) =~= d);
}

proof fn lemma_v4_cidr_parts(a: u32, p: u8)
    ensures
        split_once(cidr_text(IpAddress::V4(a), p), '/') == Some((ipv4_text(a), decimal(p as nat))),
        parse_unsigned(decimal(p as nat), 255) == Some(p as nat),
        ipv4_parse(ipv4_text(a)) == Some(a),
{
    lemma_ipv4_text_chars(a);
    assert forall|i: int| 0 <= i < ipv4_text(a).len() implies ipv4_text(a)[i] != '/' by {
        assert(is_digit(ipv4_text(a)[i]) || ipv4_text(a)[i] == '.');
    }
    lemma_cidr_split(ipv4_text(a), p);
    law_ipv4_text_parses_back(a);
}

proof fn lemma_v6_cidr_parts(a: u128, p: u8)
    ensures
        split_once(cidr_text(IpAddress::V6(a), p), '/') == Some((ipv6_text(a), decimal(p as nat))),
        parse_unsigned(decimal(p as nat), 255) == Some(p as nat),
        ipv4_parse(ipv6_text(a)) is None,
        ipv6_parse(ipv6_text(a)) == Some(a),
{
    lemma_ipv6_text_chars(a);
    assert forall|i: int| 0 <= i < ipv6_text(a).len() implies ipv6_text(a)[i] != '/' by {
        assert(crate::ipv6::is_address_char(ipv6_text(a)[i]));
    }
    lemma_cidr_split(ipv6_text(a), p);
    law_ipv6_text_parses_back(a);
    if is_ipv4_mapped(a) {
        lemma_not_ipv4_start(ipv6_text(a));
    } else {
        lemma_no_dot_not_ipv4(ipv6_text(a));
    }
}

/// An interface address's text reads back as the same address and prefix
/// (IPv4 prefixes up to 32).
pub proof fn law_ipv4_cidr_text_parses_back(a: u32, p: u8)
    requires
        p <= 32,
    ensures
        ipv4_cidr_parse(cidr_text(IpAddress::V4(a), p)) == Ok::<(u32, u8), Seq<char>>((a, p)),
{
    lemma_v4_cidr_parts(a, p);
}

/// An interface address's text reads back as the same address and prefix
/// (IPv6 prefixes up to 128).
pub proof fn law_ipv6_cidr_text_parses_back(a: u128, p: u8)
    requires
        p <= 128,
    ensures
        ipv6_cidr_parse(cidr_text(IpAddress::V6(a), p)) == Ok::<(u128, u8), Seq<char>>((a, p)),
{
    lemma_v6_cidr_parts(a, p);
}

/// An allowed range's text, as `wg` is given it, reads back as the same
/// range (IPv4 prefixes up to 32, IPv6 prefixes up to 128).
pub proof fn law_allowed_ip_text_parses_back(ip: AllowedIp)
    requires
        match ip {
            AllowedIp::V4 { cidr, .. } => cidr <= 32,
            AllowedIp::V6 { cidr, .. } => cidr <= 128,
        },
    ensures
        allowed_ip_parse(allowed_ip_text(ip)) == Ok::<AllowedIp, Seq<char>>(ip),
{
    match ip {
        AllowedIp::V4 { addr, cidr } => lemma_v4_cidr_parts(addr, cidr),
        AllowedIp::V6 { addr, cidr } => lemma_v6_cidr_parts(addr, cidr),
    }
}
} // verus!
