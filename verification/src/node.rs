//! The node agent: its configuration, the peer directives it receives, the
//! WireGuard commands that apply them, region lookup, the directory
//! payloads, server keys and the admission rule.

use std::sync::Arc;

use vstd::prelude::*;
use vstd::string::StringSliceAdditionalSpecFns;
use vstd::utf8::{decode_utf8, valid_utf8};

use crate::codec::{base64_decode, base64_standard_decoded, x25519_public, x25519_public_key};
use crate::command::{push_arg, push_string_arg, string_views, CommandExecutor, CommandOutput};
use crate::session::key_text;
use crate::text::{
    chars_of, concat2, concat3, contains, contains_exec, decimal, decimal_exec, eq_ignore_ascii_case,
    eq_ignore_ascii_case_exec, eq_str, find_char, join, join_strings, lines, lines_exec, owned,
    parse_unsigned, parse_unsigned_exec, split_char, split_char_exec, split_once, split_once_exec,
    string_of, to_lowercase, to_uppercase, trim, trim_exec, unicode_lowercase, unicode_uppercase,
    views,
};

verus! {

/// An error of the node agent, with its message.
#[derive(Debug)]
pub struct NodeError {
    pub message: String,
}

/// `e` carries message `m`.
pub open spec fn is_node_error(e: NodeError, m: Seq<char>) -> bool {
    e.message@ == m
}

fn node_error(m: &str) -> (e: NodeError)
    ensures
        e.message@ == m@,
{
    NodeError { message: owned(m) }
}

/// The environment variables the agent reads, each as the process found
/// it (`None` when unset or not Unicode).
#[derive(Debug, Clone, Default)]
pub struct AgentEnv {
    pub directory_grpc_addr: Option<String>,
    pub directory_http_addr: Option<String>,
    pub wg_interface: Option<String>,
    pub wg_address: Option<String>,
    pub wg_listen_port: Option<String>,
    pub public_endpoint: Option<String>,
    pub node_region_id: Option<String>,
    pub node_region_code: Option<String>,
    pub node_region_city: Option<String>,
    pub node_egress_ips: Option<String>,
}

/// The node agent's settings.
#[derive(Debug, Clone)]
pub struct AgentConfig {
    pub grpc_addr: String,
    pub http_addr: String,
    pub wg_interface: String,
    pub wg_address: String,
    pub listen_port: u16,
    pub public_endpoint: String,
    pub region_id: Option<String>,
    pub region_code: Option<String>,
    pub region_city: Option<String>,
    pub egress_ips: Vec<String>,
}

/// A variable's text, or the default when it is unset.
pub open spec fn or_default(v: Option<String>, d: Seq<char>) -> Seq<char> {
    match v {
        Some(s) => s@,
        None => d,
    }
}

/// The text of an optional string.
pub open spec fn opt_text(v: Option<String>) -> Option<Seq<char>> {
    match v {
        Some(s) => Some(s@),
        None => None,
    }
}

/// The non-empty trimmed pieces, in order.
pub open spec fn nonempty_trimmed(ps: Seq<Seq<char>>) -> Seq<Seq<char>>
    decreases ps.len(),
{
    if ps.len() == 0 {
        seq![]
    } else {
        nonempty_trimmed(ps.drop_last()) + if trim(ps.last()).len() > 0 {
            seq![trim(ps.last())]
        } else {
            seq![]
        }
    }
}

/// The listen port: the variable when it parses as a `u16`, else 51820.
pub open spec fn listen_port_of(v: Option<String>) -> u16 {
    match v {
        Some(s) => match parse_unsigned(s@, 65535) {
            Some(n) => n as u16,
            None => 51820,
        },
        None => 51820,
    }
}

/// The egress addresses: the comma-separated list, trimmed, empty entries
/// dropped.
pub open spec fn egress_ips_of(v: Option<String>) -> Seq<Seq<char>> {
    nonempty_trimmed(split_char(or_default(v, seq![]), ','))
}

/// Why a configuration is refused, if it is: the public endpoint is
/// required, and a region must be given by id or by code and city.
pub open spec fn agent_config_refusal(env: AgentEnv) -> Option<Seq<char>> {
    if env.public_endpoint is None {
        Some("PUBLIC_ENDPOINT env var is required for node-agent"@)
    } else if env.node_region_id is None && (env.node_region_code is None || env.node_region_city is None) {
        Some(
            "set NODE_REGION_ID or both NODE_REGION_CODE and NODE_REGION_CITY so the node can register"@,
        )
    } else {
        None
    }
}

/// `c` is the configuration that `env` describes.
pub open spec fn agent_config_matches(c: AgentConfig, env: AgentEnv) -> bool {
    &&& c.grpc_addr@ == or_default(env.directory_grpc_addr, "http://127.0.0.1:50051"@)
    &&& c.http_addr@ == or_default(env.directory_http_addr, "http://127.0.0.1:8081"@)
    &&& c.wg_interface@ == or_default(env.wg_interface, "wg0"@)
    &&& c.wg_address@ == or_default(env.wg_address, "10.66.0.1/24"@)
    &&& c.listen_port == listen_port_of(env.wg_listen_port)
    &&& Some(c.public_endpoint@) == opt_text(env.public_endpoint)
    &&& opt_text(c.region_id) == opt_text(env.node_region_id)
    &&& opt_text(c.region_code) == opt_text(env.node_region_code)
    &&& opt_text(c.region_city) == opt_text(env.node_region_city)
    &&& string_views(c.egress_ips@) == egress_ips_of(env.node_egress_ips)
}

/// The text before the first `/` (all of it when there is none).
pub open spec fn before_slash(s: Seq<char>) -> Seq<char> {
    match find_char(s, '/') {
        Some(k) => s.take(k),
        None => s,
    }
}

fn or_default_exec(v: &Option<String>, d: &str) -> (r: String)
    ensures
        r@ == or_default(*v, d@),
{
    match v {
        Some(s) => owned(s.as_str()),
        None => owned(d),
    }
}

fn copy_opt(v: &Option<String>) -> (r: Option<String>)
    ensures
        opt_text(r) == opt_text(*v),
{
    match v {
        Some(s) => Some(owned(s.as_str())),
        None => None,
    }
}

/// The non-empty trimmed pieces of `ps`.
pub fn nonempty_trimmed_exec(ps: &Vec<Vec<char>>) -> (r: Vec<String>)
    ensures
        string_views(r@) == nonempty_trimmed(views(ps@)),
{
    let ghost all = views(ps@);
    let mut out: Vec<String> = Vec::new();
    let mut i: usize = 0;
    while i < ps.len()
        invariant
            i <= ps.len(),
            all == views(ps@),
            string_views(out@) == nonempty_trimmed(all.take(i as int)),
        decreases ps.len() - i,
    {
        assert(all[i as int] == ps@[i as int]@);
        let t = trim_exec(&ps[i]);
        if t.len() > 0 {
            push_string_arg(&mut out, string_of(&t));
        }
        i = i + 1;
        assert(all.take(i as int).drop_last() =~= all.take(i - 1));
        assert(string_views(out@) =~= nonempty_trimmed(all.take(i as int)));
    }
    assert(all.take(ps.len() as int) =~= all);
    out
}

impl AgentConfig {
    /// Builds the configuration from the environment's values: defaults
    /// for the directory addresses, the interface and its address, port
    /// 51820 unless the variable parses as a port; the public endpoint is
    /// required, and so is a region (an id, or a code and a city).
    pub fn from_env(env: &AgentEnv) -> (r: Result<AgentConfig, NodeError>)
        ensures
            match agent_config_refusal(*env) {
                Some(m) => r matches Err(e) && is_node_error(e, m),
                None => r matches Ok(c) && agent_config_matches(c, *env),
            },
    {
        let grpc_addr = or_default_exec(&env.directory_grpc_addr, "http://127.0.0.1:50051");
        let http_addr = or_default_exec(&env.directory_http_addr, "http://127.0.0.1:8081");
        let wg_interface = or_default_exec(&env.wg_interface, "wg0");
        let wg_address = or_default_exec(&env.wg_address, "10.66.0.1/24");
        let listen_port: u16 = match &env.wg_listen_port {
            Some(s) => {
                let v = chars_of(s.as_str());
                match parse_unsigned_exec(&v, 65535) {
                    Some(n) => n as u16,
                    None => 51820,
                }
            },
            None => 51820,
        };
        let public_endpoint = match &env.public_endpoint {
            Some(s) => owned(s.as_str()),
            None => return Err(node_error("PUBLIC_ENDPOINT env var is required for node-agent")),
        };
        let region_id = copy_opt(&env.node_region_id);
        let region_code = copy_opt(&env.node_region_code);
        let region_city = copy_opt(&env.node_region_city);
        let egress_text = or_default_exec(&env.node_egress_ips, "");
        let pieces = split_char_exec(&chars_of(egress_text.as_str()), ',');
        let egress_ips = nonempty_trimmed_exec(&pieces);
        proof {
            reveal_strlit("");
            assert(""@ =~= Seq::<char>::empty());
            assert(egress_text@ == or_default(env.node_egress_ips, seq![]));
        }
        assert(listen_port == listen_port_of(env.wg_listen_port));
        assert(string_views(egress_ips@) == egress_ips_of(env.node_egress_ips));
        if region_id.is_none() && (region_code.is_none() || region_city.is_none()) {
            return Err(
                node_error(
                    "set NODE_REGION_ID or both NODE_REGION_CODE and NODE_REGION_CITY so the node can register",
                ),
            );
        }
        Ok(
            AgentConfig {
                grpc_addr,
                http_addr,
                wg_interface,
                wg_address,
                listen_port,
                public_endpoint,
                region_id,
                region_code,
                region_city,
                egress_ips,
            },
        )
    }

    /// The tunnel address without its prefix length: the text of
    /// `wg_address` before the first `/`.
    pub fn wg_internal_ip(&self) -> (r: Result<String, NodeError>)
        ensures
            r matches Ok(s) && s@ == before_slash(self.wg_address@),
    {
        let v = chars_of(self.wg_address.as_str());
        match crate::text::find_char_exec(&v, '/') {
            Some(k) => {
                let s = crate::text::string_of_range(&v, 0, k);
                assert(v@.subrange(0, k as int) =~= v@.take(k as int));
                Ok(s)
            },
            None => Ok(string_of(&v)),
        }
    }
}

/// A peer change that the directory sends.
#[derive(Debug, Clone)]
pub struct PeerDirective {
    pub public_key: String,
    pub allowed_ips: Vec<String>,
    pub persistent_keepalive: Option<u16>,
    pub remove: bool,
}

/// A directive's content: key, allowed ranges, keepalive, removal.
pub open spec fn directive_view(d: PeerDirective) -> (Seq<char>, Seq<Seq<char>>, Option<u16>, bool) {
    (d.public_key@, string_views(d.allowed_ips@), d.persistent_keepalive, d.remove)
}

/// A value of `Remove` that means yes, once lower-cased.
pub open spec fn is_yes(lowered: Seq<char>) -> bool {
    lowered == "true"@ || lowered == "1"@ || lowered == "yes"@
}

/// What one `key = value` setting does to a directive; `key` and
/// `value_lower` are already lower-cased. Unknown keys change nothing, and
/// so does a keepalive that is not a `u16`.
pub open spec fn apply_setting(
    d: (Seq<char>, Seq<Seq<char>>, Option<u16>, bool),
    key: Seq<char>,
    value: Seq<char>,
    value_lower: Seq<char>,
) -> (Seq<char>, Seq<Seq<char>>, Option<u16>, bool) {
    if key == "publickey"@ {
        (value, d.1, d.2, d.3)
    } else if key == "allowedips"@ {
        (d.0, nonempty_trimmed(split_char(value, ',')), d.2, d.3)
    } else if key == "persistentkeepalive"@ {
        match parse_unsigned(value, 65535) {
            Some(n) => (d.0, d.1, Some(n as u16), d.3),
            None => d,
        }
    } else if key == "remove"@ {
        (d.0, d.1, d.2, is_yes(value_lower))
    } else {
        d
    }
}

/// What one line does: blank lines, comments, the `[Peer]` header and
/// lines without `=` change nothing; others are settings whose key is
/// trimmed and lower-cased and whose value is trimmed.
pub open spec fn apply_line(d: (Seq<char>, Seq<Seq<char>>, Option<u16>, bool), line: Seq<char>) -> (
    Seq<char>,
    Seq<Seq<char>>,
    Option<u16>,
    bool,
) {
    let t = trim(line);
    if t.len() == 0 || t[0] == '#' || eq_ignore_ascii_case(t, "[peer]"@) {
        d
    } else {
        match split_once(t, '=') {
            None => d,
            Some(p) => apply_setting(
                d,
                unicode_lowercase(trim(p.0)),
                trim(p.1),
                unicode_lowercase(trim(p.1)),
            ),
        }
    }
}

/// The directive that a sequence of lines describes, from an empty one.
pub open spec fn directive_of(ls: Seq<Seq<char>>) -> (Seq<char>, Seq<Seq<char>>, Option<u16>, bool)
    decreases ls.len(),
{
    if ls.len() == 0 {
        (seq![], seq![], None, false)
    } else {
        apply_line(directive_of(ls.drop_last()), ls.last())
    }
}

/// A `PublicKey` setting keeps its value as written, trimmed but with its
/// case preserved: on any line whose key, trimmed and lower-cased, is
/// `publickey`, the directive's key becomes the trimmed text after the
/// first `=`, and nothing else of the directive changes.
pub proof fn law_public_key_kept_verbatim(d: (Seq<char>, Seq<Seq<char>>, Option<u16>, bool), line: Seq<char>)
    requires
        trim(line).len() > 0,
        trim(line)[0] != '#',
        !eq_ignore_ascii_case(trim(line), "[peer]"@),
        split_once(trim(line), '=') is Some,
        unicode_lowercase(trim(split_once(trim(line), '=').unwrap().0)) == "publickey"@,
    ensures
        apply_line(d, line) == (trim(split_once(trim(line), '=').unwrap().1), d.1, d.2, d.3),
        forall|value: Seq<char>, lowered: Seq<char>|
            #[trigger] apply_setting(d, "publickey"@, value, lowered) == (value, d.1, d.2, d.3),
{
}

/// `s` with each `\r\n` replaced by `\n`.
pub open spec fn crlf_to_lf(s: Seq<char>) -> Seq<char>
    decreases s.len(),
{
    if s.len() == 0 {
        seq![]
    } else if s.len() >= 2 && s[0] == '\r' && s[1] == '\n' {
        seq!['\n'] + crlf_to_lf(s.subrange(2, s.len() as int))
    } else {
        seq![s[0]] + crlf_to_lf(s.drop_first())
    }
}

/// The directive that a peer config payload describes, or why it is
/// refused: the payload must be UTF-8, name a public key, and give
/// allowed ranges unless it removes the peer.
pub open spec fn peer_config_outcome(raw: Seq<u8>) -> Result<(Seq<char>, Seq<Seq<char>>, Option<u16>, bool), Seq<char>> {
    if !valid_utf8(raw) {
        Err("peer config is not valid UTF-8"@)
    } else {
        let d = directive_of(lines(crlf_to_lf(decode_utf8(raw))));
        if d.0.len() == 0 {
            Err("peer config missing PublicKey"@)
        } else if d.1.len() == 0 && !d.3 {
            Err("peer config missing AllowedIPs"@)
        } else {
            Ok(d)
        }
    }
}

/// The text of UTF-8 bytes, if they are UTF-8.
///
/// Trusted: calls `std::str::from_utf8`, which the standard library
/// documents as returning the string whose bytes are the input when the
/// input is valid UTF-8, and an error otherwise.
#[verifier::external_body]
fn utf8_text(raw: &[u8]) -> (r: Option<&str>)
    ensures
        match r {
            Some(s) => valid_utf8(raw@) && s.spec_bytes() == raw@,
            None => !valid_utf8(raw@),
        },
{
    std::str::from_utf8(raw).ok()
}

/// Replaces each `\r\n` with `\n`.
pub fn crlf_to_lf_exec(v: &Vec<char>) -> (r: Vec<char>)
    ensures
        r@ == crlf_to_lf(v@),
{
    let mut out: Vec<char> = Vec::new();
    let mut i: usize = 0;
    assert(v@.skip(0) =~= v@);
    while i < v.len()
        invariant
            i <= v.len(),
            out@ + crlf_to_lf(v@.skip(i as int)) == crlf_to_lf(v@),
        decreases v.len() - i,
    {
        let ghost rest = v@.skip(i as int);
        if i + 1 < v.len() && v[i] == '\r' && v[i + 1] == '\n' {
            out.push('\n');
            assert(rest.subrange(2, rest.len() as int) =~= v@.skip(i + 2));
            assert(crlf_to_lf(rest) == seq!['\n'] + crlf_to_lf(v@.skip(i + 2)));
            i = i + 2;
        } else {
            out.push(v[i]);
            assert(rest.drop_first() =~= v@.skip(i + 1));
            assert(crlf_to_lf(rest) == seq![v@[i as int]] + crlf_to_lf(v@.skip(i + 1)));
            i = i + 1;
        }
        assert(out@ + crlf_to_lf(v@.skip(i as int)) =~= crlf_to_lf(v@));
    }
    assert(v@.skip(i as int).len() == 0);
    assert(out@ + seq![] =~= out@);
    out
}

impl PeerDirective {
    /// An empty directive.
    pub fn new() -> (r: Self)
        ensures
            directive_view(r) == (Seq::<char>::empty(), Seq::<Seq<char>>::empty(), None::<u16>, false),
    {
        let r = PeerDirective { public_key: String::new(), allowed_ips: Vec::new(), persistent_keepalive: None, remove: false };
        assert(string_views(r.allowed_ips@) =~= Seq::<Seq<char>>::empty());
        r
    }

    /// Applies one `key = value` setting whose key and value have been
    /// lower-cased already (`key`, `value_lower`).
    pub fn apply_setting(&mut self, key: &str, value: &str, value_lower: &str)
        ensures
            directive_view(*final(self)) == apply_setting(directive_view(*old(self)), key@, value@, value_lower@),
    {
        let k = chars_of(key);
        if eq_str(&k, "publickey") {
            self.public_key = owned(value);
        } else if eq_str(&k, "allowedips") {
            let pieces = split_char_exec(&chars_of(value), ',');
            self.allowed_ips = nonempty_trimmed_exec(&pieces);
        } else if eq_str(&k, "persistentkeepalive") {
            match parse_unsigned_exec(&chars_of(value), 65535) {
                Some(n) => {
                    self.persistent_keepalive = Some(n as u16);
                },
                None => {},
            }
        } else if eq_str(&k, "remove") {
            let l = chars_of(value_lower);
            self.remove = eq_str(&l, "true") || eq_str(&l, "1") || eq_str(&l, "yes");
        }
    }

    fn apply_line(&mut self, line: &Vec<char>)
        ensures
            directive_view(*final(self)) == apply_line(directive_view(*old(self)), line@),
    {
        let t = trim_exec(line);
        let header = chars_of("[peer]");
        if t.len() == 0 || t[0] == '#' || eq_ignore_ascii_case_exec(&t, &header) {
            return;
        }
        match split_once_exec(&t, '=') {
            None => {},
            Some((k, v)) => {
                let key_text = string_of(&trim_exec(&k));
                let value_text = string_of(&trim_exec(&v));
                let key = to_lowercase(key_text.as_str());
                let value_lower = to_lowercase(value_text.as_str());
                self.apply_setting(key.as_str(), value_text.as_str(), value_lower.as_str());
            },
        }
    }
}

/// Parses a peer config payload (`[Peer]` section lines of `Key = Value`).
pub fn parse_peer_config(raw: &[u8]) -> (r: Result<PeerDirective, NodeError>)
    ensures
        match peer_config_outcome(raw@) {
            Ok(d) => r matches Ok(p) && directive_view(p) == d,
            Err(m) => r matches Err(e) && is_node_error(e, m),
        },
{
    let text = match utf8_text(raw) {
        Some(t) => t,
        None => return Err(node_error("peer config is not valid UTF-8")),
    };
    proof {
        vstd::utf8::encode_utf8_decode_utf8(text@);
    }
    let v = crlf_to_lf_exec(&chars_of(text));
    let ls = lines_exec(&v);
    let ghost all = views(ls@);
    let mut directive = PeerDirective::new();
    let mut i: usize = 0;
    while i < ls.len()
        invariant
            i <= ls.len(),
            all == views(ls@),
            directive_view(directive) == directive_of(all.take(i as int)),
        decreases ls.len() - i,
    {
        assert(all[i as int] == ls@[i as int]@);
        directive.apply_line(&ls[i]);
        i = i + 1;
        assert(all.take(i as int).drop_last() =~= all.take(i - 1));
    }
    assert(all.take(ls.len() as int) =~= all);
    if directive.public_key.unicode_len() == 0 {
        return Err(node_error("peer config missing PublicKey"));
    }
    if directive.allowed_ips.len() == 0 && !directive.remove {
        return Err(node_error("peer config missing AllowedIPs"));
    }
    Ok(directive)
}


/// The result of a node command: the executor's failure becomes "failed to
/// spawn <context>", a non-zero exit "command <context> failed: <stderr>"
/// with the standard error trimmed.
pub open spec fn node_command_outcome(out: Result<CommandOutput, crate::error::CoreError>, context: Seq<char>) -> Result<
    (),
    Seq<char>,
> {
    match out {
        Err(_) => Err("failed to spawn "@ + context),
        Ok(o) => if o.status != 0 {
            Err("command "@ + context + " failed: "@ + trim(o.stderr@))
        } else {
            Ok(())
        },
    }
}

/// Reads the result of a node command.
pub fn node_command_result(out: Result<CommandOutput, crate::error::CoreError>, context: &str) -> (r: Result<(), NodeError>)
    ensures
        match node_command_outcome(out, context@) {
            Ok(()) => r is Ok,
            Err(m) => r matches Err(e) && is_node_error(e, m),
        },
{
    match out {
        Err(_) => Err(NodeError { message: concat2("failed to spawn ", context) }),
        Ok(o) => {
            if o.status != 0 {
                let t = string_of(&trim_exec(&chars_of(o.stderr.as_str())));
                let mut m = concat3("command ", context, " failed: ");
                m.append(t.as_str());
                Err(NodeError { message: m })
            } else {
                Ok(())
            }
        },
    }
}

/// An interface that already exists is fine: the failure's message,
/// lower-cased, mentions `exist`.
pub open spec fn tolerated_by_ensure(lowered_message: Seq<char>) -> bool {
    contains(lowered_message, "exist"@)
}

/// `wg set <iface> peer <key>` and then `remove`, or the allowed ranges
/// (when there are any) and the keepalive (when set).
pub open spec fn directive_args(iface: Seq<char>, d: PeerDirective) -> Seq<Seq<char>> {
    seq!["set"@, iface, "peer"@, d.public_key@] + if d.remove {
        seq!["remove"@]
    } else {
        (if d.allowed_ips@.len() > 0 {
            seq!["allowed-ips"@, join(string_views(d.allowed_ips@), ","@)]
        } else {
            seq![]
        }) + match d.persistent_keepalive {
            Some(k) => seq!["persistent-keepalive"@, decimal(k as nat)],
            None => seq![],
        }
    }
}

/// The arguments that apply a directive to an interface.
pub fn directive_cmd(iface: &str, d: &PeerDirective) -> (r: Vec<String>)
    ensures
        string_views(r@) == directive_args(iface@, *d),
{
    let mut args: Vec<String> = Vec::new();
    push_arg(&mut args, "set");
    push_arg(&mut args, iface);
    push_arg(&mut args, "peer");
    push_arg(&mut args, d.public_key.as_str());
    let ghost base = string_views(args@);
    if d.remove {
        push_arg(&mut args, "remove");
        assert(string_views(args@) =~= directive_args(iface@, *d));
        return args;
    }
    if d.allowed_ips.len() > 0 {
        push_arg(&mut args, "allowed-ips");
        assert(d.allowed_ips@.map_values(|s: String| s@) =~= string_views(d.allowed_ips@));
        push_string_arg(&mut args, join_strings(&d.allowed_ips, ","));
    }
    let ghost mid = string_views(args@);
    match d.persistent_keepalive {
        Some(k) => {
            push_arg(&mut args, "persistent-keepalive");
            push_string_arg(&mut args, decimal_exec(k as u64));
        },
        None => {},
    }
    proof {
        let dd = *d;
        let s1 = seq!["set"@, iface@, "peer"@, dd.public_key@];
        assert(base =~= s1);
        let s2 = s1 + (if dd.allowed_ips@.len() > 0 {
            seq!["allowed-ips"@, join(string_views(dd.allowed_ips@), ","@)]
        } else {
            seq![]
        });
        assert(mid =~= s2);
        assert(string_views(args@) =~= directive_args(iface@, dd));
    }
    args
}

/// `ip link add <iface> type wireguard`
pub open spec fn node_link_add_args(iface: Seq<char>) -> Seq<Seq<char>> {
    seq!["link"@, "add"@, iface, "type"@, "wireguard"@]
}

/// `ip address flush dev <iface>`
pub open spec fn node_flush_args(iface: Seq<char>) -> Seq<Seq<char>> {
    seq!["address"@, "flush"@, "dev"@, iface]
}

/// `ip address add <address> dev <iface>`
pub open spec fn node_address_add_args(address: Seq<char>, iface: Seq<char>) -> Seq<Seq<char>> {
    seq!["address"@, "add"@, address, "dev"@, iface]
}

/// `ip link set dev <iface> up`
pub open spec fn node_link_up_args(iface: Seq<char>) -> Seq<Seq<char>> {
    seq!["link"@, "set"@, "dev"@, iface, "up"@]
}

/// `wg set <iface> listen-port <port> private-key <path>`
pub open spec fn node_base_args(iface: Seq<char>, port: u16, key_path: Seq<char>) -> Seq<Seq<char>> {
    seq!["set"@, iface, "listen-port"@, decimal(port as nat), "private-key"@, key_path]
}

/// The message-level view of a node result.
pub open spec fn node_outcome_of(r: Result<(), NodeError>) -> Result<(), Seq<char>> {
    match r {
        Ok(_) => Ok(()),
        Err(e) => Err(e.message@),
    }
}

/// `r` is a possible outcome of running one node command on `e`, read as
/// `node_command_outcome` says; `then` stands for what follows a success.
pub open spec fn node_step<E: CommandExecutor>(
    e: &E,
    program: Seq<char>,
    args: Seq<Seq<char>>,
    context: Seq<char>,
    r: Result<(), Seq<char>>,
    then: bool,
) -> bool {
    exists|a: Result<CommandOutput, crate::error::CoreError>|
        #[trigger] e.answers(program, args, seq![], a) && match node_command_outcome(a, context) {
            Err(m) => r == Err::<(), Seq<char>>(m),
            Ok(_) => then,
        }
}

/// `r` is a possible outcome of configuring the address on `e`: flush the
/// interface's addresses, add its address, bring it up.
pub open spec fn node_address_configured<E: CommandExecutor>(
    e: &E,
    iface: Seq<char>,
    address: Seq<char>,
    r: Result<(), Seq<char>>,
) -> bool {
    node_step(
        e,
        "ip"@,
        node_flush_args(iface),
        "ip address flush"@,
        r,
        node_step(
            e,
            "ip"@,
            node_address_add_args(address, iface),
            "ip address add"@,
            r,
            node_step(e, "ip"@, node_link_up_args(iface), "ip link set up"@, r, r is Ok),
        ),
    )
}

/// `r` is a possible outcome of getting the device ready on `e`: create
/// the interface (a failure whose lower-cased message mentions `exist` is
/// fine), configure its address, then its listen port and key file.
pub open spec fn node_device_ready<E: CommandExecutor>(
    e: &E,
    iface: Seq<char>,
    address: Seq<char>,
    port: u16,
    key_path: Seq<char>,
    r: Result<(), Seq<char>>,
) -> bool {
    exists|a: Result<CommandOutput, crate::error::CoreError>|
        #[trigger] e.answers("ip"@, node_link_add_args(iface), seq![], a) && match node_command_outcome(
            a,
            "ip link add"@,
        ) {
            Err(m) if !tolerated_by_ensure(unicode_lowercase(m)) => r == Err::<(), Seq<char>>(m),
            _ => exists|ra: Result<(), Seq<char>>|
                #[trigger] node_address_configured(e, iface, address, ra) && match ra {
                    Err(m) => r == Err::<(), Seq<char>>(m),
                    Ok(_) => node_step(e, "wg"@, node_base_args(iface, port, key_path), "wg set base"@, r, r is Ok),
                },
        }
}

/// The server's WireGuard interface, configured with `ip` and `wg`.
pub struct WireguardDevice<E: CommandExecutor> {
    runner: Arc<E>,
    iface: String,
    address: String,
    listen_port: u16,
    private_key_path: String,
}

impl<E: CommandExecutor> WireguardDevice<E> {
    pub fn new(executor: Arc<E>, iface: String, address: String, listen_port: u16, private_key_path: String) -> (r:
        Self)
        ensures
            r.executor() == *executor,
            r.iface_name() == iface@,
            r.address_of() == address@,
            r.listen_port_of() == listen_port,
            r.key_path_of() == private_key_path@,
    {
        WireguardDevice { runner: executor, iface, address, listen_port, private_key_path }
    }

    /// The executor that runs the commands.
    pub closed spec fn executor(&self) -> E {
        *self.runner
    }

    /// The interface name.
    pub closed spec fn iface_name(&self) -> Seq<char> {
        self.iface@
    }

    /// The interface's address.
    pub closed spec fn address_of(&self) -> Seq<char> {
        self.address@
    }

    /// The listen port.
    pub closed spec fn listen_port_of(&self) -> u16 {
        self.listen_port
    }

    /// The private key file's path.
    pub closed spec fn key_path_of(&self) -> Seq<char> {
        self.private_key_path@
    }

    fn run_command(&self, program: &str, args: &Vec<String>, context: &str) -> (r: Result<(), NodeError>)
        ensures
            exists|a: Result<CommandOutput, crate::error::CoreError>|
                #[trigger] self.executor().answers(program@, string_views(args@), seq![], a)
                    && node_outcome_of(r) == node_command_outcome(a, context@),
    {
        let out = self.runner.run(program, args);
        let ghost ga = out;
        let r = node_command_result(out, context);
        assert(self.executor().answers(program@, string_views(args@), seq![], ga));
        r
    }

    /// Creates the interface; one that already exists is fine.
    fn ensure_interface(&self) -> (r: Result<(), NodeError>)
        ensures
            exists|a: Result<CommandOutput, crate::error::CoreError>|
                #[trigger] self.executor().answers("ip"@, node_link_add_args(self.iface@), seq![], a)
                    && match node_command_outcome(a, "ip link add"@) {
                    Err(m) if !tolerated_by_ensure(unicode_lowercase(m)) => node_outcome_of(r) == Err::<
                        (),
                        Seq<char>,
                    >(m),
                    _ => r is Ok,
                },
    {
        let mut args: Vec<String> = Vec::new();
        push_arg(&mut args, "link");
        push_arg(&mut args, "add");
        push_arg(&mut args, self.iface.as_str());
        push_arg(&mut args, "type");
        push_arg(&mut args, "wireguard");
        assert(string_views(args@) =~= node_link_add_args(self.iface@));
        match self.run_command("ip", &args, "ip link add") {
            Ok(()) => Ok(()),
            Err(e) => {
                let lowered = to_lowercase(e.message.as_str());
                if contains_exec(&chars_of(lowered.as_str()), "exist") {
                    Ok(())
                } else {
                    Err(e)
                }
            },
        }
    }

    /// Flushes the interface's addresses, adds its address and brings it
    /// up.
    fn configure_address(&self) -> (r: Result<(), NodeError>)
        ensures
            node_address_configured(&self.executor(), self.iface@, self.address@, node_outcome_of(r)),
    {
        let ghost e = self.executor();
        let mut flush: Vec<String> = Vec::new();
        push_arg(&mut flush, "address");
        push_arg(&mut flush, "flush");
        push_arg(&mut flush, "dev");
        push_arg(&mut flush, self.iface.as_str());
        assert(string_views(flush@) =~= node_flush_args(self.iface@));
        let r1 = self.run_command("ip", &flush, "ip address flush");
        if r1.is_err() {
            return r1;
        }
        let mut add: Vec<String> = Vec::new();
        push_arg(&mut add, "address");
        push_arg(&mut add, "add");
        push_arg(&mut add, self.address.as_str());
        push_arg(&mut add, "dev");
        push_arg(&mut add, self.iface.as_str());
        assert(string_views(add@) =~= node_address_add_args(self.address@, self.iface@));
        let r2 = self.run_command("ip", &add, "ip address add");
        if r2.is_err() {
            return r2;
        }
        let mut up: Vec<String> = Vec::new();
        push_arg(&mut up, "link");
        push_arg(&mut up, "set");
        push_arg(&mut up, "dev");
        push_arg(&mut up, self.iface.as_str());
        push_arg(&mut up, "up");
        assert(string_views(up@) =~= node_link_up_args(self.iface@));
        self.run_command("ip", &up, "ip link set up")
    }

    /// Sets the listen port and the private key file.
    fn configure_base(&self) -> (r: Result<(), NodeError>)
        ensures
            node_step(
                &self.executor(),
                "wg"@,
                node_base_args(self.iface@, self.listen_port, self.private_key_path@),
                "wg set base"@,
                node_outcome_of(r),
                r is Ok,
            ),
    {
        let mut args: Vec<String> = Vec::new();
        push_arg(&mut args, "set");
        push_arg(&mut args, self.iface.as_str());
        push_arg(&mut args, "listen-port");
        push_string_arg(&mut args, decimal_exec(self.listen_port as u64));
        push_arg(&mut args, "private-key");
        push_arg(&mut args, self.private_key_path.as_str());
        assert(string_views(args@) =~= node_base_args(self.iface@, self.listen_port, self.private_key_path@));
        self.run_command("wg", &args, "wg set base")
    }

    /// Creates (or keeps) the interface, sets its address and its base
    /// configuration, stopping at the first failure.
    pub fn ensure_ready(&self) -> (r: Result<(), NodeError>)
        ensures
            node_device_ready(
                &self.executor(),
                self.iface_name(),
                self.address_of(),
                self.listen_port_of(),
                self.key_path_of(),
                node_outcome_of(r),
            ),
    {
        let r1 = self.ensure_interface();
        if r1.is_err() {
            return r1;
        }
        let r2 = self.configure_address();
        if r2.is_err() {
            return r2;
        }
        self.configure_base()
    }

    /// Applies one peer directive: `wg set <iface> peer <key> ...`, read
    /// with the context `wg peer remove` or `wg set peer`.
    pub fn apply_peer(&self, peer: &PeerDirective) -> (r: Result<(), NodeError>)
        ensures
            exists|a: Result<CommandOutput, crate::error::CoreError>|
                #[trigger] self.executor().answers("wg"@, directive_args(self.iface_name(), *peer), seq![], a)
                    && node_outcome_of(r) == node_command_outcome(
                    a,
                    if peer.remove {
                        "wg peer remove"@
                    } else {
                        "wg set peer"@
                    },
                ),
    {
        let args = directive_cmd(self.iface.as_str(), peer);
        assert(string_views(args@) == directive_args(self.iface_name(), *peer));
        let context = if peer.remove {
            "wg peer remove"
        } else {
            "wg set peer"
        };
        assert(context@ == if peer.remove {
            "wg peer remove"@
        } else {
            "wg set peer"@
        });
        self.run_command("wg", &args, context)
    }
}

/// A region that the directory lists.
#[derive(Debug, Clone)]
pub struct RegionRecord {
    pub id: String,
    pub country_code: String,
    pub city: String,
    pub status: String,
}

/// A region matches when its code equals the target up to ASCII case and
/// its lower-cased city equals the target, both trimmed first. The
/// targets are the upper-cased code and the lower-cased city.
pub open spec fn region_matches(r: RegionRecord, target_code: Seq<char>, target_city: Seq<char>) -> bool {
    eq_ignore_ascii_case(trim(r.country_code@), target_code) && unicode_lowercase(trim(r.city@)) == target_city
}

/// The first region that matches, if any.
pub open spec fn first_region_match(regions: Seq<RegionRecord>, target_code: Seq<char>, target_city: Seq<char>) -> Option<int>
    decreases regions.len(),
{
    if regions.len() == 0 {
        None
    } else if region_matches(regions[0], target_code, target_city) {
        Some(0)
    } else {
        match first_region_match(regions.drop_first(), target_code, target_city) {
            Some(i) => Some(i + 1),
            None => None,
        }
    }
}

/// The region found is one whose trimmed code equals the target code up to
/// ASCII case and whose trimmed, lower-cased city equals the target city,
/// and no region listed before it is both; where none is found, no region
/// is both.
pub proof fn law_region_found_matches_code_and_city(regions: Seq<RegionRecord>, code: Seq<char>, city: Seq<char>)
    ensures
        first_region_match(regions, code, city) matches Some(i) ==> {
            &&& 0 <= i < regions.len()
            &&& eq_ignore_ascii_case(trim(regions[i].country_code@), code)
            &&& unicode_lowercase(trim(regions[i].city@)) == city
            &&& forall|j: int|
                0 <= j < i ==> !(eq_ignore_ascii_case(trim(#[trigger] regions[j].country_code@), code)
                    && unicode_lowercase(trim(regions[j].city@)) == city)
        },
        first_region_match(regions, code, city) is None ==> forall|j: int|
            0 <= j < regions.len() ==> !(eq_ignore_ascii_case(trim(#[trigger] regions[j].country_code@), code)
                && unicode_lowercase(trim(regions[j].city@)) == city),
    decreases regions.len(),
{
    if regions.len() > 0 && !region_matches(regions[0], code, city) {
        law_region_found_matches_code_and_city(regions.drop_first(), code, city);
        assert forall|j: int| 1 <= j < regions.len() implies regions.drop_first()[j - 1] == #[trigger] regions[j] by {}
    }
}

/// The refusal when no region matches.
pub open spec fn region_not_found_message(code: Seq<char>, city: Seq<char>) -> Seq<char> {
    "region "@ + code + " / "@ + city + " not found in directory-api response; create it first via admin API"@
}

proof fn lemma_first_region_match_skip(regions: Seq<RegionRecord>, c: Seq<char>, t: Seq<char>, i: int)
    requires
        0 <= i < regions.len(),
        !region_matches(regions[i], c, t),
    ensures
        first_region_match(regions.skip(i), c, t) == match first_region_match(regions.skip(i + 1), c, t) {
            Some(j) => Some(j + 1),
            None => None::<int>,
        },
{
    assert(regions.skip(i)[0] == regions[i]);
    assert(regions.skip(i).drop_first() =~= regions.skip(i + 1));
}

/// Finds the id of the region with a country code and a city: the first
/// listed region whose trimmed code equals the trimmed, upper-cased code
/// up to ASCII case and whose trimmed, lower-cased city equals the
/// trimmed, lower-cased city.
pub fn resolve_region_id(regions: &Vec<RegionRecord>, code: &str, city: &str) -> (r: Result<String, NodeError>)
    ensures
        match first_region_match(
            regions@,
            unicode_uppercase(trim(code@)),
            unicode_lowercase(trim(city@)),
        ) {
            Some(i) => r matches Ok(id) && id@ == regions@[i].id@,
            None => r matches Err(e) && is_node_error(e, region_not_found_message(code@, city@)),
        },
{
    let target_code = to_uppercase(string_of(&trim_exec(&chars_of(code))).as_str());
    let target_city = to_lowercase(string_of(&trim_exec(&chars_of(city))).as_str());
    let tc = chars_of(target_code.as_str());
    let tcity = chars_of(target_city.as_str());
    let ghost gc = tc@;
    let ghost gt = tcity@;
    let mut i: usize = 0;
    assert(regions@.skip(0) =~= regions@);
    while i < regions.len()
        invariant
            i <= regions.len(),
            tc@ == gc,
            tcity@ == gt,
            gc == unicode_uppercase(trim(code@)),
            gt == unicode_lowercase(trim(city@)),
            first_region_match(regions@, gc, gt) == match first_region_match(regions@.skip(i as int), gc, gt) {
                Some(j) => Some(j + i),
                None => None::<int>,
            },
        decreases regions.len() - i,
    {
        let rc = trim_exec(&chars_of(regions[i].country_code.as_str()));
        let city_lower = to_lowercase(string_of(&trim_exec(&chars_of(regions[i].city.as_str()))).as_str());
        let cl = chars_of(city_lower.as_str());
        if eq_ignore_ascii_case_exec(&rc, &tc) && crate::text::eq_chars(&cl, &tcity) {
            assert(region_matches(regions@[i as int], gc, gt));
            assert(regions@.skip(i as int)[0] == regions@[i as int]);
            assert(first_region_match(regions@.skip(i as int), gc, gt) == Some(0int));
            assert(gc == unicode_uppercase(trim(code@)));
            assert(gt == unicode_lowercase(trim(city@)));
            return Ok(owned(regions[i].id.as_str()));
        }
        proof {
            lemma_first_region_match_skip(regions@, gc, gt, i as int);
        }
        i = i + 1;
    }
    assert(regions@.skip(i as int).len() == 0);
    let mut m = concat3("region ", code, " / ");
    m.append(city);
    m.append(" not found in directory-api response; create it first via admin API");
    Err(NodeError { message: m })
}

/// The heartbeat the node sends.
#[derive(Debug, Clone)]
pub struct NodeHeartbeatRequest {
    pub public_key: String,
    pub status: Option<String>,
    pub agent_version: Option<String>,
    pub wg_rs_version: Option<String>,
}

/// The registration the node sends. The directory also takes a
/// capabilities document, which this node never sends.
#[derive(Debug, Clone)]
pub struct NodeRegisterRequest {
    pub public_key: String,
    pub region_id: Option<String>,
    pub internal_wg_ip: Option<String>,
    pub egress_ips: Option<Vec<String>>,
    pub public_endpoint: Option<String>,
    pub listen_port: Option<u16>,
    pub agent_version: Option<String>,
    pub wg_rs_version: Option<String>,
}

/// The heartbeat of an online node.
pub fn heartbeat_payload(public_key: &str, agent_version: &str) -> (r: NodeHeartbeatRequest)
    ensures
        r.public_key@ == public_key@,
        opt_text(r.status) == Some("online"@),
        opt_text(r.agent_version) == Some(agent_version@),
        opt_text(r.wg_rs_version) == Some("kernel-wgtools"@),
{
    NodeHeartbeatRequest {
        public_key: owned(public_key),
        status: Some(owned("online")),
        agent_version: Some(owned(agent_version)),
        wg_rs_version: Some(owned("kernel-wgtools")),
    }
}

/// The registration of this node: its key, region, tunnel address,
/// egress addresses (left out when there are none), public endpoint and
/// port, and versions.
pub fn register_payload(
    public_key: &str,
    region_id: &str,
    internal_wg_ip: &str,
    config: &AgentConfig,
    agent_version: &str,
) -> (r: NodeRegisterRequest)
    ensures
        r.public_key@ == public_key@,
        opt_text(r.region_id) == Some(region_id@),
        opt_text(r.internal_wg_ip) == Some(internal_wg_ip@),
        match r.egress_ips {
            Some(v) => config.egress_ips@.len() > 0 && string_views(v@) == string_views(config.egress_ips@),
            None => config.egress_ips@.len() == 0,
        },
        opt_text(r.public_endpoint) == Some(config.public_endpoint@),
        r.listen_port == Some(config.listen_port),
        opt_text(r.agent_version) == Some(agent_version@),
        opt_text(r.wg_rs_version) == Some("kernel-wgtools"@),
{
    let egress_ips = if config.egress_ips.len() == 0 {
        None
    } else {
        Some(crate::command::copy_strings(&config.egress_ips))
    };
    NodeRegisterRequest {
        public_key: owned(public_key),
        region_id: Some(owned(region_id)),
        internal_wg_ip: Some(owned(internal_wg_ip)),
        egress_ips,
        public_endpoint: Some(owned(config.public_endpoint.as_str())),
        listen_port: Some(config.listen_port),
        agent_version: Some(owned(agent_version)),
        wg_rs_version: Some(owned("kernel-wgtools")),
    }
}

/// The server's keys as the key file and the directory know them.
#[derive(Debug, Clone)]
pub struct ServerKeys {
    /// The key file's contents: the private key in Base64 and a newline.
    pub private_key_file: String,
    /// The public key in Base64.
    pub public_key_b64: String,
}

/// Keys from a fresh private key: the file holds its Base64 text and a
/// newline, the public key is derived from it. Reading the file back gives
/// the same public key.
pub fn server_keys_from_secret(secret: [u8; 32]) -> (r: ServerKeys)
    ensures
        r.private_key_file@ == key_text(secret@) + "\n"@,
        r.public_key_b64@ == key_text(x25519_public_key(secret@)),
        server_public_key_outcome(r.private_key_file@) == Ok::<Seq<char>, Seq<char>>(r.public_key_b64@),
{
    let private_b64 = crate::session::encode_key(&secret);
    let public = x25519_public(secret);
    let public_b64 = crate::session::encode_key(&public);
    let file = concat2(private_b64.as_str(), "\n");
    proof {
        reveal_strlit("\n");
        assert("\n"@ =~= seq!['\n']);
        assert(secret@.len() == 32);
        assert(file@ =~= private_b64@ + seq!['\n']);
        assert(trim(file@) == private_b64@);
    }
    ServerKeys { private_key_file: file, public_key_b64: public_b64 }
}

/// A fresh random private key.
///
/// Trusted: calls `x25519_dalek::StaticSecret::random_from_rng` with the
/// operating system's generator and returns the key's bytes; nothing is
/// stated of them.
#[verifier::external_body]
fn random_secret() -> [u8; 32] {
    x25519_dalek::StaticSecret::random_from_rng(rand_core::OsRng).to_bytes()
}

/// Generates new server keys from the operating system's random source.
/// Reading the key file back gives the same public key.
pub fn generate_server_keys() -> (r: ServerKeys)
    ensures
        server_public_key_outcome(r.private_key_file@) == Ok::<Seq<char>, Seq<char>>(r.public_key_b64@),
        exists|secret: Seq<u8>|
            secret.len() == 32 && r.private_key_file@ == key_text(secret) + "\n"@ && r.public_key_b64@
                == key_text(x25519_public_key(secret)),
{
    let secret = random_secret();
    let r = server_keys_from_secret(secret);
    assert(secret@.len() == 32);
    r
}

/// The public key that a key file gives, or why it gives none: the
/// trimmed contents must be Base64 of 32 bytes.
pub open spec fn server_public_key_outcome(contents: Seq<char>) -> Result<Seq<char>, Seq<char>> {
    match base64_standard_decoded(trim(contents)) {
        None => Err("invalid base64 private key"@),
        Some(bytes) => if bytes.len() != 32 {
            Err("private key must be 32 bytes"@)
        } else {
            Ok(key_text(x25519_public_key(bytes)))
        },
    }
}

/// Reads the public key from the contents of an existing key file.
pub fn server_public_key_from_file(contents: &str) -> (r: Result<String, NodeError>)
    ensures
        match server_public_key_outcome(contents@) {
            Ok(k) => r matches Ok(s) && s@ == k,
            Err(m) => r matches Err(e) && is_node_error(e, m),
        },
{
    let t = string_of(&trim_exec(&chars_of(contents)));
    let bytes = match base64_decode(t.as_str()) {
        Some(b) => b,
        None => return Err(node_error("invalid base64 private key")),
    };
    if bytes.len() != 32 {
        return Err(node_error("private key must be 32 bytes"));
    }
    let mut secret: [u8; 32] = [0u8; 32];
    let mut i: usize = 0;
    while i < 32
        invariant
            i <= 32,
            bytes@.len() == 32,
            secret@.len() == 32,
            forall|j: int| 0 <= j < i ==> secret@[j] == bytes@[j],
        decreases 32 - i,
    {
        secret[i] = bytes[i];
        i = i + 1;
    }
    assert(secret@ =~= bytes@);
    let public = x25519_public(secret);
    Ok(crate::session::encode_key(&public))
}

/// The redis keys that count a user's and a device's sessions.
pub open spec fn admission_keys(sub: Seq<char>, did: Seq<char>) -> (Seq<char>, Seq<char>) {
    ("active:user:"@ + sub, "active:device:"@ + did)
}

/// The keys of a user's and a device's session sets.
pub fn admission_key_names(sub: &str, did: &str) -> (r: (String, String))
    ensures
        r.0@ == admission_keys(sub@, did@).0,
        r.1@ == admission_keys(sub@, did@).1,
{
    (concat2("active:user:", sub), concat2("active:device:", did))
}

/// A new session is admitted while the user has fewer live sessions than
/// the limit. A count read as negative is taken as the unsigned number
/// with the same bits, which never passes a limit below 2^63.
pub open spec fn admits(user_count: i64, max_active: u64) -> bool {
    (if user_count < 0 {
        user_count + 0x1_0000_0000_0000_0000
    } else {
        user_count as int
    }) < max_active
}

/// Whether a user with `user_count` live sessions may open another.
pub fn admission_allowed(user_count: i64, max_active: u64) -> (r: bool)
    ensures
        r == admits(user_count, max_active),
{
    if user_count < 0 {
        let m: u64 = (-(user_count + 1)) as u64;
        let u: u64 = u64::MAX - m;
        u < max_active
    } else {
        (user_count as u64) < max_active
    }
}

/// The limit is a hard cap: with `max_active` live sessions or more, a
/// user is refused; with fewer, admitted.
pub proof fn law_admission_cap(user_count: i64, max_active: u64)
    requires
        user_count >= 0,
    ensures
        admits(user_count, max_active) <==> user_count < max_active,
{
}

/// The first position whose key id is `kid`.
pub open spec fn key_position(key_ids: Seq<Option<Seq<char>>>, kid: Seq<char>) -> Option<int>
    decreases key_ids.len(),
{
    if key_ids.len() == 0 {
        None
    } else if key_ids.last() == Some(kid) && key_position(key_ids.drop_last(), kid) is None {
        Some(key_ids.len() - 1)
    } else {
        key_position(key_ids.drop_last(), kid)
    }
}

/// A key's position lies inside the key list.
pub proof fn lemma_key_position_bounds(key_ids: Seq<Option<Seq<char>>>, kid: Seq<char>)
    ensures
        key_position(key_ids, kid) matches Some(i) ==> 0 <= i < key_ids.len(),
    decreases key_ids.len(),
{
    if key_ids.len() > 0 {
        lemma_key_position_bounds(key_ids.drop_last(), kid);
    }
}

/// The texts of optional key ids.
pub open spec fn key_id_texts(ids: Seq<Option<String>>) -> Seq<Option<Seq<char>>> {
    ids.map_values(|o: Option<String>| opt_text(o))
}

/// Picks the signing key that a token names: the first key whose id is
/// the token's `kid`.
pub fn select_signing_key(key_ids: &Vec<Option<String>>, kid: &str) -> (r: Option<usize>)
    ensures
        match key_position(key_id_texts(key_ids@), kid@) {
            Some(i) => r == Some(i as usize),
            None => r is None,
        },
{
    let k = chars_of(kid);
    let ghost all = key_id_texts(key_ids@);
    let mut i: usize = 0;
    while i < key_ids.len()
        invariant
            i <= key_ids.len(),
            k@ == kid@,
            all == key_id_texts(key_ids@),
            key_position(all.take(i as int), kid@) is None,
        decreases key_ids.len() - i,
    {
        let hit = match &key_ids[i] {
            Some(id) => eq_str(&k, id.as_str()),
            None => false,
        };
        assert(all.take(i + 1).drop_last() =~= all.take(i as int));
        assert(all[i as int] == opt_text(key_ids@[i as int]));
        if hit {
            proof {
                lemma_key_position_prefix(all, kid@, i as int + 1);
            }
            return Some(i);
        }
        i = i + 1;
    }
    assert(all.take(key_ids.len() as int) =~= all);
    None
}

proof fn lemma_key_position_prefix(ids: Seq<Option<Seq<char>>>, kid: Seq<char>, n: int)
    requires
        0 < n <= ids.len(),
        key_position(ids.take(n), kid) == Some(n - 1),
    ensures
        key_position(ids, kid) == Some(n - 1),
    decreases ids.len() - n,
{
    if n < ids.len() {
        assert(ids.drop_last().take(n) =~= ids.take(n));
        lemma_key_position_prefix(ids.drop_last(), kid, n);
    } else {
        assert(ids.take(n) =~= ids);
    }
}

/// The text of the URL that `url::Url::parse` makes of `text`, or none
/// where it refuses the text.
pub uninterp spec fn url_parsed(text: Seq<char>) -> Option<Seq<char>>;

/// The text of the URL that `url::Url::join` makes of `path` against the
/// URL parsed from `base`, or none where either step refuses.
pub uninterp spec fn url_joined(base: Seq<char>, path: Seq<char>) -> Option<Seq<char>>;

/// Parses a URL and gives its normalised text.
///
/// Trusted: calls `url::Url::parse`, a function of the text alone; its
/// answer is named (`url_parsed`).
#[verifier::external_body]
fn parse_url(text: &str) -> (r: Option<String>)
    ensures
        match r {
            Some(s) => url_parsed(text@) == Some(s@),
            None => url_parsed(text@) is None,
        },
{
    let url = url::Url::parse(text).ok()?;
    Some(url.to_string())
}

/// Resolves `path` against the URL `base`.
///
/// Trusted: calls `url::Url::parse` on `base` and `url::Url::join` on the
/// result, both functions of their arguments alone; the answer is named
/// (`url_joined`).
#[verifier::external_body]
fn join_url(base: &str, path: &str) -> (r: Option<String>)
    ensures
        match r {
            Some(s) => url_joined(base@, path@) == Some(s@),
            None => url_joined(base@, path@) is None,
        },
{
    let url = url::Url::parse(base).ok()?;
    Some(url.join(path).ok()?.to_string())
}

/// The directory service's base address, normalised; an address that is no
/// URL is refused with `invalid DIRECTORY_HTTP_ADDR: <address>`.
pub fn directory_base(base: &str) -> (r: Result<String, NodeError>)
    ensures
        match url_parsed(base@) {
            Some(t) => r matches Ok(s) && s@ == t,
            None => r matches Err(e) && is_node_error(e, "invalid DIRECTORY_HTTP_ADDR: "@ + base@),
        },
{
    match parse_url(base) {
        Some(s) => Ok(s),
        None => Err(NodeError { message: concat2("invalid DIRECTORY_HTTP_ADDR: ", base) }),
    }
}

/// The address of a directory endpoint: `path` resolved against the base
/// address; where that fails, `failed to build directory-api URL for
/// <path>`.
pub fn directory_url(base: &str, path: &str) -> (r: Result<String, NodeError>)
    ensures
        match url_joined(base@, path@) {
            Some(t) => r matches Ok(s) && s@ == t,
            None => r matches Err(e) && is_node_error(e, "failed to build directory-api URL for "@ + path@),
        },
{
    match join_url(base, path) {
        Some(s) => Ok(s),
        None => Err(NodeError { message: concat2("failed to build directory-api URL for ", path) }),
    }
}

} // verus!
