//! The WireGuard session: the policy it applies around the tunnel, the
//! commands that set the tunnel up on Linux, and the manager that starts,
//! updates and stops it.

use std::sync::Arc;

use vstd::prelude::*;

use crate::codec::{base64_encode, base64_standard_decoded, base64_standard_encoded, is_base64_char};
use crate::command::{
    checked_step, lemma_ok_unit, lemma_runs_append, plan_view, push_arg, push_string_arg, run_plan, run_step, runs, share,
    step_view, string_views, CommandExecutor, CommandOutput, PlanStep, Reading, Step,
};
use crate::desktop::{
    dns_revert_steps, dns_set_steps, killswitch_disabled, killswitch_enabled, route_add_steps, route_del_steps,
    DnsOverride, KillSwitch, SplitTunnelRoutes,
};
use crate::error::{is_invalid_input, CoreError};
use crate::text::{
    chars_of, concat2, contains, contains_exec, decimal, decimal_exec, eq_str, is_ws, join, join_strings,
    lemma_trim_no_ws, owned, str_views, trim,
};
use crate::types::Platform;
use crate::wg::{
    allowed_ip_text, cidr_text, cidr_to_string, endpoint_text, endpoint_to_string, AllowedIp,
    IpAddress, KeyPair, Peer, SessionManager, WgDeviceConfig,
};

verus! {

/// What a session applies besides the tunnel: DNS, routes, kill switch and
/// MTU.
#[derive(Debug, Clone, Default)]
pub struct SessionPolicy {
    pub interface: String,
    pub dns_servers: Vec<String>,
    pub routes_v4: Vec<String>,
    pub routes_v6: Vec<String>,
    pub kill_switch_allow_v4: Vec<String>,
    pub kill_switch_allow_v6: Vec<String>,
    pub kill_switch_allow_uids: Vec<u32>,
    pub mtu: Option<u32>,
}

/// The Base64 text by which `wg` names a peer's public key.
pub open spec fn key_text(key: Seq<u8>) -> Seq<char> {
    base64_standard_encoded(key)
}

/// The key texts of peers, in order.
pub open spec fn peer_key_texts(peers: Seq<Peer>) -> Seq<Seq<char>> {
    peers.map_values(|p: Peer| key_text(p.public_key@))
}

/// A peer's allowed ranges as `wg` takes them: comma-separated.
pub open spec fn allowed_ips_text(ips: Seq<AllowedIp>) -> Seq<char> {
    join(ips.map_values(|ip: AllowedIp| allowed_ip_text(ip)), ","@)
}

/// `ip link set dev <iface> up|down`
pub open spec fn ip_link_state_args(iface: Seq<char>, up: bool) -> Seq<Seq<char>> {
    seq!["link"@, "set"@, "dev"@, iface, if up {
        "up"@
    } else {
        "down"@
    }]
}

/// `ip link delete <iface> type wireguard`
pub open spec fn ip_link_delete_args(iface: Seq<char>) -> Seq<Seq<char>> {
    seq!["link"@, "delete"@, iface, "type"@, "wireguard"@]
}

/// `ip link add <iface> type wireguard`
pub open spec fn ip_link_add_args(iface: Seq<char>) -> Seq<Seq<char>> {
    seq!["link"@, "add"@, iface, "type"@, "wireguard"@]
}

/// `ip [-6] address replace <cidr> dev <iface>`
pub open spec fn ip_address_replace_args(v6: bool, cidr: Seq<char>, iface: Seq<char>) -> Seq<Seq<char>> {
    (if v6 {
        seq!["-6"@]
    } else {
        seq![]
    }) + seq!["address"@, "replace"@, cidr, "dev"@, iface]
}

/// `ip link set dev <iface> mtu <mtu>`
pub open spec fn ip_link_mtu_args(iface: Seq<char>, mtu: u32) -> Seq<Seq<char>> {
    seq!["link"@, "set"@, "dev"@, iface, "mtu"@, decimal(mtu as nat)]
}

/// `wg set <iface> private-key <path>`
pub open spec fn wg_private_key_args(iface: Seq<char>, path: Seq<char>) -> Seq<Seq<char>> {
    seq!["set"@, iface, "private-key"@, path]
}

/// `wg set <iface> peer <key> remove`
pub open spec fn wg_remove_peer_args(iface: Seq<char>, key: Seq<char>) -> Seq<Seq<char>> {
    seq!["set"@, iface, "peer"@, key, "remove"@]
}

/// `wg set <iface> peer <key> allowed-ips <ranges> [endpoint <addr>]
/// [persistent-keepalive <secs>]`, or nothing for a peer without ranges.
pub open spec fn wg_set_peer_args(iface: Seq<char>, peer: Peer) -> Option<Seq<Seq<char>>> {
    let allowed = allowed_ips_text(peer.allowed_ips@);
    if allowed.len() == 0 {
        None
    } else {
        Some(
            seq!["set"@, iface, "peer"@, key_text(peer.public_key@), "allowed-ips"@, allowed]
                + match peer.endpoint {
                Some(e) => seq!["endpoint"@, endpoint_text(e)],
                None => seq![],
            } + match peer.persistent_keepalive_secs {
                Some(k) => seq!["persistent-keepalive"@, decimal(k as nat)],
                None => seq![],
            },
        )
    }
}

/// The result of deleting the interface: a missing device is fine.
pub open spec fn teardown_outcome(out: CommandOutput) -> Result<(), CoreError> {
    if out.status != 0 && !contains(out.stderr@, "Cannot find device"@) {
        Err(CoreError::CommandFailed(out.stderr))
    } else {
        Ok(())
    }
}

/// The result of removing a peer: an unknown peer is fine.
pub open spec fn remove_peer_outcome(out: CommandOutput) -> Result<(), CoreError> {
    if out.status != 0 && !contains(out.stderr@, "Unknown peer"@) {
        Err(CoreError::CommandFailed(out.stderr))
    } else {
        Ok(())
    }
}

/// Tearing the interface down: bring it down (whatever that reports), then
/// delete it; a device that does not exist counts as deleted.
pub open spec fn teardown_steps(iface: Seq<char>) -> Seq<Step> {
    seq![
        Step::Run("ip"@, ip_link_state_args(iface, false), Reading::Ignored),
        Step::Run("ip"@, ip_link_delete_args(iface), Reading::Tolerating("Cannot find device")),
    ]
}

/// A checked `ip` command.
pub open spec fn ip_step(args: Seq<Seq<char>>) -> Step {
    checked_step("ip"@, args)
}

/// Creating the interface: add it, assign the IPv4 and IPv6 addresses
/// that the config has, set the MTU when there is one; each checked.
pub open spec fn create_steps(name: Seq<char>, v4: Option<(u32, u8)>, v6: Option<(u128, u8)>, mtu: Option<u32>) -> Seq<
    Step,
> {
    seq![ip_step(ip_link_add_args(name))] + (match v4 {
        Some((a, p)) => seq![ip_step(ip_address_replace_args(false, cidr_text(IpAddress::V4(a), p), name))],
        None => seq![],
    }) + (match v6 {
        Some((a, p)) => seq![ip_step(ip_address_replace_args(true, cidr_text(IpAddress::V6(a), p), name))],
        None => seq![],
    }) + match mtu {
        Some(m) => seq![ip_step(ip_link_mtu_args(name, m))],
        None => seq![],
    }
}

/// Adding one peer: `wg set`, checked; a peer without allowed ranges is
/// refused.
pub open spec fn peer_step(iface: Seq<char>, peer: Peer) -> Step {
    match wg_set_peer_args(iface, peer) {
        Some(a) => checked_step("wg"@, a),
        None => Step::Refuse("peer missing allowed IPs"@),
    }
}

/// Adding the peers, in order.
pub open spec fn peer_steps(iface: Seq<char>, peers: Seq<Peer>) -> Seq<Step> {
    peers.map_values(|p: Peer| peer_step(iface, p))
}

/// Removing the peers with these keys; an unknown peer is fine.
pub open spec fn remove_peer_steps(iface: Seq<char>, keys: Seq<Seq<char>>) -> Seq<Step> {
    keys.map_values(|k: Seq<char>| Step::Run("wg"@, wg_remove_peer_args(iface, k), Reading::Tolerating("Unknown peer")))
}

/// `r` is a possible outcome of configuring the key and peers on `e`: with
/// a key, its text goes to a temporary file that `wg set ... private-key`
/// reads and that is removed afterwards; then the peers are added.
pub open spec fn peers_configured<E: CommandExecutor>(
    e: &E,
    iface: Seq<char>,
    private: Seq<u8>,
    peers: Seq<Peer>,
    r: Result<(), CoreError>,
) -> bool {
    if key_unset(private) {
        runs(e, peer_steps(iface, peers), r)
    } else {
        exists|w: Result<String, CoreError>|
            #[trigger] e.writes_temp(key_text(private), w) && match w {
                Err(x) => r == Err::<(), CoreError>(x),
                Ok(path) => (exists|rm: Result<(), CoreError>| #[trigger] e.removes_temp(path@, rm)) && runs(
                    e,
                    seq![checked_step("wg"@, wg_private_key_args(iface, path@))] + peer_steps(iface, peers),
                    r,
                ),
            }
    }
}

/// The outcome without the value.
pub open spec fn unit_of<T>(r: Result<T, CoreError>) -> Result<(), CoreError> {
    match r {
        Ok(_) => Ok(()),
        Err(x) => Err(x),
    }
}

/// `r` is a possible outcome of setting the interface up for `cfg` on `e`:
/// any earlier one is torn down (whatever that reports), the interface is
/// created, its key and peers configured and it is brought up, stopping at
/// the first failure.
pub open spec fn interface_set_up<E: CommandExecutor>(
    e: &E,
    cfg: WgDeviceConfig,
    mtu: Option<u32>,
    r: Result<(), CoreError>,
) -> bool {
    &&& exists|rt: Result<(), CoreError>| #[trigger] runs(e, teardown_steps(cfg.name@), rt)
    &&& exists|rc: Result<(), CoreError>|
        #[trigger] runs(e, create_steps(cfg.name@, cfg.address.v4, cfg.address.v6, effective_mtu(mtu, cfg.mtu)), rc)
            && match rc {
            Err(x) => r == Err::<(), CoreError>(x),
            Ok(_) => exists|rp: Result<(), CoreError>|
                #[trigger] peers_configured(e, cfg.name@, cfg.keypair.private@, cfg.peers@, rp) && match rp {
                    Err(x) => r == Err::<(), CoreError>(x),
                    Ok(_) => runs(e, seq![ip_step(ip_link_state_args(cfg.name@, true))], r),
                },
        }
}

/// The MTU that the interface gets: the policy's, else the config's.
pub open spec fn effective_mtu(policy_mtu: Option<u32>, cfg_mtu: Option<u32>) -> Option<u32> {
    match policy_mtu {
        Some(m) => Some(m),
        None => cfg_mtu,
    }
}

/// The session policy's MTU wins over the config's: with a policy MTU
/// `m`, creating the interface runs the plan without any MTU and then
/// exactly one `ip link set dev <iface> mtu <m>`, whatever MTU the config
/// asks for. Without a policy MTU, the config's MTU, if it has one, is set.
pub proof fn law_policy_mtu_overrides_config(
    name: Seq<char>,
    v4: Option<(u32, u8)>,
    v6: Option<(u128, u8)>,
    policy_mtu: Option<u32>,
    cfg_mtu: Option<u32>,
)
    ensures
        policy_mtu matches Some(m) ==> create_steps(name, v4, v6, effective_mtu(policy_mtu, cfg_mtu)) == create_steps(
            name,
            v4,
            v6,
            None,
        ).push(checked_step("ip"@, seq!["link"@, "set"@, "dev"@, name, "mtu"@, decimal(m as nat)])),
        policy_mtu is None ==> create_steps(name, v4, v6, effective_mtu(policy_mtu, cfg_mtu)) == match cfg_mtu {
            Some(c) => create_steps(name, v4, v6, None).push(
                checked_step("ip"@, seq!["link"@, "set"@, "dev"@, name, "mtu"@, decimal(c as nat)]),
            ),
            None => create_steps(name, v4, v6, None),
        },
{
    let base = create_steps(name, v4, v6, None);
    if let Some(m) = policy_mtu {
        assert(create_steps(name, v4, v6, Some(m)) =~= base.push(
            checked_step("ip"@, seq!["link"@, "set"@, "dev"@, name, "mtu"@, decimal(m as nat)]),
        ));
    } else if let Some(c) = cfg_mtu {
        assert(create_steps(name, v4, v6, Some(c)) =~= base.push(
            checked_step("ip"@, seq!["link"@, "set"@, "dev"@, name, "mtu"@, decimal(c as nat)]),
        ));
    } else {
        assert(create_steps(name, v4, v6, None) =~= base);
    }
}

/// The private key is all zero bytes, that is, not set.
pub open spec fn key_unset(private: Seq<u8>) -> bool {
    forall|i: int| 0 <= i < private.len() ==> private[i] == 0
}

/// The Base64 text of a 32-byte key; it decodes back to the key, also
/// after trimming.
pub fn encode_key(bytes: &[u8; 32]) -> (r: String)
    ensures
        r@ == key_text(bytes@),
        r@.len() == 44,
        base64_standard_decoded(r@) == Some(bytes@),
        trim(r@) == r@,
        trim(r@ + seq!['\n']) == r@,
{
    let s = bytes.as_slice();
    assert(s@.len() == 32);
    let r = base64_encode(s);
    proof {
        assert forall|i: int| 0 <= i < r@.len() implies !is_ws(#[trigger] r@[i]) by {
            assert(is_base64_char(r@[i]));
        }
        lemma_trim_no_ws(r@);
    }
    r
}

/// The text of one allowed range.
pub fn allowed_ip_to_string(ip: AllowedIp) -> (r: String)
    ensures
        r@ == allowed_ip_text(ip),
{
    match ip {
        AllowedIp::V4 { addr, cidr } => cidr_to_string(IpAddress::V4(addr), cidr),
        AllowedIp::V6 { addr, cidr } => cidr_to_string(IpAddress::V6(addr), cidr),
    }
}

/// The allowed ranges, comma-separated.
pub fn format_allowed_ips(ips: &Vec<AllowedIp>) -> (r: String)
    ensures
        r@ == allowed_ips_text(ips@),
{
    let mut parts: Vec<String> = Vec::new();
    let mut i: usize = 0;
    while i < ips.len()
        invariant
            i <= ips.len(),
            string_views(parts@) == ips@.take(i as int).map_values(|ip: AllowedIp| allowed_ip_text(ip)),
        decreases ips.len() - i,
    {
        push_string_arg(&mut parts, allowed_ip_to_string(ips[i]));
        i = i + 1;
        assert(ips@.take(i as int).map_values(|ip: AllowedIp| allowed_ip_text(ip)) =~= ips@.take(
            i - 1,
        ).map_values(|ip: AllowedIp| allowed_ip_text(ip)).push(allowed_ip_text(ips@[i - 1])));
    }
    assert(ips@.take(ips.len() as int) =~= ips@);
    assert(parts@.map_values(|s: String| s@) =~= string_views(parts@));
    join_strings(&parts, ",")
}

/// The key texts of `peers`.
pub fn peer_keys_of(peers: &Vec<Peer>) -> (r: Vec<String>)
    ensures
        string_views(r@) == peer_key_texts(peers@),
{
    let mut keys: Vec<String> = Vec::new();
    let mut i: usize = 0;
    while i < peers.len()
        invariant
            i <= peers.len(),
            string_views(keys@) == peer_key_texts(peers@.take(i as int)),
        decreases peers.len() - i,
    {
        push_string_arg(&mut keys, encode_key(&peers[i].public_key));
        i = i + 1;
        assert(peer_key_texts(peers@.take(i as int)) =~= peer_key_texts(peers@.take(i - 1)).push(
            key_text(peers@[i - 1].public_key@),
        ));
    }
    assert(peers@.take(peers.len() as int) =~= peers@);
    keys
}

/// The `wg set` arguments for one peer; a peer without allowed ranges is
/// refused with `InvalidInput("peer missing allowed IPs")`.
pub fn set_peer_cmd(iface: &str, peer: &Peer) -> (r: Result<Vec<String>, CoreError>)
    ensures
        match wg_set_peer_args(iface@, *peer) {
            Some(a) => r matches Ok(v) && string_views(v@) == a,
            None => r matches Err(e) && is_invalid_input(e, "peer missing allowed IPs"@),
        },
{
    let key = encode_key(&peer.public_key);
    let allowed = format_allowed_ips(&peer.allowed_ips);
    if allowed.unicode_len() == 0 {
        return Err(CoreError::InvalidInput(owned("peer missing allowed IPs")));
    }
    let mut args: Vec<String> = Vec::new();
    push_arg(&mut args, "set");
    push_arg(&mut args, iface);
    push_arg(&mut args, "peer");
    push_string_arg(&mut args, key);
    push_arg(&mut args, "allowed-ips");
    push_string_arg(&mut args, allowed);
    let ghost base = string_views(args@);
    match peer.endpoint {
        Some(e) => {
            push_arg(&mut args, "endpoint");
            push_string_arg(&mut args, endpoint_to_string(e));
        },
        None => {},
    }
    let ghost mid = string_views(args@);
    match peer.persistent_keepalive_secs {
        Some(k) => {
            push_arg(&mut args, "persistent-keepalive");
            push_string_arg(&mut args, decimal_exec(k as u64));
        },
        None => {},
    }
    proof {
        let p = *peer;
        let s1 = seq!["set"@, iface@, "peer"@, key_text(p.public_key@), "allowed-ips"@, allowed_ips_text(p.allowed_ips@)];
        assert(base =~= s1);
        let s2 = s1 + match p.endpoint {
            Some(e) => seq!["endpoint"@, endpoint_text(e)],
            None => seq![],
        };
        assert(mid =~= s2);
        assert(string_views(args@) =~= wg_set_peer_args(iface@, p).unwrap());
    }
    Ok(args)
}

/// Reads the deletion of the interface: a missing device is fine.
pub fn teardown_result(out: CommandOutput) -> (r: Result<(), CoreError>)
    ensures
        r == teardown_outcome(out),
{
    let e = chars_of(out.stderr.as_str());
    if out.status != 0 && !contains_exec(&e, "Cannot find device") {
        return Err(CoreError::CommandFailed(out.stderr));
    }
    Ok(())
}

/// Reads the removal of a peer: an unknown peer is fine.
pub fn remove_peer_result(out: CommandOutput) -> (r: Result<(), CoreError>)
    ensures
        r == remove_peer_outcome(out),
{
    let e = chars_of(out.stderr.as_str());
    if out.status != 0 && !contains_exec(&e, "Unknown peer") {
        return Err(CoreError::CommandFailed(out.stderr));
    }
    Ok(())
}

fn link_state_cmd(iface: &str, up: bool) -> (r: Vec<String>)
    ensures
        string_views(r@) == ip_link_state_args(iface@, up),
{
    let mut args: Vec<String> = Vec::new();
    push_arg(&mut args, "link");
    push_arg(&mut args, "set");
    push_arg(&mut args, "dev");
    push_arg(&mut args, iface);
    if up {
        push_arg(&mut args, "up");
    } else {
        push_arg(&mut args, "down");
    }
    assert(string_views(args@) =~= ip_link_state_args(iface@, up));
    args
}

fn link_type_cmd(verb: &str, iface: &str) -> (r: Vec<String>)
    ensures
        string_views(r@) == seq!["link"@, verb@, iface@, "type"@, "wireguard"@],
{
    let mut args: Vec<String> = Vec::new();
    push_arg(&mut args, "link");
    push_arg(&mut args, verb);
    push_arg(&mut args, iface);
    push_arg(&mut args, "type");
    push_arg(&mut args, "wireguard");
    assert(string_views(args@) =~= seq!["link"@, verb@, iface@, "type"@, "wireguard"@]);
    args
}

fn address_replace_cmd(v6: bool, cidr: String, iface: &str) -> (r: Vec<String>)
    ensures
        string_views(r@) == ip_address_replace_args(v6, cidr@, iface@),
{
    let mut args: Vec<String> = Vec::new();
    if v6 {
        push_arg(&mut args, "-6");
    }
    let ghost start = string_views(args@);
    push_arg(&mut args, "address");
    push_arg(&mut args, "replace");
    push_string_arg(&mut args, cidr);
    push_arg(&mut args, "dev");
    push_arg(&mut args, iface);
    assert(string_views(args@) =~= ip_address_replace_args(v6, cidr@, iface@));
    args
}

/// Brings the interface down (whatever that reports) and deletes it; a
/// device that does not exist counts as deleted.
pub fn teardown_interface<E: CommandExecutor>(executor: &E, iface: &str) -> (r: Result<(), CoreError>)
    ensures
        runs(executor, teardown_steps(iface@), r),
{
    let mut plan: Vec<PlanStep> = Vec::new();
    plan.push(PlanStep::Run("ip", link_state_cmd(iface, false), Reading::Ignored));
    plan.push(PlanStep::Run("ip", link_type_cmd("delete", iface), Reading::Tolerating("Cannot find device")));
    assert(plan_view(plan@) =~= teardown_steps(iface@));
    run_plan(executor, &plan)
}

/// Creates the WireGuard interface, assigns its addresses and sets its MTU
/// (the policy's, else the config's), stopping at the first failure.
pub fn create_interface<E: CommandExecutor>(executor: &E, cfg: &WgDeviceConfig, mtu: Option<u32>) -> (r: Result<
    (),
    CoreError,
>)
    ensures
        runs(executor, create_steps(cfg.name@, cfg.address.v4, cfg.address.v6, effective_mtu(mtu, cfg.mtu)), r),
{
    let name = cfg.name.as_str();
    let mut plan: Vec<PlanStep> = Vec::new();
    plan.push(PlanStep::Run("ip", link_type_cmd("add", name), Reading::Checked));
    assert(string_views(seq![]) =~= Seq::<Seq<char>>::empty());
    match cfg.address.v4 {
        Some((addr, prefix)) => {
            let args = address_replace_cmd(false, cidr_to_string(IpAddress::V4(addr), prefix), name);
            plan.push(PlanStep::Run("ip", args, Reading::Checked));
        },
        None => {},
    }
    match cfg.address.v6 {
        Some((addr, prefix)) => {
            let args = address_replace_cmd(true, cidr_to_string(IpAddress::V6(addr), prefix), name);
            plan.push(PlanStep::Run("ip", args, Reading::Checked));
        },
        None => {},
    }
    let m = match mtu {
        Some(m) => Some(m),
        None => cfg.mtu,
    };
    match m {
        Some(m) => {
            let mut args: Vec<String> = Vec::new();
            push_arg(&mut args, "link");
            push_arg(&mut args, "set");
            push_arg(&mut args, "dev");
            push_arg(&mut args, name);
            push_arg(&mut args, "mtu");
            push_string_arg(&mut args, decimal_exec(m as u64));
            assert(string_views(args@) =~= ip_link_mtu_args(name@, m));
            plan.push(PlanStep::Run("ip", args, Reading::Checked));
        },
        None => {},
    }
    assert(plan_view(plan@) =~= create_steps(cfg.name@, cfg.address.v4, cfg.address.v6, effective_mtu(mtu, cfg.mtu)));
    run_plan(executor, &plan)
}

/// Whether every byte of the key is zero.
pub fn key_is_unset(private: &[u8; 32]) -> (r: bool)
    ensures
        r == key_unset(private@),
{
    let mut i: usize = 0;
    while i < 32
        invariant
            i <= 32,
            private@.len() == 32,
            forall|j: int| 0 <= j < i ==> private@[j] == 0,
        decreases 32 - i,
    {
        if private[i] != 0 {
            return false;
        }
        i = i + 1;
    }
    true
}

fn peer_plan_step(iface: &str, peer: &Peer) -> (r: PlanStep)
    ensures
        step_view(r) == peer_step(iface@, *peer),
{
    match set_peer_cmd(iface, peer) {
        Ok(args) => PlanStep::Run("wg", args, Reading::Checked),
        Err(_) => PlanStep::Refuse("peer missing allowed IPs"),
    }
}

fn peer_plan(iface: &str, peers: &Vec<Peer>) -> (r: Vec<PlanStep>)
    ensures
        plan_view(r@) == peer_steps(iface@, peers@),
{
    let ghost want = peer_steps(iface@, peers@);
    let mut plan: Vec<PlanStep> = Vec::new();
    let mut i: usize = 0;
    while i < peers.len()
        invariant
            i <= peers.len(),
            want == peer_steps(iface@, peers@),
            plan_view(plan@) == want.take(i as int),
        decreases peers.len() - i,
    {
        let ghost before = plan@;
        plan.push(peer_plan_step(iface, &peers[i]));
        assert(plan@ == before.push(plan@.last()));
        assert(plan_view(plan@) =~= plan_view(before).push(step_view(plan@.last())));
        i = i + 1;
        assert(want.take(i as int) =~= want.take(i - 1).push(want[i - 1]));
    }
    assert(want.take(peers.len() as int) =~= want);
    plan
}

/// Adds or updates one peer.
pub fn set_peer<E: CommandExecutor>(executor: &E, iface: &str, peer: &Peer) -> (r: Result<(), CoreError>)
    ensures
        runs(executor, seq![peer_step(iface@, *peer)], r),
{
    let mut plan: Vec<PlanStep> = Vec::new();
    plan.push(peer_plan_step(iface, peer));
    assert(plan_view(plan@) =~= seq![peer_step(iface@, *peer)]);
    run_plan(executor, &plan)
}

/// Sets the private key (when one is set) through a temporary key file,
/// removed afterwards, then adds each peer. With no key and no peers,
/// nothing runs.
pub fn configure_peers<E: CommandExecutor>(executor: &E, iface: &str, keypair: &KeyPair, peers: &Vec<Peer>) -> (r: Result<
    (),
    CoreError,
>)
    ensures
        peers_configured(executor, iface@, keypair.private@, peers@, r),
{
    let unset = key_is_unset(&keypair.private);
    let plan = peer_plan(iface, peers);
    if unset {
        return run_plan(executor, &plan);
    }
    let private_b64 = encode_key(&keypair.private);
    let w = executor.write_temp_file(private_b64.as_str());
    let ghost gw = w;
    assert(executor.writes_temp(key_text(keypair.private@), gw));
    match w {
        Err(x) => Err(x),
        Ok(path) => {
            let mut args: Vec<String> = Vec::new();
            push_arg(&mut args, "set");
            push_arg(&mut args, iface);
            push_arg(&mut args, "private-key");
            push_arg(&mut args, path.as_str());
            assert(string_views(args@) =~= wg_private_key_args(iface@, path@));
            let res = run_step(executor, "wg", args, Reading::Checked);
            let rm = executor.remove_temp_file(path.as_str());
            let ghost grm = rm;
            assert(executor.removes_temp(path@, grm));
            let r = match res {
                Err(x) => Err(x),
                Ok(()) => run_plan(executor, &plan),
            };
            proof {
                lemma_runs_append(
                    executor,
                    seq![checked_step("wg"@, wg_private_key_args(iface@, path@))],
                    peer_steps(iface@, peers@),
                    res,
                    r,
                );
            }
            r
        },
    }
}

/// Brings a fresh interface up for `cfg`: removes any earlier one
/// (whatever that reports), creates it, configures its key and peers and
/// brings it up. Returns the key texts of the peers.
pub fn setup_interface<E: CommandExecutor>(executor: &E, cfg: &WgDeviceConfig, mtu: Option<u32>) -> (r: Result<
    Vec<String>,
    CoreError,
>)
    ensures
        interface_set_up(executor, *cfg, mtu, unit_of(r)),
        r matches Ok(keys) ==> string_views(keys@) == peer_key_texts(cfg.peers@),
{
    let rt = teardown_interface(executor, cfg.name.as_str());
    assert(runs(executor, teardown_steps(cfg.name@), rt));
    let rc = create_interface(executor, cfg, mtu);
    let ghost grc = rc;
    assert(runs(executor, create_steps(cfg.name@, cfg.address.v4, cfg.address.v6, effective_mtu(mtu, cfg.mtu)), grc));
    if let Err(x) = rc {
        return Err(x);
    }
    let rp = configure_peers(executor, cfg.name.as_str(), &cfg.keypair, &cfg.peers);
    let ghost grp = rp;
    assert(peers_configured(executor, cfg.name@, cfg.keypair.private@, cfg.peers@, grp));
    if let Err(x) = rp {
        return Err(x);
    }
    let up = link_state_cmd(cfg.name.as_str(), true);
    let ru = run_step(executor, "ip", up, Reading::Checked);
    let ghost gru = ru;
    if let Err(x) = ru {
        return Err(x);
    }
    proof {
        lemma_ok_unit(gru);
        lemma_ok_unit(grc);
        lemma_ok_unit(grp);
    }
    Ok(peer_keys_of(&cfg.peers))
}

fn remove_peer_plan(iface: &str, keys: &Vec<String>) -> (r: Vec<PlanStep>)
    ensures
        plan_view(r@) == remove_peer_steps(iface@, string_views(keys@)),
{
    let ghost want = remove_peer_steps(iface@, string_views(keys@));
    let mut plan: Vec<PlanStep> = Vec::new();
    let mut i: usize = 0;
    while i < keys.len()
        invariant
            i <= keys.len(),
            want == remove_peer_steps(iface@, string_views(keys@)),
            plan_view(plan@) == want.take(i as int),
        decreases keys.len() - i,
    {
        let mut args: Vec<String> = Vec::new();
        push_arg(&mut args, "set");
        push_arg(&mut args, iface);
        push_arg(&mut args, "peer");
        push_arg(&mut args, keys[i].as_str());
        push_arg(&mut args, "remove");
        assert(string_views(args@) =~= wg_remove_peer_args(iface@, keys@[i as int]@));
        let ghost before = plan@;
        plan.push(PlanStep::Run("wg", args, Reading::Tolerating("Unknown peer")));
        assert(plan@ == before.push(plan@.last()));
        assert(plan_view(plan@) =~= plan_view(before).push(step_view(plan@.last())));
        i = i + 1;
        assert(want.take(i as int) =~= want.take(i - 1).push(want[i - 1]));
    }
    assert(want.take(keys.len() as int) =~= want);
    plan
}

/// Replaces the peers of a running interface: removes each earlier peer
/// (an unknown peer is fine), then adds the new ones. Returns their key
/// texts.
pub fn replace_peers<E: CommandExecutor>(
    executor: &E,
    iface: &str,
    prev_keys: &Vec<String>,
    peers: &Vec<Peer>,
) -> (r: Result<Vec<String>, CoreError>)
    ensures
        runs(
            executor,
            remove_peer_steps(iface@, string_views(prev_keys@)) + peer_steps(iface@, peers@),
            unit_of(r),
        ),
        r matches Ok(keys) ==> string_views(keys@) == peer_key_texts(peers@),
{
    let mut plan = remove_peer_plan(iface, prev_keys);
    let mut more = peer_plan(iface, peers);
    let ghost first = plan_view(plan@);
    let ghost second = plan_view(more@);
    plan.append(&mut more);
    assert(plan_view(plan@) =~= first + second);
    let rr = run_plan(executor, &plan);
    let ghost grr = rr;
    if let Err(x) = rr {
        return Err(x);
    }
    proof {
        lemma_ok_unit(grr);
    }
    Ok(peer_keys_of(peers))
}


/// The stages in which a session's policy is applied, in order.
#[derive(Debug, Clone, Copy, PartialEq, Eq, Structural)]
pub enum PolicyStage {
    KillSwitch,
    Dns,
    RoutesV4,
    RoutesV6,
}

/// The steps that take a session's state down again.
#[derive(Debug, Clone, Copy, PartialEq, Eq, Structural)]
pub enum SessionUndo {
    ClearRoutesV4,
    ClearRoutesV6,
    RevertDns,
    DisableKillSwitch,
    TearDownInterface,
}

/// The step that undoes a stage.
pub open spec fn undo_of(stage: PolicyStage) -> SessionUndo {
    match stage {
        PolicyStage::KillSwitch => SessionUndo::DisableKillSwitch,
        PolicyStage::Dns => SessionUndo::RevertDns,
        PolicyStage::RoutesV4 => SessionUndo::ClearRoutesV4,
        PolicyStage::RoutesV6 => SessionUndo::ClearRoutesV6,
    }
}

/// The stages that run before `stage`.
pub open spec fn stages_before(stage: PolicyStage) -> Seq<PolicyStage> {
    match stage {
        PolicyStage::KillSwitch => seq![],
        PolicyStage::Dns => seq![PolicyStage::KillSwitch],
        PolicyStage::RoutesV4 => seq![PolicyStage::KillSwitch, PolicyStage::Dns],
        PolicyStage::RoutesV6 => seq![PolicyStage::KillSwitch, PolicyStage::Dns, PolicyStage::RoutesV4],
    }
}

/// What is undone, in order, when a stage fails.
pub open spec fn rollback_steps(failed: PolicyStage) -> Seq<SessionUndo> {
    match failed {
        PolicyStage::KillSwitch => seq![],
        PolicyStage::Dns => seq![SessionUndo::DisableKillSwitch],
        PolicyStage::RoutesV4 => seq![SessionUndo::RevertDns, SessionUndo::DisableKillSwitch],
        PolicyStage::RoutesV6 => seq![
            SessionUndo::ClearRoutesV4,
            SessionUndo::RevertDns,
            SessionUndo::DisableKillSwitch,
        ],
    }
}

/// A failed stage rolls back exactly the stages before it, the latest
/// first.
pub proof fn law_rollback_undoes_earlier_stages(failed: PolicyStage)
    ensures
        rollback_steps(failed) == stages_before(failed).reverse().map_values(|s: PolicyStage| undo_of(s)),
{
    assert(rollback_steps(failed) =~= stages_before(failed).reverse().map_values(|s: PolicyStage| undo_of(s)));
}

/// What is undone, when a stage fails.
pub fn rollback_plan(failed: PolicyStage) -> (r: Vec<SessionUndo>)
    ensures
        r@ == rollback_steps(failed),
{
    let mut v: Vec<SessionUndo> = Vec::new();
    match failed {
        PolicyStage::KillSwitch => {},
        PolicyStage::Dns => {
            v.push(SessionUndo::DisableKillSwitch);
        },
        PolicyStage::RoutesV4 => {
            v.push(SessionUndo::RevertDns);
            v.push(SessionUndo::DisableKillSwitch);
        },
        PolicyStage::RoutesV6 => {
            v.push(SessionUndo::ClearRoutesV4);
            v.push(SessionUndo::RevertDns);
            v.push(SessionUndo::DisableKillSwitch);
        },
    }
    assert(v@ =~= rollback_steps(failed));
    v
}

/// A stage changes the system under `policy`: the kill switch always, the
/// others only with servers or routes to apply.
pub open spec fn stage_applies(policy: SessionPolicy, stage: PolicyStage) -> bool {
    match stage {
        PolicyStage::KillSwitch => true,
        PolicyStage::Dns => policy.dns_servers@.len() > 0,
        PolicyStage::RoutesV4 => policy.routes_v4@.len() > 0,
        PolicyStage::RoutesV6 => policy.routes_v6@.len() > 0,
    }
}

/// What stopping a session undoes, in order: the routes, the DNS
/// override, the kill switch, and on Linux the interface.
pub open spec fn stop_steps(policy: SessionPolicy, platform: Platform) -> Seq<SessionUndo> {
    (if policy.routes_v4@.len() > 0 {
        seq![SessionUndo::ClearRoutesV4]
    } else {
        seq![]
    }) + (if policy.routes_v6@.len() > 0 {
        seq![SessionUndo::ClearRoutesV6]
    } else {
        seq![]
    }) + (if policy.dns_servers@.len() > 0 {
        seq![SessionUndo::RevertDns]
    } else {
        seq![]
    }) + seq![SessionUndo::DisableKillSwitch] + (if platform == Platform::Linux {
        seq![SessionUndo::TearDownInterface]
    } else {
        seq![]
    })
}

/// Stopping a session undoes every stage that starting it applied, and
/// nothing else of the policy.
pub proof fn law_stop_undoes_applied_stages(policy: SessionPolicy, platform: Platform, stage: PolicyStage)
    ensures
        stop_steps(policy, platform).contains(undo_of(stage)) <==> stage_applies(policy, stage),
{
    let s = stop_steps(policy, platform);
    let u = undo_of(stage);
    if stage_applies(policy, stage) {
        let mut k: int = 0;
        if policy.routes_v4@.len() > 0 {
            k = k + 1;
        }
        if stage == PolicyStage::RoutesV4 {
            assert(s[0] == u);
        } else {
            if policy.routes_v6@.len() > 0 {
                k = k + 1;
            }
            if stage == PolicyStage::RoutesV6 {
                assert(s[k - 1] == u);
            } else {
                if policy.dns_servers@.len() > 0 {
                    k = k + 1;
                }
                if stage == PolicyStage::Dns {
                    assert(s[k - 1] == u);
                } else {
                    assert(s[k] == u);
                }
            }
        }
    } else {
        assert forall|i: int| 0 <= i < s.len() implies s[i] != u by {}
    }
}

/// The plan of stopping a session.
pub fn stop_plan(policy: &SessionPolicy, platform: Platform) -> (r: Vec<SessionUndo>)
    ensures
        r@ == stop_steps(*policy, platform),
{
    let mut v: Vec<SessionUndo> = Vec::new();
    if policy.routes_v4.len() > 0 {
        v.push(SessionUndo::ClearRoutesV4);
    }
    if policy.routes_v6.len() > 0 {
        v.push(SessionUndo::ClearRoutesV6);
    }
    if policy.dns_servers.len() > 0 {
        v.push(SessionUndo::RevertDns);
    }
    v.push(SessionUndo::DisableKillSwitch);
    if platform == Platform::Linux {
        v.push(SessionUndo::TearDownInterface);
    }
    assert(v@ =~= stop_steps(*policy, platform));
    v
}

/// Borrowed views of owned strings.
pub fn str_refs(v: &Vec<String>) -> (r: Vec<&str>)
    ensures
        str_views(r@) == string_views(v@),
{
    let mut r: Vec<&str> = Vec::new();
    let mut i: usize = 0;
    while i < v.len()
        invariant
            i <= v.len(),
            str_views(r@) == string_views(v@).take(i as int),
        decreases v.len() - i,
    {
        let ghost before = str_views(r@);
        let s: &str = v[i].as_str();
        assert(s@ == string_views(v@)[i as int]);
        r.push(s);
        assert(str_views(r@) =~= before.push(s@));
        i = i + 1;
        assert(str_views(r@) =~= string_views(v@).take(i as int));
    }
    assert(string_views(v@).take(v.len() as int) =~= string_views(v@));
    r
}

/// `r` is a possible outcome of one undo step on `e`, for the interface
/// `iface` and the routes `v4` and `v6`.
pub open spec fn undo_outcome<E: CommandExecutor>(
    e: &E,
    platform: Platform,
    iface: Seq<char>,
    v4: Seq<Seq<char>>,
    v6: Seq<Seq<char>>,
    step: SessionUndo,
    r: Result<(), CoreError>,
) -> bool {
    match step {
        SessionUndo::ClearRoutesV4 => runs(e, route_del_steps(platform, iface, v4), r),
        SessionUndo::ClearRoutesV6 => runs(e, route_del_steps(platform, iface, v6), r),
        SessionUndo::RevertDns => runs(e, dns_revert_steps(platform, iface), r),
        SessionUndo::DisableKillSwitch => killswitch_disabled(e, platform, r),
        SessionUndo::TearDownInterface => runs(e, teardown_steps(iface), r),
    }
}

/// The undo step was carried out on `e`, whatever it reported.
pub open spec fn undone<E: CommandExecutor>(
    e: &E,
    platform: Platform,
    iface: Seq<char>,
    v4: Seq<Seq<char>>,
    v6: Seq<Seq<char>>,
    step: SessionUndo,
) -> bool {
    exists|r: Result<(), CoreError>| #[trigger] undo_outcome(e, platform, iface, v4, v6, step, r)
}

/// Each of the undo steps was carried out on `e`, whatever it reported.
pub open spec fn undone_all<E: CommandExecutor>(
    e: &E,
    platform: Platform,
    iface: Seq<char>,
    v4: Seq<Seq<char>>,
    v6: Seq<Seq<char>>,
    steps: Seq<SessionUndo>,
) -> bool {
    forall|i: int| 0 <= i < steps.len() ==> #[trigger] undone(e, platform, iface, v4, v6, steps[i])
}

/// The DNS stage of a policy: nothing without servers.
pub open spec fn policy_dns_steps(platform: Platform, policy: SessionPolicy) -> Seq<Step> {
    if policy.dns_servers@.len() > 0 {
        dns_set_steps(platform, policy.interface@, string_views(policy.dns_servers@))
    } else {
        seq![]
    }
}

/// The policy's stages after the kill switch: DNS, then the IPv4 and the
/// IPv6 routes; a failed stage undoes `rollback_steps` and ends with its
/// error.
pub open spec fn policy_rest_applied<E: CommandExecutor>(
    e: &E,
    platform: Platform,
    policy: SessionPolicy,
    r: Result<(), CoreError>,
) -> bool {
    let iface = policy.interface@;
    let v4 = string_views(policy.routes_v4@);
    let v6 = string_views(policy.routes_v6@);
    exists|rd: Result<(), CoreError>|
        #[trigger] runs(e, policy_dns_steps(platform, policy), rd) && match rd {
            Err(x) => r == Err::<(), CoreError>(x) && undone_all(
                e,
                platform,
                iface,
                v4,
                v6,
                rollback_steps(PolicyStage::Dns),
            ),
            Ok(_) => exists|r4: Result<(), CoreError>|
                #[trigger] runs(e, route_add_steps(platform, iface, v4), r4) && match r4 {
                    Err(x) => r == Err::<(), CoreError>(x) && undone_all(
                        e,
                        platform,
                        iface,
                        v4,
                        v6,
                        rollback_steps(PolicyStage::RoutesV4),
                    ),
                    Ok(_) => exists|r6: Result<(), CoreError>|
                        #[trigger] runs(e, route_add_steps(platform, iface, v6), r6) && match r6 {
                            Err(x) => r == Err::<(), CoreError>(x) && undone_all(
                                e,
                                platform,
                                iface,
                                v4,
                                v6,
                                rollback_steps(PolicyStage::RoutesV6),
                            ),
                            Ok(_) => r is Ok,
                        },
                },
        }
}

/// `r` is a possible outcome of applying `policy` on `e`: any earlier kill
/// switch is removed (whatever that reports), the kill switch installed,
/// then the other stages as `policy_rest_applied` says.
pub open spec fn policy_applied<E: CommandExecutor>(
    e: &E,
    platform: Platform,
    policy: SessionPolicy,
    r: Result<(), CoreError>,
) -> bool {
    &&& exists|rd: Result<(), CoreError>| #[trigger] killswitch_disabled(e, platform, rd)
    &&& exists|rk: Result<(), CoreError>|
        #[trigger] killswitch_enabled(
            e,
            platform,
            policy.interface@,
            string_views(policy.kill_switch_allow_v4@),
            string_views(policy.kill_switch_allow_v6@),
            policy.kill_switch_allow_uids@,
            rk,
        ) && match rk {
            Err(x) => r == Err::<(), CoreError>(x),
            Ok(_) => policy_rest_applied(e, platform, policy, r),
        }
}

/// What a running session remembers.
struct ActiveSession {
    routes_v4: Vec<String>,
    routes_v6: Vec<String>,
    peer_keys: Vec<String>,
}

/// Starts, updates and stops a WireGuard session and applies its policy
/// around it. The tunnel itself is driven on Linux only.
pub struct WireguardSessionManager<E: CommandExecutor> {
    runner: Arc<E>,
    platform: Platform,
    kill_switch: KillSwitch<E>,
    dns: DnsOverride<E>,
    routes: SplitTunnelRoutes<E>,
    policy: SessionPolicy,
    state: Option<ActiveSession>,
}

impl<E: CommandExecutor> WireguardSessionManager<E> {
    /// The kill switch, DNS override and routes drive the manager's
    /// executor on the manager's platform.
    #[verifier::type_invariant]
    spec fn parts_agree(&self) -> bool {
        &&& self.kill_switch.executor() == *self.runner
        &&& self.kill_switch.platform_of() == self.platform
        &&& self.dns.executor() == *self.runner
        &&& self.dns.platform_of() == self.platform
        &&& self.routes.executor() == *self.runner
        &&& self.routes.platform_of() == self.platform
    }

    /// The executor that runs the commands.
    pub closed spec fn executor(&self) -> E {
        *self.runner
    }

    pub fn new(executor: Arc<E>, platform: Platform, policy: SessionPolicy) -> (r: Self)
        ensures
            !r.is_active(),
            r.policy_of() == policy,
            r.platform_of() == platform,
            r.executor() == *executor,
    {
        let kill_switch = KillSwitch::new(share(&executor), platform);
        let dns = DnsOverride::new(share(&executor), platform);
        let routes = SplitTunnelRoutes::new(share(&executor), platform);
        WireguardSessionManager { runner: executor, platform, kill_switch, dns, routes, policy, state: None }
    }

    /// A session is running.
    pub closed spec fn is_active(&self) -> bool {
        self.state is Some
    }

    /// The key texts of the running session's peers.
    pub closed spec fn active_peer_keys(&self) -> Seq<Seq<char>> {
        match self.state {
            Some(a) => string_views(a.peer_keys@),
            None => seq![],
        }
    }

    /// The routes that the running session added.
    pub closed spec fn active_routes(&self) -> (Seq<Seq<char>>, Seq<Seq<char>>) {
        match self.state {
            Some(a) => (string_views(a.routes_v4@), string_views(a.routes_v6@)),
            None => (seq![], seq![]),
        }
    }

    /// The policy the manager applies.
    pub closed spec fn policy_of(&self) -> SessionPolicy {
        self.policy
    }

    /// The platform whose tools the manager drives.
    pub closed spec fn platform_of(&self) -> Platform {
        self.platform
    }

    /// Whether a session is running.
    pub fn is_running(&self) -> (r: bool)
        ensures
            r == self.is_active(),
    {
        self.state.is_some()
    }

    fn iface(&self) -> (r: &str)
        ensures
            r@ == self.policy.interface@,
    {
        self.policy.interface.as_str()
    }

    fn undo(&self, step: SessionUndo, routes_v4: &Vec<String>, routes_v6: &Vec<String>)
        ensures
            undone(
                &self.executor(),
                self.platform,
                self.policy.interface@,
                string_views(routes_v4@),
                string_views(routes_v6@),
                step,
            ),
    {
        proof {
            use_type_invariant(self);
        }
        let iface = self.iface();
        let ghost v4 = string_views(routes_v4@);
        let ghost v6 = string_views(routes_v6@);
        match step {
            SessionUndo::ClearRoutesV4 => {
                let r = str_refs(routes_v4);
                let res = self.routes.clear(iface, r.as_slice());
                assert(undo_outcome(&self.executor(), self.platform, iface@, v4, v6, step, res));
            },
            SessionUndo::ClearRoutesV6 => {
                let r = str_refs(routes_v6);
                let res = self.routes.clear(iface, r.as_slice());
                assert(undo_outcome(&self.executor(), self.platform, iface@, v4, v6, step, res));
            },
            SessionUndo::RevertDns => {
                let res = self.dns.revert(iface);
                assert(undo_outcome(&self.executor(), self.platform, iface@, v4, v6, step, res));
            },
            SessionUndo::DisableKillSwitch => {
                let res = self.kill_switch.disable();
                assert(undo_outcome(&self.executor(), self.platform, iface@, v4, v6, step, res));
            },
            SessionUndo::TearDownInterface => {
                let res = teardown_interface(&*self.runner, iface);
                assert(undo_outcome(&self.executor(), self.platform, iface@, v4, v6, step, res));
            },
        }
    }

    /// Carries out the undo steps in order, ignoring what each reports.
    fn undo_all(&self, plan: &Vec<SessionUndo>, routes_v4: &Vec<String>, routes_v6: &Vec<String>)
        ensures
            undone_all(
                &self.executor(),
                self.platform,
                self.policy.interface@,
                string_views(routes_v4@),
                string_views(routes_v6@),
                plan@,
            ),
    {
        let ghost e = self.executor();
        let ghost iface = self.policy.interface@;
        let ghost v4 = string_views(routes_v4@);
        let ghost v6 = string_views(routes_v6@);
        let mut i: usize = 0;
        while i < plan.len()
            invariant
                i <= plan.len(),
                e == self.executor(),
                iface == self.policy.interface@,
                v4 == string_views(routes_v4@),
                v6 == string_views(routes_v6@),
                forall|j: int| 0 <= j < i ==> #[trigger] undone(&e, self.platform, iface, v4, v6, plan@[j]),
            decreases plan.len() - i,
        {
            self.undo(plan[i], routes_v4, routes_v6);
            i = i + 1;
        }
    }

    fn roll_back(&self, failed: PolicyStage, err: CoreError) -> (r: Result<(), CoreError>)
        ensures
            r == Err::<(), CoreError>(err),
            undone_all(
                &self.executor(),
                self.platform,
                self.policy.interface@,
                string_views(self.policy.routes_v4@),
                string_views(self.policy.routes_v6@),
                rollback_steps(failed),
            ),
    {
        let plan = rollback_plan(failed);
        self.undo_all(&plan, &self.policy.routes_v4, &self.policy.routes_v6);
        Err(err)
    }

    /// Applies the policy: kill switch (after removing any earlier one),
    /// DNS when there are servers, then the IPv4 and IPv6 routes. When a
    /// stage fails, the stages before it are undone as `rollback_plan`
    /// says and the stage's error is returned.
    fn apply_policy(&self) -> (r: Result<(), CoreError>)
        ensures
            policy_applied(&self.executor(), self.platform, self.policy, r),
    {
        proof {
            use_type_invariant(self);
        }
        let ghost e = self.executor();
        let ghost p = self.platform;
        let ghost policy = self.policy;
        let iface = self.iface();
        let allow_v4 = str_refs(&self.policy.kill_switch_allow_v4);
        let allow_v6 = str_refs(&self.policy.kill_switch_allow_v6);
        let rd = self.kill_switch.disable();
        assert(killswitch_disabled(&e, p, rd));
        let rk = self.kill_switch.enable(
            iface,
            allow_v4.as_slice(),
            allow_v6.as_slice(),
            self.policy.kill_switch_allow_uids.as_slice(),
        );
        let ghost grk = rk;
        assert(killswitch_enabled(
            &e,
            p,
            policy.interface@,
            string_views(policy.kill_switch_allow_v4@),
            string_views(policy.kill_switch_allow_v6@),
            policy.kill_switch_allow_uids@,
            grk,
        ));
        if let Err(x) = rk {
            return self.roll_back(PolicyStage::KillSwitch, x);
        }
        let ghost mut gdns: Result<(), CoreError> = Ok(());
        if self.policy.dns_servers.len() > 0 {
            let servers = str_refs(&self.policy.dns_servers);
            let rs = self.dns.set(iface, servers.as_slice());
            proof {
                gdns = rs;
            }
            assert(runs(&e, policy_dns_steps(p, policy), gdns));
            if let Err(x) = rs {
                let r = self.roll_back(PolicyStage::Dns, x);
                assert(policy_rest_applied(&e, p, policy, r));
                return r;
            }
        } else {
            assert(runs(&e, policy_dns_steps(p, policy), gdns));
        }
        let v4 = str_refs(&self.policy.routes_v4);
        let r4 = self.routes.include_cidrs(iface, v4.as_slice());
        let ghost g4 = r4;
        assert(runs(&e, route_add_steps(p, policy.interface@, string_views(policy.routes_v4@)), g4));
        if let Err(x) = r4 {
            let r = self.roll_back(PolicyStage::RoutesV4, x);
            assert(policy_rest_applied(&e, p, policy, r));
            return r;
        }
        let v6 = str_refs(&self.policy.routes_v6);
        let r6 = self.routes.include_cidrs(iface, v6.as_slice());
        let ghost g6 = r6;
        assert(runs(&e, route_add_steps(p, policy.interface@, string_views(policy.routes_v6@)), g6));
        if let Err(x) = r6 {
            let r = self.roll_back(PolicyStage::RoutesV6, x);
            assert(policy_rest_applied(&e, p, policy, r));
            return r;
        }
        assert(policy_rest_applied(&e, p, policy, Ok(())));
        Ok(())
    }
}

/// `r` is a possible outcome of starting a session for `cfg` under
/// `policy` on `e` (Linux): the interface is set up; then the policy is
/// applied, and if that fails the interface is torn down again.
pub open spec fn session_started<E: CommandExecutor>(
    e: &E,
    cfg: WgDeviceConfig,
    policy: SessionPolicy,
    r: Result<(), CoreError>,
) -> bool {
    exists|rs: Result<(), CoreError>|
        #[trigger] interface_set_up(e, cfg, policy.mtu, rs) && match rs {
            Err(x) => r == Err::<(), CoreError>(x),
            Ok(_) => exists|rp: Result<(), CoreError>|
                #[trigger] policy_applied(e, Platform::Linux, policy, rp) && match rp {
                    Err(x) => r == Err::<(), CoreError>(x) && exists|rt: Result<(), CoreError>|
                        #[trigger] runs(e, teardown_steps(policy.interface@), rt),
                    Ok(_) => r is Ok,
                },
        }
}

/// The refusal of a config whose interface is not the policy's.
pub open spec fn interface_mismatch_message(cfg_name: Seq<char>, policy_iface: Seq<char>) -> Seq<char> {
    "config interface "@ + cfg_name + " does not match policy "@ + policy_iface
}

impl<E: CommandExecutor> SessionManager for WireguardSessionManager<E> {
    /// Starts a session. A config without peers, or for another interface
    /// than the policy's, is refused; so is a second session, and any
    /// platform but Linux. On Linux the interface is set up and the policy
    /// applied; if the policy fails, the interface is torn down again.
    /// Only a successful start changes the manager's state.
    fn start(&mut self, cfg: &WgDeviceConfig) -> (r: Result<(), CoreError>)
        ensures
            final(self).policy_of() == old(self).policy_of(),
            final(self).platform_of() == old(self).platform_of(),
            cfg.peers@.len() == 0 ==> (r matches Err(e) && is_invalid_input(e, "WireGuard config missing peers"@)),
            (cfg.peers@.len() > 0 && cfg.name@ != old(self).policy_of().interface@) ==> (r matches Err(e)
                && is_invalid_input(e, interface_mismatch_message(cfg.name@, old(self).policy_of().interface@))),
            (cfg.peers@.len() > 0 && cfg.name@ == old(self).policy_of().interface@ && old(self).is_active())
                ==> (r matches Err(e) && e matches CoreError::AlreadyExists(m) && m@ == "session already active"@),
            (cfg.peers@.len() > 0 && cfg.name@ == old(self).policy_of().interface@ && !old(self).is_active()
                && old(self).platform_of() != Platform::Linux) ==> (r matches Err(e) && e is UnsupportedPlatform),
            r is Err ==> final(self).is_active() == old(self).is_active() && final(self).active_peer_keys()
                == old(self).active_peer_keys() && final(self).active_routes() == old(self).active_routes(),
            r is Ok ==> final(self).is_active() && final(self).active_peer_keys() == peer_key_texts(cfg.peers@)
                && final(self).active_routes() == (
                    string_views(old(self).policy_of().routes_v4@),
                    string_views(old(self).policy_of().routes_v6@),
                ),
            (cfg.peers@.len() > 0 && cfg.name@ == old(self).policy_of().interface@ && !old(self).is_active()
                && old(self).platform_of() == Platform::Linux) ==> session_started(
                &old(self).executor(),
                *cfg,
                old(self).policy_of(),
                r,
            ),
            final(self).executor() == old(self).executor(),
    {
        proof {
            use_type_invariant(&*self);
        }
        if cfg.peers.len() == 0 {
            return Err(CoreError::InvalidInput(owned("WireGuard config missing peers")));
        }
        let name = chars_of(cfg.name.as_str());
        if !eq_str(&name, self.policy.interface.as_str()) {
            let mut msg = concat2("config interface ", cfg.name.as_str());
            msg.append(" does not match policy ");
            msg.append(self.policy.interface.as_str());
            return Err(CoreError::InvalidInput(msg));
        }
        if self.state.is_some() {
            return Err(CoreError::AlreadyExists(owned("session already active")));
        }
        if self.platform != Platform::Linux {
            return Err(CoreError::UnsupportedPlatform);
        }
        let ghost e = self.executor();
        let setup = setup_interface(&*self.runner, cfg, self.policy.mtu);
        let ghost gs = unit_of(setup);
        assert(interface_set_up(&e, *cfg, self.policy.mtu, gs));
        let peer_keys = match setup {
            Ok(k) => k,
            Err(x) => return Err(x),
        };
        let rp = self.apply_policy();
        let ghost grp = rp;
        assert(policy_applied(&e, Platform::Linux, self.policy, grp));
        if let Err(x) = rp {
            let rt = teardown_interface(&*self.runner, self.policy.interface.as_str());
            assert(runs(&e, teardown_steps(self.policy.interface@), rt));
            return Err(x);
        }
        let routes_v4 = crate::command::copy_strings(&self.policy.routes_v4);
        let routes_v6 = crate::command::copy_strings(&self.policy.routes_v6);
        self.state = Some(ActiveSession { routes_v4, routes_v6, peer_keys });
        Ok(())
    }

    /// Stops the running session: removes its routes, reverts DNS when the
    /// policy set it, removes the kill switch and on Linux deletes the
    /// interface, ignoring the failures of each step. Without a running
    /// session nothing runs. Always succeeds and leaves no session.
    fn stop(&mut self) -> (r: Result<(), CoreError>)
        ensures
            r is Ok,
            !final(self).is_active(),
            final(self).policy_of() == old(self).policy_of(),
            final(self).platform_of() == old(self).platform_of(),
            final(self).executor() == old(self).executor(),
            old(self).is_active() ==> undone_all(
                &old(self).executor(),
                old(self).platform_of(),
                old(self).policy_of().interface@,
                old(self).active_routes().0,
                old(self).active_routes().1,
                stop_steps(old(self).policy_of(), old(self).platform_of()),
            ),
    {
        proof {
            use_type_invariant(&*self);
        }
        let mut st: Option<ActiveSession> = None;
        std::mem::swap(&mut st, &mut self.state);
        let active = match st {
            Some(a) => a,
            None => return Ok(()),
        };
        let plan = stop_plan(&self.policy, self.platform);
        self.undo_all(&plan, &active.routes_v4, &active.routes_v6);
        Ok(())
    }

    /// Replaces the running session's peers (Linux only). Without a
    /// running session it fails with `NotFound`; when the replacement
    /// fails, the remembered peers stay as they were.
    fn update_peers(&mut self, peers: &Vec<Peer>) -> (r: Result<(), CoreError>)
        ensures
            final(self).policy_of() == old(self).policy_of(),
            final(self).platform_of() == old(self).platform_of(),
            final(self).executor() == old(self).executor(),
            final(self).is_active() == old(self).is_active(),
            final(self).active_routes() == old(self).active_routes(),
            old(self).platform_of() != Platform::Linux ==> (r matches Err(e) && e is UnsupportedPlatform),
            (old(self).platform_of() == Platform::Linux && !old(self).is_active()) ==> (r matches Err(e)
                && e matches CoreError::NotFound(m) && m@ == "session not active"@),
            (old(self).platform_of() == Platform::Linux && old(self).is_active()) ==> runs(
                &old(self).executor(),
                remove_peer_steps(old(self).policy_of().interface@, old(self).active_peer_keys())
                    + peer_steps(old(self).policy_of().interface@, peers@),
                r,
            ),
            r is Err ==> final(self).active_peer_keys() == old(self).active_peer_keys(),
            r is Ok ==> final(self).active_peer_keys() == peer_key_texts(peers@),
    {
        proof {
            use_type_invariant(&*self);
        }
        if self.platform != Platform::Linux {
            return Err(CoreError::UnsupportedPlatform);
        }
        let mut st: Option<ActiveSession> = None;
        std::mem::swap(&mut st, &mut self.state);
        let mut active = match st {
            Some(a) => a,
            None => return Err(CoreError::NotFound(owned("session not active"))),
        };
        let res = replace_peers(&*self.runner, self.policy.interface.as_str(), &active.peer_keys, peers);
        match res {
            Ok(keys) => {
                active.peer_keys = keys;
                self.state = Some(active);
                Ok(())
            },
            Err(e) => {
                self.state = Some(active);
                Err(e)
            },
        }
    }
}

} // verus!
