//! The desktop client's cross-platform layer: the current Wi-Fi network,
//! the MTU, the kill switch, DNS override, split routes, and the decisions
//! of the auto-connect loop.

use std::sync::Arc;

use vstd::prelude::*;

use crate::command::{
    checked_step, handed, lemma_ok_unit, push_arg, push_string_arg, run_step, runs, runs_with_file, share, string_views,
    CommandExecutor, CommandOutput, Reading, Step,
};
use crate::error::CoreError;
use crate::linux::{
    linux_route_add_steps, linux_route_del_steps, nft_delete_args, nft_killswitch_script, nft_load_steps,
    resolved_revert_args, resolved_set_dns_steps, LinuxNftables, LinuxResolvedDns, LinuxSplitRoutes,
};
use crate::macos::{
    mac_route_add_steps, mac_route_del_steps, pf_killswitch_rules, pf_load_steps, pf_reverted,
    set_dns_servers_args, MacDns, MacPfFirewall, MacSplitRoutes,
};
use crate::text::{
    chars_of, str_views, decimal, decimal_exec, eq_str, find_char, find_char_exec, lines, lines_exec,
    slice_vec, split_once, split_once_exec, starts_with, starts_with_exec, string_of, trim,
    trim_exec, views,
};
use crate::traits::VpnAdapter;
use crate::types::{ConnectionState, Platform};
use crate::windows::{
    fw_killswitch_steps, fw_remove_all_script, netsh_mtu_args, netsh_mtu_cmd, ps_step, windows_dns_script,
    windows_route_add_steps, windows_route_del_steps, WindowsDns, WindowsFirewall, WindowsSplitRoutes,
};

verus! {

/// The settings of the auto-connect loop.
#[derive(Debug, Clone)]
pub struct AutoConnectConfig {
    /// Profile to connect and disconnect.
    pub profile: String,
    /// Interface whose MTU is set after connecting, if any.
    pub iface: Option<String>,
    /// MTU to set after connecting, if any.
    pub mtu: Option<u32>,
    /// Networks on which the VPN stays off.
    pub trusted_ssids: Vec<String>,
    /// Seconds between two rounds.
    pub interval_secs: u64,
}

/// What one round of the auto-connect loop does.
#[derive(Debug, Clone, Copy, PartialEq, Eq, Structural)]
pub enum AutoConnectAction {
    /// Leaves the connection as it is.
    Stay,
    /// Connects the profile (and sets the MTU when configured).
    Connect,
    /// Disconnects the profile.
    Disconnect,
}

/// The network is trusted: it has a name and the name is listed.
pub open spec fn is_trusted(ssid: Seq<char>, trusted: Seq<Seq<char>>) -> bool {
    ssid.len() > 0 && trusted.contains(ssid)
}

/// The connection is up or coming up.
pub open spec fn is_active_state(s: ConnectionState) -> bool {
    s == ConnectionState::Connected || s == ConnectionState::Connecting
}

/// The auto-connect rule: on a trusted network an active connection is
/// dropped; elsewhere an inactive one is started; otherwise nothing
/// changes.
pub open spec fn autoconnect_decision(trusted: bool, state: ConnectionState) -> AutoConnectAction {
    if trusted {
        if is_active_state(state) {
            AutoConnectAction::Disconnect
        } else {
            AutoConnectAction::Stay
        }
    } else if !is_active_state(state) {
        AutoConnectAction::Connect
    } else {
        AutoConnectAction::Stay
    }
}

/// The listed networks' names.
pub open spec fn trusted_views(trusted: Seq<String>) -> Seq<Seq<char>> {
    trusted.map_values(|s: String| s@)
}

/// Whether `ssid` is a trusted network.
pub fn ssid_is_trusted(ssid: &str, trusted: &Vec<String>) -> (r: bool)
    ensures
        r == is_trusted(ssid@, trusted_views(trusted@)),
{
    let v = chars_of(ssid);
    if v.len() == 0 {
        return false;
    }
    let mut i: usize = 0;
    while i < trusted.len()
        invariant
            i <= trusted.len(),
            v@ == ssid@,
            v.len() > 0,
            forall|j: int| 0 <= j < i ==> trusted@[j]@ != ssid@,
        decreases trusted.len() - i,
    {
        if eq_str(&v, trusted[i].as_str()) {
            assert(trusted_views(trusted@).len() == trusted@.len());
            assert(trusted_views(trusted@)[i as int] == ssid@);
            assert(trusted_views(trusted@).contains(ssid@));
            return true;
        }
        i = i + 1;
    }
    assert(!trusted_views(trusted@).contains(ssid@)) by {
        if trusted_views(trusted@).contains(ssid@) {
            let j = choose|j: int| 0 <= j < trusted_views(trusted@).len() && trusted_views(trusted@)[j] == ssid@;
            assert(trusted@[j]@ == ssid@);
        }
    }
    false
}

/// Decides one round of the auto-connect loop from the current network
/// name and the profile's state.
pub fn autoconnect_decide(ssid: &str, trusted_ssids: &Vec<String>, state: ConnectionState) -> (r: AutoConnectAction)
    ensures
        r == autoconnect_decision(is_trusted(ssid@, trusted_views(trusted_ssids@)), state),
{
    let trusted = ssid_is_trusted(ssid, trusted_ssids);
    let active = state == ConnectionState::Connected || state == ConnectionState::Connecting;
    if trusted {
        if active {
            AutoConnectAction::Disconnect
        } else {
            AutoConnectAction::Stay
        }
    } else if !active {
        AutoConnectAction::Connect
    } else {
        AutoConnectAction::Stay
    }
}

/// The auto-connect loop never starts the VPN on a trusted network and
/// never stops it elsewhere; once the connection matches the network, a
/// round leaves it alone.
pub proof fn law_autoconnect_respects_trust(trusted: bool, state: ConnectionState)
    ensures
        trusted ==> autoconnect_decision(trusted, state) != AutoConnectAction::Connect,
        !trusted ==> autoconnect_decision(trusted, state) != AutoConnectAction::Disconnect,
        (trusted && !is_active_state(state)) ==> autoconnect_decision(trusted, state)
            == AutoConnectAction::Stay,
        (!trusted && is_active_state(state)) ==> autoconnect_decision(trusted, state)
            == AutoConnectAction::Stay,
{
}

/// A network without a name is never trusted.
pub proof fn law_unnamed_network_untrusted(trusted: Seq<Seq<char>>)
    ensures
        !is_trusted(Seq::<char>::empty(), trusted),
{
}

/// The program and arguments that ask for the current Wi-Fi network.
pub open spec fn ssid_query(platform: Platform) -> (Seq<char>, Seq<Seq<char>>) {
    match platform {
        Platform::Windows => ("netsh"@, seq!["wlan"@, "show"@, "interfaces"@]),
        Platform::MacOs => ("networksetup"@, seq!["-getairportnetwork"@, "Wi-Fi"@]),
        Platform::Linux => ("nmcli"@, seq!["-t"@, "-f"@, "ACTIVE,SSID"@, "dev"@, "wifi"@]),
    }
}

/// The network name on a `netsh wlan show interfaces` line: after the
/// first colon of a trimmed line that starts with `SSID`, trimmed.
pub open spec fn netsh_ssid_line(l: Seq<char>) -> Option<Seq<char>> {
    let t = trim(l);
    if starts_with(t, "SSID"@) {
        match find_char(t, ':') {
            Some(k) => Some(trim(t.skip(k + 1))),
            None => None,
        }
    } else {
        None
    }
}

/// The network name on an `nmcli -t -f ACTIVE,SSID` line: the part after
/// the first colon when the part before it is `yes`.
pub open spec fn nmcli_ssid_line(l: Seq<char>) -> Option<Seq<char>> {
    match split_once(l, ':') {
        Some(p) => if p.0 == "yes"@ {
            Some(p.1)
        } else {
            None
        },
        None => None,
    }
}

/// The first line that names a network.
pub open spec fn first_ssid(ls: Seq<Seq<char>>, windows: bool) -> Option<Seq<char>>
    decreases ls.len(),
{
    if ls.len() == 0 {
        None
    } else {
        match (if windows {
            netsh_ssid_line(ls[0])
        } else {
            nmcli_ssid_line(ls[0])
        }) {
            Some(s) => Some(s),
            None => first_ssid(ls.drop_first(), windows),
        }
    }
}

/// The current network name that the query's output gives; empty when
/// the query failed or named none.
pub open spec fn ssid_from(platform: Platform, out: CommandOutput) -> Seq<char> {
    if out.status != 0 {
        seq![]
    } else {
        match platform {
            Platform::Windows => match first_ssid(lines(out.stdout@), true) {
                Some(s) => s,
                None => seq![],
            },
            Platform::MacOs => match find_char(out.stdout@, ':') {
                Some(k) => trim(out.stdout@.skip(k + 1)),
                None => seq![],
            },
            Platform::Linux => match first_ssid(lines(out.stdout@), false) {
                Some(s) => s,
                None => seq![],
            },
        }
    }
}

fn ssid_line_exec(l: &Vec<char>, windows: bool) -> (r: Option<Vec<char>>)
    ensures
        match (if windows {
            netsh_ssid_line(l@)
        } else {
            nmcli_ssid_line(l@)
        }) {
            Some(s) => r matches Some(v) && v@ == s,
            None => r is None,
        },
{
    if windows {
        let t = trim_exec(l);
        if !starts_with_exec(&t, "SSID") {
            return None;
        }
        match find_char_exec(&t, ':') {
            Some(k) => {
                let rest = slice_vec(&t, k + 1, t.len());
                assert(rest@ =~= t@.skip(k + 1));
                Some(trim_exec(&rest))
            },
            None => None,
        }
    } else {
        match split_once_exec(l, ':') {
            Some((a, b)) => {
                if eq_str(&a, "yes") {
                    Some(b)
                } else {
                    None
                }
            },
            None => None,
        }
    }
}

fn first_ssid_exec(ls: &Vec<Vec<char>>, windows: bool) -> (r: Option<Vec<char>>)
    ensures
        match first_ssid(views(ls@), windows) {
            Some(s) => r matches Some(v) && v@ == s,
            None => r is None,
        },
{
    let ghost all = views(ls@);
    let mut i: usize = 0;
    assert(all.skip(0) =~= all);
    while i < ls.len()
        invariant
            i <= ls.len(),
            all == views(ls@),
            first_ssid(all, windows) == first_ssid(all.skip(i as int), windows),
        decreases ls.len() - i,
    {
        assert(all.skip(i as int)[0] == ls@[i as int]@);
        assert(all.skip(i as int).drop_first() =~= all.skip(i + 1));
        match ssid_line_exec(&ls[i], windows) {
            Some(s) => return Some(s),
            None => {},
        }
        i = i + 1;
    }
    None
}

/// Reads the current network name from the query's output.
pub fn ssid_from_output(platform: Platform, out: &CommandOutput) -> (r: String)
    ensures
        r@ == ssid_from(platform, *out),
{
    if out.status != 0 {
        return String::new();
    }
    let v = chars_of(out.stdout.as_str());
    match platform {
        Platform::MacOs => match find_char_exec(&v, ':') {
            Some(k) => {
                let rest = slice_vec(&v, k + 1, v.len());
                assert(rest@ =~= v@.skip(k + 1));
                string_of(&trim_exec(&rest))
            },
            None => String::new(),
        },
        Platform::Windows => {
            let ls = lines_exec(&v);
            match first_ssid_exec(&ls, true) {
                Some(s) => string_of(&s),
                None => String::new(),
            }
        },
        Platform::Linux => {
            let ls = lines_exec(&v);
            match first_ssid_exec(&ls, false) {
                Some(s) => string_of(&s),
                None => String::new(),
            }
        },
    }
}

/// The arguments of the network query.
pub fn ssid_query_cmd(platform: Platform) -> (r: (&'static str, Vec<String>))
    ensures
        r.0@ == ssid_query(platform).0,
        string_views(r.1@) == ssid_query(platform).1,
{
    let mut args: Vec<String> = Vec::new();
    match platform {
        Platform::Windows => {
            push_arg(&mut args, "wlan");
            push_arg(&mut args, "show");
            push_arg(&mut args, "interfaces");
            assert(string_views(args@) =~= ssid_query(platform).1);
            ("netsh", args)
        },
        Platform::MacOs => {
            push_arg(&mut args, "-getairportnetwork");
            push_arg(&mut args, "Wi-Fi");
            assert(string_views(args@) =~= ssid_query(platform).1);
            ("networksetup", args)
        },
        Platform::Linux => {
            push_arg(&mut args, "-t");
            push_arg(&mut args, "-f");
            push_arg(&mut args, "ACTIVE,SSID");
            push_arg(&mut args, "dev");
            push_arg(&mut args, "wifi");
            assert(string_views(args@) =~= ssid_query(platform).1);
            ("nmcli", args)
        },
    }
}

/// The network name that an answer to the network query gives: none when
/// the executor failed.
pub open spec fn ssid_seen(platform: Platform, a: Result<CommandOutput, CoreError>) -> Seq<char> {
    match a {
        Ok(o) => ssid_from(platform, o),
        Err(_) => seq![],
    }
}

/// The current Wi-Fi network's name, empty when there is none. The
/// executor's own error is passed on.
pub fn current_ssid<E: CommandExecutor>(executor: &E, platform: Platform) -> (r: Result<String, CoreError>)
    ensures
        exists|a: Result<CommandOutput, CoreError>|
            #[trigger] executor.answers(ssid_query(platform).0, ssid_query(platform).1, seq![], a) && match a {
                Err(x) => r == Err::<String, CoreError>(x),
                Ok(o) => r matches Ok(s) && s@ == ssid_from(platform, o),
            },
{
    let (program, args) = ssid_query_cmd(platform);
    let a = executor.run(program, &args);
    let ghost ga = a;
    assert(executor.answers(ssid_query(platform).0, ssid_query(platform).1, seq![], ga));
    match a {
        Err(x) => Err(x),
        Ok(out) => Ok(ssid_from_output(platform, &out)),
    }
}

/// The program and arguments that set an interface's MTU.
pub open spec fn mtu_command(platform: Platform, iface: Seq<char>, mtu: u32) -> (Seq<char>, Seq<Seq<char>>) {
    match platform {
        Platform::Windows => ("netsh"@, netsh_mtu_args(iface, mtu)),
        Platform::MacOs => ("ifconfig"@, seq![iface, "mtu"@, decimal(mtu as nat)]),
        Platform::Linux => ("ip"@, seq!["link"@, "set"@, "dev"@, iface, "mtu"@, decimal(mtu as nat)]),
    }
}

/// The command that sets an interface's MTU.
pub fn mtu_cmd(platform: Platform, iface: &str, mtu: u32) -> (r: (&'static str, Vec<String>))
    ensures
        r.0@ == mtu_command(platform, iface@, mtu).0,
        string_views(r.1@) == mtu_command(platform, iface@, mtu).1,
{
    match platform {
        Platform::Windows => ("netsh", netsh_mtu_cmd(iface, mtu)),
        Platform::MacOs => {
            let mut args: Vec<String> = Vec::new();
            push_arg(&mut args, iface);
            push_arg(&mut args, "mtu");
            push_string_arg(&mut args, decimal_exec(mtu as u64));
            assert(string_views(args@) =~= mtu_command(platform, iface@, mtu).1);
            ("ifconfig", args)
        },
        Platform::Linux => {
            let mut args: Vec<String> = Vec::new();
            push_arg(&mut args, "link");
            push_arg(&mut args, "set");
            push_arg(&mut args, "dev");
            push_arg(&mut args, iface);
            push_arg(&mut args, "mtu");
            push_string_arg(&mut args, decimal_exec(mtu as u64));
            assert(string_views(args@) =~= mtu_command(platform, iface@, mtu).1);
            ("ip", args)
        },
    }
}

/// Sets the MTU of an interface.
pub fn set_mtu<E: CommandExecutor>(executor: &E, platform: Platform, iface: &str, mtu: u32) -> (r: Result<
    (),
    CoreError,
>)
    ensures
        runs(
            executor,
            seq![checked_step(mtu_command(platform, iface@, mtu).0, mtu_command(platform, iface@, mtu).1)],
            r,
        ),
{
    let (program, args) = mtu_cmd(platform, iface, mtu);
    run_step(executor, program, args, Reading::Checked)
}

/// The state that an adapter's answer gives: `Unknown` when it failed.
pub open spec fn state_seen(s: Result<ConnectionState, CoreError>) -> ConnectionState {
    match s {
        Ok(st) => st,
        Err(_) => ConnectionState::Unknown,
    }
}

/// A round's decision: the rule applied to the network that the executor
/// reported (none when it failed) and to the profile's state that the
/// adapter reported (`Unknown` when it failed).
pub open spec fn round_decided<E: CommandExecutor, A: VpnAdapter>(
    executor: &E,
    platform: Platform,
    adapter: &A,
    profile: Seq<char>,
    trusted: Seq<Seq<char>>,
    action: AutoConnectAction,
) -> bool {
    exists|a: Result<CommandOutput, CoreError>|
        #[trigger] executor.answers(ssid_query(platform).0, ssid_query(platform).1, seq![], a) && exists|
            s: Result<ConnectionState, CoreError>,
        |
            #[trigger] adapter.reports_status(profile, s) && action == autoconnect_decision(
                is_trusted(ssid_seen(platform, a), trusted),
                state_seen(s),
            )
}

/// Reads the network and the profile's state (a failed read counts as no
/// network and as `Unknown`) and decides the round.
fn decide_round<E: CommandExecutor, A: VpnAdapter>(
    executor: &E,
    platform: Platform,
    adapter: &A,
    cfg: &AutoConnectConfig,
) -> (r: AutoConnectAction)
    ensures
        round_decided(executor, platform, adapter, cfg.profile@, trusted_views(cfg.trusted_ssids@), r),
{
    let found = current_ssid(executor, platform);
    let ghost a = choose|a: Result<CommandOutput, CoreError>|
        #[trigger] executor.answers(ssid_query(platform).0, ssid_query(platform).1, seq![], a) && match a {
            Err(x) => found == Err::<String, CoreError>(x),
            Ok(o) => found matches Ok(s) && s@ == ssid_from(platform, o),
        };
    let ssid = match found {
        Ok(s) => s,
        Err(_) => String::new(),
    };
    assert(ssid@ == ssid_seen(platform, a));
    let reported = adapter.status(cfg.profile.as_str());
    let ghost gs = reported;
    assert(adapter.reports_status(cfg.profile@, gs));
    let state = match reported {
        Ok(s) => s,
        Err(_) => ConnectionState::Unknown,
    };
    assert(state == state_seen(gs));
    let r = autoconnect_decide(ssid.as_str(), &cfg.trusted_ssids, state);
    assert(r == autoconnect_decision(is_trusted(ssid_seen(platform, a), trusted_views(cfg.trusted_ssids@)), state));
    r
}

/// The MTU command of a round that connected, when both the interface and
/// the MTU are configured.
pub open spec fn mtu_set_after_connect<E: CommandExecutor>(
    executor: &E,
    platform: Platform,
    cfg: AutoConnectConfig,
) -> bool {
    match (cfg.iface, cfg.mtu) {
        (Some(iface), Some(mtu)) => handed(
            executor,
            mtu_command(platform, iface@, mtu).0,
            mtu_command(platform, iface@, mtu).1,
        ),
        _ => true,
    }
}

fn set_configured_mtu<E: CommandExecutor>(executor: &E, platform: Platform, cfg: &AutoConnectConfig)
    ensures
        mtu_set_after_connect(executor, platform, *cfg),
{
    match (&cfg.iface, cfg.mtu) {
        (Some(iface), Some(mtu)) => {
            let r = set_mtu(executor, platform, iface.as_str(), mtu);
            let ghost st = seq![
                checked_step(mtu_command(platform, iface@, mtu).0, mtu_command(platform, iface@, mtu).1),
            ];
            assert(st[0] == checked_step(mtu_command(platform, iface@, mtu).0, mtu_command(platform, iface@, mtu).1));
        },
        _ => {},
    }
}

/// One round of the background auto-connect loop: decides as
/// `autoconnect_decide` says on the current network and state, acts, and
/// returns what it did. After a connect the MTU is set when both the
/// interface and the MTU are configured; failures of the actions are
/// ignored.
pub fn autoconnect_round<E: CommandExecutor, A: VpnAdapter>(
    executor: &E,
    platform: Platform,
    adapter: &A,
    cfg: &AutoConnectConfig,
) -> (r: AutoConnectAction)
    ensures
        round_decided(executor, platform, adapter, cfg.profile@, trusted_views(cfg.trusted_ssids@), r),
        r == AutoConnectAction::Disconnect ==> exists|rd: Result<(), CoreError>|
            #[trigger] adapter.disconnects(cfg.profile@, rd),
        r == AutoConnectAction::Connect ==> (exists|rc: Result<(), CoreError>|
            #[trigger] adapter.connects(cfg.profile@, rc)) && mtu_set_after_connect(executor, platform, *cfg),
        cfg.trusted_ssids@.len() == 0 ==> r != AutoConnectAction::Disconnect,
{
    let action = decide_round(executor, platform, adapter, cfg);
    match action {
        AutoConnectAction::Disconnect => {
            let rd = adapter.disconnect(cfg.profile.as_str());
            assert(adapter.disconnects(cfg.profile@, rd));
        },
        AutoConnectAction::Connect => {
            let rc = adapter.connect(cfg.profile.as_str());
            assert(adapter.connects(cfg.profile@, rc));
            set_configured_mtu(executor, platform, cfg);
        },
        AutoConnectAction::Stay => {},
    }
    action
}

/// One round of the command-line service loop: as `autoconnect_round`,
/// except that a failed connect ends the round with its error (and the MTU
/// is then left alone).
pub fn service_round<E: CommandExecutor, A: VpnAdapter>(
    executor: &E,
    platform: Platform,
    adapter: &A,
    cfg: &AutoConnectConfig,
) -> (r: Result<AutoConnectAction, CoreError>)
    ensures
        r matches Ok(a) ==> round_decided(executor, platform, adapter, cfg.profile@, trusted_views(cfg.trusted_ssids@), a),
        r matches Ok(a) && a == AutoConnectAction::Disconnect ==> exists|rd: Result<(), CoreError>|
            #[trigger] adapter.disconnects(cfg.profile@, rd),
        r matches Ok(a) && a == AutoConnectAction::Connect ==> adapter.connects(cfg.profile@, Ok(()))
            && mtu_set_after_connect(executor, platform, *cfg),
        r matches Err(x) ==> round_decided(
            executor,
            platform,
            adapter,
            cfg.profile@,
            trusted_views(cfg.trusted_ssids@),
            AutoConnectAction::Connect,
        ) && adapter.connects(cfg.profile@, Err(x)),
        cfg.trusted_ssids@.len() == 0 ==> !(r matches Ok(a) && a == AutoConnectAction::Disconnect),
{
    let action = decide_round(executor, platform, adapter, cfg);
    match action {
        AutoConnectAction::Disconnect => {
            let rd = adapter.disconnect(cfg.profile.as_str());
            assert(adapter.disconnects(cfg.profile@, rd));
        },
        AutoConnectAction::Connect => {
            let rc = adapter.connect(cfg.profile.as_str());
            let ghost grc = rc;
            match rc {
                Err(x) => return Err(x),
                Ok(()) => {},
            }
            proof {
                lemma_ok_unit(grc);
            }
            set_configured_mtu(executor, platform, cfg);
        },
        AutoConnectAction::Stay => {},
    }
    Ok(action)
}

/// `r` is a possible outcome of installing the kill switch of `platform`
/// on `e`: the Windows Firewall rules; the PF ruleset written to a file and
/// loaded; the nftables script (with the user ids) written to a file and
/// loaded.
pub open spec fn killswitch_enabled<E: CommandExecutor>(
    e: &E,
    platform: Platform,
    iface: Seq<char>,
    v4: Seq<Seq<char>>,
    v6: Seq<Seq<char>>,
    uids: Seq<u32>,
    r: Result<(), CoreError>,
) -> bool {
    match platform {
        Platform::Windows => runs(e, fw_killswitch_steps(iface, v4, v6), r),
        Platform::MacOs => runs_with_file(e, pf_killswitch_rules(iface, v4, v6), pf_load_steps(), r),
        Platform::Linux => runs_with_file(e, nft_killswitch_script(iface, v4, v6, uids), nft_load_steps(), r),
    }
}

/// `r` is a possible outcome of removing the kill switch of `platform`.
pub open spec fn killswitch_disabled<E: CommandExecutor>(e: &E, platform: Platform, r: Result<(), CoreError>) -> bool {
    match platform {
        Platform::Windows => runs(e, seq![ps_step(fw_remove_all_script(), Reading::AnyStatus)], r),
        Platform::MacOs => pf_reverted(e, r),
        Platform::Linux => runs(e, seq![Step::Run("nft"@, nft_delete_args(), Reading::AnyStatus)], r),
    }
}

/// The kill switch of the platform: Windows Firewall rules, a PF ruleset,
/// or an nftables table.
pub struct KillSwitch<E: CommandExecutor> {
    runner: Arc<E>,
    platform: Platform,
}

impl<E: CommandExecutor> KillSwitch<E> {
    pub fn new(executor: Arc<E>, platform: Platform) -> (r: Self)
        ensures
            r.executor() == *executor,
            r.platform_of() == platform,
    {
        KillSwitch { runner: executor, platform }
    }

    /// The executor that runs the commands.
    pub closed spec fn executor(&self) -> E {
        *self.runner
    }

    /// The platform whose tools this kill switch drives.
    pub closed spec fn platform_of(&self) -> Platform {
        self.platform
    }

    /// Installs a fail-closed kill switch that lets traffic through
    /// `iface` and to the control-plane addresses; on Linux the listed
    /// user ids bypass it too.
    pub fn enable(&self, iface: &str, allow_v4: &[&str], allow_v6: &[&str], allow_uids: &[u32]) -> (r: Result<
        (),
        CoreError,
    >)
        ensures
            killswitch_enabled(
                &self.executor(),
                self.platform_of(),
                iface@,
                str_views(allow_v4@),
                str_views(allow_v6@),
                allow_uids@,
                r,
            ),
    {
        match self.platform {
            Platform::Windows => {
                let fw = WindowsFirewall::new(share(&self.runner));
                fw.apply_killswitch(iface, allow_v4, allow_v6)
            },
            Platform::MacOs => {
                let fw = MacPfFirewall::new(share(&self.runner));
                fw.apply_killswitch(iface, allow_v4, allow_v6)
            },
            Platform::Linux => {
                let fw = LinuxNftables::new(share(&self.runner));
                if allow_uids.len() == 0 {
                    assert(allow_uids@ =~= seq![]);
                    fw.apply_killswitch(iface, allow_v4, allow_v6)
                } else {
                    fw.apply_killswitch_with_uids(iface, allow_v4, allow_v6, allow_uids)
                }
            },
        }
    }

    /// Removes the kill switch.
    pub fn disable(&self) -> (r: Result<(), CoreError>)
        ensures
            killswitch_disabled(&self.executor(), self.platform_of(), r),
    {
        match self.platform {
            Platform::Windows => WindowsFirewall::new(share(&self.runner)).remove_killswitch(),
            Platform::MacOs => MacPfFirewall::new(share(&self.runner)).revert(),
            Platform::Linux => LinuxNftables::new(share(&self.runner)).remove_killswitch(),
        }
    }
}

/// Pointing `iface` at `servers` on `platform`.
pub open spec fn dns_set_steps(platform: Platform, iface: Seq<char>, servers: Seq<Seq<char>>) -> Seq<Step> {
    match platform {
        Platform::Windows => seq![ps_step(windows_dns_script(iface, servers), Reading::Checked)],
        Platform::MacOs => seq![checked_step("networksetup"@, set_dns_servers_args(iface, servers))],
        Platform::Linux => resolved_set_dns_steps(iface, servers),
    }
}

/// Returning `iface` to the system's DNS settings on `platform`.
pub open spec fn dns_revert_steps(platform: Platform, iface: Seq<char>) -> Seq<Step> {
    match platform {
        Platform::Windows => seq![ps_step(windows_dns_script(iface, seq![]), Reading::Checked)],
        Platform::MacOs => seq![checked_step("networksetup"@, set_dns_servers_args(iface, seq![]))],
        Platform::Linux => seq![checked_step("resolvectl"@, resolved_revert_args(iface))],
    }
}

/// DNS override: an interface alias on Windows, a network service on
/// macOS, a link on Linux.
pub struct DnsOverride<E: CommandExecutor> {
    runner: Arc<E>,
    platform: Platform,
}

impl<E: CommandExecutor> DnsOverride<E> {
    pub fn new(executor: Arc<E>, platform: Platform) -> (r: Self)
        ensures
            r.executor() == *executor,
            r.platform_of() == platform,
    {
        DnsOverride { runner: executor, platform }
    }

    /// The executor that runs the commands.
    pub closed spec fn executor(&self) -> E {
        *self.runner
    }

    /// The platform whose tools this override drives.
    pub closed spec fn platform_of(&self) -> Platform {
        self.platform
    }

    /// Points `iface` at `servers`. On Linux an empty list changes nothing.
    pub fn set(&self, iface: &str, servers: &[&str]) -> (r: Result<(), CoreError>)
        ensures
            runs(&self.executor(), dns_set_steps(self.platform_of(), iface@, str_views(servers@)), r),
    {
        match self.platform {
            Platform::Windows => WindowsDns::new(share(&self.runner)).set_for_interface(iface, servers),
            Platform::MacOs => MacDns::new(share(&self.runner)).set_dns_for_service(iface, servers),
            Platform::Linux => LinuxResolvedDns::new(share(&self.runner)).set_dns(iface, servers),
        }
    }

    /// Returns `iface` to the system's DNS settings.
    pub fn revert(&self, iface: &str) -> (r: Result<(), CoreError>)
        ensures
            runs(&self.executor(), dns_revert_steps(self.platform_of(), iface@), r),
    {
        let none: Vec<&str> = Vec::new();
        assert(str_views(none@) =~= seq![]);
        match self.platform {
            Platform::Windows => WindowsDns::new(share(&self.runner)).set_for_interface(iface, none.as_slice()),
            Platform::MacOs => MacDns::new(share(&self.runner)).set_dns_for_service(iface, none.as_slice()),
            Platform::Linux => LinuxResolvedDns::new(share(&self.runner)).revert(iface),
        }
    }
}

/// Routing `cidrs` through `iface` on `platform`.
pub open spec fn route_add_steps(platform: Platform, iface: Seq<char>, cidrs: Seq<Seq<char>>) -> Seq<Step> {
    match platform {
        Platform::Windows => windows_route_add_steps(iface, cidrs),
        Platform::MacOs => mac_route_add_steps(iface, cidrs),
        Platform::Linux => linux_route_add_steps(iface, cidrs),
    }
}

/// Removing the routes of `cidrs` on `platform`.
pub open spec fn route_del_steps(platform: Platform, iface: Seq<char>, cidrs: Seq<Seq<char>>) -> Seq<Step> {
    match platform {
        Platform::Windows => windows_route_del_steps(iface, cidrs),
        Platform::MacOs => mac_route_del_steps(iface, cidrs),
        Platform::Linux => linux_route_del_steps(iface, cidrs),
    }
}

/// Route-based split tunnelling.
pub struct SplitTunnelRoutes<E: CommandExecutor> {
    runner: Arc<E>,
    platform: Platform,
}

impl<E: CommandExecutor> SplitTunnelRoutes<E> {
    pub fn new(executor: Arc<E>, platform: Platform) -> (r: Self)
        ensures
            r.executor() == *executor,
            r.platform_of() == platform,
    {
        SplitTunnelRoutes { runner: executor, platform }
    }

    /// The executor that runs the commands.
    pub closed spec fn executor(&self) -> E {
        *self.runner
    }

    /// The platform whose tools these routes drive.
    pub closed spec fn platform_of(&self) -> Platform {
        self.platform
    }

    /// Routes the given ranges through `iface`, in order, stopping at the
    /// first failure; no ranges, no change.
    pub fn include_cidrs(&self, iface: &str, cidrs: &[&str]) -> (r: Result<(), CoreError>)
        ensures
            runs(&self.executor(), route_add_steps(self.platform_of(), iface@, str_views(cidrs@)), r),
    {
        match self.platform {
            Platform::Windows => WindowsSplitRoutes::new(share(&self.runner)).set_include(iface, cidrs),
            Platform::MacOs => MacSplitRoutes::new(share(&self.runner)).set_include(iface, cidrs),
            Platform::Linux => LinuxSplitRoutes::new(share(&self.runner)).set_include(iface, cidrs),
        }
    }

    /// Removes the routes that `include_cidrs` added; failed removals are
    /// ignored; no ranges, no change.
    pub fn clear(&self, iface: &str, cidrs: &[&str]) -> (r: Result<(), CoreError>)
        ensures
            runs(&self.executor(), route_del_steps(self.platform_of(), iface@, str_views(cidrs@)), r),
    {
        match self.platform {
            Platform::Windows => WindowsSplitRoutes::new(share(&self.runner)).clear(iface, cidrs),
            Platform::MacOs => MacSplitRoutes::new(share(&self.runner)).clear(iface, cidrs),
            Platform::Linux => LinuxSplitRoutes::new(share(&self.runner)).clear(iface, cidrs),
        }
    }
}

} // verus!
