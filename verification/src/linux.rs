//! Linux: systemd-resolved DNS, nftables kill switch, NetworkManager and
//! strongSwan adapters, route-based split tunnelling and `ip` link commands.

use std::sync::Arc;

use vstd::prelude::*;

use crate::command::{
    checked_step, handed, plan_view, push_arg, push_string_arg, run_plan, run_step, runs,
    queried, runs_with_file, string_views, step_view, CommandExecutor, CommandOutput, PlanStep, Reading, Step,
};
use crate::error::CoreError;
use crate::text::{chars_of, contains, contains_exec, decimal, decimal_exec, join, join_strs, owned, str_views};
use crate::traits::{ProfileStore, VpnAdapter};
use crate::types::{ConnectionState, VpnProfile};

verus! {

/// DNS settings through systemd-resolved for one interface.
pub struct LinuxResolvedDns<E: CommandExecutor> {
    runner: Arc<E>,
}

/// `resolvectl dns <iface> <servers...>`
pub open spec fn resolved_dns_args(iface: Seq<char>, servers: Seq<Seq<char>>) -> Seq<Seq<char>> {
    seq!["dns"@, iface] + servers
}

/// `resolvectl domain <iface> ~.`: every query goes to this link.
pub open spec fn resolved_domain_args(iface: Seq<char>) -> Seq<Seq<char>> {
    seq!["domain"@, iface, "~."@]
}

/// `resolvectl revert <iface>`
pub open spec fn resolved_revert_args(iface: Seq<char>) -> Seq<Seq<char>> {
    seq!["revert"@, iface]
}

/// Setting DNS: `resolvectl dns`, then `resolvectl domain`, both checked;
/// nothing without servers.
pub open spec fn resolved_set_dns_steps(iface: Seq<char>, servers: Seq<Seq<char>>) -> Seq<Step> {
    if servers.len() == 0 {
        seq![]
    } else {
        seq![
            checked_step("resolvectl"@, resolved_dns_args(iface, servers)),
            checked_step("resolvectl"@, resolved_domain_args(iface)),
        ]
    }
}

impl<E: CommandExecutor> LinuxResolvedDns<E> {
    pub fn new(executor: Arc<E>) -> (r: Self)
        ensures
            r.executor() == *executor,
    {
        LinuxResolvedDns { runner: executor }
    }

    /// The executor that runs the commands.
    pub closed spec fn executor(&self) -> E {
        *self.runner
    }

    /// Arguments that point `iface` at `servers`.
    pub fn dns_args(iface: &str, servers: &[&str]) -> (r: Vec<String>)
        ensures
            string_views(r@) == resolved_dns_args(iface@, str_views(servers@)),
    {
        let mut args: Vec<String> = Vec::new();
        push_arg(&mut args, "dns");
        push_arg(&mut args, iface);
        let mut i: usize = 0;
        while i < servers.len()
            invariant
                i <= servers.len(),
                string_views(args@) == resolved_dns_args(iface@, str_views(servers@).take(i as int)),
            decreases servers.len() - i,
        {
            push_arg(&mut args, servers[i]);
            i = i + 1;
            assert(str_views(servers@).take(i as int) =~= str_views(servers@).take(i - 1).push(
                servers@[i - 1]@,
            ));
            assert(string_views(args@) =~= resolved_dns_args(
                iface@,
                str_views(servers@).take(i as int),
            ));
        }
        assert(str_views(servers@).take(servers.len() as int) =~= str_views(servers@));
        args
    }

    /// Arguments that route every DNS query through `iface`.
    pub fn domain_args(iface: &str) -> (r: Vec<String>)
        ensures
            string_views(r@) == resolved_domain_args(iface@),
    {
        let mut args: Vec<String> = Vec::new();
        push_arg(&mut args, "domain");
        push_arg(&mut args, iface);
        push_arg(&mut args, "~.");
        assert(string_views(args@) =~= resolved_domain_args(iface@));
        args
    }

    /// Arguments that revert the DNS settings of `iface`.
    pub fn revert_args(iface: &str) -> (r: Vec<String>)
        ensures
            string_views(r@) == resolved_revert_args(iface@),
    {
        let mut args: Vec<String> = Vec::new();
        push_arg(&mut args, "revert");
        push_arg(&mut args, iface);
        assert(string_views(args@) =~= resolved_revert_args(iface@));
        args
    }

    /// Points `iface` at `servers` and routes all queries through it. With
    /// no servers nothing is run.
    pub fn set_dns(&self, iface: &str, servers: &[&str]) -> (r: Result<(), CoreError>)
        ensures
            runs(&self.executor(), resolved_set_dns_steps(iface@, str_views(servers@)), r),
    {
        let mut plan: Vec<PlanStep> = Vec::new();
        if servers.len() > 0 {
            plan.push(PlanStep::Run("resolvectl", Self::dns_args(iface, servers), Reading::Checked));
            plan.push(PlanStep::Run("resolvectl", Self::domain_args(iface), Reading::Checked));
        }
        assert(plan_view(plan@) =~= resolved_set_dns_steps(iface@, str_views(servers@)));
        run_plan(&*self.runner, &plan)
    }

    /// Reverts the DNS settings of `iface`.
    pub fn revert(&self, iface: &str) -> (r: Result<(), CoreError>)
        ensures
            runs(&self.executor(), seq![checked_step("resolvectl"@, resolved_revert_args(iface@))], r),
    {
        run_step(&*self.runner, "resolvectl", Self::revert_args(iface), Reading::Checked)
    }
}


/// The nftables kill switch for one interface: table `inet vpn_mvp` with an
/// output chain `killswitch` that lets traffic leave through the VPN
/// interface and to the control-plane addresses and drops the rest.
pub struct LinuxNftables<E: CommandExecutor> {
    runner: Arc<E>,
}

/// The rule line that lets one user id bypass the kill switch.
pub open spec fn nft_uid_rule(uid: u32) -> Seq<char> {
    "add rule inet vpn_mvp killswitch meta skuid "@ + decimal(uid as nat) + " accept\n"@
}

/// The uid rule lines, in order.
pub open spec fn nft_uid_rules(uids: Seq<u32>) -> Seq<char>
    decreases uids.len(),
{
    if uids.len() == 0 {
        seq![]
    } else {
        nft_uid_rules(uids.drop_last()) + nft_uid_rule(uids.last())
    }
}

/// The rule that accepts traffic to an address set, or nothing for an
/// empty set. `family` is `ip` or `ip6`.
pub open spec fn nft_daddr_rule(family: Seq<char>, ips: Seq<Seq<char>>) -> Seq<char> {
    if ips.len() == 0 {
        seq![]
    } else {
        "add rule inet vpn_mvp killswitch "@ + family + " daddr { "@ + join(ips, ", "@)
            + " } accept\n"@
    }
}

/// The nft script of the kill switch.
pub open spec fn nft_killswitch_script(
    iface: Seq<char>,
    v4: Seq<Seq<char>>,
    v6: Seq<Seq<char>>,
    uids: Seq<u32>,
) -> Seq<char> {
    "add table inet vpn_mvp\n"@ + "flush table inet vpn_mvp\n"@ + "add table inet vpn_mvp\n"@
        + "add chain inet vpn_mvp killswitch { type filter hook output priority 0; policy accept; }\n"@
        + "add rule inet vpn_mvp killswitch oifname \""@ + iface + "\" accept\n"@
        + nft_daddr_rule("ip"@, v4) + nft_daddr_rule("ip6"@, v6) + nft_uid_rules(uids)
        + "add rule inet vpn_mvp killswitch counter drop\n"@
}

/// `nft -f <path>`
pub open spec fn nft_load_args(path: Seq<char>) -> Seq<Seq<char>> {
    seq!["-f"@, path]
}

/// `nft delete table inet vpn_mvp`
pub open spec fn nft_delete_args() -> Seq<Seq<char>> {
    seq!["delete"@, "table"@, "inet"@, "vpn_mvp"@]
}

/// `nft add rule inet vpn_mvp killswitch meta skuid <uid> accept`
pub open spec fn nft_allow_uid_args(uid: u32) -> Seq<Seq<char>> {
    seq![
        "add"@,
        "rule"@,
        "inet"@,
        "vpn_mvp"@,
        "killswitch"@,
        "meta"@,
        "skuid"@,
        decimal(uid as nat),
        "accept"@,
    ]
}

fn append_daddr_rule(script: &mut String, family: &str, ips: &[&str])
    ensures
        final(script)@ == old(script)@ + nft_daddr_rule(family@, str_views(ips@)),
{
    if ips.len() > 0 {
        let set = join_strs(ips, ", ");
        script.append("add rule inet vpn_mvp killswitch ");
        script.append(family);
        script.append(" daddr { ");
        script.append(set.as_str());
        script.append(" } accept\n");
    } else {
        assert(script@ + seq![] =~= script@);
    }
}

/// Loading a script file: `nft -f <path>`, checked.
pub open spec fn nft_load_steps() -> spec_fn(Seq<char>) -> Seq<Step> {
    |path: Seq<char>| seq![checked_step("nft"@, nft_load_args(path))]
}

impl<E: CommandExecutor> LinuxNftables<E> {
    pub fn new(executor: Arc<E>) -> (r: Self)
        ensures
            r.executor() == *executor,
    {
        LinuxNftables { runner: executor }
    }

    /// The executor that runs the commands.
    pub closed spec fn executor(&self) -> E {
        *self.runner
    }

    /// The kill switch script: allow `iface`, the listed addresses and the
    /// listed user ids, drop everything else.
    pub fn killswitch_script(iface: &str, allow_ips_v4: &[&str], allow_ips_v6: &[&str], allow_uids: &[u32]) -> (r: String)
        ensures
            r@ == nft_killswitch_script(iface@, str_views(allow_ips_v4@), str_views(allow_ips_v6@), allow_uids@),
    {
        let mut script = String::new();
        script.append("add table inet vpn_mvp\n");
        script.append("flush table inet vpn_mvp\n");
        script.append("add table inet vpn_mvp\n");
        script.append("add chain inet vpn_mvp killswitch { type filter hook output priority 0; policy accept; }\n");
        script.append("add rule inet vpn_mvp killswitch oifname \"");
        script.append(iface);
        script.append("\" accept\n");
        append_daddr_rule(&mut script, "ip", allow_ips_v4);
        append_daddr_rule(&mut script, "ip6", allow_ips_v6);
        let ghost base = script@;
        let mut i: usize = 0;
        while i < allow_uids.len()
            invariant
                i <= allow_uids.len(),
                script@ == base + nft_uid_rules(allow_uids@.take(i as int)),
            decreases allow_uids.len() - i,
        {
            let num = decimal_exec(allow_uids[i] as u64);
            script.append("add rule inet vpn_mvp killswitch meta skuid ");
            script.append(num.as_str());
            script.append(" accept\n");
            i = i + 1;
            assert(allow_uids@.take(i as int).drop_last() =~= allow_uids@.take(i - 1));
        }
        assert(allow_uids@.take(allow_uids.len() as int) =~= allow_uids@);
        script.append("add rule inet vpn_mvp killswitch counter drop\n");
        script
    }

    /// Arguments that load a script file.
    pub fn load_args(path: &str) -> (r: Vec<String>)
        ensures
            string_views(r@) == nft_load_args(path@),
    {
        let mut args: Vec<String> = Vec::new();
        push_arg(&mut args, "-f");
        push_arg(&mut args, path);
        assert(string_views(args@) =~= nft_load_args(path@));
        args
    }

    /// Arguments that delete the kill switch table.
    pub fn delete_args() -> (r: Vec<String>)
        ensures
            string_views(r@) == nft_delete_args(),
    {
        let mut args: Vec<String> = Vec::new();
        push_arg(&mut args, "delete");
        push_arg(&mut args, "table");
        push_arg(&mut args, "inet");
        push_arg(&mut args, "vpn_mvp");
        assert(string_views(args@) =~= nft_delete_args());
        args
    }

    /// Arguments that let one user id bypass the kill switch.
    pub fn allow_uid_args(uid: u32) -> (r: Vec<String>)
        ensures
            string_views(r@) == nft_allow_uid_args(uid),
    {
        let mut args: Vec<String> = Vec::new();
        push_arg(&mut args, "add");
        push_arg(&mut args, "rule");
        push_arg(&mut args, "inet");
        push_arg(&mut args, "vpn_mvp");
        push_arg(&mut args, "killswitch");
        push_arg(&mut args, "meta");
        push_arg(&mut args, "skuid");
        push_string_arg(&mut args, decimal_exec(uid as u64));
        push_arg(&mut args, "accept");
        assert(string_views(args@) =~= nft_allow_uid_args(uid));
        args
    }

    fn load_script(&self, script: String) -> (r: Result<(), CoreError>)
        ensures
            runs_with_file(&self.executor(), script@, nft_load_steps(), r),
    {
        let w = self.runner.write_temp_file(script.as_str());
        let ghost gw = w;
        match w {
            Err(x) => {
                assert(self.runner.writes_temp(script@, gw));
                Err(x)
            },
            Ok(path) => {
                let args = Self::load_args(path.as_str());
                let r = run_step(&*self.runner, "nft", args, Reading::Checked);
                assert(self.runner.writes_temp(script@, gw));
                r
            },
        }
    }

    /// Installs the kill switch: traffic may leave through `iface` and to
    /// the listed addresses, everything else is dropped. The script goes to
    /// a temporary file that `nft -f` loads.
    pub fn apply_killswitch(&self, iface: &str, allow_ips_v4: &[&str], allow_ips_v6: &[&str]) -> (r: Result<
        (),
        CoreError,
    >)
        ensures
            runs_with_file(
                &self.executor(),
                nft_killswitch_script(iface@, str_views(allow_ips_v4@), str_views(allow_ips_v6@), seq![]),
                nft_load_steps(),
                r,
            ),
    {
        let uids: Vec<u32> = Vec::new();
        let script = Self::killswitch_script(iface, allow_ips_v4, allow_ips_v6, uids.as_slice());
        assert(uids@ =~= seq![]);
        self.load_script(script)
    }

    /// Removes the kill switch table. A failure of `nft` (for example a
    /// missing table) is ignored; only the executor's own error is passed on.
    pub fn remove_killswitch(&self) -> (r: Result<(), CoreError>)
        ensures
            runs(&self.executor(), seq![Step::Run("nft"@, nft_delete_args(), Reading::AnyStatus)], r),
    {
        run_step(&*self.runner, "nft", Self::delete_args(), Reading::AnyStatus)
    }

    /// Lets traffic owned by `uid` bypass the kill switch.
    pub fn allow_uid(&self, uid: u32) -> (r: Result<(), CoreError>)
        ensures
            runs(&self.executor(), seq![checked_step("nft"@, nft_allow_uid_args(uid))], r),
    {
        run_step(&*self.runner, "nft", Self::allow_uid_args(uid), Reading::Checked)
    }

    /// Installs the kill switch with user ids that may bypass it.
    pub fn apply_killswitch_with_uids(
        &self,
        iface: &str,
        allow_ips_v4: &[&str],
        allow_ips_v6: &[&str],
        allow_uids: &[u32],
    ) -> (r: Result<(), CoreError>)
        ensures
            runs_with_file(
                &self.executor(),
                nft_killswitch_script(iface@, str_views(allow_ips_v4@), str_views(allow_ips_v6@), allow_uids@),
                nft_load_steps(),
                r,
            ),
    {
        let script = Self::killswitch_script(iface, allow_ips_v4, allow_ips_v6, allow_uids);
        self.load_script(script)
    }
}


/// How `nmcli -t -f GENERAL.STATE connection show` output is read: the first
/// of "activated", "activating", "deactivated" that occurs decides.
pub open spec fn nm_state(stdout: Seq<char>) -> ConnectionState {
    if contains(stdout, "activated"@) {
        ConnectionState::Connected
    } else if contains(stdout, "activating"@) {
        ConnectionState::Connecting
    } else if contains(stdout, "deactivated"@) {
        ConnectionState::Disconnected
    } else {
        ConnectionState::Unknown
    }
}

/// Reads the connection state that `nmcli` printed.
pub fn parse_nm_state(stdout: &str) -> (r: ConnectionState)
    ensures
        r == nm_state(stdout@),
{
    let v = chars_of(stdout);
    if contains_exec(&v, "activated") {
        ConnectionState::Connected
    } else if contains_exec(&v, "activating") {
        ConnectionState::Connecting
    } else if contains_exec(&v, "deactivated") {
        ConnectionState::Disconnected
    } else {
        ConnectionState::Unknown
    }
}

/// The status that a status command's output gives: `CommandFailed(stderr)`
/// on a non-zero exit, otherwise the state read from standard output.
pub open spec fn state_outcome(out: CommandOutput, read: spec_fn(Seq<char>) -> ConnectionState) -> Result<
    ConnectionState,
    CoreError,
> {
    if out.status != 0 {
        Err(CoreError::CommandFailed(out.stderr))
    } else {
        Ok(read(out.stdout@))
    }
}

/// `nmcli connection <verb> id <name>`
pub open spec fn nm_connection_args(verb: Seq<char>, name: Seq<char>) -> Seq<Seq<char>> {
    seq!["connection"@, verb, "id"@, name]
}

/// `nmcli -t -f GENERAL.STATE connection show <name>`
pub open spec fn nm_status_args(name: Seq<char>) -> Seq<Seq<char>> {
    seq!["-t"@, "-f"@, "GENERAL.STATE"@, "connection"@, "show"@, name]
}

/// Arguments `connection <verb> id <name>`.
pub fn nm_connection_cmd(verb: &str, name: &str) -> (r: Vec<String>)
    ensures
        string_views(r@) == nm_connection_args(verb@, name@),
{
    let mut args: Vec<String> = Vec::new();
    push_arg(&mut args, "connection");
    push_arg(&mut args, verb);
    push_arg(&mut args, "id");
    push_arg(&mut args, name);
    assert(string_views(args@) =~= nm_connection_args(verb@, name@));
    args
}

/// Arguments that ask NetworkManager for a connection's state.
pub fn nm_status_cmd(name: &str) -> (r: Vec<String>)
    ensures
        string_views(r@) == nm_status_args(name@),
{
    let mut args: Vec<String> = Vec::new();
    push_arg(&mut args, "-t");
    push_arg(&mut args, "-f");
    push_arg(&mut args, "GENERAL.STATE");
    push_arg(&mut args, "connection");
    push_arg(&mut args, "show");
    push_arg(&mut args, name);
    assert(string_views(args@) =~= nm_status_args(name@));
    args
}

/// Reads the output of the NetworkManager status command.
pub fn nm_status_from_output(out: CommandOutput) -> (r: Result<ConnectionState, CoreError>)
    ensures
        r == state_outcome(out, |s: Seq<char>| nm_state(s)),
{
    if out.status != 0 {
        return Err(CoreError::CommandFailed(out.stderr));
    }
    Ok(parse_nm_state(out.stdout.as_str()))
}

/// The NetworkManager (`nmcli`) adapter.
pub struct LinuxNmAdapter<E: CommandExecutor, P: ProfileStore> {
    runner: Arc<E>,
    profiles: Arc<P>,
}

impl<E: CommandExecutor, P: ProfileStore> LinuxNmAdapter<E, P> {
    pub fn new(executor: Arc<E>, profiles: Arc<P>) -> (r: Self)
        ensures
            r.executor() == *executor,
            r.profiles_of() == *profiles,
    {
        LinuxNmAdapter { runner: executor, profiles }
    }

    /// The executor that runs the commands.
    pub closed spec fn executor(&self) -> E {
        *self.runner
    }

    /// The store that keeps the profiles.
    pub closed spec fn profiles_of(&self) -> P {
        *self.profiles
    }
}

impl<E: CommandExecutor, P: ProfileStore> VpnAdapter for LinuxNmAdapter<E, P> {
    open spec fn connects(&self, name: Seq<char>, result: Result<(), CoreError>) -> bool {
        runs(&self.executor(), seq![checked_step("nmcli"@, nm_connection_args("up"@, name))], result)
    }

    open spec fn disconnects(&self, name: Seq<char>, result: Result<(), CoreError>) -> bool {
        runs(&self.executor(), seq![checked_step("nmcli"@, nm_connection_args("down"@, name))], result)
    }

    open spec fn reports_status(&self, name: Seq<char>, result: Result<ConnectionState, CoreError>) -> bool {
        queried(
            &self.executor(),
            "nmcli"@,
            nm_status_args(name),
            |o: CommandOutput| state_outcome(o, |s: Seq<char>| nm_state(s)),
            result,
        )
    }

    fn init(&self) -> (r: Result<(), CoreError>)
        ensures
            r is Ok,
    {
        Ok(())
    }

    /// Stores the profile.
    fn add_profile(&self, profile: VpnProfile) -> (r: Result<(), CoreError>)
        ensures
            self.profiles_of().saves(profile, r),
    {
        self.profiles.save(&profile)
    }

    /// Deletes any NetworkManager connection of that name (errors ignored)
    /// and then the stored profile.
    fn remove_profile(&self, name: &str) -> (r: Result<(), CoreError>)
        ensures
            handed(&self.executor(), "nmcli"@, nm_connection_args("delete"@, name@)),
            self.profiles_of().deletes(name@, r),
    {
        let args = nm_connection_cmd("delete", name);
        let a = self.runner.run("nmcli", &args);
        let ghost ga = a;
        assert(self.runner.answers("nmcli"@, nm_connection_args("delete"@, name@), seq![], ga));
        self.profiles.delete(name)
    }

    fn list_profiles(&self) -> (r: Result<Vec<VpnProfile>, CoreError>)
        ensures
            self.profiles_of().lists(r),
    {
        self.profiles.list()
    }

    /// `nmcli connection up id <name>`
    fn connect(&self, name: &str) -> (r: Result<(), CoreError>)
        ensures
            runs(&self.executor(), seq![checked_step("nmcli"@, nm_connection_args("up"@, name@))], r),
    {
        run_step(&*self.runner, "nmcli", nm_connection_cmd("up", name), Reading::Checked)
    }

    /// `nmcli connection down id <name>`
    fn disconnect(&self, name: &str) -> (r: Result<(), CoreError>)
        ensures
            runs(&self.executor(), seq![checked_step("nmcli"@, nm_connection_args("down"@, name@))], r),
    {
        run_step(&*self.runner, "nmcli", nm_connection_cmd("down", name), Reading::Checked)
    }

    /// The connection's state as `nmcli` reports it.
    fn status(&self, name: &str) -> (r: Result<ConnectionState, CoreError>)
        ensures
            queried(
                &self.executor(),
                "nmcli"@,
                nm_status_args(name@),
                |o: CommandOutput| state_outcome(o, |s: Seq<char>| nm_state(s)),
                r,
            ),
    {
        let args = nm_status_cmd(name);
        let a = self.runner.run("nmcli", &args);
        let ghost ga = a;
        let r = match a {
            Err(x) => Err(x),
            Ok(out) => nm_status_from_output(out),
        };
        assert(self.runner.answers("nmcli"@, nm_status_args(name@), seq![], ga));
        r
    }
}

/// How `swanctl --list-sas` output is read: the child SA is up when its
/// name occurs.
pub open spec fn swanctl_state(stdout: Seq<char>, name: Seq<char>) -> ConnectionState {
    if contains(stdout, name) {
        ConnectionState::Connected
    } else {
        ConnectionState::Disconnected
    }
}

/// `swanctl <flag> --child <name>`
pub open spec fn swanctl_child_args(flag: Seq<char>, name: Seq<char>) -> Seq<Seq<char>> {
    seq![flag, "--child"@, name]
}

/// Arguments `<flag> --child <name>`.
pub fn swanctl_child_cmd(flag: &str, name: &str) -> (r: Vec<String>)
    ensures
        string_views(r@) == swanctl_child_args(flag@, name@),
{
    let mut args: Vec<String> = Vec::new();
    push_arg(&mut args, flag);
    push_arg(&mut args, "--child");
    push_arg(&mut args, name);
    assert(string_views(args@) =~= swanctl_child_args(flag@, name@));
    args
}

/// Reads the output of `swanctl --list-sas` for child `name`.
pub fn swanctl_status_from_output(out: CommandOutput, name: &str) -> (r: Result<
    ConnectionState,
    CoreError,
>)
    ensures
        r == state_outcome(out, |s: Seq<char>| swanctl_state(s, name@)),
{
    if out.status != 0 {
        return Err(CoreError::CommandFailed(out.stderr));
    }
    let v = chars_of(out.stdout.as_str());
    if contains_exec(&v, name) {
        Ok(ConnectionState::Connected)
    } else {
        Ok(ConnectionState::Disconnected)
    }
}

/// The strongSwan (`swanctl`) adapter.
pub struct LinuxSwanctlAdapter<E: CommandExecutor, P: ProfileStore> {
    runner: Arc<E>,
    profiles: Arc<P>,
}

impl<E: CommandExecutor, P: ProfileStore> LinuxSwanctlAdapter<E, P> {
    pub fn new(executor: Arc<E>, profiles: Arc<P>) -> (r: Self)
        ensures
            r.executor() == *executor,
            r.profiles_of() == *profiles,
    {
        LinuxSwanctlAdapter { runner: executor, profiles }
    }

    /// The executor that runs the commands.
    pub closed spec fn executor(&self) -> E {
        *self.runner
    }

    /// The store that keeps the profiles.
    pub closed spec fn profiles_of(&self) -> P {
        *self.profiles
    }
}

impl<E: CommandExecutor, P: ProfileStore> VpnAdapter for LinuxSwanctlAdapter<E, P> {
    open spec fn connects(&self, name: Seq<char>, result: Result<(), CoreError>) -> bool {
        runs(&self.executor(), seq![checked_step("swanctl"@, swanctl_child_args("--initiate"@, name))], result)
    }

    open spec fn disconnects(&self, name: Seq<char>, result: Result<(), CoreError>) -> bool {
        runs(&self.executor(), seq![checked_step("swanctl"@, swanctl_child_args("--terminate"@, name))], result)
    }

    open spec fn reports_status(&self, name: Seq<char>, result: Result<ConnectionState, CoreError>) -> bool {
        queried(
            &self.executor(),
            "swanctl"@,
            seq!["--list-sas"@],
            |o: CommandOutput| state_outcome(o, |s: Seq<char>| swanctl_state(s, name)),
            result,
        )
    }

    fn init(&self) -> (r: Result<(), CoreError>)
        ensures
            r is Ok,
    {
        Ok(())
    }

    /// Stores the profile.
    fn add_profile(&self, profile: VpnProfile) -> (r: Result<(), CoreError>)
        ensures
            self.profiles_of().saves(profile, r),
    {
        self.profiles.save(&profile)
    }

    /// Terminates the child SA (errors ignored) and deletes the profile.
    fn remove_profile(&self, name: &str) -> (r: Result<(), CoreError>)
        ensures
            handed(&self.executor(), "swanctl"@, swanctl_child_args("--terminate"@, name@)),
            self.profiles_of().deletes(name@, r),
    {
        let args = swanctl_child_cmd("--terminate", name);
        let a = self.runner.run("swanctl", &args);
        let ghost ga = a;
        assert(self.runner.answers("swanctl"@, swanctl_child_args("--terminate"@, name@), seq![], ga));
        self.profiles.delete(name)
    }

    fn list_profiles(&self) -> (r: Result<Vec<VpnProfile>, CoreError>)
        ensures
            self.profiles_of().lists(r),
    {
        self.profiles.list()
    }

    /// `swanctl --initiate --child <name>`
    fn connect(&self, name: &str) -> (r: Result<(), CoreError>)
        ensures
            runs(&self.executor(), seq![checked_step("swanctl"@, swanctl_child_args("--initiate"@, name@))], r),
    {
        run_step(&*self.runner, "swanctl", swanctl_child_cmd("--initiate", name), Reading::Checked)
    }

    /// `swanctl --terminate --child <name>`
    fn disconnect(&self, name: &str) -> (r: Result<(), CoreError>)
        ensures
            runs(&self.executor(), seq![checked_step("swanctl"@, swanctl_child_args("--terminate"@, name@))], r),
    {
        run_step(&*self.runner, "swanctl", swanctl_child_cmd("--terminate", name), Reading::Checked)
    }

    /// Connected when `swanctl --list-sas` names the child SA.
    fn status(&self, name: &str) -> (r: Result<ConnectionState, CoreError>)
        ensures
            queried(
                &self.executor(),
                "swanctl"@,
                seq!["--list-sas"@],
                |o: CommandOutput| state_outcome(o, |s: Seq<char>| swanctl_state(s, name@)),
                r,
            ),
    {
        let mut args: Vec<String> = Vec::new();
        push_arg(&mut args, "--list-sas");
        assert(string_views(args@) =~= seq!["--list-sas"@]);
        let a = self.runner.run("swanctl", &args);
        let ghost ga = a;
        let r = match a {
            Err(x) => Err(x),
            Ok(out) => swanctl_status_from_output(out, name),
        };
        assert(self.runner.answers("swanctl"@, seq!["--list-sas"@], seq![], ga));
        r
    }
}


/// `ip route replace <cidr> dev <iface>`, with `metric 100` for the default
/// routes `0.0.0.0/0` and `::/0` so that they win over the usual ones.
pub open spec fn linux_route_add_args(iface: Seq<char>, cidr: Seq<char>) -> Seq<Seq<char>> {
    if cidr == "0.0.0.0/0"@ || cidr == "::/0"@ {
        seq!["route"@, "replace"@, cidr, "dev"@, iface, "metric"@, "100"@]
    } else {
        seq!["route"@, "replace"@, cidr, "dev"@, iface]
    }
}

/// `ip route del <cidr> dev <iface>`
pub open spec fn linux_route_del_args(iface: Seq<char>, cidr: Seq<char>) -> Seq<Seq<char>> {
    seq!["route"@, "del"@, cidr, "dev"@, iface]
}

/// Route-based split tunnelling with `ip route`.
pub struct LinuxSplitRoutes<E: CommandExecutor> {
    runner: Arc<E>,
}

/// Routing each range through `iface`, checked, in order.
pub open spec fn linux_route_add_steps(iface: Seq<char>, cidrs: Seq<Seq<char>>) -> Seq<Step> {
    cidrs.map_values(|c: Seq<char>| checked_step("ip"@, linux_route_add_args(iface, c)))
}

/// Removing each range's route; any exit status is fine.
pub open spec fn linux_route_del_steps(iface: Seq<char>, cidrs: Seq<Seq<char>>) -> Seq<Step> {
    cidrs.map_values(|c: Seq<char>| Step::Run("ip"@, linux_route_del_args(iface, c), Reading::AnyStatus))
}

impl<E: CommandExecutor> LinuxSplitRoutes<E> {
    pub fn new(executor: Arc<E>) -> (r: Self)
        ensures
            r.executor() == *executor,
    {
        LinuxSplitRoutes { runner: executor }
    }

    /// The executor that runs the commands.
    pub closed spec fn executor(&self) -> E {
        *self.runner
    }

    /// Arguments that route `cidr` through `iface`.
    pub fn route_add_args(iface: &str, cidr: &str) -> (r: Vec<String>)
        ensures
            string_views(r@) == linux_route_add_args(iface@, cidr@),
    {
        let c = chars_of(cidr);
        let default_route = crate::text::eq_str(&c, "0.0.0.0/0") || crate::text::eq_str(&c, "::/0");
        let mut args: Vec<String> = Vec::new();
        push_arg(&mut args, "route");
        push_arg(&mut args, "replace");
        push_arg(&mut args, cidr);
        push_arg(&mut args, "dev");
        push_arg(&mut args, iface);
        if default_route {
            push_arg(&mut args, "metric");
            push_arg(&mut args, "100");
        }
        assert(string_views(args@) =~= linux_route_add_args(iface@, cidr@));
        args
    }

    /// Arguments that remove the route for `cidr` through `iface`.
    pub fn route_del_args(iface: &str, cidr: &str) -> (r: Vec<String>)
        ensures
            string_views(r@) == linux_route_del_args(iface@, cidr@),
    {
        let mut args: Vec<String> = Vec::new();
        push_arg(&mut args, "route");
        push_arg(&mut args, "del");
        push_arg(&mut args, cidr);
        push_arg(&mut args, "dev");
        push_arg(&mut args, iface);
        assert(string_views(args@) =~= linux_route_del_args(iface@, cidr@));
        args
    }

    /// Routes each of `cidrs` through `iface`, in order, stopping at the
    /// first failure.
    pub fn set_include(&self, iface: &str, cidrs: &[&str]) -> (r: Result<(), CoreError>)
        ensures
            runs(&self.executor(), linux_route_add_steps(iface@, str_views(cidrs@)), r),
    {
        let ghost want = linux_route_add_steps(iface@, str_views(cidrs@));
        let mut plan: Vec<PlanStep> = Vec::new();
        let mut i: usize = 0;
        while i < cidrs.len()
            invariant
                i <= cidrs.len(),
                want == linux_route_add_steps(iface@, str_views(cidrs@)),
                plan_view(plan@) == want.take(i as int),
            decreases cidrs.len() - i,
        {
            let ghost before = plan@;
            plan.push(PlanStep::Run("ip", Self::route_add_args(iface, cidrs[i]), Reading::Checked));
            assert(plan@ == before.push(plan@.last()));
            assert(plan_view(plan@) =~= plan_view(before).push(step_view(plan@.last())));
            i = i + 1;
            assert(want.take(i as int) =~= want.take(i - 1).push(want[i - 1]));
        }
        assert(want.take(cidrs.len() as int) =~= want);
        run_plan(&*self.runner, &plan)
    }

    /// Removes the routes for `cidrs`; `ip` failures are ignored, the
    /// executor's own errors are passed on.
    pub fn clear(&self, iface: &str, cidrs: &[&str]) -> (r: Result<(), CoreError>)
        ensures
            runs(&self.executor(), linux_route_del_steps(iface@, str_views(cidrs@)), r),
    {
        let ghost want = linux_route_del_steps(iface@, str_views(cidrs@));
        let mut plan: Vec<PlanStep> = Vec::new();
        let mut i: usize = 0;
        while i < cidrs.len()
            invariant
                i <= cidrs.len(),
                want == linux_route_del_steps(iface@, str_views(cidrs@)),
                plan_view(plan@) == want.take(i as int),
            decreases cidrs.len() - i,
        {
            let ghost before = plan@;
            plan.push(PlanStep::Run("ip", Self::route_del_args(iface, cidrs[i]), Reading::AnyStatus));
            assert(plan@ == before.push(plan@.last()));
            assert(plan_view(plan@) =~= plan_view(before).push(step_view(plan@.last())));
            i = i + 1;
            assert(want.take(i as int) =~= want.take(i - 1).push(want[i - 1]));
        }
        assert(want.take(cidrs.len() as int) =~= want);
        run_plan(&*self.runner, &plan)
    }
}


/// The nftables kill switch fails closed: its script ends with the rule
/// that drops whatever no earlier rule accepted.
pub proof fn law_nft_killswitch_fails_closed(
    iface: Seq<char>,
    v4: Seq<Seq<char>>,
    v6: Seq<Seq<char>>,
    uids: Seq<u32>,
)
    ensures
        "add rule inet vpn_mvp killswitch counter drop\n"@.is_suffix_of(nft_killswitch_script(iface, v4, v6, uids)),
{
    let d = "add rule inet vpn_mvp killswitch counter drop\n"@;
    let s = nft_killswitch_script(iface, v4, v6, uids);
    let pre = s.take(s.len() - d.len());
    assert(s =~= pre + d);
    assert(s.subrange(s.len() - d.len(), s.len() as int) =~= d);
}

} // verus!
