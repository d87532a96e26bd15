//! macOS: `networksetup` DNS, the PF kill switch, `route` split tunnelling,
//! the `scutil --nc` adapter and the utun interface commands.

use std::sync::Arc;

use vstd::prelude::*;

use crate::command::{
    checked_step, plan_view, push_arg, push_string_arg, queried, run_plan, run_step, runs, runs_with_file,
    step_view, string_views, CommandExecutor, CommandOutput, PlanStep, Reading, Step,
};
use crate::error::CoreError;
use crate::text::{chars_of, contains, contains_exec, eq_str, lines, lines_exec, starts_with, starts_with_exec, str_views, string_of, trim, trim_exec, trim_start_char, trim_start_char_exec, views};
use crate::traits::{CredentialStore, ProfileStore, VpnAdapter};
use crate::types::{ConnectionState, VpnProfile};

verus! {

/// The service name on one line of `networksetup -listallnetworkservices`
/// output: the trimmed line without the asterisk that marks a disabled
/// service; blank lines and the header lines give none.
pub open spec fn service_name(line: Seq<char>) -> Option<Seq<char>> {
    let name = trim(line);
    if name.len() == 0 || starts_with(name, "An asterisk"@) || name == "Network Service"@ {
        None
    } else {
        let n = trim(trim_start_char(name, '*'));
        if n.len() == 0 {
            None
        } else {
            Some(n)
        }
    }
}

/// The service names on `ls`, in order.
pub open spec fn service_names(ls: Seq<Seq<char>>) -> Seq<Seq<char>>
    decreases ls.len(),
{
    if ls.len() == 0 {
        seq![]
    } else {
        service_names(ls.drop_last()) + match service_name(ls.last()) {
            Some(n) => seq![n],
            None => seq![],
        }
    }
}

/// The network services listed in `networksetup` output.
pub open spec fn network_services(stdout: Seq<char>) -> Seq<Seq<char>> {
    service_names(lines(stdout))
}

/// The network services of a `-listallnetworkservices` run:
/// `CommandFailed(stderr)` when it failed.
pub open spec fn services_outcome(out: CommandOutput) -> Result<Seq<Seq<char>>, CoreError> {
    if out.status != 0 {
        Err(CoreError::CommandFailed(out.stderr))
    } else {
        Ok(network_services(out.stdout@))
    }
}

fn service_name_exec(line: &Vec<char>) -> (r: Option<String>)
    ensures
        match service_name(line@) {
            Some(n) => r matches Some(s) && s@ == n,
            None => r is None,
        },
{
    let name = trim_exec(line);
    if name.len() == 0 || starts_with_exec(&name, "An asterisk") || eq_str(&name, "Network Service") {
        return None;
    }
    let stripped = trim_start_char_exec(&name, '*');
    let n = trim_exec(&stripped);
    if n.len() == 0 {
        None
    } else {
        Some(string_of(&n))
    }
}

/// Reads the service names from `networksetup` output.
pub fn parse_network_services(stdout: &str) -> (r: Vec<String>)
    ensures
        string_views(r@) == network_services(stdout@),
{
    let v = chars_of(stdout);
    let ls = lines_exec(&v);
    let ghost all = views(ls@);
    let mut out: Vec<String> = Vec::new();
    let mut i: usize = 0;
    while i < ls.len()
        invariant
            i <= ls.len(),
            all == views(ls@),
            string_views(out@) == service_names(all.take(i as int)),
        decreases ls.len() - i,
    {
        assert(all[i as int] == ls@[i as int]@);
        match service_name_exec(&ls[i]) {
            Some(n) => push_string_arg(&mut out, n),
            None => {},
        }
        i = i + 1;
        assert(all.take(i as int).drop_last() =~= all.take(i - 1));
        assert(string_views(out@) =~= service_names(all.take(i as int)));
    }
    assert(all.take(ls.len() as int) =~= all);
    out
}

/// Reads a `-listallnetworkservices` run.
pub fn services_from_output(out: CommandOutput) -> (r: Result<Vec<String>, CoreError>)
    ensures
        match services_outcome(out) {
            Ok(names) => r matches Ok(v) && string_views(v@) == names,
            Err(e) => r == Err::<Vec<String>, CoreError>(e),
        },
{
    if out.status != 0 {
        return Err(CoreError::CommandFailed(out.stderr));
    }
    Ok(parse_network_services(out.stdout.as_str()))
}

/// `networksetup -setdnsservers <service> <servers...>`, with `Empty` to
/// clear.
pub open spec fn set_dns_servers_args(service: Seq<char>, servers: Seq<Seq<char>>) -> Seq<Seq<char>> {
    seq!["-setdnsservers"@, service] + if servers.len() == 0 {
        seq!["Empty"@]
    } else {
        servers
    }
}

/// DNS settings through `networksetup`.
pub struct MacDns<E: CommandExecutor> {
    runner: Arc<E>,
}

/// `networksetup -listallnetworkservices`
pub open spec fn list_services_args() -> Seq<Seq<char>> {
    seq!["-listallnetworkservices"@]
}

impl<E: CommandExecutor> MacDns<E> {
    pub fn new(executor: Arc<E>) -> (r: Self)
        ensures
            r.executor() == *executor,
    {
        MacDns { runner: executor }
    }

    /// The executor that runs the commands.
    pub closed spec fn executor(&self) -> E {
        *self.runner
    }

    /// Arguments that set (or, with no servers, clear) a service's DNS.
    pub fn set_dns_args(service: &str, servers: &[&str]) -> (r: Vec<String>)
        ensures
            string_views(r@) == set_dns_servers_args(service@, str_views(servers@)),
    {
        let mut args: Vec<String> = Vec::new();
        push_arg(&mut args, "-setdnsservers");
        push_arg(&mut args, service);
        if servers.len() == 0 {
            push_arg(&mut args, "Empty");
            assert(string_views(args@) =~= set_dns_servers_args(service@, str_views(servers@)));
            return args;
        }
        let mut i: usize = 0;
        while i < servers.len()
            invariant
                i <= servers.len(),
                servers.len() > 0,
                string_views(args@) == seq!["-setdnsservers"@, service@] + str_views(servers@).take(i as int),
            decreases servers.len() - i,
        {
            push_arg(&mut args, servers[i]);
            i = i + 1;
            assert(str_views(servers@).take(i as int) =~= str_views(servers@).take(i - 1).push(servers@[i - 1]@));
            assert(string_views(args@) =~= seq!["-setdnsservers"@, service@] + str_views(servers@).take(i as int));
        }
        assert(str_views(servers@).take(servers.len() as int) =~= str_views(servers@));
        args
    }

    /// Lists the network services: `networksetup -listallnetworkservices`
    /// read by `services_outcome`.
    pub fn list_services(&self) -> (r: Result<Vec<String>, CoreError>)
        ensures
            exists|a: Result<CommandOutput, CoreError>|
                #[trigger] self.executor().answers("networksetup"@, list_services_args(), seq![], a)
                    && match a {
                    Err(x) => r == Err::<Vec<String>, CoreError>(x),
                    Ok(o) => match services_outcome(o) {
                        Ok(names) => r matches Ok(v) && string_views(v@) == names,
                        Err(x) => r == Err::<Vec<String>, CoreError>(x),
                    },
                },
    {
        let mut args: Vec<String> = Vec::new();
        push_arg(&mut args, "-listallnetworkservices");
        assert(string_views(args@) =~= list_services_args());
        let a = self.runner.run("networksetup", &args);
        let ghost ga = a;
        let r = match a {
            Err(x) => Err(x),
            Ok(out) => services_from_output(out),
        };
        assert(self.executor().answers("networksetup"@, list_services_args(), seq![], ga));
        r
    }

    /// Sets the DNS servers of a service (`Empty` clears them).
    pub fn set_dns_for_service(&self, service: &str, servers: &[&str]) -> (r: Result<(), CoreError>)
        ensures
            runs(
                &self.executor(),
                seq![checked_step("networksetup"@, set_dns_servers_args(service@, str_views(servers@)))],
                r,
            ),
    {
        run_step(&*self.runner, "networksetup", Self::set_dns_args(service, servers), Reading::Checked)
    }
}

/// One `pass out quick to <ip> keep state` line per address.
pub open spec fn pf_pass_rules(ips: Seq<Seq<char>>) -> Seq<char>
    decreases ips.len(),
{
    if ips.len() == 0 {
        seq![]
    } else {
        pf_pass_rules(ips.drop_last()) + "pass out quick to "@ + ips.last() + " keep state\n"@
    }
}

/// The PF ruleset of the kill switch: drop by default, skip loopback,
/// block everything, then pass traffic through `iface` and to the
/// control-plane addresses.
pub open spec fn pf_killswitch_rules(iface: Seq<char>, v4: Seq<Seq<char>>, v6: Seq<Seq<char>>) -> Seq<char> {
    "set block-policy drop\n"@ + "set skip on lo0\n"@ + "block all\n"@ + "pass out on "@ + iface
        + " keep state\n"@ + pf_pass_rules(v4) + pf_pass_rules(v6)
}

fn append_pass_rules(rules: &mut String, ips: &[&str])
    ensures
        final(rules)@ == old(rules)@ + pf_pass_rules(str_views(ips@)),
{
    let ghost start = rules@;
    let mut i: usize = 0;
    while i < ips.len()
        invariant
            i <= ips.len(),
            rules@ == start + pf_pass_rules(str_views(ips@).take(i as int)),
        decreases ips.len() - i,
    {
        rules.append("pass out quick to ");
        rules.append(ips[i]);
        rules.append(" keep state\n");
        i = i + 1;
        assert(str_views(ips@).take(i as int).drop_last() =~= str_views(ips@).take(i - 1));
    }
    assert(str_views(ips@).take(ips.len() as int) =~= str_views(ips@));
}

/// The PF kill switch: replaces the active ruleset while enabled and
/// reloads `/etc/pf.conf` to revert.
pub struct MacPfFirewall<E: CommandExecutor> {
    runner: Arc<E>,
}

/// After the ruleset file is written: `pfctl -e` (any exit status), then
/// `pfctl -f <path>`, checked.
pub open spec fn pf_load_steps() -> spec_fn(Seq<char>) -> Seq<Step> {
    |path: Seq<char>| seq![
        Step::Run("pfctl"@, seq!["-e"@], Reading::AnyStatus),
        checked_step("pfctl"@, seq!["-f"@, path]),
    ]
}

/// `pfctl -f /etc/pf.conf`
pub open spec fn pf_reload_args() -> Seq<Seq<char>> {
    seq!["-f"@, "/etc/pf.conf"@]
}

/// Reverting: reload `/etc/pf.conf`; when that exits non-zero, `pfctl -d`
/// (any exit status). The executor's own errors are passed on.
pub open spec fn pf_reverted<E: CommandExecutor>(e: &E, r: Result<(), CoreError>) -> bool {
    exists|a: Result<CommandOutput, CoreError>|
        #[trigger] e.answers("pfctl"@, pf_reload_args(), seq![], a) && match a {
            Err(x) => r == Err::<(), CoreError>(x),
            Ok(o) => if o.status == 0 {
                r is Ok
            } else {
                runs(e, seq![Step::Run("pfctl"@, seq!["-d"@], Reading::AnyStatus)], r)
            },
        }
}

impl<E: CommandExecutor> MacPfFirewall<E> {
    pub fn new(executor: Arc<E>) -> (r: Self)
        ensures
            r.executor() == *executor,
    {
        MacPfFirewall { runner: executor }
    }

    /// The executor that runs the commands.
    pub closed spec fn executor(&self) -> E {
        *self.runner
    }

    /// The kill switch ruleset.
    pub fn killswitch_rules(iface: &str, allow_ips_v4: &[&str], allow_ips_v6: &[&str]) -> (r: String)
        ensures
            r@ == pf_killswitch_rules(iface@, str_views(allow_ips_v4@), str_views(allow_ips_v6@)),
    {
        let mut rules = String::new();
        rules.append("set block-policy drop\n");
        rules.append("set skip on lo0\n");
        rules.append("block all\n");
        rules.append("pass out on ");
        rules.append(iface);
        rules.append(" keep state\n");
        append_pass_rules(&mut rules, allow_ips_v4);
        append_pass_rules(&mut rules, allow_ips_v6);
        rules
    }

    /// Writes the ruleset to a temporary file, enables PF (whatever that
    /// reports) and loads the file.
    pub fn apply_killswitch(&self, iface: &str, allow_ips_v4: &[&str], allow_ips_v6: &[&str]) -> (r: Result<
        (),
        CoreError,
    >)
        ensures
            runs_with_file(
                &self.executor(),
                pf_killswitch_rules(iface@, str_views(allow_ips_v4@), str_views(allow_ips_v6@)),
                pf_load_steps(),
                r,
            ),
    {
        let rules = Self::killswitch_rules(iface, allow_ips_v4, allow_ips_v6);
        let w = self.runner.write_temp_file(rules.as_str());
        let ghost gw = w;
        match w {
            Err(x) => {
                assert(self.runner.writes_temp(rules@, gw));
                Err(x)
            },
            Ok(path) => {
                let mut enable: Vec<String> = Vec::new();
                push_arg(&mut enable, "-e");
                let mut load: Vec<String> = Vec::new();
                push_arg(&mut load, "-f");
                push_arg(&mut load, path.as_str());
                let mut plan: Vec<PlanStep> = Vec::new();
                assert(string_views(enable@) =~= seq!["-e"@]);
                assert(string_views(load@) =~= seq!["-f"@, path@]);
                plan.push(PlanStep::Run("pfctl", enable, Reading::AnyStatus));
                plan.push(PlanStep::Run("pfctl", load, Reading::Checked));
                assert(plan_view(plan@) =~= (pf_load_steps())(path@));
                let r = run_plan(&*self.runner, &plan);
                assert(self.runner.writes_temp(rules@, gw));
                r
            },
        }
    }

    /// Reloads the system ruleset; if that fails, disables PF.
    pub fn revert(&self) -> (r: Result<(), CoreError>)
        ensures
            pf_reverted(&self.executor(), r),
    {
        let mut load: Vec<String> = Vec::new();
        push_arg(&mut load, "-f");
        push_arg(&mut load, "/etc/pf.conf");
        assert(string_views(load@) =~= pf_reload_args());
        let a = self.runner.run("pfctl", &load);
        let ghost ga = a;
        let r = match a {
            Err(x) => Err(x),
            Ok(out) => {
                if out.status != 0 {
                    let mut disable: Vec<String> = Vec::new();
                    push_arg(&mut disable, "-d");
                    assert(string_views(disable@) =~= seq!["-d"@]);
                    run_step(&*self.runner, "pfctl", disable, Reading::AnyStatus)
                } else {
                    Ok(())
                }
            },
        };
        assert(self.runner.answers("pfctl"@, pf_reload_args(), seq![], ga));
        r
    }
}

/// `route -n add|delete -net <cidr> -interface <iface>`
pub open spec fn mac_route_args(verb: Seq<char>, iface: Seq<char>, cidr: Seq<char>) -> Seq<Seq<char>> {
    seq!["-n"@, verb, "-net"@, cidr, "-interface"@, iface]
}

/// Arguments that add or delete a route through an interface.
pub fn mac_route_cmd(verb: &str, iface: &str, cidr: &str) -> (r: Vec<String>)
    ensures
        string_views(r@) == mac_route_args(verb@, iface@, cidr@),
{
    let mut args: Vec<String> = Vec::new();
    push_arg(&mut args, "-n");
    push_arg(&mut args, verb);
    push_arg(&mut args, "-net");
    push_arg(&mut args, cidr);
    push_arg(&mut args, "-interface");
    push_arg(&mut args, iface);
    assert(string_views(args@) =~= mac_route_args(verb@, iface@, cidr@));
    args
}

/// Route-based split tunnelling with `route`.
pub struct MacSplitRoutes<E: CommandExecutor> {
    runner: Arc<E>,
}

/// Adding a route per range, checked, in order.
pub open spec fn mac_route_add_steps(iface: Seq<char>, cidrs: Seq<Seq<char>>) -> Seq<Step> {
    cidrs.map_values(|c: Seq<char>| checked_step("route"@, mac_route_args("add"@, iface, c)))
}

/// Deleting each range's route; any exit status is fine.
pub open spec fn mac_route_del_steps(iface: Seq<char>, cidrs: Seq<Seq<char>>) -> Seq<Step> {
    cidrs.map_values(|c: Seq<char>| Step::Run("route"@, mac_route_args("delete"@, iface, c), Reading::AnyStatus))
}

impl<E: CommandExecutor> MacSplitRoutes<E> {
    pub fn new(executor: Arc<E>) -> (r: Self)
        ensures
            r.executor() == *executor,
    {
        MacSplitRoutes { runner: executor }
    }

    /// The executor that runs the commands.
    pub closed spec fn executor(&self) -> E {
        *self.runner
    }

    /// Routes each of `cidrs` through `iface`, stopping at the first
    /// failure.
    pub fn set_include(&self, iface: &str, cidrs: &[&str]) -> (r: Result<(), CoreError>)
        ensures
            runs(&self.executor(), mac_route_add_steps(iface@, str_views(cidrs@)), r),
    {
        let ghost want = mac_route_add_steps(iface@, str_views(cidrs@));
        let mut plan: Vec<PlanStep> = Vec::new();
        let mut i: usize = 0;
        while i < cidrs.len()
            invariant
                i <= cidrs.len(),
                want == mac_route_add_steps(iface@, str_views(cidrs@)),
                plan_view(plan@) == want.take(i as int),
            decreases cidrs.len() - i,
        {
            let ghost before = plan@;
            plan.push(PlanStep::Run("route", mac_route_cmd("add", iface, cidrs[i]), Reading::Checked));
            assert(plan@ == before.push(plan@.last()));
            assert(plan_view(plan@) =~= plan_view(before).push(step_view(plan@.last())));
            i = i + 1;
            assert(want.take(i as int) =~= want.take(i - 1).push(want[i - 1]));
        }
        assert(want.take(cidrs.len() as int) =~= want);
        run_plan(&*self.runner, &plan)
    }

    /// Deletes the routes for `cidrs`; failed deletions are ignored, the
    /// executor's own errors are passed on.
    pub fn clear(&self, iface: &str, cidrs: &[&str]) -> (r: Result<(), CoreError>)
        ensures
            runs(&self.executor(), mac_route_del_steps(iface@, str_views(cidrs@)), r),
    {
        let ghost want = mac_route_del_steps(iface@, str_views(cidrs@));
        let mut plan: Vec<PlanStep> = Vec::new();
        let mut i: usize = 0;
        while i < cidrs.len()
            invariant
                i <= cidrs.len(),
                want == mac_route_del_steps(iface@, str_views(cidrs@)),
                plan_view(plan@) == want.take(i as int),
            decreases cidrs.len() - i,
        {
            let ghost before = plan@;
            plan.push(PlanStep::Run("route", mac_route_cmd("delete", iface, cidrs[i]), Reading::AnyStatus));
            assert(plan@ == before.push(plan@.last()));
            assert(plan_view(plan@) =~= plan_view(before).push(step_view(plan@.last())));
            i = i + 1;
            assert(want.take(i as int) =~= want.take(i - 1).push(want[i - 1]));
        }
        assert(want.take(cidrs.len() as int) =~= want);
        run_plan(&*self.runner, &plan)
    }
}

/// How `scutil --nc show` output is read: the first of `Connected`,
/// `Connecting`, `Disconnected` that occurs decides.
pub open spec fn scutil_state(stdout: Seq<char>) -> ConnectionState {
    if contains(stdout, "Connected"@) {
        ConnectionState::Connected
    } else if contains(stdout, "Connecting"@) {
        ConnectionState::Connecting
    } else if contains(stdout, "Disconnected"@) {
        ConnectionState::Disconnected
    } else {
        ConnectionState::Unknown
    }
}

/// The state that a `scutil --nc show` run gives: `CommandFailed(stderr)`
/// when it failed.
pub open spec fn scutil_outcome(out: CommandOutput) -> Result<ConnectionState, CoreError> {
    if out.status != 0 {
        Err(CoreError::CommandFailed(out.stderr))
    } else {
        Ok(scutil_state(out.stdout@))
    }
}

/// Reads a `scutil --nc show` run.
pub fn scutil_status_from_output(out: CommandOutput) -> (r: Result<ConnectionState, CoreError>)
    ensures
        r == scutil_outcome(out),
{
    if out.status != 0 {
        return Err(CoreError::CommandFailed(out.stderr));
    }
    let v = chars_of(out.stdout.as_str());
    if contains_exec(&v, "Connected") {
        Ok(ConnectionState::Connected)
    } else if contains_exec(&v, "Connecting") {
        Ok(ConnectionState::Connecting)
    } else if contains_exec(&v, "Disconnected") {
        Ok(ConnectionState::Disconnected)
    } else {
        Ok(ConnectionState::Unknown)
    }
}

/// `scutil --nc <verb> <name>`
pub open spec fn scutil_args(verb: Seq<char>, name: Seq<char>) -> Seq<Seq<char>> {
    seq!["--nc"@, verb, name]
}

/// Arguments `--nc <verb> <name>`.
pub fn scutil_cmd(verb: &str, name: &str) -> (r: Vec<String>)
    ensures
        string_views(r@) == scutil_args(verb@, name@),
{
    let mut args: Vec<String> = Vec::new();
    push_arg(&mut args, "--nc");
    push_arg(&mut args, verb);
    push_arg(&mut args, name);
    assert(string_views(args@) =~= scutil_args(verb@, name@));
    args
}

/// The macOS adapter: profiles are stored, connections are driven with
/// `scutil --nc`.
pub struct MacosAdapter<E: CommandExecutor, C: CredentialStore, P: ProfileStore> {
    runner: Arc<E>,
    creds: Arc<C>,
    profiles: Arc<P>,
}

impl<E: CommandExecutor, C: CredentialStore, P: ProfileStore> MacosAdapter<E, C, P> {
    pub fn new(executor: Arc<E>, creds: Arc<C>, profiles: Arc<P>) -> (r: Self)
        ensures
            r.executor() == *executor,
            r.profiles_of() == *profiles,
    {
        MacosAdapter { runner: executor, creds, profiles }
    }

    /// The executor that runs the commands.
    pub closed spec fn executor(&self) -> E {
        *self.runner
    }

    /// The store that keeps the profiles.
    pub closed spec fn profiles_of(&self) -> P {
        *self.profiles
    }
}

impl<E: CommandExecutor, C: CredentialStore, P: ProfileStore> VpnAdapter for MacosAdapter<E, C, P> {
    open spec fn connects(&self, name: Seq<char>, result: Result<(), CoreError>) -> bool {
        runs(&self.executor(), seq![checked_step("scutil"@, scutil_args("start"@, name))], result)
    }

    open spec fn disconnects(&self, name: Seq<char>, result: Result<(), CoreError>) -> bool {
        runs(&self.executor(), seq![checked_step("scutil"@, scutil_args("stop"@, name))], result)
    }

    open spec fn reports_status(&self, name: Seq<char>, result: Result<ConnectionState, CoreError>) -> bool {
        queried(&self.executor(), "scutil"@, scutil_args("show"@, name), |o: CommandOutput| scutil_outcome(o), result)
    }

    fn init(&self) -> (r: Result<(), CoreError>)
        ensures
            r is Ok,
    {
        Ok(())
    }

    /// Stores the profile.
    fn add_profile(&self, profile: VpnProfile) -> (r: Result<(), CoreError>)
        ensures
            self.profiles_of().saves(profile, r),
    {
        self.profiles.save(&profile)
    }

    /// Deletes the stored profile.
    fn remove_profile(&self, name: &str) -> (r: Result<(), CoreError>)
        ensures
            self.profiles_of().deletes(name@, r),
    {
        self.profiles.delete(name)
    }

    fn list_profiles(&self) -> (r: Result<Vec<VpnProfile>, CoreError>)
        ensures
            self.profiles_of().lists(r),
    {
        self.profiles.list()
    }

    /// `scutil --nc start <name>`
    fn connect(&self, name: &str) -> (r: Result<(), CoreError>)
        ensures
            runs(&self.executor(), seq![checked_step("scutil"@, scutil_args("start"@, name@))], r),
    {
        run_step(&*self.runner, "scutil", scutil_cmd("start", name), Reading::Checked)
    }

    /// `scutil --nc stop <name>`
    fn disconnect(&self, name: &str) -> (r: Result<(), CoreError>)
        ensures
            runs(&self.executor(), seq![checked_step("scutil"@, scutil_args("stop"@, name@))], r),
    {
        run_step(&*self.runner, "scutil", scutil_cmd("stop", name), Reading::Checked)
    }

    /// `scutil --nc show <name>`, read by `scutil_state`.
    fn status(&self, name: &str) -> (r: Result<ConnectionState, CoreError>)
        ensures
            queried(&self.executor(), "scutil"@, scutil_args("show"@, name@), |o: CommandOutput| scutil_outcome(o), r),
    {
        let args = scutil_cmd("show", name);
        let a = self.runner.run("scutil", &args);
        let ghost ga = a;
        let r = match a {
            Err(x) => Err(x),
            Ok(out) => scutil_status_from_output(out),
        };
        assert(self.runner.answers("scutil"@, scutil_args("show"@, name@), seq![], ga));
        r
    }
}


/// The PF kill switch fails closed: before any rule that passes traffic,
/// its ruleset drops by default and blocks everything.
pub proof fn law_pf_killswitch_fails_closed(iface: Seq<char>, v4: Seq<Seq<char>>, v6: Seq<Seq<char>>)
    ensures
        ("set block-policy drop\n"@ + "set skip on lo0\n"@ + "block all\n"@).is_prefix_of(
            pf_killswitch_rules(iface, v4, v6),
        ),
{
    let p = "set block-policy drop\n"@ + "set skip on lo0\n"@ + "block all\n"@;
    let s = pf_killswitch_rules(iface, v4, v6);
    assert(s.take(p.len() as int) =~= p);
}

/// `t` occurs in `s` starting at position `k`.
pub open spec fn occurs_at(s: Seq<char>, t: Seq<char>, k: int) -> bool {
    0 <= k && k + t.len() <= s.len() && s.subrange(k, k + t.len()) == t
}

proof fn lemma_pass_line_in_rules(ips: Seq<Seq<char>>, i: int)
    requires
        0 <= i < ips.len(),
    ensures
        has_pass_line(pf_pass_rules(ips), ips[i]),
    decreases ips.len(),
{
    let line = "pass out quick to "@ + ips[i] + " keep state\n"@;
    let front = pf_pass_rules(ips.drop_last());
    if i == ips.len() - 1 {
        let k = front.len() as int;
        assert(pf_pass_rules(ips) =~= front + line);
        assert(pf_pass_rules(ips).subrange(k, k + line.len()) =~= line);
        assert(occurs_at(pf_pass_rules(ips), line, k));
    } else {
        lemma_pass_line_in_rules(ips.drop_last(), i);
        assert(ips.drop_last()[i] == ips[i]);
        let k = choose|k: int| occurs_at(front, line, k);
        assert(occurs_at(front, line, k));
        let tail = "pass out quick to "@ + ips.last() + " keep state\n"@;
        assert(pf_pass_rules(ips) =~= front + tail);
        assert(pf_pass_rules(ips).subrange(k, k + line.len()) =~= front.subrange(k, k + line.len()));
        assert(occurs_at(pf_pass_rules(ips), line, k));
    }
}

/// `rules` hold the line `pass out quick to <ip> keep state`.
pub open spec fn has_pass_line(rules: Seq<char>, ip: Seq<char>) -> bool {
    exists|k: int| occurs_at(rules, "pass out quick to "@ + ip + " keep state\n"@, k)
}

/// The PF kill switch lets every control-plane address through: for each
/// address of either family, its ruleset holds the line
/// `pass out quick to <ip> keep state`.
pub proof fn law_pf_killswitch_passes_control_plane(iface: Seq<char>, v4: Seq<Seq<char>>, v6: Seq<Seq<char>>)
    ensures
        forall|i: int| 0 <= i < v4.len() ==> has_pass_line(pf_killswitch_rules(iface, v4, v6), #[trigger] v4[i]),
        forall|i: int| 0 <= i < v6.len() ==> has_pass_line(pf_killswitch_rules(iface, v4, v6), #[trigger] v6[i]),
{
    let head = "set block-policy drop\n"@ + "set skip on lo0\n"@ + "block all\n"@ + "pass out on "@ + iface
        + " keep state\n"@;
    let a = pf_pass_rules(v4);
    let b = pf_pass_rules(v6);
    let all = pf_killswitch_rules(iface, v4, v6);
    assert(all =~= head + a + b);
    assert forall|i: int| 0 <= i < v4.len() implies has_pass_line(all, #[trigger] v4[i]) by {
        let line = "pass out quick to "@ + v4[i] + " keep state\n"@;
        lemma_pass_line_in_rules(v4, i);
        let k = choose|k: int| occurs_at(a, line, k);
        let off = head.len() + k;
        assert(all.subrange(off, off + line.len()) =~= a.subrange(k, k + line.len()));
        assert(occurs_at(all, line, off));
    }
    assert forall|i: int| 0 <= i < v6.len() implies has_pass_line(all, #[trigger] v6[i]) by {
        let line = "pass out quick to "@ + v6[i] + " keep state\n"@;
        lemma_pass_line_in_rules(v6, i);
        let k = choose|k: int| occurs_at(b, line, k);
        let off = head.len() + a.len() + k;
        assert(all.subrange(off, off + line.len()) =~= b.subrange(k, k + line.len()));
        assert(occurs_at(all, line, off));
    }
}

/// With no servers, `networksetup` is told `Empty`; otherwise it gets
/// `-setdnsservers`, the service, and then every server, in order and
/// nothing else.
pub proof fn law_set_dns_passes_every_server(service: Seq<char>, servers: Seq<Seq<char>>)
    ensures
        servers.len() == 0 ==> set_dns_servers_args(service, servers) == seq!["-setdnsservers"@, service, "Empty"@],
        servers.len() > 0 ==> {
            let a = set_dns_servers_args(service, servers);
            &&& a.len() == 2 + servers.len()
            &&& a[0] == "-setdnsservers"@
            &&& a[1] == service
            &&& forall|i: int| 0 <= i < servers.len() ==> a[2 + i] == #[trigger] servers[i]
        },
{
    assert(servers.len() == 0 ==> set_dns_servers_args(service, servers) =~= seq![
        "-setdnsservers"@,
        service,
        "Empty"@,
    ]);
}

} // verus!
