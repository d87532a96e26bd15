//! Windows: PowerShell scripts for DNS, the firewall kill switch and routes,
//! the RAS (`rasdial`) adapter and the Wintun interface commands.

use std::sync::Arc;

use vstd::prelude::*;

use crate::command::{
    checked_step, plan_view, queried, push_arg, push_string_arg, run_plan, run_step, runs, step_view, string_views,
    CommandExecutor, CommandOutput, PlanStep, Reading, Step,
};
use crate::error::{is_invalid_input, CoreError};
use crate::text::{
    chars_of, concat2, concat3, contains, contains_exec, decimal, decimal_exec, eq_str, join,
    join_strings, lines, lines_exec, owned, push_char, str_views, string_of, trim, trim_exec,
};
use crate::traits::{CredentialStore, ProfileStore, VpnAdapter};
use crate::types::{AuthMethod, ConnectionState, VpnProfile};
use crate::wg::{ipv4_text, ipv4_to_string, DeviceAddress, TunBackend};
use crate::ipv6::{ipv6_text, ipv6_to_string};

verus! {

/// `powershell -NoProfile -NonInteractive -Command <script>`
pub open spec fn ps_args(script: Seq<char>) -> Seq<Seq<char>> {
    seq!["-NoProfile"@, "-NonInteractive"@, "-Command"@, script]
}

/// Running one PowerShell script, its answer read as `reading` says.
pub open spec fn ps_step(script: Seq<char>, reading: Reading) -> Step {
    Step::Run("powershell"@, ps_args(script), reading)
}

/// The PowerShell arguments that run one script.
pub fn powershell_args(script: &str) -> (r: Vec<String>)
    ensures
        string_views(r@) == ps_args(script@),
{
    let mut args: Vec<String> = Vec::new();
    push_arg(&mut args, "-NoProfile");
    push_arg(&mut args, "-NonInteractive");
    push_arg(&mut args, "-Command");
    push_arg(&mut args, script);
    assert(string_views(args@) =~= ps_args(script@));
    args
}

/// One character inside a single-quoted PowerShell string: a quote is
/// written twice.
pub open spec fn ps_quote_piece(c: char) -> Seq<char> {
    if c == '\'' {
        seq!['\'', '\'']
    } else {
        seq![c]
    }
}

/// `s` with every single quote doubled, ready to stand between single
/// quotes in a PowerShell script.
pub open spec fn escape_ps_text(s: Seq<char>) -> Seq<char>
    decreases s.len(),
{
    if s.len() == 0 {
        seq![]
    } else {
        escape_ps_text(s.drop_last()) + ps_quote_piece(s.last())
    }
}

/// How PowerShell reads the inside of a single-quoted string: two quotes in
/// a row stand for one.
pub open spec fn ps_unescape(t: Seq<char>) -> Seq<char>
    decreases t.len(),
{
    if t.len() == 0 {
        seq![]
    } else if t.len() >= 2 && t[0] == '\'' && t[1] == '\'' {
        seq!['\''] + ps_unescape(t.subrange(2, t.len() as int))
    } else {
        seq![t[0]] + ps_unescape(t.subrange(1, t.len() as int))
    }
}

proof fn lemma_escape_ps_append(a: Seq<char>, b: Seq<char>)
    ensures
        escape_ps_text(a + b) == escape_ps_text(a) + escape_ps_text(b),
    decreases b.len(),
{
    if b.len() == 0 {
        assert(a + b =~= a);
        assert(escape_ps_text(a) + seq![] =~= escape_ps_text(a));
    } else {
        lemma_escape_ps_append(a, b.drop_last());
        assert((a + b).drop_last() =~= a + b.drop_last());
        assert((a + b).last() == b.last());
    }
}

/// Escaping is undone by PowerShell's reading: a name quoted with
/// `escape_ps` reaches PowerShell unchanged, whatever quotes it holds.
pub proof fn law_escape_ps_round_trip(s: Seq<char>)
    ensures
        ps_unescape(escape_ps_text(s)) == s,
    decreases s.len(),
{
    if s.len() > 0 {
        let c = s[0];
        let rest = s.drop_first();
        assert(s =~= seq![c] + rest);
        lemma_escape_ps_append(seq![c], rest);
        assert(seq![c].drop_last() =~= Seq::<char>::empty());
        reveal_with_fuel(escape_ps_text, 2);
        assert(escape_ps_text(seq![c]) =~= ps_quote_piece(c));
        let t = escape_ps_text(s);
        law_escape_ps_round_trip(rest);
        if c == '\'' {
            assert(t.subrange(2, t.len() as int) =~= escape_ps_text(rest));
        } else {
            assert(t.subrange(1, t.len() as int) =~= escape_ps_text(rest));
        }
    }
}

/// Doubles the single quotes of `s` (for a single-quoted PowerShell string).
pub fn escape_ps(s: &str) -> (r: String)
    ensures
        r@ == escape_ps_text(s@),
{
    let v = chars_of(s);
    let mut r = String::new();
    let mut i: usize = 0;
    while i < v.len()
        invariant
            i <= v.len(),
            v@ == s@,
            r@ == escape_ps_text(v@.take(i as int)),
        decreases v.len() - i,
    {
        let c = v[i];
        push_char(&mut r, c);
        if c == '\'' {
            push_char(&mut r, '\'');
        }
        i = i + 1;
        assert(v@.take(i as int).drop_last() =~= v@.take(i - 1));
    }
    assert(v@.take(v.len() as int) =~= v@);
    r
}

/// PowerShell's boolean literal.
pub fn ps_bool(b: bool) -> (r: &'static str)
    ensures
        r@ == (if b {
            "$true"@
        } else {
            "$false"@
        }),
{
    if b {
        "$true"
    } else {
        "$false"
    }
}

/// A single-quoted, escaped PowerShell string.
pub open spec fn ps_quoted(s: Seq<char>) -> Seq<char> {
    "'"@ + escape_ps_text(s) + "'"@
}

/// The quoted DNS servers of a profile.
pub open spec fn ps_quoted_all(servers: Seq<String>) -> Seq<Seq<char>> {
    servers.map_values(|s: String| ps_quoted(s@))
}

/// The pieces of the `Add-VpnConnection` command for a profile, in order.
pub open spec fn add_vpn_parts(p: VpnProfile) -> Seq<Seq<char>> {
    seq![
        "Add-VpnConnection -Name "@ + ps_quoted(p.name@) + " -ServerAddress "@ + ps_quoted(p.server@),
        "-TunnelType IKEv2"@,
        "-AuthenticationMethod EAP"@,
    ] + (match p.remote_id {
        Some(r) => seq!["-DnsSuffix "@ + ps_quoted(r@) + " -RememberCredential:$false"@],
        None => seq![],
    }) + (if p.split_tunnel.enabled {
        seq!["-SplitTunneling $true"@]
    } else {
        seq![]
    }) + (if p.dns.servers@.len() > 0 {
        seq!["-DnsServerAddress @("@ + join(ps_quoted_all(p.dns.servers@), ","@) + ")"@]
    } else {
        seq![]
    }) + seq!["-Force -PassThru | Out-Null"@]
}

/// The script that provisions an IKEv2 profile: its pieces joined by
/// spaces.
pub open spec fn add_vpn_script(p: VpnProfile) -> Seq<char> {
    join(add_vpn_parts(p), " "@)
}

fn ps_quoted_exec(s: &str) -> (r: String)
    ensures
        r@ == ps_quoted(s@),
{
    let e = escape_ps(s);
    concat3("'", e.as_str(), "'")
}

/// The `Add-VpnConnection` script for a profile.
pub fn build_add_vpn_ps(p: &VpnProfile) -> (r: String)
    ensures
        r@ == add_vpn_script(*p),
{
    let mut parts: Vec<String> = Vec::new();
    let name = ps_quoted_exec(p.name.as_str());
    let server = ps_quoted_exec(p.server.as_str());
    let mut first = concat2("Add-VpnConnection -Name ", name.as_str());
    first.append(" -ServerAddress ");
    first.append(server.as_str());
    push_string_arg(&mut parts, first);
    push_arg(&mut parts, "-TunnelType IKEv2");
    push_arg(&mut parts, "-AuthenticationMethod EAP");
    let ghost base = string_views(parts@);
    match &p.remote_id {
        Some(r) => {
            let q = ps_quoted_exec(r.as_str());
            push_string_arg(&mut parts, concat3("-DnsSuffix ", q.as_str(), " -RememberCredential:$false"));
        },
        None => {},
    }
    let ghost with_remote = string_views(parts@);
    if p.split_tunnel.enabled {
        let b = ps_bool(true);
        push_string_arg(&mut parts, concat2("-SplitTunneling ", b));
        proof {
            reveal_strlit("$true");
            reveal_strlit("-SplitTunneling ");
            reveal_strlit("-SplitTunneling $true");
            assert("-SplitTunneling "@ + "$true"@ =~= "-SplitTunneling $true"@);
        }
    }
    let ghost with_split = string_views(parts@);
    if p.dns.servers.len() > 0 {
        let mut quoted: Vec<String> = Vec::new();
        let mut i: usize = 0;
        while i < p.dns.servers.len()
            invariant
                i <= p.dns.servers.len(),
                string_views(quoted@) == ps_quoted_all(p.dns.servers@.take(i as int)),
            decreases p.dns.servers.len() - i,
        {
            let q = ps_quoted_exec(p.dns.servers[i].as_str());
            push_string_arg(&mut quoted, q);
            i = i + 1;
            assert(ps_quoted_all(p.dns.servers@.take(i as int)) =~= ps_quoted_all(
                p.dns.servers@.take(i - 1),
            ).push(ps_quoted(p.dns.servers@[i - 1]@)));
        }
        assert(p.dns.servers@.take(p.dns.servers.len() as int) =~= p.dns.servers@);
        assert(quoted@.map_values(|s: String| s@) =~= string_views(quoted@));
        let list = join_strings(&quoted, ",");
        push_string_arg(&mut parts, concat3("-DnsServerAddress @(", list.as_str(), ")"));
    }
    push_arg(&mut parts, "-Force -PassThru | Out-Null");
    proof {
        let pp = *p;
        let s1 = seq![
            "Add-VpnConnection -Name "@ + ps_quoted(pp.name@) + " -ServerAddress "@ + ps_quoted(pp.server@),
            "-TunnelType IKEv2"@,
            "-AuthenticationMethod EAP"@,
        ];
        assert(base =~= s1);
        let s2 = s1 + (match pp.remote_id {
            Some(r) => seq!["-DnsSuffix "@ + ps_quoted(r@) + " -RememberCredential:$false"@],
            None => seq![],
        });
        assert(with_remote =~= s2);
        let s3 = s2 + (if pp.split_tunnel.enabled {
            seq!["-SplitTunneling $true"@]
        } else {
            seq![]
        });
        assert(with_split =~= s3);
        assert(string_views(parts@) =~= add_vpn_parts(*p));
        assert(parts@.map_values(|s: String| s@) =~= string_views(parts@));
    }
    join_strings(&parts, " ")
}


/// `s` between double quotes.
pub open spec fn dquoted(s: Seq<char>) -> Seq<char> {
    "\""@ + s + "\""@
}

/// `s` between double quotes.
pub fn dquoted_exec(s: &str) -> (r: String)
    ensures
        r@ == dquoted(s@),
{
    concat3("\"", s, "\"")
}

/// Each text between double quotes.
pub open spec fn dquoted_all(v: Seq<Seq<char>>) -> Seq<Seq<char>> {
    v.map_values(|s: Seq<char>| dquoted(s))
}

/// The script that points an interface at DNS servers, or resets it to
/// the automatic servers when there are none.
pub open spec fn windows_dns_script(iface: Seq<char>, servers: Seq<Seq<char>>) -> Seq<char> {
    if servers.len() == 0 {
        "Set-DnsClientServerAddress -InterfaceAlias "@ + dquoted(iface) + " -ResetServerAddresses"@
    } else {
        "Set-DnsClientServerAddress -InterfaceAlias "@ + dquoted(iface) + " -ServerAddresses @("@
            + join(dquoted_all(servers), ","@) + ")"@
    }
}

/// DNS settings through `Set-DnsClientServerAddress`.
pub struct WindowsDns<E: CommandExecutor> {
    runner: Arc<E>,
}

impl<E: CommandExecutor> WindowsDns<E> {
    pub fn new(executor: Arc<E>) -> (r: Self)
        ensures
            r.executor() == *executor,
    {
        WindowsDns { runner: executor }
    }

    /// The executor that runs the commands.
    pub closed spec fn executor(&self) -> E {
        *self.runner
    }

    /// The script that sets (or, with no servers, resets) the DNS servers
    /// of `iface`.
    pub fn dns_script(iface: &str, servers: &[&str]) -> (r: String)
        ensures
            r@ == windows_dns_script(iface@, str_views(servers@)),
    {
        let q = dquoted_exec(iface);
        if servers.len() == 0 {
            return concat3("Set-DnsClientServerAddress -InterfaceAlias ", q.as_str(), " -ResetServerAddresses");
        }
        let mut quoted: Vec<String> = Vec::new();
        let mut i: usize = 0;
        while i < servers.len()
            invariant
                i <= servers.len(),
                string_views(quoted@) == dquoted_all(str_views(servers@).take(i as int)),
            decreases servers.len() - i,
        {
            push_string_arg(&mut quoted, dquoted_exec(servers[i]));
            i = i + 1;
            assert(dquoted_all(str_views(servers@).take(i as int)) =~= dquoted_all(
                str_views(servers@).take(i - 1),
            ).push(dquoted(servers@[i - 1]@)));
        }
        assert(str_views(servers@).take(servers.len() as int) =~= str_views(servers@));
        assert(quoted@.map_values(|s: String| s@) =~= string_views(quoted@));
        let list = join_strings(&quoted, ",");
        let mut r = concat2("Set-DnsClientServerAddress -InterfaceAlias ", q.as_str());
        r.append(" -ServerAddresses @(");
        r.append(list.as_str());
        r.append(")");
        r
    }

    /// Sets the DNS servers of `iface`; with no servers, resets them.
    pub fn set_for_interface(&self, iface: &str, servers: &[&str]) -> (r: Result<(), CoreError>)
        ensures
            runs(
                &self.executor(),
                seq![ps_step(windows_dns_script(iface@, str_views(servers@)), Reading::Checked)],
                r,
            ),
    {
        let script = Self::dns_script(iface, servers);
        run_step(&*self.runner, "powershell", powershell_args(script.as_str()), Reading::Checked)
    }
}

/// Removes every rule of the kill switch (display names `VPNMvp-*`).
pub open spec fn fw_remove_all_script() -> Seq<char> {
    "Get-NetFirewallRule -DisplayName 'VPNMvp-*' | Remove-NetFirewallRule"@
}

/// Allows outbound traffic through the VPN interface.
pub open spec fn fw_allow_iface_script(iface: Seq<char>) -> Seq<char> {
    "New-NetFirewallRule -DisplayName 'VPNMvp-Allow-Tun' -Direction Outbound -InterfaceAlias '"@
        + iface + "' -Action Allow"@
}

/// Allows outbound traffic to one control-plane address; `tag` is `CPv4`
/// or `CPv6`.
pub open spec fn fw_allow_ip_script(tag: Seq<char>, ip: Seq<char>) -> Seq<char> {
    "New-NetFirewallRule -DisplayName 'VPNMvp-Allow-"@ + tag + "-"@ + ip
        + "' -Direction Outbound -RemoteAddress "@ + ip + " -Action Allow"@
}

/// Blocks all remaining outbound traffic.
pub open spec fn fw_block_all_script() -> Seq<char> {
    "New-NetFirewallRule -DisplayName 'VPNMvp-Block-All' -Direction Outbound -Action Block"@
}

/// One allow rule per address.
pub open spec fn fw_allow_ip_scripts(tag: Seq<char>, ips: Seq<Seq<char>>) -> Seq<Seq<char>> {
    ips.map_values(|ip: Seq<char>| fw_allow_ip_script(tag, ip))
}

/// The rules of the kill switch, in the order they are added: the
/// interface, the IPv4 and IPv6 control-plane addresses, then the block.
pub open spec fn fw_killswitch_scripts(iface: Seq<char>, v4: Seq<Seq<char>>, v6: Seq<Seq<char>>) -> Seq<
    Seq<char>,
> {
    seq![fw_allow_iface_script(iface)] + fw_allow_ip_scripts("CPv4"@, v4) + fw_allow_ip_scripts(
        "CPv6"@,
        v6,
    ) + seq![fw_block_all_script()]
}

/// Lets one program bypass the kill switch. The rule's name has the
/// path with `/` for `\`; the path itself is quoted for PowerShell.
pub open spec fn fw_allow_program_script(path: Seq<char>) -> Seq<char> {
    "New-NetFirewallRule -DisplayName 'VPNMvp-App-"@ + path.map_values(
        |c: char|
            if c == '\\' {
                '/'
            } else {
                c
            },
    ) + "' -Direction Outbound -Program '"@ + escape_ps_text(path) + "' -Action Allow"@
}

/// Removes the program rules.
pub open spec fn fw_clear_apps_script() -> Seq<char> {
    "Get-NetFirewallRule -DisplayName 'VPNMvp-App-*' | Remove-NetFirewallRule"@
}

/// The display name of the rule that lets `path` bypass the kill switch.
pub open spec fn program_rule_name(path: Seq<char>) -> Seq<char> {
    "VPNMvp-App-"@ + path.map_values(
        |c: char|
            if c == '\\' {
                '/'
            } else {
                c
            },
    )
}

/// The display-name pattern that the program rules are removed by.
pub open spec fn app_rules_pattern() -> Seq<char> {
    "VPNMvp-App-*"@
}

/// PowerShell's `-DisplayName` matching for a pattern whose only wildcard
/// is a trailing `*`: that pattern matches the names that start with what
/// comes before the `*`; any other pattern matches its own text.
pub open spec fn display_name_matches(pattern: Seq<char>, name: Seq<char>) -> bool {
    if pattern.len() > 0 && pattern.last() == '*' {
        pattern.drop_last().is_prefix_of(name)
    } else {
        pattern == name
    }
}

/// Clearing the program rules reaches every rule that `allow_program`
/// adds: each such rule is named by `program_rule_name`, the clearing
/// script selects by `app_rules_pattern`, and that pattern matches every
/// such name, whatever the path.
pub proof fn law_clear_app_rules_covers_program_rules(path: Seq<char>)
    ensures
        fw_allow_program_script(path) == "New-NetFirewallRule -DisplayName '"@ + program_rule_name(path)
            + "' -Direction Outbound -Program '"@ + escape_ps_text(path) + "' -Action Allow"@,
        fw_clear_apps_script() == "Get-NetFirewallRule -DisplayName '"@ + app_rules_pattern()
            + "' | Remove-NetFirewallRule"@,
        display_name_matches(app_rules_pattern(), program_rule_name(path)),
{
    reveal_strlit("New-NetFirewallRule -DisplayName 'VPNMvp-App-");
    reveal_strlit("New-NetFirewallRule -DisplayName '");
    reveal_strlit("VPNMvp-App-");
    reveal_strlit("VPNMvp-App-*");
    reveal_strlit("Get-NetFirewallRule -DisplayName 'VPNMvp-App-*' | Remove-NetFirewallRule");
    reveal_strlit("Get-NetFirewallRule -DisplayName '");
    reveal_strlit("' | Remove-NetFirewallRule");
    assert("New-NetFirewallRule -DisplayName 'VPNMvp-App-"@ =~= "New-NetFirewallRule -DisplayName '"@
        + "VPNMvp-App-"@);
    assert(fw_allow_program_script(path) =~= "New-NetFirewallRule -DisplayName '"@ + program_rule_name(path)
        + "' -Direction Outbound -Program '"@ + escape_ps_text(path) + "' -Action Allow"@);
    assert("Get-NetFirewallRule -DisplayName 'VPNMvp-App-*' | Remove-NetFirewallRule"@
        =~= "Get-NetFirewallRule -DisplayName '"@ + "VPNMvp-App-*"@ + "' | Remove-NetFirewallRule"@);
    assert(app_rules_pattern().drop_last() =~= "VPNMvp-App-"@);
    assert(program_rule_name(path).subrange(0, 11) =~= "VPNMvp-App-"@);
}

fn push_allow_ip_scripts(out: &mut Vec<String>, tag: &str, ips: &[&str])
    ensures
        string_views(final(out)@) == string_views(old(out)@) + fw_allow_ip_scripts(tag@, str_views(ips@)),
{
    let ghost start = string_views(out@);
    let mut i: usize = 0;
    while i < ips.len()
        invariant
            i <= ips.len(),
            string_views(out@) == start + fw_allow_ip_scripts(tag@, str_views(ips@).take(i as int)),
        decreases ips.len() - i,
    {
        let mut cmd = concat3("New-NetFirewallRule -DisplayName 'VPNMvp-Allow-", tag, "-");
        cmd.append(ips[i]);
        cmd.append("' -Direction Outbound -RemoteAddress ");
        cmd.append(ips[i]);
        cmd.append(" -Action Allow");
        push_string_arg(out, cmd);
        i = i + 1;
        assert(fw_allow_ip_scripts(tag@, str_views(ips@).take(i as int)) =~= fw_allow_ip_scripts(
            tag@,
            str_views(ips@).take(i - 1),
        ).push(fw_allow_ip_script(tag@, ips@[i - 1]@)));
    }
    assert(str_views(ips@).take(ips.len() as int) =~= str_views(ips@));
}

/// The Windows Firewall kill switch.
pub struct WindowsFirewall<E: CommandExecutor> {
    runner: Arc<E>,
}

/// Installing the kill switch: remove the earlier rules (any exit
/// status), then add each rule, checked, in order.
pub open spec fn fw_killswitch_steps(iface: Seq<char>, v4: Seq<Seq<char>>, v6: Seq<Seq<char>>) -> Seq<Step> {
    seq![ps_step(fw_remove_all_script(), Reading::AnyStatus)] + fw_killswitch_scripts(iface, v4, v6).map_values(
        |t: Seq<char>| ps_step(t, Reading::Checked),
    )
}

impl<E: CommandExecutor> WindowsFirewall<E> {
    pub fn new(executor: Arc<E>) -> (r: Self)
        ensures
            r.executor() == *executor,
    {
        WindowsFirewall { runner: executor }
    }

    /// The executor that runs the commands.
    pub closed spec fn executor(&self) -> E {
        *self.runner
    }

    /// The scripts that install the kill switch, in order.
    pub fn killswitch_scripts(iface: &str, allow_ips_v4: &[&str], allow_ips_v6: &[&str]) -> (r: Vec<String>)
        ensures
            string_views(r@) == fw_killswitch_scripts(iface@, str_views(allow_ips_v4@), str_views(allow_ips_v6@)),
    {
        let mut out: Vec<String> = Vec::new();
        let first = concat3(
            "New-NetFirewallRule -DisplayName 'VPNMvp-Allow-Tun' -Direction Outbound -InterfaceAlias '",
            iface,
            "' -Action Allow",
        );
        push_string_arg(&mut out, first);
        push_allow_ip_scripts(&mut out, "CPv4", allow_ips_v4);
        push_allow_ip_scripts(&mut out, "CPv6", allow_ips_v6);
        push_arg(&mut out, "New-NetFirewallRule -DisplayName 'VPNMvp-Block-All' -Direction Outbound -Action Block");
        assert(string_views(out@) =~= fw_killswitch_scripts(iface@, str_views(allow_ips_v4@), str_views(allow_ips_v6@)));
        out
    }

    /// The script that lets `program_path` bypass the kill switch.
    pub fn allow_program_script(program_path: &str) -> (r: String)
        ensures
            r@ == fw_allow_program_script(program_path@),
    {
        let v = chars_of(program_path);
        let mut shown = String::new();
        let mut i: usize = 0;
        while i < v.len()
            invariant
                i <= v.len(),
                v@ == program_path@,
                shown@ == v@.take(i as int).map_values(
                    |c: char|
                        if c == '\\' {
                            '/'
                        } else {
                            c
                        },
                ),
            decreases v.len() - i,
        {
            if v[i] == '\\' {
                push_char(&mut shown, '/');
            } else {
                push_char(&mut shown, v[i]);
            }
            i = i + 1;
            assert(v@.take(i as int).map_values(
                |c: char|
                    if c == '\\' {
                        '/'
                    } else {
                        c
                    },
            ) =~= v@.take(i - 1).map_values(
                |c: char|
                    if c == '\\' {
                        '/'
                    } else {
                        c
                    },
            ).push(if v@[i - 1] == '\\' { '/' } else { v@[i - 1] }));
        }
        assert(v@.take(v.len() as int) =~= v@);
        let escaped = escape_ps(program_path);
        let mut r = concat2("New-NetFirewallRule -DisplayName 'VPNMvp-App-", shown.as_str());
        r.append("' -Direction Outbound -Program '");
        r.append(escaped.as_str());
        r.append("' -Action Allow");
        r
    }

    /// Installs the kill switch: removes earlier rules (whatever their
    /// removal reports), then adds each rule of `killswitch_scripts`,
    /// stopping at the first that fails.
    pub fn apply_killswitch(&self, iface: &str, allow_ips_v4: &[&str], allow_ips_v6: &[&str]) -> (r: Result<
        (),
        CoreError,
    >)
        ensures
            runs(&self.executor(), fw_killswitch_steps(iface@, str_views(allow_ips_v4@), str_views(allow_ips_v6@)), r),
    {
        let scripts = Self::killswitch_scripts(iface, allow_ips_v4, allow_ips_v6);
        let ghost want = fw_killswitch_steps(iface@, str_views(allow_ips_v4@), str_views(allow_ips_v6@));
        let mut plan: Vec<PlanStep> = Vec::new();
        plan.push(
            PlanStep::Run(
                "powershell",
                powershell_args("Get-NetFirewallRule -DisplayName 'VPNMvp-*' | Remove-NetFirewallRule"),
                Reading::AnyStatus,
            ),
        );
        assert(plan_view(plan@) =~= want.take(1));
        let mut i: usize = 0;
        while i < scripts.len()
            invariant
                i <= scripts.len(),
                want == fw_killswitch_steps(iface@, str_views(allow_ips_v4@), str_views(allow_ips_v6@)),
                string_views(scripts@) == fw_killswitch_scripts(iface@, str_views(allow_ips_v4@), str_views(allow_ips_v6@)),
                plan_view(plan@) == want.take(i + 1),
            decreases scripts.len() - i,
        {
            let ghost before = plan@;
            plan.push(PlanStep::Run("powershell", powershell_args(scripts[i].as_str()), Reading::Checked));
            assert(plan@ == before.push(plan@.last()));
            assert(plan_view(plan@) =~= plan_view(before).push(step_view(plan@.last())));
            i = i + 1;
            assert(want.take(i + 1) =~= want.take(i as int).push(want[i as int]));
        }
        assert(want.take(scripts.len() + 1) =~= want);
        run_plan(&*self.runner, &plan)
    }

    /// Removes the kill switch rules; a failing removal (no rules) is
    /// tolerated.
    pub fn remove_killswitch(&self) -> (r: Result<(), CoreError>)
        ensures
            runs(&self.executor(), seq![ps_step(fw_remove_all_script(), Reading::AnyStatus)], r),
    {
        run_step(
            &*self.runner,
            "powershell",
            powershell_args("Get-NetFirewallRule -DisplayName 'VPNMvp-*' | Remove-NetFirewallRule"),
            Reading::AnyStatus,
        )
    }

    /// Lets a program bypass the kill switch.
    pub fn allow_program(&self, program_path: &str) -> (r: Result<(), CoreError>)
        ensures
            runs(&self.executor(), seq![ps_step(fw_allow_program_script(program_path@), Reading::Checked)], r),
    {
        let script = Self::allow_program_script(program_path);
        run_step(&*self.runner, "powershell", powershell_args(script.as_str()), Reading::Checked)
    }

    /// Removes the program rules; a failing removal is tolerated.
    pub fn clear_app_rules(&self) -> (r: Result<(), CoreError>)
        ensures
            runs(&self.executor(), seq![ps_step(fw_clear_apps_script(), Reading::AnyStatus)], r),
    {
        run_step(
            &*self.runner,
            "powershell",
            powershell_args("Get-NetFirewallRule -DisplayName 'VPNMvp-App-*' | Remove-NetFirewallRule"),
            Reading::AnyStatus,
        )
    }
}

/// Adds an on-link route for `cidr` through `iface`.
pub open spec fn windows_route_add_script(iface: Seq<char>, cidr: Seq<char>) -> Seq<char> {
    "New-NetRoute -DestinationPrefix "@ + cidr + " -InterfaceAlias "@ + dquoted(iface)
        + " -PolicyStore ActiveStore -ErrorAction Stop"@
}

/// Removes the route for `cidr` through `iface`.
pub open spec fn windows_route_del_script(iface: Seq<char>, cidr: Seq<char>) -> Seq<char> {
    "Get-NetRoute -DestinationPrefix "@ + cidr + " -InterfaceAlias "@ + dquoted(iface)
        + " | Remove-NetRoute -Confirm:$false"@
}

/// Route-based split tunnelling with `New-NetRoute`.
pub struct WindowsSplitRoutes<E: CommandExecutor> {
    runner: Arc<E>,
}

/// Adding a route per range, checked, in order.
pub open spec fn windows_route_add_steps(iface: Seq<char>, cidrs: Seq<Seq<char>>) -> Seq<Step> {
    cidrs.map_values(|c: Seq<char>| ps_step(windows_route_add_script(iface, c), Reading::Checked))
}

/// Removing each range's route; any exit status is fine.
pub open spec fn windows_route_del_steps(iface: Seq<char>, cidrs: Seq<Seq<char>>) -> Seq<Step> {
    cidrs.map_values(|c: Seq<char>| ps_step(windows_route_del_script(iface, c), Reading::AnyStatus))
}

impl<E: CommandExecutor> WindowsSplitRoutes<E> {
    pub fn new(executor: Arc<E>) -> (r: Self)
        ensures
            r.executor() == *executor,
    {
        WindowsSplitRoutes { runner: executor }
    }

    /// The executor that runs the commands.
    pub closed spec fn executor(&self) -> E {
        *self.runner
    }

    /// The script that routes `cidr` through `iface`.
    pub fn route_add_script(iface: &str, cidr: &str) -> (r: String)
        ensures
            r@ == windows_route_add_script(iface@, cidr@),
    {
        let q = dquoted_exec(iface);
        let mut r = concat3("New-NetRoute -DestinationPrefix ", cidr, " -InterfaceAlias ");
        r.append(q.as_str());
        r.append(" -PolicyStore ActiveStore -ErrorAction Stop");
        r
    }

    /// The script that removes the route for `cidr`.
    pub fn route_del_script(iface: &str, cidr: &str) -> (r: String)
        ensures
            r@ == windows_route_del_script(iface@, cidr@),
    {
        let q = dquoted_exec(iface);
        let mut r = concat3("Get-NetRoute -DestinationPrefix ", cidr, " -InterfaceAlias ");
        r.append(q.as_str());
        r.append(" | Remove-NetRoute -Confirm:$false");
        r
    }

    /// Routes each of `cidrs` through `iface`, stopping at the first
    /// failure.
    pub fn set_include(&self, iface: &str, cidrs: &[&str]) -> (r: Result<(), CoreError>)
        ensures
            runs(&self.executor(), windows_route_add_steps(iface@, str_views(cidrs@)), r),
    {
        let ghost want = windows_route_add_steps(iface@, str_views(cidrs@));
        let mut plan: Vec<PlanStep> = Vec::new();
        let mut i: usize = 0;
        while i < cidrs.len()
            invariant
                i <= cidrs.len(),
                want == windows_route_add_steps(iface@, str_views(cidrs@)),
                plan_view(plan@) == want.take(i as int),
            decreases cidrs.len() - i,
        {
            let ghost before = plan@;
            let script = Self::route_add_script(iface, cidrs[i]);
            plan.push(PlanStep::Run("powershell", powershell_args(script.as_str()), Reading::Checked));
            assert(plan@ == before.push(plan@.last()));
            assert(plan_view(plan@) =~= plan_view(before).push(step_view(plan@.last())));
            i = i + 1;
            assert(want.take(i as int) =~= want.take(i - 1).push(want[i - 1]));
        }
        assert(want.take(cidrs.len() as int) =~= want);
        run_plan(&*self.runner, &plan)
    }

    /// Removes the routes for `cidrs`; failed removals are ignored, the
    /// executor's own errors are passed on.
    pub fn clear(&self, iface: &str, cidrs: &[&str]) -> (r: Result<(), CoreError>)
        ensures
            runs(&self.executor(), windows_route_del_steps(iface@, str_views(cidrs@)), r),
    {
        let ghost want = windows_route_del_steps(iface@, str_views(cidrs@));
        let mut plan: Vec<PlanStep> = Vec::new();
        let mut i: usize = 0;
        while i < cidrs.len()
            invariant
                i <= cidrs.len(),
                want == windows_route_del_steps(iface@, str_views(cidrs@)),
                plan_view(plan@) == want.take(i as int),
            decreases cidrs.len() - i,
        {
            let ghost before = plan@;
            let script = Self::route_del_script(iface, cidrs[i]);
            plan.push(PlanStep::Run("powershell", powershell_args(script.as_str()), Reading::AnyStatus));
            assert(plan@ == before.push(plan@.last()));
            assert(plan_view(plan@) =~= plan_view(before).push(step_view(plan@.last())));
            i = i + 1;
            assert(want.take(i as int) =~= want.take(i - 1).push(want[i - 1]));
        }
        assert(want.take(cidrs.len() as int) =~= want);
        run_plan(&*self.runner, &plan)
    }
}


/// `Remove-VpnConnection` for a profile name.
pub open spec fn remove_vpn_script(name: Seq<char>) -> Seq<char> {
    "Remove-VpnConnection -Name "@ + ps_quoted(name) + " -Force -PassThru | Out-Null"@
}

/// The user name that a connection uses, or why there is none: only
/// EAP-MSCHAPv2 profiles with a stored user name can connect.
pub open spec fn connect_username(auth: AuthMethod) -> Result<Seq<char>, Seq<char>> {
    match auth {
        AuthMethod::EapMsChapV2 { username } => match username {
            Some(u) => Ok(u@),
            None => Err("username missing"@),
        },
        AuthMethod::EapTls { .. } => Err("connect requires EAP-MSCHAPv2 credentials for MVP"@),
    }
}

/// The user name of a profile's credentials.
pub fn username_for_connect(auth: &AuthMethod) -> (r: Result<String, CoreError>)
    ensures
        match connect_username(*auth) {
            Ok(u) => r matches Ok(s) && s@ == u,
            Err(m) => r matches Err(e) && is_invalid_input(e, m),
        },
{
    match auth {
        AuthMethod::EapMsChapV2 { username } => match username {
            Some(u) => Ok(owned(u.as_str())),
            None => Err(CoreError::InvalidInput(owned("username missing"))),
        },
        AuthMethod::EapTls { .. } => Err(
            CoreError::InvalidInput(owned("connect requires EAP-MSCHAPv2 credentials for MVP")),
        ),
    }
}

/// The password that the credential store returned, or
/// `InvalidInput("password missing in keyring")` when it had none.
pub fn password_or_missing(stored: Option<String>) -> (r: Result<String, CoreError>)
    ensures
        match stored {
            Some(p) => r == Ok::<String, CoreError>(p),
            None => r matches Err(e) && is_invalid_input(e, "password missing in keyring"@),
        },
{
    match stored {
        Some(p) => Ok(p),
        None => Err(CoreError::InvalidInput(owned("password missing in keyring"))),
    }
}

/// How `rasdial <name>` output is read: connected when it exits with 0 and
/// reports `Connected to`.
pub open spec fn rasdial_state(out: CommandOutput) -> ConnectionState {
    if out.status == 0 && contains(out.stdout@, "Connected to"@) {
        ConnectionState::Connected
    } else {
        ConnectionState::Disconnected
    }
}

/// Reads the output of `rasdial <name>`.
pub fn rasdial_state_from_output(out: &CommandOutput) -> (r: ConnectionState)
    ensures
        r == rasdial_state(*out),
{
    let v = chars_of(out.stdout.as_str());
    if out.status == 0 && contains_exec(&v, "Connected to") {
        ConnectionState::Connected
    } else {
        ConnectionState::Disconnected
    }
}

/// The number of bytes of the UTF-8 encoding of a character.
pub open spec fn utf8_char_len(c: char) -> nat {
    if (c as u32) < 0x80 {
        1
    } else if (c as u32) < 0x800 {
        2
    } else if (c as u32) < 0x10000 {
        3
    } else {
        4
    }
}

/// The number of bytes of the UTF-8 encoding of a text (`str::len`).
pub open spec fn utf8_len(s: Seq<char>) -> nat
    decreases s.len(),
{
    if s.len() == 0 {
        0
    } else {
        utf8_len(s.drop_last()) + utf8_char_len(s.last())
    }
}

proof fn lemma_utf8_len_prefix(s: Seq<char>, i: int)
    requires
        0 <= i <= s.len(),
    ensures
        utf8_len(s.take(i)) <= utf8_len(s),
    decreases s.len() - i,
{
    if i < s.len() {
        lemma_utf8_len_prefix(s, i + 1);
        assert(s.take(i + 1).drop_last() =~= s.take(i));
    } else {
        assert(s.take(i) =~= s);
    }
}

/// Whether the UTF-8 encoding of `v` is longer than `bound` bytes.
pub fn utf8_len_exceeds(v: &Vec<char>, bound: u64) -> (r: bool)
    ensures
        r == (utf8_len(v@) > bound),
{
    let mut total: u64 = 0;
    let mut i: usize = 0;
    while i < v.len()
        invariant
            i <= v.len(),
            total == utf8_len(v@.take(i as int)),
            total <= bound,
        decreases v.len() - i,
    {
        let c = v[i];
        let n: u64 = if (c as u32) < 0x80 {
            1
        } else if (c as u32) < 0x800 {
            2
        } else if (c as u32) < 0x10000 {
            3
        } else {
            4
        };
        assert(v@.take(i + 1).drop_last() =~= v@.take(i as int));
        if n > bound - total {
            proof {
                lemma_utf8_len_prefix(v@, i + 1);
            }
            return true;
        }
        total = total + n;
        i = i + 1;
    }
    assert(v@.take(v.len() as int) =~= v@);
    false
}

/// The adapter statistics query for a connection name.
pub open spec fn adapter_stats_script(name: Seq<char>) -> Seq<char> {
    "Get-NetAdapter | Where-Object { $_.InterfaceDescription -like '*"@ + name + "*' -or $_.Name -like '*"@
        + name
        + "*' } | Get-NetAdapterStatistics | Select-Object -Property Name, BytesReceived, BytesSent, PacketsReceived, PacketsSent | ConvertTo-Json"@
}

/// The log line for the statistics query's output, if it is worth one:
/// the query succeeded and its trimmed output is more than ten bytes long
/// and holds no `null`.
pub open spec fn stats_message(out: CommandOutput, name: Seq<char>) -> Option<Seq<char>> {
    let stats = trim(out.stdout@);
    if out.status == 0 && stats.len() > 0 && !contains(stats, "null"@) && utf8_len(stats) > 10 {
        Some("[VPN] Packet stats for "@ + name + ": "@ + stats)
    } else {
        None
    }
}

/// A `rasdial` output line that carries byte, compression or error counts.
pub open spec fn is_stat_line(l: Seq<char>) -> bool {
    contains(l, "Bytes"@) || contains(l, "Compression"@) || contains(l, "Errors"@)
}

/// The log lines for the counter lines among `ls`, in order.
pub open spec fn stat_line_messages(name: Seq<char>, ls: Seq<Seq<char>>) -> Seq<Seq<char>>
    decreases ls.len(),
{
    if ls.len() == 0 {
        seq![]
    } else {
        stat_line_messages(name, ls.drop_last()) + if is_stat_line(ls.last()) {
            seq!["[VPN] "@ + name + " - "@ + trim(ls.last())]
        } else {
            seq![]
        }
    }
}

/// The log lines for a connected `rasdial` output: one per counter line.
pub open spec fn rasdial_messages(out: CommandOutput, name: Seq<char>) -> Seq<Seq<char>> {
    if rasdial_state(out) == ConnectionState::Connected {
        stat_line_messages(name, lines(out.stdout@))
    } else {
        seq![]
    }
}

/// The log line for the adapter statistics, if any.
pub fn stats_message_from_output(out: &CommandOutput, name: &str) -> (r: Option<String>)
    ensures
        match stats_message(*out, name@) {
            Some(m) => r matches Some(s) && s@ == m,
            None => r is None,
        },
{
    let v = chars_of(out.stdout.as_str());
    let t = trim_exec(&v);
    if out.status == 0 && t.len() > 0 && !contains_exec(&t, "null") && utf8_len_exceeds(&t, 10) {
        let stats = string_of(&t);
        let mut m = concat3("[VPN] Packet stats for ", name, ": ");
        m.append(stats.as_str());
        Some(m)
    } else {
        None
    }
}

/// The log lines for the counters of a connected `rasdial` output.
pub fn rasdial_messages_from_output(out: &CommandOutput, name: &str) -> (r: Vec<String>)
    ensures
        string_views(r@) == rasdial_messages(*out, name@),
{
    let mut msgs: Vec<String> = Vec::new();
    if rasdial_state_from_output(out) != ConnectionState::Connected {
        assert(string_views(msgs@) =~= Seq::<Seq<char>>::empty());
        return msgs;
    }
    let v = chars_of(out.stdout.as_str());
    let ls = lines_exec(&v);
    let ghost all = crate::text::views(ls@);
    let mut i: usize = 0;
    while i < ls.len()
        invariant
            i <= ls.len(),
            all == crate::text::views(ls@),
            string_views(msgs@) == stat_line_messages(name@, all.take(i as int)),
        decreases ls.len() - i,
    {
        let l = &ls[i];
        assert(all[i as int] == l@);
        let wanted = contains_exec(l, "Bytes") || contains_exec(l, "Compression") || contains_exec(l, "Errors");
        if wanted {
            let t = trim_exec(l);
            let ts = string_of(&t);
            let mut m = concat3("[VPN] ", name, " - ");
            m.append(ts.as_str());
            push_string_arg(&mut msgs, m);
        }
        i = i + 1;
        assert(all.take(i as int).drop_last() =~= all.take(i - 1));
        assert(string_views(msgs@) =~= stat_line_messages(name@, all.take(i as int)));
    }
    assert(all.take(ls.len() as int) =~= all);
    msgs
}

/// The Windows RAS (IKEv2) adapter.
pub struct WindowsAdapter<E: CommandExecutor, C: CredentialStore, P: ProfileStore> {
    runner: Arc<E>,
    creds: Arc<C>,
    profiles: Arc<P>,
}

/// `rasdial <name>`
pub open spec fn rasdial_status_args(name: Seq<char>) -> Seq<Seq<char>> {
    seq![name]
}

/// Dialling: check that `rasdial` runs (any exit status), then
/// `rasdial <name> <user> <password>`, checked.
pub open spec fn dial_steps(name: Seq<char>, user: Seq<char>, password: Seq<char>) -> Seq<Step> {
    seq![
        ps_step("exit (rasdial)"@, Reading::AnyStatus),
        checked_step("rasdial"@, seq![name, user, password]),
    ]
}

/// The message, if any, as a list of at most one.
pub open spec fn opt_line(m: Option<Seq<char>>) -> Seq<Seq<char>> {
    match m {
        Some(t) => seq![t],
        None => seq![],
    }
}

/// `r` is a possible outcome of logging the packet statistics of `name`
/// on `e`: the adapter statistics query, then `rasdial <name>`; the lines
/// are the statistics line, if any, and the `rasdial` counter lines.
pub open spec fn packet_stats_logged<E: CommandExecutor>(
    e: &E,
    name: Seq<char>,
    r: Result<Vec<String>, CoreError>,
) -> bool {
    exists|a1: Result<CommandOutput, CoreError>|
        #[trigger] e.answers("powershell"@, ps_args(adapter_stats_script(name)), seq![], a1) && match a1 {
            Err(x) => r == Err::<Vec<String>, CoreError>(x),
            Ok(o1) => exists|a2: Result<CommandOutput, CoreError>|
                #[trigger] e.answers("rasdial"@, rasdial_status_args(name), seq![], a2) && match a2 {
                    Err(x) => r == Err::<Vec<String>, CoreError>(x),
                    Ok(o2) => r matches Ok(v) && string_views(v@) == opt_line(stats_message(o1, name))
                        + rasdial_messages(o2, name),
                },
        }
}

/// `r` is a possible outcome of dialling `name`: the stored profile is
/// loaded; only EAP-MSCHAPv2 credentials with a user name can dial; the
/// password comes from the credential store under the profile's name and
/// that user; then `dial_steps` run.
pub open spec fn windows_dialled<E: CommandExecutor, C: CredentialStore, P: ProfileStore>(
    e: &E,
    creds: &C,
    profiles: &P,
    name: Seq<char>,
    r: Result<(), CoreError>,
) -> bool {
    exists|lp: Result<VpnProfile, CoreError>|
        #[trigger] profiles.loads(name, lp) && match lp {
            Err(x) => r == Err::<(), CoreError>(x),
            Ok(p) => match connect_username(p.auth) {
                Err(m) => r matches Err(x) && is_invalid_input(x, m),
                Ok(u) => exists|pw: Result<Option<String>, CoreError>|
                    #[trigger] creds.gets(p.name@, u, pw) && match pw {
                        Err(x) => r == Err::<(), CoreError>(x),
                        Ok(None) => r matches Err(x) && is_invalid_input(x, "password missing in keyring"@),
                        Ok(Some(w)) => runs(e, dial_steps(name, u, w@), r),
                    },
            },
        }
}

impl<E: CommandExecutor, C: CredentialStore, P: ProfileStore> WindowsAdapter<E, C, P> {
    pub fn new(executor: Arc<E>, creds: Arc<C>, profiles: Arc<P>) -> (r: Self)
        ensures
            r.executor() == *executor,
            r.creds_of() == *creds,
            r.profiles_of() == *profiles,
    {
        WindowsAdapter { runner: executor, creds, profiles }
    }

    /// The executor that runs the commands.
    pub closed spec fn executor(&self) -> E {
        *self.runner
    }

    /// The store that keeps the passwords.
    pub closed spec fn creds_of(&self) -> C {
        *self.creds
    }

    /// The store that keeps the profiles.
    pub closed spec fn profiles_of(&self) -> P {
        *self.profiles
    }

    /// The script that removes the RAS connection `name`.
    pub fn remove_script(name: &str) -> (r: String)
        ensures
            r@ == remove_vpn_script(name@),
    {
        let q = ps_quoted_exec(name);
        concat3("Remove-VpnConnection -Name ", q.as_str(), " -Force -PassThru | Out-Null")
    }

    /// Queries the adapter statistics and the `rasdial` counters of a
    /// connection and returns the lines worth logging, in order.
    pub fn log_packet_stats(&self, name: &str) -> (r: Result<Vec<String>, CoreError>)
        ensures
            packet_stats_logged(&self.executor(), name@, r),
    {
        let mut script = concat3(
            "Get-NetAdapter | Where-Object { $_.InterfaceDescription -like '*",
            name,
            "*' -or $_.Name -like '*",
        );
        script.append(name);
        script.append(
            "*' } | Get-NetAdapterStatistics | Select-Object -Property Name, BytesReceived, BytesSent, PacketsReceived, PacketsSent | ConvertTo-Json",
        );
        assert(script@ =~= adapter_stats_script(name@));
        let args = powershell_args(script.as_str());
        let a1 = self.runner.run("powershell", &args);
        let ghost g1 = a1;
        assert(self.executor().answers("powershell"@, ps_args(adapter_stats_script(name@)), seq![], g1));
        let out1 = match a1 {
            Err(x) => return Err(x),
            Ok(o) => o,
        };
        let mut msgs: Vec<String> = Vec::new();
        match stats_message_from_output(&out1, name) {
            Some(m) => msgs.push(m),
            None => {},
        }
        let ghost first = opt_line(stats_message(out1, name@));
        assert(string_views(msgs@) =~= first);
        let mut args: Vec<String> = Vec::new();
        push_arg(&mut args, name);
        assert(string_views(args@) =~= rasdial_status_args(name@));
        let a2 = self.runner.run("rasdial", &args);
        let ghost g2 = a2;
        assert(self.executor().answers("rasdial"@, rasdial_status_args(name@), seq![], g2));
        let out2 = match a2 {
            Err(x) => return Err(x),
            Ok(o) => o,
        };
        let more = rasdial_messages_from_output(&out2, name);
        let mut i: usize = 0;
        while i < more.len()
            invariant
                i <= more.len(),
                string_views(msgs@) == first + string_views(more@).take(i as int),
            decreases more.len() - i,
        {
            push_string_arg(&mut msgs, owned(more[i].as_str()));
            i = i + 1;
            assert(string_views(more@).take(i as int) =~= string_views(more@).take(i - 1).push(more@[i - 1]@));
            assert(string_views(msgs@) =~= first + string_views(more@).take(i as int));
        }
        assert(string_views(more@).take(more.len() as int) =~= string_views(more@));
        Ok(msgs)
    }
}

impl<E: CommandExecutor, C: CredentialStore, P: ProfileStore> VpnAdapter for WindowsAdapter<E, C, P> {
    open spec fn connects(&self, name: Seq<char>, result: Result<(), CoreError>) -> bool {
        windows_dialled(&self.executor(), &self.creds_of(), &self.profiles_of(), name, result)
    }

    open spec fn disconnects(&self, name: Seq<char>, result: Result<(), CoreError>) -> bool {
        runs(&self.executor(), seq![checked_step("rasdial"@, seq![name, "/disconnect"@])], result)
    }

    open spec fn reports_status(&self, name: Seq<char>, result: Result<ConnectionState, CoreError>) -> bool {
        queried(
            &self.executor(),
            "rasdial"@,
            rasdial_status_args(name),
            |o: CommandOutput| Ok::<ConnectionState, CoreError>(rasdial_state(o)),
            result,
        )
    }

    fn init(&self) -> (r: Result<(), CoreError>)
        ensures
            r is Ok,
    {
        Ok(())
    }

    /// Provisions the connection with `Add-VpnConnection`, then stores the
    /// profile; a failed provisioning stores nothing.
    fn add_profile(&self, profile: VpnProfile) -> (r: Result<(), CoreError>)
        ensures
            exists|r0: Result<(), CoreError>|
                runs(&self.executor(), seq![ps_step(add_vpn_script(profile), Reading::Checked)], r0) && match r0 {
                    Err(x) => r == Err::<(), CoreError>(x),
                    Ok(_) => self.profiles_of().saves(profile, r),
                },
    {
        let script = build_add_vpn_ps(&profile);
        let args = powershell_args(script.as_str());
        let ghost st = seq![Step::Run("powershell"@, string_views(args@), Reading::Checked)];
        let r0 = run_step(&*self.runner, "powershell", args, Reading::Checked);
        let ghost g0 = r0;
        assert(st =~= seq![ps_step(add_vpn_script(profile), Reading::Checked)]);
        assert(runs(&self.executor(), seq![ps_step(add_vpn_script(profile), Reading::Checked)], g0));
        match r0 {
            Err(x) => Err(x),
            Ok(()) => self.profiles.save(&profile),
        }
    }

    /// Removes the connection with `Remove-VpnConnection`, then the stored
    /// profile (a failure there is ignored).
    fn remove_profile(&self, name: &str) -> (r: Result<(), CoreError>)
        ensures
            runs(&self.executor(), seq![ps_step(remove_vpn_script(name@), Reading::Checked)], r),
            r is Ok ==> exists|rd: Result<(), CoreError>| #[trigger] self.profiles_of().deletes(name@, rd),
    {
        let script = Self::remove_script(name);
        let args = powershell_args(script.as_str());
        let ghost st = seq![Step::Run("powershell"@, string_views(args@), Reading::Checked)];
        let r0 = run_step(&*self.runner, "powershell", args, Reading::Checked);
        assert(st =~= seq![ps_step(remove_vpn_script(name@), Reading::Checked)]);
        assert(runs(&self.executor(), seq![ps_step(remove_vpn_script(name@), Reading::Checked)], r0));
        if r0.is_ok() {
            let rd = self.profiles.delete(name);
            assert(self.profiles_of().deletes(name@, rd));
        }
        r0
    }

    fn list_profiles(&self) -> (r: Result<Vec<VpnProfile>, CoreError>)
        ensures
            self.profiles_of().lists(r),
    {
        self.profiles.list()
    }

    /// Dials the stored profile with `rasdial <name> <user> <password>`,
    /// the password taken from the credential store. Only an EAP-MSCHAPv2
    /// profile with a user name and a stored password gets that far.
    fn connect(&self, name: &str) -> (r: Result<(), CoreError>)
        ensures
            windows_dialled(&self.executor(), &self.creds_of(), &self.profiles_of(), name@, r),
    {
        let lp = self.profiles.load(name);
        let ghost glp = lp;
        assert(self.profiles_of().loads(name@, glp));
        let profile = match lp {
            Err(x) => return Err(x),
            Ok(p) => p,
        };
        let username = match username_for_connect(&profile.auth) {
            Err(x) => return Err(x),
            Ok(u) => u,
        };
        let stored = self.creds.get_password(profile.name.as_str(), username.as_str());
        let ghost gpw = stored;
        assert(self.creds_of().gets(profile.name@, username@, gpw));
        let stored = match stored {
            Err(x) => return Err(x),
            Ok(s) => s,
        };
        let password = match password_or_missing(stored) {
            Err(x) => return Err(x),
            Ok(p) => p,
        };
        let mut dial: Vec<String> = Vec::new();
        push_arg(&mut dial, name);
        push_arg(&mut dial, username.as_str());
        push_arg(&mut dial, password.as_str());
        assert(string_views(dial@) =~= seq![name@, username@, password@]);
        let mut plan: Vec<PlanStep> = Vec::new();
        plan.push(PlanStep::Run("powershell", powershell_args("exit (rasdial)"), Reading::AnyStatus));
        plan.push(PlanStep::Run("rasdial", dial, Reading::Checked));
        assert(plan_view(plan@) =~= dial_steps(name@, username@, password@));
        run_plan(&*self.runner, &plan)
    }

    /// `rasdial <name> /disconnect`
    fn disconnect(&self, name: &str) -> (r: Result<(), CoreError>)
        ensures
            runs(&self.executor(), seq![checked_step("rasdial"@, seq![name@, "/disconnect"@])], r),
    {
        let mut args: Vec<String> = Vec::new();
        push_arg(&mut args, name);
        push_arg(&mut args, "/disconnect");
        assert(string_views(args@) =~= seq![name@, "/disconnect"@]);
        run_step(&*self.runner, "rasdial", args, Reading::Checked)
    }

    /// `rasdial <name>`: connected when it reports `Connected to`; when
    /// connected, the packet statistics are logged too.
    fn status(&self, name: &str) -> (r: Result<ConnectionState, CoreError>)
        ensures
            queried(
                &self.executor(),
                "rasdial"@,
                rasdial_status_args(name@),
                |o: CommandOutput| Ok::<ConnectionState, CoreError>(rasdial_state(o)),
                r,
            ),
    {
        let mut args: Vec<String> = Vec::new();
        push_arg(&mut args, name);
        assert(string_views(args@) =~= rasdial_status_args(name@));
        let a = self.runner.run("rasdial", &args);
        let ghost ga = a;
        let r = match a {
            Err(x) => Err(x),
            Ok(out) => {
                let state = rasdial_state_from_output(&out);
                if state == ConnectionState::Connected {
                    let _ = self.log_packet_stats(name);
                }
                Ok(state)
            },
        };
        assert(self.executor().answers("rasdial"@, rasdial_status_args(name@), seq![], ga));
        r
    }
}


/// The netmask of a prefix length: `prefix` leading one bits.
pub open spec fn ipv4_mask(prefix: u32) -> u32 {
    if prefix == 0 {
        0
    } else {
        0xffff_ffffu32 << ((32 - prefix) as u32)
    }
}

/// The netmask of an IPv4 prefix length, as the number whose big-endian
/// bytes are the mask; `None` past 32.
pub fn ipv4_mask_from_prefix(prefix: u8) -> (r: Option<u32>)
    ensures
        r == (if prefix > 32 {
            None
        } else {
            Some(ipv4_mask(prefix as u32))
        }),
{
    if prefix > 32 {
        return None;
    }
    let p: u32 = prefix as u32;
    let mask: u32 = if p == 0 {
        0
    } else {
        0xffff_ffffu32 << (32 - p)
    };
    Some(mask)
}

proof fn lemma_mask_bit(p: u32, i: u32)
    by (bit_vector)
    requires
        1 <= p <= 32,
        i < 32,
    ensures
        ((0xffff_ffffu32 << ((32 - p) as u32)) >> ((31 - i) as u32)) & 1u32 == (if i < p {
            1u32
        } else {
            0u32
        }),
{
}

/// A netmask has exactly its first `prefix` bits set: bit `i`, counted
/// from the most significant, is one exactly when `i < prefix`.
pub proof fn law_ipv4_mask_bits(prefix: u32, i: u32)
    requires
        prefix <= 32,
        i < 32,
    ensures
        (ipv4_mask(prefix) >> ((31 - i) as u32)) & 1u32 == (if i < prefix {
            1u32
        } else {
            0u32
        }),
{
    if prefix == 0 {
        assert((0u32 >> ((31 - i) as u32)) & 1u32 == 0u32) by (bit_vector);
    } else {
        lemma_mask_bit(prefix, i);
    }
}

/// `name="<iface>"`
pub open spec fn netsh_name(iface: Seq<char>) -> Seq<char> {
    "name="@ + dquoted(iface)
}

/// `netsh interface show interface name="<iface>"`
pub open spec fn netsh_show_args(iface: Seq<char>) -> Seq<Seq<char>> {
    seq!["interface"@, "show"@, "interface"@, netsh_name(iface)]
}

/// `netsh interface set interface name="<iface>" admin=enabled|disabled`
pub open spec fn netsh_admin_args(iface: Seq<char>, enabled: bool) -> Seq<Seq<char>> {
    seq![
        "interface"@,
        "set"@,
        "interface"@,
        netsh_name(iface),
        if enabled {
            "admin=enabled"@
        } else {
            "admin=disabled"@
        },
    ]
}

/// `netsh interface ipv4 set subinterface "<iface>" mtu=<mtu> store=active`
pub open spec fn netsh_mtu_args(iface: Seq<char>, mtu: u32) -> Seq<Seq<char>> {
    seq![
        "interface"@,
        "ipv4"@,
        "set"@,
        "subinterface"@,
        dquoted(iface),
        "mtu="@ + decimal(mtu as nat),
        "store=active"@,
    ]
}

/// `netsh interface ip add address "<iface>" <addr> <mask>`
pub open spec fn netsh_v4_address_args(iface: Seq<char>, addr: u32, mask: u32) -> Seq<Seq<char>> {
    seq!["interface"@, "ip"@, "add"@, "address"@, dquoted(iface), ipv4_text(addr), ipv4_text(mask)]
}

/// `netsh interface ipv6 add address "<iface>" <addr>/<prefix>`
pub open spec fn netsh_v6_address_args(iface: Seq<char>, addr: u128, prefix: u8) -> Seq<Seq<char>> {
    seq![
        "interface"@,
        "ipv6"@,
        "add"@,
        "address"@,
        dquoted(iface),
        ipv6_text(addr) + "/"@ + decimal(prefix as nat),
    ]
}

/// Arguments that show an interface.
pub fn netsh_show_cmd(iface: &str) -> (r: Vec<String>)
    ensures
        string_views(r@) == netsh_show_args(iface@),
{
    let mut args: Vec<String> = Vec::new();
    push_arg(&mut args, "interface");
    push_arg(&mut args, "show");
    push_arg(&mut args, "interface");
    push_string_arg(&mut args, concat2("name=", dquoted_exec(iface).as_str()));
    assert(string_views(args@) =~= netsh_show_args(iface@));
    args
}

/// Arguments that enable or disable an interface.
pub fn netsh_admin_cmd(iface: &str, enabled: bool) -> (r: Vec<String>)
    ensures
        string_views(r@) == netsh_admin_args(iface@, enabled),
{
    let mut args: Vec<String> = Vec::new();
    push_arg(&mut args, "interface");
    push_arg(&mut args, "set");
    push_arg(&mut args, "interface");
    push_string_arg(&mut args, concat2("name=", dquoted_exec(iface).as_str()));
    if enabled {
        push_arg(&mut args, "admin=enabled");
    } else {
        push_arg(&mut args, "admin=disabled");
    }
    assert(string_views(args@) =~= netsh_admin_args(iface@, enabled));
    args
}

/// Arguments that set an interface's MTU.
pub fn netsh_mtu_cmd(iface: &str, mtu: u32) -> (r: Vec<String>)
    ensures
        string_views(r@) == netsh_mtu_args(iface@, mtu),
{
    let mut args: Vec<String> = Vec::new();
    push_arg(&mut args, "interface");
    push_arg(&mut args, "ipv4");
    push_arg(&mut args, "set");
    push_arg(&mut args, "subinterface");
    push_string_arg(&mut args, dquoted_exec(iface));
    push_string_arg(&mut args, concat2("mtu=", decimal_exec(mtu as u64).as_str()));
    push_arg(&mut args, "store=active");
    assert(string_views(args@) =~= netsh_mtu_args(iface@, mtu));
    args
}

/// The Wintun interface, driven with `netsh`.
pub struct WindowsWintunBackend<E: CommandExecutor> {
    runner: Arc<E>,
    iface: String,
}

/// Assigning the addresses: the IPv4 one with the mask of its prefix (a
/// prefix past 32 is refused), then the IPv6 one, each checked.
pub open spec fn netsh_address_steps(iface: Seq<char>, v4: Option<(u32, u8)>, v6: Option<(u128, u8)>) -> Seq<
    Step,
> {
    (match v4 {
        Some((a, p)) => if p > 32 {
            seq![Step::Refuse("invalid v4 prefix"@)]
        } else {
            seq![checked_step("netsh"@, netsh_v4_address_args(iface, a, ipv4_mask(p as u32)))]
        },
        None => seq![],
    }) + match v6 {
        Some((a, p)) => seq![checked_step("netsh"@, netsh_v6_address_args(iface, a, p))],
        None => seq![],
    }
}

impl<E: CommandExecutor> WindowsWintunBackend<E> {
    pub fn new(executor: Arc<E>, iface: String) -> (r: Self)
        ensures
            r.executor() == *executor,
            r.iface_name() == iface@,
    {
        WindowsWintunBackend { runner: executor, iface }
    }

    /// The executor that runs the commands.
    pub closed spec fn executor(&self) -> E {
        *self.runner
    }

    /// The name of the interface this backend drives.
    pub closed spec fn iface_name(&self) -> Seq<char> {
        self.iface@
    }

    /// The interface name.
    pub fn ifname(&self) -> (r: &str)
        ensures
            r@ == self.iface_name(),
    {
        self.iface.as_str()
    }

    /// Arguments that assign an IPv4 address with the mask of `prefix`, or
    /// `None` for a prefix past 32.
    pub fn v4_address_cmd(&self, addr: u32, prefix: u8) -> (r: Option<Vec<String>>)
        ensures
            match r {
                Some(a) => prefix <= 32 && string_views(a@) == netsh_v4_address_args(
                    self.iface_name(),
                    addr,
                    ipv4_mask(prefix as u32),
                ),
                None => prefix > 32,
            },
    {
        let mask = match ipv4_mask_from_prefix(prefix) {
            Some(m) => m,
            None => return None,
        };
        let name = self.ifname();
        let mut args: Vec<String> = Vec::new();
        push_arg(&mut args, "interface");
        push_arg(&mut args, "ip");
        push_arg(&mut args, "add");
        push_arg(&mut args, "address");
        push_string_arg(&mut args, dquoted_exec(name));
        push_string_arg(&mut args, ipv4_to_string(addr));
        push_string_arg(&mut args, ipv4_to_string(mask));
        assert(string_views(args@) =~= netsh_v4_address_args(self.iface_name(), addr, mask));
        Some(args)
    }

    /// Arguments that assign an IPv6 address.
    pub fn v6_address_cmd(&self, addr: u128, prefix: u8) -> (r: Vec<String>)
        ensures
            string_views(r@) == netsh_v6_address_args(self.iface_name(), addr, prefix),
    {
        let name = self.ifname();
        let mut args: Vec<String> = Vec::new();
        push_arg(&mut args, "interface");
        push_arg(&mut args, "ipv6");
        push_arg(&mut args, "add");
        push_arg(&mut args, "address");
        push_string_arg(&mut args, dquoted_exec(name));
        let a = ipv6_to_string(addr);
        push_string_arg(&mut args, concat3(a.as_str(), "/", decimal_exec(prefix as u64).as_str()));
        assert(string_views(args@) =~= netsh_v6_address_args(self.iface_name(), addr, prefix));
        args
    }
}

impl<E: CommandExecutor> TunBackend for WindowsWintunBackend<E> {
    /// Checks that `name` is this backend's interface and that `netsh`
    /// can see it.
    fn open(&self, name: &str) -> (r: Result<(), CoreError>)
        ensures
            name@ != self.iface_name() ==> (r matches Err(e) && is_invalid_input(e, "iface name mismatch"@)),
            name@ == self.iface_name() ==> exists|a: Result<CommandOutput, CoreError>|
                #[trigger] self.executor().answers("netsh"@, netsh_show_args(name@), seq![], a) && match a {
                    Err(x) => r == Err::<(), CoreError>(x),
                    Ok(o) => if o.status != 0 {
                        r matches Err(e) && e matches CoreError::Other(m) && m@
                            == "interface not found or inaccessible: "@ + name@
                    } else {
                        r is Ok
                    },
                },
    {
        let n = chars_of(name);
        if !eq_str(&n, self.iface.as_str()) {
            return Err(CoreError::InvalidInput(owned("iface name mismatch")));
        }
        let args = netsh_show_cmd(name);
        let a = self.runner.run("netsh", &args);
        let ghost ga = a;
        assert(self.executor().answers("netsh"@, netsh_show_args(name@), seq![], ga));
        match a {
            Err(x) => Err(x),
            Ok(out) => {
                if out.status != 0 {
                    Err(CoreError::Other(concat2("interface not found or inaccessible: ", name)))
                } else {
                    Ok(())
                }
            },
        }
    }

    /// `netsh interface set interface name="<iface>" admin=enabled`
    fn up(&self) -> (r: Result<(), CoreError>)
        ensures
            runs(&self.executor(), seq![checked_step("netsh"@, netsh_admin_args(self.iface_name(), true))], r),
    {
        run_step(&*self.runner, "netsh", netsh_admin_cmd(self.ifname(), true), Reading::Checked)
    }

    /// `netsh interface set interface name="<iface>" admin=disabled`
    fn down(&self) -> (r: Result<(), CoreError>)
        ensures
            runs(&self.executor(), seq![checked_step("netsh"@, netsh_admin_args(self.iface_name(), false))], r),
    {
        run_step(&*self.runner, "netsh", netsh_admin_cmd(self.ifname(), false), Reading::Checked)
    }

    /// `netsh interface ipv4 set subinterface "<iface>" mtu=<mtu> store=active`
    fn set_mtu(&self, mtu: u32) -> (r: Result<(), CoreError>)
        ensures
            runs(&self.executor(), seq![checked_step("netsh"@, netsh_mtu_args(self.iface_name(), mtu))], r),
    {
        run_step(&*self.runner, "netsh", netsh_mtu_cmd(self.ifname(), mtu), Reading::Checked)
    }

    /// Assigns the IPv4 address (with the mask of its prefix), then the
    /// IPv6 address; a prefix past 32 is refused before anything runs.
    fn set_address(&self, address: &DeviceAddress) -> (r: Result<(), CoreError>)
        ensures
            runs(&self.executor(), netsh_address_steps(self.iface_name(), address.v4, address.v6), r),
    {
        let mut plan: Vec<PlanStep> = Vec::new();
        match address.v4 {
            Some((addr, prefix)) => match self.v4_address_cmd(addr, prefix) {
                Some(a) => plan.push(PlanStep::Run("netsh", a, Reading::Checked)),
                None => plan.push(PlanStep::Refuse("invalid v4 prefix")),
            },
            None => {},
        }
        let ghost first = plan_view(plan@);
        match address.v6 {
            Some((addr, prefix)) => {
                plan.push(PlanStep::Run("netsh", self.v6_address_cmd(addr, prefix), Reading::Checked));
            },
            None => {},
        }
        assert(plan_view(plan@) =~= netsh_address_steps(self.iface_name(), address.v4, address.v6));
        run_plan(&*self.runner, &plan)
    }
}


/// The Windows kill switch fails closed: its first rule lets the tunnel
/// through and its last blocks all other outbound traffic.
pub proof fn law_windows_killswitch_fails_closed(iface: Seq<char>, v4: Seq<Seq<char>>, v6: Seq<Seq<char>>)
    ensures
        fw_killswitch_scripts(iface, v4, v6)[0] == fw_allow_iface_script(iface),
        fw_killswitch_scripts(iface, v4, v6).last() == fw_block_all_script(),
{
}

} // verus!
