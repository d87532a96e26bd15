//! The desktop UI's own logic: where the services are, the PKCE pair of
//! the device login, the status line, the connection log of the
//! auto-connect loop and the packet statistics it prints on Windows.

use vstd::prelude::*;
use vstd::string::StringSliceAdditionalSpecFns;

use crate::codec::{base64_url_nopad_encode, base64_url_nopad_encoded, sha256, sha256_digest, utf8_bytes};
use crate::command::{push_arg, push_string_arg, string_views, CommandExecutor, CommandOutput};
use crate::error::CoreError;
use crate::text::{
    chars_of, concat2, concat3, contains, contains_exec, lines, lines_exec, owned, push_char,
    starts_with, starts_with_exec, string_of, trim, trim_exec, views,
};
use crate::types::{ConnectionState, Platform};
use crate::windows::{powershell_args, ps_args, rasdial_status_args};

verus! {

/// `t` without a leading `http://` or `https://`.
pub open spec fn strip_scheme(t: Seq<char>) -> Seq<char> {
    if starts_with(t, "http://"@) {
        t.skip(7)
    } else if starts_with(t, "https://"@) {
        t.skip(8)
    } else {
        t
    }
}

/// The position of the first `/` or `:` in `s`, or its length.
pub open spec fn host_end(s: Seq<char>) -> nat
    decreases s.len(),
{
    if s.len() == 0 {
        0
    } else if s[0] == '/' || s[0] == ':' {
        0
    } else {
        1 + host_end(s.drop_first())
    }
}

/// The host that a server address names, or why it names none: the
/// trimmed text, without its scheme, up to the first `/` or `:`.
pub open spec fn server_host(host: Seq<char>) -> Result<Seq<char>, Seq<char>> {
    let t = trim(host);
    if t.len() == 0 {
        Err("host cannot be empty"@)
    } else {
        let s = strip_scheme(t);
        let h = s.take(host_end(s) as int);
        if h.len() == 0 {
            Err("invalid host"@)
        } else {
            Ok(h)
        }
    }
}

proof fn lemma_host_end_bound(s: Seq<char>)
    ensures
        host_end(s) <= s.len(),
        forall|i: int| 0 <= i < host_end(s) ==> s[i] != '/' && s[i] != ':',
        host_end(s) < s.len() ==> (s[host_end(s) as int] == '/' || s[host_end(s) as int] == ':'),
    decreases s.len(),
{
    if s.len() > 0 && !(s[0] == '/' || s[0] == ':') {
        lemma_host_end_bound(s.drop_first());
        assert forall|i: int| 0 <= i < host_end(s) implies s[i] != '/' && s[i] != ':' by {
            if i > 0 {
                assert(s[i] == s.drop_first()[i - 1]);
            }
        }
    }
}

proof fn lemma_host_end_full(s: Seq<char>)
    requires
        forall|i: int| 0 <= i < s.len() ==> s[i] != '/' && s[i] != ':',
    ensures
        host_end(s) == s.len(),
    decreases s.len(),
{
    if s.len() > 0 {
        assert forall|i: int| 0 <= i < s.drop_first().len() implies s.drop_first()[i] != '/' && s.drop_first()[i]
            != ':' by {
            assert(s.drop_first()[i] == s[i + 1]);
        }
        lemma_host_end_full(s.drop_first());
    }
}

/// Entering the host that an address gave, once more, gives the same
/// host, as long as that host has no white space at either end.
pub proof fn law_server_host_idempotent(host: Seq<char>)
    requires
        server_host(host) is Ok,
        trim(server_host(host)->Ok_0) == server_host(host)->Ok_0,
    ensures
        server_host(server_host(host)->Ok_0) == server_host(host),
{
    let t = trim(host);
    let s = strip_scheme(t);
    lemma_host_end_bound(s);
    let h = s.take(host_end(s) as int);
    assert forall|i: int| 0 <= i < h.len() implies h[i] != '/' && h[i] != ':' by {
        assert(h[i] == s[i]);
    }
    reveal_strlit("http://");
    reveal_strlit("https://");
    if starts_with(h, "http://"@) {
        assert(h[4] == "http://"@[4]);
    }
    if starts_with(h, "https://"@) {
        assert(h[5] == "https://"@[5]);
    }
    assert(strip_scheme(h) == h);
    lemma_host_end_full(h);
    assert(h.take(h.len() as int) =~= h);
}

/// Where the UI finds the account service and the directory.
#[derive(Debug, Clone)]
pub struct ServerConfig {
    pub base_auth_url: String,
    pub base_directory_url: String,
}

/// `http://<host>:8080`
pub open spec fn auth_url_for(host: Seq<char>) -> Seq<char> {
    "http://"@ + host + ":8080"@
}

/// `http://<host>:8081`
pub open spec fn directory_url_for(host: Seq<char>) -> Seq<char> {
    "http://"@ + host + ":8081"@
}

impl ServerConfig {
    /// The URLs that `VPN_AUTH_URL` and `VPN_DIRECTORY_URL` give, as the
    /// variables' values, with the local development services as defaults.
    pub fn from_env(auth_url: Option<String>, directory_url: Option<String>) -> (r: Self)
        ensures
            r.base_auth_url@ == match auth_url {
                Some(u) => u@,
                None => "http://127.0.0.1:8080"@,
            },
            r.base_directory_url@ == match directory_url {
                Some(u) => u@,
                None => "http://127.0.0.1:8081"@,
            },
    {
        let base_auth_url = match auth_url {
            Some(u) => u,
            None => owned("http://127.0.0.1:8080"),
        };
        let base_directory_url = match directory_url {
            Some(u) => u,
            None => owned("http://127.0.0.1:8081"),
        };
        ServerConfig { base_auth_url, base_directory_url }
    }

    /// Points both services at the host that `host` names (see
    /// `server_host`): the account service on port 8080, the directory on
    /// 8081. A refused address changes nothing.
    pub fn set_server_host(&mut self, host: &str) -> (r: Result<(), String>)
        ensures
            match server_host(host@) {
                Ok(h) => r is Ok && final(self).base_auth_url@ == auth_url_for(h)
                    && final(self).base_directory_url@ == directory_url_for(h),
                Err(m) => r matches Err(e) && e@ == m && *final(self) == *old(self),
            },
    {
        proof {
            reveal_strlit("http://");
            reveal_strlit("https://");
        }
        let t = trim_exec(&chars_of(host));
        if t.len() == 0 {
            return Err(owned("host cannot be empty"));
        }
        let s = if starts_with_exec(&t, "http://") {
            crate::text::slice_vec(&t, 7, t.len())
        } else if starts_with_exec(&t, "https://") {
            crate::text::slice_vec(&t, 8, t.len())
        } else {
            t
        };
        assert(s@ == strip_scheme(trim(host@)));
        let mut k: usize = 0;
        while k < s.len() && s[k] != '/' && s[k] != ':'
            invariant
                k <= s.len(),
                forall|i: int| 0 <= i < k ==> s@[i] != '/' && s@[i] != ':',
            decreases s.len() - k,
        {
            k = k + 1;
        }
        proof {
            lemma_host_end_bound(s@);
            if (k as nat) < host_end(s@) {
                assert(s@[k as int] != '/' && s@[k as int] != ':');
            }
            if host_end(s@) < k {
                assert(s@[host_end(s@) as int] != '/' && s@[host_end(s@) as int] != ':');
            }
        }
        if k == 0 {
            return Err(owned("invalid host"));
        }
        let h = crate::text::string_of_range(&s, 0, k);
        assert(s@.subrange(0, k as int) =~= s@.take(k as int));
        self.base_auth_url = concat3("http://", h.as_str(), ":8080");
        self.base_directory_url = concat3("http://", h.as_str(), ":8081");
        Ok(())
    }

    /// `<auth>/auth/login`
    pub fn login_url(&self) -> (r: String)
        ensures
            r@ == self.base_auth_url@ + "/auth/login"@,
    {
        concat2(self.base_auth_url.as_str(), "/auth/login")
    }

    /// `<auth>/auth/device/start`
    pub fn device_start_url(&self) -> (r: String)
        ensures
            r@ == self.base_auth_url@ + "/auth/device/start"@,
    {
        concat2(self.base_auth_url.as_str(), "/auth/device/start")
    }

    /// `<auth>/auth/device/poll`
    pub fn device_poll_url(&self) -> (r: String)
        ensures
            r@ == self.base_auth_url@ + "/auth/device/poll"@,
    {
        concat2(self.base_auth_url.as_str(), "/auth/device/poll")
    }

    /// `<directory>/regions`
    pub fn regions_url(&self) -> (r: String)
        ensures
            r@ == self.base_directory_url@ + "/regions"@,
    {
        concat2(self.base_directory_url.as_str(), "/regions")
    }

    /// `<directory>/mesh/path`
    pub fn mesh_path_url(&self) -> (r: String)
        ensures
            r@ == self.base_directory_url@ + "/mesh/path"@,
    {
        concat2(self.base_directory_url.as_str(), "/mesh/path")
    }
}

/// The local desktop service's URL for `path`: port from
/// `DESKTOP_SERVICE_PORT` as given, else 17231.
pub fn daemon_url(port: Option<String>, path: &str) -> (r: String)
    ensures
        r@ == "http://127.0.0.1:"@ + match port {
            Some(p) => p@,
            None => "17231"@,
        } + path@,
{
    let p = match port {
        Some(p) => p,
        None => owned("17231"),
    };
    concat3("http://127.0.0.1:", p.as_str(), path)
}

/// The tokens the UI holds after a login.
#[derive(Debug, Clone)]
pub struct TokenResponse {
    pub access_token: String,
    pub refresh_token: String,
    pub expires_in: i64,
}

/// The access token for a directory request, or `not authenticated`.
pub fn access_token_for_request(tokens: &Option<TokenResponse>) -> (r: Result<String, String>)
    ensures
        match tokens {
            Some(t) => r matches Ok(s) && s@ == t.access_token@,
            None => r matches Err(e) && e@ == "not authenticated"@,
        },
{
    match tokens {
        Some(t) => Ok(owned(t.access_token.as_str())),
        None => Err(owned("not authenticated")),
    }
}

/// The UI's status line: authorized or not, and whether the background
/// loop runs.
pub open spec fn app_status_text(has_token: bool, running: bool) -> Seq<char> {
    (if has_token {
        "authorized"@
    } else {
        "unauthorized"@
    }) + if running {
        " • background:running"@
    } else {
        seq![]
    }
}

/// The UI's status line.
pub fn app_status(has_token: bool, running: bool) -> (r: String)
    ensures
        r@ == app_status_text(has_token, running),
{
    let mut s = if has_token {
        owned("authorized")
    } else {
        owned("unauthorized")
    };
    if running {
        s.append(" • background:running");
    } else {
        assert(s@ + seq![] =~= s@);
    }
    s
}

/// An ASCII letter or digit.
pub open spec fn is_alphanumeric(c: char) -> bool {
    ('a' <= c && c <= 'z') || ('A' <= c && c <= 'Z') || ('0' <= c && c <= '9')
}

/// A random ASCII letter or digit.
///
/// Trusted: samples `rand::distributions::Alphanumeric` with
/// `rand::thread_rng()`; its documentation says it yields an ASCII letter
/// or digit, which is all that is stated.
#[verifier::external_body]
fn random_alphanumeric() -> (c: char)
    ensures
        is_alphanumeric(c),
{
    char::from(rand::Rng::sample(&mut rand::thread_rng(), rand::distributions::Alphanumeric))
}

/// A PKCE code verifier: 64 random ASCII letters and digits (RFC 7636
/// allows 43 to 128).
pub fn gen_code_verifier() -> (r: String)
    ensures
        r@.len() == 64,
        forall|i: int| 0 <= i < 64 ==> is_alphanumeric(#[trigger] r@[i]),
{
    let mut s = String::new();
    let mut i: usize = 0;
    while i < 64
        invariant
            i <= 64,
            s@.len() == i,
            forall|j: int| 0 <= j < i ==> is_alphanumeric(#[trigger] s@[j]),
        decreases 64 - i,
    {
        let c = random_alphanumeric();
        push_char(&mut s, c);
        i = i + 1;
    }
    s
}

/// The S256 challenge of a verifier: the URL-safe unpadded Base64 of the
/// SHA-256 of its UTF-8 bytes.
pub open spec fn s256_of(verifier: &str) -> Seq<char> {
    base64_url_nopad_encoded(sha256_digest(verifier.spec_bytes()))
}

/// The S256 code challenge of a verifier; it is always 43 characters long.
pub fn s256_challenge(verifier: &str) -> (r: String)
    ensures
        r@ == s256_of(verifier),
        r@.len() == 43,
{
    let bytes = utf8_bytes(verifier);
    let digest = sha256(bytes.as_slice());
    base64_url_nopad_encode(digest.as_slice())
}

/// Whether the background loop has announced an established connection.
#[derive(Debug, Clone, Copy, Default)]
pub struct ConnectionLog {
    pub logged: bool,
}

/// What the connection log does with an observed state: a connection is
/// announced once when it comes up, and a loss once when it goes down.
/// Gives the new flag and whether it announced an up (`Some(true)`) or a
/// down (`Some(false)`).
pub open spec fn connection_log_step(logged: bool, state: ConnectionState) -> (bool, Option<bool>) {
    if state == ConnectionState::Connected && !logged {
        (true, Some(true))
    } else if state == ConnectionState::Disconnected && logged {
        (false, Some(false))
    } else {
        (logged, None)
    }
}

/// Announcements alternate: an up is never announced twice in a row
/// without a down between, and a down only follows an up.
pub proof fn law_connection_log_alternates(logged: bool, s1: ConnectionState, s2: ConnectionState)
    ensures
        connection_log_step(logged, s1).1 == Some(true) ==> connection_log_step(
            connection_log_step(logged, s1).0,
            s2,
        ).1 != Some(true),
        connection_log_step(logged, s1).1 == Some(false) ==> connection_log_step(
            connection_log_step(logged, s1).0,
            s2,
        ).1 != Some(false),
        connection_log_step(logged, s1).1 == Some(false) ==> logged,
{
}

/// The lines announcing a connection to `profile`.
pub open spec fn connected_lines(profile: Seq<char>) -> Seq<Seq<char>> {
    seq![
        "[VPN] ✓ Connected to VPN profile: "@ + profile,
        "[VPN] Connection established - Windows is now routing traffic through VPN"@,
    ]
}

/// The lines announcing a lost connection to `profile`.
pub open spec fn disconnected_lines(profile: Seq<char>) -> Seq<Seq<char>> {
    seq![
        "[VPN] ✗ Disconnected from VPN profile: "@ + profile,
        "[VPN] Connection lost - Windows is no longer routing traffic through VPN"@,
    ]
}

impl ConnectionLog {
    /// Takes an observed state and returns the lines to print.
    pub fn observe(&mut self, state: ConnectionState, profile: &str) -> (r: Vec<String>)
        ensures
            final(self).logged == connection_log_step(old(self).logged, state).0,
            string_views(r@) == match connection_log_step(old(self).logged, state).1 {
                Some(true) => connected_lines(profile@),
                Some(false) => disconnected_lines(profile@),
                None => seq![],
            },
    {
        let mut out: Vec<String> = Vec::new();
        if state == ConnectionState::Connected && !self.logged {
            push_string_arg(&mut out, concat2("[VPN] ✓ Connected to VPN profile: ", profile));
            push_arg(&mut out, "[VPN] Connection established - Windows is now routing traffic through VPN");
            self.logged = true;
            assert(string_views(out@) =~= connected_lines(profile@));
        } else if state == ConnectionState::Disconnected && self.logged {
            push_string_arg(&mut out, concat2("[VPN] ✗ Disconnected from VPN profile: ", profile));
            push_arg(&mut out, "[VPN] Connection lost - Windows is no longer routing traffic through VPN");
            self.logged = false;
            assert(string_views(out@) =~= disconnected_lines(profile@));
        } else {
            assert(string_views(out@) =~= Seq::<Seq<char>>::empty());
        }
        out
    }
}

/// The packet statistics are printed again once five seconds have passed.
pub fn stats_due(elapsed_secs: u64) -> (r: bool)
    ensures
        r == (elapsed_secs >= 5),
{
    elapsed_secs >= 5
}

/// The PowerShell query that prints a RAS connection's adapter counters.
pub open spec fn vpn_packet_script(name: Seq<char>) -> Seq<char> {
    "$vpn = Get-VpnConnection -Name '"@ + name
        + "' -ErrorAction SilentlyContinue; if ($vpn) { $adapter = Get-NetAdapter | Where-Object { $_.InterfaceIndex -eq $vpn.InterfaceIndex }; if ($adapter) { $stats = Get-NetAdapterStatistics -Name $adapter.Name; Write-Host \\\"[VPN-PACKET] Profile: "@
        + name
        + " | Bytes RX: $($stats.BytesReceived) | Bytes TX: $($stats.BytesSent) | Packets RX: $($stats.PacketsReceived) | Packets TX: $($stats.PacketsSent)\\\"; } else { Write-Host \\\"[VPN-PACKET] No adapter found for profile: "@
        + name + "\\\"; } } else { Write-Host \\\"[VPN-PACKET] VPN connection '"@ + name + "' not found\\\"; }"@
}

/// The query's lines worth printing: those tagged `[VPN-PACKET]`.
pub open spec fn tagged_lines(ls: Seq<Seq<char>>) -> Seq<Seq<char>>
    decreases ls.len(),
{
    if ls.len() == 0 {
        seq![]
    } else {
        tagged_lines(ls.drop_last()) + if contains(ls.last(), "[VPN-PACKET]"@) {
            seq![ls.last()]
        } else {
            seq![]
        }
    }
}

/// A `rasdial` line worth printing: bytes, packets or errors.
pub open spec fn is_counter_line(l: Seq<char>) -> bool {
    contains(l, "Bytes"@) || contains(l, "packet"@) || contains(l, "error"@) || contains(l, "Error"@)
}

/// The printed form of the counter lines among `ls`.
pub open spec fn counter_lines(name: Seq<char>, ls: Seq<Seq<char>>) -> Seq<Seq<char>>
    decreases ls.len(),
{
    if ls.len() == 0 {
        seq![]
    } else {
        counter_lines(name, ls.drop_last()) + if is_counter_line(ls.last()) {
            seq!["[VPN-PACKET] "@ + name + " - "@ + trim(ls.last())]
        } else {
            seq![]
        }
    }
}

/// The printed lines of a statistics query: none when it failed.
pub open spec fn query_lines(out: CommandOutput) -> Seq<Seq<char>> {
    if out.status == 0 {
        tagged_lines(lines(out.stdout@))
    } else {
        seq![]
    }
}

/// The printed counter lines of a `rasdial` output: none unless it exited
/// with 0 and reports `Connected to`.
pub open spec fn rasdial_counter_lines(out: CommandOutput, name: Seq<char>) -> Seq<Seq<char>> {
    if out.status == 0 && contains(out.stdout@, "Connected to"@) {
        counter_lines(name, lines(out.stdout@))
    } else {
        seq![]
    }
}

/// `r` is a possible outcome of the packet statistics of `name` on `e`
/// (Windows): the statistics query, then `rasdial <name>`; the lines are
/// the query's tagged lines and then the counter lines.
pub open spec fn packet_lines_reported<E: CommandExecutor>(
    e: &E,
    name: Seq<char>,
    r: Result<Vec<String>, CoreError>,
) -> bool {
    exists|a1: Result<CommandOutput, CoreError>|
        #[trigger] e.answers("powershell"@, ps_args(vpn_packet_script(name)), seq![], a1) && match a1 {
            Err(x) => r == Err::<Vec<String>, CoreError>(x),
            Ok(o1) => exists|a2: Result<CommandOutput, CoreError>|
                #[trigger] e.answers("rasdial"@, rasdial_status_args(name), seq![], a2) && match a2 {
                    Err(x) => r == Err::<Vec<String>, CoreError>(x),
                    Ok(o2) => r matches Ok(v) && string_views(v@) == query_lines(o1) + rasdial_counter_lines(
                        o2,
                        name,
                    ),
                },
        }
}

/// The printed lines of a successful statistics query.
pub fn tagged_lines_of(out: &CommandOutput) -> (r: Vec<String>)
    ensures
        string_views(r@) == query_lines(*out),
{
    let mut msgs: Vec<String> = Vec::new();
    if out.status != 0 {
        assert(string_views(msgs@) =~= Seq::<Seq<char>>::empty());
        return msgs;
    }
    let ls = lines_exec(&chars_of(out.stdout.as_str()));
    let ghost all = views(ls@);
    let mut i: usize = 0;
    while i < ls.len()
        invariant
            i <= ls.len(),
            all == views(ls@),
            string_views(msgs@) == tagged_lines(all.take(i as int)),
        decreases ls.len() - i,
    {
        assert(all[i as int] == ls@[i as int]@);
        if contains_exec(&ls[i], "[VPN-PACKET]") {
            push_string_arg(&mut msgs, string_of(&ls[i]));
        }
        i = i + 1;
        assert(all.take(i as int).drop_last() =~= all.take(i - 1));
        assert(string_views(msgs@) =~= tagged_lines(all.take(i as int)));
    }
    assert(all.take(ls.len() as int) =~= all);
    msgs
}

/// The printed counter lines of a connected `rasdial` output.
pub fn counter_lines_of(out: &CommandOutput, name: &str) -> (r: Vec<String>)
    ensures
        string_views(r@) == rasdial_counter_lines(*out, name@),
{
    let mut msgs: Vec<String> = Vec::new();
    let v = chars_of(out.stdout.as_str());
    if !(out.status == 0 && contains_exec(&v, "Connected to")) {
        assert(string_views(msgs@) =~= Seq::<Seq<char>>::empty());
        return msgs;
    }
    let ls = lines_exec(&v);
    let ghost all = views(ls@);
    let mut i: usize = 0;
    while i < ls.len()
        invariant
            i <= ls.len(),
            all == views(ls@),
            string_views(msgs@) == counter_lines(name@, all.take(i as int)),
        decreases ls.len() - i,
    {
        assert(all[i as int] == ls@[i as int]@);
        let l = &ls[i];
        if contains_exec(l, "Bytes") || contains_exec(l, "packet") || contains_exec(l, "error") || contains_exec(
            l,
            "Error",
        ) {
            let t = string_of(&trim_exec(l));
            let mut m = concat3("[VPN-PACKET] ", name, " - ");
            m.append(t.as_str());
            push_string_arg(&mut msgs, m);
        }
        i = i + 1;
        assert(all.take(i as int).drop_last() =~= all.take(i - 1));
        assert(string_views(msgs@) =~= counter_lines(name@, all.take(i as int)));
    }
    assert(all.take(ls.len() as int) =~= all);
    msgs
}

/// The statistics query for a profile.
pub fn vpn_packet_script_for(name: &str) -> (r: String)
    ensures
        r@ == vpn_packet_script(name@),
{
    let mut s = concat3("$vpn = Get-VpnConnection -Name '", name, "' -ErrorAction SilentlyContinue; if ($vpn) { $adapter = Get-NetAdapter | Where-Object { $_.InterfaceIndex -eq $vpn.InterfaceIndex }; if ($adapter) { $stats = Get-NetAdapterStatistics -Name $adapter.Name; Write-Host \\\"[VPN-PACKET] Profile: ");
    s.append(name);
    s.append(" | Bytes RX: $($stats.BytesReceived) | Bytes TX: $($stats.BytesSent) | Packets RX: $($stats.PacketsReceived) | Packets TX: $($stats.PacketsSent)\\\"; } else { Write-Host \\\"[VPN-PACKET] No adapter found for profile: ");
    s.append(name);
    s.append("\\\"; } } else { Write-Host \\\"[VPN-PACKET] VPN connection '");
    s.append(name);
    s.append("' not found\\\"; }");
    s
}

/// On Windows, queries a profile's adapter counters and its `rasdial`
/// state and returns the lines to print; elsewhere nothing runs.
pub fn vpn_packet_stats<E: CommandExecutor>(executor: &E, platform: Platform, name: &str) -> (r: Result<
    Vec<String>,
    CoreError,
>)
    ensures
        platform != Platform::Windows ==> (r matches Ok(v) && v@.len() == 0),
        platform == Platform::Windows ==> packet_lines_reported(executor, name@, r),
{
    let mut msgs: Vec<String> = Vec::new();
    if platform != Platform::Windows {
        return Ok(msgs);
    }
    let script = vpn_packet_script_for(name);
    let args = powershell_args(script.as_str());
    let a1 = executor.run("powershell", &args);
    let ghost g1 = a1;
    assert(executor.answers("powershell"@, ps_args(vpn_packet_script(name@)), seq![], g1));
    let out1 = match a1 {
        Err(x) => return Err(x),
        Ok(o) => o,
    };
    let tagged = tagged_lines_of(&out1);
    let mut rasdial: Vec<String> = Vec::new();
    push_arg(&mut rasdial, name);
    assert(string_views(rasdial@) =~= rasdial_status_args(name@));
    let a2 = executor.run("rasdial", &rasdial);
    let ghost g2 = a2;
    assert(executor.answers("rasdial"@, rasdial_status_args(name@), seq![], g2));
    let out2 = match a2 {
        Err(x) => return Err(x),
        Ok(o) => o,
    };
    let counters = counter_lines_of(&out2, name);
    let mut i: usize = 0;
    while i < tagged.len()
        invariant
            i <= tagged.len(),
            string_views(msgs@) == string_views(tagged@).take(i as int),
        decreases tagged.len() - i,
    {
        push_string_arg(&mut msgs, owned(tagged[i].as_str()));
        i = i + 1;
        assert(string_views(tagged@).take(i as int) =~= string_views(tagged@).take(i - 1).push(tagged@[i - 1]@));
    }
    assert(string_views(tagged@).take(tagged.len() as int) =~= string_views(tagged@));
    let ghost first = string_views(msgs@);
    let mut j: usize = 0;
    while j < counters.len()
        invariant
            j <= counters.len(),
            string_views(msgs@) == first + string_views(counters@).take(j as int),
        decreases counters.len() - j,
    {
        push_string_arg(&mut msgs, owned(counters[j].as_str()));
        j = j + 1;
        assert(string_views(counters@).take(j as int) =~= string_views(counters@).take(j - 1).push(
            counters@[j - 1]@,
        ));
        assert(string_views(msgs@) =~= first + string_views(counters@).take(j as int));
    }
    assert(string_views(counters@).take(counters.len() as int) =~= string_views(counters@));
    Ok(msgs)
}

} // verus!
