//! The account service's client side: the login reply, the server profile
//! it hands out (as JSON or as an OpenVPN config) and the endpoints.

use vstd::prelude::*;

use crate::text::{
    chars_of, concat2, concat3, eq_str, lines, lines_exec, owned, split_ws, split_ws_exec,
    starts_with, starts_with_exec, string_of, trim, trim_exec, views,
};

verus! {

/// The tokens that a login returns.
#[derive(Debug, Clone)]
pub struct LoginResponse {
    pub access_token: String,
    pub refresh_token: String,
}

/// The VPN profile that the account service hands out.
#[derive(Debug, Clone, Default)]
pub struct ServerProfile {
    pub name: Option<String>,
    pub server: Option<String>,
    pub remote_id: Option<String>,
    pub username: Option<String>,
    pub password: Option<String>,
    pub dns: Vec<String>,
    pub split_tunnel: Option<bool>,
    /// The text the profile was read from, when it was not JSON.
    pub raw: Option<String>,
}

/// The name a profile is stored under: its name, else its server, else
/// `default`.
pub open spec fn inferred_name(p: ServerProfile) -> Seq<char> {
    match p.name {
        Some(n) => n@,
        None => match p.server {
            Some(s) => s@,
            None => "default"@,
        },
    }
}

impl ServerProfile {
    /// The name to store the profile under.
    pub fn infer_profile_name(&self) -> (r: String)
        ensures
            r@ == inferred_name(*self),
    {
        match &self.name {
            Some(n) => owned(n.as_str()),
            None => match &self.server {
                Some(s) => owned(s.as_str()),
                None => owned("default"),
            },
        }
    }
}

/// The server that a `remote <host> [port]` line names: the host, with
/// `:<port>` unless the port is OpenVPN's default 1194.
pub open spec fn remote_line_server(line: Seq<char>) -> Option<Seq<char>> {
    let t = trim(line);
    if starts_with(t, "remote "@) {
        let parts = split_ws(t);
        if parts.len() >= 2 {
            let port = if parts.len() >= 3 {
                parts[2]
            } else {
                "1194"@
            };
            if port == "1194"@ {
                Some(parts[1])
            } else {
                Some(parts[1] + ":"@ + port)
            }
        } else {
            None
        }
    } else {
        None
    }
}

/// The server of the first `remote` line that names one.
pub open spec fn first_remote(ls: Seq<Seq<char>>) -> Option<Seq<char>>
    decreases ls.len(),
{
    if ls.len() == 0 {
        None
    } else {
        match remote_line_server(ls[0]) {
            Some(s) => Some(s),
            None => first_remote(ls.drop_first()),
        }
    }
}

/// The server that an OpenVPN config names.
pub open spec fn openvpn_remote(config: Seq<char>) -> Option<Seq<char>> {
    first_remote(lines(config))
}

fn remote_line_exec(line: &Vec<char>) -> (r: Option<String>)
    ensures
        match remote_line_server(line@) {
            Some(s) => r matches Some(v) && v@ == s,
            None => r is None,
        },
{
    let t = trim_exec(line);
    if !starts_with_exec(&t, "remote ") {
        return None;
    }
    let parts = split_ws_exec(&t);
    assert(views(parts@) == split_ws(t@));
    if parts.len() < 2 {
        return None;
    }
    assert(parts@[1]@ == split_ws(t@)[1]);
    let host = string_of(&parts[1]);
    if parts.len() >= 3 {
        assert(parts@[2]@ == split_ws(t@)[2]);
        if eq_str(&parts[2], "1194") {
            Some(host)
        } else {
            let port = string_of(&parts[2]);
            Some(concat3(host.as_str(), ":", port.as_str()))
        }
    } else {
        Some(host)
    }
}

/// An owned copy of an optional string.
pub fn copy_opt_string(v: &Option<String>) -> (r: Option<String>)
    ensures
        match v {
            Some(s) => r matches Some(t) && t@ == s@,
            None => r is None,
        },
{
    match v {
        Some(s) => Some(owned(s.as_str())),
        None => None,
    }
}

/// The account service's endpoints, relative to its base URL.
pub struct AuthApiClient {
    base_url: String,
}

/// `<base>/api/v1/auth/login`
pub open spec fn login_url_of(base: Seq<char>) -> Seq<char> {
    base + "/api/v1/auth/login"@
}

/// `<base>/api/v1/vpn/profile`
pub open spec fn profile_url_of(base: Seq<char>) -> Seq<char> {
    base + "/api/v1/vpn/profile"@
}

impl AuthApiClient {
    /// A client for the service at `base_url`.
    pub fn new(base_url: String) -> (r: Self)
        ensures
            r.base() == base_url@,
    {
        AuthApiClient { base_url }
    }

    /// A client for the service that `AUTH_BASE_URL` names, given as the
    /// variable's value; `http://localhost:8080` when unset.
    pub fn new_from_env(auth_base_url: Option<String>) -> (r: Result<Self, crate::error::CoreError>)
        ensures
            r matches Ok(c) && c.base() == match auth_base_url {
                Some(u) => u@,
                None => "http://localhost:8080"@,
            },
    {
        let base = match auth_base_url {
            Some(u) => u,
            None => owned("http://localhost:8080"),
        };
        Ok(Self::new(base))
    }

    /// The base URL.
    pub closed spec fn base(&self) -> Seq<char> {
        self.base_url@
    }

    /// The login endpoint.
    pub fn login_url(&self) -> (r: String)
        ensures
            r@ == login_url_of(self.base()),
    {
        concat2(self.base_url.as_str(), "/api/v1/auth/login")
    }

    /// The profile endpoint.
    pub fn profile_url(&self) -> (r: String)
        ensures
            r@ == profile_url_of(self.base()),
    {
        concat2(self.base_url.as_str(), "/api/v1/vpn/profile")
    }

    /// The server that an OpenVPN config names in its first `remote` line.
    pub fn parse_openvpn_remote(config: &str) -> (r: Option<String>)
        ensures
            match openvpn_remote(config@) {
                Some(s) => r matches Some(v) && v@ == s,
                None => r is None,
            },
    {
        let v = chars_of(config);
        let ls = lines_exec(&v);
        let ghost all = views(ls@);
        let mut i: usize = 0;
        assert(all.skip(0) =~= all);
        while i < ls.len()
            invariant
                i <= ls.len(),
                all == views(ls@),
                all == lines(config@),
                first_remote(all) == first_remote(all.skip(i as int)),
            decreases ls.len() - i,
        {
            assert(all.skip(i as int)[0] == ls@[i as int]@);
            assert(all.skip(i as int).drop_first() =~= all.skip(i + 1));
            match remote_line_exec(&ls[i]) {
                Some(s) => return Some(s),
                None => {},
            }
            i = i + 1;
        }
        None
    }

    /// The profile that the profile endpoint returned: the JSON reading of
    /// `text` when it was JSON (`parsed`), else a profile named `default`
    /// whose server is the config's first `remote` and which keeps the
    /// text.
    pub fn profile_from_text(text: String, parsed: Option<ServerProfile>) -> (r: ServerProfile)
        ensures
            match parsed {
                Some(p) => r == p,
                None => {
                    &&& r.name matches Some(n) && n@ == "default"@
                    &&& match openvpn_remote(text@) {
                        Some(s) => r.server matches Some(v) && v@ == s,
                        None => r.server is None,
                    }
                    &&& r.remote_id is None && r.username is None && r.password is None
                    &&& r.dns@.len() == 0 && r.split_tunnel is None
                    &&& r.raw matches Some(t) && t@ == text@
                },
            },
    {
        match parsed {
            Some(p) => p,
            None => {
                let server = Self::parse_openvpn_remote(text.as_str());
                ServerProfile {
                    name: Some(owned("default")),
                    server,
                    remote_id: None,
                    username: None,
                    password: None,
                    dns: Vec::new(),
                    split_tunnel: None,
                    raw: Some(text),
                }
            },
        }
    }
}

} // verus!
