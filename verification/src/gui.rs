//! The desktop window's state machine: each message (a form edit, a
//! button, the result of earlier work) moves the window's state and asks
//! for the next piece of work. Running that work and drawing the window is
//! the caller's part.

use vstd::prelude::*;

use crate::auth::{copy_opt_string, inferred_name, LoginResponse, ServerProfile};
use crate::command::{copy_strings, string_views};
use crate::node::{nonempty_trimmed, nonempty_trimmed_exec};
use crate::text::{chars_of, concat2, eq_str, owned, split_char, split_char_exec, string_of, trim, trim_exec};
use crate::types::{AuthMethod, DnsSettings, SplitTunnel, VpnProfile};

verus! {

/// A message to the window.
#[derive(Debug)]
pub enum GuiMsg {
    Noop,
    LoadProfiles,
    ProfilesLoaded(Result<Vec<VpnProfile>, String>),
    SelectProfile(usize),
    EmailChanged(String),
    PasswordChanged(String),
    Login,
    LoggedIn(Result<LoginResponse, String>),
    ProfileFetched(Result<ServerProfile, String>),
    AddNameChanged(String),
    AddServerChanged(String),
    AddRemoteIdChanged(String),
    AddSplitTunnelChanged(bool),
    AddDnsChanged(String),
    AddUsernameChanged(String),
    AddSubmit,
    Added(Result<(), String>),
    SetCredsUsernameChanged(String),
    SetCredsPasswordChanged(String),
    SetCredsSubmit,
    CredsSet(Result<(), String>),
    Connect,
    Connected(Result<(), String>),
    Disconnect,
    Disconnected(Result<(), String>),
    Remove,
    Removed(Result<(), String>),
}

/// The work that a message asks for; its outcome comes back as a message.
#[derive(Debug)]
pub enum GuiCommand {
    /// Nothing to do.
    Nothing,
    /// List the stored profiles (answered by `ProfilesLoaded`).
    ListProfiles,
    /// Send `LoadProfiles`.
    ReloadProfiles,
    /// Log in (answered by `LoggedIn`).
    Login { email: String, password: String },
    /// Store the tokens, then fetch the server profile with the access
    /// token (answered by `ProfileFetched`).
    SaveTokensAndFetchProfile { email: String, access_token: String, refresh_token: String },
    /// Add the profile, then store the password under its name and user
    /// (answered by `Added`).
    ProvisionProfile { profile: VpnProfile, username: String, password: String },
    /// Add the profile (answered by `Added`).
    AddProfile(VpnProfile),
    /// Store a password (answered by `CredsSet`).
    SetPassword { profile: String, username: String, password: String },
    /// Connect the profile (answered by `Connected`).
    Connect(String),
    /// Disconnect the profile (answered by `Disconnected`).
    Disconnect(String),
    /// Remove the profile (answered by `Removed`).
    RemoveProfile(String),
}

/// The window's state.
#[derive(Debug)]
pub struct GuiState {
    pub profiles: Vec<VpnProfile>,
    pub selected: Option<usize>,
    pub pending_select_name: Option<String>,
    pub email: String,
    pub password: String,
    pub access_token: Option<String>,
    pub current_profile_name: Option<String>,
    pub add_name: String,
    pub add_server: String,
    pub add_remote_id: String,
    pub add_split_tunnel: bool,
    pub add_dns: String,
    pub add_username: String,
    pub creds_username: String,
    pub creds_password: String,
    pub status_message: String,
}

/// A profile as text.
pub struct ProfileText {
    pub name: Seq<char>,
    pub server: Seq<char>,
    pub remote_id: Option<Seq<char>>,
    /// `Some(user)` for EAP-MSCHAPv2, `None` for EAP-TLS.
    pub mschap_username: Option<Option<Seq<char>>>,
    pub split_tunnel: bool,
    pub dns: Seq<Seq<char>>,
}

/// The window's state as text.
pub struct GuiView {
    pub profiles: Seq<VpnProfile>,
    pub selected: Option<usize>,
    pub pending_select_name: Option<Seq<char>>,
    pub email: Seq<char>,
    pub password: Seq<char>,
    pub access_token: Option<Seq<char>>,
    pub current_profile_name: Option<Seq<char>>,
    pub add_name: Seq<char>,
    pub add_server: Seq<char>,
    pub add_remote_id: Seq<char>,
    pub add_split_tunnel: bool,
    pub add_dns: Seq<char>,
    pub add_username: Seq<char>,
    pub creds_username: Seq<char>,
    pub creds_password: Seq<char>,
    pub status: Seq<char>,
}

/// A command as text.
pub enum GuiCommandView {
    Nothing,
    ListProfiles,
    ReloadProfiles,
    Login(Seq<char>, Seq<char>),
    SaveTokensAndFetchProfile(Seq<char>, Seq<char>, Seq<char>),
    ProvisionProfile(ProfileText, Seq<char>, Seq<char>),
    AddProfile(ProfileText),
    SetPassword(Seq<char>, Seq<char>, Seq<char>),
    Connect(Seq<char>),
    Disconnect(Seq<char>),
    RemoveProfile(Seq<char>),
}

/// The text of an optional string.
pub open spec fn opt_seq(o: Option<String>) -> Option<Seq<char>> {
    match o {
        Some(s) => Some(s@),
        None => None,
    }
}

/// A profile as text.
pub open spec fn profile_text(p: VpnProfile) -> ProfileText {
    ProfileText {
        name: p.name@,
        server: p.server@,
        remote_id: opt_seq(p.remote_id),
        mschap_username: match p.auth {
            AuthMethod::EapMsChapV2 { username } => Some(opt_seq(username)),
            AuthMethod::EapTls { .. } => None,
        },
        split_tunnel: p.split_tunnel.enabled,
        dns: string_views(p.dns.servers@),
    }
}

impl View for GuiState {
    type V = GuiView;

    open spec fn view(&self) -> GuiView {
        GuiView {
            profiles: self.profiles@,
            selected: self.selected,
            pending_select_name: opt_seq(self.pending_select_name),
            email: self.email@,
            password: self.password@,
            access_token: opt_seq(self.access_token),
            current_profile_name: opt_seq(self.current_profile_name),
            add_name: self.add_name@,
            add_server: self.add_server@,
            add_remote_id: self.add_remote_id@,
            add_split_tunnel: self.add_split_tunnel,
            add_dns: self.add_dns@,
            add_username: self.add_username@,
            creds_username: self.creds_username@,
            creds_password: self.creds_password@,
            status: self.status_message@,
        }
    }
}

impl View for GuiCommand {
    type V = GuiCommandView;

    open spec fn view(&self) -> GuiCommandView {
        match self {
            GuiCommand::Nothing => GuiCommandView::Nothing,
            GuiCommand::ListProfiles => GuiCommandView::ListProfiles,
            GuiCommand::ReloadProfiles => GuiCommandView::ReloadProfiles,
            GuiCommand::Login { email, password } => GuiCommandView::Login(email@, password@),
            GuiCommand::SaveTokensAndFetchProfile { email, access_token, refresh_token } =>
                GuiCommandView::SaveTokensAndFetchProfile(email@, access_token@, refresh_token@),
            GuiCommand::ProvisionProfile { profile, username, password } => GuiCommandView::ProvisionProfile(
                profile_text(*profile),
                username@,
                password@,
            ),
            GuiCommand::AddProfile(p) => GuiCommandView::AddProfile(profile_text(*p)),
            GuiCommand::SetPassword { profile, username, password } => GuiCommandView::SetPassword(
                profile@,
                username@,
                password@,
            ),
            GuiCommand::Connect(n) => GuiCommandView::Connect(n@),
            GuiCommand::Disconnect(n) => GuiCommandView::Disconnect(n@),
            GuiCommand::RemoveProfile(n) => GuiCommandView::RemoveProfile(n@),
        }
    }
}

/// The position of the first profile named `name`.
pub open spec fn first_named(ps: Seq<VpnProfile>, name: Seq<char>) -> Option<int>
    decreases ps.len(),
{
    if ps.len() == 0 {
        None
    } else if ps[0].name@ == name {
        Some(0)
    } else {
        match first_named(ps.drop_first(), name) {
            Some(i) => Some(i + 1),
            None => None,
        }
    }
}

/// An optional text from a form field: none when it trims to nothing.
pub open spec fn optional_field(s: Seq<char>) -> Option<Seq<char>> {
    if trim(s).len() == 0 {
        None
    } else {
        Some(trim(s))
    }
}

/// The profile that the add form describes.
pub open spec fn form_profile(v: GuiView) -> ProfileText {
    ProfileText {
        name: trim(v.add_name),
        server: trim(v.add_server),
        remote_id: optional_field(v.add_remote_id),
        mschap_username: Some(optional_field(v.add_username)),
        split_tunnel: v.add_split_tunnel,
        dns: nonempty_trimmed(split_char(v.add_dns, ',')),
    }
}

/// The profile made from a fetched server profile whose server is
/// `server`: the Docker service name `openvpn` is reached as `localhost`;
/// the user is the profile's, else the trimmed e-mail when there is one.
pub open spec fn fetched_profile(sp: ServerProfile, server: Seq<char>, email: Seq<char>) -> ProfileText {
    ProfileText {
        name: inferred_name(sp),
        server: if server == "openvpn"@ {
            "localhost"@
        } else {
            server
        },
        remote_id: opt_seq(sp.remote_id),
        mschap_username: Some(
            match sp.username {
                Some(u) => Some(u@),
                None => optional_field(email),
            },
        ),
        split_tunnel: match sp.split_tunnel {
            Some(b) => b,
            None => false,
        },
        dns: string_views(sp.dns@),
    }
}

/// `v` with a new status line.
pub open spec fn with_status(v: GuiView, status: Seq<char>) -> GuiView {
    GuiView { status, ..v }
}

/// The status line after a piece of work: `ok` on success, else the
/// failure's text after `failed`.
pub open spec fn outcome_status(v: GuiView, r: Result<(), String>, ok: Seq<char>, failed: Seq<char>) -> GuiView {
    match r {
        Ok(()) => with_status(v, ok),
        Err(e) => with_status(v, failed + e@),
    }
}

/// The name of the selected profile.
pub open spec fn selected_name(v: GuiView) -> Option<Seq<char>> {
    match v.selected {
        Some(i) => Some(v.profiles[i as int].name@),
        None => None,
    }
}

/// The window's transition: the next state and the work to do.
pub open spec fn gui_next(v: GuiView, msg: GuiMsg) -> (GuiView, GuiCommandView) {
    match msg {
        GuiMsg::Noop => (v, GuiCommandView::Nothing),
        GuiMsg::LoadProfiles => (v, GuiCommandView::ListProfiles),
        GuiMsg::ProfilesLoaded(Ok(list)) => (
            GuiView {
                profiles: list@,
                pending_select_name: None,
                selected: match v.pending_select_name {
                    Some(name) => match first_named(list@, name) {
                        Some(i) => Some(i as usize),
                        None => v.selected,
                    },
                    None => v.selected,
                },
                ..v
            },
            GuiCommandView::Nothing,
        ),
        GuiMsg::ProfilesLoaded(Err(e)) => (with_status(v, "Failed to load profiles: "@ + e@), GuiCommandView::Nothing),
        GuiMsg::SelectProfile(i) => (GuiView { selected: Some(i), ..v }, GuiCommandView::Nothing),
        GuiMsg::EmailChanged(s) => (GuiView { email: s@, ..v }, GuiCommandView::Nothing),
        GuiMsg::PasswordChanged(s) => (GuiView { password: s@, ..v }, GuiCommandView::Nothing),
        GuiMsg::Login => (v, GuiCommandView::Login(v.email, v.password)),
        GuiMsg::LoggedIn(Ok(resp)) => (
            GuiView { status: "Logged in"@, access_token: Some(resp.access_token@), ..v },
            GuiCommandView::SaveTokensAndFetchProfile(v.email, resp.access_token@, resp.refresh_token@),
        ),
        GuiMsg::LoggedIn(Err(e)) => (with_status(v, "Login failed: "@ + e@), GuiCommandView::Nothing),
        GuiMsg::ProfileFetched(Ok(sp)) => {
            let server = match sp.server {
                Some(s) => s@,
                None => seq![],
            };
            if server.len() == 0 {
                (with_status(v, "Profile missing server address"@), GuiCommandView::Nothing)
            } else {
                (
                    GuiView { current_profile_name: Some(inferred_name(sp)), ..v },
                    GuiCommandView::ProvisionProfile(
                        fetched_profile(sp, server, v.email),
                        match sp.username {
                            Some(u) => u@,
                            None => v.email,
                        },
                        match sp.password {
                            Some(p) => p@,
                            None => v.password,
                        },
                    ),
                )
            }
        },
        GuiMsg::ProfileFetched(Err(e)) => (with_status(v, "Profile fetch failed: "@ + e@), GuiCommandView::Nothing),
        GuiMsg::AddNameChanged(s) => (GuiView { add_name: s@, ..v }, GuiCommandView::Nothing),
        GuiMsg::AddServerChanged(s) => (GuiView { add_server: s@, ..v }, GuiCommandView::Nothing),
        GuiMsg::AddRemoteIdChanged(s) => (GuiView { add_remote_id: s@, ..v }, GuiCommandView::Nothing),
        GuiMsg::AddSplitTunnelChanged(b) => (GuiView { add_split_tunnel: b, ..v }, GuiCommandView::Nothing),
        GuiMsg::AddDnsChanged(s) => (GuiView { add_dns: s@, ..v }, GuiCommandView::Nothing),
        GuiMsg::AddUsernameChanged(s) => (GuiView { add_username: s@, ..v }, GuiCommandView::Nothing),
        GuiMsg::AddSubmit => (v, GuiCommandView::AddProfile(form_profile(v))),
        GuiMsg::Added(Ok(())) => (with_status(v, "Profile added"@), GuiCommandView::ReloadProfiles),
        GuiMsg::Added(Err(e)) => (with_status(v, "Add failed: "@ + e@), GuiCommandView::Nothing),
        GuiMsg::SetCredsUsernameChanged(s) => (GuiView { creds_username: s@, ..v }, GuiCommandView::Nothing),
        GuiMsg::SetCredsPasswordChanged(s) => (GuiView { creds_password: s@, ..v }, GuiCommandView::Nothing),
        GuiMsg::SetCredsSubmit => match selected_name(v) {
            Some(n) => (v, GuiCommandView::SetPassword(n, v.creds_username, v.creds_password)),
            None => (v, GuiCommandView::Nothing),
        },
        GuiMsg::CredsSet(r) => (
            outcome_status(v, r, "Credentials saved"@, "Credentials save failed: "@),
            GuiCommandView::Nothing,
        ),
        GuiMsg::Connect => match v.current_profile_name {
            Some(n) => (v, GuiCommandView::Connect(n)),
            None => (with_status(v, "No profile available. Login first."@), GuiCommandView::Nothing),
        },
        GuiMsg::Connected(r) => (outcome_status(v, r, "Connected"@, "Connect failed: "@), GuiCommandView::Nothing),
        GuiMsg::Disconnect => match selected_name(v) {
            Some(n) => (v, GuiCommandView::Disconnect(n)),
            None => (v, GuiCommandView::Nothing),
        },
        GuiMsg::Disconnected(r) => (
            outcome_status(v, r, "Disconnected"@, "Disconnect failed: "@),
            GuiCommandView::Nothing,
        ),
        GuiMsg::Remove => match selected_name(v) {
            Some(n) => (v, GuiCommandView::RemoveProfile(n)),
            None => (v, GuiCommandView::Nothing),
        },
        GuiMsg::Removed(Ok(())) => (with_status(v, "Removed"@), GuiCommandView::ReloadProfiles),
        GuiMsg::Removed(Err(e)) => (with_status(v, "Remove failed: "@ + e@), GuiCommandView::Nothing),
    }
}

/// The messages that read the selected profile need its index to be in
/// range.
pub open spec fn selection_in_range(v: GuiView, msg: GuiMsg) -> bool {
    (msg is SetCredsSubmit || msg is Disconnect || msg is Remove) && v.selected is Some ==> v.selected->Some_0
        < v.profiles.len()
}

/// The position of the first profile named `name`.
pub fn first_named_exec(list: &Vec<VpnProfile>, name: &str) -> (r: Option<usize>)
    ensures
        match first_named(list@, name@) {
            Some(i) => r == Some(i as usize),
            None => r is None,
        },
{
    let n = chars_of(name);
    let mut i: usize = 0;
    assert(list@.skip(0) =~= list@);
    while i < list.len()
        invariant
            i <= list.len(),
            n@ == name@,
            first_named(list@, name@) == match first_named(list@.skip(i as int), name@) {
                Some(j) => Some(j + i),
                None => None::<int>,
            },
        decreases list.len() - i,
    {
        assert(list@.skip(i as int)[0] == list@[i as int]);
        assert(list@.skip(i as int).drop_first() =~= list@.skip(i + 1));
        if eq_str(&n, list[i].name.as_str()) {
            return Some(i);
        }
        i = i + 1;
    }
    assert(list@.skip(i as int).len() == 0);
    None
}

fn optional_field_exec(s: &str) -> (r: Option<String>)
    ensures
        match optional_field(s@) {
            Some(t) => r matches Some(x) && x@ == t,
            None => r is None,
        },
{
    let t = trim_exec(&chars_of(s));
    if t.len() == 0 {
        None
    } else {
        Some(string_of(&t))
    }
}

impl GuiState {
    /// The window's first state, and the work it starts with: loading the
    /// profiles.
    pub fn new() -> (r: (GuiState, GuiCommand))
        ensures
            r.0@.profiles.len() == 0,
            r.0@.selected is None,
            r.0@.pending_select_name is None,
            r.0@.access_token is None,
            r.0@.current_profile_name is None,
            r.0@.email.len() == 0 && r.0@.password.len() == 0 && r.0@.status.len() == 0,
            r.0@.add_name.len() == 0 && r.0@.add_server.len() == 0 && r.0@.add_remote_id.len() == 0,
            r.0@.add_dns.len() == 0 && r.0@.add_username.len() == 0 && !r.0@.add_split_tunnel,
            r.0@.creds_username.len() == 0 && r.0@.creds_password.len() == 0,
            r.1@ == GuiCommandView::ReloadProfiles,
    {
        (
            GuiState {
                profiles: Vec::new(),
                selected: None,
                pending_select_name: None,
                email: String::new(),
                password: String::new(),
                access_token: None,
                current_profile_name: None,
                add_name: String::new(),
                add_server: String::new(),
                add_remote_id: String::new(),
                add_split_tunnel: false,
                add_dns: String::new(),
                add_username: String::new(),
                creds_username: String::new(),
                creds_password: String::new(),
                status_message: String::new(),
            },
            GuiCommand::ReloadProfiles,
        )
    }

    /// The window's title.
    pub fn title(&self) -> (r: String)
        ensures
            r@ == "VPN Client"@,
    {
        owned("VPN Client")
    }

    fn form_profile_exec(&self) -> (r: VpnProfile)
        ensures
            profile_text(r) == form_profile(self@),
    {
        let name = string_of(&trim_exec(&chars_of(self.add_name.as_str())));
        let server = string_of(&trim_exec(&chars_of(self.add_server.as_str())));
        let remote_id = optional_field_exec(self.add_remote_id.as_str());
        let username = optional_field_exec(self.add_username.as_str());
        let pieces = split_char_exec(&chars_of(self.add_dns.as_str()), ',');
        let servers = nonempty_trimmed_exec(&pieces);
        let p = VpnProfile {
            name,
            server,
            remote_id,
            auth: AuthMethod::EapMsChapV2 { username },
            split_tunnel: SplitTunnel { enabled: self.add_split_tunnel },
            dns: DnsSettings { servers },
        };
        p
    }

    fn selected_name_exec(&self) -> (r: Option<String>)
        requires
            self.selected is Some ==> self.selected->Some_0 < self.profiles.len(),
        ensures
            match selected_name(self@) {
                Some(n) => r matches Some(s) && s@ == n,
                None => r is None,
            },
    {
        match self.selected {
            Some(i) => Some(owned(self.profiles[i].name.as_str())),
            None => None,
        }
    }

    fn set_status(&mut self, s: String)
        ensures
            final(self)@ == with_status(old(self)@, s@),
    {
        self.status_message = s;
    }

    fn report(&mut self, r: Result<(), String>, ok: &str, failed: &str)
        ensures
            final(self)@ == outcome_status(old(self)@, r, ok@, failed@),
    {
        match r {
            Ok(()) => self.set_status(owned(ok)),
            Err(e) => self.set_status(concat2(failed, e.as_str())),
        }
    }

    /// Takes a message: moves the state and returns the work it asks for,
    /// as `gui_next` says. A message that reads the selected profile needs
    /// the selection to be in range.
    pub fn update(&mut self, msg: GuiMsg) -> (r: GuiCommand)
        requires
            selection_in_range(old(self)@, msg),
        ensures
            final(self)@ == gui_next(old(self)@, msg).0,
            r@ == gui_next(old(self)@, msg).1,
    {
        match msg {
            GuiMsg::Noop => GuiCommand::Nothing,
            GuiMsg::LoadProfiles => GuiCommand::ListProfiles,
            GuiMsg::ProfilesLoaded(res) => {
                match res {
                    Ok(list) => {
                        let pending = self.pending_select_name.take();
                        match pending {
                            Some(name) => match first_named_exec(&list, name.as_str()) {
                                Some(k) => {
                                    self.selected = Some(k);
                                },
                                None => {},
                            },
                            None => {},
                        }
                        self.profiles = list;
                    },
                    Err(err) => {
                        self.set_status(concat2("Failed to load profiles: ", err.as_str()));
                    },
                }
                GuiCommand::Nothing
            },
            GuiMsg::SelectProfile(i) => {
                self.selected = Some(i);
                GuiCommand::Nothing
            },
            GuiMsg::EmailChanged(s) => {
                self.email = s;
                GuiCommand::Nothing
            },
            GuiMsg::PasswordChanged(s) => {
                self.password = s;
                GuiCommand::Nothing
            },
            GuiMsg::Login => GuiCommand::Login {
                email: owned(self.email.as_str()),
                password: owned(self.password.as_str()),
            },
            GuiMsg::LoggedIn(res) => match res {
                Ok(resp) => {
                    self.status_message = owned("Logged in");
                    self.access_token = Some(owned(resp.access_token.as_str()));
                    GuiCommand::SaveTokensAndFetchProfile {
                        email: owned(self.email.as_str()),
                        access_token: resp.access_token,
                        refresh_token: resp.refresh_token,
                    }
                },
                Err(err) => {
                    self.set_status(concat2("Login failed: ", err.as_str()));
                    GuiCommand::Nothing
                },
            },
            GuiMsg::ProfileFetched(res) => match res {
                Ok(sp) => {
                    let server = match &sp.server {
                        Some(s) => owned(s.as_str()),
                        None => String::new(),
                    };
                    if server.unicode_len() == 0 {
                        self.set_status(owned("Profile missing server address"));
                        return GuiCommand::Nothing;
                    }
                    let sv = chars_of(server.as_str());
                    let server = if eq_str(&sv, "openvpn") {
                        owned("localhost")
                    } else {
                        server
                    };
                    let name = sp.infer_profile_name();
                    let username = match &sp.username {
                        Some(u) => Some(owned(u.as_str())),
                        None => optional_field_exec(self.email.as_str()),
                    };
                    let user = match &sp.username {
                        Some(u) => owned(u.as_str()),
                        None => owned(self.email.as_str()),
                    };
                    let pwd = match &sp.password {
                        Some(p) => owned(p.as_str()),
                        None => owned(self.password.as_str()),
                    };
                    let split = match sp.split_tunnel {
                        Some(b) => b,
                        None => false,
                    };
                    let remote_id = copy_opt_string(&sp.remote_id);
                    let servers = copy_strings(&sp.dns);
                    let profile = VpnProfile {
                        name: owned(name.as_str()),
                        server,
                        remote_id,
                        auth: AuthMethod::EapMsChapV2 { username },
                        split_tunnel: SplitTunnel { enabled: split },
                        dns: DnsSettings { servers },
                    };
                    self.current_profile_name = Some(name);
                    GuiCommand::ProvisionProfile { profile, username: user, password: pwd }
                },
                Err(err) => {
                    self.set_status(concat2("Profile fetch failed: ", err.as_str()));
                    GuiCommand::Nothing
                },
            },
            GuiMsg::AddNameChanged(s) => {
                self.add_name = s;
                GuiCommand::Nothing
            },
            GuiMsg::AddServerChanged(s) => {
                self.add_server = s;
                GuiCommand::Nothing
            },
            GuiMsg::AddRemoteIdChanged(s) => {
                self.add_remote_id = s;
                GuiCommand::Nothing
            },
            GuiMsg::AddSplitTunnelChanged(b) => {
                self.add_split_tunnel = b;
                GuiCommand::Nothing
            },
            GuiMsg::AddDnsChanged(s) => {
                self.add_dns = s;
                GuiCommand::Nothing
            },
            GuiMsg::AddUsernameChanged(s) => {
                self.add_username = s;
                GuiCommand::Nothing
            },
            GuiMsg::AddSubmit => GuiCommand::AddProfile(self.form_profile_exec()),
            GuiMsg::Added(res) => {
                let ok = res.is_ok();
                self.report(res, "Profile added", "Add failed: ");
                if ok {
                    GuiCommand::ReloadProfiles
                } else {
                    GuiCommand::Nothing
                }
            },
            GuiMsg::SetCredsUsernameChanged(s) => {
                self.creds_username = s;
                GuiCommand::Nothing
            },
            GuiMsg::SetCredsPasswordChanged(s) => {
                self.creds_password = s;
                GuiCommand::Nothing
            },
            GuiMsg::SetCredsSubmit => match self.selected_name_exec() {
                Some(name) => GuiCommand::SetPassword {
                    profile: name,
                    username: owned(self.creds_username.as_str()),
                    password: owned(self.creds_password.as_str()),
                },
                None => GuiCommand::Nothing,
            },
            GuiMsg::CredsSet(res) => {
                self.report(res, "Credentials saved", "Credentials save failed: ");
                GuiCommand::Nothing
            },
            GuiMsg::Connect => match &self.current_profile_name {
                Some(name) => GuiCommand::Connect(owned(name.as_str())),
                None => {
                    self.set_status(owned("No profile available. Login first."));
                    GuiCommand::Nothing
                },
            },
            GuiMsg::Connected(res) => {
                self.report(res, "Connected", "Connect failed: ");
                GuiCommand::Nothing
            },
            GuiMsg::Disconnect => match self.selected_name_exec() {
                Some(name) => GuiCommand::Disconnect(name),
                None => GuiCommand::Nothing,
            },
            GuiMsg::Disconnected(res) => {
                self.report(res, "Disconnected", "Disconnect failed: ");
                GuiCommand::Nothing
            },
            GuiMsg::Remove => match self.selected_name_exec() {
                Some(name) => GuiCommand::RemoveProfile(name),
                None => GuiCommand::Nothing,
            },
            GuiMsg::Removed(res) => {
                let ok = res.is_ok();
                self.report(res, "Removed", "Remove failed: ");
                if ok {
                    GuiCommand::ReloadProfiles
                } else {
                    GuiCommand::Nothing
                }
            },
        }
    }
}

} // verus!
