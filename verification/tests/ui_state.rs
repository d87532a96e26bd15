use vpn_core::auth::{AuthApiClient, LoginResponse, ServerProfile};
use vpn_core::gui::{GuiCommand, GuiMsg, GuiState};
use vpn_core::store::{entry_account, is_json_file_name, join_path, FileProfileStore, TokenStore};
use vpn_core::types::{AuthMethod, ConnectionState, DnsSettings, SplitTunnel, VpnProfile};
use vpn_core::ui::{app_status, daemon_url, gen_code_verifier, s256_challenge, stats_due, ConnectionLog, ServerConfig};

fn config() -> ServerConfig {
    ServerConfig::from_env(None, None)
}

#[test]
fn server_host_normalization() {
    let mut c = config();
    assert_eq!(c.base_auth_url, "http://127.0.0.1:8080");
    assert_eq!(c.base_directory_url, "http://127.0.0.1:8081");
    c.set_server_host("  https://vpn.example.com:9443/path ").unwrap();
    assert_eq!(c.base_auth_url, "http://vpn.example.com:8080");
    assert_eq!(c.base_directory_url, "http://vpn.example.com:8081");
    c.set_server_host("10.0.0.5").unwrap();
    assert_eq!(c.base_auth_url, "http://10.0.0.5:8080");
    assert_eq!(c.set_server_host("   "), Err("host cannot be empty".to_string()));
    assert_eq!(c.set_server_host("http://:80"), Err("invalid host".to_string()));
    assert_eq!(c.base_auth_url, "http://10.0.0.5:8080");
    assert_eq!(c.login_url(), "http://10.0.0.5:8080/auth/login");
    assert_eq!(c.mesh_path_url(), "http://10.0.0.5:8081/mesh/path");
}

#[test]
fn pkce_pair() {
    let v = gen_code_verifier();
    assert_eq!(v.len(), 64);
    assert!(v.chars().all(|c| c.is_ascii_alphanumeric()));
    assert_eq!(s256_challenge("dBjftJeZ4CVP-mB92K27uhbUJU1p1r_wW1gFWFOEjXk"), "E9Melhoa2OwvFrEMTJguCHaoeK1t8URWbuGJSstw-cM");
    assert_eq!(s256_challenge(&v).len(), 43);
}

#[test]
fn status_line_and_urls() {
    assert_eq!(app_status(true, false), "authorized");
    assert_eq!(app_status(false, true), "unauthorized • background:running");
    assert_eq!(daemon_url(None, "/healthz"), "http://127.0.0.1:17231/healthz");
    assert_eq!(daemon_url(Some("9000".into()), "/autoconnect/stop"), "http://127.0.0.1:9000/autoconnect/stop");
    assert!(stats_due(5));
    assert!(!stats_due(4));
}

#[test]
fn connection_log_announces_changes_once() {
    let mut log = ConnectionLog::default();
    assert!(log.observe(ConnectionState::Disconnected, "corp").is_empty());
    let up = log.observe(ConnectionState::Connected, "corp");
    assert_eq!(up[0], "[VPN] ✓ Connected to VPN profile: corp");
    assert!(log.observe(ConnectionState::Connected, "corp").is_empty());
    assert!(log.observe(ConnectionState::Connecting, "corp").is_empty());
    let down = log.observe(ConnectionState::Disconnected, "corp");
    assert_eq!(down[0], "[VPN] ✗ Disconnected from VPN profile: corp");
    assert!(!log.logged);
}

#[test]
fn openvpn_profiles() {
    assert_eq!(AuthApiClient::parse_openvpn_remote("client\n  remote vpn.example.com 1194 udp\n"), Some("vpn.example.com".to_string()));
    assert_eq!(AuthApiClient::parse_openvpn_remote("remote 198.51.100.4 443\n"), Some("198.51.100.4:443".to_string()));
    assert_eq!(AuthApiClient::parse_openvpn_remote("remote\nremote  host\n"), Some("host".to_string()));
    assert_eq!(AuthApiClient::parse_openvpn_remote("dev tun\n"), None);
    let p = AuthApiClient::profile_from_text("remote h 1194".to_string(), None);
    assert_eq!(p.name, Some("default".to_string()));
    assert_eq!(p.server, Some("h".to_string()));
    assert_eq!(p.raw, Some("remote h 1194".to_string()));
    assert_eq!(p.infer_profile_name(), "default");
    let q = ServerProfile { server: Some("srv".into()), ..ServerProfile::default() };
    assert_eq!(q.infer_profile_name(), "srv");
    assert_eq!(ServerProfile::default().infer_profile_name(), "default");
    let c = AuthApiClient::new_from_env(None).unwrap();
    assert_eq!(c.login_url(), "http://localhost:8080/api/v1/auth/login");
    assert_eq!(c.profile_url(), "http://localhost:8080/api/v1/vpn/profile");
}

#[test]
fn store_paths() {
    assert_eq!(join_path("/home/a/.config", "vpn_mvp"), "/home/a/.config/vpn_mvp");
    assert_eq!(join_path("/home/a/", "x"), "/home/a/x");
    assert_eq!(join_path("/home/a", "/etc"), "/etc");
    let s = FileProfileStore::with_base_dir_for_tests("/tmp/profiles".to_string());
    assert_eq!(s.file_for("test"), "/tmp/profiles/test.json");
    assert_eq!(FileProfileStore::in_config_dir("/cfg", "vpn_mvp").base_dir(), "/cfg/vpn_mvp/profiles");
    assert!(is_json_file_name("test.json"));
    assert!(!is_json_file_name(".json"));
    assert!(!is_json_file_name("test.json.bak"));
    assert_eq!(entry_account("work", "alice"), "work/alice");
    assert_eq!(TokenStore::access_account_of("a@b.c"), "access:a@b.c");
    assert_eq!(TokenStore::refresh_account_of("a@b.c"), "refresh:a@b.c");
}

fn named(name: &str) -> VpnProfile {
    VpnProfile {
        name: name.into(),
        server: "s".into(),
        remote_id: None,
        auth: AuthMethod::EapMsChapV2 { username: None },
        split_tunnel: SplitTunnel { enabled: false },
        dns: DnsSettings { servers: vec![] },
    }
}

#[test]
fn gui_starts_by_loading_profiles() {
    let (mut st, cmd) = GuiState::new();
    assert!(matches!(cmd, GuiCommand::ReloadProfiles));
    assert_eq!(st.title(), "VPN Client");
    assert!(matches!(st.update(GuiMsg::LoadProfiles), GuiCommand::ListProfiles));
    st.update(GuiMsg::ProfilesLoaded(Ok(vec![named("a"), named("b")])));
    assert_eq!(st.profiles.len(), 2);
    assert_eq!(st.selected, None);
    st.update(GuiMsg::ProfilesLoaded(Err("disk".into())));
    assert_eq!(st.status_message, "Failed to load profiles: disk");
}

#[test]
fn gui_login_flow() {
    let (mut st, _) = GuiState::new();
    st.update(GuiMsg::EmailChanged(" me@example.com ".into()));
    st.update(GuiMsg::PasswordChanged("pw".into()));
    match st.update(GuiMsg::Login) {
        GuiCommand::Login { email, password } => {
            assert_eq!(email, " me@example.com ");
            assert_eq!(password, "pw");
        },
        other => panic!("unexpected {:?}", other),
    }
    let cmd = st.update(GuiMsg::LoggedIn(Ok(LoginResponse { access_token: "at".into(), refresh_token: "rt".into() })));
    assert_eq!(st.status_message, "Logged in");
    assert_eq!(st.access_token, Some("at".to_string()));
    assert!(matches!(cmd, GuiCommand::SaveTokensAndFetchProfile { .. }));
    let sp = ServerProfile { server: Some("openvpn".into()), dns: vec!["10.0.0.53".into()], ..ServerProfile::default() };
    match st.update(GuiMsg::ProfileFetched(Ok(sp))) {
        GuiCommand::ProvisionProfile { profile, username, password } => {
            assert_eq!(profile.name, "openvpn");
            assert_eq!(profile.server, "localhost");
            assert_eq!(profile.auth, AuthMethod::EapMsChapV2 { username: Some("me@example.com".into()) });
            assert_eq!(profile.dns.servers, vec!["10.0.0.53".to_string()]);
            assert_eq!(username, " me@example.com ");
            assert_eq!(password, "pw");
        },
        other => panic!("unexpected {:?}", other),
    }
    assert_eq!(st.current_profile_name, Some("openvpn".to_string()));
    assert!(matches!(st.update(GuiMsg::Connect), GuiCommand::Connect(ref n) if n == "openvpn"));
    let missing = ServerProfile::default();
    assert!(matches!(st.update(GuiMsg::ProfileFetched(Ok(missing))), GuiCommand::Nothing));
    assert_eq!(st.status_message, "Profile missing server address");
}

#[test]
fn gui_forms_and_selection() {
    let (mut st, _) = GuiState::new();
    assert!(matches!(st.update(GuiMsg::Connect), GuiCommand::Nothing));
    assert_eq!(st.status_message, "No profile available. Login first.");
    assert!(matches!(st.update(GuiMsg::Remove), GuiCommand::Nothing));
    st.update(GuiMsg::AddNameChanged("  home ".into()));
    st.update(GuiMsg::AddServerChanged("vpn.home ".into()));
    st.update(GuiMsg::AddRemoteIdChanged("   ".into()));
    st.update(GuiMsg::AddDnsChanged("1.1.1.1, ,9.9.9.9".into()));
    st.update(GuiMsg::AddSplitTunnelChanged(true));
    match st.update(GuiMsg::AddSubmit) {
        GuiCommand::AddProfile(p) => {
            assert_eq!(p.name, "home");
            assert_eq!(p.server, "vpn.home");
            assert_eq!(p.remote_id, None);
            assert_eq!(p.dns.servers, vec!["1.1.1.1".to_string(), "9.9.9.9".to_string()]);
            assert!(p.split_tunnel.enabled);
        },
        other => panic!("unexpected {:?}", other),
    }
    assert!(matches!(st.update(GuiMsg::Added(Ok(()))), GuiCommand::ReloadProfiles));
    assert_eq!(st.status_message, "Profile added");
    st.update(GuiMsg::ProfilesLoaded(Ok(vec![named("a"), named("b")])));
    st.update(GuiMsg::SelectProfile(1));
    st.update(GuiMsg::SetCredsUsernameChanged("u".into()));
    st.update(GuiMsg::SetCredsPasswordChanged("p".into()));
    match st.update(GuiMsg::SetCredsSubmit) {
        GuiCommand::SetPassword { profile, username, password } => {
            assert_eq!((profile.as_str(), username.as_str(), password.as_str()), ("b", "u", "p"));
        },
        other => panic!("unexpected {:?}", other),
    }
    assert!(matches!(st.update(GuiMsg::Disconnect), GuiCommand::Disconnect(ref n) if n == "b"));
    st.update(GuiMsg::Disconnected(Err("busy".into())));
    assert_eq!(st.status_message, "Disconnect failed: busy");
    assert!(matches!(st.update(GuiMsg::Removed(Ok(()))), GuiCommand::ReloadProfiles));
    assert_eq!(st.status_message, "Removed");
}
