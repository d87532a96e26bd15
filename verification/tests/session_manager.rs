use std::cell::RefCell;
use std::sync::Arc;

use vpn_core::command::{CommandExecutor, CommandOutput, DryRunCommandExecutor};
use vpn_core::desktop::{DnsOverride, KillSwitch, SplitTunnelRoutes};
use vpn_core::daemon::{BackgroundTask, WireguardAgent};
use vpn_core::agent::{AgentError, ConnectRequest, PeerRequest};
use vpn_core::error::CoreError;
use vpn_core::session::{
    encode_key, format_allowed_ips, rollback_plan, set_peer_cmd, stop_plan, teardown_result, PolicyStage,
    SessionPolicy, SessionUndo, WireguardSessionManager,
};
use vpn_core::types::Platform;
use vpn_core::wg::{AllowedIp, DeviceAddress, IpAddress, KeyPair, Peer, SessionManager, SocketEndpoint, WgDeviceConfig};

/// Records each command; fails (status 1) the commands whose program and
/// first argument match `fail_on`.
struct Recorder {
    calls: RefCell<Vec<(String, Vec<String>)>>,
    fail_on: Option<(String, String)>,
    temp_files: RefCell<Vec<String>>,
    removed: RefCell<Vec<String>>,
}

impl Recorder {
    fn new(fail_on: Option<(&str, &str)>) -> Self {
        Recorder {
            calls: RefCell::new(Vec::new()),
            fail_on: fail_on.map(|(p, a)| (p.to_string(), a.to_string())),
            temp_files: RefCell::new(Vec::new()),
            removed: RefCell::new(Vec::new()),
        }
    }

    fn lines(&self) -> Vec<String> {
        self.calls.borrow().iter().map(|(p, a)| format!("{} {}", p, a.join(" "))).collect()
    }
}

impl CommandExecutor for Recorder {
    fn run_with_env(
        &self,
        program: &str,
        args: &Vec<String>,
        _env: &Vec<(String, String)>,
    ) -> Result<CommandOutput, CoreError> {
        self.calls.borrow_mut().push((program.to_string(), args.clone()));
        let failing = match &self.fail_on {
            Some((p, a)) => p == program && args.first().map(|s| s == a).unwrap_or(false),
            None => false,
        };
        Ok(CommandOutput {
            status: if failing { 1 } else { 0 },
            stdout: String::new(),
            stderr: if failing { "failed".to_string() } else { String::new() },
        })
    }

    fn write_temp_file(&self, contents: &str) -> Result<String, CoreError> {
        self.temp_files.borrow_mut().push(contents.to_string());
        Ok("/tmp/key".to_string())
    }

    fn remove_temp_file(&self, path: &str) -> Result<(), CoreError> {
        self.removed.borrow_mut().push(path.to_string());
        Ok(())
    }
}

fn peer() -> Peer {
    Peer {
        public_key: [1u8; 32],
        endpoint: Some(SocketEndpoint { ip: IpAddress::V4(0xC0A8_0001), port: 51820, scope_id: 0 }),
        allowed_ips: vec![AllowedIp::V4 { addr: 0x0A00_0000, cidr: 8 }, AllowedIp::V6 { addr: 0, cidr: 0 }],
        persistent_keepalive_secs: Some(25),
    }
}

fn config(name: &str, peers: Vec<Peer>) -> WgDeviceConfig {
    WgDeviceConfig {
        name: name.to_string(),
        mtu: Some(1380),
        keypair: KeyPair { private: [7u8; 32], public: [9u8; 32] },
        address: DeviceAddress { v4: Some((0x0A42_0002, 24)), v6: None },
        peers,
    }
}

fn policy(dns: Vec<&str>, v4: Vec<&str>) -> SessionPolicy {
    SessionPolicy {
        interface: "wg0".to_string(),
        dns_servers: dns.into_iter().map(String::from).collect(),
        routes_v4: v4.into_iter().map(String::from).collect(),
        routes_v6: vec![],
        kill_switch_allow_v4: vec!["203.0.113.1".to_string()],
        kill_switch_allow_v6: vec![],
        kill_switch_allow_uids: vec![],
        mtu: None,
    }
}

#[test]
fn peer_arguments_for_wg() {
    let key = encode_key(&[1u8; 32]);
    assert_eq!(key, "AQEBAQEBAQEBAQEBAQEBAQEBAQEBAQEBAQEBAQEBAQE=");
    let args = set_peer_cmd("wg0", &peer()).unwrap();
    assert_eq!(
        args,
        vec![
            "set", "wg0", "peer", key.as_str(), "allowed-ips", "10.0.0.0/8,::/0", "endpoint", "192.168.0.1:51820",
            "persistent-keepalive", "25",
        ]
    );
    let mut bare = peer();
    bare.allowed_ips.clear();
    match set_peer_cmd("wg0", &bare) {
        Err(CoreError::InvalidInput(m)) => assert_eq!(m, "peer missing allowed IPs"),
        other => panic!("unexpected {:?}", other),
    }
    assert_eq!(format_allowed_ips(&vec![AllowedIp::V4 { addr: 0x0A00_0001, cidr: 32 }]), "10.0.0.1/32");
}

#[test]
fn teardown_tolerates_missing_device() {
    let out = CommandOutput { status: 1, stdout: String::new(), stderr: "Cannot find device \"wg0\"".into() };
    assert!(teardown_result(out).is_ok());
    let out = CommandOutput { status: 2, stdout: String::new(), stderr: "Operation not permitted".into() };
    match teardown_result(out) {
        Err(CoreError::CommandFailed(m)) => assert_eq!(m, "Operation not permitted"),
        other => panic!("unexpected {:?}", other),
    }
}

#[test]
fn start_on_linux_runs_setup_then_policy() {
    let exec = Arc::new(Recorder::new(None));
    let mut mgr = WireguardSessionManager::new(exec.clone(), Platform::Linux, policy(vec!["1.1.1.1"], vec!["10.0.0.0/8"]));
    mgr.start(&config("wg0", vec![peer()])).unwrap();
    assert!(mgr.is_running());
    let lines = exec.lines();
    assert_eq!(lines[0], "ip link set dev wg0 down");
    assert_eq!(lines[1], "ip link delete wg0 type wireguard");
    assert_eq!(lines[2], "ip link add wg0 type wireguard");
    assert_eq!(lines[3], "ip address replace 10.66.0.2/24 dev wg0");
    assert_eq!(lines[4], "ip link set dev wg0 mtu 1380");
    assert_eq!(lines[5], "wg set wg0 private-key /tmp/key");
    assert!(lines[6].starts_with("wg set wg0 peer AQEB"));
    assert_eq!(lines[7], "ip link set dev wg0 up");
    assert_eq!(lines[8], "nft delete table inet vpn_mvp");
    assert_eq!(lines[9], "nft -f /tmp/key");
    assert_eq!(lines[10], "resolvectl dns wg0 1.1.1.1");
    assert_eq!(lines[11], "resolvectl domain wg0 ~.");
    assert_eq!(lines[12], "ip route replace 10.0.0.0/8 dev wg0");
    assert_eq!(lines.len(), 13);
    assert_eq!(exec.removed.borrow().clone(), vec!["/tmp/key".to_string()]);
    assert_eq!(exec.temp_files.borrow()[0], encode_key(&[7u8; 32]));
}

#[test]
fn second_start_is_refused() {
    let exec = Arc::new(Recorder::new(None));
    let mut mgr = WireguardSessionManager::new(exec.clone(), Platform::Linux, policy(vec![], vec![]));
    mgr.start(&config("wg0", vec![peer()])).unwrap();
    match mgr.start(&config("wg0", vec![peer()])) {
        Err(CoreError::AlreadyExists(m)) => assert_eq!(m, "session already active"),
        other => panic!("unexpected {:?}", other),
    }
    assert!(mgr.is_running());
}

#[test]
fn start_refuses_bad_configs() {
    let exec = Arc::new(Recorder::new(None));
    let mut mgr = WireguardSessionManager::new(exec.clone(), Platform::Linux, policy(vec![], vec![]));
    match mgr.start(&config("wg0", vec![])) {
        Err(CoreError::InvalidInput(m)) => assert_eq!(m, "WireGuard config missing peers"),
        other => panic!("unexpected {:?}", other),
    }
    match mgr.start(&config("wg9", vec![peer()])) {
        Err(CoreError::InvalidInput(m)) => assert_eq!(m, "config interface wg9 does not match policy wg0"),
        other => panic!("unexpected {:?}", other),
    }
    assert!(!mgr.is_running());
    assert!(exec.lines().is_empty());
    let mut mac = WireguardSessionManager::new(exec.clone(), Platform::MacOs, policy(vec![], vec![]));
    assert!(matches!(mac.start(&config("wg0", vec![peer()])), Err(CoreError::UnsupportedPlatform)));
    assert!(matches!(mac.update_peers(&vec![peer()]), Err(CoreError::UnsupportedPlatform)));
}

#[test]
fn failed_dns_rolls_back_kill_switch_and_interface() {
    let exec = Arc::new(Recorder::new(Some(("resolvectl", "dns"))));
    let mut mgr = WireguardSessionManager::new(exec.clone(), Platform::Linux, policy(vec!["1.1.1.1"], vec!["10.0.0.0/8"]));
    assert!(matches!(mgr.start(&config("wg0", vec![peer()])), Err(CoreError::CommandFailed(_))));
    assert!(!mgr.is_running());
    let lines = exec.lines();
    let n = lines.len();
    assert_eq!(lines[n - 4], "resolvectl dns wg0 1.1.1.1");
    assert_eq!(lines[n - 3], "nft delete table inet vpn_mvp");
    assert_eq!(lines[n - 2], "ip link set dev wg0 down");
    assert_eq!(lines[n - 1], "ip link delete wg0 type wireguard");
}

#[test]
fn stop_undoes_the_policy() {
    let exec = Arc::new(Recorder::new(None));
    let mut mgr = WireguardSessionManager::new(exec.clone(), Platform::Linux, policy(vec!["1.1.1.1"], vec!["10.0.0.0/8"]));
    mgr.start(&config("wg0", vec![peer()])).unwrap();
    let before = exec.lines().len();
    mgr.stop().unwrap();
    assert!(!mgr.is_running());
    let lines = exec.lines();
    assert_eq!(
        lines[before..].to_vec(),
        vec![
            "ip route del 10.0.0.0/8 dev wg0".to_string(),
            "resolvectl revert wg0".to_string(),
            "nft delete table inet vpn_mvp".to_string(),
            "ip link set dev wg0 down".to_string(),
            "ip link delete wg0 type wireguard".to_string(),
        ]
    );
    let after = exec.lines().len();
    mgr.stop().unwrap();
    assert_eq!(exec.lines().len(), after);
}

#[test]
fn update_peers_needs_a_session() {
    let exec = Arc::new(Recorder::new(None));
    let mut mgr = WireguardSessionManager::new(exec.clone(), Platform::Linux, policy(vec![], vec![]));
    match mgr.update_peers(&vec![peer()]) {
        Err(CoreError::NotFound(m)) => assert_eq!(m, "session not active"),
        other => panic!("unexpected {:?}", other),
    }
    mgr.start(&config("wg0", vec![peer()])).unwrap();
    let before = exec.lines().len();
    let mut other = peer();
    other.public_key = [2u8; 32];
    mgr.update_peers(&vec![other]).unwrap();
    let lines = exec.lines();
    assert_eq!(lines[before], format!("wg set wg0 peer {} remove", encode_key(&[1u8; 32])));
    assert!(lines[before + 1].starts_with(&format!("wg set wg0 peer {}", encode_key(&[2u8; 32]))));
}

#[test]
fn rollback_and_stop_plans() {
    assert_eq!(rollback_plan(PolicyStage::KillSwitch), vec![]);
    assert_eq!(rollback_plan(PolicyStage::Dns), vec![SessionUndo::DisableKillSwitch]);
    assert_eq!(
        rollback_plan(PolicyStage::RoutesV6),
        vec![SessionUndo::ClearRoutesV4, SessionUndo::RevertDns, SessionUndo::DisableKillSwitch]
    );
    assert_eq!(
        stop_plan(&policy(vec![], vec!["10.0.0.0/8"]), Platform::Windows),
        vec![SessionUndo::ClearRoutesV4, SessionUndo::DisableKillSwitch]
    );
}

fn request(iface: &str, key: &str) -> ConnectRequest {
    ConnectRequest {
        interface: iface.to_string(),
        private_key: key.to_string(),
        address_v4: "10.66.0.2/24".to_string(),
        address_v6: None,
        peer: PeerRequest {
            public_key: encode_key(&[1u8; 32]),
            endpoint: Some("198.51.100.7:51820".to_string()),
            allowed_ips: vec!["0.0.0.0/0".to_string()],
            persistent_keepalive_secs: None,
        },
        dns_servers: vec![],
        routes_v4: vec![],
        routes_v6: vec![],
        kill_switch_allow_v4: vec![],
        kill_switch_allow_v6: vec![],
        kill_switch_allow_uids: vec![],
        mtu: None,
    }
}

#[test]
fn agent_holds_one_session() {
    let exec = Arc::new(Recorder::new(None));
    let mut agent = WireguardAgent::new(exec.clone(), Platform::Linux);
    assert_eq!(agent.status().status, "disconnected");
    let key = encode_key(&[7u8; 32]);
    assert_eq!(agent.connect(request("wg0", &key)).unwrap().status, "connected");
    let st = agent.status();
    assert_eq!(st.status, "connected");
    assert_eq!(st.interface, Some("wg0".to_string()));
    match agent.connect(request("wg0", &key)) {
        Err(AgentError::Conflict(m)) => assert_eq!(m, "session already active"),
        other => panic!("unexpected {:?}", other),
    }
    assert_eq!(agent.disconnect().unwrap().status, "disconnected");
    assert_eq!(agent.status().status, "disconnected");
    assert_eq!(agent.disconnect().unwrap().status, "disconnected");
}

#[test]
fn agent_maps_refusals() {
    let exec = Arc::new(Recorder::new(None));
    let mut agent = WireguardAgent::new(exec.clone(), Platform::Windows);
    match agent.connect(request("wg0", "not base64")) {
        Err(AgentError::BadRequest(m)) => assert_eq!(m, "invalid private key"),
        other => panic!("unexpected {:?}", other),
    }
    match agent.connect(request("wg0", &encode_key(&[7u8; 32]))) {
        Err(AgentError::NotImplemented(m)) => assert_eq!(m, "platform not yet supported"),
        other => panic!("unexpected {:?}", other),
    }
    assert_eq!(agent.status().status, "disconnected");
}

#[test]
fn background_task_runs_once() {
    let mut task = BackgroundTask::new();
    assert_eq!(task.status_text(), "stopped");
    assert!(task.start().is_ok());
    assert_eq!(task.start(), Err("already running"));
    assert_eq!(task.status_text(), "running");
    task.stop();
    assert!(!task.running());
    assert!(task.start().is_ok());
}

#[test]
fn dry_run_completes_every_plan() {
    for platform in [Platform::Windows, Platform::MacOs, Platform::Linux] {
        let exec = Arc::new(DryRunCommandExecutor::default());
        let ks = KillSwitch::new(exec.clone(), platform);
        assert!(ks.enable("wg0", &["203.0.113.1"], &[], &[1000]).is_ok());
        assert!(ks.disable().is_ok());
        let dns = DnsOverride::new(exec.clone(), platform);
        assert!(dns.set("wg0", &["1.1.1.1"]).is_ok());
        assert!(dns.revert("wg0").is_ok());
        let routes = SplitTunnelRoutes::new(exec.clone(), platform);
        assert!(routes.include_cidrs("wg0", &["10.0.0.0/8", "0.0.0.0/0"]).is_ok());
        assert!(routes.clear("wg0", &["10.0.0.0/8"]).is_ok());
    }
    let exec = Arc::new(DryRunCommandExecutor::default());
    let mut manager = WireguardSessionManager::new(exec, Platform::Linux, policy(vec!["1.1.1.1"], vec!["10.0.0.0/8"]));
    assert!(manager.start(&config("wg0", vec![peer()])).is_ok());
    assert!(manager.is_running());
    assert!(manager.update_peers(&vec![peer()]).is_ok());
    assert!(manager.stop().is_ok());
    assert!(!manager.is_running());
}
