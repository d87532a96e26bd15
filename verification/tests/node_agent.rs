use std::cell::RefCell;
use std::sync::Arc;

use vpn_core::command::{CommandExecutor, CommandOutput};
use vpn_core::error::CoreError;
use vpn_core::node::{
    admission_allowed, admission_key_names, directive_cmd, generate_server_keys, heartbeat_payload,
    node_command_result, parse_peer_config, register_payload, resolve_region_id, select_signing_key,
    server_keys_from_secret, server_public_key_from_file, AgentConfig, AgentEnv, PeerDirective, RegionRecord,
    WireguardDevice,
};

fn env_with(endpoint: Option<&str>, region: Option<&str>) -> AgentEnv {
    AgentEnv {
        public_endpoint: endpoint.map(String::from),
        node_region_id: region.map(String::from),
        ..AgentEnv::default()
    }
}

#[test]
fn agent_config_defaults() {
    let cfg = AgentConfig::from_env(&env_with(Some("203.0.113.9"), Some("eu-1"))).unwrap();
    assert_eq!(cfg.grpc_addr, "http://127.0.0.1:50051");
    assert_eq!(cfg.http_addr, "http://127.0.0.1:8081");
    assert_eq!(cfg.wg_interface, "wg0");
    assert_eq!(cfg.wg_address, "10.66.0.1/24");
    assert_eq!(cfg.listen_port, 51820);
    assert_eq!(cfg.public_endpoint, "203.0.113.9");
    assert_eq!(cfg.region_id, Some("eu-1".to_string()));
    assert!(cfg.egress_ips.is_empty());
    assert_eq!(cfg.wg_internal_ip().unwrap(), "10.66.0.1");
}

#[test]
fn agent_config_reads_values() {
    let mut env = env_with(Some("vpn.example.com"), None);
    env.node_region_code = Some("DE".into());
    env.node_region_city = Some("Berlin".into());
    env.wg_listen_port = Some("+443".into());
    env.node_egress_ips = Some(" 198.51.100.1 , ,198.51.100.2,".into());
    env.wg_address = Some("10.9.0.1".into());
    let cfg = AgentConfig::from_env(&env).unwrap();
    assert_eq!(cfg.listen_port, 443);
    assert_eq!(cfg.egress_ips, vec!["198.51.100.1".to_string(), "198.51.100.2".to_string()]);
    assert_eq!(cfg.wg_internal_ip().unwrap(), "10.9.0.1");
    env.wg_listen_port = Some("70000".into());
    assert_eq!(AgentConfig::from_env(&env).unwrap().listen_port, 51820);
}

#[test]
fn agent_config_refusals() {
    match AgentConfig::from_env(&env_with(None, Some("eu-1"))) {
        Err(e) => assert_eq!(e.message, "PUBLIC_ENDPOINT env var is required for node-agent"),
        Ok(_) => panic!("accepted"),
    }
    let mut env = env_with(Some("x"), None);
    env.node_region_code = Some("DE".into());
    match AgentConfig::from_env(&env) {
        Err(e) => assert_eq!(
            e.message,
            "set NODE_REGION_ID or both NODE_REGION_CODE and NODE_REGION_CITY so the node can register"
        ),
        Ok(_) => panic!("accepted"),
    }
}

#[test]
fn peer_config_parses() {
    let raw = b"[Peer]\r\n# comment\r\nPublicKey = abc=\r\nAllowedIPs = 10.0.0.2/32, , 10.0.1.0/24\r\nPersistentKeepalive = 25\r\nnoise line\r\n";
    let d = parse_peer_config(raw).unwrap();
    assert_eq!(d.public_key, "abc=");
    assert_eq!(d.allowed_ips, vec!["10.0.0.2/32".to_string(), "10.0.1.0/24".to_string()]);
    assert_eq!(d.persistent_keepalive, Some(25));
    assert!(!d.remove);
}

#[test]
fn peer_config_removal_and_refusals() {
    let d = parse_peer_config(b"[PEER]\npublickey=k\nRemove = YES\n").unwrap();
    assert!(d.remove);
    assert!(d.allowed_ips.is_empty());
    let d = parse_peer_config(b"PublicKey=k\nAllowedIPs=10.0.0.1/32\nPersistentKeepalive=99999\n").unwrap();
    assert_eq!(d.persistent_keepalive, None);
    let e = parse_peer_config(b"AllowedIPs=10.0.0.1/32\n").unwrap_err();
    assert_eq!(e.message, "peer config missing PublicKey");
    let e = parse_peer_config(b"PublicKey=k\nRemove=no\n").unwrap_err();
    assert_eq!(e.message, "peer config missing AllowedIPs");
    let e = parse_peer_config(&[0xff, 0xfe]).unwrap_err();
    assert_eq!(e.message, "peer config is not valid UTF-8");
}

#[test]
fn directive_arguments() {
    let mut d = PeerDirective::new();
    d.public_key = "k".into();
    d.allowed_ips = vec!["10.0.0.2/32".into(), "10.0.0.3/32".into()];
    d.persistent_keepalive = Some(15);
    assert_eq!(
        directive_cmd("wg0", &d),
        vec!["set", "wg0", "peer", "k", "allowed-ips", "10.0.0.2/32,10.0.0.3/32", "persistent-keepalive", "15"]
    );
    d.remove = true;
    assert_eq!(directive_cmd("wg0", &d), vec!["set", "wg0", "peer", "k", "remove"]);
}

struct Recorder {
    calls: RefCell<Vec<String>>,
    stderr: String,
    status: i32,
}

impl CommandExecutor for Recorder {
    fn run_with_env(
        &self,
        program: &str,
        args: &Vec<String>,
        _env: &Vec<(String, String)>,
    ) -> Result<CommandOutput, CoreError> {
        self.calls.borrow_mut().push(format!("{} {}", program, args.join(" ")));
        let fail = program == "ip" && args.get(1).map(|s| s == "add").unwrap_or(false) && args[0] == "link";
        Ok(CommandOutput {
            status: if fail { self.status } else { 0 },
            stdout: String::new(),
            stderr: if fail { self.stderr.clone() } else { String::new() },
        })
    }

    fn write_temp_file(&self, _contents: &str) -> Result<String, CoreError> {
        Ok(String::new())
    }

    fn remove_temp_file(&self, _path: &str) -> Result<(), CoreError> {
        Ok(())
    }
}

#[test]
fn device_tolerates_existing_interface() {
    let exec = Arc::new(Recorder { calls: RefCell::new(Vec::new()), stderr: "RTNETLINK answers: File exists\n".into(), status: 2 });
    let dev = WireguardDevice::new(exec.clone(), "wg0".into(), "10.66.0.1/24".into(), 51820, "/var/run/vpn/server.key".into());
    dev.ensure_ready().unwrap();
    assert_eq!(
        exec.calls.borrow().clone(),
        vec![
            "ip link add wg0 type wireguard".to_string(),
            "ip address flush dev wg0".to_string(),
            "ip address add 10.66.0.1/24 dev wg0".to_string(),
            "ip link set dev wg0 up".to_string(),
            "wg set wg0 listen-port 51820 private-key /var/run/vpn/server.key".to_string(),
        ]
    );
    let exec = Arc::new(Recorder { calls: RefCell::new(Vec::new()), stderr: " permission denied \n".into(), status: 2 });
    let dev = WireguardDevice::new(exec.clone(), "wg0".into(), "10.66.0.1/24".into(), 51820, "k".into());
    let e = dev.ensure_ready().unwrap_err();
    assert_eq!(e.message, "command ip link add failed: permission denied");
}

#[test]
fn command_results() {
    assert!(node_command_result(Ok(CommandOutput { status: 0, stdout: String::new(), stderr: String::new() }), "x").is_ok());
    let e = node_command_result(Err(CoreError::PermissionDenied), "wg set peer").unwrap_err();
    assert_eq!(e.message, "failed to spawn wg set peer");
}

fn region(id: &str, code: &str, city: &str) -> RegionRecord {
    RegionRecord { id: id.into(), country_code: code.into(), city: city.into(), status: "active".into() }
}

#[test]
fn regions_resolve_by_code_and_city() {
    let regions = vec![region("r1", "US", "New York"), region("r2", " de ", " Berlin "), region("r3", "DE", "berlin")];
    assert_eq!(resolve_region_id(&regions, " de", "BERLIN ").unwrap(), "r2");
    let e = resolve_region_id(&regions, "FR", "Paris").unwrap_err();
    assert_eq!(e.message, "region FR / Paris not found in directory-api response; create it first via admin API");
}

#[test]
fn payloads() {
    let env = env_with(Some("203.0.113.9"), Some("eu-1"));
    let cfg = AgentConfig::from_env(&env).unwrap();
    let reg = register_payload("pk", "eu-1", "10.66.0.1", &cfg, "0.1.0");
    assert_eq!(reg.egress_ips, None);
    assert_eq!(reg.listen_port, Some(51820));
    assert_eq!(reg.wg_rs_version, Some("kernel-wgtools".to_string()));
    let hb = heartbeat_payload("pk", "0.1.0");
    assert_eq!(hb.status, Some("online".to_string()));
}

#[test]
fn server_keys_round_trip() {
    let keys = server_keys_from_secret([5u8; 32]);
    assert!(keys.private_key_file.ends_with('\n'));
    let public = server_public_key_from_file(&keys.private_key_file).unwrap();
    assert_eq!(public, keys.public_key_b64);
    let fresh = generate_server_keys();
    assert_eq!(server_public_key_from_file(&fresh.private_key_file).unwrap(), fresh.public_key_b64);
    assert_eq!(server_public_key_from_file("!!!").unwrap_err().message, "invalid base64 private key");
    assert_eq!(server_public_key_from_file("AAAA").unwrap_err().message, "private key must be 32 bytes");
}

#[test]
fn x25519_public_key_known_vector() {
    // RFC 7748, section 6.1: Alice's key pair.
    let private: [u8; 32] = [
        0x77, 0x07, 0x6d, 0x0a, 0x73, 0x18, 0xa5, 0x7d, 0x3c, 0x16, 0xc1, 0x72, 0x51, 0xb2, 0x66, 0x45, 0xdf, 0x4c,
        0x2f, 0x87, 0xeb, 0xc0, 0x99, 0x2a, 0xb1, 0x77, 0xfb, 0xa5, 0x1d, 0xb9, 0x2c, 0x2a,
    ];
    let keys = server_keys_from_secret(private);
    assert_eq!(keys.public_key_b64, "hSDwCYkwp1R0i33ctD73Wg2/Og0mOBr066SpjqqbTmo=");
}

#[test]
fn admission_rule() {
    let (u, d) = admission_key_names("user-1", "dev-9");
    assert_eq!(u, "active:user:user-1");
    assert_eq!(d, "active:device:dev-9");
    assert!(admission_allowed(4, 5));
    assert!(!admission_allowed(5, 5));
    assert!(!admission_allowed(-1, 5));
    assert!(!admission_allowed(0, 0));
}

#[test]
fn signing_key_by_kid() {
    let ids = vec![None, Some("a".to_string()), Some("b".to_string()), Some("a".to_string())];
    assert_eq!(select_signing_key(&ids, "a"), Some(1));
    assert_eq!(select_signing_key(&ids, "b"), Some(2));
    assert_eq!(select_signing_key(&ids, "c"), None);
}
