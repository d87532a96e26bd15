use std::cell::RefCell;
use std::sync::Arc;

use vpn_core::command::{CommandExecutor, CommandOutput, DryRunCommandExecutor};
use vpn_core::error::CoreError;
use vpn_core::linux::{parse_nm_state, LinuxNmAdapter, LinuxSwanctlAdapter};
use vpn_core::macos::MacosAdapter;
use vpn_core::store::{delete_outcome, read_outcome, KeychainAnswer, OsKeyringCredentialStore, TokenStore};
use vpn_core::traits::{CredentialStore, ProfileStore, VpnAdapter};
use vpn_core::types::{AuthMethod, ConnectionState, DnsSettings, SplitTunnel, VpnProfile};
use vpn_core::windows::WindowsAdapter;

struct MemoryStore {
    profiles: RefCell<Vec<VpnProfile>>,
}

impl MemoryStore {
    fn new() -> Self {
        MemoryStore { profiles: RefCell::new(Vec::new()) }
    }
}

impl ProfileStore for MemoryStore {
    fn save(&self, profile: &VpnProfile) -> Result<(), CoreError> {
        let mut v = self.profiles.borrow_mut();
        v.retain(|p| p.name != profile.name);
        v.push(profile.clone());
        Ok(())
    }

    fn load(&self, name: &str) -> Result<VpnProfile, CoreError> {
        self.profiles
            .borrow()
            .iter()
            .find(|p| p.name == name)
            .cloned()
            .ok_or_else(|| CoreError::NotFound(name.to_string()))
    }

    fn delete(&self, name: &str) -> Result<(), CoreError> {
        self.profiles.borrow_mut().retain(|p| p.name != name);
        Ok(())
    }

    fn list(&self) -> Result<Vec<VpnProfile>, CoreError> {
        Ok(self.profiles.borrow().clone())
    }
}

struct TestCreds;

impl CredentialStore for TestCreds {
    fn set_password(&self, _profile: &str, _username: &str, _password: &str) -> Result<(), CoreError> {
        Ok(())
    }

    fn get_password(&self, _profile: &str, _username: &str) -> Result<Option<String>, CoreError> {
        Ok(Some("secret".into()))
    }

    fn delete_password(&self, _profile: &str, _username: &str) -> Result<(), CoreError> {
        Ok(())
    }
}

struct NoCreds;

impl CredentialStore for NoCreds {
    fn set_password(&self, _profile: &str, _username: &str, _password: &str) -> Result<(), CoreError> {
        Ok(())
    }

    fn get_password(&self, _profile: &str, _username: &str) -> Result<Option<String>, CoreError> {
        Ok(None)
    }

    fn delete_password(&self, _profile: &str, _username: &str) -> Result<(), CoreError> {
        Ok(())
    }
}

/// Records each command and answers with a fixed output.
struct Recorder {
    calls: RefCell<Vec<(String, Vec<String>)>>,
    status: i32,
    stdout: String,
    stderr: String,
}

impl Recorder {
    fn answering(status: i32, stdout: &str, stderr: &str) -> Self {
        Recorder {
            calls: RefCell::new(Vec::new()),
            status,
            stdout: stdout.to_string(),
            stderr: stderr.to_string(),
        }
    }

    fn calls(&self) -> Vec<(String, Vec<String>)> {
        self.calls.borrow().clone()
    }
}

impl CommandExecutor for Recorder {
    fn run_with_env(
        &self,
        program: &str,
        args: &Vec<String>,
        _env: &Vec<(String, String)>,
    ) -> Result<CommandOutput, CoreError> {
        self.calls.borrow_mut().push((program.to_string(), args.clone()));
        Ok(CommandOutput { status: self.status, stdout: self.stdout.clone(), stderr: self.stderr.clone() })
    }

    fn write_temp_file(&self, _contents: &str) -> Result<String, CoreError> {
        Ok("/tmp/test-file".to_string())
    }

    fn remove_temp_file(&self, _path: &str) -> Result<(), CoreError> {
        Ok(())
    }
}

fn strings(v: &[&str]) -> Vec<String> {
    v.iter().map(|s| s.to_string()).collect()
}

fn profile(name: &str, username: Option<&str>) -> VpnProfile {
    VpnProfile {
        name: name.into(),
        server: "vpn.example.com".into(),
        remote_id: None,
        auth: AuthMethod::EapMsChapV2 { username: username.map(|u| u.to_string()) },
        split_tunnel: SplitTunnel { enabled: false },
        dns: DnsSettings { servers: vec![] },
    }
}

#[test]
fn linux_nm_connect_disconnect_status_dry_run() {
    let exec = Arc::new(DryRunCommandExecutor::default());
    let store = Arc::new(MemoryStore::new());
    let adapter = LinuxNmAdapter::new(exec, store.clone());
    store.save(&profile("nm", None)).unwrap();
    adapter.connect("nm").unwrap();
    adapter.status("nm").unwrap();
    adapter.disconnect("nm").unwrap();
}

#[test]
fn macos_connect_disconnect_status_dry_run() {
    let exec = Arc::new(DryRunCommandExecutor::default());
    let store = Arc::new(MemoryStore::new());
    let creds = Arc::new(OsKeyringCredentialStore);
    let adapter = MacosAdapter::new(exec, creds, store.clone());
    store.save(&profile("mac", None)).unwrap();
    adapter.connect("mac").unwrap();
    adapter.status("mac").unwrap();
    adapter.disconnect("mac").unwrap();
}

#[test]
fn connect_uses_rasdial_and_succeeds_in_dry_run() {
    let store = Arc::new(MemoryStore::new());
    let creds = Arc::new(TestCreds);
    let exec = Arc::new(DryRunCommandExecutor::default());
    let adapter = WindowsAdapter::new(exec, creds, store.clone());
    store.save(&profile("win", Some("user"))).unwrap();
    adapter.connect("win").unwrap();
}

#[test]
fn windows_connect_dials_with_stored_credentials() {
    let store = Arc::new(MemoryStore::new());
    let exec = Arc::new(Recorder::answering(0, "", ""));
    let adapter = WindowsAdapter::new(exec.clone(), Arc::new(TestCreds), store.clone());
    store.save(&profile("win", Some("user"))).unwrap();
    adapter.connect("win").unwrap();
    let calls = exec.calls();
    assert_eq!(calls.len(), 2);
    assert_eq!(calls[0].0, "powershell");
    assert_eq!(calls[0].1, strings(&["-NoProfile", "-NonInteractive", "-Command", "exit (rasdial)"]));
    assert_eq!(calls[1].0, "rasdial");
    assert_eq!(calls[1].1, strings(&["win", "user", "secret"]));
}

#[test]
fn windows_connect_refuses_missing_credentials() {
    let store = Arc::new(MemoryStore::new());
    let exec = Arc::new(Recorder::answering(0, "", ""));
    let adapter = WindowsAdapter::new(exec.clone(), Arc::new(TestCreds), store.clone());
    store.save(&profile("nouser", None)).unwrap();
    match adapter.connect("nouser") {
        Err(CoreError::InvalidInput(m)) => assert_eq!(m, "username missing"),
        other => panic!("unexpected {:?}", other),
    }
    let adapter = WindowsAdapter::new(exec.clone(), Arc::new(NoCreds), store.clone());
    store.save(&profile("nopass", Some("user"))).unwrap();
    match adapter.connect("nopass") {
        Err(CoreError::InvalidInput(m)) => assert_eq!(m, "password missing in keyring"),
        other => panic!("unexpected {:?}", other),
    }
    let mut tls = profile("tls", None);
    tls.auth = AuthMethod::EapTls { identity: None, cert_ref: None };
    store.save(&tls).unwrap();
    match adapter.connect("tls") {
        Err(CoreError::InvalidInput(m)) => assert_eq!(m, "connect requires EAP-MSCHAPv2 credentials for MVP"),
        other => panic!("unexpected {:?}", other),
    }
    assert!(exec.calls().is_empty());
}

#[test]
fn windows_status_reads_rasdial() {
    let store = Arc::new(MemoryStore::new());
    let exec = Arc::new(Recorder::answering(0, "Connected to\nwin\nCommand completed successfully.", ""));
    let adapter = WindowsAdapter::new(exec, Arc::new(TestCreds), store.clone());
    assert_eq!(adapter.status("win").unwrap(), ConnectionState::Connected);
    let exec = Arc::new(Recorder::answering(0, "No connections", ""));
    let adapter = WindowsAdapter::new(exec, Arc::new(TestCreds), store);
    assert_eq!(adapter.status("win").unwrap(), ConnectionState::Disconnected);
}

#[test]
fn windows_command_failure_carries_stderr() {
    let store = Arc::new(MemoryStore::new());
    let exec = Arc::new(Recorder::answering(1, "", "boom"));
    let adapter = WindowsAdapter::new(exec, Arc::new(TestCreds), store);
    match adapter.disconnect("win") {
        Err(CoreError::CommandFailed(m)) => assert_eq!(m, "boom"),
        other => panic!("unexpected {:?}", other),
    }
}

#[test]
fn nm_adapter_commands_and_states() {
    let exec = Arc::new(Recorder::answering(0, "GENERAL.STATE:activated\n", ""));
    let adapter = LinuxNmAdapter::new(exec.clone(), Arc::new(MemoryStore::new()));
    adapter.connect("work").unwrap();
    assert_eq!(adapter.status("work").unwrap(), ConnectionState::Connected);
    let calls = exec.calls();
    assert_eq!(calls[0].1, strings(&["connection", "up", "id", "work"]));
    assert_eq!(calls[1].1, strings(&["-t", "-f", "GENERAL.STATE", "connection", "show", "work"]));
    assert_eq!(parse_nm_state("GENERAL.STATE:activating"), ConnectionState::Connecting);
    assert_eq!(parse_nm_state("nothing"), ConnectionState::Unknown);
    // "deactivated" contains "activated", which is tested first.
    assert_eq!(parse_nm_state("GENERAL.STATE:deactivated"), ConnectionState::Connected);
}

#[test]
fn swanctl_adapter_reads_child_name() {
    let exec = Arc::new(Recorder::answering(0, "office: #1, ESTABLISHED", ""));
    let adapter = LinuxSwanctlAdapter::new(exec.clone(), Arc::new(MemoryStore::new()));
    assert_eq!(adapter.status("office").unwrap(), ConnectionState::Connected);
    assert_eq!(adapter.status("home").unwrap(), ConnectionState::Disconnected);
    adapter.connect("office").unwrap();
    assert_eq!(exec.calls()[2].1, strings(&["--initiate", "--child", "office"]));
}

#[test]
fn macos_status_reads_scutil() {
    let store = Arc::new(MemoryStore::new());
    for (out, state) in [
        ("Connected", ConnectionState::Connected),
        ("Connecting", ConnectionState::Connecting),
        ("Disconnected", ConnectionState::Disconnected),
        ("Invalid", ConnectionState::Unknown),
    ] {
        let exec = Arc::new(Recorder::answering(0, out, ""));
        let adapter = MacosAdapter::new(exec.clone(), Arc::new(TestCreds), store.clone());
        assert_eq!(adapter.status("corp").unwrap(), state);
        assert_eq!(exec.calls()[0].1, strings(&["--nc", "show", "corp"]));
    }
}

fn has_prefix<T>(r: &Result<T, CoreError>, first: &str, second: &str) -> bool {
    match r {
        Ok(_) => true,
        Err(CoreError::Other(m)) => m.starts_with(first) || m.starts_with(second),
        Err(_) => false,
    }
}

#[test]
fn keychain_failures_carry_their_step() {
    let creds = OsKeyringCredentialStore;
    let got = creds.get_password("kc-test-profile", "nobody");
    assert!(has_prefix(&got, "keyring entry error: ", "keyring get error: "));
    let tokens = TokenStore::new();
    let loaded = tokens.load_access("nobody@example.invalid");
    assert!(has_prefix(&loaded, "keyring entry: ", "keyring get: "));

    assert!(matches!(read_outcome(KeychainAnswer::Found("pw".into()), "p: "), Ok(Some(p)) if p == "pw"));
    assert!(matches!(read_outcome(KeychainAnswer::NoEntry, "p: "), Ok(None)));
    assert!(matches!(read_outcome(KeychainAnswer::Failed("locked".into()), "keyring get error: "),
        Err(CoreError::Other(m)) if m == "keyring get error: locked"));
    assert!(delete_outcome(KeychainAnswer::NoEntry).is_ok());
    assert!(matches!(delete_outcome(KeychainAnswer::Failed("denied".into())),
        Err(CoreError::Other(m)) if m == "keyring delete error: denied"));
}
