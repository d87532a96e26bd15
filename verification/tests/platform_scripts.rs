use vpn_core::command::CommandOutput;
use vpn_core::desktop::{
    autoconnect_decide, mtu_cmd, ssid_from_output, ssid_is_trusted, ssid_query_cmd, AutoConnectAction,
};
use vpn_core::linux::{LinuxNftables, LinuxResolvedDns, LinuxSplitRoutes};
use vpn_core::macos::{parse_network_services, MacDns, MacPfFirewall};
use vpn_core::types::{AuthMethod, ConnectionState, DnsSettings, Platform, SplitTunnel, VpnProfile};
use vpn_core::windows::{
    build_add_vpn_ps, escape_ps, ipv4_mask_from_prefix, netsh_mtu_cmd, powershell_args, ps_bool,
    rasdial_messages_from_output, stats_message_from_output, WindowsDns, WindowsFirewall, WindowsSplitRoutes,
};

fn out(status: i32, stdout: &str) -> CommandOutput {
    CommandOutput { status, stdout: stdout.to_string(), stderr: String::new() }
}

#[test]
fn powershell_quoting() {
    assert_eq!(escape_ps("O'Brien's"), "O''Brien''s");
    assert_eq!(escape_ps("plain"), "plain");
    assert_eq!(ps_bool(true), "$true");
    assert_eq!(ps_bool(false), "$false");
    assert_eq!(powershell_args("Get-X"), vec!["-NoProfile", "-NonInteractive", "-Command", "Get-X"]);
}

#[test]
fn add_vpn_script() {
    let p = VpnProfile {
        name: "Work's".into(),
        server: "vpn.example.com".into(),
        remote_id: Some("example.com".into()),
        auth: AuthMethod::EapMsChapV2 { username: Some("user".into()) },
        split_tunnel: SplitTunnel { enabled: true },
        dns: DnsSettings { servers: vec!["1.1.1.1".into(), "8.8.8.8".into()] },
    };
    assert_eq!(
        build_add_vpn_ps(&p),
        "Add-VpnConnection -Name 'Work''s' -ServerAddress 'vpn.example.com' -TunnelType IKEv2 -AuthenticationMethod EAP -DnsSuffix 'example.com' -RememberCredential:$false -SplitTunneling $true -DnsServerAddress @('1.1.1.1','8.8.8.8') -Force -PassThru | Out-Null"
    );
    let q = VpnProfile {
        name: "n".into(),
        server: "s".into(),
        remote_id: None,
        auth: AuthMethod::EapTls { identity: None, cert_ref: None },
        split_tunnel: SplitTunnel { enabled: false },
        dns: DnsSettings { servers: vec![] },
    };
    assert_eq!(
        build_add_vpn_ps(&q),
        "Add-VpnConnection -Name 'n' -ServerAddress 's' -TunnelType IKEv2 -AuthenticationMethod EAP -Force -PassThru | Out-Null"
    );
}

#[test]
fn windows_dns_scripts() {
    assert_eq!(
        WindowsDns::<vpn_core::command::DryRunCommandExecutor>::dns_script("Ethernet", &["1.1.1.1", "9.9.9.9"]),
        "Set-DnsClientServerAddress -InterfaceAlias \"Ethernet\" -ServerAddresses @(\"1.1.1.1\",\"9.9.9.9\")"
    );
    assert_eq!(
        WindowsDns::<vpn_core::command::DryRunCommandExecutor>::dns_script("Ethernet", &[]),
        "Set-DnsClientServerAddress -InterfaceAlias \"Ethernet\" -ResetServerAddresses"
    );
}

#[test]
fn windows_firewall_scripts() {
    type Fw = WindowsFirewall<vpn_core::command::DryRunCommandExecutor>;
    let s = Fw::killswitch_scripts("VPN", &["203.0.113.1"], &["2001:db8::1"]);
    assert_eq!(
        s,
        vec![
            "New-NetFirewallRule -DisplayName 'VPNMvp-Allow-Tun' -Direction Outbound -InterfaceAlias 'VPN' -Action Allow",
            "New-NetFirewallRule -DisplayName 'VPNMvp-Allow-CPv4-203.0.113.1' -Direction Outbound -RemoteAddress 203.0.113.1 -Action Allow",
            "New-NetFirewallRule -DisplayName 'VPNMvp-Allow-CPv6-2001:db8::1' -Direction Outbound -RemoteAddress 2001:db8::1 -Action Allow",
            "New-NetFirewallRule -DisplayName 'VPNMvp-Block-All' -Direction Outbound -Action Block",
        ]
    );
    assert_eq!(
        Fw::allow_program_script("C:\\Apps\\Bob's.exe"),
        "New-NetFirewallRule -DisplayName 'VPNMvp-App-C:/Apps/Bob's.exe' -Direction Outbound -Program 'C:\\Apps\\Bob''s.exe' -Action Allow"
    );
}

#[test]
fn windows_route_scripts() {
    type R = WindowsSplitRoutes<vpn_core::command::DryRunCommandExecutor>;
    assert_eq!(
        R::route_add_script("VPN", "10.0.0.0/8"),
        "New-NetRoute -DestinationPrefix 10.0.0.0/8 -InterfaceAlias \"VPN\" -PolicyStore ActiveStore -ErrorAction Stop"
    );
    assert_eq!(
        R::route_del_script("VPN", "10.0.0.0/8"),
        "Get-NetRoute -DestinationPrefix 10.0.0.0/8 -InterfaceAlias \"VPN\" | Remove-NetRoute -Confirm:$false"
    );
}

#[test]
fn netmasks() {
    assert_eq!(ipv4_mask_from_prefix(24), Some(0xFFFF_FF00));
    assert_eq!(ipv4_mask_from_prefix(0), Some(0));
    assert_eq!(ipv4_mask_from_prefix(32), Some(0xFFFF_FFFF));
    assert_eq!(ipv4_mask_from_prefix(1), Some(0x8000_0000));
    assert_eq!(ipv4_mask_from_prefix(33), None);
}

#[test]
fn windows_log_lines() {
    let stats = out(0, "  {\"Name\": \"VPN\", \"BytesReceived\": 10}  ");
    assert_eq!(
        stats_message_from_output(&stats, "corp"),
        Some("[VPN] Packet stats for corp: {\"Name\": \"VPN\", \"BytesReceived\": 10}".to_string())
    );
    assert_eq!(stats_message_from_output(&out(0, "null"), "corp"), None);
    assert_eq!(stats_message_from_output(&out(0, "0123456789"), "corp"), None);
    assert_eq!(stats_message_from_output(&out(0, "0123456789a"), "corp").is_some(), true);
    let ras = out(0, "Connected to\ncorp\nBytes: 12\nErrors: 0\nCommand completed successfully.\n");
    assert_eq!(
        rasdial_messages_from_output(&ras, "corp"),
        vec!["[VPN] corp - Bytes: 12".to_string(), "[VPN] corp - Errors: 0".to_string()]
    );
    assert!(rasdial_messages_from_output(&out(1, "Bytes"), "corp").is_empty());
}

#[test]
fn mtu_commands() {
    assert_eq!(netsh_mtu_cmd("VPN", 1400), vec!["interface", "ipv4", "set", "subinterface", "\"VPN\"", "mtu=1400", "store=active"]);
    let (p, a) = mtu_cmd(Platform::Linux, "wg0", 1380);
    assert_eq!(p, "ip");
    assert_eq!(a, vec!["link", "set", "dev", "wg0", "mtu", "1380"]);
    let (p, a) = mtu_cmd(Platform::MacOs, "utun4", 1280);
    assert_eq!(p, "ifconfig");
    assert_eq!(a, vec!["utun4", "mtu", "1280"]);
}

#[test]
fn ssid_parsing() {
    let win = "    Name                   : Wi-Fi\n    SSID                   : HomeNet \n    BSSID                  : aa:bb\n";
    assert_eq!(ssid_from_output(Platform::Windows, &out(0, win)), "HomeNet");
    assert_eq!(ssid_from_output(Platform::MacOs, &out(0, "Current Wi-Fi Network: Cafe\n")), "Cafe");
    assert_eq!(ssid_from_output(Platform::Linux, &out(0, "no:Other\nyes:Office:5G\n")), "Office:5G");
    assert_eq!(ssid_from_output(Platform::Linux, &out(1, "yes:Office")), "");
    assert_eq!(ssid_from_output(Platform::MacOs, &out(0, "You are not associated with an AirPort network.")), "");
    let (p, a) = ssid_query_cmd(Platform::Linux);
    assert_eq!(p, "nmcli");
    assert_eq!(a, vec!["-t", "-f", "ACTIVE,SSID", "dev", "wifi"]);
}

#[test]
fn autoconnect_rule() {
    let trusted = vec!["Home".to_string()];
    assert!(ssid_is_trusted("Home", &trusted));
    assert!(!ssid_is_trusted("", &vec!["".to_string()]));
    assert_eq!(autoconnect_decide("Home", &trusted, ConnectionState::Connected), AutoConnectAction::Disconnect);
    assert_eq!(autoconnect_decide("Home", &trusted, ConnectionState::Disconnected), AutoConnectAction::Stay);
    assert_eq!(autoconnect_decide("Cafe", &trusted, ConnectionState::Unknown), AutoConnectAction::Connect);
    assert_eq!(autoconnect_decide("Cafe", &trusted, ConnectionState::Connecting), AutoConnectAction::Stay);
    assert_eq!(autoconnect_decide("", &trusted, ConnectionState::Disconnected), AutoConnectAction::Connect);
}

#[test]
fn mac_services_and_pf() {
    let text = "An asterisk (*) denotes that a network service is disabled.\nWi-Fi\n*Thunderbolt Bridge\n\n  Network Service  \nUSB LAN\n";
    assert_eq!(parse_network_services(text), vec!["Wi-Fi", "Thunderbolt Bridge", "USB LAN"]);
    type Dns = MacDns<vpn_core::command::DryRunCommandExecutor>;
    assert_eq!(Dns::set_dns_args("Wi-Fi", &[]), vec!["-setdnsservers", "Wi-Fi", "Empty"]);
    assert_eq!(Dns::set_dns_args("Wi-Fi", &["1.1.1.1"]), vec!["-setdnsservers", "Wi-Fi", "1.1.1.1"]);
    type Pf = MacPfFirewall<vpn_core::command::DryRunCommandExecutor>;
    assert_eq!(
        Pf::killswitch_rules("utun4", &["203.0.113.1"], &[]),
        "set block-policy drop\nset skip on lo0\nblock all\npass out on utun4 keep state\npass out quick to 203.0.113.1 keep state\n"
    );
}

#[test]
fn linux_scripts() {
    type Nft = LinuxNftables<vpn_core::command::DryRunCommandExecutor>;
    assert_eq!(
        Nft::killswitch_script("wg0", &["203.0.113.1", "203.0.113.2"], &[], &[1000]),
        "add table inet vpn_mvp\nflush table inet vpn_mvp\nadd table inet vpn_mvp\nadd chain inet vpn_mvp killswitch { type filter hook output priority 0; policy accept; }\nadd rule inet vpn_mvp killswitch oifname \"wg0\" accept\nadd rule inet vpn_mvp killswitch ip daddr { 203.0.113.1, 203.0.113.2 } accept\nadd rule inet vpn_mvp killswitch meta skuid 1000 accept\nadd rule inet vpn_mvp killswitch counter drop\n"
    );
    type Routes = LinuxSplitRoutes<vpn_core::command::DryRunCommandExecutor>;
    assert_eq!(Routes::route_add_args("wg0", "0.0.0.0/0"), vec!["route", "replace", "0.0.0.0/0", "dev", "wg0", "metric", "100"]);
    assert_eq!(Routes::route_add_args("wg0", "10.0.0.0/8"), vec!["route", "replace", "10.0.0.0/8", "dev", "wg0"]);
    type Res = LinuxResolvedDns<vpn_core::command::DryRunCommandExecutor>;
    assert_eq!(Res::dns_args("wg0", &["1.1.1.1"]), vec!["dns", "wg0", "1.1.1.1"]);
}
