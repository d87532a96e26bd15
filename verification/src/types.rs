//! The profile model shared by the adapters and the stores.

use vstd::prelude::*;

verus! {

/// How a profile authenticates.
#[derive(Debug, Clone, PartialEq, Eq)]
pub enum AuthMethod {
    /// EAP-MSCHAPv2 (username/password). The username may be stored; the
    /// password is kept in the OS keychain.
    EapMsChapV2 { username: Option<String> },
    /// EAP-TLS, identified by an identity and a certificate reference.
    EapTls { identity: Option<String>, cert_ref: Option<String> },
}

/// The state of a VPN connection.
#[derive(Debug, Clone, Copy, PartialEq, Eq, Structural)]
pub enum ConnectionState {
    Disconnected,
    Connecting,
    Connected,
    Disconnecting,
    Unknown,
}

/// DNS servers that a profile pushes.
#[derive(Debug, Clone, PartialEq, Eq, Default)]
pub struct DnsSettings {
    pub servers: Vec<String>,
}

/// Whether a profile tunnels only part of the traffic.
#[derive(Debug, Clone, PartialEq, Eq, Default)]
pub struct SplitTunnel {
    pub enabled: bool,
}

/// A stored VPN connection profile.
#[derive(Debug, Clone, PartialEq, Eq)]
pub struct VpnProfile {
    pub name: String,
    pub server: String,
    pub remote_id: Option<String>,
    pub auth: AuthMethod,
    pub split_tunnel: SplitTunnel,
    pub dns: DnsSettings,
}

/// The operating system whose tools a component drives.
#[derive(Debug, Clone, Copy, PartialEq, Eq, Structural)]
pub enum Platform {
    Windows,
    MacOs,
    Linux,
}

} // verus!
