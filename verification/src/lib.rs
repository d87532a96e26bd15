//! Verified core of a multi-platform VPN client and node agent.
//!
//! The library holds the logic that decides which commands to run, how their
//! output is read, how configuration text is parsed, and how the session and
//! auto-connect state machines move. Running commands, touching files and
//! talking to the network is left to the caller through the traits in
//! [`command`] and [`traits`].

pub mod text;
pub mod error;
pub mod types;
pub mod command;
pub mod traits;
pub mod linux;
pub mod wg;
pub mod ipv6;
pub mod codec;
pub mod session;
pub mod agent;
pub mod windows;
pub mod macos;
pub mod desktop;
pub mod node;
pub mod auth;
pub mod store;
pub mod ui;
pub mod daemon;
pub mod gui;
pub mod tun;
pub mod admission;
