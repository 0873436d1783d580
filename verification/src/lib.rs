//! An SSH tunnel manager: forwarding specifications, the OpenSSH client
//! configuration, layer-3 TUN tunnels, and link supervision.

pub mod addr;
pub mod answers;
pub mod auth;
pub mod auto_tun;
pub mod facts;
pub mod forward;
pub mod frame;
pub mod hooks;
pub mod host;
pub mod laws;
pub mod monitor;
pub mod number;
pub mod outside;
pub mod paths;
pub mod resolve;
pub mod scan;
pub mod socks;
pub mod ssh_config;
pub mod supervisor;
pub mod text;
pub mod tun_setup;
pub mod tunnels;
pub mod written;
