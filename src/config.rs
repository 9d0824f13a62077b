//! Static settings of the agent.
use vstd::prelude::*;

verus! {

/// The agent's settings: the default syslog ports and the default file to
/// replay.
pub struct AppConfig {
    pub syslog_tcp_port: u16,
    pub syslog_udp_port: u16,
    pub log_file_path: String,
}

} // verus!
