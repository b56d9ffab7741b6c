//! The command line, as parsed: what to do, and the settings that override
//! the configuration.

use vstd::prelude::*;

verus! {

/// What the program is asked to do.
#[derive(Debug, Clone)]
pub enum Commands {
    /// Log every configured user in.
    Login,
    /// Log every configured user out.
    Logout,
    /// Write an example configuration to `file`.
    GenConfig { file: String },
    /// List the network interfaces.
    Interfaces,
}

impl Default for Commands {
    fn default() -> (r: Commands)
        ensures
            r is Interfaces,
    {
        Commands::Interfaces
    }
}

/// The command line. A setting that is `None` was not given and leaves the
/// configuration as it is.
#[derive(Debug, Clone)]
pub struct Cli {
    pub command: Commands,
    /// The path of the configuration file.
    pub config: Option<String>,
    pub server: Option<String>,
    pub server_ip: Option<String>,
    /// Whether to log in or out even where the user already is.
    pub force: bool,
    pub verify_cert: Option<String>,
    pub username: Option<String>,
    pub password: Option<String>,
    pub ip: Option<String>,
    pub iface: Option<String>,
    pub strict_bind: Option<bool>,
    pub enc: Option<String>,
    pub n: Option<u32>,
    pub conn_type: Option<u32>,
    pub acid: Option<u32>,
    pub double_stack: Option<bool>,
    pub os: Option<String>,
    pub os_name: Option<String>,
    pub retry_count: Option<u32>,
    pub retry_delay: Option<u64>,
}

} // verus!
