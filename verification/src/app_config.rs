//! The server's configuration: where it listens, read from a file chosen by the
//! run mode.
use vstd::prelude::*;

verus! {

/// Address and port the server listens on.
#[derive(Debug)]
pub struct AppConfig {
    pub host_ip: String,
    pub host_port: i64,
}

/// The configuration file of a run mode; without a run mode, that of `dev`.
pub open spec fn config_path_of(run_mode: Option<Seq<char>>) -> Seq<char> {
    "../config/config_"@ + (match run_mode {
        Some(mode) => mode,
        None => "dev"@,
    }) + ".toml"@
}

/// The path of the configuration file for `run_mode` (the `RUN_MODE` setting of
/// the environment, if it is set).
pub fn config_file_path(run_mode: Option<&str>) -> (path: String)
    ensures
        path@ == config_path_of(match run_mode {
            Some(mode) => Some(mode@),
            None => None,
        }),
{
    let mut path = String::from_str("../config/config_");
    match run_mode {
        Some(mode) => path.append(mode),
        None => path.append("dev"),
    }
    path.append(".toml");
    path
}

impl AppConfig {
    /// The port to bind: `host_port` cut to 16 bits, as the server does.
    pub fn port(&self) -> (port: u16)
        ensures
            port == self.host_port as u16,
    {
        #[verifier::truncate] (self.host_port as u16)
    }
}

} // verus!
