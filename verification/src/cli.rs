//! The command line: run as the server (exit node) or as the client (local
//! SOCKS5 proxy).

use vstd::prelude::*;

verus! {

/// The local SOCKS5 port when none is given.
pub const DEFAULT_SOCKS_PORT: u16 = 1080;

/// What to run.
#[derive(Debug, PartialEq, Eq)]
pub enum Commands {
    /// Run the SOCKS5 proxy server (exit node).
    Server,
    /// Run the SOCKS5 proxy client (local proxy): `server` is the server's
    /// address (hex), `port` the local SOCKS5 listen port.
    Client { server: String, port: u16 },
}

/// The parsed command line.
#[derive(Debug, PartialEq, Eq)]
pub struct Cli {
    /// Enable debug logging.
    pub debug: bool,
    /// What to run.
    pub command: Commands,
}

impl Cli {
    /// The default log filter: `debug` with `--debug`, `info` otherwise.
    pub fn log_level(&self) -> (r: &'static str)
        ensures
            self.debug ==> r@ == "debug"@,
            !self.debug ==> r@ == "info"@,
    {
        if self.debug {
            "debug"
        } else {
            "info"
        }
    }
}

} // verus!
