//! The node program's command line and configuration.

use vstd::prelude::*;

use crate::proto::{IpAddress, SocketAddress};

verus! {

/// Default port of the HTTP server (the digits spell IPCH on a phone keypad).
pub const DEFAULT_PORT: u16 = 4724;

/// Name of the node's directory under the user's home.
pub open spec fn home_dir_name() -> Seq<char> {
    ".ipchat"@
}

/// Options of the `start` command.
#[derive(PartialEq, Eq, Structural, Clone, Copy, Debug)]
pub struct StartCmd {
    /// Port to run the HTTP server on.
    pub port: u16,
}

impl StartCmd {
    /// The options when none is given.
    pub fn new() -> (c: StartCmd)
        ensures
            c.port == DEFAULT_PORT,
    {
        StartCmd { port: DEFAULT_PORT }
    }

    /// Where the HTTP server listens: every interface, at the port.
    pub fn bind_address(&self) -> (a: SocketAddress)
        ensures
            a == (SocketAddress { ip: IpAddress::V4(0), port: self.port }),
    {
        SocketAddress { ip: IpAddress::V4(0), port: self.port }
    }

    /// The node's own address: its local IP at the port.
    pub fn local_address(&self, local_ip: IpAddress) -> (a: SocketAddress)
        ensures
            a == (SocketAddress { ip: local_ip, port: self.port }),
    {
        SocketAddress { ip: local_ip, port: self.port }
    }
}

/// The commands of the node program.
#[derive(PartialEq, Eq, Structural, Clone, Copy, Debug)]
pub enum Command {
    /// Starts a node.
    Start(StartCmd),
}

/// The node's settings.
pub struct Config {
    pub name: String,
}

impl Config {
    /// The settings of a fresh node: it is called `anonymous`.
    pub fn new() -> (c: Config)
        ensures
            c.name@ == "anonymous"@,
    {
        Config { name: String::from_str("anonymous") }
    }
}

/// The name of the node's directory under the user's home.
pub fn home_dir_name_str() -> (s: &'static str)
    ensures
        s@ == home_dir_name(),
{
    ".ipchat"
}

} // verus!
