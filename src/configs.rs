use vstd::prelude::*;

use crate::address::Address;
use crate::role::{Action, Role};

verus! {

/// The command-line arguments of a node.
pub struct Args {
    pub role: Role,
    pub port: u16,
    pub dir_data: String,
    pub action: Option<Action>,
    pub name: Option<String>,
    pub path: Option<String>,
}

/// An argument that the Client role needs and was not given.
#[derive(Clone, Copy, Debug, PartialEq, Eq, Structural)]
pub enum MissingArgument {
    Action,
    Name,
    Path,
}

impl Args {
    /// The first argument a Client lacks, if this is a Client; checked in
    /// the order action, name, path.
    pub fn missing_client_argument(&self) -> (r: Option<MissingArgument>)
        ensures
            r == (if self.role != Role::Client {
                None
            } else if self.action is None {
                Some(MissingArgument::Action)
            } else if self.name is None {
                Some(MissingArgument::Name)
            } else if self.path is None {
                Some(MissingArgument::Path)
            } else {
                None
            }),
    {
        if self.role != Role::Client {
            None
        } else if self.action.is_none() {
            Some(MissingArgument::Action)
        } else if self.name.is_none() {
            Some(MissingArgument::Name)
        } else if self.path.is_none() {
            Some(MissingArgument::Path)
        } else {
            None
        }
    }
}

/// The settings of a node: where the DNS node listens, the heartbeat
/// interval in seconds, the processor's wait in seconds, and the arguments.
pub struct Configs {
    pub ip_dns: [u8; 4],
    pub port_dns: u16,
    pub interval_heartbeat: u64,
    pub timeout_chan_wait: u64,
    pub args: Args,
}

impl Configs {
    /// The address of the DNS node.
    pub fn addr_dns(&self) -> (r: Address)
        ensures
            r == (Address { ip: self.ip_dns, port: self.port_dns }),
    {
        Address { ip: self.ip_dns, port: self.port_dns }
    }

    /// The port a node of `role` listens on: the DNS port for the DNS node,
    /// the configured port for every other.
    pub fn listen_port(&self, role: Role) -> (r: u16)
        ensures
            r == (if role == Role::DNS {
                self.port_dns
            } else {
                self.args.port
            }),
    {
        if role == Role::DNS {
            self.port_dns
        } else {
            self.args.port
        }
    }
}

} // verus!
