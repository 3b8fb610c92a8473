//! A small distributed file-store cluster: the wire protocol between its
//! nodes, the catalogs kept by the Master and Data nodes, and the state
//! machines of the DNS, Master, Data and Client roles.
pub mod address;
pub mod client;
mod clock;
pub mod configs;
pub mod db;
pub mod errors;
pub mod nodes;
pub mod packets;
pub mod role;
pub mod text;

pub use address::Address;
pub use configs::{Args, Configs, MissingArgument};
pub use db::{FileInfoDB, FileInfoEntry, NodeInfoDB, NodeInfoEntry};
pub use errors::{NodeCreationError, NodeCreationErrorCode, ParseError, ParseErrorCode};
pub use packets::{Packet, PacketId};
pub use role::{Action, Role};
