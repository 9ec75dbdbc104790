//! A command-line toolbox whose sub-commands come from pluggable addons,
//! with a verified IPv4 network-specification parser.

pub mod command;
pub mod either;
pub mod error;
pub mod hello_world;
pub mod ip_network;
pub mod netspec;
pub mod registry;

pub use command::{CommandInputsHelp, MyToolsAddon, MyToolsAddonCommand, ParseOutcome};
pub use error::MyToolsError;
pub use netspec::{arg_to_ipv4network, NetworkSpec, NetworkSpecError};
pub use hello_world::HelloWorldAddon;
pub use ip_network::IpNetworkAddon;
