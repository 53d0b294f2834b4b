//! A sans-I/O client core for the StellwerkSim plugin protocol.
//!
//! The crate holds everything the protocol decides: how requests are written
//! on the wire, where a reply ends in the byte stream, how a reply is turned
//! into typed values, and how a session moves from the greeting through the
//! registration to the request/reply cycle. It never touches a socket: the
//! caller moves bytes between the transport and a [`Plugin`].

pub mod builder;
pub mod error;
pub mod frame;
pub mod plugin;
pub mod protocol;
pub mod request;
pub mod response;
pub mod text;
pub mod time;
pub mod value;
pub mod xml;

pub use builder::PluginBuilder;
pub use error::Error;
pub use plugin::{read_message, Host, Phase, Plugin, PluginDetails, Step};
pub use protocol::Status;
