//! A small publish/subscribe broker: the wire codec, the topic router and the
//! per-connection decisions, each with a machine-checked contract.
pub mod channel;
pub mod cli;
pub mod client;
pub mod connection;
pub mod error;
pub mod header;
pub mod message;
pub mod pkt;
pub mod routing;
pub mod server;
pub mod stream;
pub mod text;
pub mod topics;

pub use header::Header;
pub use pkt::PktType;
