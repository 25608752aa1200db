//! MySQL wire protocol decoding.

pub mod client;
pub mod common;
pub mod framer;
pub mod handshake;
pub mod server;

pub use common::MySQLPacketRequest;
pub use common::MySQLPacketResponse;
pub use common::MySQLParser;
