//! Result-set streaming for a MySQL wire-protocol client.
//!
//! The engine turns the packets of a server response into rows, keeps track of
//! which result set is pending on the connection, chains the result sets of a
//! multi-statement query and answers a server's request for a local file.
//! It performs no I/O of its own: a [`Conn`] holds the packets that have
//! arrived and records the packets to send, so every operation is a function
//! of the connection's state.

pub mod conn;
pub mod error;
pub mod infile;
pub mod laws;
pub mod meta;
pub mod model;
pub mod query_result;
pub mod wire;

pub use conn::{Conn, Effect, RowPacket};
pub use error::Error;
pub use infile::{LocalInfileHandler, CHUNK_SIZE};
pub use meta::{Protocol, ResultSetMeta};
pub use query_result::QueryResult;
