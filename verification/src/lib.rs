//! The rules of a small message relay: a server sends every message it gets
//! from one connection to all connections, the sender's too.
//!
//! Nothing here touches a socket. The owner of the sockets reads and writes,
//! and asks this library what each outcome means:
//!
//! - [`frame`]: the wire format, frames of a fixed size;
//! - [`reader`]: the inbound side of one connection;
//! - [`registry`]: the live connections and the broadcast pass over them;
//! - [`session`]: the client's side, from typed lines to frames;
//! - [`delivery`]: what these steps guarantee together;
//! - [`text`]: what is taken on trust about the standard library.

pub mod delivery;
pub mod frame;
pub mod reader;
pub mod registry;
pub mod session;
pub mod text;
