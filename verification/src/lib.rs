//! A client-side engine for the POP3 mail-retrieval protocol.
//!
//! The crate covers the protocol logic proper: serializing commands to wire
//! lines, framing server replies (single-line and dot-terminated multi-line)
//! out of an unbounded byte stream, classifying failures into a closed error
//! set, and the small session state machine that refuses a second
//! authentication. The byte stream itself is abstract: anything that can
//! read a line and write bytes ([`Transport`]) carries a [`Session`], so the
//! same logic serves a blocking or a cooperative transport adapter alike;
//! [`MemStream`] is the deterministic in-memory transport the proofs and
//! tests run on.

pub mod digits;
pub mod error;
pub mod framer;
pub mod lines;
pub mod request;
pub mod response;
pub mod session;
pub mod stat;
pub mod transport;
pub mod wire;

pub use error::Pop3Error;
pub use framer::read_response;
pub use lines::join_bytes;
pub use request::Command;
pub use response::Response;
pub use session::Session;
pub use transport::{MemStream, Transport};
