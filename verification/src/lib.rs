//! A length-framed, broadcast-style message relay for a multi-client chat
//! protocol: the wire framing format, the per-connection session decisions,
//! and the bounded fan-out hub that relays each client's message to every
//! other connected client. A small set of text transformations used by the
//! companion command-line utility lives in `operations`.

pub mod address;
pub mod codec;
pub mod commands;
pub mod csv;
pub mod hub;
pub mod message;
pub mod operations;
pub mod session;
pub mod strutil;

pub use address::Address;
pub use codec::MessageError;
pub use message::Message;
pub use message::MessageType;
pub use operations::Operation;
