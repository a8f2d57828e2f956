//! Point-to-point remote procedure calls over a byte stream: the wire
//! framing, the client-side correlation of responses to calls, the
//! stream consumer, and the server-side dispatch and response framing.
pub mod client;
pub mod error;
pub mod events;
pub mod protocol;
pub mod server;
pub mod stream;
pub mod wire;
