//! The runtime: frames and their codec, the table of pending requests, the
//! routing of inbound frames, and the frame sequences that answer a request.

pub mod codec_laws;
pub mod connection;
pub mod dispatch;
pub mod envelope;
pub mod json;
pub mod laws;
pub mod rpc_error;
pub mod stream;
pub mod wire_format;
