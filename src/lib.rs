//! Server side of the WebSocket opening handshake: a request model, a
//! response builder, and the ordered validation that turns an upgrade
//! request into a `101 Switching Protocols` response.
pub mod base64;
pub mod error;
pub mod handshake;
pub mod request;
pub mod response;
pub mod sha1;
pub mod status_code;
pub mod text;
