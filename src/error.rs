//! Why a handshake was refused.
use vstd::prelude::*;

verus! {

/// The check of the handshake that failed first.
#[derive(Debug, Clone, Copy, PartialEq, Eq, Structural)]
pub enum HandshakeError {
    InvalidMethod,
    InvalidProtocol,
    InvalidProtocolVersion,
    InvalidUpgrade,
    InvalidConnection,
    InvalidWSKey,
    InvalidWSVersion,
}

/// The diagnostic text of each error.
pub open spec fn message_of(e: HandshakeError) -> Seq<char> {
    match e {
        HandshakeError::InvalidMethod => "only GET requests are allowed for websocket handshake"@,
        HandshakeError::InvalidProtocol => "only HTTP is allowed for websocket handshake"@,
        HandshakeError::InvalidProtocolVersion =>
            "only HTTP/1.1 is allowed for websocket handshake"@,
        HandshakeError::InvalidUpgrade =>
            "`upgrade` header must include `websocket` token for websocket handshake"@,
        HandshakeError::InvalidConnection =>
            "`connection` header must include `upgrade` token for websocket handshake"@,
        HandshakeError::InvalidWSKey =>
            "`sec-websocket-key` header must be a valid UTF-8 16 bytes long base64 string for websocket handshake"@,
        HandshakeError::InvalidWSVersion =>
            "`sec-websocket-version` header must be `13` for websocket handshake"@,
    }
}

impl HandshakeError {
    /// A human-readable description of the failed check.
    pub fn message(&self) -> (r: &'static str)
        ensures
            r@ == message_of(*self),
    {
        match self {
            HandshakeError::InvalidMethod => "only GET requests are allowed for websocket handshake",
            HandshakeError::InvalidProtocol => "only HTTP is allowed for websocket handshake",
            HandshakeError::InvalidProtocolVersion =>
                "only HTTP/1.1 is allowed for websocket handshake",
            HandshakeError::InvalidUpgrade =>
                "`upgrade` header must include `websocket` token for websocket handshake",
            HandshakeError::InvalidConnection =>
                "`connection` header must include `upgrade` token for websocket handshake",
            HandshakeError::InvalidWSKey =>
                "`sec-websocket-key` header must be a valid UTF-8 16 bytes long base64 string for websocket handshake",
            HandshakeError::InvalidWSVersion =>
                "`sec-websocket-version` header must be `13` for websocket handshake",
        }
    }
}

} // verus!
