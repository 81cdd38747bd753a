use ws_handshake::error::HandshakeError;
use ws_handshake::handshake::handshake;
use ws_handshake::request;
use ws_handshake::response;
use ws_handshake::status_code::StatusCode;

const FAKE_WS_KEY: &str = "dGhlIHNhbXBsZSBub25jZQ==";
const FAKE_WS_ACCEPT: &str = "s3pPLMBiTxaQ9kYGzzhZRbK+xOo=";

fn base_req_builder() -> request::Builder {
    request::Builder::new()
        .method("GET")
        .path("/test")
        .protocol_name("HTTP")
        .protocol_version("1.1")
        .header("upgrade", "websocket")
        .header("connection", "upgrade")
        .header("sec-websocket-key", FAKE_WS_KEY)
        .header("sec-websocket-version", "13")
}

#[test]
fn test_valid_handshake_succeeds() {
    let builder = response::Builder::new();

    let _response = builder
        .status(StatusCode::switching_protocols())
        .header("upgrade", "websocket")
        .header("connection", "upgrade")
        .header("sec-websocket-accept", FAKE_WS_ACCEPT)
        .build();

    let req = base_req_builder().build();

    assert!(matches!(handshake(&req), Ok(_response)));
}

#[test]
fn test_non_get_returns_error() {
    let req = base_req_builder().method("POST").build();

    assert!(matches!(handshake(&req), Err(HandshakeError::InvalidMethod)));
}

#[test]
fn test_invalid_protocol_returns_error() {
    let req = base_req_builder().protocol_name("TEST").build();

    assert!(matches!(handshake(&req), Err(HandshakeError::InvalidProtocol)));
}

#[test]
fn test_invalid_protocol_version_returns_error() {
    let req = base_req_builder().protocol_version("1.0").build();

    assert!(matches!(
        handshake(&req),
        Err(HandshakeError::InvalidProtocolVersion)
    ));
}

#[test]
fn test_without_upgrade_returns_error() {
    let req = request::Builder::new()
        .method("GET")
        .path("/test")
        .protocol_name("HTTP")
        .protocol_version("1.1")
        .header("connection", "upgrade")
        .header("sec-websocket-key", FAKE_WS_KEY)
        .header("sec-websocket-version", "13")
        .build();

    assert!(matches!(handshake(&req), Err(HandshakeError::InvalidUpgrade)));
}

#[test]
fn test_invalid_upgrade_returns_error() {
    let req = base_req_builder().header("upgrade", "test").build();

    assert!(matches!(handshake(&req), Err(HandshakeError::InvalidUpgrade)));
}

#[test]
fn test_without_connection_returns_error() {
    let req = request::Builder::new()
        .method("GET")
        .path("/test")
        .protocol_name("HTTP")
        .protocol_version("1.1")
        .header("upgrade", "websocket")
        .header("sec-websocket-key", FAKE_WS_KEY)
        .header("sec-websocket-version", "13")
        .build();

    assert!(matches!(handshake(&req), Err(HandshakeError::InvalidConnection)));
}

#[test]
fn test_invalid_connection_returns_error() {
    let req = base_req_builder().header("connection", "test").build();

    assert!(matches!(handshake(&req), Err(HandshakeError::InvalidConnection)));
}

#[test]
fn test_without_ws_key_returns_error() {
    let req = request::Builder::new()
        .method("GET")
        .path("/test")
        .protocol_name("HTTP")
        .protocol_version("1.1")
        .header("upgrade", "websocket")
        .header("connection", "upgrade")
        .header("sec-websocket-version", "13")
        .build();

    assert!(matches!(handshake(&req), Err(HandshakeError::InvalidWSKey)));
}

#[test]
fn test_invalid_base64_ws_key_returns_error() {
    let req = base_req_builder().header("sec-websocket-key", "test").build();

    assert!(matches!(handshake(&req), Err(HandshakeError::InvalidWSKey)));
}

#[test]
fn test_invalid_ws_key_length_returns_error() {
    let req = base_req_builder()
        .header("sec-websocket-key", "dGhlIHNhbXBsZSBub25jZQ")
        .build();

    assert!(matches!(handshake(&req), Err(HandshakeError::InvalidWSKey)));
}

#[test]
fn test_without_ws_version_returns_error() {
    let req = request::Builder::new()
        .method("GET")
        .path("/test")
        .protocol_name("HTTP")
        .protocol_version("1.1")
        .header("upgrade", "websocket")
        .header("connection", "upgrade")
        .header("sec-websocket-key", FAKE_WS_KEY)
        .build();

    assert!(matches!(handshake(&req), Err(HandshakeError::InvalidWSVersion)));
}

#[test]
fn test_invalid_ws_version_returns_error() {
    let req = base_req_builder().header("sec-websocket-version", "1").build();

    assert!(matches!(handshake(&req), Err(HandshakeError::InvalidWSVersion)));
}

#[test]
fn test_invalid_non_utf8_ws_key_returns_error() {
    // sixteen bytes that are not valid UTF-8
    let invalid_utf8_key = "2+/v7+/v7+/v7+/v7+/v7w==";

    let req = base_req_builder()
        .header("sec-websocket-key", invalid_utf8_key)
        .build();

    assert!(matches!(handshake(&req), Err(HandshakeError::InvalidWSKey)));
}
