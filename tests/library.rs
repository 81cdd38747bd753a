use ws_handshake::base64;
use ws_handshake::error::HandshakeError;
use ws_handshake::handshake::{accept_material, handshake, switching_response};
use ws_handshake::request::{Builder, Request};
use ws_handshake::response;
use ws_handshake::sha1;
use ws_handshake::status_code::StatusCode;

const KEY: &str = "dGhlIHNhbXBsZSBub25jZQ==";
const EXPECTED: &str = "HTTP/1.1 101 Switching Protocols\r\nupgrade: websocket\r\nconnection: upgrade\r\nsec-websocket-accept: BXhwxM0SZasKmCD9S4BfpPmCnEw=\r\n";

fn valid() -> Builder {
    Builder::new()
        .method("GET")
        .path("/chat")
        .protocol_name("HTTP")
        .protocol_version("1.1")
        .header("upgrade", "websocket")
        .header("connection", "upgrade")
        .header("sec-websocket-key", KEY)
        .header("sec-websocket-version", "13")
}

fn lines(ls: &[&str]) -> Vec<String> {
    ls.iter().map(|l| l.to_string()).collect()
}

#[test]
fn accept_is_derived_from_decoded_key() {
    let out = handshake(&valid().build()).unwrap();
    assert_eq!(String::from_utf8(out).unwrap(), EXPECTED);
}

#[test]
fn accept_is_sha1_of_decoded_key_and_guid() {
    let mut material = "the sample nonce".to_string();
    material.push_str("258EAFA5-E914-47DA-95CA-C5AB0DC85B11");
    let accept = base64::encode(&sha1::encode(material));
    assert_eq!(accept, "BXhwxM0SZasKmCD9S4BfpPmCnEw=");
    assert_ne!(accept, "s3pPLMBiTxaQ9kYGzzhZRbK+xOo=");
}

#[test]
fn same_request_gives_same_response() {
    let a = handshake(&valid().build()).unwrap();
    let b = handshake(&valid().build()).unwrap();
    assert_eq!(a, b);
}

#[test]
fn header_lookup_ignores_case() {
    let req = Builder::new().header("Upgrade", "websocket").build();
    assert_eq!(req.header("upgrade").map(|s| s.as_str()), Some("websocket"));
    assert_eq!(req.header("UPGRADE").map(|s| s.as_str()), Some("websocket"));
    assert_eq!(req.header("connection"), None);
}

#[test]
fn mixed_case_headers_and_tokens_are_accepted() {
    let req = Builder::new()
        .method("GET")
        .path("/")
        .protocol_name("HTTP")
        .protocol_version("1.1")
        .header("Upgrade", "WebSocket")
        .header("Connection", "keep-alive, Upgrade")
        .header("Sec-WebSocket-Key", KEY)
        .header("Sec-WebSocket-Version", "13")
        .build();
    let out = handshake(&req).unwrap();
    assert_eq!(String::from_utf8(out).unwrap(), EXPECTED);
}

#[test]
fn last_header_of_a_name_wins() {
    let req = valid().header("sec-websocket-version", "8").build();
    assert!(matches!(handshake(&req), Err(HandshakeError::InvalidWSVersion)));
    let req = valid().header("sec-websocket-version", "8").header("Sec-WebSocket-Version", "13").build();
    assert!(handshake(&req).is_ok());
}

#[test]
fn protocol_checked_regardless_of_headers() {
    let req = Builder::new().method("GET").protocol_name("HTTPS").protocol_version("1.1").build();
    assert!(matches!(handshake(&req), Err(HandshakeError::InvalidProtocol)));
}

#[test]
fn method_check_wins_over_key_check() {
    let req = valid().method("POST").header("sec-websocket-key", "!!").build();
    assert!(matches!(handshake(&req), Err(HandshakeError::InvalidMethod)));
}

#[test]
fn method_is_case_sensitive() {
    let req = valid().method("get").build();
    assert!(matches!(handshake(&req), Err(HandshakeError::InvalidMethod)));
}

#[test]
fn non_utf8_key_checked_before_version() {
    let req = valid()
        .header("sec-websocket-key", "2+/v7+/v7+/v7+/v7+/v7w==")
        .header("sec-websocket-version", "8")
        .build();
    assert!(matches!(handshake(&req), Err(HandshakeError::InvalidWSKey)));
}

#[test]
fn parse_reads_request_line_and_headers() {
    let req = Request::parse(&lines(&[
        "GET /chat HTTP/1.1",
        "Host: example.com:8080",
        "Upgrade:   websocket  ",
        "Connection: Upgrade",
        "Sec-WebSocket-Key: dGhlIHNhbXBsZSBub25jZQ==",
        "Sec-WebSocket-Version: 13",
    ]))
    .unwrap();
    assert!(req.is_get());
    assert!(req.is_http());
    assert!(req.meets_version("1.1"));
    assert!(!req.meets_version("1.0"));
    assert_eq!(req.header("host").map(|s| s.as_str()), Some("example.com:8080"));
    assert_eq!(req.header("upgrade").map(|s| s.as_str()), Some("websocket"));
    let out = handshake(&req).unwrap();
    assert_eq!(String::from_utf8(out).unwrap(), EXPECTED);
}

#[test]
fn parse_refuses_malformed_input() {
    assert!(Request::parse(&lines(&[])).is_none());
    assert!(Request::parse(&lines(&["GET /"])).is_none());
    assert!(Request::parse(&lines(&["GET / HTTP/1.1 extra"])).is_none());
    assert!(Request::parse(&lines(&["GET / HTTP1.1"])).is_none());
    assert!(Request::parse(&lines(&["GET / HTTP/1/1"])).is_none());
    assert!(Request::parse(&lines(&["GET / HTTP/1.1", "no colon here"])).is_none());
    assert!(Request::parse(&lines(&["  GET\t/   HTTP/1.1 "])).is_some());
}

#[test]
fn parse_splits_protocol_token() {
    let req = Request::parse(&lines(&["POST /x HTTP/2"])).unwrap();
    assert!(!req.is_get());
    assert!(req.is_http());
    assert!(req.meets_version("2"));
    assert!(matches!(handshake(&req), Err(HandshakeError::InvalidMethod)));
}

#[test]
fn response_replaces_repeated_header() {
    let out = response::Builder::new()
        .status(StatusCode::switching_protocols())
        .header("a", "1")
        .header("b", "2")
        .header("a", "3")
        .build();
    assert_eq!(String::from_utf8(out).unwrap(), "HTTP/1.1 101 Switching Protocols\r\na: 3\r\nb: 2\r\n");
}

#[test]
fn response_without_headers_is_status_line() {
    let out = response::Builder::new().status(StatusCode::switching_protocols()).build();
    assert_eq!(out, b"HTTP/1.1 101 Switching Protocols\r\n".to_vec());
}

#[test]
fn response_splits_back_into_status_and_headers() {
    let out = response::Builder::new()
        .status(StatusCode::switching_protocols())
        .header("upgrade", "websocket")
        .header("x-note", "a: b")
        .build();
    let text = String::from_utf8(out).unwrap();
    let mut parts = text.split("\r\n");
    let status = parts.next().unwrap();
    assert_eq!(status.split(' ').nth(1), Some("101"));
    let headers: Vec<(String, String)> = parts
        .filter(|l| !l.is_empty())
        .map(|l| {
            let (k, v) = l.split_once(": ").unwrap();
            (k.to_string(), v.to_string())
        })
        .collect();
    assert_eq!(
        headers,
        vec![
            ("upgrade".to_string(), "websocket".to_string()),
            ("x-note".to_string(), "a: b".to_string())
        ]
    );
}

#[test]
fn status_code_has_code_and_text() {
    let s = StatusCode::switching_protocols();
    assert_eq!(s.code(), 101);
    assert_eq!(s.text(), "Switching Protocols");
}

#[test]
fn base64_decode_reads_text() {
    assert_eq!(base64::decode(&"aGVsbG8=".to_string()).unwrap(), "hello");
    assert!(base64::decode(&"aGVsbG8".to_string()).is_err());
    assert!(base64::decode(&"/w==".to_string()).is_err());
}

#[test]
fn base64_encode_standard_alphabet() {
    assert_eq!(base64::encode(b"hello"), "aGVsbG8=");
    assert_eq!(base64::encode(&[0xfb, 0xff]), "+/8=");
    assert_eq!(base64::encode(&[]), "");
}

#[test]
fn sha1_of_abc() {
    let d = sha1::encode("abc".to_string()).to_vec();
    assert_eq!(
        d,
        vec![
            0xa9, 0x99, 0x3e, 0x36, 0x47, 0x06, 0x81, 0x6a, 0xba, 0x3e, 0x25, 0x71, 0x78, 0x50,
            0xc2, 0x6c, 0x9c, 0xd0, 0xd8, 0x9d
        ]
    );
}

#[test]
fn error_messages_are_distinct() {
    let all = [
        HandshakeError::InvalidMethod,
        HandshakeError::InvalidProtocol,
        HandshakeError::InvalidProtocolVersion,
        HandshakeError::InvalidUpgrade,
        HandshakeError::InvalidConnection,
        HandshakeError::InvalidWSKey,
        HandshakeError::InvalidWSVersion,
    ];
    for (i, a) in all.iter().enumerate() {
        for (j, b) in all.iter().enumerate() {
            assert_eq!(i == j, a.message() == b.message());
        }
    }
}

#[test]
fn switching_response_carries_accept_value() {
    let out = switching_response("abc=");
    assert_eq!(
        String::from_utf8(out).unwrap(),
        "HTTP/1.1 101 Switching Protocols\r\nupgrade: websocket\r\nconnection: upgrade\r\nsec-websocket-accept: abc=\r\n"
    );
}

#[test]
fn accept_material_appends_guid() {
    let m = accept_material(b"the sample nonce");
    assert_eq!(m, b"the sample nonce258EAFA5-E914-47DA-95CA-C5AB0DC85B11".to_vec());
}
