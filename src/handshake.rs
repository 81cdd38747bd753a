//! The ordered checks of the opening handshake and the accept-key derivation.
use vstd::prelude::*;
use vstd::utf8::*;
use crate::base64::{base64_decoded, base64_encoded, standard_decode, standard_encode};
use crate::error::HandshakeError;
use crate::request::{HeaderSeq, Request};
use crate::response::{index_of, response_text, Builder};
use crate::sha1::{sha1_digest, sha1_of};
use crate::status_code::StatusCode;
use crate::text::{chars_of, contains, is_infix, lower_of, lowercase, utf8_string};

verus! {

/// The GUID that every accept key is derived with.
pub open spec fn ws_guid() -> Seq<char> {
    "258EAFA5-E914-47DA-95CA-C5AB0DC85B11"@
}

/// True when a header value holds `token`, ignoring case.
pub open spec fn has_token(value: Option<Seq<char>>, token: Seq<char>) -> bool {
    match value {
        Some(v) => is_infix(token, lower_of(v)),
        None => false,
    }
}

/// The nonce that a `sec-websocket-key` value stands for: base64 of sixteen
/// bytes that are valid UTF-8.
pub open spec fn key_nonce(value: Option<Seq<char>>) -> Option<Seq<u8>> {
    match value {
        Some(k) => match base64_decoded(k) {
            Some(b) => if b.len() == 16 && valid_utf8(b) {
                Some(b)
            } else {
                None
            },
            None => None,
        },
        None => None,
    }
}

/// The `sec-websocket-accept` value for a nonce.
pub open spec fn accept_value(nonce: Seq<u8>) -> Seq<char> {
    base64_encoded(sha1_of(nonce + encode_utf8(ws_guid())))
}

/// The headers of a successful handshake response, in the order they are set.
pub open spec fn accept_headers(accept: Seq<char>) -> HeaderSeq {
    seq![
        ("upgrade"@, "websocket"@),
        ("connection"@, "upgrade"@),
        ("sec-websocket-accept"@, accept),
    ]
}

/// The bytes of a successful handshake response.
pub open spec fn accept_response(accept: Seq<char>) -> Seq<u8> {
    encode_utf8(response_text(101, "Switching Protocols"@, accept_headers(accept)))
}

/// The outcome of the handshake: the first failed check, or the response.
pub open spec fn handshake_result(req: Request) -> Result<Seq<u8>, HandshakeError> {
    if req.method_view() != "GET"@ {
        Err(HandshakeError::InvalidMethod)
    } else if req.protocol_name_view() != "HTTP"@ {
        Err(HandshakeError::InvalidProtocol)
    } else if req.protocol_version_view() != "1.1"@ {
        Err(HandshakeError::InvalidProtocolVersion)
    } else if !has_token(req.header_spec("upgrade"@), "websocket"@) {
        Err(HandshakeError::InvalidUpgrade)
    } else if !has_token(req.header_spec("connection"@), "upgrade"@) {
        Err(HandshakeError::InvalidConnection)
    } else if key_nonce(req.header_spec("sec-websocket-key"@)) is None {
        Err(HandshakeError::InvalidWSKey)
    } else if req.header_spec("sec-websocket-version"@) != Some("13"@) {
        Err(HandshakeError::InvalidWSVersion)
    } else {
        Ok(accept_response(accept_value(key_nonce(req.header_spec("sec-websocket-key"@))->0)))
    }
}

/// Any request whose method is not `GET` is refused with `InvalidMethod`,
/// whatever its other fields and headers hold.
pub proof fn lemma_method_checked(req: Request)
    requires
        req.method_view() != "GET"@,
    ensures
        handshake_result(req) == Err::<Seq<u8>, HandshakeError>(HandshakeError::InvalidMethod),
{
}

/// A `GET` request whose protocol name is not `HTTP` is refused with
/// `InvalidProtocol`, whatever its headers hold.
pub proof fn lemma_protocol_checked(req: Request)
    requires
        req.method_view() == "GET"@,
        req.protocol_name_view() != "HTTP"@,
    ensures
        handshake_result(req) == Err::<Seq<u8>, HandshakeError>(HandshakeError::InvalidProtocol),
{
}

/// A `GET` request over `HTTP` whose protocol version is not `1.1` is refused
/// with `InvalidProtocolVersion`.
pub proof fn lemma_protocol_version_checked(req: Request)
    requires
        req.method_view() == "GET"@,
        req.protocol_name_view() == "HTTP"@,
        req.protocol_version_view() != "1.1"@,
    ensures
        handshake_result(req) == Err::<Seq<u8>, HandshakeError>(
            HandshakeError::InvalidProtocolVersion,
        ),
{
}

/// A `GET` `HTTP/1.1` request without an `upgrade` header, or whose
/// lower-cased `upgrade` value lacks `websocket`, is refused with
/// `InvalidUpgrade`.
pub proof fn lemma_upgrade_checked(req: Request)
    requires
        req.method_view() == "GET"@,
        req.protocol_name_view() == "HTTP"@,
        req.protocol_version_view() == "1.1"@,
        req.header_spec("upgrade"@) is None || !is_infix(
            "websocket"@,
            lower_of(req.header_spec("upgrade"@)->0),
        ),
    ensures
        handshake_result(req) == Err::<Seq<u8>, HandshakeError>(HandshakeError::InvalidUpgrade),
{
}

/// A request that passes the checks before it, without a `connection`
/// header or whose lower-cased `connection` value lacks `upgrade`, is refused
/// with `InvalidConnection`.
pub proof fn lemma_connection_checked(req: Request)
    requires
        req.method_view() == "GET"@,
        req.protocol_name_view() == "HTTP"@,
        req.protocol_version_view() == "1.1"@,
        has_token(req.header_spec("upgrade"@), "websocket"@),
        req.header_spec("connection"@) is None || !is_infix(
            "upgrade"@,
            lower_of(req.header_spec("connection"@)->0),
        ),
    ensures
        handshake_result(req) == Err::<Seq<u8>, HandshakeError>(
            HandshakeError::InvalidConnection,
        ),
{
}

/// A request that passes the checks before it, whose `sec-websocket-key` is
/// absent, is not base64, or decodes to anything but sixteen bytes of valid
/// UTF-8, is refused with `InvalidWSKey`.
pub proof fn lemma_key_checked(req: Request)
    requires
        req.method_view() == "GET"@,
        req.protocol_name_view() == "HTTP"@,
        req.protocol_version_view() == "1.1"@,
        has_token(req.header_spec("upgrade"@), "websocket"@),
        has_token(req.header_spec("connection"@), "upgrade"@),
        ({
            let key = req.header_spec("sec-websocket-key"@);
            ||| key is None
            ||| base64_decoded(key->0) is None
            ||| base64_decoded(key->0)->0.len() != 16
            ||| !valid_utf8(base64_decoded(key->0)->0)
        }),
    ensures
        handshake_result(req) == Err::<Seq<u8>, HandshakeError>(HandshakeError::InvalidWSKey),
{
}

/// A request that passes the checks before it, whose
/// `sec-websocket-version` is absent or not `13`, is refused with
/// `InvalidWSVersion`.
pub proof fn lemma_version_checked(req: Request)
    requires
        req.method_view() == "GET"@,
        req.protocol_name_view() == "HTTP"@,
        req.protocol_version_view() == "1.1"@,
        has_token(req.header_spec("upgrade"@), "websocket"@),
        has_token(req.header_spec("connection"@), "upgrade"@),
        key_nonce(req.header_spec("sec-websocket-key"@)) is Some,
        req.header_spec("sec-websocket-version"@) != Some("13"@),
    ensures
        handshake_result(req) == Err::<Seq<u8>, HandshakeError>(
            HandshakeError::InvalidWSVersion,
        ),
{
}

/// Requests with the same fields and headers get the same outcome, and in
/// particular the same accept value.
pub proof fn lemma_deterministic(a: Request, b: Request)
    requires
        a.method_view() == b.method_view(),
        a.path_view() == b.path_view(),
        a.protocol_name_view() == b.protocol_name_view(),
        a.protocol_version_view() == b.protocol_version_view(),
        a.header_seq() == b.header_seq(),
    ensures
        handshake_result(a) == handshake_result(b),
{
}

/// The first failing check decides: a request that fails both the method
/// check and the key check is refused with `InvalidMethod`, never
/// `InvalidWSKey`.
pub proof fn lemma_first_failure_wins(req: Request)
    requires
        req.method_view() != "GET"@,
        key_nonce(req.header_spec("sec-websocket-key"@)) is None,
    ensures
        handshake_result(req) == Err::<Seq<u8>, HandshakeError>(HandshakeError::InvalidMethod),
        handshake_result(req) != Err::<Seq<u8>, HandshakeError>(HandshakeError::InvalidWSKey),
{
}

/// True when `value` is present and holds `token` once lower-cased.
fn holds_token(value: Option<&String>, token: &str) -> (r: bool)
    ensures
        r == has_token(
            match value {
                Some(v) => Some(v@),
                None => None,
            },
            token@,
        ),
{
    match value {
        Some(v) => {
            let lower = lowercase(v.as_str());
            contains(chars_of(lower.as_str()).as_slice(), chars_of(token).as_slice())
        },
        None => false,
    }
}

/// The bytes that are hashed for a nonce: the nonce, then the GUID.
pub fn accept_material(nonce: &[u8]) -> (r: Vec<u8>)
    ensures
        r@ == nonce@ + encode_utf8(ws_guid()),
{
    let guid = "258EAFA5-E914-47DA-95CA-C5AB0DC85B11".as_bytes();
    let mut material = vstd::slice::slice_to_vec(nonce);
    let mut i: usize = 0;
    while i < guid.len()
        invariant
            i <= guid@.len(),
            guid@ == encode_utf8(ws_guid()),
            material@ == nonce@ + guid@.take(i as int),
        decreases guid@.len() - i,
    {
        material.push(guid[i]);
        i = i + 1;
        assert(guid@.take(i as int) =~= guid@.take(i - 1).push(guid@[i - 1]));
    }
    assert(guid@.take(i as int) =~= guid@);
    material
}

/// The `101 Switching Protocols` response that carries `accept`.
pub fn switching_response(accept: &str) -> (r: Vec<u8>)
    ensures
        r@ == accept_response(accept@),
{
    let b0 = Builder::new().status(StatusCode::switching_protocols());
    let b1 = b0.header("upgrade", "websocket");
    let b2 = b1.header("connection", "upgrade");
    let response = b2.header("sec-websocket-accept", accept);
    proof {
        reveal_strlit("upgrade");
        reveal_strlit("connection");
        reveal_strlit("sec-websocket-accept");
        let h1 = b1.header_seq();
        let h2 = b2.header_seq();
        assert(h1 =~= seq![("upgrade"@, "websocket"@)]);
        assert("upgrade"@.len() != "connection"@.len());
        assert(h1.drop_last() =~= HeaderSeq::empty());
        assert(index_of(h1.drop_last(), "connection"@) == -1);
        assert(index_of(h1, "connection"@) == -1);
        assert(h2 =~= seq![("upgrade"@, "websocket"@), ("connection"@, "upgrade"@)]);
        assert("connection"@.len() != "sec-websocket-accept"@.len());
        assert("upgrade"@.len() != "sec-websocket-accept"@.len());
        assert(h2.drop_last() =~= h1);
        assert(index_of(h1.drop_last(), "sec-websocket-accept"@) == -1);
        assert(index_of(h1, "sec-websocket-accept"@) == -1);
        assert(index_of(h2, "sec-websocket-accept"@) == -1);
        assert(response.header_seq() =~= accept_headers(accept@));
    }
    response.build()
}

/// Validates an upgrade request and, when every check passes, returns the
/// `101 Switching Protocols` response that completes the handshake.
pub fn handshake(req: &Request) -> (r: Result<Vec<u8>, HandshakeError>)
    ensures
        match r {
            Ok(v) => handshake_result(*req) == Ok::<Seq<u8>, HandshakeError>(v@),
            Err(e) => handshake_result(*req) == Err::<Seq<u8>, HandshakeError>(e),
        },
{
    if !req.is_get() {
        return Err(HandshakeError::InvalidMethod);
    }
    if !req.is_http() {
        return Err(HandshakeError::InvalidProtocol);
    }
    if !req.meets_version("1.1") {
        return Err(HandshakeError::InvalidProtocolVersion);
    }
    if !holds_token(req.header("upgrade"), "websocket") {
        return Err(HandshakeError::InvalidUpgrade);
    }
    if !holds_token(req.header("connection"), "upgrade") {
        return Err(HandshakeError::InvalidConnection);
    }
    let key = match req.header("sec-websocket-key") {
        Some(k) => k,
        None => {
            return Err(HandshakeError::InvalidWSKey);
        },
    };
    let nonce = match standard_decode(key.as_str()) {
        Ok(b) => b,
        Err(_) => {
            return Err(HandshakeError::InvalidWSKey);
        },
    };
    if nonce.len() != 16 {
        return Err(HandshakeError::InvalidWSKey);
    }
    if utf8_string(nonce.as_slice()).is_none() {
        return Err(HandshakeError::InvalidWSKey);
    }
    let version = match req.header("sec-websocket-version") {
        Some(v) => v,
        None => {
            return Err(HandshakeError::InvalidWSVersion);
        },
    };
    if *version != "13".to_owned() {
        return Err(HandshakeError::InvalidWSVersion);
    }
    let material = accept_material(nonce.as_slice());
    let digest = sha1_digest(material.as_slice());
    let accept = standard_encode(digest.as_slice());
    Ok(switching_response(accept.as_str()))
}

} // verus!
