//! The handshake of a WebSocket (RFC 6455), as far as a proxy takes part in it.

use http::{HeaderMap, HeaderValue};
use vstd::prelude::*;
use vstd::utf8::encode_utf8;

use crate::headers::{first_text, get_text};
use crate::outside::digests::{base64_encode, base64_of, sha1_digest, sha1_of};
use crate::outside::messages::headers_of;
use crate::outside::random::random_bytes;
use crate::text::{
    ascii_lower, chars_of, first_from, lemma_first_from, pieces, same_ignoring_case, same_text,
    split_on, text_of, trim, trimmed, views,
};

verus! {

/// What a key is followed by when its answer is computed.
pub const WS_GUID: &'static str = "258EAFA5-E914-47DA-95CA-C5AB0DC85B11";

/// What a key and the fixed text after it amount to as bytes.
pub open spec fn challenge(key: Seq<char>) -> Seq<u8> {
    encode_utf8(key) + encode_utf8(WS_GUID@)
}

/// The answer to a key.
pub open spec fn accept_of(key: Seq<char>) -> Seq<char> {
    base64_of(sha1_of(challenge(key)))
}

/// Whether one of the tokens of a comma-separated list is `upgrade`, in any case.
pub open spec fn lists_upgrade(connection: Seq<char>) -> bool {
    exists|i: int|
        0 <= i < split_on(connection, ',').len() && ascii_lower(
            trim(#[trigger] split_on(connection, ',')[i]),
        ) == "upgrade"@
}

/// Whether a request asks to go on as a WebSocket.
pub open spec fn asks_for_websocket(
    method: Seq<char>,
    headers: Map<Seq<char>, Seq<Seq<u8>>>,
) -> bool {
    &&& method == "GET"@
    &&& first_text(headers, "upgrade"@) matches Some(upgrade) && ascii_lower(upgrade)
        == "websocket"@
    &&& first_text(headers, "connection"@) matches Some(connection) && lists_upgrade(connection)
}

/// Whether a stream of the tunnel carries a WebSocket.
pub open spec fn carries_websocket(method: Seq<char>, protocol: Option<Seq<char>>) -> bool {
    &&& method == "CONNECT"@
    &&& protocol matches Some(p) && ascii_lower(p) == "websocket"@
}

/// The bytes that a key is hashed as.
pub fn challenge_bytes(key: &str) -> (r: Vec<u8>)
    ensures
        r@ == challenge(key@),
{
    let mut bytes = vstd::slice::slice_to_vec(key.as_bytes());
    bytes.extend_from_slice(WS_GUID.as_bytes());
    proof {
        assert(bytes@ =~= challenge(key@));
    }
    bytes
}

/// The answer to the key of a handshake.
pub fn ws_accept(key: &str) -> (r: String)
    ensures
        r@ == accept_of(key@),
{
    let bytes = challenge_bytes(key);
    let digest = sha1_digest(&bytes);
    base64_encode(&digest)
}

/// The key that sixteen bytes make.
pub fn ws_key_of(bytes: [u8; 16]) -> (r: String)
    ensures
        r@ == base64_of(bytes@),
{
    base64_encode(&bytes)
}

/// A key of sixteen random bytes.
pub fn new_ws_key() -> (r: String)
    ensures
        exists|bytes: [u8; 16]| r@ == base64_of(#[trigger] bytes@),
{
    ws_key_of(random_bytes())
}

/// Whether one of the tokens of a comma-separated list is `upgrade`, in any case.
pub fn names_upgrade(connection: &str) -> (r: bool)
    ensures
        r == lists_upgrade(connection@),
{
    proof {
        reveal_strlit("upgrade");
        assert(ascii_lower("upgrade"@) =~= "upgrade"@);
    }
    let cs = chars_of(connection);
    let tokens = pieces(&cs, ',');
    let n: usize = tokens.len();
    let mut i: usize = 0;
    while i < n
        invariant
            i <= n,
            n == tokens@.len(),
            views(tokens@) == split_on(connection@, ','),
            ascii_lower("upgrade"@) == "upgrade"@,
            forall|j: int|
                0 <= j < i ==> ascii_lower(trim(#[trigger] split_on(connection@, ',')[j]))
                    != "upgrade"@,
        decreases n - i,
    {
        let token = text_of(trimmed(&tokens[i]));
        proof {
            assert(views(tokens@)[i as int] == tokens@[i as int]@);
        }
        if same_ignoring_case(token.as_str(), "upgrade") {
            return true;
        }
        i += 1;
    }
    false
}

/// Whether a request asks to go on as a WebSocket.
pub fn is_ws_upgrade(method: &str, headers: &HeaderMap<HeaderValue>) -> (r: bool)
    ensures
        r == asks_for_websocket(method@, headers_of(*headers)),
{
    proof {
        reveal_strlit("upgrade");
        reveal_strlit("connection");
        reveal_strlit("websocket");
        assert(ascii_lower("upgrade"@) =~= "upgrade"@);
        assert(ascii_lower("connection"@) =~= "connection"@);
        assert(ascii_lower("websocket"@) =~= "websocket"@);
    }
    if !same_text(method, "GET") {
        return false;
    }
    match get_text(headers, "upgrade") {
        Some(upgrade) => {
            if !same_ignoring_case(upgrade.as_str(), "websocket") {
                return false;
            }
        },
        None => {
            return false;
        },
    }
    match get_text(headers, "connection") {
        Some(connection) => names_upgrade(connection.as_str()),
        None => false,
    }
}

/// Whether a stream of the tunnel carries a WebSocket.
pub fn handle_request(method: &str, protocol: Option<&str>) -> (r: bool)
    ensures
        r == carries_websocket(
            method@,
            match protocol {
                Some(p) => Some(p@),
                None => None,
            },
        ),
{
    proof {
        reveal_strlit("websocket");
        assert(ascii_lower("websocket"@) =~= "websocket"@);
    }
    same_text(method, "CONNECT") && match protocol {
        Some(p) => same_ignoring_case(p, "websocket"),
        None => false,
    }
}

/// A key is answered with the base64 form of the SHA-1 digest of its bytes and those of the
/// fixed text.
pub proof fn law_key_is_answered(key: Seq<char>)
    ensures
        accept_of(key) == base64_of(
            sha1_of(encode_utf8(key) + encode_utf8("258EAFA5-E914-47DA-95CA-C5AB0DC85B11"@)),
        ),
        challenge(key) == encode_utf8(key) + encode_utf8("258EAFA5-E914-47DA-95CA-C5AB0DC85B11"@),
{
}

/// A token without commas is `upgrade` in any case, with white space around it or not. A list is
/// looked through token by token.
pub proof fn law_every_token_is_looked_at(token: Seq<char>, rest: Seq<char>)
    requires
        !token.contains(','),
    ensures
        lists_upgrade(token) <==> ascii_lower(trim(token)) == "upgrade"@,
        lists_upgrade(token + seq![','] + rest) <==> ascii_lower(trim(token)) == "upgrade"@
            || lists_upgrade(rest),
{
    let whole = token + seq![','] + rest;
    lemma_first_from(token, ',', 0);
    lemma_first_from(whole, ',', 0);
    let at = first_from(whole, ',', 0);
    assert(whole[token.len() as int] == ',');
    if at < token.len() {
        assert(whole[at] == token[at]);
        assert(token.contains(token[at]));
    }
    if first_from(token, ',', 0) < token.len() {
        assert(token.contains(token[first_from(token, ',', 0)]));
    }
    assert(split_on(token, ',') == seq![token]);
    assert(whole.take(at) =~= token);
    assert(whole.skip(at + 1) =~= rest);
    let tokens = split_on(whole, ',');
    let others = split_on(rest, ',');
    assert(tokens == seq![token] + others);
    assert(tokens[0] == token);
    assert(split_on(token, ',')[0] == token);
    if lists_upgrade(rest) {
        let i = choose|i: int|
            0 <= i < others.len() && ascii_lower(trim(#[trigger] others[i])) == "upgrade"@;
        assert(tokens[i + 1] == others[i]);
    }
    if lists_upgrade(whole) {
        let i = choose|i: int|
            0 <= i < tokens.len() && ascii_lower(trim(#[trigger] tokens[i])) == "upgrade"@;
        if i > 0 {
            assert(tokens[i] == others[i - 1]);
        }
    }
}

/// A request asks for a WebSocket exactly if it is a `GET` whose `upgrade` is `websocket`, in any
/// case, and whose `connection` lists `upgrade`. A stream carries one exactly if it is a `CONNECT`
/// whose protocol is `websocket`, in any case.
pub proof fn law_websocket_requests(
    method: Seq<char>,
    headers: Map<Seq<char>, Seq<Seq<u8>>>,
    protocol: Option<Seq<char>>,
)
    ensures
        asks_for_websocket(method, headers) <==> {
            &&& method == "GET"@
            &&& first_text(headers, "upgrade"@) is Some
            &&& ascii_lower(first_text(headers, "upgrade"@)->0) == "websocket"@
            &&& first_text(headers, "connection"@) is Some
            &&& lists_upgrade(first_text(headers, "connection"@)->0)
        },
        carries_websocket(method, protocol) <==> {
            &&& method == "CONNECT"@
            &&& protocol is Some
            &&& ascii_lower(protocol->0) == "websocket"@
        },
{
}

} // verus!
