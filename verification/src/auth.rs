//! Who may use the control plane: the bearer token and the secret it is held against.

use http::{HeaderMap, HeaderValue};
use vstd::prelude::*;
use vstd::utf8::encode_utf8;

use crate::headers::{first_value, is_visible, law_visible_values, visible};
use crate::outside::messages::{header_get, headers_of};
use crate::text::ascii_lower;

verus! {

/// The fewest characters that a secret has.
pub const MIN_SECRET_CHARS: usize = 16;

/// What a bearer token is introduced with: `Bearer` and a space.
pub const BEARER: [u8; 7] = [0x42, 0x65, 0x61, 0x72, 0x65, 0x72, 0x20];

/// A secret with fewer than [`MIN_SECRET_CHARS`] characters.
#[derive(Debug, Copy, Clone, PartialEq, Eq, Structural)]
pub struct SecretTooShort;

/// Whether a header's value presents the secret as a bearer token.
pub open spec fn presents(value: Seq<u8>, secret: Seq<char>) -> bool {
    &&& visible(value)
    &&& value.len() >= 7
    &&& value.take(7) == BEARER@
    &&& value.skip(7) == encode_utf8(secret)
}

/// Whether a request with these headers may use the control plane.
pub open spec fn authorized(headers: Map<Seq<char>, Seq<Seq<u8>>>, secret: Seq<char>) -> bool {
    match first_value(headers, "authorization"@) {
        Some(value) => presents(value, secret),
        None => false,
    }
}

/// Whether `secret` is long enough to serve with.
pub fn check_secret(secret: &str) -> (r: Result<(), SecretTooShort>)
    ensures
        r is Ok <==> secret@.len() >= MIN_SECRET_CHARS,
{
    if secret.unicode_len() < MIN_SECRET_CHARS {
        Err(SecretTooShort)
    } else {
        Ok(())
    }
}

/// Whether two byte strings are the same. All of their bytes are looked at, wherever they
/// differ.
pub fn constant_time_eq(a: &[u8], b: &[u8]) -> (r: bool)
    ensures
        r == (a@ == b@),
{
    if a.len() != b.len() {
        return false;
    }
    let n: usize = a.len();
    let mut diff: u8 = 0;
    let mut i: usize = 0;
    proof {
        assert(a@.take(0) =~= b@.take(0));
    }
    while i < n
        invariant
            i <= n,
            n == a@.len(),
            n == b@.len(),
            diff == 0 <==> a@.take(i as int) == b@.take(i as int),
        decreases n - i,
    {
        let x: u8 = a[i];
        let y: u8 = b[i];
        proof {
            assert((diff | (x ^ y)) == 0 <==> diff == 0 && x == y) by (bit_vector);
            assert(a@.take(i + 1).drop_last() =~= a@.take(i as int));
            assert(b@.take(i + 1).drop_last() =~= b@.take(i as int));
            assert(a@.take(i + 1) =~= a@.take(i as int).push(x));
            assert(b@.take(i + 1) =~= b@.take(i as int).push(y));
            if a@.take(i + 1) == b@.take(i + 1) {
                assert(a@.take(i + 1).last() == b@.take(i + 1).last());
            }
        }
        diff = diff | (x ^ y);
        i += 1;
    }
    proof {
        assert(a@.take(n as int) =~= a@);
        assert(b@.take(n as int) =~= b@);
    }
    diff == 0
}

/// Whether a header's value presents the secret as a bearer token.
pub fn presents_secret(value: &[u8], secret: &str) -> (r: bool)
    ensures
        r == presents(value@, secret@),
{
    if !is_visible(value) || value.len() < 7 {
        return false;
    }
    let prefix = vstd::slice::slice_subrange(value, 0, 7);
    let token = vstd::slice::slice_subrange(value, 7, value.len());
    proof {
        assert(prefix@ =~= value@.take(7));
        assert(token@ =~= value@.skip(7));
    }
    constant_time_eq(prefix, &BEARER) && constant_time_eq(token, secret.as_bytes())
}

/// Whether a request with these headers may use the control plane.
pub fn check_auth(headers: &HeaderMap<HeaderValue>, secret: &str) -> (r: bool)
    ensures
        r == authorized(headers_of(*headers), secret@),
{
    proof {
        reveal_strlit("authorization");
        assert(ascii_lower("authorization"@) =~= "authorization"@);
    }
    match header_get(headers, "authorization") {
        Some(value) => presents_secret(&value, secret),
        None => false,
    }
}

/// A request that presents the secret itself is let in, if the secret can stand in a header;
/// one that presents another is not.
pub proof fn law_only_the_secret_opens(secret: Seq<char>, other: Seq<char>)
    requires
        other == secret ==> visible(encode_utf8(secret)),
    ensures
        presents(BEARER@ + encode_utf8(other), secret) <==> other == secret,
{
    let value = BEARER@ + encode_utf8(other);
    assert(value.take(7) =~= BEARER@);
    assert(value.skip(7) =~= encode_utf8(other));
    if other == secret {
        assert(visible(value));
    }
    vstd::utf8::encode_utf8_decode_utf8(secret);
    vstd::utf8::encode_utf8_decode_utf8(other);
}

/// A header's value presents the secret exactly if it is `Bearer`, a space and the secret's UTF-8
/// bytes, and can be read as text.
pub proof fn law_bearer_token(value: Seq<u8>, secret: Seq<char>)
    ensures
        presents(value, secret) <==> {
            &&& value == seq![0x42u8, 0x65, 0x61, 0x72, 0x65, 0x72, 0x20] + encode_utf8(secret)
            &&& forall|i: int|
                0 <= i < value.len() ==> (32 <= #[trigger] value[i] <= 126 || value[i] == 9)
        },
{
    let bearer = seq![0x42u8, 0x65, 0x61, 0x72, 0x65, 0x72, 0x20];
    assert(BEARER@ =~= bearer);
    if value.len() > 0 {
        law_visible_values(value, 0);
    }
    if value.len() >= 7 {
        assert(value =~= value.take(7) + value.skip(7));
    }
    if value == bearer + encode_utf8(secret) {
        assert(value.take(7) =~= bearer);
        assert(value.skip(7) =~= encode_utf8(secret));
    }
}

/// A request may use the control plane exactly if the first of its `authorization` headers
/// presents the secret; nothing else about it counts.
pub proof fn law_authorization_decides(headers: Map<Seq<char>, Seq<Seq<u8>>>, secret: Seq<char>)
    ensures
        authorized(headers, secret) <==> {
            &&& headers.contains_key("authorization"@)
            &&& headers["authorization"@].len() > 0
            &&& presents(headers["authorization"@][0], secret)
        },
{
}

} // verus!
