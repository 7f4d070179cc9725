//! Header names and values: which headers stop at a proxy, and what a value says.

use http::{HeaderMap, HeaderValue};
use vstd::prelude::*;

use crate::outside::messages::{
    header_get, header_names, header_remove, headers_of, plain_name,
};
use crate::text::{ascii_lower, same_text, text_of, to_ascii_lower};

verus! {

/// A byte that a header's value may hold to be read as text: printable ASCII, or a tab.
pub open spec fn visible_byte(b: u8) -> bool {
    32 <= b < 127 || b == 9
}

/// Whether a header's value can be read as text.
pub open spec fn visible(value: Seq<u8>) -> bool {
    forall|i: int| 0 <= i < value.len() ==> visible_byte(#[trigger] value[i])
}

/// A header's value as text.
pub open spec fn value_text(value: Seq<u8>) -> Seq<char> {
    Seq::new(value.len(), |i: int| value[i] as char)
}

/// The first value under a name.
pub open spec fn first_value(headers: Map<Seq<char>, Seq<Seq<u8>>>, name: Seq<char>) -> Option<
    Seq<u8>,
> {
    if headers.contains_key(name) && headers[name].len() > 0 {
        Some(headers[name][0])
    } else {
        None
    }
}

/// The first value under a name, as text, if it can be read as text.
pub open spec fn first_text(headers: Map<Seq<char>, Seq<Seq<u8>>>, name: Seq<char>) -> Option<
    Seq<char>,
> {
    match first_value(headers, name) {
        Some(value) => if visible(value) {
            Some(value_text(value))
        } else {
            None
        },
        None => None,
    }
}

/// Whether a header's value can be read as text.
pub fn is_visible(value: &[u8]) -> (r: bool)
    ensures
        r == visible(value@),
{
    let n: usize = value.len();
    let mut i: usize = 0;
    while i < n
        invariant
            i <= n,
            n == value@.len(),
            forall|j: int| 0 <= j < i ==> visible_byte(#[trigger] value@[j]),
        decreases n - i,
    {
        let b: u8 = value[i];
        if !((32 <= b && b < 127) || b == 9) {
            assert(!visible_byte(value@[i as int]));
            return false;
        }
        i += 1;
    }
    true
}

/// A header's value as text, if it can be read as text.
pub fn text_of_value(value: &[u8]) -> (r: Option<String>)
    ensures
        match r {
            Some(s) => visible(value@) && s@ == value_text(value@),
            None => !visible(value@),
        },
{
    if !is_visible(value) {
        return None;
    }
    let mut s = String::new();
    let n: usize = value.len();
    let mut i: usize = 0;
    while i < n
        invariant
            i <= n,
            n == value@.len(),
            s@ == value_text(value@).take(i as int),
        decreases n - i,
    {
        s.push(value[i] as char);
        i += 1;
    }
    Some(s)
}

/// The headers that concern one connection only, as a response of the tunnel is stripped of
/// them. `name` is in lower case.
pub open spec fn hop_by_hop(name: Seq<char>) -> bool {
    ||| name == "connection"@
    ||| name == "keep-alive"@
    ||| name == "proxy-authenticate"@
    ||| name == "proxy-authorization"@
    ||| name == "te"@
    ||| name == "trailers"@
    ||| name == "transfer-encoding"@
    ||| name == "upgrade"@
    ||| name == "host"@
}

/// The headers of a WebSocket handshake that are not carried through the tunnel. `name` is in
/// lower case.
pub open spec fn handshake_only(name: Seq<char>) -> bool {
    ||| name == "host"@
    ||| name == "connection"@
    ||| name == "upgrade"@
    ||| name == "sec-websocket-key"@
    ||| name == "sec-websocket-version"@
    ||| name == "content-length"@
    ||| name == "transfer-encoding"@
    ||| name == "te"@
    ||| name == "keep-alive"@
    ||| name == "proxy-authenticate"@
    ||| name == "proxy-authorization"@
    ||| name == "trailers"@
}

/// The places where headers are dropped on their way.
#[derive(Debug, Copy, Clone, PartialEq, Eq, Structural)]
pub enum Passage {
    /// A public request enters the tunnel.
    RequestIn,
    /// A public WebSocket handshake enters the tunnel.
    HandshakeIn,
    /// A request leaves the tunnel for the local service.
    RequestOut,
    /// A WebSocket handshake leaves the tunnel for the local service.
    HandshakeOut,
    /// A response of the local service enters the tunnel.
    ResponseIn,
    /// A response leaves the tunnel for the public.
    ResponseOut,
}

/// Whether a header is dropped at a passage.
pub open spec fn dropped(passage: Passage, header: Seq<char>) -> bool {
    let name = ascii_lower(header);
    match passage {
        Passage::RequestIn => {
            ||| hop_by_hop(name) && name != "trailers"@
            ||| name == "trailer"@
        },
        Passage::HandshakeIn => handshake_only(name),
        Passage::RequestOut => {
            ||| name == "host"@
            ||| name == "content-length"@
            ||| pseudo(header)
        },
        Passage::HandshakeOut => handshake_only(name) || pseudo(header),
        Passage::ResponseIn => hop_by_hop(name) && name != "host"@,
        Passage::ResponseOut => hop_by_hop(name),
    }
}

/// Whether a name is that of a pseudo-header of HTTP/2.
pub open spec fn pseudo(header: Seq<char>) -> bool {
    header.len() > 0 && header[0] == ':'
}

/// The headers that pass.
pub open spec fn passed(passage: Passage, headers: Map<Seq<char>, Seq<Seq<u8>>>) -> Map<
    Seq<char>,
    Seq<Seq<u8>>,
> {
    headers.restrict(Set::new(|name: Seq<char>| !dropped(passage, name)))
}

/// Whether a header, in any case, concerns one connection only.
pub fn is_hop_by_hop(name: &str) -> (r: bool)
    ensures
        r == hop_by_hop(ascii_lower(name@)),
{
    let cs = to_ascii_lower(name);
    let lower = text_of(&cs);
    let n = lower.as_str();
    same_text(n, "connection") || same_text(n, "keep-alive") || same_text(n, "proxy-authenticate")
        || same_text(n, "proxy-authorization") || same_text(n, "te") || same_text(n, "trailers")
        || same_text(n, "transfer-encoding") || same_text(n, "upgrade") || same_text(n, "host")
}

/// Whether a header, in any case, belongs to the handshake of a WebSocket.
pub fn is_handshake_only(name: &str) -> (r: bool)
    ensures
        r == handshake_only(ascii_lower(name@)),
{
    let cs = to_ascii_lower(name);
    let lower = text_of(&cs);
    let n = lower.as_str();
    same_text(n, "host") || same_text(n, "connection") || same_text(n, "upgrade") || same_text(
        n,
        "sec-websocket-key",
    ) || same_text(n, "sec-websocket-version") || same_text(n, "content-length") || same_text(
        n,
        "transfer-encoding",
    ) || same_text(n, "te") || same_text(n, "keep-alive") || same_text(n, "proxy-authenticate")
        || same_text(n, "proxy-authorization") || same_text(n, "trailers")
}

/// Whether a name starts with a colon.
fn is_pseudo(name: &str) -> (r: bool)
    ensures
        r == pseudo(name@),
{
    name.unicode_len() > 0 && name.get_char(0) == ':'
}

/// Whether a header, in any case, is dropped at a passage.
pub fn is_dropped(passage: Passage, name: &str) -> (r: bool)
    ensures
        r == dropped(passage, name@),
{
    let cs = to_ascii_lower(name);
    let lower = text_of(&cs);
    let n = lower.as_str();
    match passage {
        Passage::RequestIn => (is_hop_by_hop(name) && !same_text(n, "trailers")) || same_text(
            n,
            "trailer",
        ),
        Passage::HandshakeIn => is_handshake_only(name),
        Passage::RequestOut => same_text(n, "host") || same_text(n, "content-length") || is_pseudo(
            name,
        ),
        Passage::HandshakeOut => is_handshake_only(name) || is_pseudo(name),
        Passage::ResponseIn => is_hop_by_hop(name) && !same_text(n, "host"),
        Passage::ResponseOut => is_hop_by_hop(name),
    }
}

/// A header that is dropped has a plain name, unless it is a pseudo-header.
proof fn lemma_dropped_is_plain(passage: Passage, name: Seq<char>)
    requires
        dropped(passage, name),
        ascii_lower(name) == name,
        !name.contains(':'),
    ensures
        plain_name(name),
{
    if pseudo(name) {
        assert(name.contains(name[0]));
    }
    reveal_strlit("connection");
    reveal_strlit("keep-alive");
    reveal_strlit("proxy-authenticate");
    reveal_strlit("proxy-authorization");
    reveal_strlit("te");
    reveal_strlit("trailer");
    reveal_strlit("trailers");
    reveal_strlit("transfer-encoding");
    reveal_strlit("upgrade");
    reveal_strlit("host");
    reveal_strlit("content-length");
    reveal_strlit("sec-websocket-key");
    reveal_strlit("sec-websocket-version");
}

/// Drops the headers that do not pass; the others keep all their values.
pub fn pass_headers(passage: Passage, headers: &mut HeaderMap<HeaderValue>)
    ensures
        headers_of(*final(headers)) == passed(passage, headers_of(*old(headers))),
{
    let ghost all = headers_of(*headers);
    let names = header_names(headers);
    let n: usize = names.len();
    let mut i: usize = 0;
    while i < n
        invariant
            i <= n,
            n == names@.len(),
            forall|j: int|
                0 <= j < names@.len() ==> {
                    &&& ascii_lower(#[trigger] names@[j]@) == names@[j]@
                    &&& !names@[j]@.contains(':')
                },
            forall|k: Seq<char>| #[trigger]
                headers_of(*headers).contains_key(k) <==> all.contains_key(k) && !(dropped(
                    passage,
                    k,
                ) && exists|j: int| 0 <= j < i && #[trigger] names@[j]@ == k),
            forall|k: Seq<char>|
                headers_of(*headers).contains_key(k) ==> #[trigger] headers_of(*headers)[k]
                    == all[k],
        decreases n - i,
    {
        let name = names[i].as_str();
        if is_dropped(passage, name) {
            proof {
                lemma_dropped_is_plain(passage, name@);
            }
            header_remove(headers, name);
        }
        i += 1;
    }
    proof {
        assert(headers_of(*headers) =~= passed(passage, all));
    }
}

/// The first value under a name that is given in lower case.
pub(crate) fn get_value(headers: &HeaderMap<HeaderValue>, name: &str) -> (r: Option<Vec<u8>>)
    requires
        ascii_lower(name@) == name@,
        plain_name(name@),
    ensures
        match r {
            Some(v) => first_value(headers_of(*headers), name@) == Some(v@),
            None => first_value(headers_of(*headers), name@) is None,
        },
{
    header_get(headers, name)
}

/// The first value under a name that is given in lower case, if it can be read as text.
pub(crate) fn get_text(headers: &HeaderMap<HeaderValue>, name: &str) -> (r: Option<String>)
    requires
        ascii_lower(name@) == name@,
        plain_name(name@),
    ensures
        match r {
            Some(s) => first_text(headers_of(*headers), name@) == Some(s@),
            None => first_text(headers_of(*headers), name@) is None,
        },
{
    match header_get(headers, name) {
        Some(v) => text_of_value(&v),
        None => None,
    }
}

/// A value that can be read as text is plain ASCII.
pub proof fn lemma_value_text_is_ascii(headers: Map<Seq<char>, Seq<Seq<u8>>>, name: Seq<char>)
    ensures
        first_text(headers, name) matches Some(s) ==> vstd::utf8::is_ascii_chars(s),
{
    if first_text(headers, name) is Some {
        let value = first_value(headers, name)->0;
        assert forall|i: int| 0 <= i < value.len() implies '\0' <= #[trigger] value_text(value)[i]
            <= '\x7f' by {
            assert(visible_byte(value[i]));
        }
    }
}

/// No header that concerns one connection only comes out of the tunnel.
pub proof fn law_responses_carry_no_hop_by_hop(
    headers: Map<Seq<char>, Seq<Seq<u8>>>,
    name: Seq<char>,
)
    requires
        passed(Passage::ResponseOut, headers).contains_key(name),
    ensures
        !hop_by_hop(ascii_lower(name)),
{
}

/// Whatever is not dropped passes with all its values.
pub proof fn law_other_headers_pass_unchanged(
    passage: Passage,
    headers: Map<Seq<char>, Seq<Seq<u8>>>,
    name: Seq<char>,
)
    requires
        headers.contains_key(name),
        !dropped(passage, name),
    ensures
        passed(passage, headers).contains_key(name),
        passed(passage, headers)[name] == headers[name],
{
}

/// A passage leaves nothing for a second pass to drop.
pub proof fn law_passing_twice_is_passing_once(
    passage: Passage,
    headers: Map<Seq<char>, Seq<Seq<u8>>>,
)
    ensures
        passed(passage, passed(passage, headers)) == passed(passage, headers),
{
    assert(passed(passage, passed(passage, headers)) =~= passed(passage, headers));
}

/// Which bytes are text in a header's value, and what text they are: the codes from 32 to 126,
/// and the tab, each the character with that code.
pub proof fn law_visible_values(value: Seq<u8>, i: int)
    requires
        0 <= i < value.len(),
    ensures
        visible(value) <==> forall|j: int|
            0 <= j < value.len() ==> (32 <= #[trigger] value[j] <= 126 || value[j] == 9),
        value_text(value).len() == value.len(),
        value_text(value)[i] as u32 == value[i],
{
    assert(visible(value) ==> forall|j: int|
        0 <= j < value.len() ==> (32 <= #[trigger] value[j] <= 126 || value[j] == 9)) by {
        if visible(value) {
            assert forall|j: int| 0 <= j < value.len() implies (32 <= #[trigger] value[j] <= 126
                || value[j] == 9) by {
                assert(visible_byte(value[j]));
            }
        }
    }
}

/// A name's header is read from the first of its values, and from no other.
pub proof fn law_first_value_counts(headers: Map<Seq<char>, Seq<Seq<u8>>>, name: Seq<char>)
    ensures
        first_value(headers, name) is Some <==> headers.contains_key(name)
            && headers[name].len() > 0,
        first_value(headers, name) is Some ==> first_value(headers, name) == Some(
            headers[name][0],
        ),
        first_text(headers, name) is Some <==> headers.contains_key(name) && headers[name].len()
            > 0 && visible(headers[name][0]),
        first_text(headers, name) is Some ==> first_text(headers, name) == Some(
            value_text(headers[name][0]),
        ),
{
}

/// The case of a header's name does not matter to what becomes of it.
pub proof fn law_case_of_a_name_does_not_matter(passage: Passage, name: Seq<char>)
    ensures
        dropped(passage, name) == dropped(passage, ascii_lower(name)),
{
    let lower = ascii_lower(name);
    assert(ascii_lower(lower) =~= lower);
}

/// Nine headers concern one connection only, and no other does.
pub proof fn law_hop_by_hop_names(name: Seq<char>)
    ensures
        hop_by_hop(name) <==> {
            ||| name == "connection"@
            ||| name == "keep-alive"@
            ||| name == "proxy-authenticate"@
            ||| name == "proxy-authorization"@
            ||| name == "te"@
            ||| name == "trailers"@
            ||| name == "transfer-encoding"@
            ||| name == "upgrade"@
            ||| name == "host"@
        },
        handshake_only(name) <==> {
            ||| name == "host"@
            ||| name == "connection"@
            ||| name == "upgrade"@
            ||| name == "sec-websocket-key"@
            ||| name == "sec-websocket-version"@
            ||| name == "content-length"@
            ||| name == "transfer-encoding"@
            ||| name == "te"@
            ||| name == "keep-alive"@
            ||| name == "proxy-authenticate"@
            ||| name == "proxy-authorization"@
            ||| name == "trailers"@
        },
{
}

/// A public request enters the tunnel with every header but for these nine. Whatever passes keeps its values.
pub proof fn law_public_request_enters(headers: Map<Seq<char>, Seq<Seq<u8>>>, name: Seq<char>)
    requires
        ascii_lower(name) == name,
    ensures
        passed(Passage::RequestIn, headers).contains_key(name) <==> {
            &&& headers.contains_key(name)
            &&& name != "connection"@
            &&& name != "keep-alive"@
            &&& name != "proxy-authenticate"@
            &&& name != "proxy-authorization"@
            &&& name != "te"@
            &&& name != "trailer"@
            &&& name != "transfer-encoding"@
            &&& name != "upgrade"@
            &&& name != "host"@
        },
        passed(Passage::RequestIn, headers).contains_key(name) ==> passed(Passage::RequestIn, headers)[name]
            == headers[name],
{
    lemma_hop_by_hop_lengths();
}

/// A public WebSocket handshake enters the tunnel with every header but for these twelve. Whatever passes keeps its values.
pub proof fn law_public_handshake_enters(headers: Map<Seq<char>, Seq<Seq<u8>>>, name: Seq<char>)
    requires
        ascii_lower(name) == name,
    ensures
        passed(Passage::HandshakeIn, headers).contains_key(name) <==> {
            &&& headers.contains_key(name)
            &&& name != "host"@
            &&& name != "connection"@
            &&& name != "upgrade"@
            &&& name != "sec-websocket-key"@
            &&& name != "sec-websocket-version"@
            &&& name != "content-length"@
            &&& name != "transfer-encoding"@
            &&& name != "te"@
            &&& name != "keep-alive"@
            &&& name != "proxy-authenticate"@
            &&& name != "proxy-authorization"@
            &&& name != "trailers"@
        },
        passed(Passage::HandshakeIn, headers).contains_key(name) ==> passed(Passage::HandshakeIn, headers)[name]
            == headers[name],
{
}

/// A request leaves the tunnel with every header but for two, and for pseudo-headers. Whatever passes keeps its values.
pub proof fn law_request_leaves(headers: Map<Seq<char>, Seq<Seq<u8>>>, name: Seq<char>)
    requires
        ascii_lower(name) == name,
    ensures
        passed(Passage::RequestOut, headers).contains_key(name) <==> {
            &&& headers.contains_key(name)
            &&& name != "host"@
            &&& name != "content-length"@
            &&& !(name.len() > 0 && name[0] == ':')
        },
        passed(Passage::RequestOut, headers).contains_key(name) ==> passed(Passage::RequestOut, headers)[name]
            == headers[name],
{
}

/// A WebSocket handshake leaves the tunnel with every header but for these twelve, and for
/// pseudo-headers. Whatever passes keeps its values.
pub proof fn law_handshake_leaves(headers: Map<Seq<char>, Seq<Seq<u8>>>, name: Seq<char>)
    requires
        ascii_lower(name) == name,
    ensures
        passed(Passage::HandshakeOut, headers).contains_key(name) <==> {
            &&& headers.contains_key(name)
            &&& name != "host"@
            &&& name != "connection"@
            &&& name != "upgrade"@
            &&& name != "sec-websocket-key"@
            &&& name != "sec-websocket-version"@
            &&& name != "content-length"@
            &&& name != "transfer-encoding"@
            &&& name != "te"@
            &&& name != "keep-alive"@
            &&& name != "proxy-authenticate"@
            &&& name != "proxy-authorization"@
            &&& name != "trailers"@
            &&& !(name.len() > 0 && name[0] == ':')
        },
        passed(Passage::HandshakeOut, headers).contains_key(name) ==> passed(Passage::HandshakeOut, headers)[name]
            == headers[name],
{
}

/// A response enters the tunnel with every header but for these eight. Whatever passes keeps its values.
pub proof fn law_response_enters(headers: Map<Seq<char>, Seq<Seq<u8>>>, name: Seq<char>)
    requires
        ascii_lower(name) == name,
    ensures
        passed(Passage::ResponseIn, headers).contains_key(name) <==> {
            &&& headers.contains_key(name)
            &&& name != "connection"@
            &&& name != "keep-alive"@
            &&& name != "proxy-authenticate"@
            &&& name != "proxy-authorization"@
            &&& name != "te"@
            &&& name != "trailers"@
            &&& name != "transfer-encoding"@
            &&& name != "upgrade"@
        },
        passed(Passage::ResponseIn, headers).contains_key(name) ==> passed(Passage::ResponseIn, headers)[name]
            == headers[name],
{
    lemma_hop_by_hop_lengths();
}

/// A response leaves the tunnel with every header but for these nine. Whatever passes keeps its values.
pub proof fn law_response_leaves(headers: Map<Seq<char>, Seq<Seq<u8>>>, name: Seq<char>)
    requires
        ascii_lower(name) == name,
    ensures
        passed(Passage::ResponseOut, headers).contains_key(name) <==> {
            &&& headers.contains_key(name)
            &&& name != "connection"@
            &&& name != "keep-alive"@
            &&& name != "proxy-authenticate"@
            &&& name != "proxy-authorization"@
            &&& name != "te"@
            &&& name != "trailers"@
            &&& name != "transfer-encoding"@
            &&& name != "upgrade"@
            &&& name != "host"@
        },
        passed(Passage::ResponseOut, headers).contains_key(name) ==> passed(Passage::ResponseOut, headers)[name]
            == headers[name],
{
}

/// How long the names of the headers that concern one connection only are.
proof fn lemma_hop_by_hop_lengths()
    ensures
        "connection"@.len() == 10,
        "keep-alive"@.len() == 10,
        "proxy-authenticate"@.len() == 18,
        "proxy-authorization"@.len() == 19,
        "te"@.len() == 2,
        "trailers"@.len() == 8,
        "transfer-encoding"@.len() == 17,
        "upgrade"@.len() == 7,
        "host"@.len() == 4,
{
    reveal_strlit("connection");
    reveal_strlit("keep-alive");
    reveal_strlit("proxy-authenticate");
    reveal_strlit("proxy-authorization");
    reveal_strlit("te");
    reveal_strlit("trailers");
    reveal_strlit("transfer-encoding");
    reveal_strlit("upgrade");
    reveal_strlit("host");
}

} // verus!
