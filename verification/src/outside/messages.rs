//! Heads of HTTP messages: header maps and URIs of the `http` crate.

use http::{HeaderMap, HeaderValue};
use vstd::prelude::*;

use crate::text::ascii_lower;

verus! {

/// `http::HeaderMap`, a multimap from header names to values.
#[verifier::external_type_specification]
#[verifier::external_body]
#[verifier::reject_recursive_types(T)]
pub struct ExHeaderMap<T>(HeaderMap<T>);

/// `http::HeaderValue`, the bytes of one header.
#[verifier::external_type_specification]
#[verifier::external_body]
pub struct ExHeaderValue(HeaderValue);

/// The headers of a map: for each of its names, in lower case, the name's values in order.
pub uninterp spec fn headers_of(m: HeaderMap<HeaderValue>) -> Map<Seq<char>, Seq<Seq<u8>>>;

/// Whether a text is a URI.
pub uninterp spec fn uri_parses(s: Seq<char>) -> bool;

/// Whether a name is made of ASCII letters, digits and hyphens only.
pub open spec fn plain_name(name: Seq<char>) -> bool {
    forall|i: int| 0 <= i < name.len() ==> plain_char(#[trigger] name[i])
}

/// Whether a character is an ASCII letter, a digit or a hyphen.
pub open spec fn plain_char(c: char) -> bool {
    ||| 'a' <= c <= 'z'
    ||| 'A' <= c <= 'Z'
    ||| '0' <= c <= '9'
    ||| c == '-'
}

/// `HeaderMap::get`: the bytes of the first value under the name, in whatever case the name
/// is given. A map can hold names with a character, such as a double quote, by which they are
/// not found when they are given as text; so nothing is asked for but plain names.
#[verifier::external_body]
pub(crate) fn header_get(m: &HeaderMap<HeaderValue>, name: &str) -> (r: Option<Vec<u8>>)
    requires
        plain_name(name@),
    ensures
        match r {
            Some(v) => {
                &&& headers_of(*m).contains_key(ascii_lower(name@))
                &&& headers_of(*m)[ascii_lower(name@)].len() > 0
                &&& v@ == headers_of(*m)[ascii_lower(name@)][0]
            },
            None => !headers_of(*m).contains_key(ascii_lower(name@)),
        },
{
    m.get(name).map(|v| v.as_bytes().to_vec())
}

/// `HeaderMap::remove`: drops every value under the name, in whatever case the name is given.
/// It finds names as `HeaderMap::get` does, so nothing is removed but plain names.
#[verifier::external_body]
pub(crate) fn header_remove(m: &mut HeaderMap<HeaderValue>, name: &str)
    requires
        plain_name(name@),
    ensures
        headers_of(*final(m)) == headers_of(*old(m)).remove(ascii_lower(name@)),
{
    m.remove(name);
}

/// `HeaderMap::keys`: each name of the map, in lower case, in an order of the map's own. No name
/// holds a colon.
#[verifier::external_body]
pub(crate) fn header_names(m: &HeaderMap<HeaderValue>) -> (r: Vec<String>)
    ensures
        forall|i: int|
            0 <= i < r@.len() ==> {
                &&& headers_of(*m).contains_key(#[trigger] r@[i]@)
                &&& ascii_lower(r@[i]@) == r@[i]@
                &&& !r@[i]@.contains(':')
            },
        forall|k: Seq<char>| #[trigger]
            headers_of(*m).contains_key(k) ==> exists|i: int|
                0 <= i < r@.len() && #[trigger] r@[i]@ == k,
{
    m.keys().map(|k| k.as_str().to_string()).collect()
}

/// `Uri::from_str`: whether the text is a URI.
#[verifier::external_body]
pub(crate) fn is_uri(s: &str) -> (r: bool)
    ensures
        r == uri_parses(s@),
{
    s.parse::<http::Uri>().is_ok()
}

} // verus!
