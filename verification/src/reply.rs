//! Answers that the server gives itself.

use vstd::prelude::*;

verus! {

/// An answer: its status, the headers set on it, and its text.
pub struct Reply {
    pub status: u16,
    pub headers: Vec<(String, String)>,
    /// The text, or nothing where the answer is the status alone.
    pub body: Option<String>,
}

/// [`Reply`] over plain texts.
#[verifier::ext_equal]
pub struct ReplyView {
    pub status: u16,
    pub headers: Seq<(Seq<char>, Seq<char>)>,
    pub body: Option<Seq<char>>,
}

/// The texts of a list of pairs.
pub open spec fn pairs(v: Seq<(String, String)>) -> Seq<(Seq<char>, Seq<char>)> {
    Seq::new(v.len(), |i: int| (v[i].0@, v[i].1@))
}

impl View for Reply {
    type V = ReplyView;

    open spec fn view(&self) -> ReplyView {
        ReplyView {
            status: self.status,
            headers: pairs(self.headers@),
            body: match self.body {
                Some(s) => Some(s@),
                None => None,
            },
        }
    }
}

/// An answer that is a status and a text.
pub open spec fn text_reply(status: u16, body: Seq<char>) -> ReplyView {
    ReplyView { status, headers: Seq::empty(), body: Some(body) }
}

/// An answer that is a status alone.
pub open spec fn bare_reply(status: u16) -> ReplyView {
    ReplyView { status, headers: Seq::empty(), body: None }
}

/// The answer to a request that leads nowhere. A request without the right token gets the
/// same.
pub open spec fn not_found() -> ReplyView {
    text_reply(404, "Not Found"@)
}

/// The answer where the tunnel has no client, or its client fails.
pub open spec fn bad_gateway() -> ReplyView {
    text_reply(502, "Bad Gateway"@)
}

/// The answer where the tunnel's client takes too long.
pub open spec fn gateway_timeout() -> ReplyView {
    text_reply(504, "Gateway Timeout"@)
}

impl Reply {
    /// An answer that is a status and a text.
    pub fn text(status: u16, body: &str) -> (r: Reply)
        ensures
            r@ == text_reply(status, body@),
    {
        Reply { status, headers: Vec::new(), body: Some(body.to_owned()) }
    }

    /// An answer that is a status alone.
    pub fn bare(status: u16) -> (r: Reply)
        ensures
            r@ == bare_reply(status),
    {
        Reply { status, headers: Vec::new(), body: None }
    }
}

/// The answer to a liveness probe.
pub fn health() -> (r: Reply)
    ensures
        r@ == text_reply(200, "ok"@),
{
    Reply::text(200, "ok")
}

/// The answer to a request that leads nowhere.
pub fn generic_404() -> (r: Reply)
    ensures
        r@ == not_found(),
{
    Reply::text(404, "Not Found")
}

/// The answer where a tunnel cannot be reached through.
pub fn generic_502() -> (r: Reply)
    ensures
        r@ == bad_gateway(),
{
    Reply::text(502, "Bad Gateway")
}

/// The answer where a tunnel takes too long.
pub fn generic_504() -> (r: Reply)
    ensures
        r@ == gateway_timeout(),
{
    Reply::text(504, "Gateway Timeout")
}

/// The answer to a request without the right token: as if nothing were there.
pub fn unauth_as_404() -> (r: Reply)
    ensures
        r@ == not_found(),
{
    generic_404()
}

/// An answer is what it was made of, whatever its status and its text.
pub proof fn law_answers_are_what_they_say(
    status: u16,
    body: Seq<char>,
    headers: Seq<(String, String)>,
    i: int,
)
    ensures
        text_reply(status, body).status == status,
        text_reply(status, body).headers.len() == 0,
        text_reply(status, body).body == Some(body),
        bare_reply(status).status == status,
        bare_reply(status).headers.len() == 0,
        bare_reply(status).body is None,
        pairs(headers).len() == headers.len(),
        0 <= i < headers.len() ==> pairs(headers)[i] == (headers[i].0@, headers[i].1@),
{
}

/// The server's own answers: their statuses and texts.
pub proof fn law_own_answers()
    ensures
        not_found().status == 404 && not_found().body == Some("Not Found"@),
        bad_gateway().status == 502 && bad_gateway().body == Some("Bad Gateway"@),
        gateway_timeout().status == 504 && gateway_timeout().body == Some("Gateway Timeout"@),
{
}

/// Answers are seen by contracts as they are.
pub proof fn law_answers_are_seen_whole(r: Reply)
    ensures
        r@.status == r.status,
        r@.headers == pairs(r.headers@),
        r@.body is Some <==> r.body is Some,
        r.body is Some ==> r@.body == Some(r.body->0@),
{
}

} // verus!
