//! Where a public request goes, by the host it is addressed to.

use vstd::prelude::*;

use crate::text::{chars_of, first_from, first_index, lemma_first_from, same_chars, same_text, text_of};

verus! {

/// Where a request goes.
pub enum HostRoute {
    /// To the server itself.
    Apex,
    /// To the tunnel with this subdomain.
    Proxy(String),
    /// Nowhere.
    NotFound,
}

/// [`HostRoute`] over plain text.
pub enum HostRouteView {
    Apex,
    Proxy(Seq<char>),
    NotFound,
}

impl View for HostRoute {
    type V = HostRouteView;

    open spec fn view(&self) -> HostRouteView {
        match *self {
            HostRoute::Apex => HostRouteView::Apex,
            HostRoute::Proxy(sub) => HostRouteView::Proxy(sub@),
            HostRoute::NotFound => HostRouteView::NotFound,
        }
    }
}

/// Which part of the server a request is for.
pub enum Dispatch {
    /// The server's own paths.
    Control,
    /// The tunnel with this subdomain.
    Tunnel(String),
    /// None of it: the answer is that nothing is there.
    NotFound,
}

/// [`Dispatch`] over plain text.
pub enum DispatchView {
    Control,
    Tunnel(Seq<char>),
    NotFound,
}

impl View for Dispatch {
    type V = DispatchView;

    open spec fn view(&self) -> DispatchView {
        match *self {
            Dispatch::Control => DispatchView::Control,
            Dispatch::Tunnel(sub) => DispatchView::Tunnel(sub@),
            Dispatch::NotFound => DispatchView::NotFound,
        }
    }
}

/// Which part of the server a request is for. The server's own paths are found at the apex, and
/// whatever is addressed to a tunnel's host goes through the tunnel; but every host answers the
/// liveness probe.
pub open spec fn dispatched(path: Seq<char>, route: HostRouteView) -> DispatchView {
    if path == "/health"@ {
        DispatchView::Control
    } else {
        match route {
            HostRouteView::Apex => DispatchView::Control,
            HostRouteView::Proxy(sub) => DispatchView::Tunnel(sub),
            HostRouteView::NotFound => DispatchView::NotFound,
        }
    }
}

/// Which part of the server a request for `path` is for, once its host is looked at.
pub fn dispatch(path: &str, route: HostRoute) -> (r: Dispatch)
    ensures
        r@ == dispatched(path@, route@),
{
    if same_text(path, "/health") {
        return Dispatch::Control;
    }
    match route {
        HostRoute::Apex => Dispatch::Control,
        HostRoute::Proxy(sub) => Dispatch::Tunnel(sub),
        HostRoute::NotFound => Dispatch::NotFound,
    }
}

/// Where a request for `host` goes when `domain` is the apex, both in lower case: a single
/// label in front of the apex is a subdomain.
pub open spec fn host_route(host: Seq<char>, domain: Seq<char>) -> HostRouteView {
    let suffix = seq!['.'] + domain;
    let sub = host.take(host.len() - suffix.len());
    if host == domain {
        HostRouteView::Apex
    } else if suffix.is_suffix_of(host) && sub.len() > 0 && !sub.contains('.') {
        HostRouteView::Proxy(sub)
    } else {
        HostRouteView::NotFound
    }
}

/// Where a request for `host` goes when `domain` is the apex, both in lower case.
pub fn route_host(host: &str, domain: &str) -> (r: HostRoute)
    ensures
        r@ == host_route(host@, domain@),
{
    let h = chars_of(host);
    let d = chars_of(domain);
    let ghost suffix = seq!['.'] + domain@;
    if same_chars(&h, &d) {
        return HostRoute::Apex;
    }
    if h.len() <= d.len() {
        return HostRoute::NotFound;
    }
    let at: usize = h.len() - d.len() - 1;
    let tail = vstd::slice::slice_subrange(&h, at + 1, h.len());
    proof {
        let end = host@.subrange(at as int, host@.len() as int);
        assert(suffix.len() == domain@.len() + 1);
        if suffix.is_suffix_of(host@) {
            assert(end == suffix);
            assert(end[0] == '.');
            assert(tail@ =~= end.skip(1));
            assert(domain@ =~= suffix.skip(1));
        }
        if host@[at as int] == '.' && tail@ == domain@ {
            assert(end =~= suffix);
        }
    }
    if h[at] != '.' || !same_chars(tail, &d) {
        return HostRoute::NotFound;
    }
    let sub = vstd::slice::slice_subrange(&h, 0, at);
    proof {
        assert(sub@ =~= host@.take(at as int));
        lemma_first_from(sub@, '.', 0);
    }
    if sub.len() == 0 || first_index(sub, '.', 0) < sub.len() {
        HostRoute::NotFound
    } else {
        HostRoute::Proxy(text_of(sub))
    }
}

/// A request for a label in front of the apex goes to the tunnel with that label.
pub proof fn law_label_leads_to_its_tunnel(sub: Seq<char>, domain: Seq<char>)
    requires
        sub.len() > 0,
        !sub.contains('.'),
    ensures
        host_route(sub + (seq!['.'] + domain), domain) == HostRouteView::Proxy(sub),
{
    let suffix = seq!['.'] + domain;
    let host = sub + suffix;
    assert(host.take(host.len() - suffix.len()) =~= sub);
    assert(suffix =~= host.subrange(host.len() - suffix.len(), host.len() as int));
}

/// Every host answers the liveness probe. Every other path of a tunnel's host goes through the
/// tunnel, every other path of the apex is the server's own, and no other host has any.
pub proof fn law_paths_belong_to_their_host(host: Seq<char>, domain: Seq<char>, path: Seq<char>)
    ensures
        dispatched("/health"@, host_route(host, domain)) == DispatchView::Control,
        path != "/health"@ ==> {
            &&& dispatched(path, host_route(host, domain)) == DispatchView::Control <==> host
                == domain
            &&& host_route(host, domain) matches HostRouteView::Proxy(sub) ==> dispatched(
                path,
                host_route(host, domain),
            ) == DispatchView::Tunnel(sub)
            &&& dispatched(path, host_route(host, domain)) == DispatchView::NotFound <==> host_route(
                host,
                domain,
            ) == HostRouteView::NotFound
        },
{
}

/// A request for the apex itself goes to no tunnel.
pub proof fn law_apex_is_no_tunnel(domain: Seq<char>)
    ensures
        host_route(domain, domain) == HostRouteView::Apex,
{
}

/// Two hosts never lead to one tunnel, and a tunnel's label is never empty and has no dot.
pub proof fn law_tunnel_has_one_host(host: Seq<char>, domain: Seq<char>, sub: Seq<char>)
    requires
        host_route(host, domain) == HostRouteView::Proxy(sub),
    ensures
        host == sub + (seq!['.'] + domain),
        sub.len() > 0,
        !sub.contains('.'),
{
    let suffix = seq!['.'] + domain;
    assert(host =~= sub + suffix);
}

/// Routes and parts of the server are seen by contracts as they are.
pub proof fn law_routes_are_seen_whole(r: HostRoute, d: Dispatch)
    ensures
        match r {
            HostRoute::Apex => r@ is Apex,
            HostRoute::Proxy(sub) => r@ == HostRouteView::Proxy(sub@),
            HostRoute::NotFound => r@ is NotFound,
        },
        match d {
            Dispatch::Control => d@ is Control,
            Dispatch::Tunnel(sub) => d@ == DispatchView::Tunnel(sub@),
            Dispatch::NotFound => d@ is NotFound,
        },
{
}

} // verus!
