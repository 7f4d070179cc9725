//! The server's two tables, kept in `dashmap::DashMap`.
//!
//! A `DashMap` can be changed through a shared reference. The wrappers that change one ask
//! for an exclusive reference, so that no other thread can come between.

use dashmap::DashMap;
use vstd::prelude::*;

use crate::proto::TunnelId;
use crate::state::TunnelHandle;

verus! {

/// `dashmap::DashMap`, a hash map that can be shared between threads.
#[verifier::external_type_specification]
#[verifier::external_body]
#[verifier::reject_recursive_types(K)]
#[verifier::reject_recursive_types(V)]
#[verifier::reject_recursive_types(S)]
pub struct ExDashMap<K, V, S>(DashMap<K, V, S>);

/// What the table of tunnels holds under each subdomain.
pub uninterp spec fn tunnels_of(m: DashMap<String, TunnelHandle>) -> Map<Seq<char>, TunnelHandle>;

/// Which subdomain the table of ids holds under each id.
pub uninterp spec fn ids_of(m: DashMap<TunnelId, String>) -> Map<Seq<u8>, Seq<char>>;

/// `DashMap::new`: a table of tunnels without entries.
#[verifier::external_body]
pub(crate) fn tunnels_new() -> (r: DashMap<String, TunnelHandle>)
    ensures
        (tunnels_of(r) == Map::<Seq<char>, TunnelHandle>::empty()),
{
    DashMap::new()
}

/// `DashMap::get`: a copy of the entry under the key.
#[verifier::external_body]
pub(crate) fn tunnels_get(m: &DashMap<String, TunnelHandle>, sub: &str) -> (r: Option<TunnelHandle>)
    ensures
        r == if tunnels_of(*m).contains_key(sub@) {
            Some(tunnels_of(*m)[sub@])
        } else {
            None
        },
{
    m.get(sub).map(|e| *e.value())
}

/// `DashMap::insert`: the entry under the key is set, or replaced.
#[verifier::external_body]
pub(crate) fn tunnels_insert(
    m: &mut DashMap<String, TunnelHandle>,
    sub: String,
    handle: TunnelHandle,
)
    ensures
        tunnels_of(*final(m)) == tunnels_of(*old(m)).insert(sub@, handle),
{
    m.insert(sub, handle);
}

/// `DashMap::remove`: the entry under the key is taken out and handed back.
#[verifier::external_body]
pub(crate) fn tunnels_remove(m: &mut DashMap<String, TunnelHandle>, sub: &str) -> (r: Option<
    TunnelHandle,
>)
    ensures
        tunnels_of(*final(m)) == tunnels_of(*old(m)).remove(sub@),
        r == if tunnels_of(*old(m)).contains_key(sub@) {
            Some(tunnels_of(*old(m))[sub@])
        } else {
            None
        },
{
    m.remove(sub).map(|e| e.1)
}

/// `DashMap::len`: the number of entries.
#[verifier::external_body]
pub(crate) fn tunnels_len(m: &DashMap<String, TunnelHandle>) -> (n: usize)
    ensures
        n == tunnels_of(*m).dom().len(),
{
    m.len()
}

/// `DashMap::iter`: a copy of each entry once, in an order of the map's own.
#[verifier::external_body]
pub(crate) fn tunnels_entries(m: &DashMap<String, TunnelHandle>) -> (r: Vec<(String, TunnelHandle)>)
    ensures
        forall|i: int|
            0 <= i < r@.len() ==> {
                &&& tunnels_of(*m).contains_key((#[trigger] r@[i]).0@)
                &&& tunnels_of(*m)[r@[i].0@] == r@[i].1
            },
        forall|k: Seq<char>| #[trigger]
            tunnels_of(*m).contains_key(k) ==> exists|i: int|
                0 <= i < r@.len() && (#[trigger] r@[i]).0@ == k,
        forall|i: int, j: int|
            0 <= i < r@.len() && 0 <= j < r@.len() && i != j ==> (#[trigger] r@[i]).0@ != (
            #[trigger] r@[j]).0@,
{
    m.iter().map(|e| (e.key().clone(), *e.value())).collect()
}

/// `DashMap::new`: a table of ids without entries.
#[verifier::external_body]
pub(crate) fn ids_new() -> (r: DashMap<TunnelId, String>)
    ensures
        (ids_of(r) == Map::<Seq<u8>, Seq<char>>::empty()),
{
    DashMap::new()
}

/// `DashMap::get`: a copy of the entry under the key.
#[verifier::external_body]
pub(crate) fn ids_get(m: &DashMap<TunnelId, String>, id: &TunnelId) -> (r: Option<String>)
    ensures
        match r {
            Some(sub) => ids_of(*m).contains_key(id@) && sub@ == ids_of(*m)[id@],
            None => !ids_of(*m).contains_key(id@),
        },
{
    m.get(id).map(|e| e.value().clone())
}

/// `DashMap::insert`: the entry under the key is set, or replaced.
#[verifier::external_body]
pub(crate) fn ids_insert(m: &mut DashMap<TunnelId, String>, id: TunnelId, sub: String)
    ensures
        ids_of(*final(m)) == ids_of(*old(m)).insert(id@, sub@),
{
    m.insert(id, sub);
}

/// `DashMap::remove`: the entry under the key is taken out and handed back.
#[verifier::external_body]
pub(crate) fn ids_remove(m: &mut DashMap<TunnelId, String>, id: &TunnelId) -> (r: Option<String>)
    ensures
        ids_of(*final(m)) == ids_of(*old(m)).remove(id@),
        match r {
            Some(sub) => ids_of(*old(m)).contains_key(id@) && sub@ == ids_of(*old(m))[id@],
            None => !ids_of(*old(m)).contains_key(id@),
        },
{
    m.remove(id).map(|e| e.1)
}

} // verus!
