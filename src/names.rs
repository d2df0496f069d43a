//! The identity-name cache: numeric owner and group ids to the names shown,
//! looked up once per id and kept for the life of the cache.

use vstd::prelude::*;
use dashmap::DashMap;
use crate::text::{decimal, decimal_chars, text_of};

verus! {

#[verifier::external_type_specification]
#[verifier::external_body]
#[verifier::reject_recursive_types(K)]
#[verifier::reject_recursive_types(V)]
#[verifier::reject_recursive_types(S)]
pub struct ExDashMap<K, V, S>(DashMap<K, V, S>);

/// The names that a map from ids to names holds.
pub uninterp spec fn map_contents(m: DashMap<u32, String>) -> Map<u32, Seq<char>>;

/// Relies on `DashMap::new`: a map with no entries.
#[verifier::external_body]
fn new_map() -> (r: DashMap<u32, String>)
    ensures
        map_contents(r).dom().is_empty(),
{
    DashMap::new()
}

/// Relies on `DashMap::get`: the value stored under `id`, if there is one.
#[verifier::external_body]
fn map_get(m: &DashMap<u32, String>, id: u32) -> (r: Option<String>)
    ensures
        r.is_some() == map_contents(*m).contains_key(id),
        r.is_some() ==> r.unwrap()@ == map_contents(*m)[id],
{
    match m.get(&id) {
        Some(v) => Some(v.value().clone()),
        None => None,
    }
}

/// Relies on `DashMap::insert`: afterwards `id` maps to `name`, and no other
/// entry changes.
#[verifier::external_body]
fn map_insert(m: &mut DashMap<u32, String>, id: u32, name: String)
    ensures
        map_contents(*final(m)) == map_contents(*old(m)).insert(id, name@),
{
    m.insert(id, name);
}

/// The name shown for `id`: what the lookup found, or else the id in decimal.
pub open spec fn shown_name(id: u32, found: Option<String>) -> Seq<char> {
    match found {
        Some(s) => s@,
        None => decimal(id as nat),
    }
}

/// One resolution from cache state `before` to `after` with result `r`: a
/// cached id answers from the cache and changes nothing; a new id is stored
/// with its result.
pub open spec fn resolve_step(before: Map<u32, Seq<char>>, id: u32, after: Map<u32, Seq<char>>, r: Seq<char>) -> bool {
    if before.contains_key(id) {
        r == before[id] && after == before
    } else {
        after == before.insert(id, r)
    }
}

/// Maps numeric owner or group ids to names, remembering every answer.
pub struct NameCache {
    map: DashMap<u32, String>,
}

impl View for NameCache {
    type V = Map<u32, Seq<char>>;

    closed spec fn view(&self) -> Map<u32, Seq<char>> {
        map_contents(self.map)
    }
}

impl NameCache {
    /// An empty cache.
    pub fn new() -> (c: NameCache)
        ensures
            c@ == Map::<u32, Seq<char>>::empty(),
    {
        NameCache { map: new_map() }
    }

    /// The cached name of `id`, if it has been resolved before.
    pub fn cached(&self, id: u32) -> (r: Option<String>)
        ensures
            r.is_some() == self@.contains_key(id),
            r.is_some() ==> r.unwrap()@ == self@[id],
    {
        map_get(&self.map, id)
    }

    /// Stores the outcome of a lookup of `id` and returns the name shown:
    /// the name found, or the id in decimal when the lookup found none.
    pub fn record(&mut self, id: u32, found: Option<String>) -> (r: String)
        ensures
            r@ == shown_name(id, found),
            final(self)@ == old(self)@.insert(id, r@),
    {
        let name = match found {
            Some(s) => s,
            None => text_of(&decimal_chars(id as u64)),
        };
        let r = name.clone();
        map_insert(&mut self.map, id, name);
        r
    }

    /// The name of `id`: from the cache when it is there, otherwise from one
    /// call of `lookup`, whose answer is then cached.
    pub fn resolve<F: Fn(u32) -> Option<String>>(&mut self, id: u32, lookup: &F) -> (r: String)
        requires
            forall|x: u32| #[trigger] lookup.requires((x,)),
        ensures
            resolve_step(old(self)@, id, final(self)@, r@),
            !old(self)@.contains_key(id) ==> exists|found: Option<String>|
                lookup.ensures((id,), found) && r@ == shown_name(id, found),
    {
        match self.cached(id) {
            Some(s) => s,
            None => {
                let found = lookup(id);
                self.record(id, found)
            },
        }
    }
}

/// Resolving an id twice gives the same name, and the second resolution is
/// answered from the cache without a lookup and without changing it.
pub proof fn resolve_twice_same(
    c0: Map<u32, Seq<char>>,
    id: u32,
    c1: Map<u32, Seq<char>>,
    r1: Seq<char>,
    c2: Map<u32, Seq<char>>,
    r2: Seq<char>,
)
    requires
        resolve_step(c0, id, c1, r1),
        resolve_step(c1, id, c2, r2),
    ensures
        c1.contains_key(id),
        r2 == r1,
        c2 == c1,
{
}

} // verus!
