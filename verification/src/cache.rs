//! The link cache: short code to destination URL.

use dashmap::DashMap;
use std::collections::hash_map::RandomState;
use vstd::prelude::*;

verus! {

/// `dashmap::DashMap`, a sharded concurrent hash map. Its fields stay hidden.
#[verifier::external_type_specification]
#[verifier::external_body]
#[verifier::reject_recursive_types(K)]
#[verifier::reject_recursive_types(V)]
#[verifier::reject_recursive_types(S)]
pub struct ExDashMap<K, V, S>(DashMap<K, V, S>);

/// The entries that a map of short codes holds: each key with its value,
/// both as character sequences.
pub uninterp spec fn link_entries(m: DashMap<String, String, RandomState>) -> Map<Seq<char>, Seq<char>>;

/// `DashMap::new`: a map without entries.
#[verifier::external_body]
fn link_map_new() -> (m: DashMap<String, String, RandomState>)
    ensures
        link_entries(m) =~= map![],
{
    DashMap::new()
}

/// `DashMap::insert`: the key maps to the value afterwards, whether or not it
/// was present, and no other key changes.
#[verifier::external_body]
fn link_map_insert(m: &mut DashMap<String, String, RandomState>, key: String, value: String)
    ensures
        link_entries(*final(m)) == link_entries(*old(m)).insert(key@, value@),
{
    m.insert(key, value);
}

/// `DashMap::get`, with the value cloned out of the guard: the value stored
/// under the key, if there is one.
#[verifier::external_body]
fn link_map_get(m: &DashMap<String, String, RandomState>, key: &str) -> (r: Option<String>)
    ensures
        r.is_some() == link_entries(*m).contains_key(key@),
        r.is_some() ==> r.unwrap()@ == link_entries(*m)[key@],
{
    m.get(key).map(|v| v.clone())
}

/// `DashMap::remove`: the key is absent afterwards and no other key changes.
#[verifier::external_body]
fn link_map_remove(m: &mut DashMap<String, String, RandomState>, key: &str)
    ensures
        link_entries(*final(m)) == link_entries(*old(m)).remove(key@),
{
    m.remove(key);
}

/// Whether a map has finitely many entries, and `n` of them.
pub open spec fn counts_entries<V>(entries: Map<Seq<char>, V>, n: nat) -> bool {
    entries.dom().finite() && entries.len() == n
}

/// `DashMap::len`: the number of entries, of which there are finitely many.
#[verifier::external_body]
fn link_map_len(m: &DashMap<String, String, RandomState>) -> (n: usize)
    ensures
        counts_entries(link_entries(*m), n as nat),
{
    m.len()
}

/// `DashMap::is_empty`: whether the map has no entry.
#[verifier::external_body]
fn link_map_is_empty(m: &DashMap<String, String, RandomState>) -> (b: bool)
    ensures
        b == (link_entries(*m) =~= map![]),
{
    m.is_empty()
}

/// In-memory mapping from short code to destination URL. Entries have no
/// expiry: they stay until they are overwritten or removed.
#[derive(Debug)]
pub struct LinkCache {
    inner: DashMap<String, String, RandomState>,
}


impl View for LinkCache {
    type V = Map<Seq<char>, Seq<char>>;

    closed spec fn view(&self) -> Map<Seq<char>, Seq<char>> {
        link_entries(self.inner)
    }
}

impl LinkCache {
    /// An empty cache.
    pub fn new() -> (c: Self)
        ensures
            c@ == Map::<Seq<char>, Seq<char>>::empty(),
    {
        LinkCache { inner: link_map_new() }
    }

    /// Inserts a mapping, or overwrites the one that the code had.
    pub fn set(&mut self, short_code: &str, original_url: &str)
        ensures
            final(self)@ == old(self)@.insert(short_code@, original_url@),
    {
        link_map_insert(&mut self.inner, short_code.to_owned(), original_url.to_owned());
    }

    /// The URL cached for a short code, if any.
    pub fn get(&self, short_code: &str) -> (r: Option<String>)
        ensures
            r.is_some() == self@.contains_key(short_code@),
            r.is_some() ==> r.unwrap()@ == self@[short_code@],
    {
        link_map_get(&self.inner, short_code)
    }

    /// Removes the mapping of a short code; nothing changes if it had none.
    pub fn remove(&mut self, short_code: &str)
        ensures
            final(self)@ == old(self)@.remove(short_code@),
    {
        link_map_remove(&mut self.inner, short_code);
    }

    /// Number of entries currently cached.
    pub fn len(&self) -> (n: usize)
        ensures
            self@.dom().finite(),
            n == self@.len(),
    {
        link_map_len(&self.inner)
    }

    /// Whether the cache holds no entry.
    pub fn is_empty(&self) -> (b: bool)
        ensures
            b == (self@ =~= Map::<Seq<char>, Seq<char>>::empty()),
    {
        link_map_is_empty(&self.inner)
    }
}

impl Default for LinkCache {
    fn default() -> (c: Self)
        ensures
            c@ == Map::<Seq<char>, Seq<char>>::empty(),
    {
        LinkCache::new()
    }
}

} // verus!
