//! The swarm store: every torrent the tracker knows, by id.

use vstd::prelude::*;

use indexmap::IndexMap;

use crate::torrent::Torrent;

verus! {

/// `indexmap::IndexMap`, carried as an opaque value; what it holds is named by
/// `torrent_entries`.
#[verifier::external_type_specification]
#[verifier::external_body]
#[verifier::reject_recursive_types(K)]
#[verifier::reject_recursive_types(V)]
#[verifier::reject_recursive_types(S)]
pub struct ExIndexMap<K, V, S>(IndexMap<K, V, S>);

/// The torrents that an `IndexMap` from id to torrent holds.
pub uninterp spec fn torrent_entries(m: IndexMap<u32, Torrent>) -> Map<u32, Torrent>;

/// All torrents, by id.
#[derive(Debug)]
pub struct TorrentMap(pub IndexMap<u32, Torrent>);

impl View for TorrentMap {
    type V = Map<u32, Torrent>;

    open spec fn view(&self) -> Map<u32, Torrent> {
        torrent_entries(self.0)
    }
}

impl TorrentMap {
    /// Relies on `IndexMap::new`: a map with no entries.
    #[verifier::external_body]
    pub(crate) fn new() -> (r: TorrentMap)
        ensures
            torrent_entries(r.0).is_empty(),
    {
        TorrentMap(IndexMap::new())
    }

    /// Relies on `IndexMap::get`: the value stored under the key, if any.
    #[verifier::external_body]
    pub(crate) fn get(&self, id: u32) -> (r: Option<&Torrent>)
        ensures
            match r {
                Some(t) => torrent_entries(self.0).contains_key(id) && *t == torrent_entries(self.0)[id],
                None => !torrent_entries(self.0).contains_key(id),
            },
    {
        self.0.get(&id)
    }

    /// Relies on `IndexMap::insert`: the key now maps to the value, and the old
    /// value, if any, comes back.
    #[verifier::external_body]
    pub(crate) fn insert(&mut self, id: u32, t: Torrent) -> (r: Option<Torrent>)
        ensures
            torrent_entries(final(self).0) == torrent_entries(old(self).0).insert(id, t),
            match r {
                Some(o) => torrent_entries(old(self).0).contains_key(id) && o == torrent_entries(old(self).0)[id],
                None => !torrent_entries(old(self).0).contains_key(id),
            },
    {
        self.0.insert(id, t)
    }

    /// Relies on `IndexMap::swap_remove`: the key's entry leaves the map and its
    /// value comes back.
    #[verifier::external_body]
    pub(crate) fn swap_remove(&mut self, id: u32) -> (r: Option<Torrent>)
        ensures
            torrent_entries(final(self).0) == torrent_entries(old(self).0).remove(id),
            match r {
                Some(o) => torrent_entries(old(self).0).contains_key(id) && o == torrent_entries(old(self).0)[id],
                None => !torrent_entries(old(self).0).contains_key(id),
            },
    {
        self.0.swap_remove(&id)
    }

    /// Relies on `IndexMap::keys`: each key of the map once.
    #[verifier::external_body]
    pub(crate) fn ids(&self) -> (r: Vec<u32>)
        ensures
            r@.no_duplicates(),
            r@.to_set() == torrent_entries(self.0).dom(),
    {
        self.0.keys().copied().collect()
    }
}

} // verus!
