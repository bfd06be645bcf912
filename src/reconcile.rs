//! Reconciliation: the periodic sweep that drops peers which stopped announcing.

use vstd::prelude::*;

use crate::peer::{fresh_part, Peer, PeerIndex};
use crate::torrent::{RoleChange, Torrent};
use crate::tracker::Tracker;

verus! {

broadcast use vstd::std_specs::hash::group_hash_axioms;

/// `after` is `before` with its stale peers dropped.
pub open spec fn swept(before: Torrent, after: Torrent, now: u64, max_age: u64) -> bool {
    &&& after.peers@ == fresh_part(before.peers@, now, max_age)
    &&& after.id == before.id
    &&& after.info_hash == before.info_hash
    &&& after.upload_factor == before.upload_factor
    &&& after.download_factor == before.download_factor
    &&& after.times_completed == before.times_completed
    &&& after.is_deleted == before.is_deleted
}

impl Tracker {
    /// Drops, from every swarm, each peer whose last announce is more than
    /// `max_age` seconds before `now`, as if it had sent `stopped`: the torrent's
    /// counters follow, and so do the counters of each dropped peer's user.
    /// Returns how many peers were dropped.
    pub fn evict_stale_peers(&mut self, now: u64, max_age: u64) -> (n: usize)
        requires
            old(self).wf(),
        ensures
            final(self).wf(),
            final(self).torrents@.dom() == old(self).torrents@.dom(),
            forall|id: u32| #[trigger]
                old(self).torrents@.contains_key(id) ==> swept(
                    old(self).torrents@[id],
                    final(self).torrents@[id],
                    now,
                    max_age,
                ),
            final(self).users@.dom() == old(self).users@.dom(),
            forall|u: u32| #[trigger]
                old(self).users@.contains_key(u) ==> final(self).users@[u].num_seeding
                    <= old(self).users@[u].num_seeding && final(self).users@[u].num_leeching
                    <= old(self).users@[u].num_leeching,
            final(self).passkey2id == old(self).passkey2id,
            final(self).infohash2id == old(self).infohash2id,
            final(self).settings == old(self).settings,
    {
        let ghost start = *self;
        let ids = self.torrents.ids();
        let mut evicted: usize = 0;
        let mut k: usize = 0;
        while k < ids.len()
            invariant
                0 <= k <= ids@.len(),
                self.wf(),
                ids@.no_duplicates(),
                ids@.to_set() == start.torrents@.dom(),
                self.torrents@.dom() == start.torrents@.dom(),
                forall|id: u32| #[trigger]
                    start.torrents@.contains_key(id) ==> if ids@.take(k as int).contains(id) {
                        swept(start.torrents@[id], self.torrents@[id], now, max_age)
                    } else {
                        self.torrents@[id] == start.torrents@[id]
                    },
                self.users@.dom() == start.users@.dom(),
                forall|u: u32| #[trigger]
                    start.users@.contains_key(u) ==> self.users@[u].num_seeding
                        <= start.users@[u].num_seeding && self.users@[u].num_leeching
                        <= start.users@[u].num_leeching,
                self.passkey2id == start.passkey2id,
                self.infohash2id == start.infohash2id,
                self.settings == start.settings,
            decreases ids@.len() - k,
        {
            let id = ids[k];
            proof {
                assert(ids@.to_set().contains(id));
                assert(start.torrents@.contains_key(id));
                assert(!ids@.take(k as int).contains(id)) by {
                    if ids@.take(k as int).contains(id) {
                        let w = choose|w: int| 0 <= w < k && #[trigger] ids@.take(k as int)[w] == id;
                        assert(ids@[w] == ids@[k as int]);
                    }
                }
            }
            let ghost mid = self.torrents@;
            let dropped = match self.torrents.swap_remove(id) {
                Some(mut torrent) => {
                    let dropped = torrent.evict_stale(now, max_age);
                    let ghost t = torrent;
                    self.torrents.insert(id, torrent);
                    proof {
                        assert(self.torrents@ =~= mid.insert(id, t));
                    }
                    dropped
                },
                None => Vec::new(),
            };
            proof {
                assert forall|x: u32| #[trigger]
                    start.torrents@.contains_key(x) implies if ids@.take(k + 1).contains(x) {
                    swept(start.torrents@[x], self.torrents@[x], now, max_age)
                } else {
                    self.torrents@[x] == start.torrents@[x]
                } by {
                    if x == id {
                        assert(ids@.take(k + 1)[k as int] == id);
                    } else {
                        if ids@.take(k + 1).contains(x) {
                            let w = choose|w: int| 0 <= w < k + 1 && #[trigger] ids@.take(k + 1)[w] == x;
                            assert(w < k);
                            assert(ids@.take(k as int)[w] == x);
                        } else {
                            if ids@.take(k as int).contains(x) {
                                let w = choose|w: int| 0 <= w < k && #[trigger] ids@.take(k as int)[w] == x;
                                assert(ids@.take(k + 1)[w] == x);
                            }
                        }
                    }
                }
                assert(self.torrents@.dom() =~= start.torrents@.dom());
            }
            let mut j: usize = 0;
            while j < dropped.len()
                invariant
                    0 <= j <= dropped@.len(),
                    self.wf(),
                    self.torrents@.dom() == start.torrents@.dom(),
                    forall|x: u32| #[trigger]
                        start.torrents@.contains_key(x) ==> if ids@.take(k + 1).contains(x) {
                            swept(start.torrents@[x], self.torrents@[x], now, max_age)
                        } else {
                            self.torrents@[x] == start.torrents@[x]
                        },
                    self.users@.dom() == start.users@.dom(),
                    forall|u: u32| #[trigger]
                        start.users@.contains_key(u) ==> self.users@[u].num_seeding
                            <= start.users@[u].num_seeding && self.users@[u].num_leeching
                            <= start.users@[u].num_leeching,
                    self.passkey2id == start.passkey2id,
                    self.infohash2id == start.infohash2id,
                    self.settings == start.settings,
                decreases dropped@.len() - j,
            {
                let (key, peer): (PeerIndex, Peer) = dropped[j];
                let before_role = if peer.is_active {
                    Some(peer.is_seeder)
                } else {
                    None
                };
                let ghost users_before = self.users@;
                self.record_role_change(key.user_id, RoleChange { before: before_role, after: None });
                proof {
                    assert(self.users@.dom() =~= users_before.dom());
                    assert forall|u: u32| #[trigger]
                        users_before.contains_key(u) implies self.users@[u].num_seeding
                        <= users_before[u].num_seeding && self.users@[u].num_leeching
                        <= users_before[u].num_leeching by {
                        if u == key.user_id {
                        }
                    }
                }
                if evicted < usize::MAX {
                    evicted = evicted + 1;
                }
                j += 1;
            }
            k += 1;
        }
        proof {
            assert(ids@.take(ids@.len() as int) =~= ids@);
            assert forall|id: u32| #[trigger] start.torrents@.contains_key(id) implies ids@.contains(
                id,
            ) by {
                assert(ids@.to_set().contains(id));
            }
        }
        evicted
    }
}

} // verus!
