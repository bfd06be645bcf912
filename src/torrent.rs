//! A torrent's swarm record and the peer state machine that announces drive.

use vstd::prelude::*;

use crate::ids::InfoHash;
use crate::peer::{
    count_peers, counted, counted_opt, lemma_count_bounded, lemma_count_push, lemma_count_remove,
    lemma_count_update, lemma_lookup_found, lemma_lookup_missing, lemma_lookup_remove,
    lemma_lookup_update, lookup, role, same_key, unique_keys, fresh_part, stale_part, IpAddress, Peer,
    PeerIndex, PeerMap,
};

verus! {

/// The `event` field of an announce.
#[derive(Clone, Copy, Debug, PartialEq, Eq, Structural)]
pub enum AnnounceEvent {
    Started,
    Stopped,
    Completed,
    /// The periodic announce, which names no event.
    Empty,
}

/// What an announce says of the announcing peer.
#[derive(Clone, Copy, Debug)]
pub struct PeerReport {
    pub ip_address: IpAddress,
    pub port: u16,
    pub uploaded: u64,
    pub downloaded: u64,
    /// Bytes the client still has to download; 0 for a seeder.
    pub left: u64,
    /// Seconds since the Unix epoch at which the announce arrived.
    pub now: u64,
}

/// The peer record an announce leaves behind.
pub open spec fn reported(r: PeerReport, seeder: bool, completed: bool) -> Peer {
    Peer {
        ip_address: r.ip_address,
        port: r.port,
        is_seeder: seeder,
        is_active: true,
        has_sent_completed: completed,
        updated_at: r.now,
        uploaded: r.uploaded,
        downloaded: r.downloaded,
    }
}

/// The peer stored under the announcing key after the announce, given the one
/// stored before: `started` replaces it, the periodic announce refreshes it (and
/// brings back a peer that was dropped), `completed` marks it a seeder that has
/// completed, `stopped` removes it.
pub open spec fn peer_after(before: Option<Peer>, event: AnnounceEvent, r: PeerReport) -> Option<
    Peer,
> {
    match event {
        AnnounceEvent::Stopped => None,
        AnnounceEvent::Started => Some(reported(r, r.left == 0, false)),
        AnnounceEvent::Empty => Some(
            reported(
                r,
                r.left == 0,
                match before {
                    Some(p) => p.has_sent_completed,
                    None => false,
                },
            ),
        ),
        AnnounceEvent::Completed => Some(reported(r, true, true)),
    }
}

/// Whether the announce is the peer's first `completed` in this lifecycle.
pub open spec fn completes(before: Option<Peer>, event: AnnounceEvent) -> bool {
    event == AnnounceEvent::Completed && match before {
        Some(p) => !p.has_sent_completed,
        None => true,
    }
}

/// `role` of an optional peer.
pub open spec fn role_of(p: Option<Peer>) -> Option<bool> {
    match p {
        Some(q) => role(q),
        None => None,
    }
}

/// `n + 1`, held at the largest `u32`.
pub open spec fn saturating_inc(n: u32) -> u32 {
    if n < u32::MAX {
        (n + 1) as u32
    } else {
        n
    }
}

/// `after` is the swarm `before` with the peer under `key` set to `p` (removed
/// when `p` is `None`): every other key keeps its peer, the size changes by the
/// one entry gained or lost, and so do the counts of active seeders and leechers.
pub open spec fn peer_replaced(
    before: Seq<(PeerIndex, Peer)>,
    after: Seq<(PeerIndex, Peer)>,
    key: PeerIndex,
    p: Option<Peer>,
) -> bool {
    &&& unique_keys(after)
    &&& lookup(after, key) == p
    &&& forall|k: PeerIndex| !same_key(k, key) ==> #[trigger] lookup(after, k) == lookup(before, k)
    &&& after.len() + (if lookup(before, key) is Some {
        1int
    } else {
        0int
    }) == before.len() + (if p is Some {
        1int
    } else {
        0int
    })
    &&& count_peers(after, true) + counted_opt(lookup(before, key), true) == count_peers(before, true)
        + counted_opt(p, true)
    &&& count_peers(after, false) + counted_opt(lookup(before, key), false) == count_peers(
        before,
        false,
    ) + counted_opt(p, false)
}

/// How one announce by `key` changes a swarm: the key's peer becomes `peer_after`.
pub open spec fn swarm_step(
    before: Seq<(PeerIndex, Peer)>,
    after: Seq<(PeerIndex, Peer)>,
    key: PeerIndex,
    event: AnnounceEvent,
    r: PeerReport,
) -> bool {
    peer_replaced(before, after, key, peer_after(lookup(before, key), event, r))
}

/// How one accepted announce by `key` changes a torrent.
pub open spec fn announce_step(
    before: Torrent,
    after: Torrent,
    key: PeerIndex,
    event: AnnounceEvent,
    r: PeerReport,
) -> bool {
    &&& swarm_step(before.peers@, after.peers@, key, event, r)
    &&& after.times_completed == if completes(lookup(before.peers@, key), event) {
        saturating_inc(before.times_completed)
    } else {
        before.times_completed
    }
    &&& after.id == before.id
    &&& after.info_hash == before.info_hash
    &&& after.upload_factor == before.upload_factor
    &&& after.download_factor == before.download_factor
    &&& after.is_deleted == before.is_deleted
}

/// How the announcing peer counted before and after an announce (see `role`).
#[derive(Clone, Copy, Debug, PartialEq, Eq, Structural)]
pub struct RoleChange {
    pub before: Option<bool>,
    pub after: Option<bool>,
}

/// The swarm already holds as many peers as its 32-bit counters can count.
#[derive(Clone, Copy, Debug, PartialEq, Eq, Structural)]
pub struct SwarmFull;

/// A torrent as the tracker sees it.
#[derive(Debug)]
pub struct Torrent {
    pub id: u32,
    pub info_hash: InfoHash,
    pub upload_factor: i16,
    pub download_factor: i16,
    pub seeders: u32,
    pub leechers: u32,
    pub times_completed: u32,
    pub is_deleted: bool,
    pub peers: PeerMap,
}

/// A torrent record as the backend sends it for ingestion.
#[derive(Clone, Copy, Debug)]
pub struct APIInsertTorrent {
    pub id: u32,
    pub info_hash: InfoHash,
    pub is_deleted: bool,
    pub seeders: u32,
    pub leechers: u32,
    pub times_completed: u32,
    pub download_factor: u8,
    pub upload_factor: u8,
}

/// A torrent row as the backend's database stores it.
#[derive(Clone, Copy, Debug)]
pub struct DBImportTorrent {
    pub id: i32,
    pub upload_factor: i16,
    pub download_factor: i16,
    pub seeders: i64,
    pub leechers: i64,
    pub times_completed: i32,
    pub is_deleted: bool,
}

fn next_peer(before: Option<Peer>, event: AnnounceEvent, r: &PeerReport) -> (p: Option<Peer>)
    ensures
        p == peer_after(before, event, *r),
{
    let (seeder, completed) = match event {
        AnnounceEvent::Stopped => return None,
        AnnounceEvent::Started => (r.left == 0, false),
        AnnounceEvent::Empty => (
            r.left == 0,
            match before {
                Some(p) => p.has_sent_completed,
                None => false,
            },
        ),
        AnnounceEvent::Completed => (true, true),
    };
    Some(
        Peer {
            ip_address: r.ip_address,
            port: r.port,
            is_seeder: seeder,
            is_active: true,
            has_sent_completed: completed,
            updated_at: r.now,
            uploaded: r.uploaded,
            downloaded: r.downloaded,
        },
    )
}

fn counted_exec(p: &Option<Peer>, seeding: bool) -> (n: u32)
    ensures
        n == counted_opt(*p, seeding),
{
    match p {
        Some(q) => if q.is_active && q.is_seeder == seeding {
            1
        } else {
            0
        },
        None => 0,
    }
}

fn role_exec(p: &Option<Peer>) -> (r: Option<bool>)
    ensures
        r == role_of(*p),
{
    match p {
        Some(q) => if q.is_active {
            Some(q.is_seeder)
        } else {
            None
        },
        None => None,
    }
}

impl Torrent {
    /// The counters agree with the peer map: `seeders` is the number of active
    /// seeders, `leechers` the number of active leechers.
    pub open spec fn wf(&self) -> bool {
        &&& self.peers.wf()
        &&& self.seeders == count_peers(self.peers@, true)
        &&& self.leechers == count_peers(self.peers@, false)
    }

    /// A torrent with an empty swarm.
    pub fn new(
        id: u32,
        info_hash: InfoHash,
        upload_factor: i16,
        download_factor: i16,
        times_completed: u32,
        is_deleted: bool,
    ) -> (t: Torrent)
        ensures
            t.wf(),
            t.peers@.len() == 0,
            t.seeders == 0 && t.leechers == 0,
            t.id == id && t.info_hash == info_hash,
            t.upload_factor == upload_factor && t.download_factor == download_factor,
            t.times_completed == times_completed && t.is_deleted == is_deleted,
    {
        Torrent {
            id,
            info_hash,
            upload_factor,
            download_factor,
            seeders: 0,
            leechers: 0,
            times_completed,
            is_deleted,
            peers: PeerMap::new(),
        }
    }

    /// The peer stored under `key`.
    pub fn peer(&self, key: &PeerIndex) -> (r: Option<Peer>)
        requires
            self.wf(),
        ensures
            r == lookup(self.peers@, *key),
    {
        match self.peers.find(key) {
            Some(i) => {
                proof {
                    lemma_lookup_found(self.peers@, i as int, *key);
                }
                Some(self.peers.entry(i).1)
            },
            None => {
                proof {
                    lemma_lookup_missing(self.peers@, *key);
                }
                None
            },
        }
    }

    /// Sets the peer under `key` to `p`, or removes it when `p` is `None`, and
    /// moves the seeder and leecher counters with it. It fails, changing
    /// nothing, only when a new peer would join a swarm that already holds
    /// `u32::MAX` peers.
    pub fn put_peer(&mut self, key: PeerIndex, p: Option<Peer>) -> (r: Result<(), SwarmFull>)
        requires
            old(self).wf(),
        ensures
            final(self).wf(),
            match r {
                Ok(()) => {
                    &&& peer_replaced(old(self).peers@, final(self).peers@, key, p)
                    &&& final(self).id == old(self).id
                    &&& final(self).info_hash == old(self).info_hash
                    &&& final(self).upload_factor == old(self).upload_factor
                    &&& final(self).download_factor == old(self).download_factor
                    &&& final(self).times_completed == old(self).times_completed
                    &&& final(self).is_deleted == old(self).is_deleted
                },
                Err(_) => *final(self) == *old(self),
            },
            r is Err <==> (lookup(old(self).peers@, key) is None && p is Some
                && old(self).peers@.len() == u32::MAX),
    {
        let ghost s = self.peers@;
        let pos = self.peers.find(&key);
        let before: Option<Peer> = match pos {
            Some(i) => Some(self.peers.entry(i).1),
            None => None,
        };
        proof {
            match pos {
                Some(i) => lemma_lookup_found(s, i as int, key),
                None => lemma_lookup_missing(s, key),
            }
        }
        match pos {
            Some(i) => match p {
                Some(q) => {
                    self.peers.set_peer(i, q);
                    proof {
                        lemma_count_update(s, i as int, (s[i as int].0, q), true);
                        lemma_count_update(s, i as int, (s[i as int].0, q), false);
                        assert forall|k: PeerIndex| true implies #[trigger] lookup(self.peers@, k)
                            == if same_key(s[i as int].0, k) {
                            Some(q)
                        } else {
                            lookup(s, k)
                        } by {
                            lemma_lookup_update(s, i as int, q, k);
                        }
                        lemma_lookup_update(s, i as int, q, key);
                        assert(same_key(s[i as int].0, key));
                    }
                },
                None => {
                    self.peers.remove_at(i);
                    proof {
                        lemma_count_remove(s, i as int, true);
                        lemma_count_remove(s, i as int, false);
                        assert forall|k: PeerIndex| true implies #[trigger] lookup(self.peers@, k)
                            == if same_key(s[i as int].0, k) {
                            None
                        } else {
                            lookup(s, k)
                        } by {
                            lemma_lookup_remove(s, i as int, k);
                        }
                    }
                },
            },
            None => match p {
                Some(q) => {
                    if self.peers.len() >= 4294967295 {
                        return Err(SwarmFull);
                    }
                    self.peers.push(key, q);
                    proof {
                        lemma_count_push(s, (key, q), true);
                        lemma_count_push(s, (key, q), false);
                        assert(self.peers@.drop_last() =~= s);
                    }
                },
                None => {},
            },
        }
        proof {
            lemma_count_bounded(self.peers@, true);
            lemma_count_bounded(self.peers@, false);
        }
        let gone_seeder = counted_exec(&before, true);
        let gone_leecher = counted_exec(&before, false);
        let new_seeder = counted_exec(&p, true);
        let new_leecher = counted_exec(&p, false);
        proof {
            assert(count_peers(self.peers@, true) + counted_opt(before, true) == count_peers(s, true)
                + counted_opt(p, true));
            assert(count_peers(self.peers@, false) + counted_opt(before, false) == count_peers(
                s,
                false,
            ) + counted_opt(p, false));
        }
        self.seeders = (self.seeders as u64 + new_seeder as u64 - gone_seeder as u64) as u32;
        self.leechers = (self.leechers as u64 + new_leecher as u64 - gone_leecher as u64) as u32;
        Ok(())
    }

    /// Applies one announce by `key` to this torrent's swarm and counters.
    /// It fails, changing nothing, only when a new peer would join a swarm that
    /// already holds `u32::MAX` peers.
    pub fn announce(&mut self, key: PeerIndex, event: AnnounceEvent, report: &PeerReport) -> (r:
        Result<RoleChange, SwarmFull>)
        requires
            old(self).wf(),
        ensures
            final(self).wf(),
            match r {
                Ok(change) => {
                    &&& announce_step(*old(self), *final(self), key, event, *report)
                    &&& change.before == role_of(lookup(old(self).peers@, key))
                    &&& change.after == role_of(lookup(final(self).peers@, key))
                },
                Err(_) => *final(self) == *old(self),
            },
            r is Err <==> (lookup(old(self).peers@, key) is None && peer_after(
                None,
                event,
                *report,
            ) is Some && old(self).peers@.len() == u32::MAX),
    {
        let before = self.peer(&key);
        let after = next_peer(before, event, report);
        let completing = match event {
            AnnounceEvent::Completed => match before {
                Some(p) => !p.has_sent_completed,
                None => true,
            },
            _ => false,
        };
        if let Err(e) = self.put_peer(key, after) {
            return Err(e);
        }
        if completing && self.times_completed < u32::MAX {
            self.times_completed = self.times_completed + 1;
        }
        Ok(RoleChange { before: role_exec(&before), after: role_exec(&after) })
    }

    /// Drops every peer whose last announce is more than `max_age` seconds
    /// before `now`, as if it had sent `stopped`, and hands the dropped peers back.
    pub fn evict_stale(&mut self, now: u64, max_age: u64) -> (r: Vec<(PeerIndex, Peer)>)
        requires
            old(self).wf(),
        ensures
            final(self).wf(),
            final(self).peers@ == fresh_part(old(self).peers@, now, max_age),
            r@ == stale_part(old(self).peers@, now, max_age),
            final(self).id == old(self).id,
            final(self).info_hash == old(self).info_hash,
            final(self).upload_factor == old(self).upload_factor,
            final(self).download_factor == old(self).download_factor,
            final(self).times_completed == old(self).times_completed,
            final(self).is_deleted == old(self).is_deleted,
    {
        let dropped = self.peers.retain_fresh(now, max_age);
        self.seeders = self.peers.count(true);
        self.leechers = self.peers.count(false);
        dropped
    }
}

} // verus!
