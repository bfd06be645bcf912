//! Peers of one swarm and the map that holds them, keyed by `(user_id, peer_id)`.

use vstd::prelude::*;

use crate::ids::PeerId;

verus! {

/// The address a peer announced from.
#[derive(Clone, Copy, Debug, PartialEq, Eq, Hash)]
pub enum IpAddress {
    V4([u8; 4]),
    V6([u8; 16]),
}

/// The key of a peer within one torrent's swarm.
#[derive(Clone, Copy, Debug, PartialEq, Eq, Hash)]
pub struct PeerIndex {
    pub user_id: u32,
    pub peer_id: PeerId,
}

/// What the tracker knows of one client instance in one swarm.
#[derive(Clone, Copy, Debug)]
pub struct Peer {
    pub ip_address: IpAddress,
    pub port: u16,
    pub is_seeder: bool,
    pub is_active: bool,
    pub has_sent_completed: bool,
    /// Seconds since the Unix epoch of the last announce.
    pub updated_at: u64,
    pub uploaded: u64,
    pub downloaded: u64,
}

/// Whether two keys name the same peer.
pub open spec fn same_key(a: PeerIndex, b: PeerIndex) -> bool {
    a.user_id == b.user_id && a.peer_id.0@ == b.peer_id.0@
}

/// No key occurs twice in `s`.
pub open spec fn unique_keys(s: Seq<(PeerIndex, Peer)>) -> bool {
    forall|i: int, j: int| 0 <= i < j < s.len() ==> !same_key(#[trigger] s[i].0, #[trigger] s[j].0)
}

/// How a peer counts in the swarm's aggregates: `Some(true)` for an active
/// seeder, `Some(false)` for an active leecher, `None` when it counts for neither.
pub open spec fn role(p: Peer) -> Option<bool> {
    if p.is_active {
        Some(p.is_seeder)
    } else {
        None
    }
}

/// 1 when `p` counts as an active seeder (`seeding`) or active leecher (`!seeding`).
pub open spec fn counted(p: Peer, seeding: bool) -> nat {
    if role(p) == Some(seeding) {
        1
    } else {
        0
    }
}

/// The number of active seeders (`seeding`) or active leechers (`!seeding`) in `s`.
pub open spec fn count_peers(s: Seq<(PeerIndex, Peer)>, seeding: bool) -> nat
    decreases s.len(),
{
    if s.len() == 0 {
        0
    } else {
        count_peers(s.drop_last(), seeding) + counted(s.last().1, seeding)
    }
}

/// The active peers of `s` other than `key`, in order.
pub open spec fn others(s: Seq<(PeerIndex, Peer)>, key: PeerIndex) -> Seq<(PeerIndex, Peer)>
    decreases s.len(),
{
    if s.len() == 0 {
        s
    } else if s.last().1.is_active && !same_key(s.last().0, key) {
        others(s.drop_last(), key).push(s.last())
    } else {
        others(s.drop_last(), key)
    }
}

pub proof fn lemma_count_bounded(s: Seq<(PeerIndex, Peer)>, seeding: bool)
    ensures
        count_peers(s, seeding) <= s.len(),
    decreases s.len(),
{
    if s.len() > 0 {
        lemma_count_bounded(s.drop_last(), seeding);
    }
}

pub proof fn lemma_count_push(s: Seq<(PeerIndex, Peer)>, e: (PeerIndex, Peer), seeding: bool)
    ensures
        count_peers(s.push(e), seeding) == count_peers(s, seeding) + counted(e.1, seeding),
{
    assert(s.push(e).drop_last() =~= s);
}

pub proof fn lemma_count_update(
    s: Seq<(PeerIndex, Peer)>,
    i: int,
    e: (PeerIndex, Peer),
    seeding: bool,
)
    requires
        0 <= i < s.len(),
    ensures
        count_peers(s.update(i, e), seeding) + counted(s[i].1, seeding) == count_peers(s, seeding)
            + counted(e.1, seeding),
    decreases s.len(),
{
    let u = s.update(i, e);
    if i == s.len() - 1 {
        assert(u.drop_last() =~= s.drop_last());
    } else {
        assert(u.drop_last() =~= s.drop_last().update(i, e));
        lemma_count_update(s.drop_last(), i, e, seeding);
    }
}

pub proof fn lemma_count_remove(s: Seq<(PeerIndex, Peer)>, i: int, seeding: bool)
    requires
        0 <= i < s.len(),
    ensures
        count_peers(s.remove(i), seeding) + counted(s[i].1, seeding) == count_peers(s, seeding),
    decreases s.len(),
{
    let r = s.remove(i);
    if i == s.len() - 1 {
        assert(r =~= s.drop_last());
    } else {
        assert(r.drop_last() =~= s.drop_last().remove(i));
        assert(r.last() == s.last());
        lemma_count_remove(s.drop_last(), i, seeding);
    }
}

proof fn lemma_others_prefix(s: Seq<(PeerIndex, Peer)>, key: PeerIndex, i: int, j: int)
    requires
        0 <= i <= j <= s.len(),
    ensures
        others(s.take(j), key).len() >= others(s.take(i), key).len(),
        others(s.take(i), key) == others(s.take(j), key).take(others(s.take(i), key).len() as int),
    decreases j - i,
{
    if i < j {
        lemma_others_prefix(s, key, i, j - 1);
        assert(s.take(j).drop_last() =~= s.take(j - 1));
        let a = others(s.take(i), key);
        let b = others(s.take(j - 1), key);
        let c = others(s.take(j), key);
        if c.len() > b.len() {
            assert(c =~= b.push(s[j - 1]));
            assert(c.take(a.len() as int) =~= b.take(a.len() as int));
        }
    } else {
        let a = others(s.take(i), key);
        assert(a.take(a.len() as int) =~= a);
    }
}

/// The peer stored under `key` in `s` (the last one, were a key repeated).
pub open spec fn lookup(s: Seq<(PeerIndex, Peer)>, key: PeerIndex) -> Option<Peer>
    decreases s.len(),
{
    if s.len() == 0 {
        None
    } else if same_key(s.last().0, key) {
        Some(s.last().1)
    } else {
        lookup(s.drop_last(), key)
    }
}

/// `counted` of an optional peer: an absent peer counts for nothing.
pub open spec fn counted_opt(p: Option<Peer>, seeding: bool) -> nat {
    match p {
        Some(q) => counted(q, seeding),
        None => 0,
    }
}

pub proof fn lemma_lookup_found(s: Seq<(PeerIndex, Peer)>, i: int, key: PeerIndex)
    requires
        unique_keys(s),
        0 <= i < s.len(),
        same_key(s[i].0, key),
    ensures
        lookup(s, key) == Some(s[i].1),
    decreases s.len(),
{
    if i < s.len() - 1 {
        assert(!same_key(s[i].0, s[s.len() - 1].0));
        lemma_lookup_found(s.drop_last(), i, key);
    }
}

pub proof fn lemma_lookup_missing(s: Seq<(PeerIndex, Peer)>, key: PeerIndex)
    requires
        forall|i: int| 0 <= i < s.len() ==> !same_key(#[trigger] s[i].0, key),
    ensures
        lookup(s, key) == None::<Peer>,
    decreases s.len(),
{
    if s.len() > 0 {
        assert(!same_key(s[s.len() - 1].0, key));
        assert forall|i: int| 0 <= i < s.drop_last().len() implies !same_key(
            #[trigger] s.drop_last()[i].0,
            key,
        ) by {
            assert(s.drop_last()[i] == s[i]);
        }
        lemma_lookup_missing(s.drop_last(), key);
    }
}

pub proof fn lemma_lookup_update(s: Seq<(PeerIndex, Peer)>, i: int, p: Peer, k: PeerIndex)
    requires
        unique_keys(s),
        0 <= i < s.len(),
    ensures
        unique_keys(s.update(i, (s[i].0, p))),
        lookup(s.update(i, (s[i].0, p)), k) == if same_key(s[i].0, k) {
            Some(p)
        } else {
            lookup(s, k)
        },
    decreases s.len(),
{
    let u = s.update(i, (s[i].0, p));
    assert forall|a: int, b: int| 0 <= a < b < u.len() implies !same_key(
        #[trigger] u[a].0,
        #[trigger] u[b].0,
    ) by {
        assert(u[a].0 == s[a].0 && u[b].0 == s[b].0);
    }
    if same_key(s[i].0, k) {
        lemma_lookup_found(u, i, k);
    } else if i == s.len() - 1 {
        assert(u.drop_last() =~= s.drop_last());
    } else {
        assert(u.drop_last() =~= s.drop_last().update(i, (s[i].0, p)));
        lemma_lookup_update(s.drop_last(), i, p, k);
    }
}

pub proof fn lemma_lookup_remove(s: Seq<(PeerIndex, Peer)>, i: int, k: PeerIndex)
    requires
        unique_keys(s),
        0 <= i < s.len(),
    ensures
        lookup(s.remove(i), k) == if same_key(s[i].0, k) {
            None
        } else {
            lookup(s, k)
        },
    decreases s.len(),
{
    let r = s.remove(i);
    if same_key(s[i].0, k) {
        assert forall|j: int| 0 <= j < r.len() implies !same_key(#[trigger] r[j].0, k) by {
            if j < i {
                assert(r[j] == s[j]);
                assert(!same_key(s[j].0, s[i].0));
            } else {
                assert(r[j] == s[j + 1]);
                assert(!same_key(s[i].0, s[j + 1].0));
            }
        }
        lemma_lookup_missing(r, k);
    } else if i == s.len() - 1 {
        assert(r =~= s.drop_last());
    } else {
        assert(r.drop_last() =~= s.drop_last().remove(i));
        assert(r.last() == s.last());
        lemma_lookup_remove(s.drop_last(), i, k);
    }
}

/// Whether a peer's last announce is more than `max_age` seconds before `now`.
pub open spec fn is_stale(p: Peer, now: u64, max_age: u64) -> bool {
    now > p.updated_at && now - p.updated_at > max_age
}

/// The entries of `s` that are not stale, in order.
pub open spec fn fresh_part(s: Seq<(PeerIndex, Peer)>, now: u64, max_age: u64) -> Seq<
    (PeerIndex, Peer),
>
    decreases s.len(),
{
    if s.len() == 0 {
        s
    } else if is_stale(s.last().1, now, max_age) {
        fresh_part(s.drop_last(), now, max_age)
    } else {
        fresh_part(s.drop_last(), now, max_age).push(s.last())
    }
}

/// The entries of `s` that are stale, in order.
pub open spec fn stale_part(s: Seq<(PeerIndex, Peer)>, now: u64, max_age: u64) -> Seq<
    (PeerIndex, Peer),
>
    decreases s.len(),
{
    if s.len() == 0 {
        s
    } else if is_stale(s.last().1, now, max_age) {
        stale_part(s.drop_last(), now, max_age).push(s.last())
    } else {
        stale_part(s.drop_last(), now, max_age)
    }
}

proof fn lemma_fresh_part_unique(s: Seq<(PeerIndex, Peer)>, now: u64, max_age: u64)
    requires
        unique_keys(s),
    ensures
        unique_keys(fresh_part(s, now, max_age)),
        fresh_part(s, now, max_age).len() <= s.len(),
        forall|a: int|
            0 <= a < fresh_part(s, now, max_age).len() ==> exists|j: int|
                0 <= j < s.len() && #[trigger] fresh_part(s, now, max_age)[a] == s[j],
    decreases s.len(),
{
    if s.len() > 0 {
        let d = s.drop_last();
        assert forall|i: int, j: int| 0 <= i < j < d.len() implies !same_key(
            #[trigger] d[i].0,
            #[trigger] d[j].0,
        ) by {
            assert(d[i] == s[i] && d[j] == s[j]);
        }
        lemma_fresh_part_unique(d, now, max_age);
        let f = fresh_part(s, now, max_age);
        let fd = fresh_part(d, now, max_age);
        assert forall|a: int| 0 <= a < f.len() implies exists|j: int|
            0 <= j < s.len() && #[trigger] f[a] == s[j] by {
            if a < fd.len() {
                let j = choose|j: int| 0 <= j < d.len() && fd[a] == d[j];
                assert(f[a] == fd[a]);
                assert(f[a] == s[j]);
            } else {
                assert(f[a] == s[s.len() - 1]);
            }
        }
        if !is_stale(s.last().1, now, max_age) {
            assert forall|i: int, j: int| 0 <= i < j < f.len() implies !same_key(
                #[trigger] f[i].0,
                #[trigger] f[j].0,
            ) by {
                if j == f.len() - 1 {
                    let w = choose|w: int| 0 <= w < d.len() && fd[i] == d[w];
                    assert(f[i] == s[w]);
                    assert(f[j] == s[s.len() - 1]);
                } else {
                    assert(f[i] == fd[i] && f[j] == fd[j]);
                }
            }
        }
    }
}

/// The peers of one swarm, each key at most once.
#[derive(Clone, Debug)]
pub struct PeerMap {
    entries: Vec<(PeerIndex, Peer)>,
}

impl View for PeerMap {
    type V = Seq<(PeerIndex, Peer)>;

    closed spec fn view(&self) -> Seq<(PeerIndex, Peer)> {
        self.entries@
    }
}

impl PeerMap {
    /// Keys are unique, and the size fits the swarm's 32-bit counters.
    pub open spec fn wf(&self) -> bool {
        unique_keys(self@) && self@.len() <= u32::MAX
    }

    /// An empty swarm.
    pub fn new() -> (r: PeerMap)
        ensures
            r@ == Seq::<(PeerIndex, Peer)>::empty(),
            r.wf(),
    {
        PeerMap { entries: Vec::new() }
    }

    /// The number of peers.
    pub fn len(&self) -> (r: usize)
        ensures
            r == self@.len(),
    {
        self.entries.len()
    }

    /// The key and peer at position `i`.
    pub fn entry(&self, i: usize) -> (r: (PeerIndex, Peer))
        requires
            i < self@.len(),
        ensures
            r == self@[i as int],
    {
        self.entries[i]
    }

    /// The position of the peer under `key`, if there is one.
    pub fn find(&self, key: &PeerIndex) -> (r: Option<usize>)
        ensures
            match r {
                Some(i) => i < self@.len() && same_key(self@[i as int].0, *key),
                None => forall|i: int| 0 <= i < self@.len() ==> !same_key(#[trigger] self@[i].0, *key),
            },
    {
        let mut i: usize = 0;
        while i < self.entries.len()
            invariant
                0 <= i <= self@.len(),
                self@ == self.entries@,
                forall|j: int| 0 <= j < i ==> !same_key(#[trigger] self@[j].0, *key),
            decreases self@.len() - i,
        {
            let e = &self.entries[i];
            if e.0.user_id == key.user_id && e.0.peer_id.same(&key.peer_id) {
                return Some(i);
            }
            i += 1;
        }
        None
    }

    /// Whether a peer is stored under `key`.
    pub fn contains(&self, key: &PeerIndex) -> (r: bool)
        ensures
            r == exists|i: int| 0 <= i < self@.len() && same_key(#[trigger] self@[i].0, *key),
    {
        match self.find(key) {
            Some(i) => {
                assert(same_key(self@[i as int].0, *key));
                true
            },
            None => false,
        }
    }

    /// Replaces the peer at position `i`, keeping its key.
    pub fn set_peer(&mut self, i: usize, p: Peer)
        requires
            i < old(self)@.len(),
        ensures
            final(self)@ == old(self)@.update(i as int, (old(self)@[i as int].0, p)),
    {
        let key = self.entries[i].0;
        self.entries.set(i, (key, p));
    }

    /// Adds a peer under a key that is not yet present.
    pub fn push(&mut self, key: PeerIndex, p: Peer)
        requires
            old(self).wf(),
            old(self)@.len() < u32::MAX,
            forall|i: int| 0 <= i < old(self)@.len() ==> !same_key(#[trigger] old(self)@[i].0, key),
        ensures
            final(self)@ == old(self)@.push((key, p)),
            final(self).wf(),
    {
        self.entries.push((key, p));
        assert forall|i: int, j: int| 0 <= i < j < self@.len() implies !same_key(
            #[trigger] self@[i].0,
            #[trigger] self@[j].0,
        ) by {
            if j == self@.len() - 1 {
                assert(self@[i] == old(self)@[i]);
            } else {
                assert(self@[i] == old(self)@[i] && self@[j] == old(self)@[j]);
            }
        }
    }

    /// Removes the peer at position `i`, keeping the others in order.
    pub fn remove_at(&mut self, i: usize) -> (r: (PeerIndex, Peer))
        requires
            old(self).wf(),
            i < old(self)@.len(),
        ensures
            r == old(self)@[i as int],
            final(self)@ == old(self)@.remove(i as int),
            final(self).wf(),
    {
        let r = self.entries.remove(i);
        assert forall|a: int, b: int| 0 <= a < b < self@.len() implies !same_key(
            #[trigger] self@[a].0,
            #[trigger] self@[b].0,
        ) by {
            let a2 = if a < i { a } else { a + 1 };
            let b2 = if b < i { b } else { b + 1 };
            assert(self@[a] == old(self)@[a2] && self@[b] == old(self)@[b2]);
        }
        r
    }

    /// Counts the active seeders (`seeding`) or active leechers (`!seeding`) by a
    /// full scan.
    pub fn count(&self, seeding: bool) -> (r: u32)
        requires
            self.wf(),
        ensures
            r == count_peers(self@, seeding),
    {
        let mut n: u32 = 0;
        let mut i: usize = 0;
        while i < self.entries.len()
            invariant
                0 <= i <= self@.len(),
                self@ == self.entries@,
                self@.len() <= u32::MAX,
                n == count_peers(self@.take(i as int), seeding),
            decreases self@.len() - i,
        {
            let p = self.entries[i].1;
            proof {
                assert(self@.take(i + 1).drop_last() =~= self@.take(i as int));
                lemma_count_bounded(self@.take(i as int), seeding);
            }
            if p.is_active && p.is_seeder == seeding {
                n = n + 1;
            }
            i += 1;
        }
        assert(self@.take(i as int) =~= self@);
        n
    }

    /// Up to `limit` active peers other than `exclude`, in the order they are stored.
    pub fn snapshot(&self, exclude: &PeerIndex, limit: usize) -> (r: Vec<(PeerIndex, Peer)>)
        ensures
            r@ == others(self@, *exclude).take(
                if limit < others(self@, *exclude).len() {
                    limit as int
                } else {
                    others(self@, *exclude).len() as int
                },
            ),
    {
        let mut out: Vec<(PeerIndex, Peer)> = Vec::new();
        let mut i: usize = 0;
        while i < self.entries.len() && out.len() < limit
            invariant
                0 <= i <= self@.len(),
                self@ == self.entries@,
                out@ == others(self@.take(i as int), *exclude),
                out@.len() <= limit,
            decreases self@.len() - i,
        {
            let e = self.entries[i];
            proof {
                assert(self@.take(i + 1).drop_last() =~= self@.take(i as int));
                assert(self@.take(i + 1).last() == e);
            }
            if e.1.is_active && !(e.0.user_id == exclude.user_id && e.0.peer_id.same(
                &exclude.peer_id,
            )) {
                out.push(e);
            }
            i += 1;
        }
        proof {
            let all = others(self@, *exclude);
            assert(self@.take(self@.len() as int) =~= self@);
            lemma_others_prefix(self@, *exclude, i as int, self@.len() as int);
            if i == self@.len() {
                assert(all.take(all.len() as int) =~= all);
            }
        }
        out
    }

    /// Drops every stale peer, keeping the others in order, and hands back the
    /// dropped ones.
    pub fn retain_fresh(&mut self, now: u64, max_age: u64) -> (r: Vec<(PeerIndex, Peer)>)
        requires
            old(self).wf(),
        ensures
            final(self).wf(),
            final(self)@ == fresh_part(old(self)@, now, max_age),
            r@ == stale_part(old(self)@, now, max_age),
    {
        let ghost s = self.entries@;
        let mut kept: Vec<(PeerIndex, Peer)> = Vec::new();
        let mut dropped: Vec<(PeerIndex, Peer)> = Vec::new();
        let mut i: usize = 0;
        while i < self.entries.len()
            invariant
                0 <= i <= s.len(),
                self.entries@ == s,
                kept@ == fresh_part(s.take(i as int), now, max_age),
                dropped@ == stale_part(s.take(i as int), now, max_age),
            decreases s.len() - i,
        {
            let e = self.entries[i];
            proof {
                assert(s.take(i + 1).drop_last() =~= s.take(i as int));
                assert(s.take(i + 1).last() == e);
            }
            if now > e.1.updated_at && now - e.1.updated_at > max_age {
                dropped.push(e);
            } else {
                kept.push(e);
            }
            i += 1;
        }
        proof {
            assert(s.take(s.len() as int) =~= s);
            lemma_fresh_part_unique(s, now, max_age);
        }
        self.entries = kept;
        dropped
    }
}

} // verus!
