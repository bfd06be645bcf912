//! The tracker handle: identity indices, swarm store and user counters, and the
//! announce engine that resolves an announce and applies it.

use vstd::prelude::*;

use std::collections::HashMap;

use crate::ids::{InfoHash, Passkey, PeerId};
use crate::index::IdIndex;
use crate::peer::{lookup, others, IpAddress, Peer, PeerIndex};
use crate::store::TorrentMap;
use crate::torrent::{announce_step, peer_after, AnnounceEvent, PeerReport, RoleChange, Torrent};
use crate::user::{user_after, User};

verus! {

broadcast use vstd::std_specs::hash::group_hash_axioms;

/// Why an announce was refused. Each is answered with a bencoded failure reason.
#[derive(Clone, Copy, Debug, PartialEq, Eq, Structural)]
pub enum AnnounceError {
    UnknownPasskey,
    /// The info-hash or peer id is not 20 bytes long.
    MalformedIdentifier,
    UnregisteredTorrent,
    /// The torrent was deleted.
    TorrentUnavailable,
    /// A new peer cannot join: the swarm holds as many peers as its counters can count.
    SwarmFull,
}

/// Values the tracker hands to every client, and its own cap on peer lists.
#[derive(Clone, Copy, Debug)]
pub struct AnnounceSettings {
    /// Seconds a client should wait between announces.
    pub interval: u32,
    /// Seconds a client must wait between announces.
    pub min_interval: u32,
    /// The most peers one response lists.
    pub max_peers: u32,
}

/// An announce, its query already percent-decoded and its numbers parsed.
#[derive(Clone, Debug)]
pub struct AnnounceRequest {
    pub info_hash: Vec<u8>,
    pub peer_id: Vec<u8>,
    pub ip_address: IpAddress,
    pub port: u16,
    pub uploaded: u64,
    pub downloaded: u64,
    pub left: u64,
    pub event: AnnounceEvent,
    pub compact: bool,
    pub numwant: u32,
    /// Seconds since the Unix epoch at which the announce arrived.
    pub now: u64,
}

/// What an accepted announce answers.
#[derive(Clone, Debug)]
pub struct AnnounceResponse {
    pub interval: u32,
    pub min_interval: u32,
    /// Active seeders in the swarm.
    pub complete: u32,
    /// Active leechers in the swarm.
    pub incomplete: u32,
    pub peers: Vec<(PeerIndex, Peer)>,
}

/// The tracker's whole in-memory state.
#[derive(Debug)]
pub struct Tracker {
    pub torrents: TorrentMap,
    pub users: HashMap<u32, User>,
    pub passkey2id: IdIndex<32>,
    pub infohash2id: IdIndex<20>,
    pub settings: AnnounceSettings,
}

/// The smaller of two numbers.
pub open spec fn min_nat(a: nat, b: nat) -> nat {
    if a < b {
        a
    } else {
        b
    }
}

/// The peers a response lists: active peers other than the announcing one, in
/// store order, as many as the client asked for and the tracker allows.
pub open spec fn listed_peers(
    s: Seq<(PeerIndex, Peer)>,
    key: PeerIndex,
    numwant: u32,
    max_peers: u32,
) -> Seq<(PeerIndex, Peer)> {
    let o = others(s, key);
    o.take(min_nat(min_nat(numwant as nat, max_peers as nat), o.len()) as int)
}

/// What an announce reports of the announcing peer.
pub open spec fn report_of(req: AnnounceRequest) -> PeerReport {
    PeerReport {
        ip_address: req.ip_address,
        port: req.port,
        uploaded: req.uploaded,
        downloaded: req.downloaded,
        left: req.left,
        now: req.now,
    }
}

/// The key of the announcing peer.
pub open spec fn key_of(user_id: u32, peer_id: Seq<u8>) -> PeerIndex {
    PeerIndex { user_id, peer_id: PeerId(choose|a: [u8; 20]| #[trigger] a@ == peer_id) }
}

/// Resolves an announce in order: the passkey, then the identifiers, then the
/// torrent, then whether it is deleted. On success, the user id and torrent id.
pub open spec fn resolution(t: Tracker, passkey: Seq<u8>, req: AnnounceRequest) -> Result<
    (u32, u32),
    AnnounceError,
> {
    if passkey.len() != 32 || !t.passkey2id@.contains_key(passkey) {
        Err(AnnounceError::UnknownPasskey)
    } else if req.info_hash@.len() != 20 || req.peer_id@.len() != 20 {
        Err(AnnounceError::MalformedIdentifier)
    } else if !t.infohash2id@.contains_key(req.info_hash@) || !t.torrents@.contains_key(
        t.infohash2id@[req.info_hash@],
    ) {
        Err(AnnounceError::UnregisteredTorrent)
    } else if t.torrents@[t.infohash2id@[req.info_hash@]].is_deleted {
        Err(AnnounceError::TorrentUnavailable)
    } else {
        Ok((t.passkey2id@[passkey], t.infohash2id@[req.info_hash@]))
    }
}

/// The user counters after an announce by `user_id` changed a peer's role; a
/// user the tracker has no record of stays unknown.
pub open spec fn users_after(users: Map<u32, User>, user_id: u32, c: RoleChange) -> Map<u32, User> {
    if users.contains_key(user_id) {
        users.insert(user_id, user_after(users[user_id], c))
    } else {
        users
    }
}

/// Two trackers hold the same torrents, users, indices and settings.
pub open spec fn same_state(a: Tracker, b: Tracker) -> bool {
    &&& a.torrents@ == b.torrents@
    &&& a.users@ == b.users@
    &&& a.passkey2id == b.passkey2id
    &&& a.infohash2id == b.infohash2id
    &&& a.settings == b.settings
}

/// What an announce from the holder of `passkey` did, given the tracker
/// before and after it and its result.
///
/// A refused announce changes nothing. An accepted one changes only the
/// announced torrent (as `announce_step` says) and the announcing user's
/// counters, and lists the swarm's other active peers.
pub open spec fn announce_outcome(
    before_state: Tracker,
    after_state: Tracker,
    passkey: Seq<u8>,
    req: AnnounceRequest,
    r: Result<AnnounceResponse, AnnounceError>,
) -> bool {
    match resolution(before_state, passkey, req) {
        Err(e) => r == Err::<AnnounceResponse, AnnounceError>(e) && after_state == before_state,
        Ok((user_id, torrent_id)) => {
            let key = key_of(user_id, req.peer_id@);
            let before = before_state.torrents@[torrent_id];
            let after = after_state.torrents@[torrent_id];
            match r {
                Ok(resp) => {
                    &&& announce_step(before, after, key, req.event, report_of(req))
                    &&& after_state.torrents@ == before_state.torrents@.insert(
                        torrent_id,
                        after,
                    )
                    &&& after_state.users@ == users_after(
                        before_state.users@,
                        user_id,
                        RoleChange {
                            before: crate::torrent::role_of(lookup(before.peers@, key)),
                            after: crate::torrent::role_of(lookup(after.peers@, key)),
                        },
                    )
                    &&& after_state.passkey2id == before_state.passkey2id
                    &&& after_state.infohash2id == before_state.infohash2id
                    &&& after_state.settings == before_state.settings
                    &&& resp.interval == before_state.settings.interval
                    &&& resp.min_interval == before_state.settings.min_interval
                    &&& resp.complete == after.seeders
                    &&& resp.incomplete == after.leechers
                    &&& resp.peers@ == listed_peers(
                        after.peers@,
                        key,
                        req.numwant,
                        before_state.settings.max_peers,
                    )
                },
                Err(e) => {
                    &&& e == AnnounceError::SwarmFull
                    &&& same_state(after_state, before_state)
                    &&& lookup(before.peers@, key) is None
                    &&& peer_after(None, req.event, report_of(req)) is Some
                    &&& before.peers@.len() == u32::MAX
                },
            }
        },
    }
}

impl Tracker {
    /// Every stored torrent keeps its counters in step with its swarm and is
    /// stored under its own id; the indices hold each key once.
    pub open spec fn wf(&self) -> bool {
        &&& forall|id: u32| #[trigger]
            self.torrents@.contains_key(id) ==> self.torrents@[id].wf() && self.torrents@[id].id
                == id
        &&& self.passkey2id.wf()
        &&& self.infohash2id.wf()
    }

    /// A tracker that knows no torrent and no user.
    pub fn new(settings: AnnounceSettings) -> (t: Tracker)
        ensures
            t.wf(),
            t.torrents@.is_empty(),
            t.users@.is_empty(),
            t.passkey2id@.is_empty(),
            t.infohash2id@.is_empty(),
            t.settings == settings,
    {
        let t = Tracker {
            torrents: TorrentMap::new(),
            users: HashMap::new(),
            passkey2id: IdIndex::new(),
            infohash2id: IdIndex::new(),
            settings,
        };
        t
    }

    /// The torrent stored under `id`.
    pub fn torrent(&self, id: u32) -> (r: Option<&Torrent>)
        ensures
            match r {
                Some(t) => self.torrents@.contains_key(id) && *t == self.torrents@[id],
                None => !self.torrents@.contains_key(id),
            },
    {
        self.torrents.get(id)
    }

    /// Up to `limit` active peers of torrent `torrent_id` other than `exclude`,
    /// in store order; `None` when no such torrent is stored.
    pub fn snapshot_peers(&self, torrent_id: u32, exclude: &PeerIndex, limit: usize) -> (r: Option<
        Vec<(PeerIndex, Peer)>,
    >)
        ensures
            match r {
                Some(v) => self.torrents@.contains_key(torrent_id) && v@ == others(
                    self.torrents@[torrent_id].peers@,
                    *exclude,
                ).take(
                    min_nat(
                        limit as nat,
                        others(self.torrents@[torrent_id].peers@, *exclude).len(),
                    ) as int,
                ),
                None => !self.torrents@.contains_key(torrent_id),
            },
    {
        match self.torrents.get(torrent_id) {
            Some(t) => Some(t.peers.snapshot(exclude, limit)),
            None => None,
        }
    }

    /// The user stored under `id`.
    pub fn user(&self, id: u32) -> (r: Option<User>)
        ensures
            r == if self.users@.contains_key(id) {
                Some(self.users@[id])
            } else {
                None::<User>
            },
    {
        match self.users.get(&id) {
            Some(u) => Some(*u),
            None => None,
        }
    }

    /// The user id that a passkey identifies; `UnknownPasskey` when none does.
    pub fn resolve_user(&self, passkey: &[u8]) -> (r: Result<u32, AnnounceError>)
        requires
            self.wf(),
        ensures
            match r {
                Ok(id) => passkey@.len() == 32 && self.passkey2id@.contains_key(passkey@) && id
                    == self.passkey2id@[passkey@],
                Err(e) => e == AnnounceError::UnknownPasskey && (passkey@.len() != 32
                    || !self.passkey2id@.contains_key(passkey@)),
            },
    {
        match Passkey::from_bytes(passkey) {
            Ok(k) => match self.passkey2id.get(&k.0) {
                Some(id) => Ok(id),
                None => Err(AnnounceError::UnknownPasskey),
            },
            Err(_) => Err(AnnounceError::UnknownPasskey),
        }
    }

    /// The torrent id that an info-hash identifies; `UnregisteredTorrent` when
    /// none does.
    pub fn resolve_torrent(&self, info_hash: &InfoHash) -> (r: Result<u32, AnnounceError>)
        requires
            self.wf(),
        ensures
            match r {
                Ok(id) => self.infohash2id@.contains_key(info_hash.0@) && id
                    == self.infohash2id@[info_hash.0@],
                Err(e) => e == AnnounceError::UnregisteredTorrent
                    && !self.infohash2id@.contains_key(info_hash.0@),
            },
    {
        match self.infohash2id.get(&info_hash.0) {
            Some(id) => Ok(id),
            None => Err(AnnounceError::UnregisteredTorrent),
        }
    }

    pub(crate) fn record_role_change(&mut self, user_id: u32, c: RoleChange)
        ensures
            final(self).users@ == users_after(old(self).users@, user_id, c),
            final(self).torrents == old(self).torrents,
            final(self).passkey2id == old(self).passkey2id,
            final(self).infohash2id == old(self).infohash2id,
            final(self).settings == old(self).settings,
    {
        let current = match self.users.get(&user_id) {
            Some(u) => *u,
            None => return,
        };
        self.users.insert(user_id, current.after_change(c));
    }

    /// Applies one announce from the holder of `passkey` and answers it (see
    /// `announce_outcome`).
    pub fn announce(&mut self, passkey: &[u8], req: &AnnounceRequest) -> (r: Result<
        AnnounceResponse,
        AnnounceError,
    >)
        requires
            old(self).wf(),
        ensures
            final(self).wf(),
            announce_outcome(*old(self), *final(self), passkey@, *req, r),
    {
        let user_id = match self.resolve_user(passkey) {
            Ok(id) => id,
            Err(e) => return Err(e),
        };
        let info_hash = match InfoHash::from_bytes(req.info_hash.as_slice()) {
            Ok(h) => h,
            Err(_) => return Err(AnnounceError::MalformedIdentifier),
        };
        let peer_id = match PeerId::from_bytes(req.peer_id.as_slice()) {
            Ok(p) => p,
            Err(_) => return Err(AnnounceError::MalformedIdentifier),
        };
        let torrent_id = match self.resolve_torrent(&info_hash) {
            Ok(id) => id,
            Err(e) => return Err(e),
        };
        match self.torrents.get(torrent_id) {
            Some(t) => {
                if t.is_deleted {
                    return Err(AnnounceError::TorrentUnavailable);
                }
            },
            None => return Err(AnnounceError::UnregisteredTorrent),
        }
        let ghost old_tracker = *self;
        let mut torrent = match self.torrents.swap_remove(torrent_id) {
            Some(t) => t,
            None => return Err(AnnounceError::UnregisteredTorrent),
        };
        let key = PeerIndex { user_id, peer_id };
        proof {
            let a = choose|a: [u8; 20]| #[trigger] a@ == req.peer_id@;
            assert(peer_id.0@ == req.peer_id@);
            assert(a@ == req.peer_id@);
            assert(a =~= peer_id.0);
            assert(key == key_of(user_id, req.peer_id@));
        }
        let report = PeerReport {
            ip_address: req.ip_address,
            port: req.port,
            uploaded: req.uploaded,
            downloaded: req.downloaded,
            left: req.left,
            now: req.now,
        };
        match torrent.announce(key, req.event, &report) {
            Ok(change) => {
                let want = if req.numwant < self.settings.max_peers {
                    req.numwant
                } else {
                    self.settings.max_peers
                };
                let peers = torrent.peers.snapshot(&key, want as usize);
                let resp = AnnounceResponse {
                    interval: self.settings.interval,
                    min_interval: self.settings.min_interval,
                    complete: torrent.seeders,
                    incomplete: torrent.leechers,
                    peers,
                };
                let ghost after = torrent;
                self.torrents.insert(torrent_id, torrent);
                proof {
                    assert(self.torrents@ =~= old_tracker.torrents@.insert(torrent_id, after));
                    assert(self.torrents@[torrent_id] == after);
                }
                self.record_role_change(user_id, change);
                Ok(resp)
            },
            Err(_) => {
                self.torrents.insert(torrent_id, torrent);
                proof {
                    assert(self.torrents@ =~= old_tracker.torrents@);
                }
                Err(AnnounceError::SwarmFull)
            },
        }
    }
}

} // verus!
