//! Rebuilding the tracker's swarms from the rows the backend's database keeps.

use vstd::prelude::*;

use crate::ids::{InfoHash, PeerId};
use crate::peer::{IpAddress, Peer, PeerIndex, PeerMap};
use crate::torrent::{peer_replaced, DBImportTorrent, Torrent};
use crate::tracker::{same_state, Tracker};

verus! {

/// A peer row as the backend's database stores it.
#[derive(Clone, Copy, Debug)]
pub struct DBImportPeer {
    pub torrent_id: i32,
    pub user_id: i32,
    pub peer_id: PeerId,
    pub ip_address: IpAddress,
    pub port: i32,
    pub is_seeder: bool,
    pub is_active: bool,
    /// Seconds since the Unix epoch of the peer's last announce.
    pub updated_at: u64,
    pub uploaded: i64,
    pub downloaded: i64,
}

/// Why a database row cannot be loaded.
#[derive(Clone, Copy, Debug, PartialEq, Eq, Structural)]
pub enum ImportError {
    /// An id, port or byte count does not fit the tracker's type for it.
    OutOfRange,
    /// A new peer cannot join: the swarm holds as many peers as its counters can count.
    SwarmFull,
}

/// Whether every number in a torrent row fits the tracker's types.
pub open spec fn torrent_row_in_range(row: DBImportTorrent) -> bool {
    row.id >= 0 && row.times_completed >= 0
}

/// Whether every number in a peer row fits the tracker's types.
pub open spec fn peer_row_in_range(row: DBImportPeer) -> bool {
    &&& row.torrent_id >= 0
    &&& row.user_id >= 0
    &&& 0 <= row.port <= u16::MAX
    &&& row.uploaded >= 0
    &&& row.downloaded >= 0
}

/// The key a peer row is stored under.
pub open spec fn row_key(row: DBImportPeer) -> PeerIndex {
    PeerIndex { user_id: row.user_id as u32, peer_id: row.peer_id }
}

/// The peer a peer row describes; it has not reported a completion yet.
pub open spec fn row_peer(row: DBImportPeer) -> Peer {
    Peer {
        ip_address: row.ip_address,
        port: row.port as u16,
        is_seeder: row.is_seeder,
        is_active: row.is_active,
        has_sent_completed: false,
        updated_at: row.updated_at,
        uploaded: row.uploaded as u64,
        downloaded: row.downloaded as u64,
    }
}

impl Tracker {
    /// Loads a torrent row, with the info-hash kept beside it: the torrent is
    /// stored under its id with an empty swarm, replacing any before it, and its
    /// info-hash maps to it. The row's seeder and leecher counts are not taken:
    /// the counters follow the peers loaded after it.
    pub fn import_torrent(&mut self, row: &DBImportTorrent, info_hash: InfoHash) -> (r: Result<
        (),
        ImportError,
    >)
        requires
            old(self).wf(),
        ensures
            final(self).wf(),
            match r {
                Ok(()) => {
                    let t = final(self).torrents@[row.id as u32];
                    &&& torrent_row_in_range(*row)
                    &&& final(self).torrents@ == old(self).torrents@.insert(row.id as u32, t)
                    &&& t.id == row.id as u32
                    &&& t.info_hash == info_hash
                    &&& t.upload_factor == row.upload_factor
                    &&& t.download_factor == row.download_factor
                    &&& t.times_completed == row.times_completed as u32
                    &&& t.is_deleted == row.is_deleted
                    &&& t.peers@.len() == 0
                    &&& final(self).infohash2id@ == old(self).infohash2id@.insert(
                        info_hash.0@,
                        row.id as u32,
                    )
                    &&& final(self).users@ == old(self).users@
                    &&& final(self).passkey2id == old(self).passkey2id
                    &&& final(self).settings == old(self).settings
                },
                Err(e) => e == ImportError::OutOfRange && !torrent_row_in_range(*row)
                    && *final(self) == *old(self),
            },
    {
        if row.id < 0 || row.times_completed < 0 {
            return Err(ImportError::OutOfRange);
        }
        let id = row.id as u32;
        let torrent = Torrent::new(
            id,
            info_hash,
            row.upload_factor,
            row.download_factor,
            row.times_completed as u32,
            row.is_deleted,
        );
        let ghost t = torrent;
        let ghost stored = self.torrents@;
        self.torrents.insert(id, torrent);
        assert forall|k: u32| #[trigger] self.torrents@.contains_key(k) implies self.torrents@[k].wf()
            && self.torrents@[k].id == k by {
            if k != id {
                assert(stored.contains_key(k));
            }
        }
        self.infohash2id.insert(info_hash.0, id);
        Ok(())
    }

    /// Loads a peer row into its torrent's swarm, replacing the entry under its
    /// key; the torrent's counters follow. A row whose torrent is not loaded is
    /// skipped.
    pub fn import_peer(&mut self, row: &DBImportPeer) -> (r: Result<(), ImportError>)
        requires
            old(self).wf(),
        ensures
            final(self).wf(),
            !peer_row_in_range(*row) ==> r == Err::<(), ImportError>(ImportError::OutOfRange)
                && *final(self) == *old(self),
            peer_row_in_range(*row) && !old(self).torrents@.contains_key(row.torrent_id as u32)
                ==> r is Ok && *final(self) == *old(self),
            peer_row_in_range(*row) && old(self).torrents@.contains_key(row.torrent_id as u32)
                ==> {
                let id = row.torrent_id as u32;
                let before = old(self).torrents@[id];
                let after = final(self).torrents@[id];
                match r {
                    Ok(()) => {
                        &&& peer_replaced(before.peers@, after.peers@, row_key(*row), Some(row_peer(*row)))
                        &&& final(self).torrents@ == old(self).torrents@.insert(id, after)
                        &&& after.id == before.id
                        &&& after.info_hash == before.info_hash
                        &&& after.upload_factor == before.upload_factor
                        &&& after.download_factor == before.download_factor
                        &&& after.times_completed == before.times_completed
                        &&& after.is_deleted == before.is_deleted
                        &&& final(self).users@ == old(self).users@
                        &&& final(self).passkey2id == old(self).passkey2id
                        &&& final(self).infohash2id == old(self).infohash2id
                        &&& final(self).settings == old(self).settings
                    },
                    Err(e) => {
                        &&& e == ImportError::SwarmFull
                        &&& same_state(*final(self), *old(self))
                        &&& before.peers@.len() == u32::MAX
                    },
                }
            },
    {
        if row.torrent_id < 0 || row.user_id < 0 || row.port < 0 || row.port > 65535
            || row.uploaded < 0 || row.downloaded < 0 {
            return Err(ImportError::OutOfRange);
        }
        let id = row.torrent_id as u32;
        match self.torrents.get(id) {
            Some(_) => {},
            None => return Ok(()),
        }
        let ghost start = *self;
        assert(start.torrents@.contains_key(id) && start.torrents@[id].wf());
        let mut torrent = match self.torrents.swap_remove(id) {
            Some(t) => t,
            None => return Ok(()),
        };
        let key = PeerIndex { user_id: row.user_id as u32, peer_id: row.peer_id };
        let peer = Peer {
            ip_address: row.ip_address,
            port: row.port as u16,
            is_seeder: row.is_seeder,
            is_active: row.is_active,
            has_sent_completed: false,
            updated_at: row.updated_at,
            uploaded: row.uploaded as u64,
            downloaded: row.downloaded as u64,
        };
        let result = torrent.put_peer(key, Some(peer));
        let ghost after = torrent;
        self.torrents.insert(id, torrent);
        proof {
            assert(self.torrents@ =~= start.torrents@.insert(id, after));
            if result is Err {
                assert(self.torrents@ =~= start.torrents@);
            }
        }
        match result {
            Ok(()) => Ok(()),
            Err(_) => Err(ImportError::SwarmFull),
        }
    }
}

} // verus!
