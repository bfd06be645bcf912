//! Ingestion: the backend creates and refreshes torrent and user records.

use vstd::prelude::*;

use crate::torrent::{APIInsertTorrent, Torrent};
use crate::tracker::Tracker;
use crate::user::{APIInsertUser, User};

verus! {

broadcast use vstd::std_specs::hash::group_hash_axioms;

impl Tracker {
    /// Creates the torrent `rec.id`, or refreshes its record, and (re)maps its
    /// info-hash to it.
    ///
    /// A refreshed torrent keeps its swarm: its peers stay, deleted or not, and
    /// its seeder and leecher counters go on following them, so the counts in
    /// `rec` are not taken.
    pub fn upsert_torrent(&mut self, rec: &APIInsertTorrent)
        requires
            old(self).wf(),
        ensures
            final(self).wf(),
            final(self).torrents@.dom() == old(self).torrents@.dom().insert(rec.id),
            forall|id: u32|
                id != rec.id && #[trigger] old(self).torrents@.contains_key(id)
                    ==> final(self).torrents@[id] == old(self).torrents@[id],
            ({
                let t = final(self).torrents@[rec.id];
                &&& t.id == rec.id
                &&& t.info_hash == rec.info_hash
                &&& t.is_deleted == rec.is_deleted
                &&& t.times_completed == rec.times_completed
                &&& t.upload_factor == rec.upload_factor as i16
                &&& t.download_factor == rec.download_factor as i16
                &&& t.peers@ == if old(self).torrents@.contains_key(rec.id) {
                    old(self).torrents@[rec.id].peers@
                } else {
                    Seq::empty()
                }
            }),
            final(self).infohash2id@ == old(self).infohash2id@.insert(rec.info_hash.0@, rec.id),
            final(self).passkey2id == old(self).passkey2id,
            final(self).users@ == old(self).users@,
            final(self).settings == old(self).settings,
    {
        let ghost before = self.torrents@;
        let torrent = match self.torrents.swap_remove(rec.id) {
            Some(old_torrent) => Torrent {
                id: rec.id,
                info_hash: rec.info_hash,
                upload_factor: rec.upload_factor as i16,
                download_factor: rec.download_factor as i16,
                seeders: old_torrent.seeders,
                leechers: old_torrent.leechers,
                times_completed: rec.times_completed,
                is_deleted: rec.is_deleted,
                peers: old_torrent.peers,
            },
            None => Torrent::new(
                rec.id,
                rec.info_hash,
                rec.upload_factor as i16,
                rec.download_factor as i16,
                rec.times_completed,
                rec.is_deleted,
            ),
        };
        let ghost t = torrent;
        self.torrents.insert(rec.id, torrent);
        proof {
            assert(self.torrents@ =~= before.insert(rec.id, t));
            assert(self.torrents@.dom() =~= before.dom().insert(rec.id));
        }
        self.infohash2id.insert(rec.info_hash.0, rec.id);
    }

    /// Creates the user `rec.id`, or refreshes it with zeroed counters, and
    /// (re)maps its passkey to it.
    pub fn upsert_user(&mut self, rec: &APIInsertUser)
        requires
            old(self).wf(),
        ensures
            final(self).wf(),
            final(self).users@ == old(self).users@.insert(rec.id, User { num_seeding: 0, num_leeching: 0 }),
            final(self).passkey2id@ == old(self).passkey2id@.insert(rec.passkey.0@, rec.id),
            final(self).torrents == old(self).torrents,
            final(self).infohash2id == old(self).infohash2id,
            final(self).settings == old(self).settings,
    {
        self.users.insert(rec.id, User::new());
        self.passkey2id.insert(rec.passkey.0, rec.id);
    }
}

} // verus!
