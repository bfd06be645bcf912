use arcadia_tracker::ids::{InfoHash, PeerId};
use arcadia_tracker::peer::{IpAddress, PeerIndex};
use arcadia_tracker::restore::{DBImportPeer, ImportError};
use arcadia_tracker::torrent::{AnnounceEvent, DBImportTorrent};
use arcadia_tracker::tracker::{AnnounceSettings, Tracker};

fn torrent_row(id: i32) -> DBImportTorrent {
    DBImportTorrent {
        id,
        upload_factor: 100,
        download_factor: 50,
        seeders: 99,
        leechers: 99,
        times_completed: 4,
        is_deleted: false,
    }
}

fn peer_row(torrent_id: i32, peer: u8, is_seeder: bool) -> DBImportPeer {
    DBImportPeer {
        torrent_id,
        user_id: 3,
        peer_id: PeerId([peer; 20]),
        ip_address: IpAddress::V4([10, 0, 0, peer]),
        port: 6881,
        is_seeder,
        is_active: true,
        updated_at: 1000,
        uploaded: 10,
        downloaded: 20,
    }
}

fn tracker() -> Tracker {
    Tracker::new(AnnounceSettings { interval: 1800, min_interval: 900, max_peers: 50 })
}

#[test]
fn imported_rows_rebuild_consistent_counters() {
    let mut t = tracker();
    t.import_torrent(&torrent_row(5), InfoHash([9; 20])).unwrap();
    let torrent = t.torrent(5).unwrap();
    assert_eq!((torrent.seeders, torrent.leechers), (0, 0));
    assert_eq!(torrent.times_completed, 4);
    assert_eq!(torrent.download_factor, 50);
    assert_eq!(t.resolve_torrent(&InfoHash([9; 20])), Ok(5));

    t.import_peer(&peer_row(5, 1, true)).unwrap();
    t.import_peer(&peer_row(5, 2, false)).unwrap();
    t.import_peer(&peer_row(5, 2, true)).unwrap();
    let torrent = t.torrent(5).unwrap();
    assert_eq!(torrent.peers.len(), 2);
    assert_eq!((torrent.seeders, torrent.leechers), (2, 0));
    let p = torrent.peer(&PeerIndex { user_id: 3, peer_id: PeerId([1; 20]) }).unwrap();
    assert!(!p.has_sent_completed);
    assert_eq!((p.uploaded, p.downloaded, p.updated_at), (10, 20, 1000));
}

#[test]
fn import_rejects_out_of_range_rows() {
    let mut t = tracker();
    assert_eq!(t.import_torrent(&torrent_row(-1), InfoHash([9; 20])), Err(ImportError::OutOfRange));
    assert!(t.torrent(0).is_none());
    t.import_torrent(&torrent_row(5), InfoHash([9; 20])).unwrap();
    let mut row = peer_row(5, 1, true);
    row.port = 70000;
    assert_eq!(t.import_peer(&row), Err(ImportError::OutOfRange));
    let mut row = peer_row(5, 1, true);
    row.user_id = -2;
    assert_eq!(t.import_peer(&row), Err(ImportError::OutOfRange));
    assert_eq!(t.torrent(5).unwrap().peers.len(), 0);
}

#[test]
fn peer_row_of_unknown_torrent_is_skipped() {
    let mut t = tracker();
    assert_eq!(t.import_peer(&peer_row(8, 1, true)), Ok(()));
    assert!(t.torrent(8).is_none());
}

#[test]
fn imported_peer_can_complete_once() {
    let mut t = tracker();
    t.import_torrent(&torrent_row(5), InfoHash([9; 20])).unwrap();
    let mut row = peer_row(5, 1, false);
    row.is_seeder = false;
    t.import_peer(&row).unwrap();
    let key = PeerIndex { user_id: 3, peer_id: PeerId([1; 20]) };
    let mut torrent = t.torrents.0.swap_remove(&5).unwrap();
    let report = arcadia_tracker::torrent::PeerReport {
        ip_address: IpAddress::V4([10, 0, 0, 1]),
        port: 6881,
        uploaded: 0,
        downloaded: 0,
        left: 0,
        now: 2000,
    };
    torrent.announce(key, AnnounceEvent::Completed, &report).unwrap();
    torrent.announce(key, AnnounceEvent::Completed, &report).unwrap();
    assert_eq!(torrent.times_completed, 5);
    assert_eq!((torrent.seeders, torrent.leechers), (1, 0));
}
