use arcadia_tracker::bencode::{announce_body, encode_compact_peers, encode_failure, encode_response};
use arcadia_tracker::ids::{InfoHash, Passkey, PeerId};
use arcadia_tracker::peer::{IpAddress, Peer, PeerIndex};
use arcadia_tracker::torrent::{APIInsertTorrent, AnnounceEvent};
use arcadia_tracker::tracker::{
    AnnounceError, AnnounceRequest, AnnounceResponse, AnnounceSettings, Tracker,
};
use arcadia_tracker::user::APIInsertUser;

const PASSKEY: [u8; 32] = [b'k'; 32];
const OTHER_PASSKEY: [u8; 32] = [b'o'; 32];
const HASH: [u8; 20] = [0xAB; 20];

fn settings() -> AnnounceSettings {
    AnnounceSettings { interval: 1800, min_interval: 900, max_peers: 50 }
}

fn tracker_with(is_deleted: bool) -> Tracker {
    let mut t = Tracker::new(settings());
    t.upsert_user(&APIInsertUser { id: 7, passkey: Passkey(PASSKEY) });
    t.upsert_user(&APIInsertUser { id: 8, passkey: Passkey(OTHER_PASSKEY) });
    t.upsert_torrent(&APIInsertTorrent {
        id: 1,
        info_hash: InfoHash(HASH),
        is_deleted,
        seeders: 0,
        leechers: 0,
        times_completed: 0,
        download_factor: 100,
        upload_factor: 100,
    });
    t
}

fn request(peer: u8, event: AnnounceEvent, left: u64, now: u64) -> AnnounceRequest {
    AnnounceRequest {
        info_hash: HASH.to_vec(),
        peer_id: vec![peer; 20],
        ip_address: IpAddress::V4([10, 0, 0, peer]),
        port: 6881,
        uploaded: 0,
        downloaded: 0,
        left,
        event,
        compact: true,
        numwant: 50,
        now,
    }
}

fn swarm_size(t: &Tracker) -> usize {
    t.torrent(1).unwrap().peers.len()
}

fn counts(t: &Tracker) -> (u32, u32) {
    let torrent = t.torrent(1).unwrap();
    (torrent.seeders, torrent.leechers)
}

fn assert_counters_match_swarm(t: &Tracker) {
    let torrent = t.torrent(1).unwrap();
    assert_eq!(torrent.seeders, torrent.peers.count(true));
    assert_eq!(torrent.leechers, torrent.peers.count(false));
}

#[test]
fn started_completed_stopped_scenario() {
    let mut t = tracker_with(false);
    t.announce(&PASSKEY, &request(1, AnnounceEvent::Started, 1000, 10)).unwrap();
    assert_eq!(swarm_size(&t), 1);
    assert_eq!(counts(&t), (0, 1));

    t.announce(&PASSKEY, &request(1, AnnounceEvent::Completed, 0, 20)).unwrap();
    assert_eq!(counts(&t), (1, 0));
    assert_eq!(t.torrent(1).unwrap().times_completed, 1);

    t.announce(&PASSKEY, &request(1, AnnounceEvent::Stopped, 0, 30)).unwrap();
    assert_eq!(swarm_size(&t), 0);
    assert_eq!(counts(&t), (0, 0));
}

#[test]
fn deleted_torrent_is_unavailable() {
    let mut t = tracker_with(true);
    for event in [
        AnnounceEvent::Started,
        AnnounceEvent::Empty,
        AnnounceEvent::Completed,
        AnnounceEvent::Stopped,
    ] {
        let r = t.announce(&PASSKEY, &request(1, event, 0, 10));
        assert_eq!(r.unwrap_err(), AnnounceError::TorrentUnavailable);
        assert_eq!(swarm_size(&t), 0);
        assert_eq!(counts(&t), (0, 0));
    }
}

#[test]
fn two_started_peers_both_count_in_either_order() {
    for order in [[1u8, 2u8], [2u8, 1u8]] {
        let mut t = tracker_with(false);
        for peer in order {
            let key: &[u8] = if peer == 1 { &PASSKEY } else { &OTHER_PASSKEY };
            assert!(t.announce(key, &request(peer, AnnounceEvent::Started, 500, 10)).is_ok());
        }
        let (seeders, leechers) = counts(&t);
        assert_eq!(seeders + leechers, 2);
        assert_eq!(swarm_size(&t), 2);
    }
}

#[test]
fn lifecycle_with_periodic_announces_is_net_zero() {
    let mut t = tracker_with(false);
    t.announce(&OTHER_PASSKEY, &request(9, AnnounceEvent::Started, 0, 1)).unwrap();
    let before = counts(&t);
    t.announce(&PASSKEY, &request(1, AnnounceEvent::Started, 1000, 10)).unwrap();
    t.announce(&PASSKEY, &request(1, AnnounceEvent::Empty, 500, 20)).unwrap();
    t.announce(&PASSKEY, &request(1, AnnounceEvent::Empty, 0, 30)).unwrap();
    assert_eq!(counts(&t), (2, 0));
    t.announce(&PASSKEY, &request(1, AnnounceEvent::Stopped, 0, 40)).unwrap();
    assert_eq!(counts(&t), before);
    assert_eq!(swarm_size(&t), 1);
}

#[test]
fn started_twice_keeps_one_entry() {
    let mut t = tracker_with(false);
    t.announce(&PASSKEY, &request(1, AnnounceEvent::Started, 1000, 10)).unwrap();
    t.announce(&PASSKEY, &request(1, AnnounceEvent::Started, 0, 20)).unwrap();
    assert_eq!(swarm_size(&t), 1);
    assert_eq!(counts(&t), (1, 0));
}

#[test]
fn same_peer_id_under_two_users_is_two_entries() {
    let mut t = tracker_with(false);
    t.announce(&PASSKEY, &request(1, AnnounceEvent::Started, 1000, 10)).unwrap();
    t.announce(&OTHER_PASSKEY, &request(1, AnnounceEvent::Started, 1000, 10)).unwrap();
    assert_eq!(swarm_size(&t), 2);
    assert_eq!(counts(&t), (0, 2));
}

#[test]
fn completion_is_counted_once() {
    let mut t = tracker_with(false);
    t.announce(&PASSKEY, &request(1, AnnounceEvent::Started, 1000, 10)).unwrap();
    for now in 20..25 {
        t.announce(&PASSKEY, &request(1, AnnounceEvent::Completed, 0, now)).unwrap();
        assert_eq!(t.torrent(1).unwrap().times_completed, 1);
    }
    assert_eq!(counts(&t), (1, 0));
}

#[test]
fn counters_follow_swarm_after_mixed_announces() {
    let mut t = tracker_with(false);
    let steps = [
        (1u8, AnnounceEvent::Started, 100u64),
        (2, AnnounceEvent::Started, 0),
        (3, AnnounceEvent::Empty, 50),
        (1, AnnounceEvent::Completed, 0),
        (2, AnnounceEvent::Empty, 10),
        (3, AnnounceEvent::Stopped, 0),
        (4, AnnounceEvent::Stopped, 0),
        (2, AnnounceEvent::Started, 0),
    ];
    for (i, (peer, event, left)) in steps.into_iter().enumerate() {
        t.announce(&PASSKEY, &request(peer, event, left, i as u64)).unwrap();
        assert_counters_match_swarm(&t);
    }
    assert_eq!(counts(&t), (2, 0));
}

#[test]
fn unknown_passkey_changes_nothing() {
    let mut t = tracker_with(false);
    t.announce(&PASSKEY, &request(1, AnnounceEvent::Started, 1000, 10)).unwrap();
    let unknown = [b'z'; 32];
    let r = t.announce(&unknown, &request(2, AnnounceEvent::Started, 0, 20));
    assert_eq!(r.unwrap_err(), AnnounceError::UnknownPasskey);
    let short = [b'k'; 5];
    let r = t.announce(&short, &request(2, AnnounceEvent::Started, 0, 20));
    assert_eq!(r.unwrap_err(), AnnounceError::UnknownPasskey);
    assert_eq!(t.resolve_user(&unknown), Err(AnnounceError::UnknownPasskey));
    assert_eq!(swarm_size(&t), 1);
    assert_eq!(counts(&t), (0, 1));
    assert_eq!(t.user(7).unwrap().num_leeching, 1);
}

#[test]
fn malformed_identifiers_are_refused() {
    let mut t = tracker_with(false);
    let mut req = request(1, AnnounceEvent::Started, 0, 10);
    req.info_hash = vec![0xAB; 19];
    assert_eq!(t.announce(&PASSKEY, &req).unwrap_err(), AnnounceError::MalformedIdentifier);
    let mut req = request(1, AnnounceEvent::Started, 0, 10);
    req.peer_id = vec![1; 21];
    assert_eq!(t.announce(&PASSKEY, &req).unwrap_err(), AnnounceError::MalformedIdentifier);
    assert_eq!(swarm_size(&t), 0);
}

#[test]
fn unregistered_torrent_is_refused() {
    let mut t = tracker_with(false);
    let mut req = request(1, AnnounceEvent::Started, 0, 10);
    req.info_hash = vec![0xCD; 20];
    assert_eq!(t.announce(&PASSKEY, &req).unwrap_err(), AnnounceError::UnregisteredTorrent);
    assert_eq!(
        t.resolve_torrent(&InfoHash([0xCD; 20])),
        Err(AnnounceError::UnregisteredTorrent)
    );
    assert_eq!(t.resolve_torrent(&InfoHash(HASH)), Ok(1));
}

#[test]
fn response_lists_other_peers_up_to_numwant() {
    let mut t = tracker_with(false);
    for peer in 1..=4u8 {
        t.announce(&PASSKEY, &request(peer, AnnounceEvent::Started, 100, 10)).unwrap();
    }
    let mut req = request(5, AnnounceEvent::Started, 0, 11);
    req.numwant = 2;
    let resp = t.announce(&PASSKEY, &req).unwrap();
    assert_eq!(resp.peers.len(), 2);
    assert_eq!(resp.complete, 1);
    assert_eq!(resp.incomplete, 4);
    assert_eq!(resp.interval, 1800);
    assert_eq!(resp.min_interval, 900);
    assert!(resp.peers.iter().all(|(k, _)| k.peer_id != PeerId([5; 20])));

    let resp = t.announce(&PASSKEY, &request(5, AnnounceEvent::Empty, 0, 12)).unwrap();
    assert_eq!(resp.peers.len(), 4);
    assert!(resp.peers.iter().all(|(k, _)| k.peer_id != PeerId([5; 20])));
}

#[test]
fn server_cap_limits_peer_list() {
    let mut t = Tracker::new(AnnounceSettings { interval: 60, min_interval: 30, max_peers: 1 });
    t.upsert_user(&APIInsertUser { id: 7, passkey: Passkey(PASSKEY) });
    t.upsert_torrent(&APIInsertTorrent {
        id: 1,
        info_hash: InfoHash(HASH),
        is_deleted: false,
        seeders: 0,
        leechers: 0,
        times_completed: 0,
        download_factor: 100,
        upload_factor: 100,
    });
    for peer in 1..=3u8 {
        t.announce(&PASSKEY, &request(peer, AnnounceEvent::Started, 100, 10)).unwrap();
    }
    let resp = t.announce(&PASSKEY, &request(4, AnnounceEvent::Started, 100, 10)).unwrap();
    assert_eq!(resp.peers.len(), 1);
}

#[test]
fn user_counters_follow_role_changes() {
    let mut t = tracker_with(false);
    t.announce(&PASSKEY, &request(1, AnnounceEvent::Started, 100, 10)).unwrap();
    t.announce(&PASSKEY, &request(2, AnnounceEvent::Started, 100, 10)).unwrap();
    let u = t.user(7).unwrap();
    assert_eq!((u.num_seeding, u.num_leeching), (0, 2));
    t.announce(&PASSKEY, &request(1, AnnounceEvent::Completed, 0, 20)).unwrap();
    let u = t.user(7).unwrap();
    assert_eq!((u.num_seeding, u.num_leeching), (1, 1));
    t.announce(&PASSKEY, &request(1, AnnounceEvent::Stopped, 0, 30)).unwrap();
    let u = t.user(7).unwrap();
    assert_eq!((u.num_seeding, u.num_leeching), (0, 1));
    t.upsert_user(&APIInsertUser { id: 7, passkey: Passkey(PASSKEY) });
    let u = t.user(7).unwrap();
    assert_eq!((u.num_seeding, u.num_leeching), (0, 0));
}

#[test]
fn refreshing_a_torrent_keeps_its_swarm() {
    let mut t = tracker_with(false);
    t.announce(&PASSKEY, &request(1, AnnounceEvent::Started, 0, 10)).unwrap();
    t.upsert_torrent(&APIInsertTorrent {
        id: 1,
        info_hash: InfoHash(HASH),
        is_deleted: true,
        seeders: 40,
        leechers: 40,
        times_completed: 12,
        download_factor: 50,
        upload_factor: 200,
    });
    let torrent = t.torrent(1).unwrap();
    assert_eq!(torrent.peers.len(), 1);
    assert_eq!((torrent.seeders, torrent.leechers), (1, 0));
    assert_eq!(torrent.times_completed, 12);
    assert!(torrent.is_deleted);
    assert_eq!(torrent.download_factor, 50);
    assert_eq!(torrent.upload_factor, 200);
    assert!(t.torrent(2).is_none());
}

#[test]
fn sweep_evicts_stale_peers() {
    let mut t = tracker_with(false);
    t.announce(&PASSKEY, &request(1, AnnounceEvent::Started, 100, 100)).unwrap();
    t.announce(&PASSKEY, &request(2, AnnounceEvent::Started, 0, 1000)).unwrap();
    t.announce(&PASSKEY, &request(3, AnnounceEvent::Started, 100, 1500)).unwrap();
    let evicted = t.evict_stale_peers(2000, 900);
    assert_eq!(evicted, 2);
    assert_eq!(swarm_size(&t), 1);
    assert_eq!(counts(&t), (0, 1));
    let u = t.user(7).unwrap();
    assert_eq!((u.num_seeding, u.num_leeching), (0, 1));
    assert_eq!(t.evict_stale_peers(2000, 900), 0);
    assert_counters_match_swarm(&t);
}

#[test]
fn compact_peer_list_bytes() {
    let peer = Peer {
        ip_address: IpAddress::V4([10, 0, 0, 1]),
        port: 6881,
        is_seeder: true,
        is_active: true,
        has_sent_completed: false,
        updated_at: 0,
        uploaded: 0,
        downloaded: 0,
    };
    let v6 = Peer { ip_address: IpAddress::V6([0; 16]), ..peer };
    let key = PeerIndex { user_id: 1, peer_id: PeerId([1; 20]) };
    let bytes = encode_compact_peers(&vec![(key, peer), (key, v6), (key, peer)]);
    assert_eq!(bytes, vec![10, 0, 0, 1, 0x1A, 0xE1, 10, 0, 0, 1, 0x1A, 0xE1]);
}

#[test]
fn response_body_bytes() {
    let peer = Peer {
        ip_address: IpAddress::V4([192, 168, 1, 20]),
        port: 80,
        is_seeder: false,
        is_active: true,
        has_sent_completed: false,
        updated_at: 0,
        uploaded: 0,
        downloaded: 0,
    };
    let key = PeerIndex { user_id: 1, peer_id: PeerId([b'p'; 20]) };
    let resp = AnnounceResponse {
        interval: 1800,
        min_interval: 900,
        complete: 3,
        incomplete: 12,
        peers: vec![(key, peer)],
    };
    let compact = encode_response(&resp, true);
    let mut expected = b"d8:completei3e10:incompletei12e8:intervali1800e12:min intervali900e5:peers6:"
        .to_vec();
    expected.extend_from_slice(&[192, 168, 1, 20, 0, 80]);
    expected.push(b'e');
    assert_eq!(compact, expected);

    let full = encode_response(&resp, false);
    let expected = format!(
        "d8:completei3e10:incompletei12e8:intervali1800e12:min intervali900e5:peersld2:ip12:192.168.1.207:peer id20:{}4:porti80eeee",
        "p".repeat(20)
    );
    assert_eq!(full, expected.into_bytes());
}

#[test]
fn ipv6_peer_in_dictionary_list() {
    let mut addr = [0u8; 16];
    addr[0] = 0x20;
    addr[1] = 0x01;
    addr[2] = 0x0d;
    addr[3] = 0xb8;
    addr[15] = 0x01;
    let peer = Peer {
        ip_address: IpAddress::V6(addr),
        port: 1,
        is_seeder: false,
        is_active: true,
        has_sent_completed: false,
        updated_at: 0,
        uploaded: 0,
        downloaded: 0,
    };
    let key = PeerIndex { user_id: 1, peer_id: PeerId([b'q'; 20]) };
    let resp =
        AnnounceResponse { interval: 0, min_interval: 0, complete: 0, incomplete: 0, peers: vec![(key, peer)] };
    let body = String::from_utf8(encode_response(&resp, false)).unwrap();
    assert!(body.contains("2:ip39:2001:0DB8:0000:0000:0000:0000:0000:0001"));
    let compact = encode_response(&resp, true);
    assert!(String::from_utf8(compact).unwrap().ends_with("5:peers0:e"));
}

#[test]
fn failure_body_bytes() {
    assert_eq!(encode_failure("unknown passkey"), b"d14:failure reason15:unknown passkeye".to_vec());
    let body = announce_body(&Err(AnnounceError::TorrentUnavailable), true);
    assert_eq!(body, b"d14:failure reason19:torrent unavailablee".to_vec());
    assert_eq!(AnnounceError::MalformedIdentifier.reason(), "malformed info_hash or peer_id");
}

#[test]
fn announce_body_of_accepted_announce() {
    let mut t = tracker_with(false);
    let r = t.announce(&PASSKEY, &request(1, AnnounceEvent::Started, 0, 10));
    let body = announce_body(&r, true);
    assert_eq!(
        body,
        b"d8:completei1e10:incompletei0e8:intervali1800e12:min intervali900e5:peers0:e".to_vec()
    );
}
