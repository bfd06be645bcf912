use arcadia_tracker::endpoint::is_authorized;
use arcadia_tracker::ids::{InfoHash, Passkey};
use arcadia_tracker::peer::IpAddress;
use arcadia_tracker::query::{find_param, parse_announce_query, parse_u64, percent_decode, InvalidEscape};
use arcadia_tracker::torrent::{APIInsertTorrent, AnnounceEvent};
use arcadia_tracker::tracker::{AnnounceError, AnnounceSettings, Tracker};
use arcadia_tracker::user::APIInsertUser;

const IP: IpAddress = IpAddress::V4([127, 0, 0, 1]);

fn escaped(bytes: &[u8]) -> String {
    bytes.iter().map(|b| format!("%{:02X}", b)).collect()
}

fn query(peer: u8, event: &str, left: u64) -> String {
    format!(
        "info_hash={}&peer_id={}&port=6881&uploaded=0&downloaded=0&left={}&event={}&compact=1",
        escaped(&[0xAB; 20]),
        escaped(&[peer; 20]),
        left,
        event
    )
}

#[test]
fn percent_decode_escapes_and_plain_bytes() {
    assert_eq!(percent_decode(b"a%20b%2Fc"), Ok(b"a b/c".to_vec()));
    assert_eq!(percent_decode(b"%ab%CD"), Ok(vec![0xAB, 0xCD]));
    assert_eq!(percent_decode(b""), Ok(vec![]));
    assert_eq!(percent_decode(b"%4"), Err(InvalidEscape));
    assert_eq!(percent_decode(b"%zz"), Err(InvalidEscape));
}

#[test]
fn parse_u64_bounds() {
    assert_eq!(parse_u64(b"0"), Some(0));
    assert_eq!(parse_u64(b"6881"), Some(6881));
    assert_eq!(parse_u64(b"18446744073709551615"), Some(u64::MAX));
    assert_eq!(parse_u64(b"18446744073709551616"), None);
    assert_eq!(parse_u64(b""), None);
    assert_eq!(parse_u64(b"12a"), None);
    assert_eq!(parse_u64(b"-1"), None);
}

#[test]
fn find_param_takes_first_exact_name() {
    let q = b"port=1&info_hash=x&port=2&portable=3";
    assert_eq!(find_param(q, b"port"), Some(b"1".to_vec()));
    assert_eq!(find_param(q, b"info_hash"), Some(b"x".to_vec()));
    assert_eq!(find_param(b"portable=3&port=9", b"port"), Some(b"9".to_vec()));
    assert_eq!(find_param(b"event=&left=0", b"event"), Some(vec![]));
    assert_eq!(find_param(b"left", b"left"), None);
    assert_eq!(find_param(b"", b"left"), None);
}

#[test]
fn parse_full_announce_query() {
    let q = format!("{}&numwant=30", query(1, "started", 1000));
    let req = parse_announce_query(q.as_bytes(), IP, 99).unwrap();
    assert_eq!(req.info_hash, vec![0xAB; 20]);
    assert_eq!(req.peer_id, vec![1; 20]);
    assert_eq!(req.port, 6881);
    assert_eq!(req.left, 1000);
    assert_eq!(req.event, AnnounceEvent::Started);
    assert!(req.compact);
    assert_eq!(req.numwant, 30);
    assert_eq!(req.ip_address, IP);
    assert_eq!(req.now, 99);
}

#[test]
fn parse_defaults_and_errors() {
    let q = "info_hash=a&peer_id=b&port=1&uploaded=2&downloaded=3&left=4";
    let req = parse_announce_query(q.as_bytes(), IP, 0).unwrap();
    assert_eq!(req.event, AnnounceEvent::Empty);
    assert!(!req.compact);
    assert_eq!(req.numwant, u32::MAX);

    let missing_left = "info_hash=a&peer_id=b&port=1&uploaded=2&downloaded=3";
    assert_eq!(
        parse_announce_query(missing_left.as_bytes(), IP, 0).unwrap_err(),
        AnnounceError::MalformedIdentifier
    );
    let big_port = "info_hash=a&peer_id=b&port=65536&uploaded=2&downloaded=3&left=4";
    assert!(parse_announce_query(big_port.as_bytes(), IP, 0).is_err());
    let bad_event = format!("{}&event=paused", q);
    assert!(parse_announce_query(bad_event.as_bytes(), IP, 0).is_err());
    let huge_numwant = format!("{}&numwant=99999999999", q);
    assert_eq!(parse_announce_query(huge_numwant.as_bytes(), IP, 0).unwrap().numwant, u32::MAX);
}

fn tracker() -> Tracker {
    let mut t = Tracker::new(AnnounceSettings { interval: 1800, min_interval: 900, max_peers: 50 });
    t.upsert_user(&APIInsertUser { id: 7, passkey: Passkey([b'k'; 32]) });
    t.upsert_torrent(&APIInsertTorrent {
        id: 1,
        info_hash: InfoHash([0xAB; 20]),
        is_deleted: false,
        seeders: 0,
        leechers: 0,
        times_completed: 0,
        download_factor: 100,
        upload_factor: 100,
    });
    t
}

#[test]
fn handle_announce_end_to_end() {
    let mut t = tracker();
    let passkey = [b'k'; 32];
    let body = t.handle_announce(&passkey, query(1, "started", 1000).as_bytes(), IP, 10);
    assert_eq!(
        body,
        b"d8:completei0e10:incompletei1e8:intervali1800e12:min intervali900e5:peers0:e".to_vec()
    );
    let body = t.handle_announce(&passkey, query(2, "started", 0).as_bytes(), IP, 11);
    let mut expected =
        b"d8:completei1e10:incompletei1e8:intervali1800e12:min intervali900e5:peers6:".to_vec();
    expected.extend_from_slice(&[127, 0, 0, 1, 0x1A, 0xE1]);
    expected.push(b'e');
    assert_eq!(body, expected);
}

#[test]
fn handle_announce_checks_passkey_before_query() {
    let mut t = tracker();
    let body = t.handle_announce(&[b'x'; 32], b"garbage", IP, 10);
    assert_eq!(body, b"d14:failure reason15:unknown passkeye".to_vec());
    let body = t.handle_announce(&[b'k'; 32], b"garbage", IP, 10);
    assert_eq!(body, b"d14:failure reason30:malformed info_hash or peer_ide".to_vec());
    let q = query(1, "started", 0).replace("%AB", "%CD");
    let body = t.handle_announce(&[b'k'; 32], q.as_bytes(), IP, 10);
    assert_eq!(body, b"d14:failure reason20:unregistered torrente".to_vec());
    assert_eq!(t.torrent(1).unwrap().peers.len(), 0);
}

#[test]
fn ingestion_key_check() {
    assert!(is_authorized(Some(b"SECRET-REDACTED"), b"SECRET-REDACTED"));
    assert!(!is_authorized(Some(b"wrong"), b"SECRET-REDACTED"));
    assert!(!is_authorized(Some(b""), b"SECRET-REDACTED"));
    assert!(!is_authorized(None, b"SECRET-REDACTED"));
}
