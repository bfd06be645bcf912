//! Encoding of announce responses: bencoded dictionaries with compact or
//! dictionary peer lists.

use vstd::prelude::*;

use vstd::string::StringSliceAdditionalSpecFns;

use crate::hex::{hex_char, hex_encode};
use crate::peer::{IpAddress, Peer, PeerIndex};
use crate::tracker::{AnnounceError, AnnounceResponse};

verus! {

const ASCII_ZERO: u8 = 0x30;
const COLON: u8 = 0x3a;
const DOT: u8 = 0x2e;
const DICT_START: u8 = 0x64;
const INT_START: u8 = 0x69;
const LIST_START: u8 = 0x6c;
const END: u8 = 0x65;

/// The decimal digits of `n`, most significant first, without leading zeros.
pub open spec fn decimal(n: nat) -> Seq<u8>
    decreases n,
{
    if n < 10 {
        seq![(n + 0x30) as u8]
    } else {
        decimal(n / 10).push((n % 10 + 0x30) as u8)
    }
}

/// A bencoded integer: `i<decimal>e`.
pub open spec fn bencode_int(n: nat) -> Seq<u8> {
    seq![0x69u8] + decimal(n) + seq![0x65u8]
}

/// A bencoded byte string: `<length>:<bytes>`.
pub open spec fn bencode_bytes(b: Seq<u8>) -> Seq<u8> {
    decimal(b.len()) + seq![0x3au8] + b
}

/// A port in network byte order.
pub open spec fn port_bytes(port: u16) -> Seq<u8> {
    seq![(port / 256) as u8, (port % 256) as u8]
}

/// One peer in compact form: its IPv4 address and port, 6 bytes. An IPv6 peer
/// has no compact form and is left out.
pub open spec fn compact_entry(p: Peer) -> Seq<u8> {
    match p.ip_address {
        IpAddress::V4(a) => a@ + port_bytes(p.port),
        IpAddress::V6(_) => Seq::empty(),
    }
}

/// The compact peer string: the compact entries of all peers, concatenated.
pub open spec fn compact_peers(s: Seq<(PeerIndex, Peer)>) -> Seq<u8>
    decreases s.len(),
{
    if s.len() == 0 {
        Seq::empty()
    } else {
        compact_peers(s.drop_last()) + compact_entry(s.last().1)
    }
}

/// Dotted-decimal text of the first `k` bytes of an IPv4 address.
pub open spec fn dotted(a: Seq<u8>, k: nat) -> Seq<u8>
    decreases k,
{
    if k == 0 {
        Seq::empty()
    } else if k == 1 {
        decimal(a[0] as nat)
    } else {
        dotted(a, (k - 1) as nat) + seq![0x2eu8] + decimal(a[k - 1] as nat)
    }
}

/// One 16-bit group of an IPv6 address as four hex digits.
pub open spec fn hex_group(hi: u8, lo: u8) -> Seq<u8> {
    seq![hex_char(hi / 16), hex_char(hi % 16), hex_char(lo / 16), hex_char(lo % 16)]
}

/// Full (uncompressed) text of the first `k` groups of an IPv6 address.
pub open spec fn groups(a: Seq<u8>, k: nat) -> Seq<u8>
    decreases k,
{
    if k == 0 {
        Seq::empty()
    } else if k == 1 {
        hex_group(a[0], a[1])
    } else {
        groups(a, (k - 1) as nat) + seq![0x3au8] + hex_group(a[2 * k - 2], a[2 * k - 1])
    }
}

/// The text of an address.
pub open spec fn ip_text(ip: IpAddress) -> Seq<u8> {
    match ip {
        IpAddress::V4(a) => dotted(a@, 4),
        IpAddress::V6(a) => groups(a@, 8),
    }
}

/// One peer as a dictionary with keys `ip`, `peer id` and `port`.
pub open spec fn peer_dict(e: (PeerIndex, Peer)) -> Seq<u8> {
    seq![0x64u8] + bencode_bytes("ip".spec_bytes()) + bencode_bytes(ip_text(e.1.ip_address))
        + bencode_bytes("peer id".spec_bytes()) + bencode_bytes(e.0.peer_id.0@) + bencode_bytes(
        "port".spec_bytes(),
    ) + bencode_int(e.1.port as nat) + seq![0x65u8]
}

/// The dictionaries of all peers, concatenated.
pub open spec fn peer_dicts(s: Seq<(PeerIndex, Peer)>) -> Seq<u8>
    decreases s.len(),
{
    if s.len() == 0 {
        Seq::empty()
    } else {
        peer_dicts(s.drop_last()) + peer_dict(s.last())
    }
}

/// The value under `peers`: the compact string, or a list of dictionaries.
pub open spec fn peers_value(s: Seq<(PeerIndex, Peer)>, compact: bool) -> Seq<u8> {
    if compact {
        bencode_bytes(compact_peers(s))
    } else {
        seq![0x6cu8] + peer_dicts(s) + seq![0x65u8]
    }
}

/// The body that answers an accepted announce; the keys are in sorted order.
pub open spec fn response_body(r: AnnounceResponse, compact: bool) -> Seq<u8> {
    seq![0x64u8] + bencode_bytes("complete".spec_bytes()) + bencode_int(r.complete as nat)
        + bencode_bytes("incomplete".spec_bytes()) + bencode_int(r.incomplete as nat)
        + bencode_bytes("interval".spec_bytes()) + bencode_int(r.interval as nat) + bencode_bytes(
        "min interval".spec_bytes(),
    ) + bencode_int(r.min_interval as nat) + bencode_bytes("peers".spec_bytes()) + peers_value(
        r.peers@,
        compact,
    ) + seq![0x65u8]
}

/// The body that answers a refused announce: one `failure reason` key.
pub open spec fn failure_body(reason: Seq<u8>) -> Seq<u8> {
    seq![0x64u8] + bencode_bytes("failure reason".spec_bytes()) + bencode_bytes(reason) + seq![
        0x65u8,
    ]
}

/// The text sent to the client for each refusal.
pub open spec fn reason_text(e: AnnounceError) -> Seq<u8> {
    match e {
        AnnounceError::UnknownPasskey => "unknown passkey".spec_bytes(),
        AnnounceError::MalformedIdentifier => "malformed info_hash or peer_id".spec_bytes(),
        AnnounceError::UnregisteredTorrent => "unregistered torrent".spec_bytes(),
        AnnounceError::TorrentUnavailable => "torrent unavailable".spec_bytes(),
        AnnounceError::SwarmFull => "swarm is full".spec_bytes(),
    }
}

/// The body that answers an announce, whatever its outcome.
pub open spec fn announce_body_of(r: Result<AnnounceResponse, AnnounceError>, compact: bool) -> Seq<
    u8,
> {
    match r {
        Ok(resp) => response_body(resp, compact),
        Err(e) => failure_body(reason_text(e)),
    }
}

/// Appends the decimal digits of `n`.
pub fn write_decimal(out: &mut Vec<u8>, n: u64)
    ensures
        final(out)@ == old(out)@ + decimal(n as nat),
    decreases n,
{
    if n < 10 {
        out.push(n as u8 + ASCII_ZERO);
        assert(final(out)@ =~= old(out)@ + decimal(n as nat));
    } else {
        write_decimal(out, n / 10);
        out.push((n % 10) as u8 + ASCII_ZERO);
        assert(final(out)@ =~= old(out)@ + decimal(n as nat));
    }
}

/// Appends the bytes of a string.
fn write_str(out: &mut Vec<u8>, s: &str)
    ensures
        final(out)@ == old(out)@ + s.spec_bytes(),
{
    let b = s.as_bytes();
    write_bytes(out, b);
}

/// Appends a byte slice.
fn write_bytes(out: &mut Vec<u8>, b: &[u8])
    ensures
        final(out)@ == old(out)@ + b@,
{
    let ghost start = out@;
    let mut i: usize = 0;
    while i < b.len()
        invariant
            0 <= i <= b@.len(),
            out@ == start + b@.take(i as int),
        decreases b@.len() - i,
    {
        out.push(b[i]);
        i += 1;
        assert(out@ =~= start + b@.take(i as int));
    }
    assert(b@.take(b@.len() as int) =~= b@);
}

/// Appends a bencoded integer.
pub fn write_int(out: &mut Vec<u8>, n: u64)
    ensures
        final(out)@ == old(out)@ + bencode_int(n as nat),
{
    let ghost start = out@;
    out.push(INT_START);
    write_decimal(out, n);
    out.push(END);
    assert(out@ =~= start + bencode_int(n as nat));
}

/// Appends a bencoded byte string.
pub fn write_byte_string(out: &mut Vec<u8>, b: &[u8])
    ensures
        final(out)@ == old(out)@ + bencode_bytes(b@),
{
    let ghost start = out@;
    write_decimal(out, b.len() as u64);
    out.push(COLON);
    write_bytes(out, b);
    assert(out@ =~= start + bencode_bytes(b@));
}

/// Appends a bencoded string.
fn write_str_string(out: &mut Vec<u8>, s: &str)
    ensures
        final(out)@ == old(out)@ + bencode_bytes(s.spec_bytes()),
{
    write_byte_string(out, s.as_bytes());
}

/// The compact peer string of `peers`: 6 bytes for each IPv4 peer.
pub fn encode_compact_peers(peers: &Vec<(PeerIndex, Peer)>) -> (r: Vec<u8>)
    ensures
        r@ == compact_peers(peers@),
{
    let mut out: Vec<u8> = Vec::new();
    let mut i: usize = 0;
    while i < peers.len()
        invariant
            0 <= i <= peers@.len(),
            out@ == compact_peers(peers@.take(i as int)),
        decreases peers@.len() - i,
    {
        let (_, p) = peers[i];
        proof {
            assert(peers@.take(i + 1).drop_last() =~= peers@.take(i as int));
        }
        let ghost start = out@;
        match p.ip_address {
            IpAddress::V4(a) => {
                out.push(a[0]);
                out.push(a[1]);
                out.push(a[2]);
                out.push(a[3]);
                out.push((p.port / 256) as u8);
                out.push((p.port % 256) as u8);
                assert(out@ =~= start + compact_entry(p));
            },
            IpAddress::V6(_) => {
                assert(out@ =~= start + compact_entry(p));
            },
        }
        i += 1;
    }
    assert(peers@.take(peers@.len() as int) =~= peers@);
    out
}

/// Appends the text of an address.
fn write_ip_text(out: &mut Vec<u8>, ip: &IpAddress)
    ensures
        final(out)@ == old(out)@ + ip_text(*ip),
{
    let ghost start = out@;
    match ip {
        IpAddress::V4(a) => {
            let mut k: usize = 0;
            while k < 4
                invariant
                    0 <= k <= 4,
                    a@.len() == 4,
                    out@ == start + dotted(a@, k as nat),
                decreases 4 - k,
            {
                if k > 0 {
                    out.push(DOT);
                }
                write_decimal(out, a[k] as u64);
                k += 1;
                assert(out@ =~= start + dotted(a@, k as nat));
            }
        },
        IpAddress::V6(a) => {
            let mut k: usize = 0;
            while k < 8
                invariant
                    0 <= k <= 8,
                    a@.len() == 16,
                    out@ == start + groups(a@, k as nat),
                decreases 8 - k,
            {
                if k > 0 {
                    out.push(COLON);
                }
                let hi = hex_encode(a[2 * k]);
                let lo = hex_encode(a[2 * k + 1]);
                out.push(hi[0]);
                out.push(hi[1]);
                out.push(lo[0]);
                out.push(lo[1]);
                k += 1;
                assert(out@ =~= start + groups(a@, k as nat));
            }
        },
    }
}

/// Appends one peer as a dictionary.
fn write_peer_dict(out: &mut Vec<u8>, e: &(PeerIndex, Peer))
    ensures
        final(out)@ == old(out)@ + peer_dict(*e),
{
    let ghost start = out@;
    out.push(DICT_START);
    write_str_string(out, "ip");
    let mut text: Vec<u8> = Vec::new();
    write_ip_text(&mut text, &e.1.ip_address);
    assert(text@ =~= ip_text(e.1.ip_address));
    write_byte_string(out, text.as_slice());
    write_str_string(out, "peer id");
    write_byte_string(out, e.0.peer_id.0.as_slice());
    write_str_string(out, "port");
    write_int(out, e.1.port as u64);
    out.push(END);
    assert(out@ =~= start + peer_dict(*e));
}

/// Appends the `peers` value: the compact string, or a list of dictionaries.
fn write_peers(out: &mut Vec<u8>, peers: &Vec<(PeerIndex, Peer)>, compact: bool)
    ensures
        final(out)@ == old(out)@ + peers_value(peers@, compact),
{
    let ghost start = out@;
    if compact {
        let c = encode_compact_peers(peers);
        write_byte_string(out, c.as_slice());
    } else {
        out.push(LIST_START);
        let mut i: usize = 0;
        while i < peers.len()
            invariant
                0 <= i <= peers@.len(),
                out@ == start + seq![0x6cu8] + peer_dicts(peers@.take(i as int)),
            decreases peers@.len() - i,
        {
            proof {
                assert(peers@.take(i + 1).drop_last() =~= peers@.take(i as int));
            }
            write_peer_dict(out, &peers[i]);
            i += 1;
            assert(out@ =~= start + seq![0x6cu8] + peer_dicts(peers@.take(i as int)));
        }
        assert(peers@.take(peers@.len() as int) =~= peers@);
        out.push(END);
    }
    assert(out@ =~= start + peers_value(peers@, compact));
}

/// The bencoded body answering an accepted announce.
pub fn encode_response(resp: &AnnounceResponse, compact: bool) -> (r: Vec<u8>)
    ensures
        r@ == response_body(*resp, compact),
{
    let mut out: Vec<u8> = Vec::new();
    out.push(DICT_START);
    write_str_string(&mut out, "complete");
    write_int(&mut out, resp.complete as u64);
    write_str_string(&mut out, "incomplete");
    write_int(&mut out, resp.incomplete as u64);
    write_str_string(&mut out, "interval");
    write_int(&mut out, resp.interval as u64);
    write_str_string(&mut out, "min interval");
    write_int(&mut out, resp.min_interval as u64);
    write_str_string(&mut out, "peers");
    write_peers(&mut out, &resp.peers, compact);
    out.push(END);
    assert(out@ =~= response_body(*resp, compact));
    out
}

impl AnnounceError {
    /// The text sent to the client for this refusal.
    pub fn reason(&self) -> (r: &'static str)
        ensures
            r.spec_bytes() == reason_text(*self),
    {
        match self {
            AnnounceError::UnknownPasskey => "unknown passkey",
            AnnounceError::MalformedIdentifier => "malformed info_hash or peer_id",
            AnnounceError::UnregisteredTorrent => "unregistered torrent",
            AnnounceError::TorrentUnavailable => "torrent unavailable",
            AnnounceError::SwarmFull => "swarm is full",
        }
    }
}

/// The bencoded body answering a refused announce.
pub fn encode_failure(reason: &str) -> (r: Vec<u8>)
    ensures
        r@ == failure_body(reason.spec_bytes()),
{
    let mut out: Vec<u8> = Vec::new();
    out.push(DICT_START);
    write_str_string(&mut out, "failure reason");
    write_str_string(&mut out, reason);
    out.push(END);
    assert(out@ =~= failure_body(reason.spec_bytes()));
    out
}

/// The bencoded body answering an announce, accepted or refused.
pub fn announce_body(result: &Result<AnnounceResponse, AnnounceError>, compact: bool) -> (r: Vec<
    u8,
>)
    ensures
        r@ == announce_body_of(*result, compact),
{
    match result {
        Ok(resp) => encode_response(resp, compact),
        Err(e) => encode_failure(e.reason()),
    }
}

} // verus!
