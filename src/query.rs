//! Parsing of announce query strings: percent-decoding, decimal numbers and
//! parameter lookup, on raw bytes (info-hashes and peer ids are binary).

use vstd::prelude::*;

use vstd::string::StringSliceAdditionalSpecFns;

use crate::hex::{hex_decode, hex_pair_value};
use crate::peer::IpAddress;
use crate::torrent::AnnounceEvent;
use crate::tracker::{AnnounceError, AnnounceRequest};

verus! {

const PERCENT: u8 = 0x25;
const AMPERSAND: u8 = 0x26;
const EQUALS: u8 = 0x3d;
const ASCII_ZERO: u8 = 0x30;
const ASCII_NINE: u8 = 0x39;

/// `s` with each `%XY` escape replaced by the byte it spells; `None` when an
/// escape is cut short or is not two hex digits.
pub open spec fn percent_decoded(s: Seq<u8>) -> Option<Seq<u8>>
    decreases s.len(),
{
    if s.len() == 0 {
        Some(Seq::empty())
    } else if s[0] == 0x25 {
        if s.len() < 3 {
            None
        } else {
            match hex_pair_value(s[1], s[2]) {
                Some(b) => match percent_decoded(s.subrange(3, s.len() as int)) {
                    Some(rest) => Some(seq![b] + rest),
                    None => None,
                },
                None => None,
            }
        }
    } else {
        match percent_decoded(s.subrange(1, s.len() as int)) {
            Some(rest) => Some(seq![s[0]] + rest),
            None => None,
        }
    }
}

/// A URL escape that is cut short or is not two hex digits.
#[derive(Clone, Copy, Debug, PartialEq, Eq, Structural)]
pub struct InvalidEscape;

/// Decodes the `%XY` escapes of a query value.
pub fn percent_decode(s: &[u8]) -> (r: Result<Vec<u8>, InvalidEscape>)
    ensures
        match percent_decoded(s@) {
            Some(d) => r matches Ok(v) && v@ == d,
            None => r is Err,
        },
{
    let n = s.len();
    let mut out: Vec<u8> = Vec::new();
    let mut i: usize = 0;
    proof {
        assert(s@.subrange(0, n as int) =~= s@);
        match percent_decoded(s@) {
            Some(d) => assert(out@ + d =~= d),
            None => {},
        }
    }
    while i < n
        invariant
            0 <= i <= n,
            n == s@.len(),
            percent_decoded(s@) == match percent_decoded(s@.subrange(i as int, n as int)) {
                Some(rest) => Some(out@ + rest),
                None => None,
            },
        decreases n - i,
    {
        let ghost t = s@.subrange(i as int, n as int);
        if s[i] == PERCENT {
            if n - i < 3 {
                return Err(InvalidEscape);
            }
            let b = match hex_decode([s[i + 1], s[i + 2]]) {
                Ok(b) => b,
                Err(_) => return Err(InvalidEscape),
            };
            proof {
                assert(t[0] == s@[i as int] && t[1] == s@[i + 1] && t[2] == s@[i + 2]);
                assert(t.subrange(3, t.len() as int) =~= s@.subrange(i + 3, n as int));
                match percent_decoded(s@.subrange(i + 3, n as int)) {
                    Some(rest) => assert(out@ + (seq![b] + rest) =~= out@.push(b) + rest),
                    None => {},
                }
            }
            out.push(b);
            i = i + 3;
        } else {
            let c = s[i];
            proof {
                assert(t[0] == s@[i as int]);
                assert(t.subrange(1, t.len() as int) =~= s@.subrange(i + 1, n as int));
                match percent_decoded(s@.subrange(i + 1, n as int)) {
                    Some(rest) => assert(out@ + (seq![c] + rest) =~= out@.push(c) + rest),
                    None => {},
                }
            }
            out.push(c);
            i = i + 1;
        }
    }
    proof {
        assert(s@.subrange(n as int, n as int) =~= Seq::<u8>::empty());
        assert(out@ + Seq::<u8>::empty() =~= out@);
    }
    Ok(out)
}

/// Whether every byte of `s` is an ASCII digit.
pub open spec fn all_digits(s: Seq<u8>) -> bool {
    forall|i: int| 0 <= i < s.len() ==> 0x30 <= #[trigger] s[i] <= 0x39
}

/// The number that a string of ASCII digits spells.
pub open spec fn decimal_value(s: Seq<u8>) -> nat
    decreases s.len(),
{
    if s.len() == 0 {
        0
    } else {
        decimal_value(s.drop_last()) * 10 + (s.last() - 0x30) as nat
    }
}

proof fn lemma_decimal_prefix(s: Seq<u8>, i: int)
    requires
        all_digits(s),
        0 <= i <= s.len(),
    ensures
        decimal_value(s.take(i)) <= decimal_value(s),
    decreases s.len() - i,
{
    if i < s.len() {
        lemma_decimal_prefix(s, i + 1);
        assert(s.take(i + 1).drop_last() =~= s.take(i));
        assert(0x30 <= s[i] <= 0x39);
    } else {
        assert(s.take(i) =~= s);
    }
}

/// Reads a decimal `u64`: one or more ASCII digits whose value fits.
pub fn parse_u64(s: &[u8]) -> (r: Option<u64>)
    ensures
        r == if s@.len() > 0 && all_digits(s@) && decimal_value(s@) <= u64::MAX {
            Some(decimal_value(s@) as u64)
        } else {
            None::<u64>
        },
{
    if s.len() == 0 {
        return None;
    }
    let mut v: u64 = 0;
    let mut i: usize = 0;
    while i < s.len()
        invariant
            0 <= i <= s@.len(),
            all_digits(s@.take(i as int)),
            v == decimal_value(s@.take(i as int)),
        decreases s@.len() - i,
    {
        let c = s[i];
        proof {
            assert(s@.take(i + 1).drop_last() =~= s@.take(i as int));
        }
        if c < ASCII_ZERO || c > ASCII_NINE {
            assert(!all_digits(s@));
            return None;
        }
        let d = (c - ASCII_ZERO) as u64;
        if v > (u64::MAX - d) / 10 {
            proof {
                assert(v * 10 + d > u64::MAX) by (nonlinear_arith)
                    requires
                        v > (u64::MAX - d) / 10,
                        d <= 9,
                ;
                assert forall|j: int| 0 <= j < i + 1 implies 0x30 <= #[trigger] s@.take(i + 1)[j]
                    <= 0x39 by {
                    if j < i {
                        assert(s@.take(i + 1)[j] == s@.take(i as int)[j]);
                    }
                }
                if all_digits(s@) {
                    lemma_decimal_prefix(s@, i + 1);
                }
            }
            return None;
        }
        proof {
            assert(v * 10 + d <= u64::MAX) by (nonlinear_arith)
                requires
                    v <= (u64::MAX - d) / 10,
                    d <= 9,
            ;
            assert forall|j: int| 0 <= j < i + 1 implies 0x30 <= #[trigger] s@.take(i + 1)[j]
                <= 0x39 by {
                if j < i {
                    assert(s@.take(i + 1)[j] == s@.take(i as int)[j]);
                }
            }
        }
        v = v * 10 + d;
        i += 1;
    }
    assert(s@.take(s@.len() as int) =~= s@);
    Some(v)
}

/// The position of the first `c` in `s` at or after `from`; `s.len()` when none.
pub open spec fn byte_pos(s: Seq<u8>, c: u8, from: int) -> int
    decreases s.len() - from,
{
    if from >= s.len() {
        s.len() as int
    } else if s[from] == c {
        from
    } else {
        byte_pos(s, c, from + 1)
    }
}

proof fn lemma_byte_pos(s: Seq<u8>, c: u8, from: int)
    requires
        0 <= from <= s.len(),
    ensures
        from <= byte_pos(s, c, from) <= s.len(),
        byte_pos(s, c, from) < s.len() ==> s[byte_pos(s, c, from)] == c,
        forall|j: int| from <= j < byte_pos(s, c, from) ==> s[j] != c,
    decreases s.len() - from,
{
    if from < s.len() && s[from] != c {
        lemma_byte_pos(s, c, from + 1);
    }
}

/// Whether a `key=value` pair starts at `a`: at the start, or right after `&`.
pub open spec fn is_pair_start(q: Seq<u8>, a: int) -> bool {
    a == 0 || (0 < a <= q.len() && q[a - 1] == 0x26)
}

/// Whether the pair starting at `a` has the name `key`.
pub open spec fn names_key(q: Seq<u8>, a: int, key: Seq<u8>) -> bool {
    &&& is_pair_start(q, a)
    &&& 0 <= a
    &&& a + key.len() < byte_pos(q, 0x26, a)
    &&& q.subrange(a, a + key.len()) == key
    &&& q[a + key.len()] == 0x3d
}

/// The raw value of the pair starting at `a` with the name `key`.
pub open spec fn value_at(q: Seq<u8>, a: int, key: Seq<u8>) -> Seq<u8> {
    q.subrange(a + key.len() + 1, byte_pos(q, 0x26, a))
}

/// The raw value of the first pair of the query `q` named `key`, if any.
#[verifier::opaque]
pub open spec fn query_param(q: Seq<u8>, key: Seq<u8>) -> Option<Seq<u8>> {
    if exists|a: int| names_key(q, a, key) {
        let a = choose|a: int|
            names_key(q, a, key) && forall|b: int| 0 <= b < a ==> !names_key(q, b, key);
        Some(value_at(q, a, key))
    } else {
        None
    }
}

fn find_byte(s: &[u8], c: u8, from: usize) -> (r: usize)
    requires
        from <= s@.len(),
    ensures
        r == byte_pos(s@, c, from as int),
{
    let mut j = from;
    while j < s.len() && s[j] != c
        invariant
            from <= j <= s@.len(),
            byte_pos(s@, c, j as int) == byte_pos(s@, c, from as int),
        decreases s@.len() - j,
    {
        j += 1;
    }
    j
}

fn names_key_exec(q: &[u8], a: usize, end: usize, key: &[u8]) -> (r: bool)
    requires
        is_pair_start(q@, a as int),
        a <= end <= q@.len(),
        end == byte_pos(q@, 0x26, a as int),
    ensures
        r == names_key(q@, a as int, key@),
{
    if key.len() >= end - a {
        return false;
    }
    let mut k: usize = 0;
    while k < key.len()
        invariant
            0 <= k <= key@.len(),
            a + key@.len() < end,
            end <= q@.len(),
            forall|j: int| 0 <= j < k ==> q@[a + j] == key@[j],
        decreases key@.len() - k,
    {
        if q[a + k] != key[k] {
            assert(q@.subrange(a as int, a + key@.len())[k as int] != key@[k as int]);
            return false;
        }
        k += 1;
    }
    assert(q@.subrange(a as int, a + key@.len()) =~= key@);
    q[a + key.len()] == EQUALS
}

/// A copy of `s[from..to]`.
fn copy_range(s: &[u8], from: usize, to: usize) -> (r: Vec<u8>)
    requires
        from <= to <= s@.len(),
    ensures
        r@ == s@.subrange(from as int, to as int),
{
    let mut out: Vec<u8> = Vec::new();
    let mut k = from;
    while k < to
        invariant
            from <= k <= to,
            to <= s@.len(),
            out@ == s@.subrange(from as int, k as int),
        decreases to - k,
    {
        out.push(s[k]);
        k += 1;
        assert(out@ =~= s@.subrange(from as int, k as int));
    }
    out
}

/// The raw (still percent-encoded) value of the first pair of the query `q`
/// named `key`.
pub fn find_param(q: &[u8], key: &[u8]) -> (r: Option<Vec<u8>>)
    ensures
        match query_param(q@, key@) {
            Some(v) => r matches Some(w) && w@ == v,
            None => r is None,
        },
{
    let mut a: usize = 0;
    loop
        invariant
            a <= q@.len(),
            is_pair_start(q@, a as int),
            forall|b: int| 0 <= b < a ==> !names_key(q@, b, key@),
        ensures
            forall|b: int| 0 <= b <= q@.len() ==> !names_key(q@, b, key@),
        decreases q@.len() + 1 - a,
    {
        let end = find_byte(q, AMPERSAND, a);
        proof {
            lemma_byte_pos(q@, 0x26, a as int);
        }
        if names_key_exec(q, a, end, key) {
            let v = copy_range(q, a + key.len() + 1, end);
            proof {
                reveal(query_param);
                let c = choose|c: int|
                    names_key(q@, c, key@) && forall|b: int| 0 <= b < c ==> !names_key(q@, b, key@);
                assert(names_key(q@, a as int, key@));
                if c < a {
                } else if c > a {
                    assert(!names_key(q@, a as int, key@));
                }
                assert(c == a);
            }
            return Some(v);
        }
        proof {
            assert forall|b: int| 0 <= b < end + 1 implies !names_key(q@, b, key@) by {
                if a < b && b <= end && names_key(q@, b, key@) {
                    assert(q@[b - 1] == 0x26);
                }
            }
        }
        if end == q.len() {
            break;
        }
        a = end + 1;
    }
    proof {
        reveal(query_param);
        assert(!exists|b: int| names_key(q@, b, key@)) by {
            if exists|b: int| names_key(q@, b, key@) {
                let b = choose|b: int| names_key(q@, b, key@);
                lemma_byte_pos(q@, 0x26, b);
            }
        }
    }
    None
}

/// The percent-decoded value of the parameter `key`.
pub open spec fn decoded_param(q: Seq<u8>, key: &str) -> Option<Seq<u8>> {
    match query_param(q, key.spec_bytes()) {
        Some(v) => percent_decoded(v),
        None => None,
    }
}

/// The decimal value of the parameter `key`, when it is a `u64`.
pub open spec fn number_param(q: Seq<u8>, key: &str) -> Option<nat> {
    match query_param(q, key.spec_bytes()) {
        Some(v) => if v.len() > 0 && all_digits(v) && decimal_value(v) <= u64::MAX {
            Some(decimal_value(v))
        } else {
            None
        },
        None => None,
    }
}

/// The event an `event` value names; `empty` and the empty string name the
/// periodic announce.
pub open spec fn event_named(v: Seq<u8>) -> Option<AnnounceEvent> {
    if v == "started".spec_bytes() {
        Some(AnnounceEvent::Started)
    } else if v == "stopped".spec_bytes() {
        Some(AnnounceEvent::Stopped)
    } else if v == "completed".spec_bytes() {
        Some(AnnounceEvent::Completed)
    } else if v == "empty".spec_bytes() || v.len() == 0 {
        Some(AnnounceEvent::Empty)
    } else {
        None
    }
}

/// The announce's event: the periodic announce when the query names none.
pub open spec fn event_param(q: Seq<u8>) -> Option<AnnounceEvent> {
    match query_param(q, "event".spec_bytes()) {
        Some(v) => event_named(v),
        None => Some(AnnounceEvent::Empty),
    }
}

/// How many peers the client wants: as many as the tracker allows when the
/// query does not say, and at most `u32::MAX`.
pub open spec fn numwant_param(q: Seq<u8>) -> Option<u32> {
    match query_param(q, "numwant".spec_bytes()) {
        Some(_) => match number_param(q, "numwant") {
            Some(n) => Some(
                if n <= u32::MAX {
                    n as u32
                } else {
                    u32::MAX
                },
            ),
            None => None,
        },
        None => Some(u32::MAX),
    }
}

/// Whether the query holds every field an announce needs, each well formed.
pub open spec fn query_complete(q: Seq<u8>) -> bool {
    &&& decoded_param(q, "info_hash") is Some
    &&& decoded_param(q, "peer_id") is Some
    &&& number_param(q, "port") matches Some(p) && p <= u16::MAX
    &&& number_param(q, "uploaded") is Some
    &&& number_param(q, "downloaded") is Some
    &&& number_param(q, "left") is Some
    &&& event_param(q) is Some
    &&& numwant_param(q) is Some
}

/// `req` is what the complete query `q` says, for a client at `ip` at time `now`.
pub open spec fn request_from_query(q: Seq<u8>, ip: IpAddress, now: u64, req: AnnounceRequest) -> bool {
    &&& query_complete(q)
    &&& decoded_param(q, "info_hash") == Some(req.info_hash@)
    &&& decoded_param(q, "peer_id") == Some(req.peer_id@)
    &&& number_param(q, "port") == Some(req.port as nat)
    &&& number_param(q, "uploaded") == Some(req.uploaded as nat)
    &&& number_param(q, "downloaded") == Some(req.downloaded as nat)
    &&& number_param(q, "left") == Some(req.left as nat)
    &&& event_param(q) == Some(req.event)
    &&& req.compact == (query_param(q, "compact".spec_bytes()) == Some("1".spec_bytes()))
    &&& numwant_param(q) == Some(req.numwant)
    &&& req.ip_address == ip
    &&& req.now == now
}

fn same_as_str(v: &[u8], s: &str) -> (r: bool)
    ensures
        r == (v@ == s.spec_bytes()),
{
    let b = s.as_bytes();
    if v.len() != b.len() {
        return false;
    }
    let mut i: usize = 0;
    while i < v.len()
        invariant
            0 <= i <= v@.len(),
            v@.len() == b@.len(),
            b@ == s.spec_bytes(),
            forall|j: int| 0 <= j < i ==> v@[j] == b@[j],
        decreases v@.len() - i,
    {
        if v[i] != b[i] {
            assert(v@[i as int] != b@[i as int]);
            return false;
        }
        i += 1;
    }
    assert(v@ =~= b@);
    true
}

fn decoded(q: &[u8], key: &str) -> (r: Option<Vec<u8>>)
    ensures
        match decoded_param(q@, key) {
            Some(d) => r matches Some(v) && v@ == d,
            None => r is None,
        },
{
    match find_param(q, key.as_bytes()) {
        Some(raw) => match percent_decode(raw.as_slice()) {
            Ok(v) => Some(v),
            Err(_) => None,
        },
        None => None,
    }
}

fn number(q: &[u8], key: &str) -> (r: Option<u64>)
    ensures
        match number_param(q@, key) {
            Some(n) => r == Some(n as u64),
            None => r is None,
        },
{
    match find_param(q, key.as_bytes()) {
        Some(raw) => parse_u64(raw.as_slice()),
        None => None,
    }
}

fn event(q: &[u8]) -> (r: Option<AnnounceEvent>)
    ensures
        r == event_param(q@),
{
    match find_param(q, "event".as_bytes()) {
        Some(raw) => {
            let v = raw.as_slice();
            if same_as_str(v, "started") {
                Some(AnnounceEvent::Started)
            } else if same_as_str(v, "stopped") {
                Some(AnnounceEvent::Stopped)
            } else if same_as_str(v, "completed") {
                Some(AnnounceEvent::Completed)
            } else if same_as_str(v, "empty") || v.len() == 0 {
                Some(AnnounceEvent::Empty)
            } else {
                None
            }
        },
        None => Some(AnnounceEvent::Empty),
    }
}

fn numwant(q: &[u8]) -> (r: Option<u32>)
    ensures
        r == numwant_param(q@),
{
    match find_param(q, "numwant".as_bytes()) {
        Some(_) => match number(q, "numwant") {
            Some(n) => Some(
                if n <= 4294967295 {
                    n as u32
                } else {
                    u32::MAX
                },
            ),
            None => None,
        },
        None => Some(u32::MAX),
    }
}

/// Reads an announce from its query string, for a client at `ip` at time `now`.
/// The info-hash and peer id are taken percent-decoded; their lengths are checked
/// when the announce is applied. Any missing or malformed field makes the query
/// `MalformedIdentifier`.
pub fn parse_announce_query(q: &[u8], ip: IpAddress, now: u64) -> (r: Result<
    AnnounceRequest,
    AnnounceError,
>)
    ensures
        match r {
            Ok(req) => request_from_query(q@, ip, now, req),
            Err(e) => e == AnnounceError::MalformedIdentifier && !query_complete(q@),
        },
{
    let info_hash = match decoded(q, "info_hash") {
        Some(v) => v,
        None => return Err(AnnounceError::MalformedIdentifier),
    };
    let peer_id = match decoded(q, "peer_id") {
        Some(v) => v,
        None => return Err(AnnounceError::MalformedIdentifier),
    };
    let port = match number(q, "port") {
        Some(p) => if p <= 65535 {
            p as u16
        } else {
            return Err(AnnounceError::MalformedIdentifier);
        },
        None => return Err(AnnounceError::MalformedIdentifier),
    };
    let uploaded = match number(q, "uploaded") {
        Some(n) => n,
        None => return Err(AnnounceError::MalformedIdentifier),
    };
    let downloaded = match number(q, "downloaded") {
        Some(n) => n,
        None => return Err(AnnounceError::MalformedIdentifier),
    };
    let left = match number(q, "left") {
        Some(n) => n,
        None => return Err(AnnounceError::MalformedIdentifier),
    };
    let event = match event(q) {
        Some(e) => e,
        None => return Err(AnnounceError::MalformedIdentifier),
    };
    let numwant = match numwant(q) {
        Some(n) => n,
        None => return Err(AnnounceError::MalformedIdentifier),
    };
    let compact = match find_param(q, "compact".as_bytes()) {
        Some(v) => same_as_str(v.as_slice(), "1"),
        None => false,
    };
    Ok(
        AnnounceRequest {
            info_hash,
            peer_id,
            ip_address: ip,
            port,
            uploaded,
            downloaded,
            left,
            event,
            compact,
            numwant,
            now,
        },
    )
}

} // verus!
