//! Fixed-size identifiers: info-hashes, peer ids and passkeys.

use vstd::prelude::*;

use vstd::string::StringSliceAdditionalSpecFns;

use crate::hex::{hex_decode, hex_pair_value};

verus! {

/// Why a byte string is not a valid identifier.
#[derive(Clone, Copy, Debug, PartialEq, Eq, Structural)]
pub enum DecodeError {
    /// The decoded value does not have the identifier's length.
    WrongLength,
    /// A hex string holds a character that is not a hex digit.
    InvalidHexDigit,
}

/// The bytes that a string of hex digit pairs spells, or `None` when the length
/// is odd or some character is not a hex digit.
pub open spec fn hex_decoded(s: Seq<u8>) -> Option<Seq<u8>> {
    if s.len() % 2 == 0 && forall|i: int|
        0 <= i < s.len() / 2 ==> (#[trigger] hex_pair_value(s[2 * i], s[2 * i + 1])).is_some() {
        Some(Seq::new((s.len() / 2) as nat, |i: int| hex_pair_value(s[2 * i], s[2 * i + 1]).unwrap()))
    } else {
        None
    }
}

/// The bytes of `b` as an array, when `b` has exactly `N` of them.
fn copy_exact<const N: usize>(b: &[u8]) -> (r: Option<[u8; N]>)
    ensures
        match r {
            Some(a) => b@.len() == N && a@ == b@,
            None => b@.len() != N,
        },
{
    if b.len() != N {
        return None;
    }
    let mut out = [0u8; N];
    let mut i: usize = 0;
    while i < N
        invariant
            0 <= i <= N,
            b@.len() == N,
            out@.len() == N,
            forall|j: int| 0 <= j < i ==> out@[j] == b@[j],
        decreases N - i,
    {
        out[i] = b[i];
        i += 1;
    }
    assert(out@ =~= b@);
    Some(out)
}

/// The 20-byte identifier of a torrent's metadata.
#[derive(Clone, Copy, Debug, PartialEq, Eq, Hash)]
pub struct InfoHash(pub [u8; 20]);

/// The 20-byte identifier that a client instance picks for its session.
#[derive(Clone, Copy, Debug, PartialEq, Eq, Hash)]
pub struct PeerId(pub [u8; 20]);

/// The 32-byte token that identifies a user in announce URLs.
#[derive(Clone, Copy, Debug, PartialEq, Eq, Hash)]
pub struct Passkey(pub [u8; 32]);

/// Whether two arrays hold the same bytes.
pub fn bytes_equal<const N: usize>(a: &[u8; N], b: &[u8; N]) -> (r: bool)
    ensures
        r == (a@ == b@),
{
    let mut i: usize = 0;
    while i < N
        invariant
            0 <= i <= N,
            a@.len() == N,
            b@.len() == N,
            forall|j: int| 0 <= j < i ==> a@[j] == b@[j],
        decreases N - i,
    {
        if a[i] != b[i] {
            return false;
        }
        i += 1;
    }
    assert(a@ =~= b@);
    true
}

impl InfoHash {
    /// Takes an info-hash from its raw (already percent-decoded) bytes.
    pub fn from_bytes(b: &[u8]) -> (r: Result<InfoHash, DecodeError>)
        ensures
            match r {
                Ok(h) => b@.len() == 20 && h.0@ == b@,
                Err(e) => b@.len() != 20 && e == DecodeError::WrongLength,
            },
    {
        match copy_exact::<20>(b) {
            Some(a) => Ok(InfoHash(a)),
            None => Err(DecodeError::WrongLength),
        }
    }

    /// Reads an info-hash from its 40-character hex form, in either case.
    pub fn from_hex(s: &str) -> (r: Result<InfoHash, DecodeError>)
        ensures
            match r {
                Ok(h) => s.spec_bytes().len() == 40 && hex_decoded(s.spec_bytes()) == Some(h.0@),
                Err(e) => {
                    &&& s.spec_bytes().len() != 40 ==> e == DecodeError::WrongLength
                    &&& s.spec_bytes().len() == 40 ==> e == DecodeError::InvalidHexDigit
                        && hex_decoded(s.spec_bytes()).is_none()
                },
            },
    {
        let bytes = s.as_bytes();
        if bytes.len() != 40 {
            return Err(DecodeError::WrongLength);
        }
        let ghost sb = bytes@;
        let mut out = [0u8; 20];
        let mut pos: usize = 0;
        while pos < 20
            invariant
                0 <= pos <= 20,
                bytes@ == sb,
                sb == s.spec_bytes(),
                sb.len() == 40,
                out@.len() == 20,
                forall|j: int|
                    0 <= j < pos ==> #[trigger] hex_pair_value(sb[2 * j], sb[2 * j + 1]) == Some(
                        out@[j],
                    ),
            decreases 20 - pos,
        {
            match hex_decode([bytes[pos * 2], bytes[pos * 2 + 1]]) {
                Ok(v) => {
                    out[pos] = v;
                },
                Err(_) => {
                    assert(hex_pair_value(sb[2 * pos], sb[2 * pos + 1]).is_none());
                    assert(hex_decoded(sb).is_none());
                    return Err(DecodeError::InvalidHexDigit);
                },
            }
            pos += 1;
        }
        assert(hex_decoded(sb) == Some(out@)) by {
            assert forall|i: int| 0 <= i < sb.len() / 2 implies (#[trigger] hex_pair_value(
                sb[2 * i],
                sb[2 * i + 1],
            )).is_some() by {
                assert(hex_pair_value(sb[2 * i], sb[2 * i + 1]) == Some(out@[i]));
            }
            let d = Seq::new(
                (sb.len() / 2) as nat,
                |i: int| hex_pair_value(sb[2 * i], sb[2 * i + 1]).unwrap(),
            );
            assert(d =~= out@);
        }
        Ok(InfoHash(out))
    }

    /// Whether two info-hashes are the same bytes.
    pub fn same(&self, other: &InfoHash) -> (r: bool)
        ensures
            r == (self.0@ == other.0@),
    {
        bytes_equal(&self.0, &other.0)
    }
}

impl std::str::FromStr for InfoHash {
    type Err = DecodeError;

    fn from_str(s: &str) -> Result<InfoHash, DecodeError> {
        InfoHash::from_hex(s)
    }
}

impl PeerId {
    /// Takes a peer id from its raw (already percent-decoded) bytes.
    pub fn from_bytes(b: &[u8]) -> (r: Result<PeerId, DecodeError>)
        ensures
            match r {
                Ok(p) => b@.len() == 20 && p.0@ == b@,
                Err(e) => b@.len() != 20 && e == DecodeError::WrongLength,
            },
    {
        match copy_exact::<20>(b) {
            Some(a) => Ok(PeerId(a)),
            None => Err(DecodeError::WrongLength),
        }
    }

    /// Whether two peer ids are the same bytes.
    pub fn same(&self, other: &PeerId) -> (r: bool)
        ensures
            r == (self.0@ == other.0@),
    {
        bytes_equal(&self.0, &other.0)
    }
}

impl Passkey {
    /// Takes a passkey from the bytes of the announce URL's path segment.
    pub fn from_bytes(b: &[u8]) -> (r: Result<Passkey, DecodeError>)
        ensures
            match r {
                Ok(k) => b@.len() == 32 && k.0@ == b@,
                Err(e) => b@.len() != 32 && e == DecodeError::WrongLength,
            },
    {
        match copy_exact::<32>(b) {
            Some(a) => Ok(Passkey(a)),
            None => Err(DecodeError::WrongLength),
        }
    }

    /// Whether two passkeys are the same bytes.
    pub fn same(&self, other: &Passkey) -> (r: bool)
        ensures
            r == (self.0@ == other.0@),
    {
        bytes_equal(&self.0, &other.0)
    }
}

} // verus!
