//! The two entry points a transport calls: the announce endpoint, which answers
//! with a bencoded body, and the check of the ingestion endpoints' shared key.

use vstd::prelude::*;

use crate::bencode::{announce_body, announce_body_of, failure_body, reason_text};
use crate::peer::IpAddress;
use crate::query::{parse_announce_query, query_complete, request_from_query};
use crate::tracker::{announce_outcome, AnnounceError, AnnounceRequest, AnnounceResponse, Tracker};

verus! {

impl Tracker {
    /// Answers `GET /{passkey}/announce?{query}` from a client at `ip` at time
    /// `now` with the bencoded body to send (always with transport success).
    ///
    /// The passkey is checked first, then the query is read, then the announce is
    /// applied as `announce` does.
    pub fn handle_announce(&mut self, passkey: &[u8], query: &[u8], ip: IpAddress, now: u64) -> (r:
        Vec<u8>)
        requires
            old(self).wf(),
        ensures
            final(self).wf(),
            if passkey@.len() != 32 || !old(self).passkey2id@.contains_key(passkey@) {
                &&& r@ == failure_body(reason_text(AnnounceError::UnknownPasskey))
                &&& *final(self) == *old(self)
            } else if !query_complete(query@) {
                &&& r@ == failure_body(reason_text(AnnounceError::MalformedIdentifier))
                &&& *final(self) == *old(self)
            } else {
                exists|req: AnnounceRequest, res: Result<AnnounceResponse, AnnounceError>|
                    #[trigger] request_from_query(query@, ip, now, req) && #[trigger] announce_outcome(
                        *old(self),
                        *final(self),
                        passkey@,
                        req,
                        res,
                    ) && r@ == announce_body_of(res, req.compact)
            },
    {
        if let Err(e) = self.resolve_user(passkey) {
            return announce_body(&Err(e), false);
        }
        let req = match parse_announce_query(query, ip, now) {
            Ok(req) => req,
            Err(e) => return announce_body(&Err(e), false),
        };
        let res = self.announce(passkey, &req);
        let body = announce_body(&res, req.compact);
        assert(request_from_query(query@, ip, now, req));
        body
    }
}

/// Whether the key sent to an ingestion endpoint is the configured shared key;
/// a request without one is not authorized.
pub fn is_authorized(sent: Option<&[u8]>, api_key: &[u8]) -> (r: bool)
    ensures
        r == (sent matches Some(k) && k@ == api_key@),
{
    match sent {
        Some(k) => {
            if k.len() != api_key.len() {
                return false;
            }
            let mut i: usize = 0;
            while i < k.len()
                invariant
                    0 <= i <= k@.len(),
                    k@.len() == api_key@.len(),
                    sent == Some(k),
                    forall|j: int| 0 <= j < i ==> k@[j] == api_key@[j],
                decreases k@.len() - i,
            {
                if k[i] != api_key[i] {
                    assert(k@[i as int] != api_key@[i as int]);
                    return false;
                }
                i += 1;
            }
            assert(k@ =~= api_key@);
            true
        },
        None => false,
    }
}

} // verus!
