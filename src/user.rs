//! Users as the tracker sees them: cross-swarm seeding and leeching counters.

use vstd::prelude::*;

use crate::ids::Passkey;
use crate::torrent::RoleChange;

verus! {

/// A user's count of active seeding and leeching peers, over all swarms.
#[derive(Clone, Copy, Debug, PartialEq, Eq, Structural)]
pub struct User {
    pub num_seeding: u32,
    pub num_leeching: u32,
}

/// A user record as the backend sends it for ingestion.
#[derive(Clone, Copy, Debug)]
pub struct APIInsertUser {
    pub id: u32,
    pub passkey: Passkey,
}

/// A counter after a peer stopped (`was`) or started (`is`) counting in it;
/// it stays within `0..=u32::MAX`.
pub open spec fn adjusted(n: u32, was: bool, is: bool) -> u32 {
    if was == is {
        n
    } else if was {
        if n > 0 {
            (n - 1) as u32
        } else {
            0
        }
    } else {
        if n < u32::MAX {
            (n + 1) as u32
        } else {
            n
        }
    }
}

/// A user's counters after one of their peers changed role.
pub open spec fn user_after(u: User, c: RoleChange) -> User {
    User {
        num_seeding: adjusted(u.num_seeding, c.before == Some(true), c.after == Some(true)),
        num_leeching: adjusted(u.num_leeching, c.before == Some(false), c.after == Some(false)),
    }
}

fn adjust(n: u32, was: bool, is: bool) -> (r: u32)
    ensures
        r == adjusted(n, was, is),
{
    if was == is {
        n
    } else if was {
        if n > 0 {
            n - 1
        } else {
            0
        }
    } else {
        if n < u32::MAX {
            n + 1
        } else {
            n
        }
    }
}

fn is_role(r: Option<bool>, seeding: bool) -> (b: bool)
    ensures
        b == (r == Some(seeding)),
{
    match r {
        Some(s) => s == seeding,
        None => false,
    }
}

impl User {
    /// A user with no active peers.
    pub fn new() -> (u: User)
        ensures
            u.num_seeding == 0 && u.num_leeching == 0,
    {
        User { num_seeding: 0, num_leeching: 0 }
    }

    /// The counters after one of this user's peers changed role.
    pub fn after_change(&self, c: RoleChange) -> (u: User)
        ensures
            u == user_after(*self, c),
    {
        User {
            num_seeding: adjust(self.num_seeding, is_role(c.before, true), is_role(c.after, true)),
            num_leeching: adjust(
                self.num_leeching,
                is_role(c.before, false),
                is_role(c.after, false),
            ),
        }
    }
}

} // verus!
