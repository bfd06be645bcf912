//! The in-memory swarm engine of a private BitTorrent tracker.
//!
//! - `hex`, `ids`, `query`, `bencode`: the wire formats (hex digits, fixed-size
//!   identifiers, announce query strings, bencoded responses).
//! - `peer`, `torrent`: one swarm, its peer map and the announce state machine.
//! - `index`, `store`, `user`, `tracker`: the identity indices, the swarm store,
//!   the per-user counters and the announce engine over all of them.
//! - `endpoint`, `ingest`, `reconcile`, `restore`: the entry points a transport
//!   calls (announce, ingestion, the periodic sweep, loading from the database).
//! - `laws`: properties of announce sequences, proved from the contracts.
//! - `backend`: plain records of the backend service that feeds the tracker.

pub mod hex;
pub mod ids;
pub mod query;
pub mod bencode;
pub mod peer;
pub mod torrent;
pub mod laws;
pub mod index;
pub mod store;
pub mod user;
pub mod tracker;
pub mod endpoint;
pub mod ingest;
pub mod reconcile;
pub mod restore;
pub mod backend;
