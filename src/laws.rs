//! Properties of announce sequences, proved from the one-step contract of
//! `Torrent::announce`.

use vstd::prelude::*;

use crate::peer::{count_peers, counted_opt, lookup, same_key, unique_keys, PeerIndex};
use crate::torrent::{announce_step, reported, AnnounceEvent, PeerReport, Torrent};

verus! {

/// `runs[i + 1]` is what announce `i` by `key` (event `events[i]`, report
/// `reports[i]`) made of `runs[i]`.
pub open spec fn announce_run(
    runs: Seq<Torrent>,
    key: PeerIndex,
    events: Seq<AnnounceEvent>,
    reports: Seq<PeerReport>,
) -> bool {
    &&& runs.len() == events.len() + 1
    &&& reports.len() == events.len()
    &&& forall|i: int|
        0 <= i < events.len() ==> #[trigger] announce_step(
            runs[i],
            runs[i + 1],
            key,
            events[i],
            reports[i],
        )
}

proof fn lemma_run_counts(
    runs: Seq<Torrent>,
    key: PeerIndex,
    events: Seq<AnnounceEvent>,
    reports: Seq<PeerReport>,
    n: int,
)
    requires
        announce_run(runs, key, events, reports),
        0 <= n < runs.len(),
    ensures
        count_peers(runs[n].peers@, true) + counted_opt(lookup(runs[0].peers@, key), true)
            == count_peers(runs[0].peers@, true) + counted_opt(lookup(runs[n].peers@, key), true),
        count_peers(runs[n].peers@, false) + counted_opt(lookup(runs[0].peers@, key), false)
            == count_peers(runs[0].peers@, false) + counted_opt(lookup(runs[n].peers@, key), false),
    decreases n,
{
    if n > 0 {
        lemma_run_counts(runs, key, events, reports, n - 1);
        let i = n - 1;
        assert(announce_step(runs[i], runs[i + 1], key, events[i], reports[i]));
    }
}

/// A peer that joins with `started`, announces periodically and leaves with
/// `stopped` leaves the torrent's seeder and leecher counts as it found them.
pub proof fn lemma_lifecycle_is_net_zero(
    runs: Seq<Torrent>,
    key: PeerIndex,
    events: Seq<AnnounceEvent>,
    reports: Seq<PeerReport>,
)
    requires
        announce_run(runs, key, events, reports),
        events.len() >= 2,
        events[0] == AnnounceEvent::Started,
        events.last() == AnnounceEvent::Stopped,
        forall|i: int| 0 < i < events.len() - 1 ==> events[i] == AnnounceEvent::Empty,
        forall|i: int| 0 <= i < runs.len() ==> (#[trigger] runs[i]).wf(),
        lookup(runs[0].peers@, key) is None,
    ensures
        runs.last().seeders == runs[0].seeders,
        runs.last().leechers == runs[0].leechers,
        runs.last().seeders + runs.last().leechers == runs[0].seeders + runs[0].leechers,
{
    let n = runs.len() - 1;
    lemma_run_counts(runs, key, events, reports, n);
    let i = n - 1;
        assert(announce_step(runs[i], runs[i + 1], key, events[i], reports[i]));
    assert(runs[n].wf() && runs[0].wf());
}

/// Announcing `started` twice under one key keeps a single entry for it: the
/// second announce leaves the swarm's size unchanged.
pub proof fn lemma_restart_keeps_one_entry(
    t0: Torrent,
    t1: Torrent,
    t2: Torrent,
    key: PeerIndex,
    r1: PeerReport,
    r2: PeerReport,
)
    requires
        announce_step(t0, t1, key, AnnounceEvent::Started, r1),
        announce_step(t1, t2, key, AnnounceEvent::Started, r2),
    ensures
        t2.peers@.len() == t1.peers@.len(),
        unique_keys(t2.peers@),
        lookup(t2.peers@, key) == Some(reported(r2, r2.left == 0, false)),
{
}

proof fn lemma_completion_run(
    runs: Seq<Torrent>,
    key: PeerIndex,
    events: Seq<AnnounceEvent>,
    reports: Seq<PeerReport>,
    n: int,
)
    requires
        announce_run(runs, key, events, reports),
        events.len() >= 1,
        events[0] == AnnounceEvent::Completed,
        forall|i: int|
            0 < i < events.len() ==> events[i] == AnnounceEvent::Completed || events[i]
                == AnnounceEvent::Empty,
        match lookup(runs[0].peers@, key) {
            Some(p) => !p.has_sent_completed,
            None => true,
        },
        runs[0].times_completed < u32::MAX,
        1 <= n < runs.len(),
    ensures
        runs[n].times_completed == runs[0].times_completed + 1,
        lookup(runs[n].peers@, key) matches Some(p) && p.has_sent_completed,
    decreases n,
{
    if n == 1 {
        let i = 0int;
        assert(announce_step(runs[i], runs[i + 1], key, events[i], reports[i]));
    } else {
        lemma_completion_run(runs, key, events, reports, n - 1);
        let i = n - 1;
        assert(announce_step(runs[i], runs[i + 1], key, events[i], reports[i]));
    }
}

/// A peer's first `completed` raises `times_completed` by exactly one, and any
/// further `completed` (or periodic) announces by the same peer leave it there.
pub proof fn lemma_completion_counted_once(
    runs: Seq<Torrent>,
    key: PeerIndex,
    events: Seq<AnnounceEvent>,
    reports: Seq<PeerReport>,
)
    requires
        announce_run(runs, key, events, reports),
        events.len() >= 1,
        events[0] == AnnounceEvent::Completed,
        forall|i: int|
            0 < i < events.len() ==> events[i] == AnnounceEvent::Completed || events[i]
                == AnnounceEvent::Empty,
        match lookup(runs[0].peers@, key) {
            Some(p) => !p.has_sent_completed,
            None => true,
        },
        runs[0].times_completed < u32::MAX,
    ensures
        forall|n: int|
            1 <= n < runs.len() ==> #[trigger] runs[n].times_completed == runs[0].times_completed
                + 1,
{
    assert forall|n: int| 1 <= n < runs.len() implies #[trigger] runs[n].times_completed
        == runs[0].times_completed + 1 by {
        lemma_completion_run(runs, key, events, reports, n);
    }
}

/// Two `started` announces by two different peers into an empty swarm leave
/// two peers counted, whichever comes first.
pub proof fn lemma_two_joins_both_count(
    t0: Torrent,
    t1: Torrent,
    t2: Torrent,
    k1: PeerIndex,
    k2: PeerIndex,
    r1: PeerReport,
    r2: PeerReport,
)
    requires
        t0.wf(),
        t1.wf(),
        t2.wf(),
        t0.peers@.len() == 0,
        !same_key(k1, k2),
        announce_step(t0, t1, k1, AnnounceEvent::Started, r1),
        announce_step(t1, t2, k2, AnnounceEvent::Started, r2),
    ensures
        t2.seeders + t2.leechers == 2,
        t2.peers@.len() == 2,
{
    assert(lookup(t0.peers@, k1) is None);
    assert(lookup(t1.peers@, k2) == lookup(t0.peers@, k2));
    assert(lookup(t0.peers@, k2) is None);
}

} // verus!
