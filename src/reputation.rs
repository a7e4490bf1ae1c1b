//! A time-bounded cache of an address reputation list (exit-node addresses).
//!
//! A read answers from the current snapshot while it is fresh. Once it is stale
//! the caller fetches the list again and hands over the outcome, which replaces
//! the snapshot on success and leaves the old one in place on failure.
use vstd::prelude::*;

use crate::address::IpAddress;

verus! {

/// How long a snapshot may be used before it is refreshed: 30 minutes, in nanoseconds.
pub const MAX_AGE_NANOS: u64 = 1_800_000_000_000;

/// A complete copy of the list, taken at `fetched_at` (nanoseconds on the caller's clock).
#[derive(Clone, Debug)]
pub struct Snapshot {
    pub fetched_at: u64,
    pub addresses: Vec<IpAddress>,
}

/// The mathematical content of a [`Snapshot`].
pub struct SnapshotModel {
    pub fetched_at: u64,
    pub addresses: Set<IpAddress>,
}

impl View for Snapshot {
    type V = SnapshotModel;

    open spec fn view(&self) -> SnapshotModel {
        SnapshotModel { fetched_at: self.fetched_at, addresses: self.addresses@.to_set() }
    }
}

/// Time elapsed from `fetched_at` to `now`; zero when the clock reads earlier.
pub open spec fn age(fetched_at: u64, now: u64) -> int {
    if now >= fetched_at {
        now - fetched_at
    } else {
        0
    }
}

/// A snapshot is fresh up to and including the 30-minute boundary.
pub open spec fn fresh_at(s: SnapshotModel, now: u64) -> bool {
    age(s.fetched_at, now) <= MAX_AGE_NANOS
}

/// The snapshot that is current after a refresh attempt with outcome `fetched`.
pub open spec fn after_refresh(s: SnapshotModel, fetched: Option<SnapshotModel>) -> SnapshotModel {
    match fetched {
        Some(n) => n,
        None => s,
    }
}

/// The mathematical content of a refresh outcome.
pub open spec fn outcome_view(fetched: Option<Snapshot>) -> Option<SnapshotModel> {
    match fetched {
        Some(s) => Some(s@),
        None => None,
    }
}

/// One lookup of `addr` at time `now` against snapshot `s`, where `fetched` is
/// what the list source would give if asked: the snapshot current afterwards
/// and the answer.
pub open spec fn lookup_step(s: SnapshotModel, addr: IpAddress, now: u64, fetched: Option<
    SnapshotModel,
>) -> (SnapshotModel, bool) {
    if fresh_at(s, now) {
        (s, s.addresses.contains(addr))
    } else {
        let t = after_refresh(s, fetched);
        (t, t.addresses.contains(addr))
    }
}

/// The snapshot current after refresh attempts with `outcomes`, one after
/// another, starting from `s`.
pub open spec fn refresh_all(s: SnapshotModel, outcomes: Seq<Option<SnapshotModel>>) -> SnapshotModel
    decreases outcomes.len(),
{
    if outcomes.len() == 0 {
        s
    } else {
        after_refresh(refresh_all(s, outcomes.drop_last()), outcomes.last())
    }
}

/// Lookups that all found the snapshot stale, served one after another under
/// exclusive access: lookup `i` of `addrs[i]` met refresh outcome `outcomes[i]`.
/// The snapshot current afterwards and the answers, in order.
pub open spec fn serve_stale_lookups(
    s: SnapshotModel,
    addrs: Seq<IpAddress>,
    outcomes: Seq<Option<SnapshotModel>>,
) -> (SnapshotModel, Seq<bool>)
    decreases addrs.len(),
{
    if addrs.len() == 0 || outcomes.len() == 0 {
        (s, seq![])
    } else {
        let (t, answers) = serve_stale_lookups(s, addrs.drop_last(), outcomes.drop_last());
        let u = after_refresh(t, outcomes.last());
        (u, answers.push(u.addresses.contains(addrs.last())))
    }
}

/// Repeated lookups of one address at one instant, with the list source giving
/// the same outcome each time, give the same answer and leave the same
/// snapshot; an outcome that succeeds is a list fetched at that instant.
pub proof fn lemma_repeated_lookups_agree(
    s: SnapshotModel,
    addr: IpAddress,
    now: u64,
    fetched: Option<SnapshotModel>,
)
    requires
        fetched matches Some(n) ==> n.fetched_at == now,
    ensures
        ({
            let (t, first) = lookup_step(s, addr, now, fetched);
            let (u, second) = lookup_step(t, addr, now, fetched);
            first == second && t == u
        }),
{
}

/// A snapshot whose age is exactly the window is fresh; one second more and it
/// is stale, so the next read asks for a refresh.
pub proof fn lemma_staleness_boundary(s: SnapshotModel)
    requires
        s.fetched_at + MAX_AGE_NANOS + 1_000_000_000 <= u64::MAX,
    ensures
        fresh_at(s, (s.fetched_at + MAX_AGE_NANOS) as u64),
        !fresh_at(s, (s.fetched_at + MAX_AGE_NANOS + 1_000_000_000) as u64),
{
}

/// Stale lookups served one after another each answer from one whole snapshot:
/// the one that the last successful refresh up to and including its own
/// brought, or the starting one when every one of those failed.
pub proof fn lemma_stale_lookups_answer_from_whole_snapshots(
    s: SnapshotModel,
    addrs: Seq<IpAddress>,
    outcomes: Seq<Option<SnapshotModel>>,
)
    requires
        outcomes.len() == addrs.len(),
    ensures
        serve_stale_lookups(s, addrs, outcomes).0 == refresh_all(s, outcomes),
        serve_stale_lookups(s, addrs, outcomes).1.len() == addrs.len(),
        forall|i: int|
            0 <= i < addrs.len() ==> #[trigger] serve_stale_lookups(s, addrs, outcomes).1[i]
                == refresh_all(s, outcomes.take(i + 1)).addresses.contains(addrs[i]),
    decreases addrs.len(),
{
    if addrs.len() > 0 {
        let n = addrs.len() - 1;
        lemma_stale_lookups_answer_from_whole_snapshots(s, addrs.drop_last(), outcomes.drop_last());
        assert(outcomes.take(n + 1) =~= outcomes);
        assert forall|i: int| 0 <= i < n implies #[trigger] outcomes.drop_last().take(i + 1)
            == outcomes.take(i + 1) by {
            assert(outcomes.drop_last().take(i + 1) =~= outcomes.take(i + 1));
        }
    }
}

/// After refresh attempts one after another, the current snapshot is the one
/// from the last attempt that succeeded, or the starting one when none did: never
/// a mixture.
pub proof fn lemma_refresh_keeps_whole_snapshot(
    s: SnapshotModel,
    outcomes: Seq<Option<SnapshotModel>>,
)
    ensures
        (forall|j: int| 0 <= j < outcomes.len() ==> outcomes[j] is None) ==> refresh_all(
            s,
            outcomes,
        ) == s,
        (exists|j: int| 0 <= j < outcomes.len() && outcomes[j] is Some) ==> exists|j: int|
            0 <= j < outcomes.len() && outcomes[j] == Some(refresh_all(s, outcomes)) && (forall|
                k: int,
            | j < k < outcomes.len() ==> outcomes[k] is None),
    decreases outcomes.len(),
{
    if outcomes.len() > 0 {
        let n = outcomes.len() - 1;
        let init = outcomes.drop_last();
        lemma_refresh_keeps_whole_snapshot(s, init);
        if outcomes[n] is Some {
            assert(outcomes[n] == Some(refresh_all(s, outcomes)));
            assert(forall|k: int| n < k < outcomes.len() ==> outcomes[k] is None);
        } else {
            assert forall|j: int| 0 <= j < init.len() && outcomes[j] is None implies init[j] is None by {}
            if exists|j: int| 0 <= j < outcomes.len() && outcomes[j] is Some {
                let j0 = choose|j: int| 0 <= j < outcomes.len() && outcomes[j] is Some;
                assert(init[j0] is Some);
                let j = choose|j: int|
                    0 <= j < init.len() && init[j] == Some(refresh_all(s, init)) && (forall|k: int|
                        j < k < init.len() ==> init[k] is None);
                assert(outcomes[j] == Some(refresh_all(s, outcomes)));
                assert(forall|k: int| j < k < outcomes.len() ==> outcomes[k] is None) by {
                    assert(forall|k: int| j < k < init.len() ==> init[k] == outcomes[k]);
                }
            }
        }
    }
}

/// What a read under shared access decides.
#[derive(PartialEq, Eq, Structural, Clone, Copy, Debug)]
pub enum ReadOutcome {
    /// The snapshot is fresh; this is the answer.
    Fresh(bool),
    /// The snapshot is stale: refresh under exclusive access, then answer.
    Stale,
}

/// The cache: exactly one current snapshot.
#[derive(Clone, Debug)]
pub struct ReputationCache {
    snapshot: Snapshot,
}

impl View for ReputationCache {
    type V = SnapshotModel;

    closed spec fn view(&self) -> SnapshotModel {
        self.snapshot@
    }
}

impl ReputationCache {
    /// A cache holding the initial snapshot.
    pub fn new(snapshot: Snapshot) -> (r: ReputationCache)
        ensures
            r@ == snapshot@,
    {
        ReputationCache { snapshot }
    }

    /// When the current snapshot was fetched.
    pub fn last_updated_at(&self) -> (r: u64)
        ensures
            r == self@.fetched_at,
    {
        self.snapshot.fetched_at
    }

    /// Whether the current snapshot is fresh at `now`.
    pub fn is_fresh(&self, now: u64) -> (r: bool)
        ensures
            r == fresh_at(self@, now),
    {
        let age: u64 = if now >= self.snapshot.fetched_at {
            now - self.snapshot.fetched_at
        } else {
            0
        };
        age <= MAX_AGE_NANOS
    }

    /// Whether the current snapshot lists `addr`, however old it is.
    pub fn cache_contains(&self, addr: &IpAddress) -> (r: bool)
        ensures
            r == self@.addresses.contains(*addr),
    {
        let mut i: usize = 0;
        while i < self.snapshot.addresses.len()
            invariant
                i <= self.snapshot.addresses@.len(),
                forall|k: int| 0 <= k < i ==> self.snapshot.addresses@[k] != *addr,
            decreases self.snapshot.addresses@.len() - i,
        {
            if self.snapshot.addresses[i] == *addr {
                proof {
                    assert(self.snapshot.addresses@.contains(*addr));
                }
                return true;
            }
            i += 1;
        }
        false
    }

    /// Takes the outcome of a refresh attempt: a new snapshot replaces the
    /// current one whole; a failed fetch leaves the current one in place.
    pub fn update(&mut self, fetched: Option<Snapshot>)
        ensures
            final(self)@ == after_refresh(old(self)@, outcome_view(fetched)),
    {
        match fetched {
            Some(s) => {
                self.snapshot = s;
            },
            None => {},
        }
    }

    /// The read under shared access: the answer when the snapshot is fresh at
    /// `now`, otherwise word that a refresh is due.
    pub fn read(&self, addr: &IpAddress, now: u64) -> (r: ReadOutcome)
        ensures
            fresh_at(self@, now) ==> r == ReadOutcome::Fresh(
                lookup_step(self@, *addr, now, None).1,
            ),
            !fresh_at(self@, now) ==> r == ReadOutcome::Stale,
    {
        if self.is_fresh(now) {
            ReadOutcome::Fresh(self.cache_contains(addr))
        } else {
            ReadOutcome::Stale
        }
    }

    /// The read under exclusive access after a stale shared read: take the
    /// refresh outcome, then answer from whatever snapshot is current.
    pub fn refresh_and_contains(&mut self, addr: &IpAddress, fetched: Option<Snapshot>) -> (r: bool)
        ensures
            final(self)@ == after_refresh(old(self)@, outcome_view(fetched)),
            r == final(self)@.addresses.contains(*addr),
    {
        self.update(fetched);
        self.cache_contains(addr)
    }
}

} // verus!
