//! Health of the worker-local KV event sources.
//!
//! A worker that runs a local KV indexer registers one query endpoint for each of
//! its data-parallel ranks. The monitor compares what the workers' configurations
//! promise with what has registered, waits out a grace period, and reports each
//! worker that still lacks endpoints: at once, again when the set of missing ranks
//! changes, and otherwise once per repeat interval.
//!
//! Times are nanoseconds on a monotonic clock.

use std::collections::{BTreeMap, BTreeSet, HashMap};

use vstd::prelude::*;

use crate::collections;
use crate::collections::{ascending_hash_keys, ascending_keys, pair_keys, pair_members};

verus! {

broadcast use vstd::laws_cmp::group_laws_cmp;

/// How long an endpoint may be missing before the mismatch is reported.
pub const REGISTRATION_GRACE_PERIOD: u64 = 10_000_000_000;

/// How long an unchanged mismatch stays quiet between two reports.
pub const ERROR_REPEAT_INTERVAL: u64 = 60_000_000_000;

/// How often the monitor runs when nothing else wakes it.
pub const HEALTH_CHECK_INTERVAL: u64 = 1_000_000_000;

/// The part of a worker's runtime configuration that says which endpoints it owes.
#[derive(Debug, Clone, Copy, PartialEq, Eq, Structural)]
pub struct ModelRuntimeConfig {
    /// First data-parallel rank of the worker.
    pub data_parallel_start_rank: u32,
    /// Number of data-parallel ranks of the worker.
    pub data_parallel_size: u32,
    /// Whether the worker runs a local KV indexer, and so registers endpoints.
    pub enable_local_indexer: bool,
}

/// A worker that lacks endpoints past the grace period.
#[derive(Debug, Clone, PartialEq, Eq)]
pub struct MismatchReport {
    pub worker_id: u64,
    /// Its ranks without an endpoint, smallest first.
    pub missing_dp_ranks: Vec<u32>,
}

/// What a [`MismatchReport`] says.
#[verifier::ext_equal]
pub struct MismatchReportView {
    pub worker_id: u64,
    pub missing_dp_ranks: Seq<u32>,
}

impl View for MismatchReport {
    type V = MismatchReportView;

    open spec fn view(&self) -> MismatchReportView {
        MismatchReportView {
            worker_id: self.worker_id,
            missing_dp_ranks: self.missing_dp_ranks@,
        }
    }
}

/// The outcome of one health check.
#[derive(Debug, PartialEq, Eq)]
pub struct HealthEvaluation {
    /// Mismatches to report now, by worker id.
    pub reports: Vec<MismatchReport>,
    /// Workers whose reported mismatch is over, smallest id first.
    pub recovered_workers: Vec<u64>,
    /// Number of workers that lack endpoints past the grace period.
    pub mismatch_worker_count: usize,
}

/// What a [`HealthEvaluation`] says.
#[verifier::ext_equal]
pub struct HealthEvaluationView {
    pub reports: Seq<MismatchReportView>,
    pub recovered_workers: Seq<u64>,
    pub mismatch_worker_count: nat,
}

impl View for HealthEvaluation {
    type V = HealthEvaluationView;

    open spec fn view(&self) -> HealthEvaluationView {
        HealthEvaluationView {
            reports: self.reports@.map_values(|r: MismatchReport| r@),
            recovered_workers: self.recovered_workers@,
            mismatch_worker_count: self.mismatch_worker_count as nat,
        }
    }
}

impl HealthEvaluationView {
    /// Nothing to report, nothing recovered, nothing missing.
    pub open spec fn quiet() -> HealthEvaluationView {
        HealthEvaluationView {
            reports: Seq::empty(),
            recovered_workers: Seq::empty(),
            mismatch_worker_count: 0,
        }
    }
}

impl Default for HealthEvaluation {
    fn default() -> (r: HealthEvaluation)
        ensures
            r@ == HealthEvaluationView::quiet(),
    {
        let r = HealthEvaluation {
            reports: Vec::new(),
            recovered_workers: Vec::new(),
            mismatch_worker_count: 0,
        };
        proof {
            assert(r@ =~= HealthEvaluationView::quiet());
        }
        r
    }
}

// ---------------------------------------------------------------------------
// What is expected and what is missing
// ---------------------------------------------------------------------------

/// Whether a worker with this configuration owes an endpoint for a rank.
pub open spec fn owes(config: ModelRuntimeConfig, rank: u32) -> bool {
    &&& config.enable_local_indexer
    &&& config.data_parallel_start_rank <= rank
    &&& rank < config.data_parallel_start_rank + config.data_parallel_size
}

/// The endpoints that the workers' configurations promise: one for each rank of
/// each worker with a local indexer, as far as ranks can be numbered.
pub open spec fn expected(workers: Map<u64, ModelRuntimeConfig>) -> Set<(u64, u32)> {
    Set::new(|key: (u64, u32)| workers.contains_key(key.0) && owes(workers[key.0], key.1))
}

/// The time from `earlier` to `now`, or none when the clock reads less.
pub open spec fn elapsed(now: u64, earlier: u64) -> nat {
    if now >= earlier {
        (now - earlier) as nat
    } else {
        0
    }
}

/// Since when each missing endpoint has been missing: an endpoint that is still
/// missing keeps its time, one that is newly missing starts now.
pub open spec fn missing_since_after(
    before: Map<(u64, u32), u64>,
    now: u64,
    missing: Set<(u64, u32)>,
) -> Map<(u64, u32), u64> {
    Map::new(
        |key: (u64, u32)| missing.contains(key),
        |key: (u64, u32)|
            if before.contains_key(key) {
                before[key]
            } else {
                now
            },
    )
}

/// Whether an endpoint has been missing for the whole grace period.
pub open spec fn matured(since: Map<(u64, u32), u64>, now: u64, key: (u64, u32)) -> bool {
    since.contains_key(key) && elapsed(now, since[key]) >= REGISTRATION_GRACE_PERIOD
}

/// The workers that lack an endpoint past the grace period.
pub open spec fn mismatched(since: Map<(u64, u32), u64>, now: u64) -> Set<u64> {
    Set::new(|worker: u64| exists|rank: u32| matured(since, now, (worker, rank)))
}

/// The ranks of a worker that lack an endpoint past the grace period.
pub open spec fn missing_rank_set(since: Map<(u64, u32), u64>, now: u64, worker: u64) -> Set<u32> {
    Set::new(|rank: u32| matured(since, now, (worker, rank)))
}

/// The ranks of a worker that lack an endpoint past the grace period, smallest
/// first.
pub open spec fn missing_ranks(since: Map<(u64, u32), u64>, now: u64, worker: u64) -> Seq<u32> {
    collections::ascending_u32(missing_rank_set(since, now, worker))
}

// ---------------------------------------------------------------------------
// The monitor
// ---------------------------------------------------------------------------

/// The last report on a worker.
#[derive(Debug)]
struct ReportedMismatch {
    missing_dp_ranks: Vec<u32>,
    reported_at: u64,
}

/// Remembers since when endpoints have been missing and what was last reported.
#[derive(Debug)]
pub struct KvEventSourceHealthMonitor {
    missing_since: BTreeMap<(u64, u32), u64>,
    reported: BTreeMap<u64, ReportedMismatch>,
}

/// What a report said and when it was made.
#[verifier::ext_equal]
pub struct Reported {
    pub missing_dp_ranks: Seq<u32>,
    pub reported_at: u64,
}

/// What a [`KvEventSourceHealthMonitor`] remembers.
#[verifier::ext_equal]
pub struct MonitorState {
    /// Since when each missing endpoint has been missing.
    pub missing_since: Map<(u64, u32), u64>,
    /// The last report on each worker with an open mismatch.
    pub reported: Map<u64, Reported>,
}

spec fn reported_view(reported: Map<u64, ReportedMismatch>) -> Map<u64, Reported> {
    Map::new(
        |worker: u64| reported.contains_key(worker),
        |worker: u64|
            Reported {
                missing_dp_ranks: reported[worker].missing_dp_ranks@,
                reported_at: reported[worker].reported_at,
            },
    )
}

impl View for KvEventSourceHealthMonitor {
    type V = MonitorState;

    closed spec fn view(&self) -> MonitorState {
        MonitorState {
            missing_since: self.missing_since@,
            reported: reported_view(self.reported@),
        }
    }
}

impl MonitorState {
    /// A monitor that has seen nothing yet.
    pub open spec fn fresh() -> MonitorState {
        MonitorState { missing_since: Map::empty(), reported: Map::empty() }
    }

    /// Since when endpoints have been missing, after a check.
    pub open spec fn since(
        self,
        now: u64,
        workers: Map<u64, ModelRuntimeConfig>,
        discovered: Set<(u64, u32)>,
    ) -> Map<(u64, u32), u64> {
        missing_since_after(self.missing_since, now, expected(workers).difference(discovered))
    }

    /// Whether a mismatched worker is due for a report: it has none yet, its
    /// missing ranks are not the reported ones, or the report is old enough.
    pub open spec fn due(self, since: Map<(u64, u32), u64>, now: u64, worker: u64) -> bool {
        ||| !self.reported.contains_key(worker)
        ||| self.reported[worker].missing_dp_ranks != missing_ranks(since, now, worker)
        ||| elapsed(now, self.reported[worker].reported_at) >= ERROR_REPEAT_INTERVAL
    }

    /// The mismatched workers that are due for a report.
    pub open spec fn due_workers(self, since: Map<(u64, u32), u64>, now: u64) -> Set<u64> {
        mismatched(since, now).filter(|worker: u64| self.due(since, now, worker))
    }

    /// The last report on each mismatched worker, after a check.
    pub open spec fn reported_after(self, since: Map<(u64, u32), u64>, now: u64) -> Map<
        u64,
        Reported,
    > {
        Map::new(
            |worker: u64| mismatched(since, now).contains(worker),
            |worker: u64|
                if self.due(since, now, worker) {
                    Reported {
                        missing_dp_ranks: missing_ranks(since, now, worker),
                        reported_at: now,
                    }
                } else {
                    self.reported[worker]
                },
        )
    }

    /// What the monitor remembers after a check.
    pub open spec fn after(
        self,
        now: u64,
        workers: Map<u64, ModelRuntimeConfig>,
        discovered: Set<(u64, u32)>,
    ) -> MonitorState {
        let since = self.since(now, workers, discovered);
        MonitorState { missing_since: since, reported: self.reported_after(since, now) }
    }

    /// What a check concludes.
    pub open spec fn evaluation(
        self,
        now: u64,
        workers: Map<u64, ModelRuntimeConfig>,
        discovered: Set<(u64, u32)>,
    ) -> HealthEvaluationView {
        let since = self.since(now, workers, discovered);
        HealthEvaluationView {
            reports: collections::ascending_u64(self.due_workers(since, now)).map_values(
                |worker: u64|
                    MismatchReportView {
                        worker_id: worker,
                        missing_dp_ranks: missing_ranks(since, now, worker),
                    },
            ),
            recovered_workers: collections::ascending_u64(
                self.reported.dom().difference(mismatched(since, now)),
            ),
            mismatch_worker_count: mismatched(since, now).len(),
        }
    }
}

impl Default for KvEventSourceHealthMonitor {
    fn default() -> (r: KvEventSourceHealthMonitor)
        ensures
            r@ == MonitorState::fresh(),
    {
        let r = KvEventSourceHealthMonitor {
            missing_since: BTreeMap::new(),
            reported: BTreeMap::new(),
        };
        proof {
            assert(r@ =~= MonitorState::fresh());
        }
        r
    }
}

/// Add the endpoints that one worker owes.
fn add_endpoints(out: &mut BTreeSet<(u64, u32)>, worker_id: u64, config: &ModelRuntimeConfig)
    ensures
        forall|key: (u64, u32)| #[trigger]
            final(out)@.contains(key) <==> old(out)@.contains(key) || (key.0 == worker_id && owes(
                *config,
                key.1,
            )),
{
    if !config.enable_local_indexer {
        return ;
    }
    let ghost before = out@;
    let mut offset: u32 = 0;
    while offset < config.data_parallel_size
        invariant
            config.enable_local_indexer,
            offset <= config.data_parallel_size,
            forall|key: (u64, u32)| #[trigger]
                out@.contains(key) <==> before.contains(key) || (key.0 == worker_id
                    && config.data_parallel_start_rank <= key.1 && key.1
                    < config.data_parallel_start_rank + offset),
        decreases config.data_parallel_size - offset,
    {
        let ghost listed = out@;
        if let Some(dp_rank) = config.data_parallel_start_rank.checked_add(offset) {
            out.insert((worker_id, dp_rank));
        }
        offset = offset + 1;
        proof {
            assert forall|key: (u64, u32)| #[trigger]
                out@.contains(key) <==> before.contains(key) || (key.0 == worker_id
                    && config.data_parallel_start_rank <= key.1 && key.1
                    < config.data_parallel_start_rank + offset) by {
                assert(key == (key.0, key.1));
                assert(out@.contains(key) <==> listed.contains(key) || (key.0 == worker_id && key.1
                    == config.data_parallel_start_rank + offset - 1));
            }
        }
    }
}

/// The endpoints that the workers' configurations promise.
pub fn expected_query_endpoints(workers_with_configs: &HashMap<u64, ModelRuntimeConfig>) -> (r:
    BTreeSet<(u64, u32)>)
    ensures
        r@ == expected(workers_with_configs@),
{
    let ids = ascending_hash_keys(workers_with_configs);
    let mut out: BTreeSet<(u64, u32)> = BTreeSet::new();
    let mut i: usize = 0;
    while i < ids.len()
        invariant
            i <= ids.len(),
            ids@.to_set() == workers_with_configs@.dom(),
            forall|key: (u64, u32)| #[trigger]
                out@.contains(key) <==> ids@.take(i as int).contains(key.0) && expected(
                    workers_with_configs@,
                ).contains(key),
        decreases ids.len() - i,
    {
        let worker_id: u64 = ids[i];
        let ghost before = out@;
        let ghost done = ids@.take(i as int);
        proof {
            assert(ids@.contains(worker_id));
            assert(ids@.to_set().contains(worker_id));
            assert(workers_with_configs@.contains_key(worker_id));
            assert(ids@.take(i + 1) =~= done.push(worker_id));
        }
        if let Some(config) = workers_with_configs.get(&worker_id) {
            add_endpoints(&mut out, worker_id, config);
        }
        i = i + 1;
        proof {
            assert forall|key: (u64, u32)| #[trigger]
                out@.contains(key) <==> ids@.take(i as int).contains(key.0) && expected(
                    workers_with_configs@,
                ).contains(key) by {
                let last = ids@.take(i as int);
                assert(out@.contains(key) <==> before.contains(key) || (key.0 == worker_id && owes(
                    workers_with_configs@[worker_id],
                    key.1,
                )));
                if done.contains(key.0) {
                    let j = choose|j: int| 0 <= j < done.len() && done[j] == key.0;
                    assert(last[j] == key.0);
                }
                if last.contains(key.0) && key.0 != worker_id {
                    let j = choose|j: int| 0 <= j < last.len() && last[j] == key.0;
                    assert(done[j] == key.0);
                }
                assert(last[i - 1] == worker_id);
            }
        }
    }
    proof {
        assert(ids@.take(ids.len() as int) =~= ids@);
        assert(out@ =~= expected(workers_with_configs@)) by {
            assert forall|key: (u64, u32)|
                out@.contains(key) == expected(workers_with_configs@).contains(key) by {
                assert(ids@.to_set().contains(key.0) == ids@.contains(key.0));
            }
        }
    }
    out
}

/// Since when each endpoint that is expected but not discovered has been missing.
fn track_missing(
    before: &BTreeMap<(u64, u32), u64>,
    now: u64,
    expected_endpoints: &BTreeSet<(u64, u32)>,
    discovered: &BTreeSet<(u64, u32)>,
) -> (r: BTreeMap<(u64, u32), u64>)
    ensures
        r@ == missing_since_after(before@, now, expected_endpoints@.difference(discovered@)),
{
    let keys = pair_members(expected_endpoints);
    let mut out: BTreeMap<(u64, u32), u64> = BTreeMap::new();
    let mut i: usize = 0;
    while i < keys.len()
        invariant
            i <= keys.len(),
            keys@.to_set() == expected_endpoints@,
            forall|key: (u64, u32)| #[trigger]
                out@.contains_key(key) <==> keys@.take(i as int).contains(key)
                    && !discovered@.contains(key),
            forall|key: (u64, u32)|
                out@.contains_key(key) ==> #[trigger] out@[key] == (if before@.contains_key(key) {
                    before@[key]
                } else {
                    now
                }),
        decreases keys.len() - i,
    {
        let key = keys[i];
        let ghost done = keys@.take(i as int);
        let ghost listed = out@;
        if !discovered.contains(&key) {
            let since: u64 = match before.get(&key) {
                Some(since) => *since,
                None => now,
            };
            out.insert(key, since);
        }
        i = i + 1;
        proof {
            let last = keys@.take(i as int);
            assert(last =~= done.push(key));
            assert forall|k: (u64, u32)| #[trigger]
                out@.contains_key(k) <==> last.contains(k) && !discovered@.contains(k) by {
                if done.contains(k) {
                    let j = choose|j: int| 0 <= j < done.len() && done[j] == k;
                    assert(last[j] == k);
                }
                if last.contains(k) && k != key {
                    let j = choose|j: int| 0 <= j < last.len() && last[j] == k;
                    assert(done[j] == k);
                }
                assert(last[i - 1] == key);
                assert(listed.contains_key(k) <==> done.contains(k) && !discovered@.contains(k));
            }
        }
    }
    proof {
        let missing = expected_endpoints@.difference(discovered@);
        assert(keys@.take(keys.len() as int) =~= keys@);
        assert forall|k: (u64, u32)| #[trigger]
            out@.contains_key(k) == missing.contains(k) by {
            assert(keys@.to_set().contains(k) == keys@.contains(k));
        }
        assert(out@ =~= missing_since_after(before@, now, missing));
    }
    out
}

/// Whether a listing of ranks by worker holds a rank of a worker.
spec fn lists(ranks: Map<u64, Vec<u32>>, worker: u64, rank: u32) -> bool {
    ranks.contains_key(worker) && ranks[worker]@.contains(rank)
}

/// The ranks of each worker that have lacked an endpoint for the whole grace
/// period.
fn matured_by_worker(since: &BTreeMap<(u64, u32), u64>, now: u64) -> (r: BTreeMap<u64, Vec<u32>>)
    ensures
        r@.dom() == mismatched(since@, now),
        forall|worker: u64|
            r@.contains_key(worker) ==> (#[trigger] r@[worker])@ == missing_ranks(
                since@,
                now,
                worker,
            ),
{
    let keys = pair_keys(since);
    let mut out: BTreeMap<u64, Vec<u32>> = BTreeMap::new();
    let mut i: usize = 0;
    while i < keys.len()
        invariant
            i <= keys.len(),
            keys@.to_set() == since@.dom(),
            forall|a: int, b: int|
                0 <= a < b < keys@.len() ==> #[trigger] collections::pair_less(keys@[a], keys@[b]),
            forall|worker: u64, rank: u32|
                #[trigger] lists(out@, worker, rank)
                    <==> keys@.take(i as int).contains((worker, rank)) && matured(
                    since@,
                    now,
                    (worker, rank),
                ),
            forall|worker: u64|
                out@.contains_key(worker) ==> collections::is_ascending_u32(
                    (#[trigger] out@[worker])@,
                ) && out@[worker]@.len() > 0,
        decreases keys.len() - i,
    {
        let key = keys[i];
        let ghost done = keys@.take(i as int);
        let ghost listed = out@;
        proof {
            assert(keys@.to_set().contains(key));
        }
        let since_when: u64 = match since.get(&key) {
            Some(t) => *t,
            None => now,
        };
        if now.saturating_sub(since_when) >= REGISTRATION_GRACE_PERIOD {
            let mut ranks: Vec<u32> = match out.remove(&key.0) {
                Some(ranks) => ranks,
                None => Vec::new(),
            };
            let ghost earlier = ranks@;
            proof {
                assert forall|a: int| 0 <= a < earlier.len() implies earlier[a] < key.1 by {
                    assert(lists(listed, key.0, earlier[a]));
                    assert(done.contains((key.0, earlier[a])));
                    let j = choose|j: int| 0 <= j < done.len() && done[j] == (key.0, earlier[a]);
                    assert(keys@[j] == (key.0, earlier[a]));
                    assert(collections::pair_less(keys@[j], keys@[i as int]));
                }
            }
            ranks.push(key.1);
            out.insert(key.0, ranks);
            proof {
                assert(out@ == listed.insert(key.0, ranks));
                assert forall|rank: u32| ranks@.contains(rank) <==> earlier.contains(rank) || rank
                    == key.1 by {
                    if earlier.contains(rank) {
                        let j = choose|j: int| 0 <= j < earlier.len() && earlier[j] == rank;
                        assert(ranks@[j] == rank);
                    }
                    assert(ranks@[earlier.len() as int] == key.1);
                }
                assert forall|worker: u64, rank: u32| #[trigger]
                    lists(out@, worker, rank) <==> lists(listed, worker, rank) || (worker, rank)
                        == key by {
                    if worker == key.0 {
                        assert(out@[worker]@ == ranks@);
                        assert(lists(listed, worker, rank) <==> earlier.contains(rank));
                    }
                }
            }
        }
        proof {
            assert(matured(since@, now, key) <==> elapsed(now, since_when)
                >= REGISTRATION_GRACE_PERIOD);
            assert forall|worker: u64, rank: u32| #[trigger]
                lists(out@, worker, rank) <==> lists(listed, worker, rank) || ((worker, rank) == key
                    && matured(since@, now, key)) by {
            }
        }
        i = i + 1;
        proof {
            let last = keys@.take(i as int);
            assert(last =~= done.push(key));
            assert forall|worker: u64, rank: u32|
                #[trigger] lists(out@, worker, rank)
                    <==> last.contains((worker, rank)) && matured(since@, now, (worker, rank)) by {
                let k = (worker, rank);
                if done.contains(k) {
                    let j = choose|j: int| 0 <= j < done.len() && done[j] == k;
                    assert(last[j] == k);
                }
                if last.contains(k) && k != key {
                    let j = choose|j: int| 0 <= j < last.len() && last[j] == k;
                    assert(done[j] == k);
                }
                assert(last[i - 1] == key);
                assert(lists(listed, worker, rank)
                    <==> done.contains(k) && matured(since@, now, k));
            }
        }
    }
    proof {
        assert(keys@.take(keys.len() as int) =~= keys@);
        assert forall|worker: u64, rank: u32|
            #[trigger] lists(out@, worker, rank) <==> matured(
                since@,
                now,
                (worker, rank),
            ) by {
            assert(keys@.to_set().contains((worker, rank)) == keys@.contains((worker, rank)));
        }
        assert forall|worker: u64| out@.contains_key(worker) implies (#[trigger] out@[worker])@
            == missing_ranks(since@, now, worker) by {
            let ranks = out@[worker]@;
            assert(ranks.to_set() =~= missing_rank_set(since@, now, worker)) by {
                assert forall|rank: u32|
                    ranks.to_set().contains(rank) == missing_rank_set(since@, now, worker).contains(
                        rank,
                    ) by {
                    assert(ranks.to_set().contains(rank) == lists(out@, worker, rank));
                }
            }
            collections::lemma_ascending_u32(ranks, missing_rank_set(since@, now, worker));
        }
        assert(out@.dom() =~= mismatched(since@, now)) by {
            assert forall|worker: u64|
                out@.dom().contains(worker) == mismatched(since@, now).contains(worker) by {
                if out@.contains_key(worker) {
                    assert(lists(out@, worker, out@[worker]@[0]));
                    assert(matured(since@, now, (worker, out@[worker]@[0])));
                }
                if mismatched(since@, now).contains(worker) {
                    let rank = choose|rank: u32| matured(since@, now, (worker, rank));
                    assert(lists(out@, worker, rank));
                }
            }
        }
    }
    out
}

/// Whether two listings of ranks are the same.
fn same_ranks(a: &Vec<u32>, b: &Vec<u32>) -> (r: bool)
    ensures
        r == (a@ == b@),
{
    if a.len() != b.len() {
        return false;
    }
    let mut i: usize = 0;
    while i < a.len()
        invariant
            i <= a.len(),
            a.len() == b.len(),
            forall|j: int| 0 <= j < i ==> a@[j] == b@[j],
        decreases a.len() - i,
    {
        if a[i] != b[i] {
            return false;
        }
        i = i + 1;
    }
    proof {
        assert(a@ =~= b@);
    }
    true
}

/// The reported workers that are no longer mismatched, smallest id first.
fn recovered(reported: &BTreeMap<u64, ReportedMismatch>, matured: &BTreeMap<u64, Vec<u32>>) -> (r:
    Vec<u64>)
    ensures
        r@ == collections::ascending_u64(reported@.dom().difference(matured@.dom())),
        r@.to_set() == reported@.dom().difference(matured@.dom()),
{
    let ids = ascending_keys(reported);
    let mut out: Vec<u64> = Vec::new();
    let mut i: usize = 0;
    while i < ids.len()
        invariant
            i <= ids.len(),
            collections::is_ascending_u64(ids@),
            collections::is_ascending_u64(out@),
            forall|j: int|
                0 <= j < out@.len() ==> ids@.take(i as int).contains(#[trigger] out@[j])
                    && !matured@.contains_key(out@[j]),
            forall|j: int|
                0 <= j < i && !matured@.contains_key(#[trigger] ids@[j]) ==> out@.contains(ids@[j]),
        decreases ids.len() - i,
    {
        let ghost done = ids@.take(i as int);
        let ghost listed = out@;
        let worker_id: u64 = ids[i];
        if !matured.contains_key(&worker_id) {
            out.push(worker_id);
            proof {
                assert forall|a: int, b: int| 0 <= a < b < out@.len() implies out@[a] < out@[b] by {
                    if b == listed.len() {
                        assert(done.contains(listed[a]));
                        let j = choose|j: int| 0 <= j < done.len() && done[j] == listed[a];
                        assert(ids@[j] < ids@[i as int]);
                    }
                }
                assert(out@[listed.len() as int] == worker_id);
            }
        }
        i = i + 1;
        proof {
            let last = ids@.take(i as int);
            assert(last =~= done.push(worker_id));
            assert(last[i - 1] == worker_id);
            assert forall|j: int| 0 <= j < out@.len() implies last.contains(#[trigger] out@[j])
                && !matured@.contains_key(out@[j]) by {
                if j < listed.len() {
                    assert(done.contains(listed[j]));
                    let k = choose|k: int| 0 <= k < done.len() && done[k] == listed[j];
                    assert(last[k] == listed[j]);
                }
            }
            assert forall|j: int|
                0 <= j < i && !matured@.contains_key(#[trigger] ids@[j]) implies out@.contains(
                ids@[j],
            ) by {
                if j < i - 1 {
                    assert(listed.contains(ids@[j]));
                    let k = choose|k: int| 0 <= k < listed.len() && listed[k] == ids@[j];
                    assert(out@[k] == ids@[j]);
                }
            }
        }
    }
    proof {
        let stale = reported@.dom().difference(matured@.dom());
        assert(ids@.take(ids.len() as int) =~= ids@);
        assert(out@.to_set() =~= stale) by {
            assert forall|w: u64| out@.to_set().contains(w) == stale.contains(w) by {
                if out@.contains(w) {
                    let j = choose|j: int| 0 <= j < out@.len() && out@[j] == w;
                    assert(ids@.contains(out@[j]));
                    assert(ids@.to_set().contains(w));
                }
                if stale.contains(w) {
                    assert(ids@.to_set().contains(w));
                    let j = choose|j: int| 0 <= j < ids@.len() && ids@[j] == w;
                    assert(out@.contains(ids@[j]));
                }
            }
        }
        collections::lemma_ascending_u64(out@, stale);
    }
    out
}

/// Drop the reports on the workers listed.
fn drop_reports(reported: &mut BTreeMap<u64, ReportedMismatch>, workers: &Vec<u64>)
    ensures
        final(reported)@ == old(reported)@.remove_keys(workers@.to_set()),
{
    let ghost before = reported@;
    let mut i: usize = 0;
    while i < workers.len()
        invariant
            i <= workers.len(),
            reported@ == before.remove_keys(workers@.take(i as int).to_set()),
        decreases workers.len() - i,
    {
        let ghost done = workers@.take(i as int);
        let worker_id: u64 = workers[i];
        reported.remove(&worker_id);
        i = i + 1;
        proof {
            let last = workers@.take(i as int);
            assert(last =~= done.push(worker_id));
            assert(last.to_set() =~= done.to_set().insert(worker_id)) by {
                broadcast use vstd::seq_lib::group_seq_properties;

            }
            assert(reported@ =~= before.remove_keys(last.to_set()));
        }
    }
    proof {
        assert(workers@.take(workers.len() as int) =~= workers@);
    }
}

/// Whether a mismatch is due for a report, given the previous one.
fn is_due(previous: Option<&ReportedMismatch>, ranks: &Vec<u32>, now: u64) -> (r: bool)
    ensures
        r == match previous {
            None => true,
            Some(p) => p.missing_dp_ranks@ != ranks@ || elapsed(now, p.reported_at)
                >= ERROR_REPEAT_INTERVAL,
        },
{
    match previous {
        None => true,
        Some(p) => !same_ranks(&p.missing_dp_ranks, ranks) || now.saturating_sub(p.reported_at)
            >= ERROR_REPEAT_INTERVAL,
    }
}

/// Report the mismatches that are due and remember what was reported.
fn report_due(
    reported: &mut BTreeMap<u64, ReportedMismatch>,
    matured: &BTreeMap<u64, Vec<u32>>,
    now: u64,
    Ghost(state): Ghost<MonitorState>,
    Ghost(since): Ghost<Map<(u64, u32), u64>>,
) -> (r: Vec<MismatchReport>)
    requires
        matured@.dom() == mismatched(since, now),
        forall|worker: u64|
            matured@.contains_key(worker) ==> (#[trigger] matured@[worker])@ == missing_ranks(
                since,
                now,
                worker,
            ),
        reported_view(old(reported)@) == state.reported.restrict(matured@.dom()),
    ensures
        reported_view(final(reported)@) == state.reported_after(since, now),
        r@.map_values(|m: MismatchReport| m@) == collections::ascending_u64(
            state.due_workers(since, now),
        ).map_values(
            |worker: u64|
                MismatchReportView {
                    worker_id: worker,
                    missing_dp_ranks: missing_ranks(since, now, worker),
                },
        ),
{
    let ids = ascending_keys(matured);
    let mut reports: Vec<MismatchReport> = Vec::new();
    let ghost before = reported@;
    proof {
        assert forall|w: u64| reported@.contains_key(w) implies matured@.contains_key(w) by {
            assert(reported_view(before).contains_key(w));
        }
    }
    let ghost mut due_ids: Seq<u64> = Seq::empty();
    let mut i: usize = 0;
    while i < ids.len()
        invariant
            i <= ids.len(),
            collections::is_ascending_u64(ids@),
            ids@.to_set() == matured@.dom(),
            matured@.dom() == mismatched(since, now),
            forall|worker: u64|
                matured@.contains_key(worker) ==> (#[trigger] matured@[worker])@ == missing_ranks(
                    since,
                    now,
                    worker,
                ),
            reported_view(before) == state.reported.restrict(matured@.dom()),
            forall|j: int|
                0 <= j < i ==> (#[trigger] reported@.contains_key(ids@[j])
                    && reported_view(reported@)[ids@[j]] == state.reported_after(since, now)[ids@[j]]),
            forall|j: int| i <= j < ids@.len() ==> {
                &&& #[trigger] reported@.contains_key(ids@[j]) == before.contains_key(ids@[j])
                &&& reported@.contains_key(ids@[j]) ==> reported@[ids@[j]] == before[ids@[j]]
            },
            forall|w: u64| reported@.contains_key(w) ==> matured@.contains_key(w),
            collections::is_ascending_u64(due_ids),
            forall|j: int|
                0 <= j < due_ids.len() ==> ids@.take(i as int).contains(#[trigger] due_ids[j])
                    && state.due(since, now, due_ids[j]),
            forall|j: int|
                0 <= j < i && state.due(since, now, #[trigger] ids@[j]) ==> due_ids.contains(
                    ids@[j],
                ),
            reports@.len() == due_ids.len(),
            forall|j: int|
                0 <= j < reports@.len() ==> (#[trigger] reports@[j])@ == (MismatchReportView {
                    worker_id: due_ids[j],
                    missing_dp_ranks: missing_ranks(since, now, due_ids[j]),
                }),
        decreases ids.len() - i,
    {
        let ghost done = ids@.take(i as int);
        let ghost listed = due_ids;
        let ghost remembered = reported@;
        let worker_id: u64 = ids[i];
        proof {
            assert(ids@.to_set().contains(worker_id));
            assert(matured@.contains_key(worker_id));
            assert(reported@.contains_key(ids@[i as int]) == before.contains_key(ids@[i as int]));
            assert(before.contains_key(worker_id) == reported_view(before).contains_key(worker_id));
            assert(before.contains_key(worker_id) == state.reported.contains_key(worker_id));
            assert(before.contains_key(worker_id) ==> reported_view(before)[worker_id]
                == state.reported[worker_id]);
        }
        if let Some(ranks) = matured.get(&worker_id) {
            let due = is_due(reported.get(&worker_id), ranks, now);
            proof {
                assert(ranks@ == missing_ranks(since, now, worker_id));
                assert(due == state.due(since, now, worker_id));
            }
            if due {
                let kept = ranks.clone();
                let told = ranks.clone();
                proof {
                    assert(kept@ =~= ranks@);
                    assert(told@ =~= ranks@);
                }
                reported.insert(
                    worker_id,
                    ReportedMismatch { missing_dp_ranks: kept, reported_at: now },
                );
                reports.push(MismatchReport { worker_id, missing_dp_ranks: told });
                proof {
                    due_ids = due_ids.push(worker_id);
                    assert forall|a: int, b: int|
                        0 <= a < b < due_ids.len() implies due_ids[a] < due_ids[b] by {
                        if b == listed.len() {
                            assert(done.contains(listed[a]));
                            let j = choose|j: int| 0 <= j < done.len() && done[j] == listed[a];
                            assert(ids@[j] < ids@[i as int]);
                        }
                    }
                    assert(due_ids[listed.len() as int] == worker_id);
                }
            }
        }
        i = i + 1;
        proof {
            let last = ids@.take(i as int);
            assert(last =~= done.push(worker_id));
            assert(last[i - 1] == worker_id);
            assert forall|j: int| 0 <= j < due_ids.len() implies last.contains(
                #[trigger] due_ids[j],
            ) && state.due(since, now, due_ids[j]) by {
                if j < listed.len() {
                    assert(done.contains(listed[j]));
                    let k = choose|k: int| 0 <= k < done.len() && done[k] == listed[j];
                    assert(last[k] == listed[j]);
                }
            }
            assert forall|j: int|
                0 <= j < i && state.due(since, now, #[trigger] ids@[j]) implies due_ids.contains(
                ids@[j],
            ) by {
                if j < i - 1 {
                    assert(listed.contains(ids@[j]));
                    let k = choose|k: int| 0 <= k < listed.len() && listed[k] == ids@[j];
                    assert(due_ids[k] == ids@[j]);
                }
            }
            assert(mismatched(since, now).contains(worker_id));
            assert(state.reported_after(since, now).contains_key(worker_id));
            assert forall|j: int| 0 <= j < i implies (#[trigger] reported@.contains_key(ids@[j])
                && reported_view(reported@)[ids@[j]] == state.reported_after(since, now)[ids@[j]]) by {
                if j < i - 1 {
                    assert(ids@[j] < ids@[i - 1]);
                    assert(remembered.contains_key(ids@[j]));
                    assert(reported_view(remembered)[ids@[j]] == reported_view(reported@)[ids@[j]]);
                }
            }
        }
    }
    proof {
        assert(ids@.take(ids.len() as int) =~= ids@);
        let due_set = state.due_workers(since, now);
        assert(due_ids.to_set() =~= due_set) by {
            assert forall|w: u64| due_ids.to_set().contains(w) == due_set.contains(w) by {
                if due_ids.contains(w) {
                    let j = choose|j: int| 0 <= j < due_ids.len() && due_ids[j] == w;
                    assert(ids@.contains(due_ids[j]));
                    assert(ids@.to_set().contains(w));
                }
                if due_set.contains(w) {
                    assert(ids@.to_set().contains(w));
                    let j = choose|j: int| 0 <= j < ids@.len() && ids@[j] == w;
                    assert(due_ids.contains(ids@[j]));
                }
            }
        }
        collections::lemma_ascending_u64(due_ids, due_set);
        assert(reported_view(reported@) =~= state.reported_after(since, now)) by {
            assert forall|w: u64|
                reported_view(reported@).contains_key(w) == state.reported_after(
                    since,
                    now,
                ).contains_key(w) && (reported_view(reported@).contains_key(w) ==> reported_view(
                    reported@,
                )[w] == state.reported_after(since, now)[w]) by {
                if mismatched(since, now).contains(w) {
                    assert(ids@.to_set().contains(w));
                    let j = choose|j: int| 0 <= j < ids@.len() && ids@[j] == w;
                    assert(reported@.contains_key(ids@[j]));
                }
            }
        }
    }
    reports
}

impl KvEventSourceHealthMonitor {
    /// Run one health check: update what is known to be missing, report the
    /// mismatches that are due, and name the workers that have recovered.
    pub fn evaluate(
        &mut self,
        now: u64,
        workers_with_configs: &HashMap<u64, ModelRuntimeConfig>,
        discovered_endpoints: &BTreeSet<(u64, u32)>,
    ) -> (r: HealthEvaluation)
        ensures
            r@ == old(self)@.evaluation(now, workers_with_configs@, discovered_endpoints@),
            final(self)@ == old(self)@.after(now, workers_with_configs@, discovered_endpoints@),
    {
        let ghost state = self@;
        let expected_endpoints = expected_query_endpoints(workers_with_configs);
        self.missing_since = track_missing(
            &self.missing_since,
            now,
            &expected_endpoints,
            discovered_endpoints,
        );
        let ghost since = self.missing_since@;

        let matured = matured_by_worker(&self.missing_since, now);

        let recovered_workers = recovered(&self.reported, &matured);
        let ghost before = self.reported@;
        drop_reports(&mut self.reported, &recovered_workers);
        proof {
            assert(reported_view(self.reported@) =~= state.reported.restrict(matured@.dom()));
            assert(state.reported.dom() =~= before.dom());
        }

        let reports = report_due(
            &mut self.reported,
            &matured,
            now,
            Ghost(state),
            Ghost(since),
        );

        let r = HealthEvaluation {
            reports,
            recovered_workers,
            mismatch_worker_count: matured.len(),
        };
        proof {
            assert(r@ =~= state.evaluation(now, workers_with_configs@, discovered_endpoints@));
        }
        r
    }
}

// ---------------------------------------------------------------------------
// Laws
// ---------------------------------------------------------------------------

impl HealthEvaluationView {
    /// Whether the check reports on a worker.
    pub open spec fn reports_on(self, worker: u64) -> bool {
        exists|j: int| 0 <= j < self.reports.len() && (#[trigger] self.reports[j]).worker_id == worker
    }
}

proof fn lemma_mismatched_are_configured(
    s: MonitorState,
    now: u64,
    workers: Map<u64, ModelRuntimeConfig>,
    discovered: Set<(u64, u32)>,
)
    requires
        workers.dom().finite(),
    ensures
        mismatched(s.since(now, workers, discovered), now).subset_of(workers.dom()),
        mismatched(s.since(now, workers, discovered), now).finite(),
{
    let bad = mismatched(s.since(now, workers, discovered), now);
    assert(bad.subset_of(workers.dom()));
    vstd::set_lib::lemma_len_subset(bad, workers.dom());
}

/// A check reports on exactly the mismatched workers that are due, and calls
/// recovered exactly the reported workers that are no longer mismatched.
pub proof fn reports_and_recoveries_are_exact(
    s: MonitorState,
    now: u64,
    workers: Map<u64, ModelRuntimeConfig>,
    discovered: Set<(u64, u32)>,
    worker: u64,
)
    requires
        workers.dom().finite(),
        s.reported.dom().finite(),
    ensures
        ({
            let since = s.since(now, workers, discovered);
            let e = s.evaluation(now, workers, discovered);
            &&& e.reports_on(worker) <==> mismatched(since, now).contains(worker) && s.due(
                since,
                now,
                worker,
            )
            &&& e.recovered_workers.contains(worker) <==> s.reported.contains_key(worker)
                && !mismatched(since, now).contains(worker)
        }),
{
    let since = s.since(now, workers, discovered);
    let e = s.evaluation(now, workers, discovered);
    let due = s.due_workers(since, now);
    lemma_mismatched_are_configured(s, now, workers, discovered);
    vstd::set_lib::lemma_len_subset(due, mismatched(since, now));
    collections::lemma_ascending_u64_members(due);
    let over = s.reported.dom().difference(mismatched(since, now));
    vstd::set_lib::lemma_len_subset(over, s.reported.dom());
    collections::lemma_ascending_u64_members(over);
    let ids = collections::ascending_u64(due);
    if e.reports_on(worker) {
        let j = choose|j: int|
            0 <= j < e.reports.len() && (#[trigger] e.reports[j]).worker_id == worker;
        assert(ids.contains(ids[j]));
    }
    if due.contains(worker) {
        assert(ids.contains(worker));
        let j = choose|j: int| 0 <= j < ids.len() && ids[j] == worker;
        assert(e.reports[j].worker_id == worker);
    }
}

/// Nothing is reported before the grace period is over: while no endpoint has been
/// missing for that long, no worker is reported or counted.
pub proof fn nothing_is_reported_during_the_grace_period(
    s: MonitorState,
    now: u64,
    workers: Map<u64, ModelRuntimeConfig>,
    discovered: Set<(u64, u32)>,
)
    requires
        forall|key: (u64, u32)| #[trigger]
            s.since(now, workers, discovered).contains_key(key) ==> elapsed(
                now,
                s.since(now, workers, discovered)[key],
            ) < REGISTRATION_GRACE_PERIOD,
    ensures
        s.evaluation(now, workers, discovered).reports == Seq::<MismatchReportView>::empty(),
        s.evaluation(now, workers, discovered).mismatch_worker_count == 0,
        s.after(now, workers, discovered).reported == Map::<u64, Reported>::empty(),
{
    lemma_no_mismatch(s, now, workers, discovered);
}

proof fn lemma_ascending_of_nothing()
    ensures
        collections::ascending_u64(Set::empty()) == Seq::<u64>::empty(),
{
    collections::lemma_ascending_u64_members(Set::empty());
    assert(collections::ascending_u64(Set::empty()) =~= Seq::<u64>::empty());
}

proof fn lemma_no_mismatch(
    s: MonitorState,
    now: u64,
    workers: Map<u64, ModelRuntimeConfig>,
    discovered: Set<(u64, u32)>,
)
    requires
        forall|key: (u64, u32)| !#[trigger] matured(s.since(now, workers, discovered), now, key),
    ensures
        mismatched(s.since(now, workers, discovered), now) == Set::<u64>::empty(),
        s.evaluation(now, workers, discovered).reports == Seq::<MismatchReportView>::empty(),
        s.evaluation(now, workers, discovered).mismatch_worker_count == 0,
        s.evaluation(now, workers, discovered).recovered_workers == collections::ascending_u64(
            s.reported.dom(),
        ),
        s.after(now, workers, discovered).reported == Map::<u64, Reported>::empty(),
{
    let since = s.since(now, workers, discovered);
    assert(mismatched(since, now) =~= Set::<u64>::empty());
    assert(s.due_workers(since, now) =~= Set::<u64>::empty());
    lemma_ascending_of_nothing();
    assert(s.reported.dom().difference(mismatched(since, now)) =~= s.reported.dom());
    assert(s.evaluation(now, workers, discovered).reports =~= Seq::<MismatchReportView>::empty());
    assert(s.after(now, workers, discovered).reported =~= Map::<u64, Reported>::empty());
}

/// The first check of a fresh monitor is quiet, whatever is missing.
pub proof fn first_check_is_quiet(
    now: u64,
    workers: Map<u64, ModelRuntimeConfig>,
    discovered: Set<(u64, u32)>,
)
    ensures
        MonitorState::fresh().evaluation(now, workers, discovered) == HealthEvaluationView::quiet(),
{
    lemma_no_mismatch(MonitorState::fresh(), now, workers, discovered);
    lemma_ascending_of_nothing();
    assert(MonitorState::fresh().reported.dom() =~= Set::<u64>::empty());
}

/// Once every expected endpoint has registered nothing is reported, whatever was
/// missing before, and every worker with an open report has recovered.
pub proof fn full_registration_clears_every_mismatch(
    s: MonitorState,
    now: u64,
    workers: Map<u64, ModelRuntimeConfig>,
    discovered: Set<(u64, u32)>,
)
    requires
        expected(workers).subset_of(discovered),
    ensures
        s.evaluation(now, workers, discovered) == (HealthEvaluationView {
            reports: Seq::empty(),
            recovered_workers: collections::ascending_u64(s.reported.dom()),
            mismatch_worker_count: 0,
        }),
        s.after(now, workers, discovered) == MonitorState::fresh(),
{
    assert(expected(workers).difference(discovered) =~= Set::<(u64, u32)>::empty());
    assert(s.since(now, workers, discovered) =~= Map::<(u64, u32), u64>::empty());
    lemma_no_mismatch(s, now, workers, discovered);
}

/// A worker that is not configured, or that runs no local indexer, is never
/// mismatched, and an open report on it is cleared.
pub proof fn only_indexing_workers_are_expected(
    s: MonitorState,
    now: u64,
    workers: Map<u64, ModelRuntimeConfig>,
    discovered: Set<(u64, u32)>,
    worker: u64,
)
    requires
        workers.dom().finite(),
        s.reported.dom().finite(),
        !workers.contains_key(worker) || !workers[worker].enable_local_indexer,
    ensures
        forall|rank: u32| !#[trigger] expected(workers).contains((worker, rank)),
        !s.evaluation(now, workers, discovered).reports_on(worker),
        s.evaluation(now, workers, discovered).recovered_workers.contains(worker)
            == s.reported.contains_key(worker),
        !s.after(now, workers, discovered).reported.contains_key(worker),
{
    reports_and_recoveries_are_exact(s, now, workers, discovered, worker);
    assert(!mismatched(s.since(now, workers, discovered), now).contains(worker));
}

/// An endpoint that stays missing keeps the time at which it was first missed.
pub proof fn missing_endpoint_keeps_its_time(
    s: MonitorState,
    first: u64,
    later: u64,
    workers: Map<u64, ModelRuntimeConfig>,
    discovered: Set<(u64, u32)>,
    workers_later: Map<u64, ModelRuntimeConfig>,
    discovered_later: Set<(u64, u32)>,
    key: (u64, u32),
)
    requires
        expected(workers).contains(key) && !discovered.contains(key),
        expected(workers_later).contains(key) && !discovered_later.contains(key),
    ensures
        ({
            let s1 = s.after(first, workers, discovered);
            let s2 = s1.after(later, workers_later, discovered_later);
            s2.missing_since[key] == s1.missing_since[key]
        }),
        !s.missing_since.contains_key(key) ==> s.after(
            first,
            workers,
            discovered,
        ).missing_since[key] == first,
{
}

/// Registering once restarts the grace period: after a check that saw the
/// endpoint, the next check cannot count it as matured.
pub proof fn registration_restarts_the_grace_period(
    s: MonitorState,
    first: u64,
    later: u64,
    workers: Map<u64, ModelRuntimeConfig>,
    discovered: Set<(u64, u32)>,
    workers_later: Map<u64, ModelRuntimeConfig>,
    discovered_later: Set<(u64, u32)>,
    key: (u64, u32),
)
    requires
        discovered.contains(key) || !expected(workers).contains(key),
    ensures
        !matured(
            s.after(first, workers, discovered).since(later, workers_later, discovered_later),
            later,
            key,
        ),
{
}

/// An endpoint that is missing at two checks at least a grace period apart puts
/// its worker in the count, and in the reports if it has no open report.
pub proof fn missing_past_the_grace_period_is_a_mismatch(
    s: MonitorState,
    first: u64,
    later: u64,
    workers: Map<u64, ModelRuntimeConfig>,
    discovered: Set<(u64, u32)>,
    key: (u64, u32),
)
    requires
        workers.dom().finite(),
        s.after(first, workers, discovered).reported.dom().finite(),
        expected(workers).contains(key) && !discovered.contains(key),
        s.missing_since.contains_key(key) ==> s.missing_since[key] <= first,
        later - first >= REGISTRATION_GRACE_PERIOD,
    ensures
        ({
            let s1 = s.after(first, workers, discovered);
            let e = s1.evaluation(later, workers, discovered);
            &&& e.mismatch_worker_count > 0
            &&& s1.after(later, workers, discovered).reported.contains_key(key.0)
            &&& !s1.reported.contains_key(key.0) ==> e.reports_on(key.0)
        }),
{
    let s1 = s.after(first, workers, discovered);
    let since = s1.since(later, workers, discovered);
    reports_and_recoveries_are_exact(s1, later, workers, discovered, key.0);
    lemma_mismatched_are_configured(s1, later, workers, discovered);
    assert(key == (key.0, key.1));
    assert(matured(since, later, (key.0, key.1)));
    assert(mismatched(since, later).contains(key.0));
    assert(mismatched(since, later).len() > 0);
}

/// After every check the open reports are exactly those on the mismatched workers,
/// and each of them lists the ranks that are missing now.
pub proof fn open_reports_are_the_mismatched_workers(
    s: MonitorState,
    now: u64,
    workers: Map<u64, ModelRuntimeConfig>,
    discovered: Set<(u64, u32)>,
)
    ensures
        ({
            let since = s.since(now, workers, discovered);
            let s1 = s.after(now, workers, discovered);
            &&& s1.reported.dom() == mismatched(since, now)
            &&& forall|worker: u64| #[trigger]
                s1.reported.contains_key(worker) ==> s1.reported[worker].missing_dp_ranks
                    == missing_ranks(since, now, worker)
        }),
{
    let since = s.since(now, workers, discovered);
    assert(s.after(now, workers, discovered).reported.dom() =~= mismatched(since, now));
}

/// An unchanged mismatch stays quiet until the repeat interval has passed since
/// its report, and is then reported again.
pub proof fn unchanged_mismatch_repeats_once_per_interval(
    s: MonitorState,
    now: u64,
    workers: Map<u64, ModelRuntimeConfig>,
    discovered: Set<(u64, u32)>,
    worker: u64,
)
    requires
        workers.dom().finite(),
        s.reported.dom().finite(),
        s.reported.contains_key(worker),
        mismatched(s.since(now, workers, discovered), now).contains(worker),
        s.reported[worker].missing_dp_ranks == missing_ranks(
            s.since(now, workers, discovered),
            now,
            worker,
        ),
    ensures
        s.evaluation(now, workers, discovered).reports_on(worker) <==> elapsed(
            now,
            s.reported[worker].reported_at,
        ) >= ERROR_REPEAT_INTERVAL,
        s.after(now, workers, discovered).reported[worker].reported_at == (if s.evaluation(
            now,
            workers,
            discovered,
        ).reports_on(worker) {
            now
        } else {
            s.reported[worker].reported_at
        }),
        !s.evaluation(now, workers, discovered).recovered_workers.contains(worker),
{
    reports_and_recoveries_are_exact(s, now, workers, discovered, worker);
}

/// A change in the missing ranks of a mismatched worker is reported at once.
pub proof fn changed_mismatch_is_reported(
    s: MonitorState,
    now: u64,
    workers: Map<u64, ModelRuntimeConfig>,
    discovered: Set<(u64, u32)>,
    worker: u64,
)
    requires
        workers.dom().finite(),
        s.reported.dom().finite(),
        mismatched(s.since(now, workers, discovered), now).contains(worker),
        s.reported.contains_key(worker) ==> s.reported[worker].missing_dp_ranks != missing_ranks(
            s.since(now, workers, discovered),
            now,
            worker,
        ),
    ensures
        s.evaluation(now, workers, discovered).reports_on(worker),
        s.after(now, workers, discovered).reported[worker].reported_at == now,
{
    reports_and_recoveries_are_exact(s, now, workers, discovered, worker);
}

/// Every open report stays open or is named as recovered, never both, and one that
/// is named recovered is forgotten, so the next check does not name it again.
pub proof fn recovery_is_named_once(
    s: MonitorState,
    now: u64,
    workers: Map<u64, ModelRuntimeConfig>,
    discovered: Set<(u64, u32)>,
    worker: u64,
)
    requires
        workers.dom().finite(),
        s.reported.dom().finite(),
        s.reported.contains_key(worker),
    ensures
        s.evaluation(now, workers, discovered).recovered_workers.contains(worker) <==> !s.after(
            now,
            workers,
            discovered,
        ).reported.contains_key(worker),
{
    reports_and_recoveries_are_exact(s, now, workers, discovered, worker);
}

/// Checking twice at the same instant reports nothing new and changes nothing.
pub proof fn repeated_check_is_silent(
    s: MonitorState,
    now: u64,
    workers: Map<u64, ModelRuntimeConfig>,
    discovered: Set<(u64, u32)>,
)
    ensures
        ({
            let s1 = s.after(now, workers, discovered);
            &&& s1.after(now, workers, discovered) == s1
            &&& s1.evaluation(now, workers, discovered) == HealthEvaluationView {
                reports: Seq::empty(),
                recovered_workers: Seq::empty(),
                mismatch_worker_count: s.evaluation(
                    now,
                    workers,
                    discovered,
                ).mismatch_worker_count,
            }
        }),
{
    let s1 = s.after(now, workers, discovered);
    let since = s.since(now, workers, discovered);
    assert(s1.since(now, workers, discovered) =~= since);
    assert forall|worker: u64| mismatched(since, now).contains(worker) implies !#[trigger] s1.due(
        since,
        now,
        worker,
    ) by {
        assert(s1.reported.contains_key(worker));
    }
    assert(s1.after(now, workers, discovered) =~= s1);
    assert(s1.due_workers(since, now) =~= Set::<u64>::empty());
    assert(s1.reported.dom().difference(mismatched(since, now)) =~= Set::<u64>::empty());
    lemma_ascending_of_nothing();
    assert(s1.evaluation(now, workers, discovered).reports =~= Seq::<MismatchReportView>::empty());
}

// ---------------------------------------------------------------------------
// Laws of histories
// ---------------------------------------------------------------------------

/// What one health check is given.
#[verifier::ext_equal]
pub struct Check {
    pub now: u64,
    pub workers: Map<u64, ModelRuntimeConfig>,
    pub discovered: Set<(u64, u32)>,
}

/// What a fresh monitor remembers after a series of checks.
pub open spec fn state_after(checks: Seq<Check>) -> MonitorState
    decreases checks.len(),
{
    if checks.len() == 0 {
        MonitorState::fresh()
    } else {
        let last = checks.last();
        state_after(checks.drop_last()).after(last.now, last.workers, last.discovered)
    }
}

/// What the last of a series of checks concludes.
pub open spec fn conclusion(checks: Seq<Check>) -> HealthEvaluationView {
    let last = checks.last();
    state_after(checks.drop_last()).evaluation(last.now, last.workers, last.discovered)
}

/// Whether checks can follow each other: the clock never goes back, and no check sees
/// infinitely many workers.
pub open spec fn is_history(checks: Seq<Check>) -> bool {
    &&& forall|i: int, j: int|
        0 <= i <= j < checks.len() ==> (#[trigger] checks[i]).now <= (#[trigger] checks[j]).now
    &&& forall|i: int| 0 <= i < checks.len() ==> (#[trigger] checks[i]).workers.dom().finite()
}

/// Whether a check finds an endpoint missing: it is expected and was not discovered.
pub open spec fn missing_at(check: Check, key: (u64, u32)) -> bool {
    expected(check.workers).contains(key) && !check.discovered.contains(key)
}

/// Whether an endpoint is missing at a check and at every later one.
pub open spec fn missing_from(checks: Seq<Check>, i: int, key: (u64, u32)) -> bool {
    forall|j: int| i <= j < checks.len() ==> missing_at(#[trigger] checks[j], key)
}

/// Whether an endpoint is overdue at the last check: it is missing then and at every
/// check since one that was at least a grace period earlier.
pub open spec fn overdue(checks: Seq<Check>, key: (u64, u32)) -> bool {
    exists|i: int|
        0 <= i < checks.len() && checks.last().now - (#[trigger] checks[i]).now
            >= REGISTRATION_GRACE_PERIOD && missing_from(checks, i, key)
}

/// The ranks of a worker whose endpoints are overdue at the last check.
pub open spec fn overdue_ranks(checks: Seq<Check>, worker: u64) -> Set<u32> {
    Set::new(|rank: u32| overdue(checks, (worker, rank)))
}

/// The workers with an overdue endpoint at the last check.
pub open spec fn overdue_workers(checks: Seq<Check>) -> Set<u64> {
    Set::new(|worker: u64| exists|rank: u32| overdue(checks, (worker, rank)))
}

/// Whether the overdue ranks of a worker have been the same at every check from one on.
pub open spec fn unchanged_from(checks: Seq<Check>, i: int, worker: u64) -> bool {
    forall|j: int|
        i <= j < checks.len() ==> overdue_ranks(#[trigger] checks.take(j + 1), worker)
            == overdue_ranks(checks, worker)
}

/// Whether an earlier check keeps the last one quiet on a worker: it reported on the
/// worker less than a repeat interval ago, and the overdue ranks have been the same at
/// every check since.
pub open spec fn keeps_quiet(checks: Seq<Check>, i: int, worker: u64) -> bool {
    &&& conclusion(checks.take(i + 1)).reports_on(worker)
    &&& checks.last().now - checks[i].now < ERROR_REPEAT_INTERVAL
    &&& unchanged_from(checks, i, worker)
}

/// The first check of the present run of checks that find an endpoint missing, or the
/// number of checks where the last one does not.
spec fn first_missed(checks: Seq<Check>, key: (u64, u32)) -> int
    decreases checks.len(),
{
    if checks.len() == 0 || !missing_at(checks.last(), key) {
        checks.len() as int
    } else {
        first_missed(checks.drop_last(), key)
    }
}

proof fn lemma_first_missed(checks: Seq<Check>, key: (u64, u32))
    ensures
        ({
            let f = first_missed(checks, key);
            let since = state_after(checks).missing_since;
            &&& 0 <= f <= checks.len()
            &&& missing_from(checks, f, key)
            &&& f > 0 ==> !missing_at(checks[f - 1], key)
            &&& since.contains_key(key) <==> f < checks.len()
            &&& f < checks.len() ==> since[key] == checks[f].now
        }),
    decreases checks.len(),
{
    if checks.len() > 0 {
        let rest = checks.drop_last();
        let last = checks.len() - 1;
        lemma_first_missed(rest, key);
        if missing_at(checks.last(), key) {
            let f = first_missed(checks, key);
            assert(missing_from(rest, f, key));
            assert forall|j: int| f <= j < checks.len() implies missing_at(
                #[trigger] checks[j],
                key,
            ) by {
                if j < last {
                    assert(rest[j] == checks[j]);
                }
            }
            if f > 0 {
                assert(rest[f - 1] == checks[f - 1]);
            }
        }
    }
}

/// An endpoint has matured exactly when it is overdue.
proof fn lemma_matured_is_overdue(checks: Seq<Check>, key: (u64, u32))
    requires
        is_history(checks),
        checks.len() > 0,
    ensures
        matured(state_after(checks).missing_since, checks.last().now, key) <==> overdue(checks, key),
{
    lemma_first_missed(checks, key);
    let f = first_missed(checks, key);
    if overdue(checks, key) {
        let i = choose|i: int|
            0 <= i < checks.len() && checks.last().now - (#[trigger] checks[i]).now
                >= REGISTRATION_GRACE_PERIOD && missing_from(checks, i, key);
        assert(missing_at(checks[checks.len() - 1], key));
        if f > i {
            assert(missing_at(checks[f - 1], key));
        }
        assert(checks[f].now <= checks[i].now);
    }
    if matured(state_after(checks).missing_since, checks.last().now, key) {
        assert(checks[f].now <= checks[checks.len() - 1].now);
    }
}

proof fn lemma_overdue(checks: Seq<Check>)
    requires
        is_history(checks),
        checks.len() > 0,
    ensures
        ({
            let since = state_after(checks).missing_since;
            let now = checks.last().now;
            &&& mismatched(since, now) == overdue_workers(checks)
            &&& forall|worker: u64| #[trigger]
                missing_rank_set(since, now, worker) == overdue_ranks(checks, worker)
            &&& state_after(checks).reported.dom() == overdue_workers(checks)
            &&& overdue_workers(checks).finite()
        }),
{
    let since = state_after(checks).missing_since;
    let now = checks.last().now;
    let last = checks.last();
    let s = state_after(checks.drop_last());
    assert forall|key: (u64, u32)| #[trigger] matured(since, now, key) == overdue(checks, key) by {
        lemma_matured_is_overdue(checks, key);
    }
    assert forall|worker: u64| mismatched(since, now).contains(worker) == overdue_workers(
        checks,
    ).contains(worker) by {
        if mismatched(since, now).contains(worker) {
            let rank = choose|rank: u32| matured(since, now, (worker, rank));
            assert(overdue(checks, (worker, rank)));
        }
        if overdue_workers(checks).contains(worker) {
            let rank = choose|rank: u32| overdue(checks, (worker, rank));
            assert(matured(since, now, (worker, rank)));
        }
    }
    assert(mismatched(since, now) =~= overdue_workers(checks));
    assert forall|worker: u64| #[trigger] missing_rank_set(since, now, worker) == overdue_ranks(
        checks,
        worker,
    ) by {
        assert forall|rank: u32| missing_rank_set(since, now, worker).contains(rank)
            == overdue_ranks(checks, worker).contains(rank) by {
            assert(matured(since, now, (worker, rank)) == overdue(checks, (worker, rank)));
        }
        assert(missing_rank_set(since, now, worker) =~= overdue_ranks(checks, worker));
    }
    open_reports_are_the_mismatched_workers(s, last.now, last.workers, last.discovered);
    assert(checks[checks.len() - 1].workers.dom().finite());
    lemma_mismatched_are_configured(s, last.now, last.workers, last.discovered);
}

proof fn lemma_shorter_history(checks: Seq<Check>, n: int)
    requires
        is_history(checks),
        0 <= n <= checks.len(),
    ensures
        is_history(checks.take(n)),
{
    let part = checks.take(n);
    assert forall|i: int, j: int| 0 <= i <= j < part.len() implies (#[trigger] part[i]).now <= (
    #[trigger] part[j]).now by {
        assert(checks[i].now <= checks[j].now);
    }
    assert forall|i: int| 0 <= i < part.len() implies (
    #[trigger] part[i]).workers.dom().finite() by {
        assert(checks[i].workers.dom().finite());
    }
}

proof fn lemma_reported_set_finite(checks: Seq<Check>)
    requires
        is_history(checks),
    ensures
        state_after(checks).reported.dom().finite(),
{
    if checks.len() > 0 {
        lemma_overdue(checks);
    } else {
        assert(state_after(checks).reported.dom() =~= Set::<u64>::empty());
    }
}

/// What the last check says of a worker, over what was remembered before it.
proof fn lemma_conclusion(checks: Seq<Check>, worker: u64)
    requires
        is_history(checks),
        checks.len() > 0,
    ensures
        ({
            let s = state_after(checks.drop_last());
            let since = state_after(checks).missing_since;
            let now = checks.last().now;
            let e = conclusion(checks);
            &&& e.reports_on(worker) <==> overdue_workers(checks).contains(worker) && s.due(
                since,
                now,
                worker,
            )
            &&& e.recovered_workers.contains(worker) <==> s.reported.contains_key(worker)
                && !overdue_workers(checks).contains(worker)
            &&& missing_ranks(since, now, worker) == collections::ascending_u32(
                overdue_ranks(checks, worker),
            )
        }),
{
    let last = checks.last();
    assert(checks.drop_last() =~= checks.take(checks.len() - 1));
    lemma_shorter_history(checks, checks.len() - 1);
    lemma_reported_set_finite(checks.drop_last());
    lemma_overdue(checks);
    assert(checks[checks.len() - 1].workers.dom().finite());
    reports_and_recoveries_are_exact(
        state_after(checks.drop_last()),
        last.now,
        last.workers,
        last.discovered,
        worker,
    );
}

/// Ranks that were unchanged and are still the same are unchanged.
proof fn lemma_still_unchanged(checks: Seq<Check>, i: int, worker: u64)
    requires
        checks.len() > 0,
        0 <= i,
        unchanged_from(checks.drop_last(), i, worker),
        collections::ascending_u32(overdue_ranks(checks.drop_last(), worker))
            == collections::ascending_u32(overdue_ranks(checks, worker)),
    ensures
        unchanged_from(checks, i, worker),
{
    let before = checks.drop_last();
    collections::lemma_same_ascending_u32(
        overdue_ranks(before, worker),
        overdue_ranks(checks, worker),
    );
    assert forall|j: int| i <= j < checks.len() implies overdue_ranks(
        #[trigger] checks.take(j + 1),
        worker,
    ) == overdue_ranks(checks, worker) by {
        if j < before.len() {
            assert(before.take(j + 1) =~= checks.take(j + 1));
        } else {
            assert(checks.take(j + 1) =~= checks);
        }
    }
}

/// What is remembered of a worker with an overdue endpoint: a report made now where
/// one is due, and otherwise the earlier report on the same ranks.
proof fn lemma_report_kept(checks: Seq<Check>, worker: u64)
    requires
        is_history(checks),
        checks.len() > 0,
        overdue_workers(checks).contains(worker),
    ensures
        ({
            let s = state_after(checks.drop_last());
            let after = state_after(checks);
            let now = checks.last().now;
            let ranks = collections::ascending_u32(overdue_ranks(checks, worker));
            &&& after.reported.contains_key(worker)
            &&& after.reported[worker].missing_dp_ranks == ranks
            &&& conclusion(checks).reports_on(worker) ==> after.reported[worker].reported_at == now
            &&& !conclusion(checks).reports_on(worker) ==> {
                &&& s.reported.contains_key(worker)
                &&& s.reported[worker].missing_dp_ranks == ranks
                &&& elapsed(now, s.reported[worker].reported_at) < ERROR_REPEAT_INTERVAL
                &&& after.reported[worker] == s.reported[worker]
            }
            &&& s.reported.contains_key(worker) && s.reported[worker].missing_dp_ranks == ranks
                && elapsed(now, s.reported[worker].reported_at) < ERROR_REPEAT_INTERVAL
                ==> !conclusion(checks).reports_on(worker)
        }),
{
    lemma_conclusion(checks, worker);
    lemma_overdue(checks);
}

/// An open report was made at some check, and the overdue ranks have been the same
/// ever since.
#[verifier::spinoff_prover]
proof fn lemma_open_report(checks: Seq<Check>, worker: u64) -> (i: int)
    requires
        is_history(checks),
        checks.len() > 0,
        overdue_workers(checks).contains(worker),
    ensures
        0 <= i < checks.len(),
        conclusion(checks.take(i + 1)).reports_on(worker),
        state_after(checks).reported[worker].reported_at == checks[i].now,
        unchanged_from(checks, i, worker),
    decreases checks.len(),
{
    let n = checks.len() as int;
    let before = checks.drop_last();
    lemma_report_kept(checks, worker);
    if conclusion(checks).reports_on(worker) {
        assert(checks.take(n) =~= checks);
        n - 1
    } else {
        lemma_was_overdue(checks, worker);
        lemma_report_kept(before, worker);
        let i = lemma_open_report(before, worker);
        lemma_still_unchanged(checks, i, worker);
        assert(before.take(i + 1) =~= checks.take(i + 1));
        i
    }
}

/// A worker with an open report had an overdue endpoint at the check before.
proof fn lemma_was_overdue(checks: Seq<Check>, worker: u64)
    requires
        is_history(checks),
        checks.len() > 0,
        state_after(checks.drop_last()).reported.contains_key(worker),
    ensures
        checks.len() > 1,
        is_history(checks.drop_last()),
        overdue_workers(checks.drop_last()).contains(worker),
{
    let before = checks.drop_last();
    assert(before =~= checks.take(checks.len() - 1));
    lemma_shorter_history(checks, checks.len() - 1);
    if before.len() > 0 {
        lemma_overdue(before);
    }
}

/// A report stays open, or is made anew, while the overdue ranks stay the same.
#[verifier::spinoff_prover]
proof fn lemma_report_stays_open(checks: Seq<Check>, i: int, worker: u64)
    requires
        is_history(checks),
        0 <= i < checks.len(),
        conclusion(checks.take(i + 1)).reports_on(worker),
        overdue_workers(checks).contains(worker),
        unchanged_from(checks, i, worker),
    ensures
        state_after(checks).reported[worker].reported_at >= checks[i].now,
    decreases checks.len(),
{
    let n = checks.len() as int;
    let before = checks.drop_last();
    lemma_report_kept(checks, worker);
    assert(checks[i].now <= checks[n - 1].now);
    if i < n - 1 {
        lemma_unchanged_before(checks, i, worker);
        assert(before.take(i + 1) =~= checks.take(i + 1));
        lemma_report_stays_open(before, i, worker);
    } else {
        assert(checks.take(n) =~= checks);
    }
}

/// Ranks that are unchanged since before the last check were so then.
proof fn lemma_unchanged_before(checks: Seq<Check>, i: int, worker: u64)
    requires
        is_history(checks),
        0 <= i < checks.len() - 1,
        overdue_workers(checks).contains(worker),
        unchanged_from(checks, i, worker),
    ensures
        is_history(checks.drop_last()),
        overdue_ranks(checks.drop_last(), worker) == overdue_ranks(checks, worker),
        overdue_workers(checks.drop_last()).contains(worker),
        unchanged_from(checks.drop_last(), i, worker),
{
    let n = checks.len() as int;
    let before = checks.drop_last();
    assert(before =~= checks.take(n - 1));
    lemma_shorter_history(checks, n - 1);
    assert(checks.take(n - 2 + 1) == before);
    assert(overdue_ranks(before, worker) == overdue_ranks(checks, worker));
    let rank = choose|rank: u32| overdue(checks, (worker, rank));
    assert(overdue_ranks(checks, worker).contains(rank));
    assert(overdue_ranks(before, worker).contains(rank));
    assert(overdue(before, (worker, rank)));
    assert forall|j: int| i <= j < before.len() implies overdue_ranks(
        #[trigger] before.take(j + 1),
        worker,
    ) == overdue_ranks(before, worker) by {
        assert(before.take(j + 1) =~= checks.take(j + 1));
    }
}

/// A worker that the last check passes over in silence is kept quiet by the check that
/// made the open report.
proof fn lemma_silence_has_a_cause(checks: Seq<Check>, worker: u64)
    requires
        is_history(checks),
        checks.len() > 0,
        overdue_workers(checks).contains(worker),
        !conclusion(checks).reports_on(worker),
    ensures
        exists|i: int| 0 <= i < checks.len() - 1 && #[trigger] keeps_quiet(checks, i, worker),
{
    let before = checks.drop_last();
    lemma_report_kept(checks, worker);
    lemma_was_overdue(checks, worker);
    lemma_report_kept(before, worker);
    let i = lemma_open_report(before, worker);
    lemma_still_unchanged(checks, i, worker);
    assert(before.take(i + 1) =~= checks.take(i + 1));
    assert(before[i] == checks[i]);
    assert(checks[i].now <= checks[checks.len() - 1].now);
    assert(keeps_quiet(checks, i, worker));
}

/// A worker that an earlier check keeps the last one quiet on is not reported.
proof fn lemma_kept_quiet_is_silent(checks: Seq<Check>, i: int, worker: u64)
    requires
        is_history(checks),
        overdue_workers(checks).contains(worker),
        0 <= i < checks.len() - 1,
        keeps_quiet(checks, i, worker),
    ensures
        !conclusion(checks).reports_on(worker),
{
    let before = checks.drop_last();
    lemma_report_kept(checks, worker);
    lemma_unchanged_before(checks, i, worker);
    lemma_report_kept(before, worker);
    assert(before.take(i + 1) =~= checks.take(i + 1));
    assert(before[i] == checks[i]);
    lemma_report_stays_open(before, i, worker);
}

/// The count of a check is that of the workers with an overdue endpoint: one that is
/// missing at this check and at every check since one at least a grace period earlier.
pub proof fn overdue_workers_are_counted(checks: Seq<Check>)
    requires
        is_history(checks),
        checks.len() > 0,
    ensures
        conclusion(checks).mismatch_worker_count == overdue_workers(checks).len(),
{
    lemma_overdue(checks);
}

/// A check reports on exactly the workers with an overdue endpoint that no earlier
/// check keeps it quiet on, and each report lists the overdue ranks, smallest first.
pub proof fn overdue_workers_are_reported_unless_kept_quiet(checks: Seq<Check>, worker: u64)
    requires
        is_history(checks),
        checks.len() > 0,
    ensures
        conclusion(checks).reports_on(worker) <==> overdue_workers(checks).contains(worker) && !(
        exists|i: int|
            0 <= i < checks.len() - 1 && #[trigger] keeps_quiet(checks, i, worker)),
        forall|j: int|
            0 <= j < conclusion(checks).reports.len() ==> (
            #[trigger] conclusion(checks).reports[j]).missing_dp_ranks
                == collections::ascending_u32(
                overdue_ranks(checks, conclusion(checks).reports[j].worker_id),
            ),
{
    lemma_conclusion(checks, worker);
    if overdue_workers(checks).contains(worker) {
        if !conclusion(checks).reports_on(worker) {
            lemma_silence_has_a_cause(checks, worker);
        } else if exists|i: int|
            0 <= i < checks.len() - 1 && #[trigger] keeps_quiet(checks, i, worker) {
            let i = choose|i: int|
                0 <= i < checks.len() - 1 && #[trigger] keeps_quiet(checks, i, worker);
            lemma_kept_quiet_is_silent(checks, i, worker);
        }
    }
    lemma_reported_ranks(checks);
}

/// Each report lists the overdue ranks of its worker.
proof fn lemma_reported_ranks(checks: Seq<Check>)
    requires
        is_history(checks),
        checks.len() > 0,
    ensures
        forall|j: int|
            0 <= j < conclusion(checks).reports.len() ==> (
            #[trigger] conclusion(checks).reports[j]).missing_dp_ranks
                == collections::ascending_u32(
                overdue_ranks(checks, conclusion(checks).reports[j].worker_id),
            ),
{
    assert forall|j: int| 0 <= j < conclusion(checks).reports.len() implies (
    #[trigger] conclusion(checks).reports[j]).missing_dp_ranks == collections::ascending_u32(
        overdue_ranks(checks, conclusion(checks).reports[j].worker_id),
    ) by {
        lemma_conclusion(checks, conclusion(checks).reports[j].worker_id);
    }
}

/// A check names as recovered exactly the workers that had an overdue endpoint at the
/// check before and have none now.
pub proof fn recovered_workers_were_overdue_before(checks: Seq<Check>, worker: u64)
    requires
        is_history(checks),
        checks.len() > 0,
    ensures
        conclusion(checks).recovered_workers.contains(worker) <==> checks.len() > 1
            && overdue_workers(checks.drop_last()).contains(worker) && !overdue_workers(
            checks,
        ).contains(worker),
{
    let before = checks.drop_last();
    assert(before =~= checks.take(checks.len() - 1));
    lemma_shorter_history(checks, checks.len() - 1);
    lemma_conclusion(checks, worker);
    if before.len() > 0 {
        lemma_overdue(before);
    }
}

// ---------------------------------------------------------------------------
// Laws of a single check, on the fields of the configurations
// ---------------------------------------------------------------------------

/// A worker is expected to register exactly one endpoint for each of the ranks from its
/// start rank on, as many as its size says and as far as ranks can be numbered, if it
/// runs a local indexer and not otherwise.
pub proof fn expected_endpoints_are_the_configured_ranks(
    workers: Map<u64, ModelRuntimeConfig>,
    worker: u64,
    rank: u32,
)
    ensures
        expected(workers).contains((worker, rank)) <==> {
            &&& workers.contains_key(worker)
            &&& workers[worker].enable_local_indexer
            &&& exists|k: int|
                0 <= k < workers[worker].data_parallel_size && rank
                    == #[trigger] (workers[worker].data_parallel_start_rank + k)
        },
{
    if workers.contains_key(worker) {
        let start = workers[worker].data_parallel_start_rank;
        assert(rank == start + (rank - start));
    }
}

/// A worker with a local indexer and at least one rank is expected at its start rank.
pub proof fn start_rank_is_expected(workers: Map<u64, ModelRuntimeConfig>, worker: u64)
    requires
        workers.contains_key(worker),
        workers[worker].enable_local_indexer,
        workers[worker].data_parallel_size > 0,
    ensures
        expected(workers).contains((worker, workers[worker].data_parallel_start_rank)),
{
}

proof fn lemma_ranks_from(start: nat, size: nat)
    requires
        start + size <= u32::MAX + 1,
    ensures
        Set::new(|rank: u32| start <= rank < start + size).finite(),
        Set::new(|rank: u32| start <= rank < start + size).len() == size,
    decreases size,
{
    let ranks = Set::new(|rank: u32| start <= rank < start + size);
    if size == 0 {
        assert(ranks =~= Set::<u32>::empty());
    } else {
        let fewer = Set::new(|rank: u32| start <= rank < start + (size - 1) as nat);
        let last = (start + size - 1) as u32;
        lemma_ranks_from(start, (size - 1) as nat);
        assert(ranks =~= fewer.insert(last));
        assert(!fewer.contains(last));
    }
}

/// A worker with a local indexer is expected at as many ranks as its size says, where
/// all of them can be numbered.
pub proof fn as_many_ranks_are_expected_as_the_size_says(
    workers: Map<u64, ModelRuntimeConfig>,
    worker: u64,
)
    requires
        workers.contains_key(worker),
        workers[worker].enable_local_indexer,
        workers[worker].data_parallel_start_rank + workers[worker].data_parallel_size <= u32::MAX
            + 1,
    ensures
        Set::new(|rank: u32| expected(workers).contains((worker, rank))).len()
            == workers[worker].data_parallel_size,
{
    let start = workers[worker].data_parallel_start_rank as nat;
    let size = workers[worker].data_parallel_size as nat;
    lemma_ranks_from(start, size);
    assert(Set::new(|rank: u32| expected(workers).contains((worker, rank))) =~= Set::new(
        |rank: u32| start <= rank < start + size,
    ));
}

/// Moving the start rank of a worker moves every expected rank by as much.
pub proof fn expected_ranks_move_with_the_start_rank(
    a: Map<u64, ModelRuntimeConfig>,
    b: Map<u64, ModelRuntimeConfig>,
    worker: u64,
    distance: u32,
    rank: u32,
)
    requires
        a.contains_key(worker) && b.contains_key(worker),
        a[worker].enable_local_indexer == b[worker].enable_local_indexer,
        a[worker].data_parallel_size == b[worker].data_parallel_size,
        a[worker].data_parallel_start_rank + distance == b[worker].data_parallel_start_rank,
        rank + distance <= u32::MAX,
    ensures
        expected(a).contains((worker, rank)) <==> expected(b).contains(
            (worker, (rank + distance) as u32),
        ),
{
}

/// What is expected of a worker depends on its own configuration alone.
pub proof fn workers_are_expected_independently(
    a: Map<u64, ModelRuntimeConfig>,
    b: Map<u64, ModelRuntimeConfig>,
    worker: u64,
    rank: u32,
)
    requires
        a.contains_key(worker) == b.contains_key(worker),
        a.contains_key(worker) ==> a[worker] == b[worker],
    ensures
        expected(a).contains((worker, rank)) <==> expected(b).contains((worker, rank)),
{
}

/// The grace period is ten seconds, a mismatch repeats once per minute, and the monitor
/// runs every second, in nanoseconds.
pub proof fn periods_are_in_nanoseconds()
    ensures
        REGISTRATION_GRACE_PERIOD == 10 * 1_000_000_000,
        ERROR_REPEAT_INTERVAL == 60 * 1_000_000_000,
        HEALTH_CHECK_INTERVAL == 1_000_000_000,
{
}

/// A check keeps time of exactly the endpoints that are configured and not discovered:
/// one that was missing before keeps its time, one that is newly missing starts now.
pub proof fn check_keeps_time_of_what_is_missing(
    s: MonitorState,
    now: u64,
    workers: Map<u64, ModelRuntimeConfig>,
    discovered: Set<(u64, u32)>,
    worker: u64,
    rank: u32,
)
    ensures
        ({
            let key = (worker, rank);
            let since = s.after(now, workers, discovered).missing_since;
            let missing = workers.contains_key(worker) && workers[worker].enable_local_indexer
                && workers[worker].data_parallel_start_rank <= rank && rank
                - workers[worker].data_parallel_start_rank < workers[worker].data_parallel_size
                && !discovered.contains(key);
            &&& since.contains_key(key) <==> missing
            &&& missing && s.missing_since.contains_key(key) ==> since[key] == s.missing_since[key]
            &&& missing && !s.missing_since.contains_key(key) ==> since[key] == now
        }),
{
}

/// A worker is mismatched exactly when one of its endpoints has been missing for ten
/// seconds by the clock; a clock that went back counts as no time.
pub proof fn mismatch_takes_ten_seconds(since: Map<(u64, u32), u64>, now: u64, worker: u64)
    ensures
        mismatched(since, now).contains(worker) <==> exists|rank: u32| #[trigger]
            since.contains_key((worker, rank)) && now - since[(worker, rank)] >= 10_000_000_000,
{
    if mismatched(since, now).contains(worker) {
        let rank = choose|rank: u32| matured(since, now, (worker, rank));
        assert(since.contains_key((worker, rank)));
    }
    if exists|rank: u32| #[trigger]
        since.contains_key((worker, rank)) && now - since[(worker, rank)] >= 10_000_000_000 {
        let rank = choose|rank: u32| #[trigger]
            since.contains_key((worker, rank)) && now - since[(worker, rank)] >= 10_000_000_000;
        assert(matured(since, now, (worker, rank)));
    }
}

/// The missing ranks of a worker are those that have been missing for ten seconds, each
/// once, smallest first.
pub proof fn missing_ranks_take_ten_seconds(since: Map<(u64, u32), u64>, now: u64, worker: u64)
    ensures
        forall|rank: u32| #[trigger]
            missing_ranks(since, now, worker).contains(rank) <==> since.contains_key((worker, rank))
                && now - since[(worker, rank)] >= 10_000_000_000,
        forall|i: int, j: int|
            0 <= i < j < missing_ranks(since, now, worker).len() ==> missing_ranks(
                since,
                now,
                worker,
            )[i] < missing_ranks(since, now, worker)[j],
{
    collections::ascending_ranks_are_the_members(missing_rank_set(since, now, worker));
}

/// A check counts the mismatched workers; it reports on each that has no open report,
/// whose missing ranks are not the reported ones, or whose report is a minute old; it
/// names as recovered each that has an open report and is no longer mismatched; and it
/// keeps open exactly the reports on mismatched workers, each as of when it was made.
pub proof fn check_concludes_from_what_is_open(
    s: MonitorState,
    now: u64,
    workers: Map<u64, ModelRuntimeConfig>,
    discovered: Set<(u64, u32)>,
    worker: u64,
)
    requires
        workers.dom().finite(),
        s.reported.dom().finite(),
    ensures
        ({
            let after = s.after(now, workers, discovered);
            let e = s.evaluation(now, workers, discovered);
            let bad = mismatched(after.missing_since, now);
            let ranks = missing_ranks(after.missing_since, now, worker);
            let reported = bad.contains(worker) && (!s.reported.contains_key(worker)
                || s.reported[worker].missing_dp_ranks != ranks || now
                - s.reported[worker].reported_at >= 60_000_000_000);
            &&& e.mismatch_worker_count == bad.len()
            &&& (exists|j: int|
                0 <= j < e.reports.len() && (#[trigger] e.reports[j]).worker_id == worker)
                <==> reported
            &&& forall|j: int|
                0 <= j < e.reports.len() && (#[trigger] e.reports[j]).worker_id == worker
                    ==> e.reports[j].missing_dp_ranks == ranks
            &&& e.recovered_workers.contains(worker) <==> s.reported.contains_key(worker)
                && !bad.contains(worker)
            &&& after.reported.contains_key(worker) <==> bad.contains(worker)
            &&& reported ==> after.reported[worker] == Reported {
                missing_dp_ranks: ranks,
                reported_at: now,
            }
            &&& bad.contains(worker) && !reported ==> after.reported[worker] == s.reported[worker]
        }),
{
    reports_and_recoveries_are_exact(s, now, workers, discovered, worker);
    let e = s.evaluation(now, workers, discovered);
    assert(e.reports_on(worker) == (exists|j: int|
        0 <= j < e.reports.len() && (#[trigger] e.reports[j]).worker_id == worker));
}

/// Reports and recoveries are listed by ascending worker id, each worker once.
pub proof fn conclusions_are_listed_in_order(
    s: MonitorState,
    now: u64,
    workers: Map<u64, ModelRuntimeConfig>,
    discovered: Set<(u64, u32)>,
)
    requires
        workers.dom().finite(),
        s.reported.dom().finite(),
    ensures
        ({
            let e = s.evaluation(now, workers, discovered);
            &&& forall|i: int, j: int|
                0 <= i < j < e.reports.len() ==> (#[trigger] e.reports[i]).worker_id < (
                #[trigger] e.reports[j]).worker_id
            &&& forall|i: int, j: int|
                0 <= i < j < e.recovered_workers.len() ==> e.recovered_workers[i]
                    < e.recovered_workers[j]
        }),
{
    let since = s.since(now, workers, discovered);
    let due = s.due_workers(since, now);
    lemma_mismatched_are_configured(s, now, workers, discovered);
    vstd::set_lib::lemma_len_subset(due, mismatched(since, now));
    collections::lemma_ascending_u64_members(due);
    let over = s.reported.dom().difference(mismatched(since, now));
    vstd::set_lib::lemma_len_subset(over, s.reported.dom());
    collections::lemma_ascending_u64_members(over);
    let e = s.evaluation(now, workers, discovered);
    let ids = collections::ascending_u64(due);
    assert forall|i: int, j: int| 0 <= i < j < e.reports.len() implies (
    #[trigger] e.reports[i]).worker_id < (#[trigger] e.reports[j]).worker_id by {
        assert(ids[i] < ids[j]);
    }
}

/// What an evaluation says is what it holds.
pub proof fn evaluation_says_what_it_holds(e: HealthEvaluation)
    ensures
        e@.reports.len() == e.reports@.len(),
        forall|i: int|
            0 <= i < e.reports@.len() ==> (#[trigger] e@.reports[i]).worker_id
                == e.reports@[i].worker_id && e@.reports[i].missing_dp_ranks
                == e.reports@[i].missing_dp_ranks@,
        e@.recovered_workers == e.recovered_workers@,
        e@.mismatch_worker_count == e.mismatch_worker_count,
{
}

/// The endpoints that are expected are exactly those that the workers' own configurations
/// promise: one for each rank from the start rank on, of workers with a local indexer.
pub proof fn collected_endpoints_are_the_configured_ranks(
    workers: HashMap<u64, ModelRuntimeConfig>,
    r: BTreeSet<(u64, u32)>,
    worker: u64,
    rank: u32,
)
    requires
        call_ensures(expected_query_endpoints, (&workers,), r),
    ensures
        r@.contains((worker, rank)) <==> {
            &&& workers@.contains_key(worker)
            &&& workers@[worker].enable_local_indexer
            &&& workers@[worker].data_parallel_start_rank <= rank
            &&& rank < workers@[worker].data_parallel_start_rank
                + workers@[worker].data_parallel_size
        },
{
}

/// The time that has passed is the difference of the two readings, and none where the
/// clock reads less than before.
pub proof fn time_passed_is_the_difference(now: u64, earlier: u64)
    ensures
        now >= earlier ==> earlier + elapsed(now, earlier) == now,
        now < earlier ==> elapsed(now, earlier) == 0,
{
}

} // verus!
