//! Reconciling the worker catalog of one selector replica.
//!
//! The replica's actual catalog is compared with the desired set, the difference is
//! applied call by call, and the replica becomes routable only once it reports ready.

use std::collections::HashMap;

use vstd::prelude::*;

use crate::collections;
use crate::collections::ascending_hash_keys;
use crate::selection_backend;
use crate::selection_backend::{same_texts_by_rank, WorkerRegistration, WorkerRegistrationView};
use crate::text;
use crate::text::{same_optional_text, same_text};

verus! {

// ---------------------------------------------------------------------------
// Catalog records
// ---------------------------------------------------------------------------

/// Subset of the selector's `/workers` catalog record that is compared to decide
/// whether a replica already has an up-to-date registration.
#[derive(Debug, Clone)]
pub struct CatalogRecordWire {
    pub worker_id: u64,
    pub model_name: String,
    pub endpoint: Option<String>,
    pub kv_events_endpoints: HashMap<u32, String>,
    pub replay_endpoint: Option<String>,
    pub block_size: Option<u32>,
    pub data_parallel_size: Option<u32>,
    pub max_num_batched_tokens: Option<u64>,
    pub total_kv_blocks: Option<u64>,
    pub stable_routing_id: Option<String>,
}

/// What a [`CatalogRecordWire`] says.
#[verifier::ext_equal]
pub struct CatalogRecordView {
    pub worker_id: u64,
    pub model_name: Seq<char>,
    pub endpoint: Option<Seq<char>>,
    pub kv_events_endpoints: Map<u32, Seq<char>>,
    pub replay_endpoint: Option<Seq<char>>,
    pub block_size: Option<u32>,
    pub data_parallel_size: Option<u32>,
    pub max_num_batched_tokens: Option<u64>,
    pub total_kv_blocks: Option<u64>,
    pub stable_routing_id: Option<Seq<char>>,
}

impl View for CatalogRecordWire {
    type V = CatalogRecordView;

    open spec fn view(&self) -> CatalogRecordView {
        CatalogRecordView {
            worker_id: self.worker_id,
            model_name: self.model_name@,
            endpoint: text::optional_text(self.endpoint),
            kv_events_endpoints: selection_backend::texts_by_rank(self.kv_events_endpoints@),
            replay_endpoint: text::optional_text(self.replay_endpoint),
            block_size: self.block_size,
            data_parallel_size: self.data_parallel_size,
            max_num_batched_tokens: self.max_num_batched_tokens,
            total_kv_blocks: self.total_kv_blocks,
            stable_routing_id: text::optional_text(self.stable_routing_id),
        }
    }
}

/// The record that a registration leaves in a catalog.
pub open spec fn record_of(registration: WorkerRegistrationView) -> CatalogRecordView {
    CatalogRecordView {
        worker_id: registration.worker_id,
        model_name: registration.model_name,
        endpoint: Some(registration.endpoint),
        kv_events_endpoints: registration.kv_events_endpoints,
        replay_endpoint: registration.replay_endpoint,
        block_size: Some(registration.block_size),
        data_parallel_size: Some(registration.data_parallel_size),
        max_num_batched_tokens: registration.max_num_batched_tokens,
        total_kv_blocks: registration.total_kv_blocks,
        stable_routing_id: registration.stable_routing_id,
    }
}

/// Whether a record says what the registration would leave, whatever worker it is
/// filed under.
pub open spec fn up_to_date(desired: WorkerRegistrationView, actual: CatalogRecordView) -> bool {
    actual == CatalogRecordView { worker_id: actual.worker_id, ..record_of(desired) }
}

/// Whether a selector's catalog record already matches the desired registration
/// for the fields router-only mode owns.
pub fn record_matches(desired: &WorkerRegistration, actual: &CatalogRecordWire) -> (r: bool)
    ensures
        r == up_to_date(desired@, actual@),
{
    let same_endpoint = match &actual.endpoint {
        Some(endpoint) => same_text(endpoint.as_str(), desired.endpoint.as_str()),
        None => false,
    };
    let r = same_text(actual.model_name.as_str(), desired.model_name.as_str()) && same_endpoint
        && actual.block_size == Some(desired.block_size) && actual.data_parallel_size == Some(
        desired.data_parallel_size,
    ) && same_texts_by_rank(&actual.kv_events_endpoints, &desired.kv_events_endpoints)
        && same_optional_text(&actual.replay_endpoint, &desired.replay_endpoint)
        && actual.total_kv_blocks == desired.total_kv_blocks && actual.max_num_batched_tokens
        == desired.max_num_batched_tokens && same_optional_text(
        &actual.stable_routing_id,
        &desired.stable_routing_id,
    );
    proof {
        if r {
            assert(actual@ =~= (CatalogRecordView {
                worker_id: actual@.worker_id,
                ..record_of(desired@)
            }));
        }
    }
    r
}

/// The records by worker; where a worker is listed more than once the last counts.
pub open spec fn catalog(records: Seq<CatalogRecordView>) -> Map<u64, CatalogRecordView>
    decreases records.len(),
{
    if records.len() == 0 {
        Map::empty()
    } else {
        catalog(records.drop_last()).insert(records.last().worker_id, records.last())
    }
}

/// What each record says.
pub open spec fn record_views(records: Seq<CatalogRecordWire>) -> Seq<CatalogRecordView> {
    records.map_values(|r: CatalogRecordWire| r@)
}

/// What the record of each worker says.
pub open spec fn catalog_view(catalog: Map<u64, CatalogRecordWire>) -> Map<u64, CatalogRecordView> {
    Map::new(|worker: u64| catalog.contains_key(worker), |worker: u64| catalog[worker]@)
}

/// File the records of a `/workers` answer by worker.
pub fn index_records(records: Vec<CatalogRecordWire>) -> (r: HashMap<u64, CatalogRecordWire>)
    ensures
        catalog_view(r@) == catalog(record_views(records@)),
{
    let ghost views = record_views(records@);
    let mut rest = records;
    let mut out: HashMap<u64, CatalogRecordWire> = HashMap::new();
    proof {
        assert(catalog(views).union_prefer_right(catalog_view(out@)) =~= catalog(views));
    }
    while rest.len() > 0
        invariant
            catalog(record_views(rest@)).union_prefer_right(catalog_view(out@)) == catalog(views),
        decreases rest.len(),
    {
        let ghost before = record_views(rest@);
        let ghost filed = catalog_view(out@);
        if let Some(record) = rest.pop() {
            proof {
                assert(record_views(rest@) =~= before.drop_last());
                assert(before.last() == record@);
            }
            if !out.contains_key(&record.worker_id) {
                let worker_id: u64 = record.worker_id;
                out.insert(worker_id, record);
                proof {
                    assert(catalog_view(out@) =~= filed.insert(worker_id, before.last()));
                }
            }
            proof {
                assert(catalog(record_views(rest@)).union_prefer_right(catalog_view(out@))
                    =~= catalog(before).union_prefer_right(filed));
            }
        }
    }
    proof {
        assert(record_views(rest@) =~= Seq::<CatalogRecordView>::empty());
        assert(catalog_view(out@) =~= catalog(views));
    }
    out
}

// ---------------------------------------------------------------------------
// Reconciling one replica
// ---------------------------------------------------------------------------

/// One call on a replica's API that reconciling it makes.
#[derive(Debug, Clone, Copy, PartialEq, Eq, Structural)]
pub enum ReplicaCall {
    /// `POST /workers` with the desired registration of this worker.
    Upsert { worker_id: u64 },
    /// `DELETE /workers/{id}`.
    Delete { worker_id: u64 },
    /// `GET /ready`.
    Ready,
}

/// The desired workers whose record is absent or out of date.
pub open spec fn outdated(
    desired: Map<u64, WorkerRegistrationView>,
    actual: Map<u64, CatalogRecordView>,
) -> Set<u64> {
    desired.dom().filter(
        |worker: u64| !(actual.contains_key(worker) && up_to_date(desired[worker], actual[worker])),
    )
}

/// The recorded workers that are no longer desired.
pub open spec fn stale(
    desired: Map<u64, WorkerRegistrationView>,
    actual: Map<u64, CatalogRecordView>,
) -> Set<u64> {
    actual.dom().difference(desired.dom())
}

/// The calls that drive a replica's catalog toward the desired set: upserts, then
/// deletions, each by ascending worker id, and at last the readiness probe.
pub open spec fn calls_of(
    desired: Map<u64, WorkerRegistrationView>,
    actual: Map<u64, CatalogRecordView>,
) -> Seq<ReplicaCall> {
    (collections::ascending_u64(outdated(desired, actual)).map_values(
        |worker_id: u64| ReplicaCall::Upsert { worker_id },
    ) + collections::ascending_u64(stale(desired, actual)).map_values(
        |worker_id: u64| ReplicaCall::Delete { worker_id },
    )).push(ReplicaCall::Ready)
}

/// What a condition picks off the listing of a set is the listing of what it picks.
proof fn lemma_picked(ids: Seq<u64>, picked: Seq<u64>, from: Set<u64>, keep: spec_fn(u64) -> bool)
    requires
        ids.to_set() == from,
        collections::is_ascending_u64(picked),
        forall|j: int| 0 <= j < picked.len() ==> ids.contains(#[trigger] picked[j]) && keep(picked[j]),
        forall|j: int| 0 <= j < ids.len() && keep(#[trigger] ids[j]) ==> picked.contains(ids[j]),
    ensures
        picked == collections::ascending_u64(from.filter(keep)),
{
    let kept = from.filter(keep);
    assert(picked.to_set() =~= kept) by {
        assert forall|w: u64| picked.to_set().contains(w) == kept.contains(w) by {
            if picked.contains(w) {
                let j = choose|j: int| 0 <= j < picked.len() && picked[j] == w;
                assert(ids.contains(picked[j]));
                assert(ids.to_set().contains(w));
            }
            if kept.contains(w) {
                assert(ids.to_set().contains(w));
                let j = choose|j: int| 0 <= j < ids.len() && ids[j] == w;
                assert(keep(ids[j]));
            }
        }
    }
    collections::lemma_ascending_u64(picked, kept);
}

fn list_outdated(
    desired: &HashMap<u64, WorkerRegistration>,
    actual: &HashMap<u64, CatalogRecordWire>,
) -> (r: Vec<u64>)
    ensures
        r@ == collections::ascending_u64(
            outdated(selection_backend::registration_views(desired@), catalog_view(actual@)),
        ),
{
    let ids = ascending_hash_keys(desired);
    let ghost want = selection_backend::registration_views(desired@);
    let ghost have = catalog_view(actual@);
    let ghost keep = |worker: u64|
        !(have.contains_key(worker) && up_to_date(want[worker], have[worker]));
    let mut out: Vec<u64> = Vec::new();
    let mut i: usize = 0;
    while i < ids.len()
        invariant
            i <= ids.len(),
            want == selection_backend::registration_views(desired@),
            have == catalog_view(actual@),
            keep == (|worker: u64|
                !(have.contains_key(worker) && up_to_date(want[worker], have[worker]))),
            ids@.to_set() == desired@.dom(),
            collections::is_ascending_u64(ids@),
            collections::is_ascending_u64(out@),
            forall|j: int|
                0 <= j < out@.len() ==> ids@.take(i as int).contains(#[trigger] out@[j]) && keep(
                    out@[j],
                ),
            forall|j: int| 0 <= j < i && keep(#[trigger] ids@[j]) ==> out@.contains(ids@[j]),
        decreases ids.len() - i,
    {
        let ghost done = ids@.take(i as int);
        let ghost listed = out@;
        let worker_id: u64 = ids[i];
        proof {
            assert(ids@.to_set().contains(worker_id));
            assert(desired@.contains_key(worker_id));
        }
        let in_sync = match (desired.get(&worker_id), actual.get(&worker_id)) {
            (Some(registration), Some(record)) => record_matches(registration, record),
            _ => false,
        };
        proof {
            assert(in_sync == !keep(worker_id));
        }
        if !in_sync {
            out.push(worker_id);
        }
        i = i + 1;
        proof {
            lemma_pick_step(ids@, i as int, listed, out@, keep);
        }
    }
    proof {
        assert(ids@.take(ids.len() as int) =~= ids@);
        lemma_picked(ids@, out@, desired@.dom(), keep);
        assert(want.dom() =~= desired@.dom());
        assert(outdated(want, have) =~= desired@.dom().filter(keep));
    }
    out
}

/// One step of picking members off an ascending list.
proof fn lemma_pick_step(
    ids: Seq<u64>,
    i: int,
    before: Seq<u64>,
    after: Seq<u64>,
    keep: spec_fn(u64) -> bool,
)
    requires
        0 < i <= ids.len(),
        collections::is_ascending_u64(ids),
        collections::is_ascending_u64(before),
        forall|j: int|
            0 <= j < before.len() ==> ids.take(i - 1).contains(#[trigger] before[j]) && keep(
                before[j],
            ),
        forall|j: int| 0 <= j < i - 1 && keep(#[trigger] ids[j]) ==> before.contains(ids[j]),
        after == (if keep(ids[i - 1]) {
            before.push(ids[i - 1])
        } else {
            before
        }),
    ensures
        collections::is_ascending_u64(after),
        forall|j: int|
            0 <= j < after.len() ==> ids.take(i).contains(#[trigger] after[j]) && keep(after[j]),
        forall|j: int| 0 <= j < i && keep(#[trigger] ids[j]) ==> after.contains(ids[j]),
{
    let done = ids.take(i - 1);
    let last = ids.take(i);
    assert(last[i - 1] == ids[i - 1]);
    assert forall|a: int, b: int| 0 <= a < b < after.len() implies after[a] < after[b] by {
        if b == before.len() {
            assert(done.contains(before[a]));
            let j = choose|j: int| 0 <= j < done.len() && done[j] == before[a];
            assert(ids[j] < ids[i - 1]);
        }
    }
    assert forall|j: int| 0 <= j < after.len() implies last.contains(#[trigger] after[j]) && keep(
        after[j],
    ) by {
        if j < before.len() {
            assert(done.contains(before[j]));
            let k = choose|k: int| 0 <= k < done.len() && done[k] == before[j];
            assert(last[k] == before[j]);
        }
    }
    assert forall|j: int| 0 <= j < i && keep(#[trigger] ids[j]) implies after.contains(ids[j]) by {
        if j < i - 1 {
            assert(before.contains(ids[j]));
            let k = choose|k: int| 0 <= k < before.len() && before[k] == ids[j];
            assert(after[k] == ids[j]);
        } else {
            assert(after[before.len() as int] == ids[j]);
        }
    }
}

fn list_stale(
    desired: &HashMap<u64, WorkerRegistration>,
    actual: &HashMap<u64, CatalogRecordWire>,
) -> (r: Vec<u64>)
    ensures
        r@ == collections::ascending_u64(
            stale(selection_backend::registration_views(desired@), catalog_view(actual@)),
        ),
{
    let ids = ascending_hash_keys(actual);
    let ghost want = selection_backend::registration_views(desired@);
    let ghost have = catalog_view(actual@);
    let ghost keep = |worker: u64| !want.contains_key(worker);
    let mut out: Vec<u64> = Vec::new();
    let mut i: usize = 0;
    while i < ids.len()
        invariant
            i <= ids.len(),
            want == selection_backend::registration_views(desired@),
            keep == (|worker: u64| !want.contains_key(worker)),
            ids@.to_set() == actual@.dom(),
            collections::is_ascending_u64(ids@),
            collections::is_ascending_u64(out@),
            forall|j: int|
                0 <= j < out@.len() ==> ids@.take(i as int).contains(#[trigger] out@[j]) && keep(
                    out@[j],
                ),
            forall|j: int| 0 <= j < i && keep(#[trigger] ids@[j]) ==> out@.contains(ids@[j]),
        decreases ids.len() - i,
    {
        let ghost listed = out@;
        let worker_id: u64 = ids[i];
        if !desired.contains_key(&worker_id) {
            out.push(worker_id);
        }
        i = i + 1;
        proof {
            lemma_pick_step(ids@, i as int, listed, out@, keep);
        }
    }
    proof {
        assert(ids@.take(ids.len() as int) =~= ids@);
        lemma_picked(ids@, out@, actual@.dom(), keep);
        assert(have.dom() =~= actual@.dom());
        assert(stale(want, have) =~= actual@.dom().filter(keep));
    }
    out
}

/// The calls that drive a replica's catalog toward the desired set.
pub fn plan_replica(
    desired: &HashMap<u64, WorkerRegistration>,
    actual: &HashMap<u64, CatalogRecordWire>,
) -> (r: Vec<ReplicaCall>)
    ensures
        r@ == calls_of(selection_backend::registration_views(desired@), catalog_view(actual@)),
{
    let upserts = list_outdated(desired, actual);
    let deletes = list_stale(desired, actual);
    let ghost first = upserts@.map_values(|worker_id: u64| ReplicaCall::Upsert { worker_id });
    let ghost second = deletes@.map_values(|worker_id: u64| ReplicaCall::Delete { worker_id });
    let mut calls: Vec<ReplicaCall> = Vec::new();
    let mut i: usize = 0;
    while i < upserts.len()
        invariant
            i <= upserts.len(),
            first == upserts@.map_values(|worker_id: u64| ReplicaCall::Upsert { worker_id }),
            calls@ == first.take(i as int),
        decreases upserts.len() - i,
    {
        calls.push(ReplicaCall::Upsert { worker_id: upserts[i] });
        i = i + 1;
        proof {
            assert(first.take(i as int) =~= first.take(i - 1).push(first[i - 1]));
        }
    }
    let mut j: usize = 0;
    proof {
        assert(calls@ =~= first + second.take(0));
    }
    while j < deletes.len()
        invariant
            j <= deletes.len(),
            second == deletes@.map_values(|worker_id: u64| ReplicaCall::Delete { worker_id }),
            calls@ == first + second.take(j as int),
        decreases deletes.len() - j,
    {
        calls.push(ReplicaCall::Delete { worker_id: deletes[j] });
        j = j + 1;
        proof {
            assert(second.take(j as int) =~= second.take(j - 1).push(second[j - 1]));
            assert(calls@ =~= first + second.take(j as int));
        }
    }
    calls.push(ReplicaCall::Ready);
    proof {
        assert(second.take(second.len() as int) =~= second);
    }
    calls
}

/// Whether an HTTP status says that the request succeeded.
pub open spec fn success(status: u16) -> bool {
    200 <= status <= 299
}

/// Whether an HTTP status says that the request succeeded.
pub fn is_success(status: u16) -> (r: bool)
    ensures
        r == success(status),
{
    200 <= status && status <= 299
}

/// Whether a deletion is done with: it succeeded, or there was nothing to delete.
pub open spec fn gone(status: u16) -> bool {
    success(status) || status == 404
}

/// Whether a deletion is done with: it succeeded, or there was nothing to delete.
/// Deleting a worker and releasing a reservation are both idempotent in this way.
pub fn is_gone(status: u16) -> (r: bool)
    ensures
        r == gone(status),
{
    is_success(status) || status == 404
}

/// How far reconciling a replica has come.
#[derive(Debug, Clone, Copy, PartialEq, Eq, Structural)]
pub enum Verdict {
    /// There are calls left to make.
    Running,
    /// The catalog is as desired; the replica reported whether it is ready.
    Finished { routable: bool },
    /// A call failed; the replica is not routable.
    Failed,
}

impl Verdict {
    /// What to record of the replica: its readiness, or nothing when it failed.
    pub fn outcome(self) -> (r: Option<bool>)
        ensures
            r == match self {
                Verdict::Finished { routable } => Some(routable),
                _ => None,
            },
    {
        match self {
            Verdict::Finished { routable } => Some(routable),
            _ => None,
        }
    }
}

/// Drives one replica's catalog toward the desired set, call by call.
#[derive(Debug)]
pub struct ReplicaRun {
    calls: Vec<ReplicaCall>,
    done: usize,
    verdict: Verdict,
}

/// What a [`ReplicaRun`] holds.
#[verifier::ext_equal]
pub struct ReplicaRunView {
    /// The calls to make, in order.
    pub calls: Seq<ReplicaCall>,
    /// How many of them have been accepted.
    pub done: nat,
    pub verdict: Verdict,
}

impl ReplicaRunView {
    /// A run over these calls that has made none of them.
    pub open spec fn over(calls: Seq<ReplicaCall>) -> ReplicaRunView {
        ReplicaRunView { calls, done: 0, verdict: Verdict::Running }
    }

    /// A run whose replica could not be asked for its catalog.
    pub open spec fn unanswered() -> ReplicaRunView {
        ReplicaRunView { calls: Seq::empty(), done: 0, verdict: Verdict::Failed }
    }

    /// While the run goes on there is a call to make, and the readiness probe is
    /// the last one and no other.
    pub open spec fn well_formed(self) -> bool {
        self.verdict == Verdict::Running ==> {
            &&& self.done < self.calls.len()
            &&& forall|i: int|
                0 <= i < self.calls.len() ==> ((#[trigger] self.calls[i]) == ReplicaCall::Ready
                    <==> i == self.calls.len() - 1)
        }
    }

    /// The run after the current call was answered with a status, or not at all.
    /// An upsert has to succeed; a deletion has to succeed or find nothing; the
    /// probe ends the run, and finds the replica routable when it succeeds and
    /// says that it is ready.
    pub open spec fn answered(self, status: Option<u16>, ready: bool) -> ReplicaRunView {
        let accepted = match (self.calls[self.done as int], status) {
            (_, None) => false,
            (ReplicaCall::Delete { .. }, Some(code)) => gone(code),
            (_, Some(code)) => success(code),
        };
        if self.verdict != Verdict::Running {
            self
        } else if self.calls[self.done as int] == ReplicaCall::Ready {
            ReplicaRunView {
                done: self.done + 1,
                verdict: Verdict::Finished { routable: accepted && ready },
                ..self
            }
        } else if accepted {
            ReplicaRunView { done: self.done + 1, ..self }
        } else {
            ReplicaRunView { verdict: Verdict::Failed, ..self }
        }
    }
}

impl View for ReplicaRun {
    type V = ReplicaRunView;

    closed spec fn view(&self) -> ReplicaRunView {
        ReplicaRunView { calls: self.calls@, done: self.done as nat, verdict: self.verdict }
    }
}

proof fn lemma_plan_ends_with_probe(
    desired: Map<u64, WorkerRegistrationView>,
    actual: Map<u64, CatalogRecordView>,
)
    ensures
        ReplicaRunView::over(calls_of(desired, actual)).well_formed(),
{
}

impl ReplicaRun {
    #[verifier::type_invariant]
    spec fn run_is_well_formed(self) -> bool {
        self@.well_formed()
    }

    /// Plan the run from a replica's `/workers` answer, if there was one.
    pub fn start(
        desired: &HashMap<u64, WorkerRegistration>,
        records: Option<Vec<CatalogRecordWire>>,
    ) -> (r: ReplicaRun)
        ensures
            r@ == match records {
                Some(records) => ReplicaRunView::over(
                    calls_of(selection_backend::registration_views(desired@), catalog(record_views(records@))),
                ),
                None => ReplicaRunView::unanswered(),
            },
    {
        match records {
            Some(records) => {
                let actual = index_records(records);
                let calls = plan_replica(desired, &actual);
                proof {
                    lemma_plan_ends_with_probe(
                        selection_backend::registration_views(desired@),
                        catalog(record_views(records@)),
                    );
                }
                ReplicaRun { calls, done: 0, verdict: Verdict::Running }
            },
            None => {
                let r = ReplicaRun { calls: Vec::new(), done: 0, verdict: Verdict::Failed };
                proof {
                    assert(r@ =~= ReplicaRunView::unanswered());
                }
                r
            },
        }
    }

    /// The call to make now, while the run goes on.
    pub fn next_call(&self) -> (r: Option<ReplicaCall>)
        ensures
            r == (if self@.verdict == Verdict::Running {
                Some(self@.calls[self@.done as int])
            } else {
                None
            }),
    {
        proof {
            use_type_invariant(self);
        }
        if self.verdict == Verdict::Running {
            Some(self.calls[self.done])
        } else {
            None
        }
    }

    /// How far the run has come.
    pub fn verdict(&self) -> (r: Verdict)
        ensures
            r == self@.verdict,
    {
        self.verdict
    }

    /// Take the answer to the current call: its status, if there was an answer,
    /// and, for the probe, whether the replica says that it is ready.
    pub fn answer(&mut self, status: Option<u16>, ready: bool)
        ensures
            final(self)@ == old(self)@.answered(status, ready),
    {
        proof {
            use_type_invariant(&*self);
        }
        if self.verdict != Verdict::Running {
            return ;
        }
        assert(self.done < self.calls.len());
        let call = self.calls[self.done];
        let following: usize = self.done + 1;
        let accepted = match status {
            None => false,
            Some(code) => match call {
                ReplicaCall::Delete { .. } => is_gone(code),
                _ => is_success(code),
            },
        };
        if call == ReplicaCall::Ready {
            self.verdict = Verdict::Finished { routable: accepted && ready };
            self.done = following;
        } else if accepted {
            self.done = following;
        } else {
            self.verdict = Verdict::Failed;
        }
    }
}

// ---------------------------------------------------------------------------
// Laws
// ---------------------------------------------------------------------------

/// Whether each registration is filed under the worker that it names.
pub open spec fn keyed_by_worker(desired: Map<u64, WorkerRegistrationView>) -> bool {
    forall|worker: u64| #[trigger]
        desired.contains_key(worker) ==> desired[worker].worker_id == worker
}

/// A replica's catalog after it accepted some calls: an upsert files the desired
/// registration under the worker that it names, a deletion removes the worker.
pub open spec fn catalog_after(
    actual: Map<u64, CatalogRecordView>,
    calls: Seq<ReplicaCall>,
    desired: Map<u64, WorkerRegistrationView>,
) -> Map<u64, CatalogRecordView>
    decreases calls.len(),
{
    if calls.len() == 0 {
        actual
    } else {
        let earlier = catalog_after(actual, calls.drop_last(), desired);
        match calls.last() {
            ReplicaCall::Upsert { worker_id } => earlier.insert(
                desired[worker_id].worker_id,
                record_of(desired[worker_id]),
            ),
            ReplicaCall::Delete { worker_id } => earlier.remove(worker_id),
            ReplicaCall::Ready => earlier,
        }
    }
}

/// Whether a catalog holds exactly the desired workers, each up to date.
pub open spec fn in_sync(
    desired: Map<u64, WorkerRegistrationView>,
    actual: Map<u64, CatalogRecordView>,
) -> bool {
    &&& actual.dom() == desired.dom()
    &&& forall|worker: u64| #[trigger]
        desired.contains_key(worker) ==> up_to_date(desired[worker], actual[worker])
}

proof fn lemma_catalog_in_two_parts(
    actual: Map<u64, CatalogRecordView>,
    a: Seq<ReplicaCall>,
    b: Seq<ReplicaCall>,
    desired: Map<u64, WorkerRegistrationView>,
)
    ensures
        catalog_after(actual, a + b, desired) == catalog_after(
            catalog_after(actual, a, desired),
            b,
            desired,
        ),
    decreases b.len(),
{
    if b.len() == 0 {
        assert(a + b =~= a);
    } else {
        assert((a + b).drop_last() =~= a + b.drop_last());
        lemma_catalog_in_two_parts(actual, a, b.drop_last(), desired);
    }
}

proof fn lemma_catalog_after_upserts(
    actual: Map<u64, CatalogRecordView>,
    ids: Seq<u64>,
    desired: Map<u64, WorkerRegistrationView>,
    worker: u64,
)
    requires
        keyed_by_worker(desired),
        forall|i: int| 0 <= i < ids.len() ==> desired.contains_key(#[trigger] ids[i]),
    ensures
        ({
            let after = catalog_after(
                actual,
                ids.map_values(|worker_id: u64| ReplicaCall::Upsert { worker_id }),
                desired,
            );
            &&& after.contains_key(worker) <==> ids.contains(worker) || actual.contains_key(worker)
            &&& ids.contains(worker) ==> after[worker] == record_of(desired[worker])
            &&& !ids.contains(worker) && actual.contains_key(worker) ==> after[worker]
                == actual[worker]
        }),
    decreases ids.len(),
{
    let calls = ids.map_values(|worker_id: u64| ReplicaCall::Upsert { worker_id });
    if ids.len() > 0 {
        let rest = ids.drop_last();
        assert(desired.contains_key(ids[ids.len() - 1]));
        assert forall|i: int| 0 <= i < rest.len() implies desired.contains_key(
            #[trigger] rest[i],
        ) by {
            assert(rest[i] == ids[i]);
        }
        lemma_catalog_after_upserts(actual, rest, desired, worker);
        assert(calls.drop_last() =~= rest.map_values(
            |worker_id: u64| ReplicaCall::Upsert { worker_id },
        ));
        assert(calls.last() == ReplicaCall::Upsert { worker_id: ids.last() });
        lemma_contains_of_drop_last(ids, worker);
    }
}

proof fn lemma_catalog_after_deletes(
    actual: Map<u64, CatalogRecordView>,
    ids: Seq<u64>,
    desired: Map<u64, WorkerRegistrationView>,
    worker: u64,
)
    ensures
        ({
            let after = catalog_after(
                actual,
                ids.map_values(|worker_id: u64| ReplicaCall::Delete { worker_id }),
                desired,
            );
            &&& after.contains_key(worker) <==> !ids.contains(worker) && actual.contains_key(worker)
            &&& after.contains_key(worker) ==> after[worker] == actual[worker]
        }),
    decreases ids.len(),
{
    let calls = ids.map_values(|worker_id: u64| ReplicaCall::Delete { worker_id });
    if ids.len() > 0 {
        let rest = ids.drop_last();
        lemma_catalog_after_deletes(actual, rest, desired, worker);
        assert(calls.drop_last() =~= rest.map_values(
            |worker_id: u64| ReplicaCall::Delete { worker_id },
        ));
        assert(calls.last() == ReplicaCall::Delete { worker_id: ids.last() });
        lemma_contains_of_drop_last(ids, worker);
    }
}

proof fn lemma_contains_of_drop_last(ids: Seq<u64>, worker: u64)
    requires
        ids.len() > 0,
    ensures
        ids.contains(worker) <==> ids.drop_last().contains(worker) || ids.last() == worker,
{
    let rest = ids.drop_last();
    if rest.contains(worker) {
        let i = choose|i: int| 0 <= i < rest.len() && rest[i] == worker;
        assert(ids[i] == worker);
    }
    if ids.contains(worker) && ids.last() != worker {
        let i = choose|i: int| 0 <= i < ids.len() && ids[i] == worker;
        assert(rest[i] == worker);
    }
    assert(ids[ids.len() - 1] == ids.last());
}

/// Reconciling converges: once a replica has accepted every planned call, its
/// catalog holds exactly the desired workers, each up to date.
pub proof fn accepted_plan_brings_the_catalog_in_sync(
    desired: Map<u64, WorkerRegistrationView>,
    actual: Map<u64, CatalogRecordView>,
)
    requires
        desired.dom().finite(),
        actual.dom().finite(),
        keyed_by_worker(desired),
    ensures
        in_sync(desired, catalog_after(actual, calls_of(desired, actual), desired)),
{
    let old_ids = outdated(desired, actual);
    let gone_ids = stale(desired, actual);
    vstd::set_lib::lemma_len_subset(old_ids, desired.dom());
    vstd::set_lib::lemma_len_subset(gone_ids, actual.dom());
    collections::lemma_ascending_u64_members(old_ids);
    collections::lemma_ascending_u64_members(gone_ids);
    let up_ids = collections::ascending_u64(old_ids);
    let down_ids = collections::ascending_u64(gone_ids);
    let ups = up_ids.map_values(|worker_id: u64| ReplicaCall::Upsert { worker_id });
    let downs = down_ids.map_values(|worker_id: u64| ReplicaCall::Delete { worker_id });
    let calls = calls_of(desired, actual);
    assert(calls.drop_last() =~= ups + downs);
    lemma_catalog_in_two_parts(actual, ups, downs, desired);
    let middle = catalog_after(actual, ups, desired);
    let after = catalog_after(actual, calls, desired);
    assert(after == catalog_after(middle, downs, desired));
    assert forall|i: int| 0 <= i < up_ids.len() implies desired.contains_key(
        #[trigger] up_ids[i],
    ) by {
        assert(up_ids.contains(up_ids[i]));
    }
    assert forall|worker: u64|
        after.contains_key(worker) == desired.contains_key(worker) && (desired.contains_key(worker)
            ==> up_to_date(desired[worker], after[worker])) by {
        lemma_catalog_after_upserts(actual, up_ids, desired, worker);
        lemma_catalog_after_deletes(middle, down_ids, desired, worker);
        assert(up_ids.contains(worker) == old_ids.contains(worker));
        assert(down_ids.contains(worker) == gone_ids.contains(worker));
    }
    assert(after.dom() =~= desired.dom());
}

/// Reconciling is idempotent: a replica whose catalog is in sync is only asked
/// whether it is ready.
pub proof fn replica_in_sync_is_only_probed(
    desired: Map<u64, WorkerRegistrationView>,
    actual: Map<u64, CatalogRecordView>,
)
    requires
        in_sync(desired, actual),
    ensures
        calls_of(desired, actual) == seq![ReplicaCall::Ready],
{
    assert(outdated(desired, actual) =~= Set::<u64>::empty());
    assert(stale(desired, actual) =~= Set::<u64>::empty());
    collections::lemma_ascending_u64_members(Set::empty());
    assert(collections::ascending_u64(Set::empty()) =~= Seq::<u64>::empty());
    assert(calls_of(desired, actual) =~= seq![ReplicaCall::Ready]);
}

/// A replica with no record yet gets every desired worker: a new or restarted
/// replica is bootstrapped from scratch.
pub proof fn empty_replica_gets_every_worker(desired: Map<u64, WorkerRegistrationView>)
    ensures
        calls_of(desired, Map::empty()) == collections::ascending_u64(desired.dom()).map_values(
            |worker_id: u64| ReplicaCall::Upsert { worker_id },
        ).push(ReplicaCall::Ready),
{
    let nothing = Map::<u64, CatalogRecordView>::empty();
    assert(outdated(desired, nothing) =~= desired.dom());
    assert(stale(desired, nothing) =~= Set::<u64>::empty());
    collections::lemma_ascending_u64_members(Set::empty());
    assert(collections::ascending_u64(Set::empty()) =~= Seq::<u64>::empty());
    assert(calls_of(desired, nothing) =~= collections::ascending_u64(desired.dom()).map_values(
        |worker_id: u64| ReplicaCall::Upsert { worker_id },
    ).push(ReplicaCall::Ready));
}

/// The run after a series of answers.
pub open spec fn run_after(run: ReplicaRunView, answers: Seq<(Option<u16>, bool)>) -> ReplicaRunView
    decreases answers.len(),
{
    if answers.len() == 0 {
        run
    } else {
        run_after(run, answers.drop_last()).answered(answers.last().0, answers.last().1)
    }
}

/// Whether a run is under way over some calls: none but the accepted calls are
/// behind it, and it has ended well only when all of them, the probe included,
/// have been answered.
pub open spec fn run_on_track(run: ReplicaRunView, calls: Seq<ReplicaCall>, answers: nat) -> bool {
    &&& run.calls == calls
    &&& run.well_formed()
    &&& run.verdict == Verdict::Running ==> run.done == answers
    &&& run.verdict is Finished ==> run.done == calls.len() && calls.len() <= answers
}

/// A replica becomes routable only after it accepted every planned call and then
/// reported ready: a run that finishes has made all calls, in order.
pub proof fn run_finishes_only_after_every_call(
    desired: Map<u64, WorkerRegistrationView>,
    actual: Map<u64, CatalogRecordView>,
    answers: Seq<(Option<u16>, bool)>,
)
    ensures
        ({
            let calls = calls_of(desired, actual);
            let run = run_after(ReplicaRunView::over(calls), answers);
            &&& run_on_track(run, calls, answers.len())
            &&& run.verdict == (Verdict::Finished { routable: true }) ==> {
                let last = answers[calls.len() - 1];
                &&& last.0 is Some
                &&& success(last.0->0)
                &&& last.1
            }
        }),
    decreases answers.len(),
{
    let calls = calls_of(desired, actual);
    lemma_plan_ends_with_probe(desired, actual);
    if answers.len() > 0 {
        let rest = answers.drop_last();
        run_finishes_only_after_every_call(desired, actual, rest);
        let before = run_after(ReplicaRunView::over(calls), rest);
        if before.verdict is Finished {
            assert(answers[calls.len() - 1] == rest[calls.len() - 1]);
        }
    }
}

/// A record is up to date exactly when each field that the registration sets has the
/// registered value; the worker that it is filed under does not matter.
pub proof fn up_to_date_means_every_field(
    desired: WorkerRegistrationView,
    actual: CatalogRecordView,
)
    ensures
        up_to_date(desired, actual) <==> {
            &&& actual.model_name == desired.model_name
            &&& actual.endpoint == Some(desired.endpoint)
            &&& actual.block_size == Some(desired.block_size)
            &&& actual.data_parallel_size == Some(desired.data_parallel_size)
            &&& actual.kv_events_endpoints == desired.kv_events_endpoints
            &&& actual.replay_endpoint == desired.replay_endpoint
            &&& actual.total_kv_blocks == desired.total_kv_blocks
            &&& actual.max_num_batched_tokens == desired.max_num_batched_tokens
            &&& actual.stable_routing_id == desired.stable_routing_id
        },
{
    let wanted = CatalogRecordView { worker_id: actual.worker_id, ..record_of(desired) };
    if actual.model_name == desired.model_name && actual.endpoint == Some(desired.endpoint)
        && actual.block_size == Some(desired.block_size) && actual.data_parallel_size == Some(
        desired.data_parallel_size,
    ) && actual.kv_events_endpoints == desired.kv_events_endpoints && actual.replay_endpoint
        == desired.replay_endpoint && actual.total_kv_blocks == desired.total_kv_blocks
        && actual.max_num_batched_tokens == desired.max_num_batched_tokens
        && actual.stable_routing_id == desired.stable_routing_id {
        assert(actual =~= wanted);
    }
}

/// The last record of a worker is the one that counts, and a worker without a record is
/// not in the catalog.
pub proof fn last_record_of_a_worker_counts(records: Seq<CatalogRecordView>, i: int, worker: u64)
    requires
        0 <= i < records.len(),
        forall|j: int| i < j < records.len() ==> (#[trigger] records[j]).worker_id
            != records[i].worker_id,
    ensures
        catalog(records).contains_key(records[i].worker_id),
        catalog(records)[records[i].worker_id] == records[i],
        catalog(records).contains_key(worker) <==> exists|j: int|
            0 <= j < records.len() && (#[trigger] records[j]).worker_id == worker,
    decreases records.len(),
{
    lemma_recorded_workers(records, worker);
    if i < records.len() - 1 {
        let rest = records.drop_last();
        assert(records.last() == records[records.len() - 1]);
        assert forall|j: int| i < j < rest.len() implies (#[trigger] rest[j]).worker_id
            != rest[i].worker_id by {
            assert(rest[j] == records[j]);
        }
        last_record_of_a_worker_counts(rest, i, worker);
    }
}

proof fn lemma_recorded_workers(records: Seq<CatalogRecordView>, worker: u64)
    ensures
        catalog(records).contains_key(worker) <==> exists|j: int|
            0 <= j < records.len() && (#[trigger] records[j]).worker_id == worker,
    decreases records.len(),
{
    if records.len() > 0 {
        let rest = records.drop_last();
        lemma_recorded_workers(rest, worker);
        assert(records.last() == records[records.len() - 1]);
        if exists|j: int| 0 <= j < rest.len() && (#[trigger] rest[j]).worker_id == worker {
            let j = choose|j: int| 0 <= j < rest.len() && (#[trigger] rest[j]).worker_id == worker;
            assert(records[j].worker_id == worker);
        }
        if exists|j: int| 0 <= j < records.len() && (#[trigger] records[j]).worker_id == worker {
            let j = choose|j: int|
                0 <= j < records.len() && (#[trigger] records[j]).worker_id == worker;
            if j < rest.len() {
                assert(rest[j].worker_id == worker);
            }
        }
    }
}

/// A replica is told of exactly the workers that it lacks or holds out of date, and
/// relieved of exactly those that are no longer desired.
pub proof fn plan_holds_exactly_the_difference(
    desired: Map<u64, WorkerRegistrationView>,
    actual: Map<u64, CatalogRecordView>,
    worker_id: u64,
)
    requires
        desired.dom().finite(),
        actual.dom().finite(),
    ensures
        calls_of(desired, actual).contains(ReplicaCall::Upsert { worker_id })
            <==> desired.contains_key(worker_id) && !(actual.contains_key(worker_id) && up_to_date(
            desired[worker_id],
            actual[worker_id],
        )),
        calls_of(desired, actual).contains(ReplicaCall::Delete { worker_id })
            <==> actual.contains_key(worker_id) && !desired.contains_key(worker_id),
{
    let ups = collections::ascending_u64(outdated(desired, actual));
    let downs = collections::ascending_u64(stale(desired, actual));
    lemma_plan_parts(desired, actual);
    let calls = calls_of(desired, actual);
    if ups.contains(worker_id) {
        let i = choose|i: int| 0 <= i < ups.len() && ups[i] == worker_id;
        assert(calls[i] == ReplicaCall::Upsert { worker_id });
    }
    if downs.contains(worker_id) {
        let i = choose|i: int| 0 <= i < downs.len() && downs[i] == worker_id;
        assert(calls[ups.len() + i] == ReplicaCall::Delete { worker_id });
    }
    if calls.contains(ReplicaCall::Upsert { worker_id }) {
        let i = choose|i: int|
            0 <= i < calls.len() && calls[i] == ReplicaCall::Upsert { worker_id };
        assert(ups.contains(ups[i]));
    }
    if calls.contains(ReplicaCall::Delete { worker_id }) {
        let i = choose|i: int|
            0 <= i < calls.len() && calls[i] == ReplicaCall::Delete { worker_id };
        assert(downs.contains(downs[i - ups.len()]));
    }
}

proof fn lemma_plan_parts(
    desired: Map<u64, WorkerRegistrationView>,
    actual: Map<u64, CatalogRecordView>,
)
    requires
        desired.dom().finite(),
        actual.dom().finite(),
    ensures
        ({
            let ups = collections::ascending_u64(outdated(desired, actual));
            let downs = collections::ascending_u64(stale(desired, actual));
            let calls = calls_of(desired, actual);
            &&& calls.len() == ups.len() + downs.len() + 1
            &&& forall|i: int|
                0 <= i < ups.len() ==> #[trigger] calls[i] == (ReplicaCall::Upsert {
                    worker_id: ups[i],
                })
            &&& forall|i: int|
                ups.len() <= i < calls.len() - 1 ==> #[trigger] calls[i] == (ReplicaCall::Delete {
                    worker_id: downs[i - ups.len()],
                })
            &&& calls[calls.len() - 1] == ReplicaCall::Ready
            &&& forall|w: u64| #[trigger] ups.contains(w) <==> outdated(desired, actual).contains(w)
            &&& forall|w: u64| #[trigger] downs.contains(w) <==> stale(desired, actual).contains(w)
            &&& forall|i: int, j: int| 0 <= i < j < ups.len() ==> ups[i] < ups[j]
            &&& forall|i: int, j: int| 0 <= i < j < downs.len() ==> downs[i] < downs[j]
        }),
{
    vstd::set_lib::lemma_len_subset(outdated(desired, actual), desired.dom());
    vstd::set_lib::lemma_len_subset(stale(desired, actual), actual.dom());
    collections::lemma_ascending_u64_members(outdated(desired, actual));
    collections::lemma_ascending_u64_members(stale(desired, actual));
}

/// Upserts come before deletions, each kind by ascending worker id and each worker
/// once, and the readiness probe comes last and only then.
pub proof fn plan_is_in_order(
    desired: Map<u64, WorkerRegistrationView>,
    actual: Map<u64, CatalogRecordView>,
)
    requires
        desired.dom().finite(),
        actual.dom().finite(),
    ensures
        ({
            let calls = calls_of(desired, actual);
            &&& calls.len() > 0
            &&& forall|i: int|
                0 <= i < calls.len() ==> (#[trigger] calls[i] == ReplicaCall::Ready <==> i
                    == calls.len() - 1)
            &&& forall|i: int, j: int|
                0 <= i < j < calls.len() ==> match (#[trigger] calls[i], #[trigger] calls[j]) {
                    (
                        ReplicaCall::Upsert { worker_id: a },
                        ReplicaCall::Upsert { worker_id: b },
                    ) => a < b,
                    (
                        ReplicaCall::Delete { worker_id: a },
                        ReplicaCall::Delete { worker_id: b },
                    ) => a < b,
                    (ReplicaCall::Delete { .. }, ReplicaCall::Upsert { .. }) => false,
                    _ => true,
                }
        }),
{
    lemma_plan_parts(desired, actual);
}

/// An upsert is accepted with a status from 200 to 299, a deletion also with 404; any
/// other answer, or none, fails the run. The probe always ends the run, and finds the
/// replica routable only with such a status and the word that it is ready. A run that
/// has ended stays as it is.
pub proof fn answers_are_judged_by_their_status(
    run: ReplicaRunView,
    status: Option<u16>,
    ready: bool,
)
    requires
        run.well_formed(),
    ensures
        ({
            let next = run.answered(status, ready);
            let ok = status is Some && 200 <= status->0 && status->0 < 300;
            let call = run.calls[run.done as int];
            &&& next.calls == run.calls
            &&& run.verdict != Verdict::Running ==> next == run
            &&& run.verdict == Verdict::Running ==> match call {
                ReplicaCall::Upsert { .. } => if ok {
                    next.verdict == Verdict::Running && next.done == run.done + 1
                } else {
                    next.verdict == Verdict::Failed && next.done == run.done
                },
                ReplicaCall::Delete { .. } => if ok || status == Some(404u16) {
                    next.verdict == Verdict::Running && next.done == run.done + 1
                } else {
                    next.verdict == Verdict::Failed && next.done == run.done
                },
                ReplicaCall::Ready => next.verdict == (Verdict::Finished { routable: ok && ready })
                    && next.done == run.done + 1,
            }
        }),
{
}

/// A run starts with its first call; without a catalog it has failed before any.
pub proof fn runs_start_at_the_first_call(calls: Seq<ReplicaCall>)
    ensures
        ReplicaRunView::over(calls).calls == calls,
        ReplicaRunView::over(calls).done == 0,
        ReplicaRunView::over(calls).verdict == Verdict::Running,
        ReplicaRunView::unanswered().verdict == Verdict::Failed,
        ReplicaRunView::unanswered().calls.len() == 0,
        ReplicaRunView::unanswered().done == 0,
{
}

/// Success is a status from 200 to 299; what is gone may also be a 404.
pub proof fn statuses_mean_what_they_say(status: u16)
    ensures
        success(status) <==> status / 100 == 2,
        gone(status) <==> status / 100 == 2 || status == 404,
{
}

/// What a record says is what it holds.
pub proof fn record_says_what_it_holds(record: CatalogRecordWire)
    ensures
        record@.worker_id == record.worker_id,
        record@.model_name == record.model_name@,
        record@.endpoint is Some <==> record.endpoint is Some,
        record.endpoint is Some ==> record@.endpoint->0 == record.endpoint->0@,
        record@.kv_events_endpoints.dom() == record.kv_events_endpoints@.dom(),
        forall|rank: u32| #[trigger]
            record.kv_events_endpoints@.contains_key(rank) ==> record@.kv_events_endpoints[rank]
                == record.kv_events_endpoints@[rank]@,
        record@.replay_endpoint is Some <==> record.replay_endpoint is Some,
        record.replay_endpoint is Some ==> record@.replay_endpoint->0 == record.replay_endpoint->0@,
        record@.block_size == record.block_size,
        record@.data_parallel_size == record.data_parallel_size,
        record@.max_num_batched_tokens == record.max_num_batched_tokens,
        record@.total_kv_blocks == record.total_kv_blocks,
        record@.stable_routing_id is Some <==> record.stable_routing_id is Some,
        record.stable_routing_id is Some ==> record@.stable_routing_id->0
            == record.stable_routing_id->0@,
{
    assert(record@.kv_events_endpoints.dom() =~= record.kv_events_endpoints@.dom());
}

/// A record matches a registration exactly when each field that the registration sets has
/// the registered value.
pub proof fn matching_records_agree_on_every_field(
    desired: WorkerRegistration,
    actual: CatalogRecordWire,
    r: bool,
)
    requires
        call_ensures(record_matches, (&desired, &actual), r),
    ensures
        r <==> {
            &&& actual.model_name@ == desired.model_name@
            &&& actual.endpoint is Some
            &&& actual.endpoint->0@ == desired.endpoint@
            &&& actual.block_size == Some(desired.block_size)
            &&& actual.data_parallel_size == Some(desired.data_parallel_size)
            &&& selection_backend::texts_by_rank(actual.kv_events_endpoints@)
                == selection_backend::texts_by_rank(desired.kv_events_endpoints@)
            &&& actual.replay_endpoint is Some <==> desired.replay_endpoint is Some
            &&& actual.replay_endpoint is Some ==> actual.replay_endpoint->0@
                == desired.replay_endpoint->0@
            &&& actual.total_kv_blocks == desired.total_kv_blocks
            &&& actual.max_num_batched_tokens == desired.max_num_batched_tokens
            &&& actual.stable_routing_id is Some <==> desired.stable_routing_id is Some
            &&& actual.stable_routing_id is Some ==> actual.stable_routing_id->0@
                == desired.stable_routing_id->0@
        },
{
    up_to_date_means_every_field(desired@, actual@);
}

/// The records of an answer are filed under their own workers, the last one of each.
pub proof fn records_are_filed_by_worker(
    records: Vec<CatalogRecordWire>,
    r: HashMap<u64, CatalogRecordWire>,
    i: int,
    worker: u64,
)
    requires
        call_ensures(index_records, (records,), r),
        0 <= i < records@.len(),
        forall|j: int| i < j < records@.len() ==> (#[trigger] records@[j]).worker_id
            != records@[i].worker_id,
    ensures
        r@.contains_key(records@[i].worker_id),
        r@[records@[i].worker_id]@ == records@[i]@,
        r@.contains_key(worker) <==> exists|j: int|
            0 <= j < records@.len() && (#[trigger] records@[j]).worker_id == worker,
{
    let views = record_views(records@);
    assert(views[i] == records@[i]@);
    assert forall|j: int| i < j < views.len() implies (#[trigger] views[j]).worker_id
        != views[i].worker_id by {
        assert(views[j] == records@[j]@);
    }
    last_record_of_a_worker_counts(views, i, worker);
    let filed = catalog_view(r@);
    assert(filed.contains_key(records@[i].worker_id) <==> r@.contains_key(records@[i].worker_id));
    assert(filed.contains_key(worker) <==> r@.contains_key(worker));
    if exists|j: int| 0 <= j < records@.len() && (#[trigger] records@[j]).worker_id == worker {
        let j = choose|j: int|
            0 <= j < records@.len() && (#[trigger] records@[j]).worker_id == worker;
        assert(views[j].worker_id == worker);
    }
    if exists|j: int| 0 <= j < views.len() && (#[trigger] views[j]).worker_id == worker {
        let j = choose|j: int| 0 <= j < views.len() && (#[trigger] views[j]).worker_id == worker;
        assert(records@[j].worker_id == worker);
    }
}

/// A plan upserts exactly the desired workers whose record is absent or does not match,
/// and deletes exactly those that are no longer desired.
pub proof fn planned_calls_are_the_difference(
    desired: HashMap<u64, WorkerRegistration>,
    actual: HashMap<u64, CatalogRecordWire>,
    r: Vec<ReplicaCall>,
    worker_id: u64,
    matches: bool,
)
    requires
        desired@.dom().finite(),
        actual@.dom().finite(),
        call_ensures(plan_replica, (&desired, &actual), r),
        desired@.contains_key(worker_id) && actual@.contains_key(worker_id) ==> call_ensures(
            record_matches,
            (&desired@[worker_id], &actual@[worker_id]),
            matches,
        ),
    ensures
        r@.contains(ReplicaCall::Upsert { worker_id }) <==> desired@.contains_key(worker_id) && !(
        actual@.contains_key(worker_id) && matches),
        r@.contains(ReplicaCall::Delete { worker_id }) <==> actual@.contains_key(worker_id)
            && !desired@.contains_key(worker_id),
        r@.len() > 0,
        r@[r@.len() - 1] == ReplicaCall::Ready,
{
    let want = selection_backend::registration_views(desired@);
    let held = catalog_view(actual@);
    assert(want.dom() =~= desired@.dom());
    assert(held.dom() =~= actual@.dom());
    plan_holds_exactly_the_difference(want, held, worker_id);
    plan_is_in_order(want, held);
    assert(r@[r@.len() - 1] == ReplicaCall::Ready);
}

/// Statuses from 200 to 299 are a success; a deletion is also done with at 404.
pub proof fn statuses_are_judged(status: u16, succeeded: bool, deleted: bool)
    requires
        call_ensures(is_success, (status,), succeeded),
        call_ensures(is_gone, (status,), deleted),
    ensures
        succeeded <==> 200 <= status && status < 300,
        deleted <==> succeeded || status == 404,
{
}

/// A run starts with the plan for what the replica answered, has failed where it did not
/// answer, and hands out its calls only while it runs.
pub proof fn runs_hand_out_their_plan(
    desired: HashMap<u64, WorkerRegistration>,
    records: Option<Vec<CatalogRecordWire>>,
    run: ReplicaRun,
    call: Option<ReplicaCall>,
    verdict: Verdict,
    outcome: Option<bool>,
)
    requires
        call_ensures(ReplicaRun::start, (&desired, records), run),
        call_ensures(ReplicaRun::next_call, (&run,), call),
        call_ensures(ReplicaRun::verdict, (&run,), verdict),
        call_ensures(Verdict::outcome, (verdict,), outcome),
    ensures
        verdict == run@.verdict,
        records is None ==> verdict == Verdict::Failed && call is None && outcome is None,
        records is Some ==> verdict == Verdict::Running && outcome is None && run@.done == 0
            && call == Some(run@.calls[0]),
{
}

/// What is recorded of a replica is its readiness, and only once its run is finished.
pub proof fn only_finished_runs_have_an_outcome(verdict: Verdict, outcome: Option<bool>)
    requires
        call_ensures(Verdict::outcome, (verdict,), outcome),
    ensures
        outcome is Some <==> verdict is Finished,
        outcome is Some ==> verdict == (Verdict::Finished { routable: outcome->0 }),
{
}

/// What records and catalogs say is what they hold.
pub proof fn catalog_says_what_it_holds(
    records: Seq<CatalogRecordWire>,
    catalog: Map<u64, CatalogRecordWire>,
    i: int,
    worker: u64,
)
    ensures
        record_views(records).len() == records.len(),
        0 <= i < records.len() ==> record_views(records)[i] == records[i]@,
        catalog_view(catalog).contains_key(worker) <==> catalog.contains_key(worker),
        catalog.contains_key(worker) ==> catalog_view(catalog)[worker] == catalog[worker]@,
{
}

} // verus!
