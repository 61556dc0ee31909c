//! Decisions of the in-process selection backend (single-image evaluation mode).
//!
//! The router and the selection core are in one binary, and the router calls the
//! core directly: no HTTP client, no second process, no replication. The core lives
//! and dies with the process, so the catalog that was last pushed into it is a sound
//! record of what it holds, and lets reconciling skip upserts that would register
//! KV-event listeners again for nothing.

use std::collections::{HashMap, HashSet};

use vstd::prelude::*;

use crate::collections;
use crate::collections::{ascending_hash_keys, copy_members};
use crate::selection_backend;
use crate::selection_backend::{
    OverlapSummary, SelectRequest, SelectRequestView, SelectResponse, SelectResponseView,
    WorkerRegistration, WorkerRegistrationView,
};
use crate::text;

verus! {

/// Tenant scope for router-only mode. Worker registration and selection have to
/// agree on it.
pub const DEFAULT_TENANT: &'static str = "default";

/// A worker as the core registers it. Whatever is not listed here is left at its
/// default.
#[derive(Debug, Clone)]
pub struct CoreWorkerRequest {
    pub worker_id: u64,
    pub model_name: String,
    pub tenant_id: String,
    pub endpoint: Option<String>,
    pub block_size: Option<u32>,
    pub data_parallel_size: Option<u32>,
    pub kv_events_endpoints: HashMap<u32, String>,
    pub replay_endpoint: Option<String>,
    pub total_kv_blocks: Option<u64>,
    pub max_num_batched_tokens: Option<u64>,
    pub stable_routing_id: Option<String>,
}

/// What a [`CoreWorkerRequest`] says.
#[verifier::ext_equal]
pub struct CoreWorkerView {
    pub worker_id: u64,
    pub model_name: Seq<char>,
    pub tenant_id: Seq<char>,
    pub endpoint: Option<Seq<char>>,
    pub block_size: Option<u32>,
    pub data_parallel_size: Option<u32>,
    pub kv_events_endpoints: Map<u32, Seq<char>>,
    pub replay_endpoint: Option<Seq<char>>,
    pub total_kv_blocks: Option<u64>,
    pub max_num_batched_tokens: Option<u64>,
    pub stable_routing_id: Option<Seq<char>>,
}

impl View for CoreWorkerRequest {
    type V = CoreWorkerView;

    open spec fn view(&self) -> CoreWorkerView {
        CoreWorkerView {
            worker_id: self.worker_id,
            model_name: self.model_name@,
            tenant_id: self.tenant_id@,
            endpoint: text::optional_text(self.endpoint),
            block_size: self.block_size,
            data_parallel_size: self.data_parallel_size,
            kv_events_endpoints: selection_backend::texts_by_rank(self.kv_events_endpoints@),
            replay_endpoint: text::optional_text(self.replay_endpoint),
            total_kv_blocks: self.total_kv_blocks,
            max_num_batched_tokens: self.max_num_batched_tokens,
            stable_routing_id: text::optional_text(self.stable_routing_id),
        }
    }
}

/// What a registration asks of the core.
pub open spec fn core_worker_of(registration: WorkerRegistrationView) -> CoreWorkerView {
    CoreWorkerView {
        worker_id: registration.worker_id,
        model_name: registration.model_name,
        tenant_id: "default"@,
        endpoint: Some(registration.endpoint),
        block_size: Some(registration.block_size),
        data_parallel_size: Some(registration.data_parallel_size),
        kv_events_endpoints: registration.kv_events_endpoints,
        replay_endpoint: registration.replay_endpoint,
        total_kv_blocks: registration.total_kv_blocks,
        max_num_batched_tokens: registration.max_num_batched_tokens,
        stable_routing_id: registration.stable_routing_id,
    }
}

/// What a registration asks of the core.
pub fn worker_request(registration: &WorkerRegistration) -> (r: CoreWorkerRequest)
    ensures
        r@ == core_worker_of(registration@),
{
    CoreWorkerRequest {
        worker_id: registration.worker_id,
        model_name: registration.model_name.clone(),
        tenant_id: DEFAULT_TENANT.to_owned(),
        endpoint: Some(registration.endpoint.clone()),
        block_size: Some(registration.block_size),
        data_parallel_size: Some(registration.data_parallel_size),
        kv_events_endpoints: registration.kv_events_endpoints.clone(),
        replay_endpoint: registration.replay_endpoint.clone(),
        total_kv_blocks: registration.total_kv_blocks,
        max_num_batched_tokens: registration.max_num_batched_tokens,
        stable_routing_id: registration.stable_routing_id.clone(),
    }
}

/// A selection as the core makes it. Whatever is not listed here is left at its
/// default.
#[derive(Debug, Clone)]
pub struct CoreSelectRequest {
    pub tenant_id: String,
    pub model_name: String,
    pub selection_id: Option<String>,
    pub reservation_id: Option<String>,
    pub token_ids: Option<Vec<u32>>,
    pub allowed_worker_ids: Option<HashSet<u64>>,
    /// Priority jump, as the bits of a double-precision number.
    pub priority_jump: Option<u64>,
    pub strict_priority: Option<u32>,
}

/// What a [`CoreSelectRequest`] says.
#[verifier::ext_equal]
pub struct CoreSelectView {
    pub tenant_id: Seq<char>,
    pub model_name: Seq<char>,
    pub selection_id: Option<Seq<char>>,
    pub reservation_id: Option<Seq<char>>,
    pub token_ids: Option<Seq<u32>>,
    pub allowed_worker_ids: Option<Set<u64>>,
    pub priority_jump: Option<u64>,
    pub strict_priority: Option<u32>,
}

impl View for CoreSelectRequest {
    type V = CoreSelectView;

    open spec fn view(&self) -> CoreSelectView {
        CoreSelectView {
            tenant_id: self.tenant_id@,
            model_name: self.model_name@,
            selection_id: text::optional_text(self.selection_id),
            reservation_id: text::optional_text(self.reservation_id),
            token_ids: match self.token_ids {
                Some(t) => Some(t@),
                None => None,
            },
            allowed_worker_ids: selection_backend::optional_ids(self.allowed_worker_ids),
            priority_jump: self.priority_jump,
            strict_priority: self.strict_priority,
        }
    }
}

/// What a selection request asks of the core.
pub open spec fn core_select_of(request: SelectRequestView) -> CoreSelectView {
    CoreSelectView {
        tenant_id: "default"@,
        model_name: request.model_name,
        selection_id: request.selection_id,
        reservation_id: request.reservation_id,
        token_ids: Some(request.token_ids),
        allowed_worker_ids: request.allowed_worker_ids,
        priority_jump: request.priority_jump,
        strict_priority: request.strict_priority,
    }
}

/// What a selection request asks of the core.
pub fn select_request(request: &SelectRequest) -> (r: CoreSelectRequest)
    ensures
        r@ == core_select_of(request@),
{
    let token_ids = request.token_ids.clone();
    proof {
        assert(token_ids@ =~= request.token_ids@);
    }
    let allowed_worker_ids = match &request.allowed_worker_ids {
        Some(ids) => Some(copy_members(ids)),
        None => None,
    };
    CoreSelectRequest {
        tenant_id: DEFAULT_TENANT.to_owned(),
        model_name: request.model_name.clone(),
        selection_id: request.selection_id.clone(),
        reservation_id: request.reservation_id.clone(),
        token_ids: Some(token_ids),
        allowed_worker_ids,
        priority_jump: request.priority_jump,
        strict_priority: request.strict_priority,
    }
}

/// A selection as the core returns it.
#[derive(Debug)]
pub struct CoreSelectResponse {
    pub selection_id: Option<String>,
    pub reservation_id: Option<String>,
    pub worker_id: u64,
    pub dp_rank: u32,
    pub endpoint: String,
    pub block_size: u32,
    pub longest_matched: u32,
    pub gpu: u32,
    pub cpu: u32,
    pub disk: u32,
    pub effective_prefill_tokens: usize,
}

/// The selection that the core made, in the form that both backends share.
pub fn select_response(core: CoreSelectResponse) -> (r: SelectResponse)
    ensures
        r@ == (SelectResponseView {
            selection_id: text::optional_text(core.selection_id),
            reservation_id: text::optional_text(core.reservation_id),
            worker_id: core.worker_id,
            dp_rank: core.dp_rank,
            endpoint: core.endpoint@,
            block_size: core.block_size,
            overlap: OverlapSummary {
                longest_matched: core.longest_matched,
                gpu: core.gpu,
                cpu: core.cpu,
                disk: core.disk,
            },
            effective_prefill_tokens: core.effective_prefill_tokens,
        }),
{
    SelectResponse {
        selection_id: core.selection_id,
        reservation_id: core.reservation_id,
        worker_id: core.worker_id,
        dp_rank: core.dp_rank,
        endpoint: core.endpoint,
        block_size: core.block_size,
        overlap: OverlapSummary {
            longest_matched: core.longest_matched,
            gpu: core.gpu,
            cpu: core.cpu,
            disk: core.disk,
        },
        effective_prefill_tokens: core.effective_prefill_tokens,
    }
}

// ---------------------------------------------------------------------------
// Reconciling
// ---------------------------------------------------------------------------

/// The desired workers that the core lacks or holds differently.
pub open spec fn to_upsert(
    desired: Map<u64, WorkerRegistrationView>,
    current: Map<u64, WorkerRegistrationView>,
) -> Set<u64> {
    desired.dom().filter(
        |worker: u64| !(current.contains_key(worker) && current[worker] == desired[worker]),
    )
}

/// The workers that the core holds but that are no longer desired.
pub open spec fn to_delete(
    desired: Map<u64, WorkerRegistrationView>,
    current: Map<u64, WorkerRegistrationView>,
) -> Set<u64> {
    current.dom().difference(desired.dom())
}

/// What reconciling does next.
#[derive(Debug, Clone)]
pub enum EmbeddedStep {
    /// Upsert this worker into the core.
    Upsert { worker_id: u64, request: CoreWorkerRequest },
    /// Delete this worker from the core.
    Delete { worker_id: u64 },
    /// The core holds what is desired.
    Done,
}

/// What an [`EmbeddedStep`] says.
pub enum EmbeddedStepView {
    Upsert(u64, CoreWorkerView),
    Delete(u64),
    Done,
}

impl View for EmbeddedStep {
    type V = EmbeddedStepView;

    open spec fn view(&self) -> EmbeddedStepView {
        match self {
            EmbeddedStep::Upsert { worker_id, request } => EmbeddedStepView::Upsert(
                *worker_id,
                request@,
            ),
            EmbeddedStep::Delete { worker_id } => EmbeddedStepView::Delete(*worker_id),
            EmbeddedStep::Done => EmbeddedStepView::Done,
        }
    }
}

/// What reconciling does next: upserts first, then deletions, each by ascending
/// worker id.
pub open spec fn step_of(
    desired: Map<u64, WorkerRegistrationView>,
    current: Map<u64, WorkerRegistrationView>,
) -> EmbeddedStepView {
    let upserts = collections::ascending_u64(to_upsert(desired, current));
    let deletes = collections::ascending_u64(to_delete(desired, current));
    if upserts.len() > 0 {
        EmbeddedStepView::Upsert(upserts[0], core_worker_of(desired[upserts[0]]))
    } else if deletes.len() > 0 {
        EmbeddedStepView::Delete(deletes[0])
    } else {
        EmbeddedStepView::Done
    }
}

/// How the core answered a deletion.
#[derive(Debug, Clone, Copy, PartialEq, Eq, Structural)]
pub enum DeleteOutcome {
    Deleted,
    /// The core held no such worker.
    NotFound,
    Failed,
}

/// Whether a reservation is freed: the core released it, or held no such one. A
/// request that never booked is not an error.
pub fn freed(outcome: DeleteOutcome) -> (r: bool)
    ensures
        r == (outcome != DeleteOutcome::Failed),
{
    outcome != DeleteOutcome::Failed
}

/// The catalog that was last pushed into the core.
#[derive(Debug)]
pub struct EmbeddedCatalog {
    current: HashMap<u64, WorkerRegistration>,
}

impl View for EmbeddedCatalog {
    type V = Map<u64, WorkerRegistrationView>;

    closed spec fn view(&self) -> Map<u64, WorkerRegistrationView> {
        selection_backend::registration_views(self.current@)
    }
}

/// The smallest member of a finite set that an ascending search finds.
proof fn lemma_smallest(s: Set<u64>, worker: u64)
    requires
        s.finite(),
        s.contains(worker),
        forall|other: u64| #[trigger] s.contains(other) ==> worker <= other,
    ensures
        collections::ascending_u64(s).len() > 0,
        collections::ascending_u64(s)[0] == worker,
{
    collections::lemma_ascending_u64_members(s);
    let q = collections::ascending_u64(s);
    assert(q.contains(worker));
    let i = choose|i: int| 0 <= i < q.len() && q[i] == worker;
    assert(q.contains(q[0]));
    if i > 0 {
        assert(q[0] < q[i]);
    }
}

proof fn lemma_nothing_listed(s: Set<u64>)
    requires
        s.finite(),
    ensures
        collections::ascending_u64(s).len() == 0 <==> (forall|worker: u64| !s.contains(worker)),
{
    collections::lemma_ascending_u64_members(s);
    let q = collections::ascending_u64(s);
    if q.len() > 0 {
        assert(q.contains(q[0]));
        assert(s.contains(q[0]));
    } else {
        assert forall|worker: u64| !s.contains(worker) by {
            assert(!q.contains(worker));
        }
    }
}

impl EmbeddedCatalog {
    /// A catalog with no workers.
    pub fn new() -> (r: EmbeddedCatalog)
        ensures
            r@ == Map::<u64, WorkerRegistrationView>::empty(),
    {
        let r = EmbeddedCatalog { current: HashMap::new() };
        proof {
            assert(r@ =~= Map::<u64, WorkerRegistrationView>::empty());
        }
        r
    }

    fn first_upsert(&self, desired: &HashMap<u64, WorkerRegistration>) -> (r: Option<u64>)
        ensures
            match r {
                Some(worker) => {
                    let missing = to_upsert(selection_backend::registration_views(desired@), self@);
                    &&& missing.contains(worker)
                    &&& forall|other: u64| #[trigger] missing.contains(other) ==> worker <= other
                },
                None => forall|other: u64|
                    !#[trigger] to_upsert(
                        selection_backend::registration_views(desired@),
                        self@,
                    ).contains(other),
            },
    {
        let ids = ascending_hash_keys(desired);
        let ghost want = selection_backend::registration_views(desired@);
        let ghost missing = to_upsert(want, self@);
        let mut i: usize = 0;
        while i < ids.len()
            invariant
                i <= ids.len(),
                want == selection_backend::registration_views(desired@),
                missing == to_upsert(want, self@),
                ids@.to_set() == desired@.dom(),
                collections::is_ascending_u64(ids@),
                forall|j: int| 0 <= j < i ==> !missing.contains(#[trigger] ids@[j]),
            decreases ids.len() - i,
        {
            let worker_id: u64 = ids[i];
            proof {
                assert(ids@.to_set().contains(worker_id));
                assert(desired@.contains_key(worker_id));
            }
            let same = match (self.current.get(&worker_id), desired.get(&worker_id)) {
                (Some(held), Some(wanted)) => *held == *wanted,
                _ => false,
            };
            if !same {
                proof {
                    assert(missing.contains(worker_id));
                    assert forall|other: u64| #[trigger]
                        missing.contains(other) implies worker_id <= other by {
                        assert(ids@.to_set().contains(other));
                        let j = choose|j: int| 0 <= j < ids@.len() && ids@[j] == other;
                        assert(!(j < i));
                        if j > i {
                            assert(ids@[i as int] < ids@[j]);
                        }
                    }
                }
                return Some(worker_id);
            }
            i = i + 1;
        }
        proof {
            assert forall|other: u64| !#[trigger] missing.contains(other) by {
                if missing.contains(other) {
                    assert(ids@.to_set().contains(other));
                    let j = choose|j: int| 0 <= j < ids@.len() && ids@[j] == other;
                    assert(!missing.contains(ids@[j]));
                }
            }
        }
        None
    }

    fn first_delete(&self, desired: &HashMap<u64, WorkerRegistration>) -> (r: Option<u64>)
        ensures
            match r {
                Some(worker) => {
                    let extra = to_delete(selection_backend::registration_views(desired@), self@);
                    &&& extra.contains(worker)
                    &&& forall|other: u64| #[trigger] extra.contains(other) ==> worker <= other
                },
                None => forall|other: u64|
                    !#[trigger] to_delete(
                        selection_backend::registration_views(desired@),
                        self@,
                    ).contains(other),
            },
    {
        let ids = ascending_hash_keys(&self.current);
        let ghost want = selection_backend::registration_views(desired@);
        let ghost extra = to_delete(want, self@);
        let mut i: usize = 0;
        while i < ids.len()
            invariant
                i <= ids.len(),
                want == selection_backend::registration_views(desired@),
                extra == to_delete(want, self@),
                ids@.to_set() == self.current@.dom(),
                collections::is_ascending_u64(ids@),
                forall|j: int| 0 <= j < i ==> !extra.contains(#[trigger] ids@[j]),
            decreases ids.len() - i,
        {
            let worker_id: u64 = ids[i];
            proof {
                assert(ids@.to_set().contains(worker_id));
            }
            if !desired.contains_key(&worker_id) {
                proof {
                    assert(self@.contains_key(worker_id));
                    assert(extra.contains(worker_id));
                    assert forall|other: u64| #[trigger]
                        extra.contains(other) implies worker_id <= other by {
                        assert(ids@.to_set().contains(other));
                        let j = choose|j: int| 0 <= j < ids@.len() && ids@[j] == other;
                        assert(!(j < i));
                        if j > i {
                            assert(ids@[i as int] < ids@[j]);
                        }
                    }
                }
                return Some(worker_id);
            }
            i = i + 1;
        }
        proof {
            assert forall|other: u64| !#[trigger] extra.contains(other) by {
                if extra.contains(other) {
                    assert(ids@.to_set().contains(other));
                    let j = choose|j: int| 0 <= j < ids@.len() && ids@[j] == other;
                    assert(!extra.contains(ids@[j]));
                }
            }
        }
        None
    }

    /// What to do next to bring the core toward the desired workers.
    pub fn next_step(&self, desired: &HashMap<u64, WorkerRegistration>) -> (r: EmbeddedStep)
        ensures
            r@ == step_of(selection_backend::registration_views(desired@), self@),
    {
        let ghost want = selection_backend::registration_views(desired@);
        let ghost upserts = to_upsert(want, self@);
        let ghost deletes = to_delete(want, self@);
        proof {
            assert(want.dom() =~= desired@.dom());
            assert(self@.dom() =~= self.current@.dom());
            vstd::set_lib::lemma_len_subset(upserts, desired@.dom());
            vstd::set_lib::lemma_len_subset(deletes, self.current@.dom());
            lemma_nothing_listed(upserts);
            lemma_nothing_listed(deletes);
        }
        if let Some(worker_id) = self.first_upsert(desired) {
            proof {
                lemma_smallest(upserts, worker_id);
            }
            if let Some(registration) = desired.get(&worker_id) {
                return EmbeddedStep::Upsert { worker_id, request: worker_request(registration) };
            }
        }
        if let Some(worker_id) = self.first_delete(desired) {
            proof {
                lemma_smallest(deletes, worker_id);
            }
            return EmbeddedStep::Delete { worker_id };
        }
        EmbeddedStep::Done
    }

    /// Record that the core accepted the upsert of a desired worker.
    pub fn upserted(&mut self, desired: &HashMap<u64, WorkerRegistration>, worker_id: u64)
        ensures
            final(self)@ == (if desired@.contains_key(worker_id) {
                old(self)@.insert(worker_id, desired@[worker_id]@)
            } else {
                old(self)@
            }),
    {
        let ghost before = self.current@;
        if let Some(registration) = desired.get(&worker_id) {
            self.current.insert(worker_id, registration.clone());
            proof {
                assert(self@ =~= selection_backend::registration_views(before).insert(
                    worker_id,
                    desired@[worker_id]@,
                ));
            }
        }
    }

    /// Take the core's answer to a deletion. A worker that was never registered is
    /// not an error. Returns whether reconciling goes on.
    pub fn deleted(&mut self, worker_id: u64, outcome: DeleteOutcome) -> (r: bool)
        ensures
            r == (outcome != DeleteOutcome::Failed),
            final(self)@ == (if r {
                old(self)@.remove(worker_id)
            } else {
                old(self)@
            }),
    {
        if outcome == DeleteOutcome::Failed {
            return false;
        }
        let ghost before = self.current@;
        self.current.remove(&worker_id);
        proof {
            assert(self@ =~= selection_backend::registration_views(before).remove(worker_id));
        }
        true
    }
}

// ---------------------------------------------------------------------------
// Laws
// ---------------------------------------------------------------------------

/// Workers are registered and selected under the same tenant.
pub proof fn one_tenant(registration: WorkerRegistrationView, request: SelectRequestView)
    ensures
        core_worker_of(registration).tenant_id == core_select_of(request).tenant_id,
{
}

/// Reconciling is done exactly when the core holds the desired workers, so
/// reconciling twice does nothing the second time.
pub proof fn done_exactly_when_equal(
    desired: Map<u64, WorkerRegistrationView>,
    current: Map<u64, WorkerRegistrationView>,
)
    requires
        desired.dom().finite(),
        current.dom().finite(),
    ensures
        step_of(desired, current) is Done <==> current == desired,
{
    let upserts = to_upsert(desired, current);
    let deletes = to_delete(desired, current);
    vstd::set_lib::lemma_len_subset(upserts, desired.dom());
    vstd::set_lib::lemma_len_subset(deletes, current.dom());
    lemma_nothing_listed(upserts);
    lemma_nothing_listed(deletes);
    if step_of(desired, current) is Done {
        assert forall|worker: u64| #[trigger]
            current.contains_key(worker) == desired.contains_key(worker) && (desired.contains_key(
                worker,
            ) ==> current[worker] == desired[worker]) by {
            assert(!upserts.contains(worker));
            assert(!deletes.contains(worker));
        }
        assert(current =~= desired);
    }
    if current == desired {
        assert forall|worker: u64| !upserts.contains(worker) by {}
        assert forall|worker: u64| !deletes.contains(worker) by {}
    }
}

/// What the core holds after a step succeeded.
pub open spec fn held_after(
    desired: Map<u64, WorkerRegistrationView>,
    current: Map<u64, WorkerRegistrationView>,
) -> Map<u64, WorkerRegistrationView> {
    match step_of(desired, current) {
        EmbeddedStepView::Upsert(worker, _) => current.insert(worker, desired[worker]),
        EmbeddedStepView::Delete(worker) => current.remove(worker),
        EmbeddedStepView::Done => current,
    }
}

/// Each successful step settles one worker and unsettles none, so that reconciling
/// ends after as many steps as there were workers to settle.
pub proof fn every_step_settles_one_worker(
    desired: Map<u64, WorkerRegistrationView>,
    current: Map<u64, WorkerRegistrationView>,
)
    requires
        desired.dom().finite(),
        current.dom().finite(),
        !(step_of(desired, current) is Done),
    ensures
        ({
            let after = held_after(desired, current);
            &&& after.dom().finite()
            &&& to_upsert(desired, after).len() + to_delete(desired, after).len() + 1 == to_upsert(
                desired,
                current,
            ).len() + to_delete(desired, current).len()
        }),
{
    let after = held_after(desired, current);
    let upserts = to_upsert(desired, current);
    let deletes = to_delete(desired, current);
    vstd::set_lib::lemma_len_subset(upserts, desired.dom());
    vstd::set_lib::lemma_len_subset(deletes, current.dom());
    collections::lemma_ascending_u64_members(upserts);
    collections::lemma_ascending_u64_members(deletes);
    let ups = collections::ascending_u64(upserts);
    let downs = collections::ascending_u64(deletes);
    if ups.len() > 0 {
        let worker = ups[0];
        assert(ups.contains(worker));
        assert(upserts.contains(worker));
        assert(to_upsert(desired, after) =~= upserts.remove(worker));
        assert(to_delete(desired, after) =~= deletes);
        assert(after.dom() =~= current.dom().insert(worker));
    } else {
        let worker = downs[0];
        assert(downs.contains(worker));
        assert(deletes.contains(worker));
        assert(to_upsert(desired, after) =~= upserts);
        assert(to_delete(desired, after) =~= deletes.remove(worker));
        assert(after.dom() =~= current.dom().remove(worker));
    }
}

/// The core is asked for every field of a registration, under the default tenant.
pub proof fn registration_reaches_the_core(registration: WorkerRegistrationView)
    ensures
        core_worker_of(registration).worker_id == registration.worker_id,
        core_worker_of(registration).model_name == registration.model_name,
        core_worker_of(registration).tenant_id == "default"@,
        core_worker_of(registration).endpoint == Some(registration.endpoint),
        core_worker_of(registration).block_size == Some(registration.block_size),
        core_worker_of(registration).data_parallel_size == Some(registration.data_parallel_size),
        core_worker_of(registration).kv_events_endpoints == registration.kv_events_endpoints,
        core_worker_of(registration).replay_endpoint == registration.replay_endpoint,
        core_worker_of(registration).total_kv_blocks == registration.total_kv_blocks,
        core_worker_of(registration).max_num_batched_tokens == registration.max_num_batched_tokens,
        core_worker_of(registration).stable_routing_id == registration.stable_routing_id,
{
}

/// The core is asked for every field of a selection request, under the default tenant.
pub proof fn selection_request_reaches_the_core(request: SelectRequestView)
    ensures
        core_select_of(request).tenant_id == "default"@,
        core_select_of(request).model_name == request.model_name,
        core_select_of(request).selection_id == request.selection_id,
        core_select_of(request).reservation_id == request.reservation_id,
        core_select_of(request).token_ids == Some(request.token_ids),
        core_select_of(request).allowed_worker_ids == request.allowed_worker_ids,
        core_select_of(request).priority_jump == request.priority_jump,
        core_select_of(request).strict_priority == request.strict_priority,
{
}

/// The next step upserts the smallest worker that the core lacks or holds differently;
/// where there is none it deletes the smallest worker that is no longer desired; and
/// where there is none of those either, reconciling is done.
pub proof fn next_step_is_the_smallest_open_one(
    desired: Map<u64, WorkerRegistrationView>,
    current: Map<u64, WorkerRegistrationView>,
    other: u64,
)
    requires
        desired.dom().finite(),
        current.dom().finite(),
    ensures
        ({
            let open = |w: u64|
                desired.contains_key(w) && !(current.contains_key(w) && current[w] == desired[w]);
            let extra = |w: u64| current.contains_key(w) && !desired.contains_key(w);
            match step_of(desired, current) {
                EmbeddedStepView::Upsert(worker, request) => open(worker) && request
                    == core_worker_of(desired[worker]) && (open(other) ==> worker <= other),
                EmbeddedStepView::Delete(worker) => extra(worker) && !open(other) && (extra(other)
                    ==> worker <= other),
                EmbeddedStepView::Done => !open(other) && !extra(other),
            }
        }),
{
    let upserts = to_upsert(desired, current);
    let deletes = to_delete(desired, current);
    vstd::set_lib::lemma_len_subset(upserts, desired.dom());
    vstd::set_lib::lemma_len_subset(deletes, current.dom());
    collections::lemma_ascending_u64_members(upserts);
    collections::lemma_ascending_u64_members(deletes);
    let ups = collections::ascending_u64(upserts);
    let downs = collections::ascending_u64(deletes);
    assert(ups.contains(other) <==> upserts.contains(other));
    assert(downs.contains(other) <==> deletes.contains(other));
    if ups.len() > 0 {
        assert(ups.contains(ups[0]));
        if upserts.contains(other) {
            let i = choose|i: int| 0 <= i < ups.len() && ups[i] == other;
            if i > 0 {
                assert(ups[0] < ups[i]);
            }
        }
    } else if downs.len() > 0 {
        assert(downs.contains(downs[0]));
        if deletes.contains(other) {
            let i = choose|i: int| 0 <= i < downs.len() && downs[i] == other;
            if i > 0 {
                assert(downs[0] < downs[i]);
            }
        }
    }
}

/// The request to the core has every field of the registration, under the default tenant.
pub proof fn core_is_asked_for_the_registration(
    registration: WorkerRegistration,
    r: CoreWorkerRequest,
)
    requires
        call_ensures(worker_request, (&registration,), r),
    ensures
        r.worker_id == registration.worker_id,
        r.model_name@ == registration.model_name@,
        r.tenant_id@ == "default"@,
        r.endpoint is Some,
        r.endpoint->0@ == registration.endpoint@,
        r.block_size == Some(registration.block_size),
        r.data_parallel_size == Some(registration.data_parallel_size),
        selection_backend::texts_by_rank(r.kv_events_endpoints@)
            == selection_backend::texts_by_rank(registration.kv_events_endpoints@),
        r.replay_endpoint is Some <==> registration.replay_endpoint is Some,
        r.replay_endpoint is Some ==> r.replay_endpoint->0@ == registration.replay_endpoint->0@,
        r.total_kv_blocks == registration.total_kv_blocks,
        r.max_num_batched_tokens == registration.max_num_batched_tokens,
        r.stable_routing_id is Some <==> registration.stable_routing_id is Some,
        r.stable_routing_id is Some ==> r.stable_routing_id->0@
            == registration.stable_routing_id->0@,
{
    let (a, b) = (r@, core_worker_of(registration@));
    assert(a.replay_endpoint == b.replay_endpoint);
    assert(a.stable_routing_id == b.stable_routing_id);
    assert(a.endpoint == b.endpoint);
}

/// The selection that the core is asked for has every field of the request, under the
/// default tenant.
pub proof fn core_is_asked_for_the_selection(request: SelectRequest, r: CoreSelectRequest)
    requires
        call_ensures(select_request, (&request,), r),
    ensures
        r.tenant_id@ == "default"@,
        r.model_name@ == request.model_name@,
        r.selection_id is Some <==> request.selection_id is Some,
        r.selection_id is Some ==> r.selection_id->0@ == request.selection_id->0@,
        r.reservation_id is Some <==> request.reservation_id is Some,
        r.reservation_id is Some ==> r.reservation_id->0@ == request.reservation_id->0@,
        r.token_ids is Some,
        r.token_ids->0@ == request.token_ids@,
        r.allowed_worker_ids is Some <==> request.allowed_worker_ids is Some,
        r.allowed_worker_ids is Some ==> r.allowed_worker_ids->0@ == request.allowed_worker_ids->0@,
        r.priority_jump == request.priority_jump,
        r.strict_priority == request.strict_priority,
{
    let (a, b) = (r@, core_select_of(request@));
    assert(a.selection_id == b.selection_id);
    assert(a.reservation_id == b.reservation_id);
    assert(a.token_ids == b.token_ids);
    assert(a.allowed_worker_ids == b.allowed_worker_ids);
}

/// A selection has every field of what the core returned.
pub proof fn selection_is_what_the_core_returned(core: CoreSelectResponse, r: SelectResponse)
    requires
        call_ensures(select_response, (core,), r),
    ensures
        r.selection_id is Some <==> core.selection_id is Some,
        r.selection_id is Some ==> r.selection_id->0@ == core.selection_id->0@,
        r.reservation_id is Some <==> core.reservation_id is Some,
        r.reservation_id is Some ==> r.reservation_id->0@ == core.reservation_id->0@,
        r.worker_id == core.worker_id,
        r.dp_rank == core.dp_rank,
        r.endpoint@ == core.endpoint@,
        r.block_size == core.block_size,
        r.overlap.longest_matched == core.longest_matched,
        r.overlap.gpu == core.gpu,
        r.overlap.cpu == core.cpu,
        r.overlap.disk == core.disk,
        r.effective_prefill_tokens == core.effective_prefill_tokens,
{
    assert(r@.selection_id == text::optional_text(core.selection_id));
    assert(r@.reservation_id == text::optional_text(core.reservation_id));
}

/// A reservation is freed where the core released it or never had it, and only then.
pub proof fn only_failures_keep_a_reservation(outcome: DeleteOutcome, r: bool)
    requires
        call_ensures(freed, (outcome,), r),
    ensures
        r <==> outcome == DeleteOutcome::Deleted || outcome == DeleteOutcome::NotFound,
{
}

/// A fresh catalog holds nothing, and the next step of one is the smallest open one.
pub proof fn catalog_settles_the_smallest_first(
    fresh: EmbeddedCatalog,
    catalog: EmbeddedCatalog,
    desired: HashMap<u64, WorkerRegistration>,
    r: EmbeddedStep,
    other: u64,
)
    requires
        desired@.dom().finite(),
        catalog@.dom().finite(),
        call_ensures(EmbeddedCatalog::new, (), fresh),
        call_ensures(EmbeddedCatalog::next_step, (&catalog, &desired), r),
    ensures
        !fresh@.contains_key(other),
        ({
            let open = |w: u64|
                desired@.contains_key(w) && !(catalog@.contains_key(w) && catalog@[w]
                    == desired@[w]@);
            let extra = |w: u64| catalog@.contains_key(w) && !desired@.contains_key(w);
            match r {
                EmbeddedStep::Upsert { worker_id, request } => open(worker_id) && request@
                    == core_worker_of(desired@[worker_id]@) && (open(other) ==> worker_id <= other),
                EmbeddedStep::Delete { worker_id } => extra(worker_id) && !open(other) && (extra(
                    other,
                ) ==> worker_id <= other),
                EmbeddedStep::Done => !open(other) && !extra(other),
            }
        }),
{
    let want = selection_backend::registration_views(desired@);
    assert(want.dom() =~= desired@.dom());
    next_step_is_the_smallest_open_one(want, catalog@, other);
}

/// What a request to the core and a step say is what they hold.
pub proof fn core_requests_say_what_they_hold(
    worker: CoreWorkerRequest,
    select: CoreSelectRequest,
    worker_id: u64,
)
    ensures
        worker@.worker_id == worker.worker_id,
        worker@.model_name == worker.model_name@,
        worker@.tenant_id == worker.tenant_id@,
        worker.endpoint is Some ==> worker@.endpoint == Some(worker.endpoint->0@),
        worker@.block_size == worker.block_size,
        worker@.data_parallel_size == worker.data_parallel_size,
        worker@.kv_events_endpoints == selection_backend::texts_by_rank(
            worker.kv_events_endpoints@,
        ),
        worker.replay_endpoint is Some ==> worker@.replay_endpoint == Some(
            worker.replay_endpoint->0@,
        ),
        worker@.total_kv_blocks == worker.total_kv_blocks,
        worker@.max_num_batched_tokens == worker.max_num_batched_tokens,
        worker.stable_routing_id is Some ==> worker@.stable_routing_id == Some(
            worker.stable_routing_id->0@,
        ),
        select@.tenant_id == select.tenant_id@,
        select@.model_name == select.model_name@,
        select.selection_id is Some ==> select@.selection_id == Some(select.selection_id->0@),
        select.reservation_id is Some ==> select@.reservation_id == Some(select.reservation_id->0@),
        select.token_ids is Some ==> select@.token_ids == Some(select.token_ids->0@),
        select.allowed_worker_ids is Some ==> select@.allowed_worker_ids == Some(
            select.allowed_worker_ids->0@,
        ),
        select@.priority_jump == select.priority_jump,
        select@.strict_priority == select.strict_priority,
        (EmbeddedStep::Upsert { worker_id, request: worker })@ == EmbeddedStepView::Upsert(
            worker_id,
            worker@,
        ),
        (EmbeddedStep::Delete { worker_id })@ == EmbeddedStepView::Delete(worker_id),
        EmbeddedStep::Done@ == EmbeddedStepView::Done,
{
}

} // verus!
