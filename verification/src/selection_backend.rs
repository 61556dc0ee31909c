//! What the router and the selection service exchange.
//!
//! Router-only mode can reach the selector two ways: over HTTP, as a thin client of
//! one or more selection-service replicas, or embedded, calling an in-process
//! selection core. Both speak the plain types defined here.

use std::collections::{HashMap, HashSet};

use vstd::prelude::*;

use crate::collections;
use crate::collections::ascending_hash_ranks;
use crate::text;
use crate::text::{same_optional_text, same_text};

verus! {

/// The characters of the texts under each rank.
pub open spec fn texts_by_rank(m: Map<u32, String>) -> Map<u32, Seq<char>> {
    Map::new(|rank: u32| m.contains_key(rank), |rank: u32| m[rank]@)
}

/// Whether two maps hold the same texts under the same ranks.
pub(crate) fn same_texts_by_rank(a: &HashMap<u32, String>, b: &HashMap<u32, String>) -> (r: bool)
    ensures
        r == (texts_by_rank(a@) == texts_by_rank(b@)),
{
    proof {
        lemma_within_both_ways(a@, b@);
    }
    texts_within(a, b) && texts_within(b, a)
}

spec fn within(a: Map<u32, String>, b: Map<u32, String>) -> bool {
    forall|rank: u32| #[trigger]
        a.contains_key(rank) ==> b.contains_key(rank) && a[rank]@ == b[rank]@
}

proof fn lemma_within_both_ways(a: Map<u32, String>, b: Map<u32, String>)
    ensures
        within(a, b) && within(b, a) <==> texts_by_rank(a) == texts_by_rank(b),
{
    let (x, y) = (texts_by_rank(a), texts_by_rank(b));
    if within(a, b) && within(b, a) {
        assert(x =~= y);
    }
    if x == y {
        assert forall|rank: u32| a.contains_key(rank) implies #[trigger] b.contains_key(rank)
            && a[rank]@ == b[rank]@ by {
            assert(x.contains_key(rank));
            assert(y.contains_key(rank) && x[rank] == y[rank]);
        }
        assert forall|rank: u32| b.contains_key(rank) implies #[trigger] a.contains_key(rank)
            && a[rank]@ == b[rank]@ by {
            assert(y.contains_key(rank));
            assert(x.contains_key(rank) && x[rank] == y[rank]);
        }
    }
}

fn texts_within(a: &HashMap<u32, String>, b: &HashMap<u32, String>) -> (r: bool)
    ensures
        r == within(a@, b@),
{
    let ranks = ascending_hash_ranks(a);
    let mut i: usize = 0;
    while i < ranks.len()
        invariant
            i <= ranks.len(),
            ranks@.to_set() == a@.dom(),
            forall|j: int|
                0 <= j < i ==> b@.contains_key(#[trigger] ranks@[j]) && a@[ranks@[j]]@
                    == b@[ranks@[j]]@,
        decreases ranks.len() - i,
    {
        let rank: u32 = ranks[i];
        proof {
            assert(ranks@.to_set().contains(rank));
            assert(a@.contains_key(rank));
        }
        match (a.get(&rank), b.get(&rank)) {
            (Some(x), Some(y)) => {
                if !same_text(x.as_str(), y.as_str()) {
                    return false;
                }
            },
            _ => {
                return false;
            },
        }
        i = i + 1;
    }
    proof {
        assert forall|rank: u32| a@.contains_key(rank) implies #[trigger] b@.contains_key(rank)
            && a@[rank]@ == b@[rank]@ by {
            assert(ranks@.to_set().contains(rank));
            let j = choose|j: int| 0 <= j < ranks@.len() && ranks@[j] == rank;
            assert(b@.contains_key(ranks@[j]));
        }
    }
    true
}

/// Worker registration payload (`POST /workers`). Only the fields router-only mode
/// populates are here; the selector defaults the rest.
#[derive(Debug)]
pub struct WorkerRegistration {
    pub worker_id: u64,
    pub model_name: String,
    pub endpoint: String,
    pub block_size: u32,
    pub data_parallel_size: u32,
    pub kv_events_endpoints: HashMap<u32, String>,
    pub replay_endpoint: Option<String>,
    pub total_kv_blocks: Option<u64>,
    pub max_num_batched_tokens: Option<u64>,
    pub stable_routing_id: Option<String>,
}

/// What a [`WorkerRegistration`] says.
#[verifier::ext_equal]
pub struct WorkerRegistrationView {
    pub worker_id: u64,
    pub model_name: Seq<char>,
    pub endpoint: Seq<char>,
    pub block_size: u32,
    pub data_parallel_size: u32,
    pub kv_events_endpoints: Map<u32, Seq<char>>,
    pub replay_endpoint: Option<Seq<char>>,
    pub total_kv_blocks: Option<u64>,
    pub max_num_batched_tokens: Option<u64>,
    pub stable_routing_id: Option<Seq<char>>,
}

impl View for WorkerRegistration {
    type V = WorkerRegistrationView;

    open spec fn view(&self) -> WorkerRegistrationView {
        WorkerRegistrationView {
            worker_id: self.worker_id,
            model_name: self.model_name@,
            endpoint: self.endpoint@,
            block_size: self.block_size,
            data_parallel_size: self.data_parallel_size,
            kv_events_endpoints: texts_by_rank(self.kv_events_endpoints@),
            replay_endpoint: text::optional_text(self.replay_endpoint),
            total_kv_blocks: self.total_kv_blocks,
            max_num_batched_tokens: self.max_num_batched_tokens,
            stable_routing_id: text::optional_text(self.stable_routing_id),
        }
    }
}

impl Clone for WorkerRegistration {
    fn clone(&self) -> (r: WorkerRegistration)
        ensures
            r@ == self@,
    {
        WorkerRegistration {
            worker_id: self.worker_id,
            model_name: self.model_name.clone(),
            endpoint: self.endpoint.clone(),
            block_size: self.block_size,
            data_parallel_size: self.data_parallel_size,
            kv_events_endpoints: self.kv_events_endpoints.clone(),
            replay_endpoint: self.replay_endpoint.clone(),
            total_kv_blocks: self.total_kv_blocks,
            max_num_batched_tokens: self.max_num_batched_tokens,
            stable_routing_id: self.stable_routing_id.clone(),
        }
    }
}

impl PartialEq for WorkerRegistration {
    fn eq(&self, other: &WorkerRegistration) -> (r: bool) {
        let r = self.worker_id == other.worker_id && same_text(
            self.model_name.as_str(),
            other.model_name.as_str(),
        ) && same_text(self.endpoint.as_str(), other.endpoint.as_str()) && self.block_size
            == other.block_size && self.data_parallel_size == other.data_parallel_size
            && same_texts_by_rank(&self.kv_events_endpoints, &other.kv_events_endpoints)
            && same_optional_text(&self.replay_endpoint, &other.replay_endpoint)
            && self.total_kv_blocks == other.total_kv_blocks && self.max_num_batched_tokens
            == other.max_num_batched_tokens && same_optional_text(
            &self.stable_routing_id,
            &other.stable_routing_id,
        );
        proof {
            assert(r == (self@ == other@));
        }
        r
    }
}

impl vstd::std_specs::cmp::PartialEqSpecImpl for WorkerRegistration {
    open spec fn obeys_eq_spec() -> bool {
        true
    }

    open spec fn eq_spec(&self, other: &WorkerRegistration) -> bool {
        self@ == other@
    }
}

impl Eq for WorkerRegistration {

}

/// What the registration of each worker says.
pub open spec fn registration_views(desired: Map<u64, WorkerRegistration>) -> Map<
    u64,
    WorkerRegistrationView,
> {
    Map::new(|worker: u64| desired.contains_key(worker), |worker: u64| desired[worker]@)
}

/// Partial worker update (`PATCH /workers/{id}`). Any `Some` field is applied.
#[derive(Debug, Clone)]
pub struct WorkerPatch {
    pub endpoint: Option<String>,
    pub kv_events_endpoints: Option<HashMap<u32, String>>,
    pub replay_endpoint: Option<String>,
    pub total_kv_blocks: Option<u64>,
    pub stable_routing_id: Option<String>,
}

impl Default for WorkerPatch {
    fn default() -> (r: WorkerPatch)
        ensures
            r.endpoint is None,
            r.kv_events_endpoints is None,
            r.replay_endpoint is None,
            r.total_kv_blocks is None,
            r.stable_routing_id is None,
    {
        WorkerPatch {
            endpoint: None,
            kv_events_endpoints: None,
            replay_endpoint: None,
            total_kv_blocks: None,
            stable_routing_id: None,
        }
    }
}

/// Select-and-reserve request (`POST /select_and_reserve`). Selection and booking
/// are one operation: the selector picks a worker and books the request's load
/// against it under `reservation_id`. Prompt fields are sent flat; sending raw
/// `token_ids` lets the selector compute block and sequence hashes.
#[derive(Debug, Clone)]
pub struct SelectRequest {
    pub model_name: String,
    pub selection_id: Option<String>,
    /// Booking key. The gateway request id serves, so that releasing the booking
    /// later needs no extra map. Without one the selector generates its own.
    pub reservation_id: Option<String>,
    pub token_ids: Vec<u32>,
    pub allowed_worker_ids: Option<HashSet<u64>>,
    /// Priority jump, as the bits of a double-precision number.
    pub priority_jump: Option<u64>,
    pub strict_priority: Option<u32>,
}

/// The members of an optional set of ids.
pub open spec fn optional_ids(ids: Option<HashSet<u64>>) -> Option<Set<u64>> {
    match ids {
        Some(s) => Some(s@),
        None => None,
    }
}

/// What a [`SelectRequest`] says.
#[verifier::ext_equal]
pub struct SelectRequestView {
    pub model_name: Seq<char>,
    pub selection_id: Option<Seq<char>>,
    pub reservation_id: Option<Seq<char>>,
    pub token_ids: Seq<u32>,
    pub allowed_worker_ids: Option<Set<u64>>,
    pub priority_jump: Option<u64>,
    pub strict_priority: Option<u32>,
}

impl View for SelectRequest {
    type V = SelectRequestView;

    open spec fn view(&self) -> SelectRequestView {
        SelectRequestView {
            model_name: self.model_name@,
            selection_id: text::optional_text(self.selection_id),
            reservation_id: text::optional_text(self.reservation_id),
            token_ids: self.token_ids@,
            allowed_worker_ids: optional_ids(self.allowed_worker_ids),
            priority_jump: self.priority_jump,
            strict_priority: self.strict_priority,
        }
    }
}

/// Raw observability overlap summary (matched token counts).
#[derive(Debug, Clone, Copy, PartialEq, Eq, Structural)]
pub struct OverlapSummary {
    pub longest_matched: u32,
    pub gpu: u32,
    pub cpu: u32,
    pub disk: u32,
}

impl Default for OverlapSummary {
    fn default() -> (r: OverlapSummary)
        ensures
            r == (OverlapSummary { longest_matched: 0, gpu: 0, cpu: 0, disk: 0 }),
    {
        OverlapSummary { longest_matched: 0, gpu: 0, cpu: 0, disk: 0 }
    }
}

/// Selection result returned by `/select_and_reserve`.
#[derive(Debug, Clone)]
pub struct SelectResponse {
    pub selection_id: Option<String>,
    /// The booking key the selector recorded: the request's `reservation_id`, or
    /// the selector-generated one when it was omitted.
    pub reservation_id: Option<String>,
    pub worker_id: u64,
    pub dp_rank: u32,
    pub endpoint: String,
    pub block_size: u32,
    pub overlap: OverlapSummary,
    pub effective_prefill_tokens: usize,
}

/// What a [`SelectResponse`] says.
#[verifier::ext_equal]
pub struct SelectResponseView {
    pub selection_id: Option<Seq<char>>,
    pub reservation_id: Option<Seq<char>>,
    pub worker_id: u64,
    pub dp_rank: u32,
    pub endpoint: Seq<char>,
    pub block_size: u32,
    pub overlap: OverlapSummary,
    pub effective_prefill_tokens: usize,
}

impl View for SelectResponse {
    type V = SelectResponseView;

    open spec fn view(&self) -> SelectResponseView {
        SelectResponseView {
            selection_id: text::optional_text(self.selection_id),
            reservation_id: text::optional_text(self.reservation_id),
            worker_id: self.worker_id,
            dp_rank: self.dp_rank,
            endpoint: self.endpoint@,
            block_size: self.block_size,
            overlap: self.overlap,
            effective_prefill_tokens: self.effective_prefill_tokens,
        }
    }
}

// ---------------------------------------------------------------------------
// Laws
// ---------------------------------------------------------------------------

/// The texts by rank are the texts under those ranks.
pub proof fn texts_by_rank_are_the_texts(m: Map<u32, String>, rank: u32)
    ensures
        texts_by_rank(m).contains_key(rank) <==> m.contains_key(rank),
        m.contains_key(rank) ==> texts_by_rank(m)[rank] == m[rank]@,
{
}

/// What a registration says is what it holds.
pub proof fn registration_says_what_it_holds(registration: WorkerRegistration, rank: u32)
    ensures
        registration@.worker_id == registration.worker_id,
        registration@.model_name == registration.model_name@,
        registration@.endpoint == registration.endpoint@,
        registration@.block_size == registration.block_size,
        registration@.data_parallel_size == registration.data_parallel_size,
        registration@.kv_events_endpoints.contains_key(rank)
            <==> registration.kv_events_endpoints@.contains_key(rank),
        registration.kv_events_endpoints@.contains_key(rank)
            ==> registration@.kv_events_endpoints[rank]
            == registration.kv_events_endpoints@[rank]@,
        registration@.replay_endpoint is Some <==> registration.replay_endpoint is Some,
        registration.replay_endpoint is Some ==> registration@.replay_endpoint->0
            == registration.replay_endpoint->0@,
        registration@.total_kv_blocks == registration.total_kv_blocks,
        registration@.max_num_batched_tokens == registration.max_num_batched_tokens,
        registration@.stable_routing_id is Some <==> registration.stable_routing_id is Some,
        registration.stable_routing_id is Some ==> registration@.stable_routing_id->0
            == registration.stable_routing_id->0@,
{
}

/// Registrations are equal exactly when every field is, down to the text under each rank.
pub proof fn equal_registrations_agree_on_every_field(
    a: WorkerRegistration,
    b: WorkerRegistration,
)
    ensures
        vstd::std_specs::cmp::PartialEqSpec::eq_spec(&a, &b) <==> {
            &&& a.worker_id == b.worker_id
            &&& a.model_name@ == b.model_name@
            &&& a.endpoint@ == b.endpoint@
            &&& a.block_size == b.block_size
            &&& a.data_parallel_size == b.data_parallel_size
            &&& forall|rank: u32| #[trigger]
                a.kv_events_endpoints@.contains_key(rank) ==> b.kv_events_endpoints@.contains_key(
                    rank,
                )
            &&& forall|rank: u32| #[trigger]
                b.kv_events_endpoints@.contains_key(rank) ==> a.kv_events_endpoints@.contains_key(
                    rank,
                ) && a.kv_events_endpoints@[rank]@ == b.kv_events_endpoints@[rank]@
            &&& a.replay_endpoint is Some <==> b.replay_endpoint is Some
            &&& a.replay_endpoint is Some ==> a.replay_endpoint->0@ == b.replay_endpoint->0@
            &&& a.total_kv_blocks == b.total_kv_blocks
            &&& a.max_num_batched_tokens == b.max_num_batched_tokens
            &&& a.stable_routing_id is Some <==> b.stable_routing_id is Some
            &&& a.stable_routing_id is Some ==> a.stable_routing_id->0@ == b.stable_routing_id->0@
        },
{
    lemma_within_both_ways(a.kv_events_endpoints@, b.kv_events_endpoints@);
    let (x, y) = (a.kv_events_endpoints@, b.kv_events_endpoints@);
    if texts_by_rank(x) == texts_by_rank(y) {
        assert(within(x, y) && within(y, x));
    }
    if (forall|rank: u32| #[trigger] x.contains_key(rank) ==> y.contains_key(rank)) && (forall|
        rank: u32,
    | #[trigger]
        y.contains_key(rank) ==> x.contains_key(rank) && x[rank]@ == y[rank]@) {
        assert(within(x, y) && within(y, x));
    }
}

/// What a request and a response say is what they hold.
pub proof fn selection_says_what_it_holds(request: SelectRequest, response: SelectResponse)
    ensures
        request@.model_name == request.model_name@,
        request@.selection_id is Some <==> request.selection_id is Some,
        request.selection_id is Some ==> request@.selection_id->0 == request.selection_id->0@,
        request@.reservation_id is Some <==> request.reservation_id is Some,
        request.reservation_id is Some ==> request@.reservation_id->0
            == request.reservation_id->0@,
        request@.token_ids == request.token_ids@,
        request@.allowed_worker_ids is Some <==> request.allowed_worker_ids is Some,
        request.allowed_worker_ids is Some ==> request@.allowed_worker_ids->0
            == request.allowed_worker_ids->0@,
        request@.priority_jump == request.priority_jump,
        request@.strict_priority == request.strict_priority,
        response@.selection_id is Some <==> response.selection_id is Some,
        response.selection_id is Some ==> response@.selection_id->0 == response.selection_id->0@,
        response@.reservation_id is Some <==> response.reservation_id is Some,
        response.reservation_id is Some ==> response@.reservation_id->0
            == response.reservation_id->0@,
        response@.worker_id == response.worker_id,
        response@.dp_rank == response.dp_rank,
        response@.endpoint == response.endpoint@,
        response@.block_size == response.block_size,
        response@.overlap == response.overlap,
        response@.effective_prefill_tokens == response.effective_prefill_tokens,
{
}

/// The registrations of a catalog are seen worker by worker.
pub proof fn registrations_are_seen_by_worker(
    desired: Map<u64, WorkerRegistration>,
    worker: u64,
)
    ensures
        registration_views(desired).contains_key(worker) <==> desired.contains_key(worker),
        desired.contains_key(worker) ==> registration_views(desired)[worker] == desired[worker]@,
{
}

} // verus!
