use std::collections::{HashMap, HashSet};

use dynamo_serving::embedded_selector::{
    freed, select_request, select_response, worker_request, CoreSelectResponse, DeleteOutcome,
    EmbeddedCatalog, EmbeddedStep, DEFAULT_TENANT,
};
use dynamo_serving::selection_backend::{SelectRequest, WorkerRegistration};

fn registration(worker_id: u64, block_size: u32) -> WorkerRegistration {
    WorkerRegistration {
        worker_id,
        model_name: "m".to_string(),
        endpoint: "http://h:1".to_string(),
        block_size,
        data_parallel_size: 2,
        kv_events_endpoints: HashMap::from([(1, "tcp://h:1".to_string())]),
        replay_endpoint: Some("tcp://h:2".to_string()),
        total_kv_blocks: Some(5),
        max_num_batched_tokens: Some(6),
        stable_routing_id: Some("s".to_string()),
    }
}

fn desired(ids: &[u64]) -> HashMap<u64, WorkerRegistration> {
    ids.iter().map(|id| (*id, registration(*id, 16))).collect()
}

#[test]
fn worker_request_carries_the_registration() {
    let core = worker_request(&registration(7, 16));
    assert_eq!(core.worker_id, 7);
    assert_eq!(core.model_name, "m");
    assert_eq!(core.tenant_id, "default");
    assert_eq!(core.tenant_id, DEFAULT_TENANT);
    assert_eq!(core.endpoint.as_deref(), Some("http://h:1"));
    assert_eq!(core.block_size, Some(16));
    assert_eq!(core.data_parallel_size, Some(2));
    assert_eq!(core.kv_events_endpoints[&1], "tcp://h:1");
    assert_eq!(core.replay_endpoint.as_deref(), Some("tcp://h:2"));
    assert_eq!(core.total_kv_blocks, Some(5));
    assert_eq!(core.max_num_batched_tokens, Some(6));
    assert_eq!(core.stable_routing_id.as_deref(), Some("s"));
}

#[test]
fn core_select_request_carries_the_request() {
    let core = select_request(&SelectRequest {
        model_name: "m".to_string(),
        selection_id: Some("s".to_string()),
        reservation_id: Some("r".to_string()),
        token_ids: vec![3, 1],
        allowed_worker_ids: Some(HashSet::from([5, 4])),
        priority_jump: Some(1.5f64.to_bits()),
        strict_priority: Some(2),
    });
    assert_eq!(core.tenant_id, DEFAULT_TENANT);
    assert_eq!(core.model_name, "m");
    assert_eq!(core.selection_id.as_deref(), Some("s"));
    assert_eq!(core.reservation_id.as_deref(), Some("r"));
    assert_eq!(core.token_ids, Some(vec![3, 1]));
    assert_eq!(core.allowed_worker_ids, Some(HashSet::from([4, 5])));
    assert_eq!(core.priority_jump.map(f64::from_bits), Some(1.5));
    assert_eq!(core.strict_priority, Some(2));
}

#[test]
fn core_selection_is_handed_on() {
    let response = select_response(CoreSelectResponse {
        selection_id: None,
        reservation_id: Some("r".to_string()),
        worker_id: 1,
        dp_rank: 2,
        endpoint: "e".to_string(),
        block_size: 3,
        longest_matched: 4,
        gpu: 5,
        cpu: 6,
        disk: 7,
        effective_prefill_tokens: 8,
    });
    assert_eq!(response.reservation_id.as_deref(), Some("r"));
    assert_eq!((response.worker_id, response.dp_rank, response.block_size), (1, 2, 3));
    assert_eq!(response.overlap.longest_matched, 4);
    assert_eq!(response.overlap.gpu, 5);
    assert_eq!(response.overlap.cpu, 6);
    assert_eq!(response.overlap.disk, 7);
    assert_eq!(response.effective_prefill_tokens, 8);
}

/// Run reconciling with a core that accepts everything; returns what was done.
fn settle(catalog: &mut EmbeddedCatalog, want: &HashMap<u64, WorkerRegistration>) -> Vec<String> {
    let mut done = vec![];
    loop {
        match catalog.next_step(want) {
            EmbeddedStep::Upsert { worker_id, request } => {
                assert_eq!(request.worker_id, worker_id);
                catalog.upserted(want, worker_id);
                done.push(format!("+{worker_id}"));
            }
            EmbeddedStep::Delete { worker_id } => {
                assert!(catalog.deleted(worker_id, DeleteOutcome::Deleted));
                done.push(format!("-{worker_id}"));
            }
            EmbeddedStep::Done => return done,
        }
    }
}

#[test]
fn embedded_reconcile_settles_and_rests() {
    let mut catalog = EmbeddedCatalog::new();
    assert!(matches!(catalog.next_step(&desired(&[])), EmbeddedStep::Done));
    assert_eq!(settle(&mut catalog, &desired(&[2, 1])), vec!["+1", "+2"]);
    assert!(settle(&mut catalog, &desired(&[1, 2])).is_empty());
    let mut changed = desired(&[2, 3]);
    changed.insert(2, registration(2, 32));
    assert_eq!(settle(&mut catalog, &changed), vec!["+2", "+3", "-1"]);
    assert!(settle(&mut catalog, &changed).is_empty());
    assert_eq!(settle(&mut catalog, &desired(&[])), vec!["-2", "-3"]);
}

#[test]
fn embedded_reconcile_retries_what_failed() {
    let mut catalog = EmbeddedCatalog::new();
    settle(&mut catalog, &desired(&[1]));
    let nobody = desired(&[]);
    assert!(!catalog.deleted(1, DeleteOutcome::Failed));
    assert!(matches!(
        catalog.next_step(&nobody),
        EmbeddedStep::Delete { worker_id: 1 }
    ));
    // A worker that the core never held is as good as deleted.
    assert!(catalog.deleted(1, DeleteOutcome::NotFound));
    assert!(matches!(catalog.next_step(&nobody), EmbeddedStep::Done));
    // An upsert of a worker that is not desired records nothing.
    catalog.upserted(&nobody, 4);
    assert!(matches!(catalog.next_step(&nobody), EmbeddedStep::Done));
}

#[test]
fn unknown_reservation_counts_as_freed() {
    assert!(freed(DeleteOutcome::Deleted));
    assert!(freed(DeleteOutcome::NotFound));
    assert!(!freed(DeleteOutcome::Failed));
}
