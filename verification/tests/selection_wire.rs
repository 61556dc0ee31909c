use std::collections::{HashMap, HashSet};

use dynamo_serving::replica_catalog::{record_matches, CatalogRecordWire};
use dynamo_serving::selection_backend::{
    OverlapSummary, SelectRequest, SelectResponse, WorkerPatch, WorkerRegistration,
};
use dynamo_serving::selection_wire::{is_ready, peer_body, records_from_value};
use dynamo_serving::wire::ProtocolError;
use serde_json::Value;

fn json(s: &str) -> Value {
    serde_json::from_str(s).unwrap()
}

fn number(bits: u64) -> Value {
    Value::from(f64::from_bits(bits))
}

#[test]
fn worker_registration_serializes_expected_fields() {
    let mut kv = HashMap::new();
    kv.insert(0u32, "tcp://10.0.0.1:5557".to_string());
    let req = WorkerRegistration {
        worker_id: 42,
        model_name: "Qwen/Qwen3-0.6B".to_string(),
        endpoint: "http://10.0.0.1:8000".to_string(),
        block_size: 16,
        data_parallel_size: 1,
        kv_events_endpoints: kv,
        replay_endpoint: None,
        total_kv_blocks: None,
        max_num_batched_tokens: None,
        stable_routing_id: Some("vllm-0".to_string()),
    };
    let v: Value = req.to_value();
    assert_eq!(v["worker_id"], 42);
    assert_eq!(v["block_size"], 16);
    assert_eq!(v["kv_events_endpoints"]["0"], "tcp://10.0.0.1:5557");
    assert_eq!(v["stable_routing_id"], "vllm-0");
    assert!(v.get("replay_endpoint").is_none());
    assert!(v.get("total_kv_blocks").is_none());
}

#[test]
fn select_request_sends_flat_prompt() {
    let req = SelectRequest {
        model_name: "m".to_string(),
        selection_id: Some("s1".to_string()),
        reservation_id: Some("req-42".to_string()),
        token_ids: vec![1, 2, 3],
        allowed_worker_ids: Some(HashSet::from([7u64])),
        priority_jump: None,
        strict_priority: None,
    };
    let v: Value = req.to_value(&number);
    assert_eq!(v["token_ids"], json("[1, 2, 3]"));
    assert_eq!(v["selection_id"], "s1");
    assert_eq!(v["reservation_id"], "req-42");
    assert_eq!(v["allowed_worker_ids"], json("[7]"));
    assert!(v.get("priority_jump").is_none());
}

#[test]
fn select_response_deserializes() {
    let body = json(
        r#"{
        "model_name": "m",
        "tenant_id": "default",
        "worker_id": 9,
        "dp_rank": 0,
        "endpoint": "http://10.0.0.1:8000",
        "block_size": 16,
        "overlap": {"longest_matched": 32, "gpu": 16, "cpu": 0, "disk": 0},
        "effective_prefill_tokens": 64
    }"#,
    );
    let resp: SelectResponse = SelectResponse::from_value(&body).unwrap();
    assert_eq!(resp.worker_id, 9);
    assert_eq!(resp.dp_rank, 0);
    assert_eq!(resp.endpoint, "http://10.0.0.1:8000");
    assert_eq!(resp.effective_prefill_tokens, 64);
    assert_eq!(resp.overlap.longest_matched, 32);
}

fn registration() -> WorkerRegistration {
    WorkerRegistration {
        worker_id: 7,
        model_name: "m".to_string(),
        endpoint: "http://h:1".to_string(),
        block_size: 16,
        data_parallel_size: 2,
        kv_events_endpoints: HashMap::from([
            (0, "tcp://h:1".to_string()),
            (4294967295, "tcp://h:2".to_string()),
        ]),
        replay_endpoint: Some("tcp://h:3".to_string()),
        total_kv_blocks: Some(18446744073709551615),
        max_num_batched_tokens: Some(0),
        stable_routing_id: None,
    }
}

#[test]
fn full_registration_is_written_exactly() {
    assert_eq!(
        registration().to_value(),
        json(
            r#"{
            "worker_id": 7, "model_name": "m", "endpoint": "http://h:1", "block_size": 16,
            "data_parallel_size": 2,
            "kv_events_endpoints": {"0": "tcp://h:1", "4294967295": "tcp://h:2"},
            "replay_endpoint": "tcp://h:3", "total_kv_blocks": 18446744073709551615,
            "max_num_batched_tokens": 0
        }"#
        )
    );
}

#[test]
fn registration_reads_back_as_an_up_to_date_record() {
    let r = registration();
    let record = CatalogRecordWire::from_value(&r.to_value()).unwrap();
    assert!(record_matches(&r, &record));
    assert_eq!(record.worker_id, 7);
    assert_eq!(record.kv_events_endpoints.len(), 2);
}

#[test]
fn full_select_request_is_written_exactly() {
    let req = SelectRequest {
        model_name: "m".to_string(),
        selection_id: None,
        reservation_id: None,
        token_ids: vec![],
        allowed_worker_ids: Some(HashSet::from([30, 4, 100])),
        priority_jump: Some(0.5f64.to_bits()),
        strict_priority: Some(3),
    };
    assert_eq!(
        req.to_value(&number),
        json(
            r#"{"model_name": "m", "token_ids": [], "allowed_worker_ids": [4, 30, 100],
                "priority_jump": 0.5, "strict_priority": 3}"#
        )
    );
}

#[test]
fn records_default_what_is_absent() {
    let record = CatalogRecordWire::from_value(&json(
        r#"{"worker_id": 3, "endpoint": null, "unknown": {"a": 1}}"#,
    ))
    .unwrap();
    assert_eq!(record.worker_id, 3);
    assert_eq!(record.model_name, "");
    assert_eq!(record.endpoint, None);
    assert!(record.kv_events_endpoints.is_empty());
    assert_eq!(record.block_size, None);
    assert_eq!(record.total_kv_blocks, None);
}

#[test]
fn records_are_refused_for_a_reason() {
    let err = |s: &str| CatalogRecordWire::from_value(&json(s)).unwrap_err();
    assert_eq!(err("3"), ProtocolError::NotARecord);
    assert_eq!(err("[]"), ProtocolError::NotARecord);
    assert_eq!(err("{}"), ProtocolError::Missing { field: "worker_id" });
    assert_eq!(err(r#"{"worker_id": -1}"#), ProtocolError::Invalid { field: "worker_id" });
    assert_eq!(
        err(r#"{"worker_id": 1, "block_size": 4294967296}"#),
        ProtocolError::Invalid { field: "block_size" }
    );
    assert_eq!(
        err(r#"{"worker_id": 1, "model_name": null}"#),
        ProtocolError::Invalid { field: "model_name" }
    );
    for key in ["01", "+1", "-0", "1.0", "4294967296", "x", "", " 1"] {
        let doc = format!(r#"{{"worker_id": 1, "kv_events_endpoints": {{"{key}": "a"}}}}"#);
        assert_eq!(err(&doc), ProtocolError::Invalid { field: "kv_events_endpoints" }, "{key}");
    }
    assert_eq!(
        err(r#"{"worker_id": 1, "kv_events_endpoints": {"0": 1}}"#),
        ProtocolError::Invalid { field: "kv_events_endpoints" }
    );
}

#[test]
fn records_may_come_as_arrays() {
    let record = CatalogRecordWire::from_value(&json(r#"[5, "m"]"#)).unwrap();
    assert_eq!(record.worker_id, 5);
    assert_eq!(record.model_name, "m");
    assert_eq!(record.endpoint, None);
}

#[test]
fn worker_listings_are_read_whole_or_not_at_all() {
    let records = records_from_value(&json(r#"[{"worker_id": 2}, {"worker_id": 1}]"#)).unwrap();
    assert_eq!(records.iter().map(|r| r.worker_id).collect::<Vec<_>>(), vec![2, 1]);
    assert!(records_from_value(&json(r#"[{"worker_id": 2}, {}]"#)).is_none());
    assert!(records_from_value(&json(r#"{"worker_id": 2}"#)).is_none());
}

#[test]
fn readiness_is_read() {
    assert!(is_ready(&json(r#"{"ready": true, "x": 1}"#)));
    assert!(!is_ready(&json(r#"{"ready": false}"#)));
    assert!(!is_ready(&json("{}")));
    assert!(!is_ready(&json(r#"{"ready": "true"}"#)));
    assert!(!is_ready(&json("true")));
    assert!(is_ready(&json("[true]")));
    assert!(!is_ready(&json("[]")));
    assert!(!is_ready(&json("[true, 1]")));
}

#[test]
fn peer_body_names_the_endpoint() {
    assert_eq!(peer_body("tcp://h:1"), json(r#"{"endpoint": "tcp://h:1"}"#));
}

#[test]
fn selections_default_what_is_absent() {
    let resp = SelectResponse::from_value(&json(
        r#"{"worker_id": 1, "dp_rank": 2, "endpoint": "e", "block_size": 3,
            "reservation_id": "r", "selection_id": null, "overlap": {"gpu": 4}}"#,
    ))
    .unwrap();
    assert_eq!(resp.reservation_id.as_deref(), Some("r"));
    assert_eq!(resp.selection_id, None);
    assert_eq!(resp.effective_prefill_tokens, 0);
    assert_eq!(
        resp.overlap,
        OverlapSummary { longest_matched: 0, gpu: 4, cpu: 0, disk: 0 }
    );
    assert_eq!(OverlapSummary::default().disk, 0);
    let listed = SelectResponse::from_value(&json(r#"[null, "r", 1, 2, "e", 3]"#)).unwrap();
    assert_eq!(listed.endpoint, "e");
    assert_eq!(listed.overlap, OverlapSummary::default());
}

#[test]
fn selections_are_refused_for_a_reason() {
    let err = |s: &str| SelectResponse::from_value(&json(s)).unwrap_err();
    assert_eq!(err("null"), ProtocolError::NotARecord);
    assert_eq!(err("{}"), ProtocolError::Missing { field: "worker_id" });
    assert_eq!(err(r#"{"worker_id": 1}"#), ProtocolError::Missing { field: "dp_rank" });
    assert_eq!(
        err(r#"{"worker_id": 1, "dp_rank": 0}"#),
        ProtocolError::Missing { field: "endpoint" }
    );
    assert_eq!(
        err(r#"{"worker_id": 1, "dp_rank": 0, "endpoint": "e"}"#),
        ProtocolError::Missing { field: "block_size" }
    );
    assert_eq!(
        err(r#"{"worker_id": 1, "dp_rank": 0, "endpoint": "e", "block_size": 1, "overlap": null}"#),
        ProtocolError::Invalid { field: "overlap" }
    );
    assert_eq!(
        err(r#"{"worker_id": 1, "dp_rank": 1.5}"#),
        ProtocolError::Invalid { field: "dp_rank" }
    );
}

#[test]
fn registrations_compare_by_content() {
    let a = registration();
    let mut b = a.clone();
    assert!(a == b);
    b.kv_events_endpoints.remove(&0);
    assert!(a != b);
    let mut c = a.clone();
    c.replay_endpoint = None;
    assert!(a != c);
}

#[test]
fn empty_patch_changes_nothing() {
    let patch = WorkerPatch::default();
    assert!(patch.endpoint.is_none());
    assert!(patch.kv_events_endpoints.is_none());
    assert!(patch.replay_endpoint.is_none());
    assert!(patch.total_kv_blocks.is_none());
    assert!(patch.stable_routing_id.is_none());
    assert_eq!(patch.to_value(), json("{}"));
}

#[test]
fn patch_carries_what_is_set() {
    let patch = WorkerPatch {
        endpoint: Some("http://h:2".to_string()),
        kv_events_endpoints: Some(HashMap::from([(3, "tcp://h:3".to_string())])),
        replay_endpoint: None,
        total_kv_blocks: Some(9),
        stable_routing_id: Some("s".to_string()),
    };
    assert_eq!(
        patch.to_value(),
        json(
            r#"{"endpoint": "http://h:2", "kv_events_endpoints": {"3": "tcp://h:3"},
                "total_kv_blocks": 9, "stable_routing_id": "s"}"#
        )
    );
}
