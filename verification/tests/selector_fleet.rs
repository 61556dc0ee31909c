use std::collections::{BTreeSet, HashMap};

use dynamo_serving::epp_config::{EppConfig, SelectorBackendMode};
use dynamo_serving::peer_mesh::{PeerOp, PeerOpKind};
use dynamo_serving::replica_catalog::{
    index_records, is_gone, is_success, plan_replica, record_matches, CatalogRecordWire,
    ReplicaCall, ReplicaRun, Verdict,
};
use dynamo_serving::selection_backend::WorkerRegistration;
use dynamo_serving::selector_fleet::{
    http_base, label_selector, prefill_complete_url, ready_ips, require_service, reservation_url,
    route, service_namespace, worker_url, zmq_endpoint, Endpoint, EndpointConditions,
    EndpointSlice, FleetError, ReplicaSet, SERVICE_NAME_LABEL,
};

fn reg(ip: &str) -> WorkerRegistration {
    let mut kv = HashMap::new();
    kv.insert(0u32, format!("tcp://{ip}:5557"));
    WorkerRegistration {
        worker_id: 1,
        model_name: "Qwen/Qwen3-0.6B".to_string(),
        endpoint: format!("http://{ip}:8000"),
        block_size: 16,
        data_parallel_size: 1,
        kv_events_endpoints: kv,
        replay_endpoint: None,
        total_kv_blocks: Some(1000),
        max_num_batched_tokens: None,
        stable_routing_id: Some("vllm-0".to_string()),
    }
}

fn record_from(reg: &WorkerRegistration) -> CatalogRecordWire {
    CatalogRecordWire {
        worker_id: reg.worker_id,
        model_name: reg.model_name.clone(),
        endpoint: Some(reg.endpoint.clone()),
        kv_events_endpoints: reg.kv_events_endpoints.clone(),
        replay_endpoint: reg.replay_endpoint.clone(),
        block_size: Some(reg.block_size),
        data_parallel_size: Some(reg.data_parallel_size),
        max_num_batched_tokens: reg.max_num_batched_tokens,
        total_kv_blocks: reg.total_kv_blocks,
        stable_routing_id: reg.stable_routing_id.clone(),
    }
}

#[test]
fn record_matches_identical() {
    let r = reg("10.0.0.1");
    assert!(record_matches(&r, &record_from(&r)));
}

#[test]
fn record_mismatch_on_endpoint() {
    let r = reg("10.0.0.1");
    let mut actual = record_from(&r);
    actual.endpoint = Some("http://10.0.0.9:8000".to_string());
    assert!(!record_matches(&r, &actual));
}

#[test]
fn record_mismatch_when_missing_metadata() {
    let r = reg("10.0.0.1");
    let mut actual = record_from(&r);
    actual.block_size = None;
    assert!(!record_matches(&r, &actual));
}

fn slice(endpoints: Vec<Endpoint>) -> EndpointSlice {
    EndpointSlice { endpoints }
}

fn endpoint(addr: &str, terminating: Option<bool>) -> Endpoint {
    Endpoint {
        addresses: vec![addr.to_string()],
        conditions: Some(EndpointConditions {
            ready: Some(true),
            serving: Some(true),
            terminating,
        }),
    }
}

#[test]
fn ready_ips_collects_non_terminating() {
    let s = slice(vec![
        endpoint("10.0.0.1", None),
        endpoint("10.0.0.2", Some(false)),
        endpoint("10.0.0.3", Some(true)), // terminating -> excluded
    ]);
    let ips = ready_ips(&vec![s]);
    assert_eq!(ips, vec!["10.0.0.1".to_string(), "10.0.0.2".to_string()]);
}

#[test]
fn ready_ips_are_ordered_once_and_not_empty() {
    let mut not_ready = endpoint("10.0.0.10", None);
    not_ready.conditions = Some(EndpointConditions {
        ready: Some(false),
        serving: None,
        terminating: None,
    });
    let bare = Endpoint {
        addresses: vec!["".to_string(), "10.0.0.9".to_string(), "10.0.0.10".to_string()],
        conditions: None,
    };
    let ips = ready_ips(&vec![
        slice(vec![not_ready]),
        slice(vec![bare, endpoint("10.0.0.9", Some(true))]),
    ]);
    // Text order, so "10.0.0.10" comes before "10.0.0.9".
    assert_eq!(ips, vec!["10.0.0.10".to_string(), "10.0.0.9".to_string()]);
    assert!(ready_ips(&vec![]).is_empty());
}

#[test]
fn record_fields_all_count() {
    let r = reg("10.0.0.1");
    let changes: Vec<fn(&mut CatalogRecordWire)> = vec![
        |a| a.model_name = "other".to_string(),
        |a| a.endpoint = None,
        |a| a.block_size = Some(32),
        |a| a.data_parallel_size = None,
        |a| a.kv_events_endpoints.clear(),
        |a| {
            a.kv_events_endpoints.insert(1, "tcp://x:1".to_string());
        },
        |a| {
            a.kv_events_endpoints.insert(0, "tcp://x:1".to_string());
        },
        |a| a.replay_endpoint = Some("tcp://r:1".to_string()),
        |a| a.total_kv_blocks = None,
        |a| a.max_num_batched_tokens = Some(1),
        |a| a.stable_routing_id = None,
    ];
    for change in changes {
        let mut actual = record_from(&r);
        change(&mut actual);
        assert!(!record_matches(&r, &actual), "{actual:?}");
    }
    // The id a record is filed under is not compared.
    let mut actual = record_from(&r);
    actual.worker_id = 99;
    assert!(record_matches(&r, &actual));
}

#[test]
fn replica_set_follows_the_live_replicas() {
    let mut set = ReplicaSet::new();
    assert!(!set.any_ready());
    assert_eq!(set.target(), None);

    let first = set.sync(&vec![slice(vec![endpoint("b", None), endpoint("a", None)])]);
    assert_eq!(first.added, vec!["a".to_string(), "b".to_string()]);
    assert!(first.removed.is_empty());
    assert_eq!(first.all, vec!["a".to_string(), "b".to_string()]);
    assert_eq!(set.target(), None);

    set.record("b", Some(true));
    assert_eq!(set.target(), Some("b".to_string()));
    set.record("a", Some(true));
    assert_eq!(set.target(), Some("a".to_string()));
    assert!(set.any_ready());

    // A replica that stays keeps its routability; a new one starts unroutable.
    let second = set.sync(&vec![slice(vec![endpoint("b", None), endpoint("0", None)])]);
    assert_eq!(second.added, vec!["0".to_string()]);
    assert_eq!(second.removed, vec!["a".to_string()]);
    assert_eq!(second.all, vec!["0".to_string(), "b".to_string()]);
    assert_eq!(set.ips(), second.all);
    assert_eq!(set.target(), Some("b".to_string()));

    // A failed reconcile makes it unroutable; an unknown replica stays unknown.
    set.record("b", None);
    set.record("a", Some(true));
    assert!(!set.any_ready());
}

#[test]
fn repeated_sync_changes_nothing() {
    let slices = vec![slice(vec![endpoint("a", None), endpoint("b", None)])];
    let mut set = ReplicaSet::new();
    set.sync(&slices);
    set.record("a", Some(true));
    let again = set.sync(&slices);
    assert!(again.added.is_empty());
    assert!(again.removed.is_empty());
    assert!(again.peer_ops(9092).is_empty());
    assert_eq!(set.target(), Some("a".to_string()));
}

fn op(ip: &str, kind: PeerOpKind, peer: &str) -> PeerOp {
    PeerOp {
        ip: ip.to_string(),
        kind,
        peer_endpoint: format!("tcp://{peer}:9092"),
    }
}

#[test]
fn peer_mesh_is_wired_for_the_change() {
    let mut set = ReplicaSet::new();
    let first = set.sync(&vec![slice(vec![endpoint("a", None), endpoint("g", None)])]);
    assert_eq!(
        first.peer_ops(9092),
        vec![
            op("g", PeerOpKind::Register, "a"),
            op("a", PeerOpKind::Register, "g"),
            op("a", PeerOpKind::Register, "g"),
            op("g", PeerOpKind::Register, "a"),
        ]
    );
    let second = set.sync(&vec![slice(vec![endpoint("a", None), endpoint("b", None)])]);
    assert_eq!(
        second.peer_ops(9092),
        vec![
            op("a", PeerOpKind::Register, "b"),
            op("b", PeerOpKind::Register, "a"),
            op("a", PeerOpKind::Deregister, "g"),
            op("b", PeerOpKind::Deregister, "g"),
        ]
    );
    assert_eq!(PeerOpKind::Register.as_str(), "register_peer");
    assert_eq!(PeerOpKind::Deregister.as_str(), "deregister_peer");
}

#[test]
fn full_mesh_stays_full() {
    let mut set = ReplicaSet::new();
    let mut mesh: BTreeSet<(String, String)> = BTreeSet::new();
    for live in [vec!["a", "b", "c"], vec!["b", "c", "d"], vec!["d"], vec!["a", "d"]] {
        let endpoints = live.iter().map(|ip| endpoint(ip, None)).collect();
        let sync = set.sync(&vec![slice(endpoints)]);
        for op in sync.peer_ops(7) {
            let pair = (op.ip, op.peer_endpoint);
            match op.kind {
                PeerOpKind::Register => {
                    mesh.insert(pair);
                }
                PeerOpKind::Deregister => {
                    mesh.remove(&pair);
                }
            }
        }
        mesh.retain(|(ip, _)| live.contains(&ip.as_str()));
        let mut full = BTreeSet::new();
        for a in &live {
            for b in &live {
                if a != b {
                    full.insert((a.to_string(), format!("tcp://{b}:7")));
                }
            }
        }
        assert_eq!(mesh, full);
    }
}

#[test]
fn addresses_are_formatted() {
    assert_eq!(http_base("10.0.0.1", 8092), "http://10.0.0.1:8092");
    assert_eq!(zmq_endpoint("10.0.0.1", 0), "tcp://10.0.0.1:0");
    assert_eq!(route("http://h:1", "/workers"), "http://h:1/workers");
    assert_eq!(
        worker_url("http://h:1", 18446744073709551615),
        "http://h:1/workers/18446744073709551615"
    );
    assert_eq!(reservation_url("http://h:1", "req-1"), "http://h:1/reservations/req-1");
    assert_eq!(
        prefill_complete_url("http://h:1", "req-1"),
        "http://h:1/reservations/req-1/prefill_complete"
    );
}

#[test]
fn statuses_are_judged() {
    assert!(!is_success(199));
    assert!(is_success(200));
    assert!(is_success(299));
    assert!(!is_success(300));
    assert!(!is_success(404));
    assert!(is_gone(404));
    assert!(is_gone(204));
    assert!(!is_gone(500));
}

fn desired(ids: &[u64]) -> HashMap<u64, WorkerRegistration> {
    ids.iter()
        .map(|id| {
            let mut r = reg(&format!("10.0.0.{id}"));
            r.worker_id = *id;
            (*id, r)
        })
        .collect()
}

#[test]
fn last_record_of_a_worker_counts() {
    let a = record_from(&reg("10.0.0.1"));
    let mut b = a.clone();
    b.model_name = "later".to_string();
    let mut c = a.clone();
    c.worker_id = 2;
    let index = index_records(vec![a, b, c]);
    assert_eq!(index.len(), 2);
    assert_eq!(index[&1].model_name, "later");
    assert_eq!(index[&2].model_name, "Qwen/Qwen3-0.6B");
}

#[test]
fn plan_upserts_then_deletes_then_probes() {
    let want = desired(&[3, 1, 2]);
    let mut outdated = record_from(&want[&2]);
    outdated.block_size = Some(1);
    let mut extra = record_from(&want[&3]);
    extra.worker_id = 9;
    let actual = index_records(vec![record_from(&want[&1]), outdated, extra]);
    assert_eq!(
        plan_replica(&want, &actual),
        vec![
            ReplicaCall::Upsert { worker_id: 2 },
            ReplicaCall::Upsert { worker_id: 3 },
            ReplicaCall::Delete { worker_id: 9 },
            ReplicaCall::Ready,
        ]
    );
    // In sync: only the probe. From scratch: everything.
    let in_sync = index_records(want.values().map(record_from).collect());
    assert_eq!(plan_replica(&want, &in_sync), vec![ReplicaCall::Ready]);
    assert_eq!(plan_replica(&want, &HashMap::new()).len(), 4);
}

#[test]
fn replica_run_makes_every_call() {
    let want = desired(&[1]);
    let mut stale = record_from(&want[&1]);
    stale.worker_id = 5;
    let mut run = ReplicaRun::start(&want, Some(vec![stale.clone()]));
    assert_eq!(run.next_call(), Some(ReplicaCall::Upsert { worker_id: 1 }));
    run.answer(Some(201), false);
    assert_eq!(run.next_call(), Some(ReplicaCall::Delete { worker_id: 5 }));
    run.answer(Some(404), false); // already gone
    assert_eq!(run.next_call(), Some(ReplicaCall::Ready));
    assert_eq!(run.verdict(), Verdict::Running);
    run.answer(Some(200), true);
    assert_eq!(run.verdict(), Verdict::Finished { routable: true });
    assert_eq!(run.verdict().outcome(), Some(true));
    assert_eq!(run.next_call(), None);
    run.answer(Some(500), false);
    assert_eq!(run.verdict(), Verdict::Finished { routable: true });
}

#[test]
fn replica_run_stops_at_a_failure() {
    let want = desired(&[1]);
    let mut refused = ReplicaRun::start(&want, Some(vec![]));
    refused.answer(Some(404), true); // only a deletion may find nothing
    assert_eq!(refused.verdict(), Verdict::Failed);
    assert_eq!(refused.verdict().outcome(), None);

    let mut silent = ReplicaRun::start(&HashMap::new(), Some(vec![record_from(&want[&1])]));
    assert_eq!(silent.next_call(), Some(ReplicaCall::Delete { worker_id: 1 }));
    silent.answer(None, true);
    assert_eq!(silent.verdict(), Verdict::Failed);

    assert_eq!(ReplicaRun::start(&want, None).verdict(), Verdict::Failed);
}

#[test]
fn probe_decides_routability() {
    for (status, ready, routable) in [
        (Some(200), true, true),
        (Some(200), false, false),
        (Some(503), true, false),
        (None, true, false),
    ] {
        let mut run = ReplicaRun::start(&HashMap::new(), Some(vec![]));
        assert_eq!(run.next_call(), Some(ReplicaCall::Ready));
        run.answer(status, ready);
        assert_eq!(run.verdict(), Verdict::Finished { routable });
    }
}

fn config(service: &str, namespace: Option<&str>) -> EppConfig {
    EppConfig {
        mode: SelectorBackendMode::Http,
        selector_service: service.to_string(),
        selector_service_namespace: namespace.map(|s| s.to_string()),
        selector_http_port: 8092,
        selector_replica_sync_port: 9092,
        selector_threads: 4,
        pool_name: "p".to_string(),
        pool_namespace: None,
        model_name: "m".to_string(),
        block_size: 16,
        kv_event_port: 5557,
        kv_event_topic: String::new(),
        replay_port: None,
        data_parallel_size: 1,
        total_kv_blocks: None,
        max_num_batched_tokens: None,
    }
}

#[test]
fn watched_service_is_named() {
    assert_eq!(require_service(&config("", None)), Err(FleetError::MissingService));
    assert_eq!(require_service(&config("sel", None)), Ok(()));
    assert_eq!(
        service_namespace(&config("sel", Some("cfg")), Some("pod".to_string())),
        Ok("cfg".to_string())
    );
    assert_eq!(
        service_namespace(&config("sel", None), Some("pod".to_string())),
        Ok("pod".to_string())
    );
    assert_eq!(
        service_namespace(&config("sel", None), None),
        Err(FleetError::MissingNamespace)
    );
    assert_eq!(SERVICE_NAME_LABEL, "kubernetes.io/service-name");
    assert_eq!(
        label_selector(&config("sel", None)),
        "kubernetes.io/service-name=sel"
    );
}
