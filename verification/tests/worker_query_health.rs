use std::collections::{BTreeSet, HashMap};

use dynamo_serving::worker_query_health::{
    expected_query_endpoints, HealthEvaluation, KvEventSourceHealthMonitor, MismatchReport,
    ModelRuntimeConfig, ERROR_REPEAT_INTERVAL, HEALTH_CHECK_INTERVAL, REGISTRATION_GRACE_PERIOD,
};

const SECOND: u64 = 1_000_000_000;
const START: u64 = 1_000 * SECOND;

fn worker_config(data_parallel_start_rank: u32, data_parallel_size: u32) -> ModelRuntimeConfig {
    ModelRuntimeConfig {
        data_parallel_start_rank,
        data_parallel_size,
        enable_local_indexer: true,
    }
}

#[test]
fn missing_endpoint_matures_after_grace_and_repeats_once_per_minute() {
    let mut monitor = KvEventSourceHealthMonitor::default();
    let configs = HashMap::from([(7, worker_config(0, 1))]);
    let discovered = BTreeSet::new();
    let now = START;

    assert_eq!(
        monitor.evaluate(now, &configs, &discovered),
        HealthEvaluation::default()
    );

    let matured = monitor.evaluate(now + REGISTRATION_GRACE_PERIOD, &configs, &discovered);
    assert_eq!(matured.mismatch_worker_count, 1);
    assert_eq!(
        matured.reports,
        vec![MismatchReport {
            worker_id: 7,
            missing_dp_ranks: vec![0],
        }]
    );

    let quiet = monitor.evaluate(
        now + REGISTRATION_GRACE_PERIOD + SECOND,
        &configs,
        &discovered,
    );
    assert_eq!(quiet.mismatch_worker_count, 1);
    assert!(quiet.reports.is_empty());

    let repeated = monitor.evaluate(
        now + REGISTRATION_GRACE_PERIOD + ERROR_REPEAT_INTERVAL,
        &configs,
        &discovered,
    );
    assert_eq!(repeated.reports.len(), 1);
}

#[test]
fn endpoint_registered_during_grace_never_reports() {
    let mut monitor = KvEventSourceHealthMonitor::default();
    let configs = HashMap::from([(7, worker_config(0, 1))]);
    let mut discovered = BTreeSet::new();
    let now = START;

    monitor.evaluate(now, &configs, &discovered);
    discovered.insert((7, 0));

    let evaluation = monitor.evaluate(
        now + REGISTRATION_GRACE_PERIOD + SECOND,
        &configs,
        &discovered,
    );
    assert_eq!(evaluation, HealthEvaluation::default());
}

#[test]
fn partial_dp_registration_reports_missing_rank_then_recovers() {
    let mut monitor = KvEventSourceHealthMonitor::default();
    let configs = HashMap::from([(7, worker_config(3, 2))]);
    let mut discovered = BTreeSet::from([(7, 3)]);
    let now = START;

    monitor.evaluate(now, &configs, &discovered);
    let partial = monitor.evaluate(now + REGISTRATION_GRACE_PERIOD, &configs, &discovered);
    assert_eq!(
        partial.reports,
        vec![MismatchReport {
            worker_id: 7,
            missing_dp_ranks: vec![4],
        }]
    );

    discovered.insert((7, 4));
    let recovered = monitor.evaluate(
        now + REGISTRATION_GRACE_PERIOD + SECOND,
        &configs,
        &discovered,
    );
    assert_eq!(recovered.mismatch_worker_count, 0);
    assert_eq!(recovered.recovered_workers, vec![7]);
}

#[test]
fn worker_removal_clears_active_mismatch() {
    let mut monitor = KvEventSourceHealthMonitor::default();
    let mut configs = HashMap::from([(7, worker_config(0, 1))]);
    let discovered = BTreeSet::new();
    let now = START;

    monitor.evaluate(now, &configs, &discovered);
    let matured = monitor.evaluate(now + REGISTRATION_GRACE_PERIOD, &configs, &discovered);
    assert_eq!(matured.mismatch_worker_count, 1);

    configs.clear();
    let recovered = monitor.evaluate(
        now + REGISTRATION_GRACE_PERIOD + SECOND,
        &configs,
        &discovered,
    );
    assert_eq!(recovered.mismatch_worker_count, 0);
    assert_eq!(recovered.recovered_workers, vec![7]);
}

#[test]
fn workers_without_local_indexers_are_not_expected_to_register() {
    let mut monitor = KvEventSourceHealthMonitor::default();
    let mut config = worker_config(0, 1);
    config.enable_local_indexer = false;
    let configs = HashMap::from([(7, config)]);
    let discovered = BTreeSet::new();
    let now = START;

    monitor.evaluate(now, &configs, &discovered);
    let evaluation = monitor.evaluate(
        now + REGISTRATION_GRACE_PERIOD + SECOND,
        &configs,
        &discovered,
    );
    assert_eq!(evaluation, HealthEvaluation::default());
}

#[test]
fn health_intervals_are_in_nanoseconds() {
    assert_eq!(REGISTRATION_GRACE_PERIOD, 10 * SECOND);
    assert_eq!(ERROR_REPEAT_INTERVAL, 60 * SECOND);
    assert_eq!(HEALTH_CHECK_INTERVAL, SECOND);
}

#[test]
fn expected_endpoints_stop_where_ranks_end() {
    let configs = HashMap::from([
        (1, worker_config(u32::MAX - 1, 5)),
        (2, worker_config(0, 0)),
        (3, worker_config(2, 2)),
    ]);
    assert_eq!(
        expected_query_endpoints(&configs),
        BTreeSet::from([(1, u32::MAX - 1), (1, u32::MAX), (3, 2), (3, 3)])
    );
}

#[test]
fn changed_ranks_are_reported_at_once() {
    let mut monitor = KvEventSourceHealthMonitor::default();
    let configs = HashMap::from([(9, worker_config(0, 3)), (4, worker_config(0, 1))]);
    let mut discovered = BTreeSet::new();
    monitor.evaluate(START, &configs, &discovered);
    let first = monitor.evaluate(START + REGISTRATION_GRACE_PERIOD, &configs, &discovered);
    assert_eq!(
        first.reports,
        vec![
            MismatchReport { worker_id: 4, missing_dp_ranks: vec![0] },
            MismatchReport { worker_id: 9, missing_dp_ranks: vec![0, 1, 2] },
        ]
    );
    assert_eq!(first.mismatch_worker_count, 2);
    discovered.insert((9, 1));
    let second = monitor.evaluate(
        START + REGISTRATION_GRACE_PERIOD + SECOND,
        &configs,
        &discovered,
    );
    assert_eq!(
        second.reports,
        vec![MismatchReport { worker_id: 9, missing_dp_ranks: vec![0, 2] }]
    );
    assert_eq!(second.recovered_workers, Vec::<u64>::new());
}

#[test]
fn registering_once_restarts_the_grace_period() {
    let mut monitor = KvEventSourceHealthMonitor::default();
    let configs = HashMap::from([(7, worker_config(0, 1))]);
    let nobody = BTreeSet::new();
    let there = BTreeSet::from([(7, 0)]);
    monitor.evaluate(START, &configs, &nobody);
    monitor.evaluate(START + 5 * SECOND, &configs, &there);
    assert_eq!(
        monitor.evaluate(START + 12 * SECOND, &configs, &nobody),
        HealthEvaluation::default()
    );
    assert_eq!(
        monitor
            .evaluate(START + 22 * SECOND, &configs, &nobody)
            .mismatch_worker_count,
        1
    );
}

#[test]
fn repeated_check_at_one_instant_is_silent() {
    let mut monitor = KvEventSourceHealthMonitor::default();
    let configs = HashMap::from([(7, worker_config(0, 1))]);
    let discovered = BTreeSet::new();
    monitor.evaluate(START, &configs, &discovered);
    let at = START + REGISTRATION_GRACE_PERIOD;
    assert_eq!(monitor.evaluate(at, &configs, &discovered).reports.len(), 1);
    let again = monitor.evaluate(at, &configs, &discovered);
    assert!(again.reports.is_empty());
    assert!(again.recovered_workers.is_empty());
    assert_eq!(again.mismatch_worker_count, 1);
}

#[test]
fn clock_that_goes_back_counts_as_no_time() {
    let mut monitor = KvEventSourceHealthMonitor::default();
    let configs = HashMap::from([(7, worker_config(0, 1))]);
    let discovered = BTreeSet::new();
    monitor.evaluate(START, &configs, &discovered);
    assert_eq!(
        monitor.evaluate(0, &configs, &discovered),
        HealthEvaluation::default()
    );
}

#[test]
fn recovery_is_named_only_once() {
    let mut monitor = KvEventSourceHealthMonitor::default();
    let configs = HashMap::from([(7, worker_config(0, 1))]);
    let nobody = BTreeSet::new();
    let there = BTreeSet::from([(7, 0)]);
    monitor.evaluate(START, &configs, &nobody);
    monitor.evaluate(START + REGISTRATION_GRACE_PERIOD, &configs, &nobody);
    let at = START + REGISTRATION_GRACE_PERIOD + SECOND;
    assert_eq!(monitor.evaluate(at, &configs, &there).recovered_workers, vec![7]);
    assert_eq!(
        monitor.evaluate(at + SECOND, &configs, &there),
        HealthEvaluation::default()
    );
}

/// The ranks of worker 7 that are missing at the last of some checks and at every check
/// since one at least a grace period earlier.
fn overdue_ranks(checks: &[(u64, BTreeSet<(u64, u32)>)]) -> Vec<u32> {
    let now = checks.last().unwrap().0;
    (0..3)
        .filter(|rank| {
            (0..checks.len()).any(|i| {
                now - checks[i].0 >= REGISTRATION_GRACE_PERIOD
                    && checks[i..].iter().all(|(_, there)| !there.contains(&(7, *rank)))
            })
        })
        .collect()
}

#[test]
fn history_decides_what_is_reported() {
    let configs = HashMap::from([(7, worker_config(0, 3))]);
    let mut monitor = KvEventSourceHealthMonitor::default();
    let mut checks: Vec<(u64, BTreeSet<(u64, u32)>)> = vec![];
    // (step, ranks that are registered)
    let script: Vec<(u64, Vec<u32>)> = vec![
        (0, vec![2]),
        (4, vec![2]),
        (6, vec![2]),
        (1, vec![1, 2]),
        (30, vec![2]),
        (29, vec![2]),
        (1, vec![2]),
        (60, vec![2]),
        (3, vec![0, 1, 2]),
        (9, vec![0]),
        (2, vec![]),
        (10, vec![]),
        (61, vec![]),
        (5, vec![0, 1, 2]),
        (5, vec![0, 1, 2]),
    ];
    let mut now = START;
    let mut reported: Vec<Option<Vec<u32>>> = vec![];
    for (step, there) in script {
        now += step * SECOND;
        let there: BTreeSet<(u64, u32)> = there.into_iter().map(|rank| (7, rank)).collect();
        let before = if checks.is_empty() { vec![] } else { overdue_ranks(&checks) };
        checks.push((now, there.clone()));
        let ranks = overdue_ranks(&checks);
        let n = checks.len();
        let kept_quiet = (0..n - 1).any(|i| {
            reported[i].is_some()
                && now - checks[i].0 < ERROR_REPEAT_INTERVAL
                && (i..n).all(|j| overdue_ranks(&checks[..j + 1]) == ranks)
        });
        let expected = if ranks.is_empty() || kept_quiet { None } else { Some(ranks.clone()) };

        let evaluation = monitor.evaluate(now, &configs, &there);
        assert_eq!(evaluation.mismatch_worker_count, usize::from(!ranks.is_empty()));
        assert_eq!(
            evaluation.reports.first().map(|r| r.missing_dp_ranks.clone()),
            expected,
            "check {n}"
        );
        assert_eq!(
            evaluation.recovered_workers == vec![7],
            !before.is_empty() && ranks.is_empty()
        );
        reported.push(expected);
    }
    assert!(reported.iter().flatten().count() >= 5);
}
