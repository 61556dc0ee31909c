use std::collections::HashMap;

use dynamo_serving::epp_config::{
    default_mode, opt_parse, require, require_parse, ConfigError, EppConfig, EppMode,
    SelectorBackendMode, DEFAULT_DATA_PARALLEL_SIZE, DEFAULT_KV_EVENT_PORT,
    DEFAULT_SELECTOR_HTTP_PORT, DEFAULT_SELECTOR_REPLICA_SYNC_PORT, DEFAULT_SELECTOR_THREADS,
    DYN_EPP_MODE, FULL_DYNAMO_STACK_MODE, ROUTER_ONLY_MODE,
};
use dynamo_serving::text::NumberError;

/// Build an injectable env getter from key/value pairs: no process-global env
/// mutation, so these tests are isolated and parallel-safe.
fn getter(pairs: &[(&str, &str)]) -> impl Fn(&str) -> Option<String> {
    let map: HashMap<String, String> =
        pairs.iter().map(|(k, v)| (k.to_string(), v.to_string())).collect();
    move |k: &str| map.get(k).cloned()
}

fn parse_mode(pairs: &[(&str, &str)]) -> Result<EppMode, ConfigError> {
    EppMode::parse(&getter(pairs))
}

fn parse_cfg(pairs: &[(&str, &str)]) -> Result<EppConfig, ConfigError> {
    EppConfig::parse(&getter(pairs))
}

const BASE: [(&str, &str); 4] = [
    ("DYN_EPP_SELECTOR_SERVICE", "dynamo-selector"),
    ("DYN_EPP_POOL_NAME", "vllm-qwen-pool"),
    ("DYN_MODEL_NAME", "Qwen/Qwen3-0.6B"),
    ("DYN_KV_CACHE_BLOCK_SIZE", "16"),
];

fn with(extra: &[(&'static str, &'static str)]) -> Vec<(&'static str, &'static str)> {
    let mut pairs: Vec<(&'static str, &'static str)> = BASE
        .iter()
        .filter(|(k, _)| extra.iter().all(|(e, _)| e != k))
        .copied()
        .collect();
    pairs.extend_from_slice(extra);
    pairs
}

#[test]
fn mode_defaults_to_full_when_unset() {
    assert_eq!(parse_mode(&[]).unwrap(), EppMode::FullDynamoStack);
}

#[test]
fn mode_parses_known_values() {
    assert_eq!(
        parse_mode(&[("DYN_EPP_MODE", "router-only")]).unwrap(),
        EppMode::RouterOnly
    );
    assert_eq!(
        parse_mode(&[("DYN_EPP_MODE", "full-dynamo-stack")]).unwrap(),
        EppMode::FullDynamoStack
    );
}

#[test]
fn mode_rejects_unknown_value() {
    // A typo must fail fast, not silently boot full-dynamo mode.
    assert!(parse_mode(&[("DYN_EPP_MODE", "router_only")]).is_err());
}

#[test]
fn parses_required_and_defaults() {
    let cfg = parse_cfg(&[
        ("DYN_EPP_SELECTOR_SERVICE", "dynamo-selector"),
        ("DYN_EPP_POOL_NAME", "vllm-qwen-pool"),
        ("DYN_MODEL_NAME", "Qwen/Qwen3-0.6B"),
        ("DYN_KV_CACHE_BLOCK_SIZE", "16"),
    ])
    .expect("config should parse");
    assert_eq!(cfg.selector_service, "dynamo-selector");
    assert!(cfg.selector_service_namespace.is_none());
    assert_eq!(cfg.selector_http_port, DEFAULT_SELECTOR_HTTP_PORT);
    assert_eq!(
        cfg.selector_replica_sync_port,
        DEFAULT_SELECTOR_REPLICA_SYNC_PORT
    );
    assert_eq!(cfg.selector_threads, DEFAULT_SELECTOR_THREADS);
    assert_eq!(cfg.pool_name, "vllm-qwen-pool");
    assert!(cfg.pool_namespace.is_none());
    assert_eq!(cfg.model_name, "Qwen/Qwen3-0.6B");
    assert_eq!(cfg.block_size, 16);
    assert_eq!(cfg.kv_event_port, DEFAULT_KV_EVENT_PORT);
    assert_eq!(cfg.data_parallel_size, 1);
    assert!(cfg.replay_port.is_none());
    assert!(cfg.total_kv_blocks.is_none());
}

#[test]
fn pool_namespace_is_parsed_when_set() {
    let cfg = parse_cfg(&[
        ("DYN_EPP_SELECTOR_SERVICE", "dynamo-selector"),
        ("DYN_EPP_POOL_NAME", "vllm-qwen-pool"),
        ("DYN_EPP_POOL_NAMESPACE", "inference"),
        ("DYN_MODEL_NAME", "Qwen/Qwen3-0.6B"),
        ("DYN_KV_CACHE_BLOCK_SIZE", "16"),
    ])
    .expect("config should parse");
    assert_eq!(cfg.pool_namespace.as_deref(), Some("inference"));
}

#[test]
fn embedded_mode_does_not_require_service() {
    let cfg = parse_cfg(&[
        ("DYN_EPP_SELECTOR_MODE", "embedded"),
        ("DYN_EPP_POOL_NAME", "vllm-qwen-pool"),
        ("DYN_MODEL_NAME", "Qwen/Qwen3-0.6B"),
        ("DYN_KV_CACHE_BLOCK_SIZE", "16"),
    ])
    .expect("embedded config should parse without a service");
    assert_eq!(cfg.mode, SelectorBackendMode::Embedded);
    assert!(cfg.selector_service.is_empty());
    assert_eq!(cfg.selector_threads, DEFAULT_SELECTOR_THREADS);
}

#[test]
fn invalid_selector_mode_fails() {
    assert!(parse_cfg(&[
        ("DYN_EPP_SELECTOR_MODE", "grpc"),
        ("DYN_EPP_POOL_NAME", "vllm-qwen-pool"),
        ("DYN_MODEL_NAME", "Qwen/Qwen3-0.6B"),
        ("DYN_KV_CACHE_BLOCK_SIZE", "16"),
    ])
    .is_err());
}

#[test]
fn missing_pool_name_fails() {
    assert!(parse_cfg(&[
        ("DYN_EPP_SELECTOR_SERVICE", "dynamo-selector"),
        ("DYN_MODEL_NAME", "Qwen/Qwen3-0.6B"),
        ("DYN_KV_CACHE_BLOCK_SIZE", "16"),
    ])
    .is_err());
}

#[test]
fn missing_selector_service_fails_in_http_mode() {
    // Pin http mode so this holds regardless of which selector backend is built in
    // (the default mode depends on that).
    assert!(parse_cfg(&[
        ("DYN_EPP_SELECTOR_MODE", "http"),
        ("DYN_EPP_POOL_NAME", "vllm-qwen-pool"),
        ("DYN_MODEL_NAME", "Qwen/Qwen3-0.6B"),
        ("DYN_KV_CACHE_BLOCK_SIZE", "16"),
    ])
    .is_err());
}

#[test]
fn zero_block_size_fails() {
    assert!(parse_cfg(&[
        ("DYN_EPP_SELECTOR_SERVICE", "dynamo-selector"),
        ("DYN_EPP_POOL_NAME", "vllm-qwen-pool"),
        ("DYN_MODEL_NAME", "Qwen/Qwen3-0.6B"),
        ("DYN_KV_CACHE_BLOCK_SIZE", "0"),
    ])
    .is_err());
}

#[test]
fn mode_constants_name_the_modes() {
    assert_eq!(DYN_EPP_MODE, "DYN_EPP_MODE");
    assert_eq!(
        parse_mode(&[(DYN_EPP_MODE, ROUTER_ONLY_MODE)]).unwrap(),
        EppMode::RouterOnly
    );
    assert_eq!(
        parse_mode(&[(DYN_EPP_MODE, FULL_DYNAMO_STACK_MODE)]).unwrap(),
        EppMode::FullDynamoStack
    );
}

#[test]
fn mode_error_carries_the_trimmed_value() {
    match parse_mode(&[("DYN_EPP_MODE", "  router_only\t")]) {
        Err(ConfigError::InvalidMode { value }) => assert_eq!(value, "router_only"),
        other => panic!("unexpected {other:?}"),
    }
}

#[test]
fn blank_values_count_as_unset() {
    assert_eq!(
        parse_mode(&[("DYN_EPP_MODE", " \u{3000}\n")]).unwrap(),
        EppMode::FullDynamoStack
    );
    let cfg = parse_cfg(&with(&[
        ("DYN_EPP_SELECTOR_HTTP_PORT", "   "),
        ("DYN_EPP_POOL_NAMESPACE", ""),
        ("DYN_EPP_KV_EVENT_TOPIC", " kv "),
    ]))
    .unwrap();
    assert_eq!(cfg.selector_http_port, 8092);
    assert_eq!(cfg.pool_namespace, None);
    assert_eq!(cfg.kv_event_topic, "kv");
}

#[test]
fn padding_never_changes_the_configuration() {
    let plain = parse_cfg(&with(&[("DYN_EPP_REPLAY_PORT", "9000")])).unwrap();
    let padded = parse_cfg(&with(&[
        ("DYN_EPP_REPLAY_PORT", "\t9000 "),
        ("DYN_MODEL_NAME", "  Qwen/Qwen3-0.6B\n"),
        ("DYN_KV_CACHE_BLOCK_SIZE", " 16"),
    ]))
    .unwrap();
    assert_eq!(plain.replay_port, Some(9000));
    assert_eq!(padded.replay_port, Some(9000));
    assert_eq!(padded.model_name, plain.model_name);
    assert_eq!(padded.block_size, plain.block_size);
}

#[test]
fn every_setting_is_read() {
    let cfg = parse_cfg(&with(&[
        ("DYN_EPP_SELECTOR_MODE", "http"),
        ("DYN_EPP_SELECTOR_SERVICE_NAMESPACE", "ns-a"),
        ("DYN_EPP_SELECTOR_HTTP_PORT", "1"),
        ("DYN_EPP_SELECTOR_REPLICA_SYNC_PORT", "65535"),
        ("DYN_EPP_SELECTOR_THREADS", "+7"),
        ("DYN_EPP_KV_EVENT_PORT", "0"),
        ("DYN_EPP_REPLAY_PORT", "5558"),
        ("DYN_DATA_PARALLEL_SIZE", "3"),
        ("DYN_TOTAL_KV_BLOCKS", "18446744073709551615"),
        ("DYN_MAX_NUM_BATCHED_TOKENS", "0"),
    ]))
    .unwrap();
    assert_eq!(cfg.mode, SelectorBackendMode::Http);
    assert_eq!(cfg.selector_service_namespace.as_deref(), Some("ns-a"));
    assert_eq!(cfg.selector_http_port, 1);
    assert_eq!(cfg.selector_replica_sync_port, 65535);
    assert_eq!(cfg.selector_threads, 7);
    assert_eq!(cfg.kv_event_port, 0);
    assert_eq!(cfg.replay_port, Some(5558));
    assert_eq!(cfg.data_parallel_size, 3);
    assert_eq!(cfg.total_kv_blocks, Some(u64::MAX));
    assert_eq!(cfg.max_num_batched_tokens, Some(0));
    assert_eq!(DEFAULT_DATA_PARALLEL_SIZE, 1);
}

#[test]
fn each_config_fault_is_named() {
    assert!(matches!(
        parse_cfg(&with(&[("DYN_EPP_SELECTOR_MODE", "grpc")])),
        Err(ConfigError::InvalidSelectorMode { value }) if value == "grpc"
    ));
    assert!(matches!(
        parse_cfg(&with(&[("DYN_EPP_SELECTOR_SERVICE", " ")])),
        Err(ConfigError::MissingSelectorService)
    ));
    assert!(matches!(
        parse_cfg(&with(&[("DYN_MODEL_NAME", "")])),
        Err(ConfigError::Missing { key }) if key == "DYN_MODEL_NAME"
    ));
    match parse_cfg(&with(&[("DYN_EPP_REPLAY_PORT", "65536")])) {
        Err(ConfigError::InvalidNumber { key, value, reason }) => {
            assert_eq!(key, "DYN_EPP_REPLAY_PORT");
            assert_eq!(value, "65536");
            assert_eq!(reason, NumberError::TooLarge);
            assert_eq!(reason.message(), "number too large to fit in target type");
        }
        other => panic!("unexpected {other:?}"),
    }
    assert!(matches!(
        parse_cfg(&with(&[("DYN_KV_CACHE_BLOCK_SIZE", "0")])),
        Err(ConfigError::Zero { key }) if key == "DYN_KV_CACHE_BLOCK_SIZE"
    ));
    assert!(matches!(
        parse_cfg(&with(&[("DYN_DATA_PARALLEL_SIZE", "0")])),
        Err(ConfigError::Zero { key }) if key == "DYN_DATA_PARALLEL_SIZE"
    ));
}

#[test]
fn first_fault_in_reading_order_wins() {
    assert!(matches!(
        parse_cfg(&[
            ("DYN_EPP_SELECTOR_SERVICE", "s"),
            ("DYN_EPP_SELECTOR_THREADS", "many"),
            ("DYN_KV_CACHE_BLOCK_SIZE", "0"),
        ]),
        Err(ConfigError::InvalidNumber { key, value, reason: NumberError::InvalidDigit })
            if key == "DYN_EPP_SELECTOR_THREADS" && value == "many"
    ));
    assert!(matches!(
        parse_cfg(&[
            ("DYN_EPP_SELECTOR_SERVICE", "s"),
            ("DYN_KV_CACHE_BLOCK_SIZE", "0"),
            ("DYN_EPP_KV_EVENT_PORT", "x"),
        ]),
        Err(ConfigError::Missing { key }) if key == "DYN_EPP_POOL_NAME"
    ));
}

#[test]
fn default_mode_follows_the_build() {
    assert_eq!(default_mode(true), SelectorBackendMode::Http);
    assert_eq!(default_mode(false), SelectorBackendMode::Embedded);
    let cfg = EppConfig::parse_for_build(
        &getter(&[
            ("DYN_EPP_POOL_NAME", "p"),
            ("DYN_MODEL_NAME", "m"),
            ("DYN_KV_CACHE_BLOCK_SIZE", "4"),
        ]),
        false,
    )
    .unwrap();
    assert_eq!(cfg.mode, SelectorBackendMode::Embedded);
}

#[test]
fn single_settings_are_read_on_their_own() {
    let get = getter(&[("A", " 12 "), ("B", "x"), ("C", "4294967296")]);
    assert_eq!(require(&get, "A").unwrap(), "12");
    assert!(matches!(require(&get, "Z"), Err(ConfigError::Missing { key }) if key == "Z"));
    assert_eq!(require_parse::<u16, _>(&get, "A").unwrap(), 12);
    assert_eq!(opt_parse::<u64, _>(&get, "C").unwrap(), Some(4294967296));
    assert!(opt_parse::<u32, _>(&get, "C").is_err());
    assert_eq!(opt_parse::<usize, _>(&get, "Z").unwrap(), None);
    assert!(require_parse::<u32, _>(&get, "B").is_err());
    assert!(require_parse::<u32, _>(&get, "Z").is_err());
}
