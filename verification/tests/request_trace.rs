use std::collections::HashMap;

use dynamo_serving::request_trace;
use dynamo_serving::request_trace::{
    compression_from_name, destinations_from_names, env_u64, env_usize, ignored_file_compression,
    ignored_file_format, ignored_names, ignored_settings, is_enabled, load,
    load_destinations, load_from_env, parse_destination_names, parse_file_compression,
    parse_file_format, push_destination, RequestTraceDestination, RequestTraceFileCompression,
    RequestTraceFileFormat, RequestTracePolicy, DEFAULT_FILE_PATH,
};
use dynamo_serving::telemetry::{is_affirmative, is_truthy, parse_sink_names};

fn getter(overrides: &[(&'static str, &'static str)]) -> impl Fn(&str) -> Option<String> {
    let map: HashMap<&'static str, &'static str> = overrides.iter().copied().collect();
    move |name: &str| map.get(name).map(|value| value.to_string())
}

fn with_request_trace_env<F>(overrides: &[(&'static str, &'static str)], test: F)
where
    F: FnOnce(RequestTracePolicy),
{
    test(load_from_env(&getter(overrides)));
}

#[test]
fn master_switch_enables_default_file_destination_and_path() {
    with_request_trace_env(&[(request_trace::DYN_REQUEST_TRACE, "1")], |policy| {
        assert!(policy.enabled);
        assert_eq!(policy.destinations, vec![RequestTraceDestination::File]);
        assert_eq!(policy.file_path.as_deref(), Some(DEFAULT_FILE_PATH));
        assert_eq!(policy.file_format, RequestTraceFileFormat::Jsonl);
        assert_eq!(policy.file_compression, RequestTraceFileCompression::Gzip);
    });
}

#[test]
fn master_switch_yields_to_new_destination_overrides() {
    with_request_trace_env(
        &[
            (request_trace::DYN_REQUEST_TRACE, "1"),
            (request_trace::DYN_REQUEST_TRACE_DESTINATIONS, "file,stderr"),
            (request_trace::DYN_REQUEST_TRACE_FILE_PATH, "/tmp/custom-request-trace"),
            (request_trace::DYN_REQUEST_TRACE_FILE_COMPRESSION, "none"),
            (request_trace::DYN_REQUEST_TRACE_FILE_ROLL_LINES, "10"),
            (
                request_trace::DYN_REQUEST_TRACE_TOOL_EVENTS_ZMQ_ENDPOINT,
                "tcp://127.0.0.1:9999",
            ),
        ],
        |policy| {
            assert_eq!(
                policy.destinations,
                vec![
                    RequestTraceDestination::File,
                    RequestTraceDestination::Stderr
                ]
            );
            assert_eq!(
                policy.file_path.as_deref(),
                Some("/tmp/custom-request-trace")
            );
            assert_eq!(
                policy.file_compression,
                RequestTraceFileCompression::Uncompressed
            );
            assert_eq!(policy.file_roll_lines, Some(10));
            assert_eq!(
                policy.tool_events_zmq_endpoint.as_deref(),
                Some("tcp://127.0.0.1:9999")
            );
            assert_eq!(
                policy.tool_events_zmq_topic.as_deref(),
                Some("agent-tool-events")
            );
        },
    );
}

#[test]
fn legacy_jsonl_sink_maps_to_file_destination() {
    with_request_trace_env(
        &[
            (request_trace::DYN_REQUEST_TRACE, "1"),
            (request_trace::DYN_REQUEST_TRACE_SINKS, "jsonl,stderr"),
            (
                request_trace::DYN_REQUEST_TRACE_OUTPUT_PATH,
                "/tmp/legacy-request-trace",
            ),
            (
                request_trace::DYN_REQUEST_TRACE_JSONL_FLUSH_INTERVAL_MS,
                "25",
            ),
        ],
        |policy| {
            assert_eq!(
                policy.destinations,
                vec![
                    RequestTraceDestination::File,
                    RequestTraceDestination::Stderr
                ]
            );
            assert_eq!(
                policy.file_path.as_deref(),
                Some("/tmp/legacy-request-trace")
            );
            assert_eq!(
                policy.file_compression,
                RequestTraceFileCompression::Uncompressed
            );
            assert_eq!(policy.file_flush_interval_ms, 25);
        },
    );
}

#[test]
fn legacy_jsonl_gz_sink_maps_to_gzip_file_destination() {
    with_request_trace_env(
        &[
            (request_trace::DYN_REQUEST_TRACE, "1"),
            (request_trace::DYN_REQUEST_TRACE_SINKS, "jsonl_gz"),
            (request_trace::DYN_REQUEST_TRACE_JSONL_GZ_ROLL_LINES, "20"),
        ],
        |policy| {
            assert_eq!(policy.destinations, vec![RequestTraceDestination::File]);
            assert_eq!(policy.file_path.as_deref(), Some(DEFAULT_FILE_PATH));
            assert_eq!(policy.file_compression, RequestTraceFileCompression::Gzip);
            assert_eq!(policy.file_roll_lines, Some(20));
        },
    );
}

#[test]
fn tool_event_topic_override_requires_endpoint() {
    with_request_trace_env(
        &[
            (request_trace::DYN_REQUEST_TRACE, "1"),
            (
                request_trace::DYN_REQUEST_TRACE_TOOL_EVENTS_ZMQ_ENDPOINT,
                "tcp://127.0.0.1:9999",
            ),
            (
                request_trace::DYN_REQUEST_TRACE_TOOL_EVENTS_ZMQ_TOPIC,
                "custom-tool-events",
            ),
        ],
        |policy| {
            assert_eq!(
                policy.tool_events_zmq_topic.as_deref(),
                Some("custom-tool-events")
            );
        },
    );
}

#[test]
fn disabled_by_default() {
    with_request_trace_env(&[], |policy| {
        assert!(!policy.enabled);
        assert!(policy.destinations.is_empty());
        assert!(policy.file_path.is_none());
        assert!(policy.tool_events_zmq_endpoint.is_none());
        assert!(policy.tool_events_zmq_topic.is_none());
    });
}

#[test]
fn topic_without_endpoint_is_ignored() {
    with_request_trace_env(
        &[(request_trace::DYN_REQUEST_TRACE_TOOL_EVENTS_ZMQ_TOPIC, "t")],
        |policy| assert!(policy.tool_events_zmq_topic.is_none()),
    );
}

#[test]
fn names_of_the_parts() {
    assert_eq!(RequestTraceDestination::File.as_str(), "file");
    assert_eq!(RequestTraceDestination::Stderr.as_str(), "stderr");
    assert_eq!(RequestTraceFileFormat::Jsonl.as_str(), "jsonl");
    assert_eq!(RequestTraceFileCompression::Uncompressed.as_str(), "none");
    assert_eq!(RequestTraceFileCompression::Gzip.as_str(), "gzip");
    assert_eq!(DEFAULT_FILE_PATH, "/tmp/dynamo-request-trace");
}

#[test]
fn destination_names_round_trip() {
    let policy = load(&getter(&[("DYN_REQUEST_TRACE_SINKS", "stderr,file,stderr")]), false);
    assert!(!is_enabled(&policy));
    assert_eq!(policy.destination_names(), vec!["stderr", "file"]);
    let (back, legacy) = parse_destination_names(&policy.destination_names().join(","));
    assert_eq!(back, policy.destinations);
    assert_eq!(legacy, None);
    // Tracing is off, so there is no default path.
    assert_eq!(policy.file_path, None);
}

#[test]
fn sink_names_are_trimmed_and_lowered() {
    assert_eq!(
        parse_sink_names(" File ,, STDERR,\t,jsonl"),
        vec!["file".to_string(), "stderr".to_string(), "jsonl".to_string()]
    );
    assert!(parse_sink_names("").is_empty());
    assert_eq!(parse_sink_names("ÄB"), vec!["äb".to_string()]);
}

#[test]
fn unknown_destinations_are_ignored() {
    let (destinations, legacy) = parse_destination_names("kafka, stderr ,JSONL,jsonl_gz");
    assert_eq!(
        destinations,
        vec![RequestTraceDestination::Stderr, RequestTraceDestination::File]
    );
    assert_eq!(legacy, Some(RequestTraceFileCompression::Gzip));
    // Names are taken as they are once they have been parsed.
    let (none, _) = destinations_from_names(&vec!["File".to_string()]);
    assert!(none.is_empty());
}

#[test]
fn an_empty_list_means_no_destination() {
    let policy = load_from_env(&getter(&[
        ("DYN_REQUEST_TRACE", "true"),
        ("DYN_REQUEST_TRACE_DESTINATIONS", ""),
        ("DYN_REQUEST_TRACE_SINKS", "stderr"),
    ]));
    assert!(policy.enabled);
    assert!(policy.destinations.is_empty());
    assert_eq!(policy.file_path, None);
    assert_eq!(load_destinations(&getter(&[]), true).0, vec![RequestTraceDestination::File]);
    assert!(load_destinations(&getter(&[]), false).0.is_empty());
}

#[test]
fn pushing_a_destination_twice_keeps_one() {
    let mut list = vec![RequestTraceDestination::Stderr];
    push_destination(&mut list, RequestTraceDestination::File);
    push_destination(&mut list, RequestTraceDestination::Stderr);
    assert_eq!(
        list,
        vec![RequestTraceDestination::Stderr, RequestTraceDestination::File]
    );
}

#[test]
fn compression_names() {
    for name in ["none", " OFF ", "False"] {
        assert_eq!(
            parse_file_compression(name),
            RequestTraceFileCompression::Uncompressed
        );
    }
    for name in ["gzip", "GZ", "jsonl_gz", "zstd", ""] {
        assert_eq!(parse_file_compression(name), RequestTraceFileCompression::Gzip);
    }
    assert_eq!(compression_from_name("OFF"), RequestTraceFileCompression::Gzip);
    assert_eq!(parse_file_format("csv"), RequestTraceFileFormat::Jsonl);
}

#[test]
fn numbers_fall_back_to_defaults() {
    let policy = load_from_env(&getter(&[
        ("DYN_REQUEST_TRACE_CAPACITY", " 5"),
        ("DYN_REQUEST_TRACE_FILE_BUFFER_BYTES", "x"),
        ("DYN_REQUEST_TRACE_JSONL_BUFFER_BYTES", "77"),
        ("DYN_REQUEST_TRACE_JSONL_GZ_ROLL_BYTES", "0"),
        ("DYN_REQUEST_TRACE_FILE_ROLL_LINES", "0"),
    ]));
    // White space is not trimmed, and an invalid new value hides the legacy one.
    assert_eq!(policy.capacity, 1024);
    assert_eq!(policy.file_buffer_bytes, 1024 * 1024);
    assert_eq!(policy.file_flush_interval_ms, 1000);
    assert_eq!(policy.file_roll_bytes, 256 * 1024 * 1024);
    assert_eq!(policy.file_roll_lines, None);
}

#[test]
fn numbers_are_read_in_either_spelling() {
    let get = getter(&[("NEW", "3"), ("OLD", "4")]);
    assert_eq!(env_u64(&get, "NEW", "OLD"), Some(3));
    assert_eq!(env_u64(&get, "GONE", "OLD"), Some(4));
    assert_eq!(env_usize(&get, "GONE", "ALSO"), None);
    assert_eq!(env_usize(&get, "OLD", "NEW"), Some(4));
}

#[test]
fn new_spellings_win_over_legacy_ones() {
    let new = [
        ("DYN_REQUEST_TRACE_DESTINATIONS", "file"),
        ("DYN_REQUEST_TRACE_FILE_PATH", "/new"),
        ("DYN_REQUEST_TRACE_FILE_FLUSH_INTERVAL_MS", "1"),
    ];
    let mut both = new.to_vec();
    both.extend_from_slice(&[
        ("DYN_REQUEST_TRACE_SINKS", "jsonl,stderr"),
        ("DYN_REQUEST_TRACE_OUTPUT_PATH", "/old"),
        ("DYN_REQUEST_TRACE_JSONL_FLUSH_INTERVAL_MS", "2"),
    ]);
    let a = load(&getter(&new), true);
    let b = load(&getter(&both), true);
    assert_eq!(a.destinations, b.destinations);
    assert_eq!(b.file_path.as_deref(), Some("/new"));
    assert_eq!(b.file_flush_interval_ms, 1);
    assert_eq!(b.file_compression, RequestTraceFileCompression::Gzip);
}

#[test]
fn switches_are_read_in_any_case() {
    for on in ["1", "true", "TRUE", "On", "yes"] {
        assert!(is_truthy(on), "{on}");
    }
    for off in ["", "0", "false", " 1", "enabled"] {
        assert!(!is_truthy(off), "{off}");
    }
    assert!(!is_affirmative("TRUE"));
}

#[test]
fn what_is_ignored_is_named() {
    let ignored = ignored_settings(&getter(&[
        ("DYN_REQUEST_TRACE_DESTINATIONS", "Kafka, file,, s3,kafka"),
        ("DYN_REQUEST_TRACE_SINKS", "unread"),
        ("DYN_REQUEST_TRACE_FILE_FORMAT", " CSV "),
        ("DYN_REQUEST_TRACE_FILE_COMPRESSION", "zstd"),
    ]));
    assert_eq!(ignored.destinations, vec!["kafka", "s3", "kafka"]);
    assert_eq!(ignored.file_format.as_deref(), Some("csv"));
    assert_eq!(ignored.file_compression.as_deref(), Some("zstd"));

    let known = ignored_settings(&getter(&[
        ("DYN_REQUEST_TRACE_SINKS", "jsonl,JSONL_GZ,stderr,file"),
        ("DYN_REQUEST_TRACE_FILE_FORMAT", "Jsonl"),
        ("DYN_REQUEST_TRACE_FILE_COMPRESSION", "OFF"),
    ]));
    assert!(known.destinations.is_empty());
    assert_eq!(known.file_format, None);
    assert_eq!(known.file_compression, None);

    let unset = ignored_settings(&getter(&[("DYN_REQUEST_TRACE_FILE_FORMAT", "  ")]));
    assert!(unset.destinations.is_empty());
    assert_eq!(unset.file_format, None);
}

#[test]
fn single_names_are_ignored_or_known() {
    assert_eq!(ignored_names(&vec!["file".to_string(), "File".to_string()]), vec!["File"]);
    assert_eq!(ignored_file_format(""), Some(String::new()));
    for name in ["none", "off", "false", "gzip", " GZ ", "jsonl_gz"] {
        assert_eq!(ignored_file_compression(name), None, "{name}");
    }
    assert_eq!(ignored_file_compression("jsonl"), Some("jsonl".to_string()));
}
