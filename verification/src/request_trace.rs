//! Request-trace configuration.
//!
//! Tracing is off unless `DYN_REQUEST_TRACE` turns it on. Where records go, and how
//! the trace file is written, comes from further variables, some of which have a
//! legacy spelling that is honoured when the new one is unset.

use vstd::prelude::*;

use crate::env;
use crate::env::Env;
use crate::telemetry;
use crate::telemetry::{is_truthy, parse_sink_names};
use crate::text;
use crate::text::{same_text, to_lowercase, trimmed, Unsigned};

verus! {

/// Records that the trace queue holds.
pub const DEFAULT_CAPACITY: usize = 1024;

pub const DEFAULT_FILE_BUFFER_BYTES: usize = 1_048_576;

pub const DEFAULT_FILE_FLUSH_INTERVAL_MS: u64 = 1000;

pub const DEFAULT_FILE_ROLL_BYTES: u64 = 268_435_456;

pub const DEFAULT_FILE_PATH: &'static str = "/tmp/dynamo-request-trace";

/// Topic of tool events when an endpoint is set and no topic is.
pub const DEFAULT_TOOL_EVENTS_TOPIC: &'static str = "agent-tool-events";

pub const DYN_REQUEST_TRACE: &'static str = "DYN_REQUEST_TRACE";

pub const DYN_REQUEST_TRACE_DESTINATIONS: &'static str = "DYN_REQUEST_TRACE_DESTINATIONS";

pub const DYN_REQUEST_TRACE_SINKS: &'static str = "DYN_REQUEST_TRACE_SINKS";

pub const DYN_REQUEST_TRACE_FILE_PATH: &'static str = "DYN_REQUEST_TRACE_FILE_PATH";

pub const DYN_REQUEST_TRACE_OUTPUT_PATH: &'static str = "DYN_REQUEST_TRACE_OUTPUT_PATH";

pub const DYN_REQUEST_TRACE_FILE_FORMAT: &'static str = "DYN_REQUEST_TRACE_FILE_FORMAT";

pub const DYN_REQUEST_TRACE_FILE_COMPRESSION: &'static str = "DYN_REQUEST_TRACE_FILE_COMPRESSION";

pub const DYN_REQUEST_TRACE_CAPACITY: &'static str = "DYN_REQUEST_TRACE_CAPACITY";

pub const DYN_REQUEST_TRACE_FILE_BUFFER_BYTES: &'static str = "DYN_REQUEST_TRACE_FILE_BUFFER_BYTES";

pub const DYN_REQUEST_TRACE_JSONL_BUFFER_BYTES: &'static str =
    "DYN_REQUEST_TRACE_JSONL_BUFFER_BYTES";

pub const DYN_REQUEST_TRACE_FILE_FLUSH_INTERVAL_MS: &'static str =
    "DYN_REQUEST_TRACE_FILE_FLUSH_INTERVAL_MS";

pub const DYN_REQUEST_TRACE_JSONL_FLUSH_INTERVAL_MS: &'static str =
    "DYN_REQUEST_TRACE_JSONL_FLUSH_INTERVAL_MS";

pub const DYN_REQUEST_TRACE_FILE_ROLL_BYTES: &'static str = "DYN_REQUEST_TRACE_FILE_ROLL_BYTES";

pub const DYN_REQUEST_TRACE_JSONL_GZ_ROLL_BYTES: &'static str =
    "DYN_REQUEST_TRACE_JSONL_GZ_ROLL_BYTES";

pub const DYN_REQUEST_TRACE_FILE_ROLL_LINES: &'static str = "DYN_REQUEST_TRACE_FILE_ROLL_LINES";

pub const DYN_REQUEST_TRACE_JSONL_GZ_ROLL_LINES: &'static str =
    "DYN_REQUEST_TRACE_JSONL_GZ_ROLL_LINES";

pub const DYN_REQUEST_TRACE_TOOL_EVENTS_ZMQ_ENDPOINT: &'static str =
    "DYN_REQUEST_TRACE_TOOL_EVENTS_ZMQ_ENDPOINT";

pub const DYN_REQUEST_TRACE_TOOL_EVENTS_ZMQ_TOPIC: &'static str =
    "DYN_REQUEST_TRACE_TOOL_EVENTS_ZMQ_TOPIC";

/// Where trace records go.
#[derive(Clone, Copy, Debug, Eq, PartialEq, Structural)]
pub enum RequestTraceDestination {
    File,
    Stderr,
}

impl RequestTraceDestination {
    /// Name of the destination.
    pub open spec fn name(self) -> Seq<char> {
        match self {
            RequestTraceDestination::File => "file"@,
            RequestTraceDestination::Stderr => "stderr"@,
        }
    }

    pub fn as_str(self) -> (r: &'static str)
        ensures
            r@ == self.name(),
    {
        match self {
            RequestTraceDestination::File => "file",
            RequestTraceDestination::Stderr => "stderr",
        }
    }
}

/// Format of the trace file.
#[derive(Clone, Copy, Debug, Eq, PartialEq, Structural)]
pub enum RequestTraceFileFormat {
    Jsonl,
}

impl RequestTraceFileFormat {
    pub fn as_str(self) -> (r: &'static str)
        ensures
            r@ == "jsonl"@,
    {
        match self {
            RequestTraceFileFormat::Jsonl => "jsonl",
        }
    }
}

/// Compression of the trace file.
#[derive(Clone, Copy, Debug, Eq, PartialEq, Structural)]
pub enum RequestTraceFileCompression {
    Uncompressed,
    Gzip,
}

impl RequestTraceFileCompression {
    /// Name of the compression.
    pub open spec fn name(self) -> Seq<char> {
        match self {
            RequestTraceFileCompression::Uncompressed => "none"@,
            RequestTraceFileCompression::Gzip => "gzip"@,
        }
    }

    pub fn as_str(self) -> (r: &'static str)
        ensures
            r@ == self.name(),
    {
        match self {
            RequestTraceFileCompression::Uncompressed => "none",
            RequestTraceFileCompression::Gzip => "gzip",
        }
    }
}

/// How requests are traced.
#[derive(Clone, Debug)]
pub struct RequestTracePolicy {
    pub enabled: bool,
    pub destinations: Vec<RequestTraceDestination>,
    pub file_path: Option<String>,
    pub file_format: RequestTraceFileFormat,
    pub file_compression: RequestTraceFileCompression,
    pub capacity: usize,
    pub file_buffer_bytes: usize,
    pub file_flush_interval_ms: u64,
    pub file_roll_bytes: u64,
    pub file_roll_lines: Option<u64>,
    pub tool_events_zmq_endpoint: Option<String>,
    pub tool_events_zmq_topic: Option<String>,
}

/// What a [`RequestTracePolicy`] says.
#[verifier::ext_equal]
pub struct RequestTracePolicyView {
    pub enabled: bool,
    pub destinations: Seq<RequestTraceDestination>,
    pub file_path: Option<Seq<char>>,
    pub file_format: RequestTraceFileFormat,
    pub file_compression: RequestTraceFileCompression,
    pub capacity: nat,
    pub file_buffer_bytes: nat,
    pub file_flush_interval_ms: nat,
    pub file_roll_bytes: nat,
    pub file_roll_lines: Option<nat>,
    pub tool_events_zmq_endpoint: Option<Seq<char>>,
    pub tool_events_zmq_topic: Option<Seq<char>>,
}

impl View for RequestTracePolicy {
    type V = RequestTracePolicyView;

    open spec fn view(&self) -> RequestTracePolicyView {
        RequestTracePolicyView {
            enabled: self.enabled,
            destinations: self.destinations@,
            file_path: text::optional_text(self.file_path),
            file_format: self.file_format,
            file_compression: self.file_compression,
            capacity: self.capacity as nat,
            file_buffer_bytes: self.file_buffer_bytes as nat,
            file_flush_interval_ms: self.file_flush_interval_ms as nat,
            file_roll_bytes: self.file_roll_bytes as nat,
            file_roll_lines: match self.file_roll_lines {
                Some(n) => Some(n as nat),
                None => None,
            },
            tool_events_zmq_endpoint: text::optional_text(self.tool_events_zmq_endpoint),
            tool_events_zmq_topic: text::optional_text(self.tool_events_zmq_topic),
        }
    }
}

impl RequestTracePolicy {
    /// Names of the destinations, in order.
    pub fn destination_names(&self) -> (r: Vec<&'static str>)
        ensures
            r@.len() == self@.destinations.len(),
            forall|i: int| 0 <= i < r@.len() ==> (#[trigger] r@[i])@ == self@.destinations[i].name(),
    {
        let mut names: Vec<&'static str> = Vec::new();
        let mut i: usize = 0;
        while i < self.destinations.len()
            invariant
                i <= self.destinations.len(),
                names@.len() == i,
                forall|j: int|
                    0 <= j < i ==> (#[trigger] names@[j])@ == self.destinations@[j].name(),
            decreases self.destinations.len() - i,
        {
            names.push(self.destinations[i].as_str());
            i = i + 1;
        }
        names
    }
}

/// Whether requests are traced under a policy.
pub fn is_enabled(policy: &RequestTracePolicy) -> (r: bool)
    ensures
        r == policy@.enabled,
{
    policy.enabled
}

// ---------------------------------------------------------------------------
// Destinations
// ---------------------------------------------------------------------------

/// The destination that a name stands for, legacy names included.
pub open spec fn destination_of(name: Seq<char>) -> Option<RequestTraceDestination> {
    if name == "file"@ || name == "jsonl"@ || name == "jsonl_gz"@ {
        Some(RequestTraceDestination::File)
    } else if name == "stderr"@ {
        Some(RequestTraceDestination::Stderr)
    } else {
        None
    }
}

/// The destinations that some names stand for: each once, in the order in which
/// they are first named; unknown names are ignored.
pub open spec fn destinations_of(names: Seq<Seq<char>>) -> Seq<RequestTraceDestination>
    decreases names.len(),
{
    if names.len() == 0 {
        Seq::empty()
    } else {
        let earlier = destinations_of(names.drop_last());
        match destination_of(names.last()) {
            Some(destination) => if earlier.contains(destination) {
                earlier
            } else {
                earlier.push(destination)
            },
            None => earlier,
        }
    }
}

/// The compression that legacy destination names ask for.
pub open spec fn legacy_compression_of(names: Seq<Seq<char>>) -> Option<
    RequestTraceFileCompression,
> {
    if names.contains("jsonl_gz"@) {
        Some(RequestTraceFileCompression::Gzip)
    } else if names.contains("jsonl"@) {
        Some(RequestTraceFileCompression::Uncompressed)
    } else {
        None
    }
}

/// Add a destination unless it is there already.
pub fn push_destination(
    destinations: &mut Vec<RequestTraceDestination>,
    destination: RequestTraceDestination,
)
    ensures
        final(destinations)@ == (if old(destinations)@.contains(destination) {
            old(destinations)@
        } else {
            old(destinations)@.push(destination)
        }),
{
    if !has_destination(destinations, destination) {
        destinations.push(destination);
    }
}

fn has_destination(
    destinations: &Vec<RequestTraceDestination>,
    destination: RequestTraceDestination,
) -> (r: bool)
    ensures
        r == destinations@.contains(destination),
{
    let mut i: usize = 0;
    while i < destinations.len()
        invariant
            i <= destinations.len(),
            forall|j: int| 0 <= j < i ==> destinations@[j] != destination,
        decreases destinations.len() - i,
    {
        if destinations[i] == destination {
            return true;
        }
        i = i + 1;
    }
    false
}

/// The destinations and the legacy compression that some names ask for.
pub fn destinations_from_names(names: &Vec<String>) -> (r: (
    Vec<RequestTraceDestination>,
    Option<RequestTraceFileCompression>,
))
    ensures
        r.0@ == destinations_of(text::texts(names@)),
        r.1 == legacy_compression_of(text::texts(names@)),
{
    let ghost all = text::texts(names@);
    let mut destinations: Vec<RequestTraceDestination> = Vec::new();
    let mut legacy_jsonl = false;
    let mut legacy_jsonl_gz = false;
    proof {
        assert(all.take(0) =~= Seq::<Seq<char>>::empty());
        reveal_strlit("file");
        reveal_strlit("stderr");
        reveal_strlit("jsonl");
        reveal_strlit("jsonl_gz");
        assert("file"@.len() == 4);
        assert("stderr"@.len() == 6);
        assert("jsonl"@.len() == 5);
        assert("jsonl_gz"@.len() == 8);
    }
    let mut i: usize = 0;
    while i < names.len()
        invariant
            i <= names.len(),
            all == text::texts(names@),
            destinations@ == destinations_of(all.take(i as int)),
            legacy_jsonl == all.take(i as int).contains("jsonl"@),
            legacy_jsonl_gz == all.take(i as int).contains("jsonl_gz"@),
            "file"@.len() == 4,
            "stderr"@.len() == 6,
            "jsonl"@.len() == 5,
            "jsonl_gz"@.len() == 8,
        decreases names.len() - i,
    {
        let ghost done = all.take(i as int);
        let name = names[i].as_str();
        if same_text(name, "file") {
            push_destination(&mut destinations, RequestTraceDestination::File);
        } else if same_text(name, "stderr") {
            push_destination(&mut destinations, RequestTraceDestination::Stderr);
        } else if same_text(name, "jsonl") {
            legacy_jsonl = true;
            push_destination(&mut destinations, RequestTraceDestination::File);
        } else if same_text(name, "jsonl_gz") {
            legacy_jsonl_gz = true;
            push_destination(&mut destinations, RequestTraceDestination::File);
        }
        i = i + 1;
        proof {
            broadcast use vstd::seq_lib::group_seq_properties;

            let last = all.take(i as int);
            assert(last.drop_last() =~= done);
            assert(last.last() == name@);
            assert(last =~= done.push(name@));
        }
    }
    proof {
        assert(all.take(all.len() as int) =~= all);
    }
    let compression = if legacy_jsonl_gz {
        Some(RequestTraceFileCompression::Gzip)
    } else if legacy_jsonl {
        Some(RequestTraceFileCompression::Uncompressed)
    } else {
        None
    };
    (destinations, compression)
}

/// Parse a comma-separated list of destination names.
pub fn parse_destination_names(value: &str) -> (r: (
    Vec<RequestTraceDestination>,
    Option<RequestTraceFileCompression>,
))
    ensures
        r.0@ == destinations_of(telemetry::sink_names(value@)),
        r.1 == legacy_compression_of(telemetry::sink_names(value@)),
{
    let names = parse_sink_names(value);
    destinations_from_names(&names)
}

// ---------------------------------------------------------------------------
// File format and compression
// ---------------------------------------------------------------------------

/// The compression that a name in lower case stands for; unknown names ask for
/// gzip.
pub open spec fn compression_of(lowered: Seq<char>) -> RequestTraceFileCompression {
    if lowered == "none"@ || lowered == "off"@ || lowered == "false"@ {
        RequestTraceFileCompression::Uncompressed
    } else {
        RequestTraceFileCompression::Gzip
    }
}

/// The compression that a name in lower case stands for.
pub fn compression_from_name(lowered: &str) -> (r: RequestTraceFileCompression)
    ensures
        r == compression_of(lowered@),
{
    if same_text(lowered, "none") || same_text(lowered, "off") || same_text(lowered, "false") {
        RequestTraceFileCompression::Uncompressed
    } else {
        RequestTraceFileCompression::Gzip
    }
}

/// Parse a compression name, in any case of letters and with white space around it.
pub fn parse_file_compression(value: &str) -> (r: RequestTraceFileCompression)
    ensures
        r == compression_of(text::lowercase(text::trim(value@))),
{
    compression_from_name(to_lowercase(value.trim()).as_str())
}

/// Parse a format name. There is one format, and it also stands in for unknown
/// names.
pub fn parse_file_format(value: &str) -> (r: RequestTraceFileFormat)
    ensures
        r == RequestTraceFileFormat::Jsonl,
{
    RequestTraceFileFormat::Jsonl
}

// ---------------------------------------------------------------------------
// What an environment says
// ---------------------------------------------------------------------------

/// The value of a variable, or else of its legacy spelling.
pub open spec fn either(env: Env, primary: Seq<char>, legacy: Seq<char>) -> Option<Seq<char>> {
    match env(primary) {
        Some(value) => Some(value),
        None => env(legacy),
    }
}

/// The number in a raw value, if it is set and is one. White space is not trimmed.
pub open spec fn raw_number(value: Option<Seq<char>>, max: nat) -> Option<nat> {
    match value {
        Some(v) => text::unsigned_of(v, max),
        None => None,
    }
}

/// A number, or a default where there is none.
pub open spec fn or_default(n: Option<nat>, default: nat) -> nat {
    match n {
        Some(n) => n,
        None => default,
    }
}

/// A number, unless it is zero.
pub open spec fn positive(n: Option<nat>) -> Option<nat> {
    match n {
        Some(n) => if n > 0 {
            Some(n)
        } else {
            None
        },
        None => None,
    }
}

/// The raw list of destinations, if the environment has one.
pub open spec fn destination_setting(env: Env) -> Option<Seq<char>> {
    either(env, "DYN_REQUEST_TRACE_DESTINATIONS"@, "DYN_REQUEST_TRACE_SINKS"@)
}

/// The destinations that an environment asks for: those it lists, or else a file
/// when tracing is on.
pub open spec fn destinations_in(env: Env, enabled: bool) -> Seq<RequestTraceDestination> {
    match destination_setting(env) {
        Some(value) => destinations_of(telemetry::sink_names(value)),
        None => if enabled {
            seq![RequestTraceDestination::File]
        } else {
            Seq::empty()
        },
    }
}

/// The compression that the listed destinations ask for.
pub open spec fn legacy_compression_in(env: Env) -> Option<RequestTraceFileCompression> {
    match destination_setting(env) {
        Some(value) => legacy_compression_of(telemetry::sink_names(value)),
        None => None,
    }
}

/// The path of the trace file.
pub open spec fn file_path_in(env: Env, enabled: bool) -> Option<Seq<char>> {
    match text::setting(env("DYN_REQUEST_TRACE_FILE_PATH"@)) {
        Some(path) => Some(path),
        None => match text::setting(env("DYN_REQUEST_TRACE_OUTPUT_PATH"@)) {
            Some(path) => Some(path),
            None => if enabled && destinations_in(env, enabled).contains(
                RequestTraceDestination::File,
            ) {
                Some("/tmp/dynamo-request-trace"@)
            } else {
                None
            },
        },
    }
}

/// The compression of the trace file.
pub open spec fn file_compression_in(env: Env) -> RequestTraceFileCompression {
    match text::setting(env("DYN_REQUEST_TRACE_FILE_COMPRESSION"@)) {
        Some(value) => compression_of(text::lowercase(text::trim(value))),
        None => match legacy_compression_in(env) {
            Some(compression) => compression,
            None => RequestTraceFileCompression::Gzip,
        },
    }
}

/// The topic of tool events, which only counts when there is an endpoint.
pub open spec fn tool_events_topic_in(env: Env) -> Option<Seq<char>> {
    match text::setting(env("DYN_REQUEST_TRACE_TOOL_EVENTS_ZMQ_ENDPOINT"@)) {
        Some(endpoint) => match text::setting(env("DYN_REQUEST_TRACE_TOOL_EVENTS_ZMQ_TOPIC"@)) {
            Some(topic) => Some(topic),
            None => Some("agent-tool-events"@),
        },
        None => None,
    }
}

/// The policy that an environment asks for, given whether tracing is on.
pub open spec fn policy_in(env: Env, enabled: bool) -> RequestTracePolicyView {
    RequestTracePolicyView {
        enabled,
        destinations: destinations_in(env, enabled),
        file_path: file_path_in(env, enabled),
        file_format: RequestTraceFileFormat::Jsonl,
        file_compression: file_compression_in(env),
        capacity: or_default(
            raw_number(env("DYN_REQUEST_TRACE_CAPACITY"@), usize::MAX as nat),
            DEFAULT_CAPACITY as nat,
        ),
        file_buffer_bytes: or_default(
            raw_number(
                either(
                    env,
                    "DYN_REQUEST_TRACE_FILE_BUFFER_BYTES"@,
                    "DYN_REQUEST_TRACE_JSONL_BUFFER_BYTES"@,
                ),
                usize::MAX as nat,
            ),
            DEFAULT_FILE_BUFFER_BYTES as nat,
        ),
        file_flush_interval_ms: or_default(
            raw_number(
                either(
                    env,
                    "DYN_REQUEST_TRACE_FILE_FLUSH_INTERVAL_MS"@,
                    "DYN_REQUEST_TRACE_JSONL_FLUSH_INTERVAL_MS"@,
                ),
                u64::MAX as nat,
            ),
            DEFAULT_FILE_FLUSH_INTERVAL_MS as nat,
        ),
        file_roll_bytes: or_default(
            positive(
                raw_number(
                    either(
                        env,
                        "DYN_REQUEST_TRACE_FILE_ROLL_BYTES"@,
                        "DYN_REQUEST_TRACE_JSONL_GZ_ROLL_BYTES"@,
                    ),
                    u64::MAX as nat,
                ),
            ),
            DEFAULT_FILE_ROLL_BYTES as nat,
        ),
        file_roll_lines: positive(
            raw_number(
                either(
                    env,
                    "DYN_REQUEST_TRACE_FILE_ROLL_LINES"@,
                    "DYN_REQUEST_TRACE_JSONL_GZ_ROLL_LINES"@,
                ),
                u64::MAX as nat,
            ),
        ),
        tool_events_zmq_endpoint: text::setting(
            env("DYN_REQUEST_TRACE_TOOL_EVENTS_ZMQ_ENDPOINT"@),
        ),
        tool_events_zmq_topic: tool_events_topic_in(env),
    }
}

/// Whether an environment turns tracing on.
pub open spec fn enabled_in(env: Env) -> bool {
    match env("DYN_REQUEST_TRACE"@) {
        Some(value) => telemetry::affirmative(text::lowercase(value)),
        None => false,
    }
}

// ---------------------------------------------------------------------------
// Loading
// ---------------------------------------------------------------------------

/// Read a variable, trimmed, with empty as absent.
fn env_trimmed<F: Fn(&str) -> Option<String>>(get: &F, name: &str) -> (r: Option<String>)
    requires
        env::total(*get),
    ensures
        forall|env: Env| #[trigger]
            env::reads(*get, env) ==> text::optional_text(r) == text::setting(env(name@)),
{
    trimmed(env::look_up(get, name))
}

/// Read a variable, or else its legacy spelling.
fn env_either<F: Fn(&str) -> Option<String>>(get: &F, primary: &str, legacy: &str) -> (r: Option<
    String,
>)
    requires
        env::total(*get),
    ensures
        forall|env: Env| #[trigger]
            env::reads(*get, env) ==> text::optional_text(r) == either(env, primary@, legacy@),
{
    match env::look_up(get, primary) {
        Some(value) => Some(value),
        None => env::look_up(get, legacy),
    }
}

/// The number in a raw value, if it is set and is one.
fn number_in<T: Unsigned>(value: &Option<String>) -> (r: Option<T>)
    ensures
        match raw_number(text::optional_text(*value), T::largest()) {
            Some(n) => r == Some(T::of_nat(n)),
            None => r is None,
        },
{
    match value {
        Some(v) => match T::parse_text(v.as_str()) {
            Ok(n) => Some(n),
            Err(_) => None,
        },
        None => None,
    }
}

/// Read a size from a variable, or else from its legacy spelling.
pub fn env_usize<F: Fn(&str) -> Option<String>>(get: &F, primary: &str, legacy: &str) -> (r: Option<
    usize,
>)
    requires
        env::total(*get),
    ensures
        forall|env: Env| #[trigger]
            env::reads(*get, env) ==> match raw_number(
                either(env, primary@, legacy@),
                usize::MAX as nat,
            ) {
                Some(n) => r == Some(n as usize),
                None => r is None,
            },
{
    number_in::<usize>(&env_either(get, primary, legacy))
}

/// Read a number from a variable, or else from its legacy spelling.
pub fn env_u64<F: Fn(&str) -> Option<String>>(get: &F, primary: &str, legacy: &str) -> (r: Option<
    u64,
>)
    requires
        env::total(*get),
    ensures
        forall|env: Env| #[trigger]
            env::reads(*get, env) ==> match raw_number(
                either(env, primary@, legacy@),
                u64::MAX as nat,
            ) {
                Some(n) => r == Some(n as u64),
                None => r is None,
            },
{
    number_in::<u64>(&env_either(get, primary, legacy))
}

fn above_zero(n: Option<u64>) -> (r: Option<u64>)
    ensures
        r == match n {
            Some(n) => if n > 0 {
                Some(n)
            } else {
                None
            },
            None => None,
        },
{
    match n {
        Some(n) => if n > 0 {
            Some(n)
        } else {
            None
        },
        None => None,
    }
}

/// Read where records go, and the compression that legacy names ask for.
pub fn load_destinations<F: Fn(&str) -> Option<String>>(get: &F, enabled: bool) -> (r: (
    Vec<RequestTraceDestination>,
    Option<RequestTraceFileCompression>,
))
    requires
        env::total(*get),
    ensures
        forall|env: Env| #[trigger]
            env::reads(*get, env) ==> r.0@ == destinations_in(env, enabled) && r.1
                == legacy_compression_in(env),
{
    match env_either(get, DYN_REQUEST_TRACE_DESTINATIONS, DYN_REQUEST_TRACE_SINKS) {
        Some(value) => parse_destination_names(value.as_str()),
        None => {
            let mut destinations: Vec<RequestTraceDestination> = Vec::new();
            if enabled {
                destinations.push(RequestTraceDestination::File);
            }
            proof {
                assert(destinations@ =~= (if enabled {
                    seq![RequestTraceDestination::File]
                } else {
                    Seq::empty()
                }));
            }
            (destinations, None)
        },
    }
}

/// Load the policy, given whether tracing is on.
pub fn load<F: Fn(&str) -> Option<String>>(get: &F, enabled: bool) -> (r: RequestTracePolicy)
    requires
        env::total(*get),
    ensures
        forall|env: Env| #[trigger] env::reads(*get, env) ==> r@ == policy_in(env, enabled),
{
    let (destinations, legacy_file_compression) = load_destinations(get, enabled);
    let has_file_destination = has_destination(&destinations, RequestTraceDestination::File);
    let file_path = match env_trimmed(get, DYN_REQUEST_TRACE_FILE_PATH) {
        Some(path) => Some(path),
        None => match env_trimmed(get, DYN_REQUEST_TRACE_OUTPUT_PATH) {
            Some(path) => Some(path),
            None => if enabled && has_file_destination {
                Some(DEFAULT_FILE_PATH.to_owned())
            } else {
                None
            },
        },
    };
    let file_format = match env_trimmed(get, DYN_REQUEST_TRACE_FILE_FORMAT) {
        Some(value) => parse_file_format(value.as_str()),
        None => RequestTraceFileFormat::Jsonl,
    };
    let file_compression = match env_trimmed(get, DYN_REQUEST_TRACE_FILE_COMPRESSION) {
        Some(value) => parse_file_compression(value.as_str()),
        None => match legacy_file_compression {
            Some(compression) => compression,
            None => RequestTraceFileCompression::Gzip,
        },
    };
    let capacity = number_in::<usize>(&env::look_up(get, DYN_REQUEST_TRACE_CAPACITY)).unwrap_or(
        DEFAULT_CAPACITY,
    );
    let file_buffer_bytes = env_usize(
        get,
        DYN_REQUEST_TRACE_FILE_BUFFER_BYTES,
        DYN_REQUEST_TRACE_JSONL_BUFFER_BYTES,
    ).unwrap_or(DEFAULT_FILE_BUFFER_BYTES);
    let file_flush_interval_ms = env_u64(
        get,
        DYN_REQUEST_TRACE_FILE_FLUSH_INTERVAL_MS,
        DYN_REQUEST_TRACE_JSONL_FLUSH_INTERVAL_MS,
    ).unwrap_or(DEFAULT_FILE_FLUSH_INTERVAL_MS);
    let file_roll_bytes = above_zero(
        env_u64(
            get,
            DYN_REQUEST_TRACE_FILE_ROLL_BYTES,
            DYN_REQUEST_TRACE_JSONL_GZ_ROLL_BYTES,
        ),
    ).unwrap_or(DEFAULT_FILE_ROLL_BYTES);
    let file_roll_lines = above_zero(
        env_u64(
            get,
            DYN_REQUEST_TRACE_FILE_ROLL_LINES,
            DYN_REQUEST_TRACE_JSONL_GZ_ROLL_LINES,
        ),
    );
    let tool_events_zmq_endpoint = env_trimmed(get, DYN_REQUEST_TRACE_TOOL_EVENTS_ZMQ_ENDPOINT);
    let tool_events_zmq_topic = match &tool_events_zmq_endpoint {
        Some(_) => match env_trimmed(get, DYN_REQUEST_TRACE_TOOL_EVENTS_ZMQ_TOPIC) {
            Some(topic) => Some(topic),
            None => Some(DEFAULT_TOOL_EVENTS_TOPIC.to_owned()),
        },
        None => None,
    };
    RequestTracePolicy {
        enabled,
        destinations,
        file_path,
        file_format,
        file_compression,
        capacity,
        file_buffer_bytes,
        file_flush_interval_ms,
        file_roll_bytes,
        file_roll_lines,
        tool_events_zmq_endpoint,
        tool_events_zmq_topic,
    }
}

/// Load the policy from an environment.
pub fn load_from_env<F: Fn(&str) -> Option<String>>(get: &F) -> (r: RequestTracePolicy)
    requires
        env::total(*get),
    ensures
        forall|env: Env| #[trigger] env::reads(*get, env) ==> r@ == policy_in(env, enabled_in(env)),
{
    let enabled = match env::look_up(get, DYN_REQUEST_TRACE) {
        Some(value) => is_truthy(value.as_str()),
        None => false,
    };
    load(get, enabled)
}

// ---------------------------------------------------------------------------
// What is ignored
// ---------------------------------------------------------------------------

/// The names that stand for no destination, in order.
pub open spec fn ignored_of(names: Seq<Seq<char>>) -> Seq<Seq<char>>
    decreases names.len(),
{
    if names.len() == 0 {
        Seq::empty()
    } else {
        let earlier = ignored_of(names.drop_last());
        if destination_of(names.last()) is None {
            earlier.push(names.last())
        } else {
            earlier
        }
    }
}

/// Pick the names that stand for no destination.
pub fn ignored_names(names: &Vec<String>) -> (r: Vec<String>)
    ensures
        text::texts(r@) == ignored_of(text::texts(names@)),
{
    let ghost all = text::texts(names@);
    let mut ignored: Vec<String> = Vec::new();
    let mut i: usize = 0;
    proof {
        assert(text::texts(ignored@) =~= ignored_of(all.take(0)));
    }
    while i < names.len()
        invariant
            i <= names.len(),
            all == text::texts(names@),
            text::texts(ignored@) == ignored_of(all.take(i as int)),
        decreases names.len() - i,
    {
        let ghost earlier = text::texts(ignored@);
        let name = names[i].as_str();
        let known = same_text(name, "file") || same_text(name, "stderr") || same_text(name, "jsonl")
            || same_text(name, "jsonl_gz");
        if !known {
            ignored.push(name.to_owned());
            proof {
                assert(text::texts(ignored@) =~= earlier.push(name@));
            }
        }
        i = i + 1;
        proof {
            assert(all.take(i as int).drop_last() =~= all.take(i - 1));
            assert(all.take(i as int).last() == name@);
        }
    }
    proof {
        assert(all.take(all.len() as int) =~= all);
    }
    ignored
}

/// The format name that is not known, if it is not.
pub open spec fn unknown_format(lowered: Seq<char>) -> Option<Seq<char>> {
    if lowered == "jsonl"@ {
        None
    } else {
        Some(lowered)
    }
}

/// The compression name that is not known, if it is not.
pub open spec fn unknown_compression(lowered: Seq<char>) -> Option<Seq<char>> {
    if lowered == "none"@ || lowered == "off"@ || lowered == "false"@ || lowered == "gzip"@
        || lowered == "gz"@ || lowered == "jsonl_gz"@ {
        None
    } else {
        Some(lowered)
    }
}

/// The format name that [`parse_file_format`] ignores, if it does.
pub fn ignored_file_format(value: &str) -> (r: Option<String>)
    ensures
        text::optional_text(r) == unknown_format(text::lowercase(text::trim(value@))),
{
    let lowered = to_lowercase(value.trim());
    if same_text(lowered.as_str(), "jsonl") {
        None
    } else {
        Some(lowered)
    }
}

/// The compression name that [`parse_file_compression`] ignores, if it does.
pub fn ignored_file_compression(value: &str) -> (r: Option<String>)
    ensures
        text::optional_text(r) == unknown_compression(text::lowercase(text::trim(value@))),
{
    let lowered = to_lowercase(value.trim());
    let name = lowered.as_str();
    if same_text(name, "none") || same_text(name, "off") || same_text(name, "false") || same_text(
        name,
        "gzip",
    ) || same_text(name, "gz") || same_text(name, "jsonl_gz") {
        None
    } else {
        Some(lowered)
    }
}

/// What an environment names that is not known, and that the policy ignores.
#[derive(Clone, Debug)]
pub struct IgnoredSettings {
    /// Names that stand for no destination, in order.
    pub destinations: Vec<String>,
    pub file_format: Option<String>,
    pub file_compression: Option<String>,
}

/// What an [`IgnoredSettings`] says.
#[verifier::ext_equal]
pub struct IgnoredSettingsView {
    pub destinations: Seq<Seq<char>>,
    pub file_format: Option<Seq<char>>,
    pub file_compression: Option<Seq<char>>,
}

impl View for IgnoredSettings {
    type V = IgnoredSettingsView;

    open spec fn view(&self) -> IgnoredSettingsView {
        IgnoredSettingsView {
            destinations: text::texts(self.destinations@),
            file_format: text::optional_text(self.file_format),
            file_compression: text::optional_text(self.file_compression),
        }
    }
}

/// What the policy of an environment ignores.
pub open spec fn ignored_in(env: Env) -> IgnoredSettingsView {
    IgnoredSettingsView {
        destinations: match destination_setting(env) {
            Some(value) => ignored_of(telemetry::sink_names(value)),
            None => Seq::empty(),
        },
        file_format: match text::setting(env("DYN_REQUEST_TRACE_FILE_FORMAT"@)) {
            Some(value) => unknown_format(text::lowercase(text::trim(value))),
            None => None,
        },
        file_compression: match text::setting(env("DYN_REQUEST_TRACE_FILE_COMPRESSION"@)) {
            Some(value) => unknown_compression(text::lowercase(text::trim(value))),
            None => None,
        },
    }
}

/// What loading the policy from an environment ignores, so that it can be warned of.
pub fn ignored_settings<F: Fn(&str) -> Option<String>>(get: &F) -> (r: IgnoredSettings)
    requires
        env::total(*get),
    ensures
        forall|env: Env| #[trigger] env::reads(*get, env) ==> r@ == ignored_in(env),
{
    let destinations = match env_either(
        get,
        DYN_REQUEST_TRACE_DESTINATIONS,
        DYN_REQUEST_TRACE_SINKS,
    ) {
        Some(value) => {
            let names = parse_sink_names(value.as_str());
            ignored_names(&names)
        },
        None => {
            let none: Vec<String> = Vec::new();
            proof {
                assert(text::texts(none@) =~= Seq::<Seq<char>>::empty());
            }
            none
        },
    };
    let file_format = match env_trimmed(get, DYN_REQUEST_TRACE_FILE_FORMAT) {
        Some(value) => ignored_file_format(value.as_str()),
        None => None,
    };
    let file_compression = match env_trimmed(get, DYN_REQUEST_TRACE_FILE_COMPRESSION) {
        Some(value) => ignored_file_compression(value.as_str()),
        None => None,
    };
    IgnoredSettings { destinations, file_format, file_compression }
}

// ---------------------------------------------------------------------------
// Laws
// ---------------------------------------------------------------------------

/// No destination is listed twice.
pub proof fn destinations_are_distinct(names: Seq<Seq<char>>)
    ensures
        destinations_of(names).no_duplicates(),
    decreases names.len(),
{
    if names.len() > 0 {
        destinations_are_distinct(names.drop_last());
    }
}

/// A destination is listed exactly when one of the names stands for it; unknown
/// names are ignored.
pub proof fn destinations_are_the_named_ones(
    names: Seq<Seq<char>>,
    destination: RequestTraceDestination,
)
    ensures
        destinations_of(names).contains(destination) <==> exists|i: int|
            0 <= i < names.len() && destination_of(#[trigger] names[i]) == Some(destination),
    decreases names.len(),
{
    broadcast use vstd::seq_lib::group_seq_properties;

    if names.len() > 0 {
        let rest = names.drop_last();
        destinations_are_the_named_ones(rest, destination);
        if exists|i: int|
            0 <= i < names.len() && destination_of(#[trigger] names[i]) == Some(destination) {
            let i = choose|i: int|
                0 <= i < names.len() && destination_of(#[trigger] names[i]) == Some(destination);
            if i < rest.len() {
                assert(destination_of(rest[i]) == Some(destination));
            }
        }
        if destinations_of(rest).contains(destination) {
            let i = choose|i: int|
                0 <= i < rest.len() && destination_of(#[trigger] rest[i]) == Some(destination);
            assert(destination_of(names[i]) == Some(destination));
        }
        assert(names[names.len() - 1] == names.last());
    }
}

/// Every name is either used or ignored: the ignored names are exactly those that
/// stand for no destination, and they add nothing to the destinations.
pub proof fn names_are_used_or_ignored(names: Seq<Seq<char>>, name: Seq<char>)
    ensures
        ignored_of(names).contains(name) <==> names.contains(name) && destination_of(name) is None,
        destinations_of(ignored_of(names)) == Seq::<RequestTraceDestination>::empty(),
    decreases names.len(),
{
    broadcast use vstd::seq_lib::group_seq_properties;

    if names.len() > 0 {
        let rest = names.drop_last();
        names_are_used_or_ignored(rest, name);
        assert(names =~= rest.push(names.last()));
        if destination_of(names.last()) is None {
            let ignored = ignored_of(names);
            assert(ignored.drop_last() =~= ignored_of(rest));
            assert(ignored.last() == names.last());
        }
    }
}

/// An unknown compression name asks for gzip.
pub proof fn unknown_compression_asks_for_gzip(lowered: Seq<char>)
    requires
        unknown_compression(lowered) is Some,
    ensures
        compression_of(lowered) == RequestTraceFileCompression::Gzip,
{
}

/// The names of a policy's destinations stand for just those destinations: a list
/// of distinct destinations is given back by its names.
pub proof fn destination_names_round_trip(destinations: Seq<RequestTraceDestination>)
    requires
        destinations.no_duplicates(),
    ensures
        destinations_of(
            destinations.map_values(|d: RequestTraceDestination| d.name()),
        ) == destinations,
    decreases destinations.len(),
{
    reveal_strlit("file");
    reveal_strlit("stderr");
    reveal_strlit("jsonl");
    reveal_strlit("jsonl_gz");
    assert("file"@.len() == 4 && "stderr"@.len() == 6 && "jsonl"@.len() == 5 && "jsonl_gz"@.len()
        == 8);
    let names = destinations.map_values(|d: RequestTraceDestination| d.name());
    if destinations.len() > 0 {
        let rest = destinations.drop_last();
        destination_names_round_trip(rest);
        assert(names.drop_last() =~= rest.map_values(|d: RequestTraceDestination| d.name()));
        assert(names.last() == destinations.last().name());
        assert(destination_of(names.last()) == Some(destinations.last()));
        assert(!rest.contains(destinations.last()));
        assert(rest.push(destinations.last()) =~= destinations);
    } else {
        assert(destinations_of(names) =~= destinations);
    }
}

/// A topic for tool events is set exactly when an endpoint is.
pub proof fn tool_topic_requires_endpoint(env: Env, enabled: bool)
    ensures
        policy_in(env, enabled).tool_events_zmq_topic is Some <==> policy_in(
            env,
            enabled,
        ).tool_events_zmq_endpoint is Some,
{
}

/// Rolling limits are never zero.
pub proof fn rolling_limits_are_positive(env: Env, enabled: bool)
    ensures
        policy_in(env, enabled).file_roll_bytes > 0,
        policy_in(env, enabled).file_roll_lines matches Some(n) ==> n > 0,
{
}

/// With the master switch on and nothing else set, records go to the default file,
/// compressed.
pub proof fn master_switch_alone_traces_to_the_default_file(env: Env)
    requires
        destination_setting(env) is None,
        text::setting(env("DYN_REQUEST_TRACE_FILE_PATH"@)) is None,
        text::setting(env("DYN_REQUEST_TRACE_OUTPUT_PATH"@)) is None,
        text::setting(env("DYN_REQUEST_TRACE_FILE_COMPRESSION"@)) is None,
    ensures
        policy_in(env, true).destinations == seq![RequestTraceDestination::File],
        policy_in(env, true).file_path == Some("/tmp/dynamo-request-trace"@),
        policy_in(env, true).file_compression == RequestTraceFileCompression::Gzip,
{
    assert(seq![RequestTraceDestination::File][0] == RequestTraceDestination::File);
}

/// With the master switch off and nothing else set, nothing is traced anywhere.
pub proof fn tracing_is_off_by_default(env: Env)
    requires
        forall|key: Seq<char>| #[trigger] env(key) is None,
    ensures
        !enabled_in(env),
        policy_in(env, false).destinations.len() == 0,
        policy_in(env, false).file_path is None,
        policy_in(env, false).tool_events_zmq_endpoint is None,
        policy_in(env, false).tool_events_zmq_topic is None,
{
}

/// A file destination always has a path when tracing is on.
pub proof fn traced_file_has_a_path(env: Env)
    ensures
        policy_in(env, true).destinations.contains(RequestTraceDestination::File) ==> policy_in(
            env,
            true,
        ).file_path is Some,
{
}

/// Whether two environments agree on every variable but the legacy spellings.
pub open spec fn agree_but_for_legacy(a: Env, b: Env) -> bool {
    &&& a("DYN_REQUEST_TRACE_DESTINATIONS"@) == b("DYN_REQUEST_TRACE_DESTINATIONS"@)
    &&& a("DYN_REQUEST_TRACE_FILE_PATH"@) == b("DYN_REQUEST_TRACE_FILE_PATH"@)
    &&& a("DYN_REQUEST_TRACE_FILE_FORMAT"@) == b("DYN_REQUEST_TRACE_FILE_FORMAT"@)
    &&& a("DYN_REQUEST_TRACE_FILE_COMPRESSION"@) == b("DYN_REQUEST_TRACE_FILE_COMPRESSION"@)
    &&& a("DYN_REQUEST_TRACE_CAPACITY"@) == b("DYN_REQUEST_TRACE_CAPACITY"@)
    &&& a("DYN_REQUEST_TRACE_FILE_BUFFER_BYTES"@) == b("DYN_REQUEST_TRACE_FILE_BUFFER_BYTES"@)
    &&& a("DYN_REQUEST_TRACE_FILE_FLUSH_INTERVAL_MS"@) == b(
        "DYN_REQUEST_TRACE_FILE_FLUSH_INTERVAL_MS"@,
    )
    &&& a("DYN_REQUEST_TRACE_FILE_ROLL_BYTES"@) == b("DYN_REQUEST_TRACE_FILE_ROLL_BYTES"@)
    &&& a("DYN_REQUEST_TRACE_FILE_ROLL_LINES"@) == b("DYN_REQUEST_TRACE_FILE_ROLL_LINES"@)
    &&& a("DYN_REQUEST_TRACE_TOOL_EVENTS_ZMQ_ENDPOINT"@) == b(
        "DYN_REQUEST_TRACE_TOOL_EVENTS_ZMQ_ENDPOINT"@,
    )
    &&& a("DYN_REQUEST_TRACE_TOOL_EVENTS_ZMQ_TOPIC"@) == b(
        "DYN_REQUEST_TRACE_TOOL_EVENTS_ZMQ_TOPIC"@,
    )
}

/// A legacy spelling counts only when the new one is unset: once every new variable
/// that has a legacy spelling is set, the legacy ones change nothing.
pub proof fn legacy_spellings_yield_to_new_ones(a: Env, b: Env, enabled: bool)
    requires
        agree_but_for_legacy(a, b),
        a("DYN_REQUEST_TRACE_DESTINATIONS"@) is Some,
        text::setting(a("DYN_REQUEST_TRACE_FILE_PATH"@)) is Some,
        a("DYN_REQUEST_TRACE_FILE_BUFFER_BYTES"@) is Some,
        a("DYN_REQUEST_TRACE_FILE_FLUSH_INTERVAL_MS"@) is Some,
        a("DYN_REQUEST_TRACE_FILE_ROLL_BYTES"@) is Some,
        a("DYN_REQUEST_TRACE_FILE_ROLL_LINES"@) is Some,
    ensures
        policy_in(a, enabled) == policy_in(b, enabled),
{
}

/// Four names stand for a destination, two of them legacy ones for a file, and no other
/// name stands for any.
pub proof fn four_names_stand_for_destinations(name: Seq<char>)
    ensures
        destination_of(name) == Some(RequestTraceDestination::File) <==> name == "file"@ || name
            == "jsonl"@ || name == "jsonl_gz"@,
        destination_of(name) == Some(RequestTraceDestination::Stderr) <==> name == "stderr"@,
        destination_of(name) is None <==> name != "file"@ && name != "jsonl"@ && name != "jsonl_gz"@
            && name != "stderr"@,
        RequestTraceDestination::File.name() == "file"@,
        RequestTraceDestination::Stderr.name() == "stderr"@,
        RequestTraceFileCompression::Uncompressed.name() == "none"@,
        RequestTraceFileCompression::Gzip.name() == "gzip"@,
{
    reveal_strlit("file");
    reveal_strlit("stderr");
    reveal_strlit("jsonl");
    reveal_strlit("jsonl_gz");
    assert("file"@.len() == 4 && "stderr"@.len() == 6 && "jsonl"@.len() == 5 && "jsonl_gz"@.len()
        == 8);
}

/// Records go to a file exactly when a name for it is listed, and to stderr exactly when
/// that is; each is listed at most once.
pub proof fn listed_names_are_the_destinations(names: Seq<Seq<char>>)
    ensures
        destinations_of(names).contains(RequestTraceDestination::File) <==> names.contains("file"@)
            || names.contains("jsonl"@) || names.contains("jsonl_gz"@),
        destinations_of(names).contains(RequestTraceDestination::Stderr) <==> names.contains(
            "stderr"@,
        ),
        destinations_of(names).no_duplicates(),
{
    destinations_are_distinct(names);
    destinations_are_the_named_ones(names, RequestTraceDestination::File);
    destinations_are_the_named_ones(names, RequestTraceDestination::Stderr);
    four_names_stand_for_destinations("file"@);
    four_names_stand_for_destinations("jsonl"@);
    four_names_stand_for_destinations("jsonl_gz"@);
    four_names_stand_for_destinations("stderr"@);
    assert forall|i: int| 0 <= i < names.len() implies (destination_of(#[trigger] names[i]) == Some(
        RequestTraceDestination::Stderr,
    ) <==> names[i] == "stderr"@) by {
        four_names_stand_for_destinations(names[i]);
    }
}

/// Destinations come in the order in which they are first named: further names only add
/// behind what is there.
pub proof fn destinations_keep_the_order_of_mention(
    names: Seq<Seq<char>>,
    more: Seq<Seq<char>>,
)
    ensures
        destinations_of(names).is_prefix_of(destinations_of(names + more)),
    decreases more.len(),
{
    if more.len() == 0 {
        assert(names + more =~= names);
    } else {
        destinations_keep_the_order_of_mention(names, more.drop_last());
        assert((names + more).drop_last() =~= names + more.drop_last());
        let shorter = destinations_of(names + more.drop_last());
        assert(shorter.is_prefix_of(destinations_of(names + more)));
    }
}

/// The legacy gzip name asks for gzip; else the legacy plain name for no compression; and
/// without either the names ask for nothing.
pub proof fn legacy_names_ask_for_compression(names: Seq<Seq<char>>)
    ensures
        legacy_compression_of(names) == Some(RequestTraceFileCompression::Gzip)
            <==> names.contains("jsonl_gz"@),
        legacy_compression_of(names) == Some(RequestTraceFileCompression::Uncompressed)
            <==> names.contains("jsonl"@) && !names.contains("jsonl_gz"@),
        legacy_compression_of(names) is None <==> !names.contains("jsonl"@) && !names.contains(
            "jsonl_gz"@,
        ),
{
}

/// Three names switch compression off, and any other text asks for gzip; of those, three
/// are known, and the others are told as ignored.
pub proof fn compression_names(lowered: Seq<char>)
    ensures
        compression_of(lowered) == RequestTraceFileCompression::Uncompressed <==> lowered
            == "none"@ || lowered == "off"@ || lowered == "false"@,
        unknown_compression(lowered) is None <==> compression_of(lowered)
            == RequestTraceFileCompression::Uncompressed || lowered == "gzip"@ || lowered == "gz"@
            || lowered == "jsonl_gz"@,
        unknown_compression(lowered) is Some ==> unknown_compression(lowered)->0 == lowered,
        unknown_format(lowered) is None <==> lowered == "jsonl"@,
        unknown_format(lowered) is Some ==> unknown_format(lowered)->0 == lowered,
{
}

/// What is ignored is told name by name, in order: a name that stands for no destination
/// is told as often as it is listed, and any other is not.
pub proof fn ignored_names_are_told_in_order(a: Seq<Seq<char>>, b: Seq<Seq<char>>, name: Seq<char>)
    ensures
        ignored_of(a + b) == ignored_of(a) + ignored_of(b),
        name == "file"@ || name == "jsonl"@ || name == "jsonl_gz"@ || name == "stderr"@
            ==> ignored_of(seq![name]).len() == 0,
        name != "file"@ && name != "jsonl"@ && name != "jsonl_gz"@ && name != "stderr"@
            ==> ignored_of(seq![name]) == seq![name],
        ignored_of(Seq::empty()).len() == 0,
    decreases b.len(),
{
    let one = seq![name];
    assert(one.drop_last() =~= Seq::<Seq<char>>::empty());
    assert(ignored_of(one.drop_last()) =~= Seq::<Seq<char>>::empty());
    assert(one.last() == name);
    if b.len() == 0 {
        assert(a + b =~= a);
        assert(ignored_of(a) + ignored_of(b) =~= ignored_of(a));
    } else {
        ignored_names_are_told_in_order(a, b.drop_last(), name);
        assert((a + b).drop_last() =~= a + b.drop_last());
        assert((a + b).last() == b.last());
        assert(ignored_of(a + b) =~= ignored_of(a) + ignored_of(b));
    }
}

/// Tracing is on exactly when `DYN_REQUEST_TRACE` says yes, in any case of letters.
pub proof fn master_switch_says_yes(env: Env)
    ensures
        enabled_in(env) <==> (env("DYN_REQUEST_TRACE"@) matches Some(value) && (text::lowercase(
            value,
        ) == "1"@ || text::lowercase(value) == "true"@ || text::lowercase(value) == "on"@
            || text::lowercase(value) == "yes"@)),
{
}

/// The destinations are those that `DYN_REQUEST_TRACE_DESTINATIONS` lists, else those
/// that `DYN_REQUEST_TRACE_SINKS` does, and else a file exactly when tracing is on.
pub proof fn destinations_are_their_variables(env: Env, enabled: bool)
    ensures
        policy_in(env, enabled).enabled == enabled,
        env("DYN_REQUEST_TRACE_DESTINATIONS"@) matches Some(value) ==> policy_in(
            env,
            enabled,
        ).destinations == destinations_of(telemetry::sink_names(value)),
        env("DYN_REQUEST_TRACE_DESTINATIONS"@) is None ==> (env(
            "DYN_REQUEST_TRACE_SINKS"@,
        ) matches Some(value) ==> policy_in(env, enabled).destinations == destinations_of(
            telemetry::sink_names(value),
        )),
        env("DYN_REQUEST_TRACE_DESTINATIONS"@) is None && env("DYN_REQUEST_TRACE_SINKS"@) is None
            && enabled ==> policy_in(env, enabled).destinations == seq![
            RequestTraceDestination::File,
        ],
        env("DYN_REQUEST_TRACE_DESTINATIONS"@) is None && env("DYN_REQUEST_TRACE_SINKS"@) is None
            && !enabled ==> policy_in(env, enabled).destinations.len() == 0,
{
}

/// The trace file is where `DYN_REQUEST_TRACE_FILE_PATH` says, else where
/// `DYN_REQUEST_TRACE_OUTPUT_PATH` does, and else in the default place exactly when
/// tracing is on and goes to a file.
pub proof fn file_path_is_its_variable(env: Env, enabled: bool)
    ensures
        text::setting(env("DYN_REQUEST_TRACE_FILE_PATH"@)) is Some ==> policy_in(
            env,
            enabled,
        ).file_path == text::setting(env("DYN_REQUEST_TRACE_FILE_PATH"@)),
        text::setting(env("DYN_REQUEST_TRACE_FILE_PATH"@)) is None && text::setting(
            env("DYN_REQUEST_TRACE_OUTPUT_PATH"@),
        ) is Some ==> policy_in(env, enabled).file_path == text::setting(
            env("DYN_REQUEST_TRACE_OUTPUT_PATH"@),
        ),
        text::setting(env("DYN_REQUEST_TRACE_FILE_PATH"@)) is None && text::setting(
            env("DYN_REQUEST_TRACE_OUTPUT_PATH"@),
        ) is None ==> policy_in(env, enabled).file_path == (if enabled && policy_in(
            env,
            enabled,
        ).destinations.contains(RequestTraceDestination::File) {
            Some("/tmp/dynamo-request-trace"@)
        } else {
            None
        }),
{
}

/// The trace file is uncompressed exactly when `DYN_REQUEST_TRACE_FILE_COMPRESSION`
/// switches compression off, or is unset and only the legacy plain name is listed.
pub proof fn file_compression_is_its_variable(env: Env, enabled: bool, names: Seq<Seq<char>>)
    requires
        env("DYN_REQUEST_TRACE_DESTINATIONS"@) matches Some(value) ==> names
            == telemetry::sink_names(value),
        env("DYN_REQUEST_TRACE_DESTINATIONS"@) is None ==> (env(
            "DYN_REQUEST_TRACE_SINKS"@,
        ) matches Some(value) ==> names == telemetry::sink_names(value)),
        env("DYN_REQUEST_TRACE_DESTINATIONS"@) is None && env("DYN_REQUEST_TRACE_SINKS"@) is None
            ==> names.len() == 0,
    ensures
        policy_in(env, enabled).file_format == RequestTraceFileFormat::Jsonl,
        policy_in(env, enabled).file_compression == RequestTraceFileCompression::Uncompressed
            <==> match text::setting(env("DYN_REQUEST_TRACE_FILE_COMPRESSION"@)) {
            Some(value) => text::lowercase(value) == "none"@ || text::lowercase(value) == "off"@
                || text::lowercase(value) == "false"@,
            None => names.contains("jsonl"@) && !names.contains("jsonl_gz"@),
        },
{
    let raw = env("DYN_REQUEST_TRACE_FILE_COMPRESSION"@);
    if text::setting(raw) is Some {
        text::trim_is_idempotent(raw->0);
    }
}

/// The queue holds as many records as `DYN_REQUEST_TRACE_CAPACITY` says, and 1024 where
/// that is no number.
pub proof fn capacity_is_its_variable(env: Env, enabled: bool)
    ensures
        match env("DYN_REQUEST_TRACE_CAPACITY"@) {
            Some(value) => match text::unsigned_of(value, usize::MAX as nat) {
                Some(n) => policy_in(env, enabled).capacity == n,
                None => policy_in(env, enabled).capacity == 1024,
            },
            None => policy_in(env, enabled).capacity == 1024,
        },
{
}

/// The file is buffered by as many bytes as `DYN_REQUEST_TRACE_FILE_BUFFER_BYTES` says, or
/// else its legacy spelling, and by one mebibyte where that is no number.
pub proof fn file_buffer_bytes_is_its_variable(env: Env, enabled: bool, raw: Option<Seq<char>>)
    requires
        env("DYN_REQUEST_TRACE_FILE_BUFFER_BYTES"@) is Some ==> raw == env("DYN_REQUEST_TRACE_FILE_BUFFER_BYTES"@),
        env("DYN_REQUEST_TRACE_FILE_BUFFER_BYTES"@) is None ==> raw == env("DYN_REQUEST_TRACE_JSONL_BUFFER_BYTES"@),
    ensures
        match raw {
            Some(value) => match text::unsigned_of(value, usize::MAX as nat) {
                Some(n) => policy_in(env, enabled).file_buffer_bytes == n,
                None => policy_in(env, enabled).file_buffer_bytes == 1048576,
            },
            None => policy_in(env, enabled).file_buffer_bytes == 1048576,
        },
{
}

/// The file is flushed as often as `DYN_REQUEST_TRACE_FILE_FLUSH_INTERVAL_MS` says, or
/// else its legacy spelling, and every second where that is no number.
pub proof fn file_flush_interval_ms_is_its_variable(env: Env, enabled: bool, raw: Option<Seq<char>>)
    requires
        env("DYN_REQUEST_TRACE_FILE_FLUSH_INTERVAL_MS"@) is Some ==> raw == env("DYN_REQUEST_TRACE_FILE_FLUSH_INTERVAL_MS"@),
        env("DYN_REQUEST_TRACE_FILE_FLUSH_INTERVAL_MS"@) is None ==> raw == env("DYN_REQUEST_TRACE_JSONL_FLUSH_INTERVAL_MS"@),
    ensures
        match raw {
            Some(value) => match text::unsigned_of(value, u64::MAX as nat) {
                Some(n) => policy_in(env, enabled).file_flush_interval_ms == n,
                None => policy_in(env, enabled).file_flush_interval_ms == 1000,
            },
            None => policy_in(env, enabled).file_flush_interval_ms == 1000,
        },
{
}

/// The file rolls at as many bytes as `DYN_REQUEST_TRACE_FILE_ROLL_BYTES` says, or else
/// its legacy spelling, and at 256 mebibytes where that is no positive number.
pub proof fn file_roll_bytes_is_its_variable(env: Env, enabled: bool, raw: Option<Seq<char>>)
    requires
        env("DYN_REQUEST_TRACE_FILE_ROLL_BYTES"@) is Some ==> raw == env("DYN_REQUEST_TRACE_FILE_ROLL_BYTES"@),
        env("DYN_REQUEST_TRACE_FILE_ROLL_BYTES"@) is None ==> raw == env("DYN_REQUEST_TRACE_JSONL_GZ_ROLL_BYTES"@),
    ensures
        match raw {
            Some(value) => match text::unsigned_of(value, u64::MAX as nat) {
                Some(n) => if n > 0 {
                    policy_in(env, enabled).file_roll_bytes == n
                } else {
                    policy_in(env, enabled).file_roll_bytes == 268435456
                },
                None => policy_in(env, enabled).file_roll_bytes == 268435456,
            },
            None => policy_in(env, enabled).file_roll_bytes == 268435456,
        },
{
}

/// The file rolls at as many lines as `DYN_REQUEST_TRACE_FILE_ROLL_LINES` says, or else
/// its legacy spelling, and at none where that is no positive number.
pub proof fn file_roll_lines_is_its_variable(env: Env, enabled: bool, raw: Option<Seq<char>>)
    requires
        env("DYN_REQUEST_TRACE_FILE_ROLL_LINES"@) is Some ==> raw == env("DYN_REQUEST_TRACE_FILE_ROLL_LINES"@),
        env("DYN_REQUEST_TRACE_FILE_ROLL_LINES"@) is None ==> raw == env("DYN_REQUEST_TRACE_JSONL_GZ_ROLL_LINES"@),
    ensures
        match raw {
            Some(value) => match text::unsigned_of(value, u64::MAX as nat) {
                Some(n) => if n > 0 {
                    policy_in(env, enabled).file_roll_lines == Some(n)
                } else {
                    policy_in(env, enabled).file_roll_lines is None
                },
                None => policy_in(env, enabled).file_roll_lines is None,
            },
            None => policy_in(env, enabled).file_roll_lines is None,
        },
{
}

/// Tool events come from the endpoint that its variable holds, on the topic that the
/// other one does, or on the default topic.
pub proof fn tool_events_are_their_variables(env: Env, enabled: bool)
    ensures
        policy_in(env, enabled).tool_events_zmq_endpoint == text::setting(
            env("DYN_REQUEST_TRACE_TOOL_EVENTS_ZMQ_ENDPOINT"@),
        ),
        policy_in(env, enabled).tool_events_zmq_endpoint is None ==> policy_in(
            env,
            enabled,
        ).tool_events_zmq_topic is None,
        policy_in(env, enabled).tool_events_zmq_endpoint is Some ==> policy_in(
            env,
            enabled,
        ).tool_events_zmq_topic == Some(
            match text::setting(env("DYN_REQUEST_TRACE_TOOL_EVENTS_ZMQ_TOPIC"@)) {
                Some(topic) => topic,
                None => "agent-tool-events"@,
            },
        ),
{
}

/// What is told as ignored are the unknown names of the list that counts, and the format
/// and the compression where they are set and not known.
pub proof fn ignored_settings_are_their_variables(env: Env)
    ensures
        env("DYN_REQUEST_TRACE_DESTINATIONS"@) matches Some(value) ==> ignored_in(env).destinations
            == ignored_of(telemetry::sink_names(value)),
        env("DYN_REQUEST_TRACE_DESTINATIONS"@) is None ==> (env(
            "DYN_REQUEST_TRACE_SINKS"@,
        ) matches Some(value) ==> ignored_in(env).destinations == ignored_of(
            telemetry::sink_names(value),
        )),
        env("DYN_REQUEST_TRACE_DESTINATIONS"@) is None && env("DYN_REQUEST_TRACE_SINKS"@) is None
            ==> ignored_in(env).destinations.len() == 0,
        match text::setting(env("DYN_REQUEST_TRACE_FILE_FORMAT"@)) {
            Some(value) => if text::lowercase(value) == "jsonl"@ {
                ignored_in(env).file_format is None
            } else {
                ignored_in(env).file_format == Some(text::lowercase(value))
            },
            None => ignored_in(env).file_format is None,
        },
        match text::setting(env("DYN_REQUEST_TRACE_FILE_COMPRESSION"@)) {
            Some(value) => ignored_in(env).file_compression == unknown_compression(
                text::lowercase(value),
            ),
            None => ignored_in(env).file_compression is None,
        },
{
    let format = env("DYN_REQUEST_TRACE_FILE_FORMAT"@);
    let compression = env("DYN_REQUEST_TRACE_FILE_COMPRESSION"@);
    if text::setting(format) is Some {
        text::trim_is_idempotent(format->0);
    }
    if text::setting(compression) is Some {
        text::trim_is_idempotent(compression->0);
    }
}

/// What a policy says is what it holds.
pub proof fn policy_says_what_it_holds(policy: RequestTracePolicy, ignored: IgnoredSettings)
    ensures
        policy@.enabled == policy.enabled,
        policy@.destinations == policy.destinations@,
        policy@.file_path is Some <==> policy.file_path is Some,
        policy.file_path is Some ==> policy@.file_path->0 == policy.file_path->0@,
        policy@.file_format == policy.file_format,
        policy@.file_compression == policy.file_compression,
        policy@.capacity == policy.capacity,
        policy@.file_buffer_bytes == policy.file_buffer_bytes,
        policy@.file_flush_interval_ms == policy.file_flush_interval_ms,
        policy@.file_roll_bytes == policy.file_roll_bytes,
        policy@.file_roll_lines is Some <==> policy.file_roll_lines is Some,
        policy.file_roll_lines is Some ==> policy@.file_roll_lines->0 == policy.file_roll_lines->0,
        policy@.tool_events_zmq_endpoint is Some <==> policy.tool_events_zmq_endpoint is Some,
        policy.tool_events_zmq_endpoint is Some ==> policy@.tool_events_zmq_endpoint->0
            == policy.tool_events_zmq_endpoint->0@,
        policy@.tool_events_zmq_topic is Some <==> policy.tool_events_zmq_topic is Some,
        policy.tool_events_zmq_topic is Some ==> policy@.tool_events_zmq_topic->0
            == policy.tool_events_zmq_topic->0@,
        ignored@.destinations.len() == ignored.destinations@.len(),
        forall|i: int|
            0 <= i < ignored.destinations@.len() ==> #[trigger] ignored@.destinations[i]
                == ignored.destinations@[i]@,
        ignored@.file_format is Some <==> ignored.file_format is Some,
        ignored.file_format is Some ==> ignored@.file_format->0 == ignored.file_format->0@,
        ignored@.file_compression is Some <==> ignored.file_compression is Some,
        ignored.file_compression is Some ==> ignored@.file_compression->0
            == ignored.file_compression->0@,
{
}

/// What a value is parsed as depends on its trimmed text in lower case alone.
pub proof fn parsed_names_ignore_case_and_padding(
    value: &str,
    compression: RequestTraceFileCompression,
    ignored: Option<String>,
    format: Option<String>,
)
    requires
        call_ensures(parse_file_compression, (value,), compression),
        call_ensures(ignored_file_compression, (value,), ignored),
        call_ensures(ignored_file_format, (value,), format),
    ensures
        ({
            let name = text::lowercase(text::trim(value@));
            &&& compression == RequestTraceFileCompression::Uncompressed <==> name == "none"@
                || name == "off"@ || name == "false"@
            &&& ignored is None <==> name == "none"@ || name == "off"@ || name == "false"@ || name
                == "gzip"@ || name == "gz"@ || name == "jsonl_gz"@
            &&& ignored is Some ==> ignored->0@ == name
            &&& format is None <==> name == "jsonl"@
            &&& format is Some ==> format->0@ == name
        }),
{
}

/// Destinations, the format and the compressions have their names.
pub proof fn names_are_spelled(
    destination: RequestTraceDestination,
    format: RequestTraceFileFormat,
    compression: RequestTraceFileCompression,
    d: &'static str,
    f: &'static str,
    c: &'static str,
)
    requires
        call_ensures(RequestTraceDestination::as_str, (destination,), d),
        call_ensures(RequestTraceFileFormat::as_str, (format,), f),
        call_ensures(RequestTraceFileCompression::as_str, (compression,), c),
    ensures
        d@ == match destination {
            RequestTraceDestination::File => "file"@,
            RequestTraceDestination::Stderr => "stderr"@,
        },
        f@ == "jsonl"@,
        c@ == match compression {
            RequestTraceFileCompression::Uncompressed => "none"@,
            RequestTraceFileCompression::Gzip => "gzip"@,
        },
{
}

/// A policy names its destinations in their order, and traces exactly when it is enabled.
pub proof fn policy_names_its_destinations(
    policy: RequestTracePolicy,
    names: Vec<&'static str>,
    enabled: bool,
    i: int,
)
    requires
        call_ensures(RequestTracePolicy::destination_names, (&policy,), names),
        call_ensures(is_enabled, (&policy,), enabled),
    ensures
        enabled == policy.enabled,
        names@.len() == policy.destinations@.len(),
        0 <= i < names@.len() ==> names@[i]@ == match policy.destinations@[i] {
            RequestTraceDestination::File => "file"@,
            RequestTraceDestination::Stderr => "stderr"@,
        },
{
    if 0 <= i < names@.len() {
        assert(names@[i]@ == policy@.destinations[i].name());
    }
}

/// Names that are parsed ask for the file exactly when one of its names is among them, for
/// stderr exactly when that is, and for a compression only by a legacy name.
pub proof fn parsed_destinations_are_the_named_ones(
    names: Vec<String>,
    r: (Vec<RequestTraceDestination>, Option<RequestTraceFileCompression>),
)
    requires
        call_ensures(destinations_from_names, (&names,), r),
    ensures
        r.0@.no_duplicates(),
        r.0@.contains(RequestTraceDestination::File) <==> exists|i: int|
            0 <= i < names@.len() && ((#[trigger] names@[i])@ == "file"@ || names@[i]@ == "jsonl"@
                || names@[i]@ == "jsonl_gz"@),
        r.0@.contains(RequestTraceDestination::Stderr) <==> exists|i: int|
            0 <= i < names@.len() && (#[trigger] names@[i])@ == "stderr"@,
        r.1 == Some(RequestTraceFileCompression::Gzip) <==> exists|i: int|
            0 <= i < names@.len() && (#[trigger] names@[i])@ == "jsonl_gz"@,
        r.1 is Some <==> exists|i: int|
            0 <= i < names@.len() && ((#[trigger] names@[i])@ == "jsonl"@ || names@[i]@
                == "jsonl_gz"@),
{
    let all = text::texts(names@);
    listed_names_are_the_destinations(all);
    legacy_names_ask_for_compression(all);
    assert forall|name: Seq<char>| #[trigger] all.contains(name) <==> exists|i: int|
        0 <= i < names@.len() && (#[trigger] names@[i])@ == name by {
        if all.contains(name) {
            let i = choose|i: int| 0 <= i < all.len() && all[i] == name;
            assert(names@[i]@ == name);
        }
        if exists|i: int| 0 <= i < names@.len() && (#[trigger] names@[i])@ == name {
            let i = choose|i: int| 0 <= i < names@.len() && (#[trigger] names@[i])@ == name;
            assert(all[i] == name);
        }
    }
}

/// A list is parsed as its names are.
pub proof fn lists_are_parsed_by_their_names(
    value: &str,
    names: Vec<String>,
    a: (Vec<RequestTraceDestination>, Option<RequestTraceFileCompression>),
    b: (Vec<RequestTraceDestination>, Option<RequestTraceFileCompression>),
)
    requires
        call_ensures(parse_destination_names, (value,), a),
        call_ensures(destinations_from_names, (&names,), b),
        text::texts(names@) == telemetry::sink_names(value@),
    ensures
        a.0@ == b.0@,
        a.1 == b.1,
{
}

/// The ignored names are those of the list that stand for nothing, none left out.
pub proof fn picked_names_stand_for_nothing(names: Vec<String>, r: Vec<String>, name: Seq<char>)
    requires
        call_ensures(ignored_names, (&names,), r),
    ensures
        text::texts(r@).contains(name) <==> text::texts(names@).contains(name) && name != "file"@
            && name != "jsonl"@ && name != "jsonl_gz"@ && name != "stderr"@,
        r@.len() <= names@.len(),
{
    names_are_used_or_ignored(text::texts(names@), name);
    four_names_stand_for_destinations(name);
    lemma_ignored_are_no_more(text::texts(names@));
    assert(text::texts(r@).len() == r@.len());
}

proof fn lemma_ignored_are_no_more(names: Seq<Seq<char>>)
    ensures
        ignored_of(names).len() <= names.len(),
    decreases names.len(),
{
    if names.len() > 0 {
        lemma_ignored_are_no_more(names.drop_last());
    }
}

/// A compression name in lower case is parsed as any other spelling of it.
pub proof fn compression_is_parsed_in_lower_case(
    value: &str,
    lowered: &str,
    a: RequestTraceFileCompression,
    b: RequestTraceFileCompression,
    format: RequestTraceFileFormat,
)
    requires
        call_ensures(parse_file_compression, (value,), a),
        call_ensures(compression_from_name, (lowered,), b),
        call_ensures(parse_file_format, (value,), format),
    ensures
        b == RequestTraceFileCompression::Uncompressed <==> lowered@ == "none"@ || lowered@
            == "off"@ || lowered@ == "false"@,
        lowered@ == text::lowercase(text::trim(value@)) ==> a == b,
        format == RequestTraceFileFormat::Jsonl,
{
}

} // verus!
