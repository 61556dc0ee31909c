//! Router-only mode configuration.
//!
//! `DYN_EPP_MODE` selects the operating mode: `full-dynamo-stack` (default) or
//! `router-only`, which fronts raw `vllm serve` pods with no Dynamo runtime and
//! delegates KV-aware selection to the standalone selection service. In
//! router-only mode `DYN_EPP_SELECTOR_MODE` picks how the selector is reached.
//! The pod selector and target port come from the `InferencePool`; the rest of
//! the contract comes from the environment and is parsed here.

use vstd::prelude::*;

use crate::env;
use crate::env::Env;
use crate::text;
use crate::text::{same_text, trimmed, NumberError, Unsigned};

verus! {

pub const DEFAULT_KV_EVENT_PORT: u16 = 5557;

pub const DEFAULT_DATA_PARALLEL_SIZE: u32 = 1;

pub const DEFAULT_SELECTOR_THREADS: usize = 4;

pub const DEFAULT_SELECTOR_HTTP_PORT: u16 = 8092;

pub const DEFAULT_SELECTOR_REPLICA_SYNC_PORT: u16 = 9092;

/// Environment variable that selects the operating mode.
pub const DYN_EPP_MODE: &'static str = "DYN_EPP_MODE";

/// `DYN_EPP_MODE` value selecting router-only mode.
pub const ROUTER_ONLY_MODE: &'static str = "router-only";

/// `DYN_EPP_MODE` value selecting the default full Dynamo stack.
pub const FULL_DYNAMO_STACK_MODE: &'static str = "full-dynamo-stack";

/// Why a configuration was refused.
#[derive(Debug)]
pub enum ConfigError {
    /// `DYN_EPP_MODE` holds neither of the two mode names.
    InvalidMode { value: String },
    /// `DYN_EPP_SELECTOR_MODE` holds neither `http` nor `embedded`.
    InvalidSelectorMode { value: String },
    /// `DYN_EPP_SELECTOR_SERVICE` is required in http selector mode.
    MissingSelectorService,
    /// A variable that router-only mode requires is unset.
    Missing { key: String },
    /// A variable that must hold a number does not.
    InvalidNumber { key: String, value: String, reason: NumberError },
    /// A variable that must be greater than zero is zero.
    Zero { key: String },
}

/// What a [`ConfigError`] says.
pub enum ConfigFault {
    InvalidMode(Seq<char>),
    InvalidSelectorMode(Seq<char>),
    MissingSelectorService,
    Missing(Seq<char>),
    InvalidNumber(Seq<char>, Seq<char>, NumberError),
    Zero(Seq<char>),
}

impl View for ConfigError {
    type V = ConfigFault;

    open spec fn view(&self) -> ConfigFault {
        match self {
            ConfigError::InvalidMode { value } => ConfigFault::InvalidMode(value@),
            ConfigError::InvalidSelectorMode { value } => ConfigFault::InvalidSelectorMode(value@),
            ConfigError::MissingSelectorService => ConfigFault::MissingSelectorService,
            ConfigError::Missing { key } => ConfigFault::Missing(key@),
            ConfigError::InvalidNumber { key, value, reason } => ConfigFault::InvalidNumber(
                key@,
                value@,
                *reason,
            ),
            ConfigError::Zero { key } => ConfigFault::Zero(key@),
        }
    }
}

/// Top-level operating mode from `DYN_EPP_MODE`.
#[derive(Debug, Clone, Copy, PartialEq, Eq, Structural)]
pub enum EppMode {
    /// Default: attach to a Dynamo deployment (etcd/NATS + embedded KV router).
    FullDynamoStack,
    /// Front raw `vllm serve` pods with no Dynamo runtime.
    RouterOnly,
}

/// The mode that an environment asks for.
pub open spec fn mode_of(env: Env) -> Result<EppMode, ConfigFault> {
    match text::setting(env("DYN_EPP_MODE"@)) {
        None => Ok(EppMode::FullDynamoStack),
        Some(value) => if value == "full-dynamo-stack"@ {
            Ok(EppMode::FullDynamoStack)
        } else if value == "router-only"@ {
            Ok(EppMode::RouterOnly)
        } else {
            Err(ConfigFault::InvalidMode(value))
        },
    }
}

impl EppMode {
    /// Parse the mode, failing fast on an unrecognized value so a typo (e.g.
    /// `router_only`) can never silently fall through to full-dynamo mode.
    pub fn parse<F: Fn(&str) -> Option<String>>(get: &F) -> (r: Result<EppMode, ConfigError>)
        requires
            env::total(*get),
        ensures
            forall|env: Env| #[trigger]
                env::reads(*get, env) ==> match r {
                    Ok(mode) => mode_of(env) == Ok::<EppMode, ConfigFault>(mode),
                    Err(e) => mode_of(env) == Err::<EppMode, ConfigFault>(e@),
                },
            r == Ok::<EppMode, ConfigError>(EppMode::RouterOnly) ==> forall|env: Env| #[trigger]
                env::reads(*get, env) ==> text::setting(env("DYN_EPP_MODE"@)) == Some(
                    "router-only"@,
                ),
    {
        match trimmed(env::look_up(get, DYN_EPP_MODE)) {
            None => Ok(EppMode::FullDynamoStack),
            Some(value) => {
                if same_text(value.as_str(), FULL_DYNAMO_STACK_MODE) {
                    Ok(EppMode::FullDynamoStack)
                } else if same_text(value.as_str(), ROUTER_ONLY_MODE) {
                    Ok(EppMode::RouterOnly)
                } else {
                    Err(ConfigError::InvalidMode { value })
                }
            },
        }
    }
}

/// How the worker selector is reached.
#[derive(Debug, Clone, Copy, PartialEq, Eq, Structural)]
pub enum SelectorBackendMode {
    /// Replicated/production: HTTP client to selection-service replicas.
    Http,
    /// Single-image evaluation: an in-process selection core, no HTTP client.
    Embedded,
}

/// Default selector backend when `DYN_EPP_SELECTOR_MODE` is unset: HTTP when that
/// backend is built in, otherwise embedded.
pub fn default_mode(selector_http: bool) -> (r: SelectorBackendMode)
    ensures
        r == default_mode_of(selector_http),
{
    if selector_http {
        SelectorBackendMode::Http
    } else {
        SelectorBackendMode::Embedded
    }
}

pub open spec fn default_mode_of(selector_http: bool) -> SelectorBackendMode {
    if selector_http {
        SelectorBackendMode::Http
    } else {
        SelectorBackendMode::Embedded
    }
}

/// Router-only configuration, built from the environment with fail-fast
/// validation. The pod selector and target port are not here: they come from
/// the `InferencePool` named by `pool_name` at runtime.
#[derive(Debug, Clone)]
pub struct EppConfig {
    /// How the selector is reached (HTTP fleet vs in-process embedded).
    pub mode: SelectorBackendMode,
    /// Selection-service `Service` whose EndpointSlices are watched. Required
    /// for [`SelectorBackendMode::Http`]; unused for [`SelectorBackendMode::Embedded`].
    pub selector_service: String,
    /// Namespace of the selection-service `Service` (default `POD_NAMESPACE`).
    pub selector_service_namespace: Option<String>,
    /// HTTP port each selection-service replica serves on.
    pub selector_http_port: u16,
    /// ZMQ replica-sync PUB port each selection-service replica binds.
    pub selector_replica_sync_port: u16,
    /// KV indexer thread-pool size for [`SelectorBackendMode::Embedded`].
    pub selector_threads: usize,
    /// `InferencePool` that is backed; its selector + target port drive discovery.
    pub pool_name: String,
    /// Namespace of the `InferencePool` (default `POD_NAMESPACE`).
    pub pool_namespace: Option<String>,
    /// Model id used to build the offline tokenizer (no model card in this mode).
    pub model_name: String,
    /// KV-cache block size; must equal the vLLM `--block-size`.
    pub block_size: u32,
    /// vLLM `--kv-events-config` PUB port the selector subscribes to.
    pub kv_event_port: u16,
    /// vLLM `--kv-events-config` topic (default empty).
    pub kv_event_topic: String,
    /// Optional ZMQ REQ port the selector uses for live-stream gap replay.
    pub replay_port: Option<u16>,
    /// Engine data-parallel size (default 1).
    pub data_parallel_size: u32,
    /// Optional per-worker total KV blocks hint for the selector's load model.
    pub total_kv_blocks: Option<u64>,
    /// Optional per-worker max batched tokens (needed only when queueing is on).
    pub max_num_batched_tokens: Option<u64>,
}

/// What an [`EppConfig`] holds.
#[verifier::ext_equal]
pub struct EppConfigView {
    pub mode: SelectorBackendMode,
    pub selector_service: Seq<char>,
    pub selector_service_namespace: Option<Seq<char>>,
    pub selector_http_port: nat,
    pub selector_replica_sync_port: nat,
    pub selector_threads: nat,
    pub pool_name: Seq<char>,
    pub pool_namespace: Option<Seq<char>>,
    pub model_name: Seq<char>,
    pub block_size: nat,
    pub kv_event_port: nat,
    pub kv_event_topic: Seq<char>,
    pub replay_port: Option<nat>,
    pub data_parallel_size: nat,
    pub total_kv_blocks: Option<nat>,
    pub max_num_batched_tokens: Option<nat>,
}

impl View for EppConfig {
    type V = EppConfigView;

    open spec fn view(&self) -> EppConfigView {
        EppConfigView {
            mode: self.mode,
            selector_service: self.selector_service@,
            selector_service_namespace: text::optional_text(self.selector_service_namespace),
            selector_http_port: self.selector_http_port as nat,
            selector_replica_sync_port: self.selector_replica_sync_port as nat,
            selector_threads: self.selector_threads as nat,
            pool_name: self.pool_name@,
            pool_namespace: text::optional_text(self.pool_namespace),
            model_name: self.model_name@,
            block_size: self.block_size as nat,
            kv_event_port: self.kv_event_port as nat,
            kv_event_topic: self.kv_event_topic@,
            replay_port: match self.replay_port {
                Some(port) => Some(port as nat),
                None => None,
            },
            data_parallel_size: self.data_parallel_size as nat,
            total_kv_blocks: match self.total_kv_blocks {
                Some(n) => Some(n as nat),
                None => None,
            },
            max_num_batched_tokens: match self.max_num_batched_tokens {
                Some(n) => Some(n as nat),
                None => None,
            },
        }
    }
}

// ---------------------------------------------------------------------------
// What an environment says
// ---------------------------------------------------------------------------

/// The text of a variable, or nothing when it is unset.
pub open spec fn text_or_empty(env: Env, key: Seq<char>) -> Seq<char> {
    match text::setting(env(key)) {
        Some(value) => value,
        None => Seq::empty(),
    }
}

/// The number that a variable holds, if it is set and is one.
pub open spec fn number_of(env: Env, key: Seq<char>, max: nat) -> Option<nat> {
    match text::setting(env(key)) {
        Some(value) => text::unsigned_of(value, max),
        None => None,
    }
}

/// The number that a variable holds, or a default when it is unset.
pub open spec fn number_or(env: Env, key: Seq<char>, max: nat, default: nat) -> nat {
    match number_of(env, key, max) {
        Some(n) => n,
        None => default,
    }
}

/// What is wrong with a variable that may be unset but must otherwise be a number.
pub open spec fn number_fault(env: Env, key: Seq<char>, max: nat) -> Option<ConfigFault> {
    match text::setting(env(key)) {
        Some(value) => match text::unsigned_of(value, max) {
            Some(n) => None,
            None => Some(
                ConfigFault::InvalidNumber(key, value, text::number_error(value, max)),
            ),
        },
        None => None,
    }
}

/// What is wrong with a variable that must be set.
pub open spec fn missing_fault(env: Env, key: Seq<char>) -> Option<ConfigFault> {
    match text::setting(env(key)) {
        Some(value) => None,
        None => Some(ConfigFault::Missing(key)),
    }
}

/// What is wrong with a variable that, where it is a number, must not be zero.
pub open spec fn zero_fault(env: Env, key: Seq<char>, max: nat) -> Option<ConfigFault> {
    if number_of(env, key, max) == Some(0nat) {
        Some(ConfigFault::Zero(key))
    } else {
        None
    }
}

/// The selector mode that an environment asks for, where it names one.
pub open spec fn selector_mode_of(env: Env, selector_http: bool) -> SelectorBackendMode {
    match text::setting(env("DYN_EPP_SELECTOR_MODE"@)) {
        None => default_mode_of(selector_http),
        Some(value) => if value == "http"@ {
            SelectorBackendMode::Http
        } else {
            SelectorBackendMode::Embedded
        },
    }
}

/// What is wrong with `DYN_EPP_SELECTOR_MODE`.
pub open spec fn selector_mode_fault(env: Env) -> Option<ConfigFault> {
    match text::setting(env("DYN_EPP_SELECTOR_MODE"@)) {
        None => None,
        Some(value) => if value == "http"@ || value == "embedded"@ {
            None
        } else {
            Some(ConfigFault::InvalidSelectorMode(value))
        },
    }
}

/// What is wrong with `DYN_EPP_SELECTOR_SERVICE`, which only the HTTP fleet needs.
pub open spec fn selector_service_fault(env: Env, selector_http: bool) -> Option<ConfigFault> {
    if selector_mode_of(env, selector_http) == SelectorBackendMode::Http && text_or_empty(
        env,
        "DYN_EPP_SELECTOR_SERVICE"@,
    ).len() == 0 {
        Some(ConfigFault::MissingSelectorService)
    } else {
        None
    }
}

/// The first of two faults.
pub open spec fn first(a: Option<ConfigFault>, b: Option<ConfigFault>) -> Option<ConfigFault> {
    if a is Some {
        a
    } else {
        b
    }
}

/// The first fault among the settings of the selector.
pub open spec fn selector_fault(env: Env, selector_http: bool) -> Option<ConfigFault> {
    first(
        selector_mode_fault(env),
        first(
            selector_service_fault(env, selector_http),
            first(
                number_fault(env, "DYN_EPP_SELECTOR_HTTP_PORT"@, u16::MAX as nat),
                first(
                    number_fault(env, "DYN_EPP_SELECTOR_REPLICA_SYNC_PORT"@, u16::MAX as nat),
                    number_fault(env, "DYN_EPP_SELECTOR_THREADS"@, usize::MAX as nat),
                ),
            ),
        ),
    )
}

/// The first fault among the settings of the pool and its model.
pub open spec fn pool_fault(env: Env) -> Option<ConfigFault> {
    first(
        missing_fault(env, "DYN_EPP_POOL_NAME"@),
        first(
            missing_fault(env, "DYN_MODEL_NAME"@),
            first(
                missing_fault(env, "DYN_KV_CACHE_BLOCK_SIZE"@),
                first(
                    number_fault(env, "DYN_KV_CACHE_BLOCK_SIZE"@, u32::MAX as nat),
                    zero_fault(env, "DYN_KV_CACHE_BLOCK_SIZE"@, u32::MAX as nat),
                ),
            ),
        ),
    )
}

/// The first fault among the settings of the engine.
pub open spec fn engine_fault(env: Env) -> Option<ConfigFault> {
    first(
        number_fault(env, "DYN_EPP_KV_EVENT_PORT"@, u16::MAX as nat),
        first(
            number_fault(env, "DYN_EPP_REPLAY_PORT"@, u16::MAX as nat),
            first(
                number_fault(env, "DYN_DATA_PARALLEL_SIZE"@, u32::MAX as nat),
                first(
                    zero_fault(env, "DYN_DATA_PARALLEL_SIZE"@, u32::MAX as nat),
                    first(
                        number_fault(env, "DYN_TOTAL_KV_BLOCKS"@, u64::MAX as nat),
                        number_fault(env, "DYN_MAX_NUM_BATCHED_TOKENS"@, u64::MAX as nat),
                    ),
                ),
            ),
        ),
    )
}

/// The first fault of a router-only environment, in the order in which its
/// settings are read.
pub open spec fn fault_of(env: Env, selector_http: bool) -> Option<ConfigFault> {
    first(selector_fault(env, selector_http), first(pool_fault(env), engine_fault(env)))
}

/// The configuration that an environment asks for, where every check passes.
pub open spec fn config_of(env: Env, selector_http: bool) -> EppConfigView {
    EppConfigView {
        mode: selector_mode_of(env, selector_http),
        selector_service: text_or_empty(env, "DYN_EPP_SELECTOR_SERVICE"@),
        selector_service_namespace: text::setting(env("DYN_EPP_SELECTOR_SERVICE_NAMESPACE"@)),
        selector_http_port: number_or(
            env,
            "DYN_EPP_SELECTOR_HTTP_PORT"@,
            u16::MAX as nat,
            DEFAULT_SELECTOR_HTTP_PORT as nat,
        ),
        selector_replica_sync_port: number_or(
            env,
            "DYN_EPP_SELECTOR_REPLICA_SYNC_PORT"@,
            u16::MAX as nat,
            DEFAULT_SELECTOR_REPLICA_SYNC_PORT as nat,
        ),
        selector_threads: number_or(
            env,
            "DYN_EPP_SELECTOR_THREADS"@,
            usize::MAX as nat,
            DEFAULT_SELECTOR_THREADS as nat,
        ),
        pool_name: text_or_empty(env, "DYN_EPP_POOL_NAME"@),
        pool_namespace: text::setting(env("DYN_EPP_POOL_NAMESPACE"@)),
        model_name: text_or_empty(env, "DYN_MODEL_NAME"@),
        block_size: number_or(env, "DYN_KV_CACHE_BLOCK_SIZE"@, u32::MAX as nat, 0),
        kv_event_port: number_or(
            env,
            "DYN_EPP_KV_EVENT_PORT"@,
            u16::MAX as nat,
            DEFAULT_KV_EVENT_PORT as nat,
        ),
        kv_event_topic: text_or_empty(env, "DYN_EPP_KV_EVENT_TOPIC"@),
        replay_port: number_of(env, "DYN_EPP_REPLAY_PORT"@, u16::MAX as nat),
        data_parallel_size: number_or(
            env,
            "DYN_DATA_PARALLEL_SIZE"@,
            u32::MAX as nat,
            DEFAULT_DATA_PARALLEL_SIZE as nat,
        ),
        total_kv_blocks: number_of(env, "DYN_TOTAL_KV_BLOCKS"@, u64::MAX as nat),
        max_num_batched_tokens: number_of(env, "DYN_MAX_NUM_BATCHED_TOKENS"@, u64::MAX as nat),
    }
}

// ---------------------------------------------------------------------------
// Parsing
// ---------------------------------------------------------------------------

/// Read a variable that must be set.
pub fn require<F: Fn(&str) -> Option<String>>(get: &F, key: &str) -> (r: Result<
    String,
    ConfigError,
>)
    requires
        env::total(*get),
    ensures
        forall|env: Env| #[trigger]
            env::reads(*get, env) ==> match r {
                Ok(value) => text::setting(env(key@)) == Some(value@),
                Err(e) => missing_fault(env, key@) == Some(e@),
            },
{
    match trimmed(env::look_up(get, key)) {
        Some(value) => Ok(value),
        None => Err(ConfigError::Missing { key: key.to_owned() }),
    }
}

/// Read a variable that must be set and hold a number.
pub fn require_parse<T: Unsigned, F: Fn(&str) -> Option<String>>(get: &F, key: &str) -> (r: Result<
    T,
    ConfigError,
>)
    requires
        env::total(*get),
    ensures
        forall|env: Env| #[trigger]
            env::reads(*get, env) ==> match r {
                Ok(n) => match number_of(env, key@, T::largest()) {
                    Some(value) => n == T::of_nat(value),
                    None => false,
                },
                Err(e) => match missing_fault(env, key@) {
                    Some(fault) => e@ == fault,
                    None => number_fault(env, key@, T::largest()) == Some(e@),
                },
            },
{
    match require(get, key) {
        Err(e) => Err(e),
        Ok(raw) => match T::parse_text(raw.as_str()) {
            Ok(n) => Ok(n),
            Err(reason) => Err(
                ConfigError::InvalidNumber { key: key.to_owned(), value: raw, reason },
            ),
        },
    }
}

/// Read a variable that may be unset and otherwise holds a number.
pub fn opt_parse<T: Unsigned, F: Fn(&str) -> Option<String>>(get: &F, key: &str) -> (r: Result<
    Option<T>,
    ConfigError,
>)
    requires
        env::total(*get),
    ensures
        forall|env: Env| #[trigger]
            env::reads(*get, env) ==> match r {
                Ok(None) => text::setting(env(key@)) is None,
                Ok(Some(n)) => match number_of(env, key@, T::largest()) {
                    Some(value) => n == T::of_nat(value),
                    None => false,
                },
                Err(e) => number_fault(env, key@, T::largest()) == Some(e@),
            },
{
    match trimmed(env::look_up(get, key)) {
        None => Ok(None),
        Some(raw) => match T::parse_text(raw.as_str()) {
            Ok(n) => Ok(Some(n)),
            Err(reason) => Err(
                ConfigError::InvalidNumber { key: key.to_owned(), value: raw, reason },
            ),
        },
    }
}

impl EppConfig {
    /// Parse and validate the router-only contract in a build that has the HTTP
    /// selector backend.
    pub fn parse<F: Fn(&str) -> Option<String>>(get: &F) -> (r: Result<EppConfig, ConfigError>)
        requires
            env::total(*get),
        ensures
            forall|env: Env| #[trigger]
                env::reads(*get, env) ==> match r {
                    Ok(config) => fault_of(env, true) is None && config@ == config_of(env, true),
                    Err(e) => fault_of(env, true) == Some(e@),
                },
    {
        Self::parse_for_build(get, true)
    }

    /// Parse and validate the router-only contract, given whether the HTTP
    /// selector backend is built in. The getter keeps parsing pure: callers supply
    /// a map or the process environment.
    pub fn parse_for_build<F: Fn(&str) -> Option<String>>(get: &F, selector_http: bool) -> (r:
        Result<EppConfig, ConfigError>)
        requires
            env::total(*get),
        ensures
            forall|env: Env| #[trigger]
                env::reads(*get, env) ==> match r {
                    Ok(config) => fault_of(env, selector_http) is None && config@ == config_of(
                        env,
                        selector_http,
                    ),
                    Err(e) => fault_of(env, selector_http) == Some(e@),
                },
            r matches Ok(config) ==> forall|env: Env| #[trigger]
                env::reads(*get, env) ==> {
                    &&& match text::setting(env("DYN_EPP_SELECTOR_HTTP_PORT"@)) {
                        Some(value) => text::unsigned_of(value, u16::MAX as nat) == Some(
                            config.selector_http_port as nat,
                        ),
                        None => config.selector_http_port == 8092,
                    }
                    &&& match text::setting(env("DYN_EPP_SELECTOR_REPLICA_SYNC_PORT"@)) {
                        Some(value) => text::unsigned_of(value, u16::MAX as nat) == Some(
                            config.selector_replica_sync_port as nat,
                        ),
                        None => config.selector_replica_sync_port == 9092,
                    }
                    &&& match text::setting(env("DYN_EPP_SELECTOR_THREADS"@)) {
                        Some(value) => text::unsigned_of(value, usize::MAX as nat) == Some(
                            config.selector_threads as nat,
                        ),
                        None => config.selector_threads == 4,
                    }
                    &&& match text::setting(env("DYN_EPP_KV_EVENT_PORT"@)) {
                        Some(value) => text::unsigned_of(value, u16::MAX as nat) == Some(
                            config.kv_event_port as nat,
                        ),
                        None => config.kv_event_port == 5557,
                    }
                    &&& match text::setting(env("DYN_DATA_PARALLEL_SIZE"@)) {
                        Some(value) => text::unsigned_of(value, u32::MAX as nat) == Some(
                            config.data_parallel_size as nat,
                        ),
                        None => config.data_parallel_size == 1,
                    }
                    &&& match text::setting(env("DYN_EPP_REPLAY_PORT"@)) {
                        Some(value) => config.replay_port is Some && text::unsigned_of(
                            value,
                            u16::MAX as nat,
                        ) == Some(config.replay_port->0 as nat),
                        None => config.replay_port is None,
                    }
                    &&& match text::setting(env("DYN_TOTAL_KV_BLOCKS"@)) {
                        Some(value) => config.total_kv_blocks is Some && text::unsigned_of(
                            value,
                            u64::MAX as nat,
                        ) == Some(config.total_kv_blocks->0 as nat),
                        None => config.total_kv_blocks is None,
                    }
                    &&& match text::setting(env("DYN_MAX_NUM_BATCHED_TOKENS"@)) {
                        Some(value) => config.max_num_batched_tokens is Some && text::unsigned_of(
                            value,
                            u64::MAX as nat,
                        ) == Some(config.max_num_batched_tokens->0 as nat),
                        None => config.max_num_batched_tokens is None,
                    }
                    &&& match text::setting(env("DYN_KV_CACHE_BLOCK_SIZE"@)) {
                        Some(value) => text::unsigned_of(value, u32::MAX as nat) == Some(
                            config.block_size as nat,
                        ),
                        None => false,
                    }
                    &&& text::setting(env("DYN_EPP_POOL_NAME"@)) == Some(config.pool_name@)
                    &&& text::setting(env("DYN_MODEL_NAME"@)) == Some(config.model_name@)
                },
    {
        let r = Self::read_settings(get, selector_http);
        proof {
            if r is Ok {
                let config = r->Ok_0;
                assert forall|env: Env| #[trigger] env::reads(*get, env) implies config@
                    == config_of(env, selector_http) && fault_of(env, selector_http) is None by {}
            }
        }
        r
    }

    /// Read the settings one by one and stop at the first fault.
    fn read_settings<F: Fn(&str) -> Option<String>>(get: &F, selector_http: bool) -> (r:
        Result<EppConfig, ConfigError>)
        requires
            env::total(*get),
        ensures
            forall|env: Env| #[trigger]
                env::reads(*get, env) ==> match r {
                    Ok(config) => fault_of(env, selector_http) is None && config@ == config_of(
                        env,
                        selector_http,
                    ),
                    Err(e) => fault_of(env, selector_http) == Some(e@),
                },
    {
        let mode = match trimmed(env::look_up(get, "DYN_EPP_SELECTOR_MODE")) {
            None => default_mode(selector_http),
            Some(value) => {
                if same_text(value.as_str(), "http") {
                    SelectorBackendMode::Http
                } else if same_text(value.as_str(), "embedded") {
                    SelectorBackendMode::Embedded
                } else {
                    let e = ConfigError::InvalidSelectorMode { value };
                    return Err(e);
                }
            },
        };

        // The selector Service is only meaningful for the HTTP fleet; embedded
        // runs the selector in-process and ignores it.
        let selector_service = match trimmed(env::look_up(get, "DYN_EPP_SELECTOR_SERVICE")) {
            Some(value) => value,
            None => String::new(),
        };
        if mode == SelectorBackendMode::Http && selector_service.as_str().is_empty() {
            return Err(ConfigError::MissingSelectorService);
        }
        let selector_service_namespace = trimmed(
            env::look_up(get, "DYN_EPP_SELECTOR_SERVICE_NAMESPACE"),
        );
        let selector_http_port: u16 = match opt_parse::<u16, F>(get, "DYN_EPP_SELECTOR_HTTP_PORT") {
            Ok(v) => v.unwrap_or(DEFAULT_SELECTOR_HTTP_PORT),
            Err(e) => return Err(e),
        };
        let selector_replica_sync_port: u16 = match opt_parse::<u16, F>(get, "DYN_EPP_SELECTOR_REPLICA_SYNC_PORT") {
            Ok(v) => v.unwrap_or(DEFAULT_SELECTOR_REPLICA_SYNC_PORT),
            Err(e) => return Err(e),
        };
        let selector_threads: usize = match opt_parse::<usize, F>(get, "DYN_EPP_SELECTOR_THREADS") {
            Ok(v) => v.unwrap_or(DEFAULT_SELECTOR_THREADS),
            Err(e) => return Err(e),
        };

        let pool_name = match require(get, "DYN_EPP_POOL_NAME") {
            Ok(v) => v,
            Err(e) => return Err(e),
        };
        let pool_namespace = trimmed(env::look_up(get, "DYN_EPP_POOL_NAMESPACE"));
        let model_name = match require(get, "DYN_MODEL_NAME") {
            Ok(v) => v,
            Err(e) => return Err(e),
        };
        let block_size: u32 = match require_parse::<u32, F>(get, "DYN_KV_CACHE_BLOCK_SIZE") {
            Ok(v) => v,
            Err(e) => return Err(e),
        };
        if block_size == 0 {
            return Err(ConfigError::Zero { key: "DYN_KV_CACHE_BLOCK_SIZE".to_owned() });
        }

        let kv_event_port: u16 = match opt_parse::<u16, F>(get, "DYN_EPP_KV_EVENT_PORT") {
            Ok(v) => v.unwrap_or(DEFAULT_KV_EVENT_PORT),
            Err(e) => return Err(e),
        };
        let kv_event_topic = match trimmed(env::look_up(get, "DYN_EPP_KV_EVENT_TOPIC")) {
            Some(value) => value,
            None => String::new(),
        };
        let replay_port = match opt_parse::<u16, F>(get, "DYN_EPP_REPLAY_PORT") {
            Ok(v) => v,
            Err(e) => return Err(e),
        };
        let data_parallel_size: u32 = match opt_parse::<u32, F>(get, "DYN_DATA_PARALLEL_SIZE") {
            Ok(v) => v.unwrap_or(DEFAULT_DATA_PARALLEL_SIZE),
            Err(e) => return Err(e),
        };
        if data_parallel_size == 0 {
            return Err(ConfigError::Zero { key: "DYN_DATA_PARALLEL_SIZE".to_owned() });
        }
        let total_kv_blocks = match opt_parse::<u64, F>(get, "DYN_TOTAL_KV_BLOCKS") {
            Ok(v) => v,
            Err(e) => return Err(e),
        };
        let max_num_batched_tokens = match opt_parse::<u64, F>(get, "DYN_MAX_NUM_BATCHED_TOKENS") {
            Ok(v) => v,
            Err(e) => return Err(e),
        };

        Ok(
            EppConfig {
                mode,
                selector_service,
                selector_service_namespace,
                selector_http_port,
                selector_replica_sync_port,
                selector_threads,
                pool_name,
                pool_namespace,
                model_name,
                block_size,
                kv_event_port,
                kv_event_topic,
                replay_port,
                data_parallel_size,
                total_kv_blocks,
                max_num_batched_tokens,
            },
        )
    }
}

// ---------------------------------------------------------------------------
// Laws
// ---------------------------------------------------------------------------

impl EppConfigView {
    /// What every accepted configuration satisfies.
    pub open spec fn valid(self) -> bool {
        &&& self.mode == SelectorBackendMode::Http ==> self.selector_service.len() > 0
        &&& self.pool_name.len() > 0
        &&& self.model_name.len() > 0
        &&& self.block_size > 0
        &&& self.data_parallel_size > 0
    }
}

/// An accepted configuration is valid: it names a pool and a model, its block size
/// and data-parallel size are positive, and in http selector mode it names the
/// selector Service.
pub proof fn accepted_config_is_valid(env: Env, selector_http: bool)
    requires
        fault_of(env, selector_http) is None,
    ensures
        config_of(env, selector_http).valid(),
{
}

proof fn lemma_service_key_is_its_own()
    ensures
        "DYN_EPP_SELECTOR_MODE"@ != "DYN_EPP_SELECTOR_SERVICE"@,
        "DYN_EPP_SELECTOR_HTTP_PORT"@ != "DYN_EPP_SELECTOR_SERVICE"@,
        "DYN_EPP_SELECTOR_REPLICA_SYNC_PORT"@ != "DYN_EPP_SELECTOR_SERVICE"@,
        "DYN_EPP_SELECTOR_THREADS"@ != "DYN_EPP_SELECTOR_SERVICE"@,
        "DYN_EPP_POOL_NAME"@ != "DYN_EPP_SELECTOR_SERVICE"@,
        "DYN_MODEL_NAME"@ != "DYN_EPP_SELECTOR_SERVICE"@,
        "DYN_KV_CACHE_BLOCK_SIZE"@ != "DYN_EPP_SELECTOR_SERVICE"@,
        "DYN_EPP_KV_EVENT_PORT"@ != "DYN_EPP_SELECTOR_SERVICE"@,
        "DYN_EPP_REPLAY_PORT"@ != "DYN_EPP_SELECTOR_SERVICE"@,
        "DYN_DATA_PARALLEL_SIZE"@ != "DYN_EPP_SELECTOR_SERVICE"@,
        "DYN_TOTAL_KV_BLOCKS"@ != "DYN_EPP_SELECTOR_SERVICE"@,
        "DYN_MAX_NUM_BATCHED_TOKENS"@ != "DYN_EPP_SELECTOR_SERVICE"@,
{
    reveal_strlit("DYN_EPP_SELECTOR_SERVICE");
    assert("DYN_EPP_SELECTOR_SERVICE"@.len() == 24);
    assert("DYN_EPP_SELECTOR_SERVICE"@[17] == 'S');
    reveal_strlit("DYN_EPP_SELECTOR_MODE");
    reveal_strlit("DYN_EPP_SELECTOR_HTTP_PORT");
    reveal_strlit("DYN_EPP_SELECTOR_REPLICA_SYNC_PORT");
    reveal_strlit("DYN_EPP_SELECTOR_THREADS");
    reveal_strlit("DYN_EPP_POOL_NAME");
    reveal_strlit("DYN_MODEL_NAME");
    reveal_strlit("DYN_KV_CACHE_BLOCK_SIZE");
    reveal_strlit("DYN_EPP_KV_EVENT_PORT");
    reveal_strlit("DYN_EPP_REPLAY_PORT");
    reveal_strlit("DYN_DATA_PARALLEL_SIZE");
    reveal_strlit("DYN_TOTAL_KV_BLOCKS");
    reveal_strlit("DYN_MAX_NUM_BATCHED_TOKENS");
    assert("DYN_EPP_SELECTOR_MODE"@.len() == 21);
    assert("DYN_EPP_SELECTOR_HTTP_PORT"@.len() == 26);
    assert("DYN_EPP_SELECTOR_REPLICA_SYNC_PORT"@.len() == 34);
    assert("DYN_EPP_SELECTOR_THREADS"@[17] == 'T');
    assert("DYN_EPP_POOL_NAME"@.len() == 17);
    assert("DYN_MODEL_NAME"@.len() == 14);
    assert("DYN_KV_CACHE_BLOCK_SIZE"@.len() == 23);
    assert("DYN_EPP_KV_EVENT_PORT"@.len() == 21);
    assert("DYN_EPP_REPLAY_PORT"@.len() == 19);
    assert("DYN_DATA_PARALLEL_SIZE"@.len() == 22);
    assert("DYN_TOTAL_KV_BLOCKS"@.len() == 19);
    assert("DYN_MAX_NUM_BATCHED_TOKENS"@.len() == 26);
}

/// Embedded mode does not require a selector Service: whatever
/// `DYN_EPP_SELECTOR_SERVICE` holds, the verdict on the environment is the same.
pub proof fn embedded_mode_does_not_require_service(a: Env, b: Env, selector_http: bool)
    requires
        selector_mode_of(a, selector_http) == SelectorBackendMode::Embedded,
        forall|key: Seq<char>| key != "DYN_EPP_SELECTOR_SERVICE"@ ==> #[trigger] a(key) == b(key),
    ensures
        fault_of(a, selector_http) == fault_of(b, selector_http),
        fault_of(a, selector_http) != Some(ConfigFault::MissingSelectorService),
{
    lemma_service_key_is_its_own();
    assert(a("DYN_EPP_SELECTOR_MODE"@) == b("DYN_EPP_SELECTOR_MODE"@));
    assert(a("DYN_EPP_SELECTOR_HTTP_PORT"@) == b("DYN_EPP_SELECTOR_HTTP_PORT"@));
    assert(a("DYN_EPP_SELECTOR_REPLICA_SYNC_PORT"@) == b("DYN_EPP_SELECTOR_REPLICA_SYNC_PORT"@));
    assert(a("DYN_EPP_SELECTOR_THREADS"@) == b("DYN_EPP_SELECTOR_THREADS"@));
    assert(a("DYN_EPP_POOL_NAME"@) == b("DYN_EPP_POOL_NAME"@));
    assert(a("DYN_MODEL_NAME"@) == b("DYN_MODEL_NAME"@));
    assert(a("DYN_KV_CACHE_BLOCK_SIZE"@) == b("DYN_KV_CACHE_BLOCK_SIZE"@));
    assert(a("DYN_EPP_KV_EVENT_PORT"@) == b("DYN_EPP_KV_EVENT_PORT"@));
    assert(a("DYN_EPP_REPLAY_PORT"@) == b("DYN_EPP_REPLAY_PORT"@));
    assert(a("DYN_DATA_PARALLEL_SIZE"@) == b("DYN_DATA_PARALLEL_SIZE"@));
    assert(a("DYN_TOTAL_KV_BLOCKS"@) == b("DYN_TOTAL_KV_BLOCKS"@));
    assert(a("DYN_MAX_NUM_BATCHED_TOKENS"@) == b("DYN_MAX_NUM_BATCHED_TOKENS"@));
}

/// A typo in `DYN_EPP_MODE` never falls through to the full stack: any value but
/// the two mode names is refused with that value.
pub proof fn unknown_mode_is_refused(env: Env, value: Seq<char>)
    requires
        text::setting(env("DYN_EPP_MODE"@)) == Some(value),
        value != "full-dynamo-stack"@,
        value != "router-only"@,
    ensures
        mode_of(env) == Err::<EppMode, ConfigFault>(ConfigFault::InvalidMode(value)),
{
}

/// Only the trimmed values count: environments that agree on them give the same
/// mode, the same verdict and the same configuration.
pub proof fn only_trimmed_values_count(a: Env, b: Env, selector_http: bool)
    requires
        forall|key: Seq<char>| text::setting(#[trigger] a(key)) == text::setting(b(key)),
    ensures
        mode_of(a) == mode_of(b),
        fault_of(a, selector_http) == fault_of(b, selector_http),
        config_of(a, selector_http) == config_of(b, selector_http),
{
}

/// The mode is the full stack when `DYN_EPP_MODE` is unset or names it, router-only when
/// it names that, and refused otherwise.
pub proof fn mode_is_the_one_that_is_named(env: Env)
    ensures
        text::setting(env("DYN_EPP_MODE"@)) is None ==> mode_of(env) == Ok::<EppMode, ConfigFault>(
            EppMode::FullDynamoStack,
        ),
        text::setting(env("DYN_EPP_MODE"@)) == Some("full-dynamo-stack"@) ==> mode_of(env) == Ok::<
            EppMode,
            ConfigFault,
        >(EppMode::FullDynamoStack),
        text::setting(env("DYN_EPP_MODE"@)) == Some("router-only"@) ==> mode_of(env) == Ok::<
            EppMode,
            ConfigFault,
        >(EppMode::RouterOnly),
{
    reveal_strlit("full-dynamo-stack");
    reveal_strlit("router-only");
    assert("full-dynamo-stack"@.len() != "router-only"@.len());
}

/// The selector is reached as `DYN_EPP_SELECTOR_MODE` says, and where that is unset over
/// HTTP exactly when that backend is built in.
pub proof fn selector_mode_is_the_one_that_is_named(env: Env, selector_http: bool)
    requires
        fault_of(env, selector_http) is None,
    ensures
        text::setting(env("DYN_EPP_SELECTOR_MODE"@)) is None ==> (config_of(env, selector_http).mode
            == SelectorBackendMode::Http <==> selector_http),
        text::setting(env("DYN_EPP_SELECTOR_MODE"@)) is Some ==> (config_of(env, selector_http).mode
            == SelectorBackendMode::Http <==> text::setting(env("DYN_EPP_SELECTOR_MODE"@)) == Some(
            "http"@,
        )),
        text::setting(env("DYN_EPP_SELECTOR_MODE"@)) is Some ==> (config_of(env, selector_http).mode
            == SelectorBackendMode::Embedded <==> text::setting(env("DYN_EPP_SELECTOR_MODE"@))
            == Some("embedded"@)),
{
    reveal_strlit("http");
    reveal_strlit("embedded");
    assert("http"@.len() != "embedded"@.len());
}

/// In every mode an accepted configuration's `selector_http_port` is the number that
/// `DYN_EPP_SELECTOR_HTTP_PORT` holds, and 8092 only when that is unset or blank.
pub proof fn selector_http_port_is_its_variable(env: Env, selector_http: bool)
    requires
        fault_of(env, selector_http) is None,
    ensures
        match text::setting(env("DYN_EPP_SELECTOR_HTTP_PORT"@)) {
            Some(value) => text::unsigned_of(value, u16::MAX as nat) == Some(
                config_of(env, selector_http).selector_http_port,
            ),
            None => config_of(env, selector_http).selector_http_port == 8092,
        },
{
}

/// In every mode an accepted configuration's `selector_replica_sync_port` is the number that
/// `DYN_EPP_SELECTOR_REPLICA_SYNC_PORT` holds, and 9092 only when that is unset or blank.
pub proof fn selector_replica_sync_port_is_its_variable(env: Env, selector_http: bool)
    requires
        fault_of(env, selector_http) is None,
    ensures
        match text::setting(env("DYN_EPP_SELECTOR_REPLICA_SYNC_PORT"@)) {
            Some(value) => text::unsigned_of(value, u16::MAX as nat) == Some(
                config_of(env, selector_http).selector_replica_sync_port,
            ),
            None => config_of(env, selector_http).selector_replica_sync_port == 9092,
        },
{
}

/// In every mode an accepted configuration's `selector_threads` is the number that
/// `DYN_EPP_SELECTOR_THREADS` holds, and 4 only when that is unset or blank.
pub proof fn selector_threads_is_its_variable(env: Env, selector_http: bool)
    requires
        fault_of(env, selector_http) is None,
    ensures
        match text::setting(env("DYN_EPP_SELECTOR_THREADS"@)) {
            Some(value) => text::unsigned_of(value, usize::MAX as nat) == Some(
                config_of(env, selector_http).selector_threads,
            ),
            None => config_of(env, selector_http).selector_threads == 4,
        },
{
}

/// In every mode an accepted configuration's `kv_event_port` is the number that
/// `DYN_EPP_KV_EVENT_PORT` holds, and 5557 only when that is unset or blank.
pub proof fn kv_event_port_is_its_variable(env: Env, selector_http: bool)
    requires
        fault_of(env, selector_http) is None,
    ensures
        match text::setting(env("DYN_EPP_KV_EVENT_PORT"@)) {
            Some(value) => text::unsigned_of(value, u16::MAX as nat) == Some(
                config_of(env, selector_http).kv_event_port,
            ),
            None => config_of(env, selector_http).kv_event_port == 5557,
        },
{
}

/// In every mode an accepted configuration's `data_parallel_size` is the number that
/// `DYN_DATA_PARALLEL_SIZE` holds, and 1 only when that is unset or blank.
pub proof fn data_parallel_size_is_its_variable(env: Env, selector_http: bool)
    requires
        fault_of(env, selector_http) is None,
    ensures
        match text::setting(env("DYN_DATA_PARALLEL_SIZE"@)) {
            Some(value) => text::unsigned_of(value, u32::MAX as nat) == Some(
                config_of(env, selector_http).data_parallel_size,
            ),
            None => config_of(env, selector_http).data_parallel_size == 1,
        },
{
}

/// In every mode an accepted configuration's `replay_port` is the number that
/// `DYN_EPP_REPLAY_PORT` holds, and is there exactly when that is set.
pub proof fn replay_port_is_its_variable(env: Env, selector_http: bool)
    requires
        fault_of(env, selector_http) is None,
    ensures
        match text::setting(env("DYN_EPP_REPLAY_PORT"@)) {
            Some(value) => config_of(env, selector_http).replay_port is Some && text::unsigned_of(
                value,
                u16::MAX as nat,
            ) == config_of(env, selector_http).replay_port,
            None => config_of(env, selector_http).replay_port is None,
        },
{
}

/// In every mode an accepted configuration's `total_kv_blocks` is the number that
/// `DYN_TOTAL_KV_BLOCKS` holds, and is there exactly when that is set.
pub proof fn total_kv_blocks_is_its_variable(env: Env, selector_http: bool)
    requires
        fault_of(env, selector_http) is None,
    ensures
        match text::setting(env("DYN_TOTAL_KV_BLOCKS"@)) {
            Some(value) => config_of(env, selector_http).total_kv_blocks is Some && text::unsigned_of(
                value,
                u64::MAX as nat,
            ) == config_of(env, selector_http).total_kv_blocks,
            None => config_of(env, selector_http).total_kv_blocks is None,
        },
{
}

/// In every mode an accepted configuration's `max_num_batched_tokens` is the number that
/// `DYN_MAX_NUM_BATCHED_TOKENS` holds, and is there exactly when that is set.
pub proof fn max_num_batched_tokens_is_its_variable(env: Env, selector_http: bool)
    requires
        fault_of(env, selector_http) is None,
    ensures
        match text::setting(env("DYN_MAX_NUM_BATCHED_TOKENS"@)) {
            Some(value) => config_of(env, selector_http).max_num_batched_tokens is Some && text::unsigned_of(
                value,
                u64::MAX as nat,
            ) == config_of(env, selector_http).max_num_batched_tokens,
            None => config_of(env, selector_http).max_num_batched_tokens is None,
        },
{
}

/// The block size is the positive number that `DYN_KV_CACHE_BLOCK_SIZE` holds; it has no
/// default.
pub proof fn block_size_is_its_variable(env: Env, selector_http: bool)
    requires
        fault_of(env, selector_http) is None,
    ensures
        text::setting(env("DYN_KV_CACHE_BLOCK_SIZE"@)) is Some,
        text::unsigned_of(text::setting(env("DYN_KV_CACHE_BLOCK_SIZE"@))->0, u32::MAX as nat)
            == Some(config_of(env, selector_http).block_size),
        config_of(env, selector_http).block_size > 0,
{
}

/// Each text of an accepted configuration is what its own variable holds: the pool and
/// the model are named, the Service and the topic may be empty, the namespaces absent.
pub proof fn texts_are_their_variables(env: Env, selector_http: bool)
    requires
        fault_of(env, selector_http) is None,
    ensures
        text::setting(env("DYN_EPP_POOL_NAME"@)) == Some(config_of(env, selector_http).pool_name),
        text::setting(env("DYN_MODEL_NAME"@)) == Some(config_of(env, selector_http).model_name),
        text::setting(env("DYN_EPP_POOL_NAMESPACE"@)) == config_of(
            env,
            selector_http,
        ).pool_namespace,
        text::setting(env("DYN_EPP_SELECTOR_SERVICE_NAMESPACE"@)) == config_of(
            env,
            selector_http,
        ).selector_service_namespace,
        match text::setting(env("DYN_EPP_SELECTOR_SERVICE"@)) {
            Some(value) => config_of(env, selector_http).selector_service == value,
            None => config_of(env, selector_http).selector_service.len() == 0,
        },
        match text::setting(env("DYN_EPP_KV_EVENT_TOPIC"@)) {
            Some(value) => config_of(env, selector_http).kv_event_topic == value,
            None => config_of(env, selector_http).kv_event_topic.len() == 0,
        },
{
}

/// Every setting depends on its own variable alone: two accepted environments that agree
/// on it, whatever else they hold and whatever is built in, give it the same value.
pub proof fn settings_depend_on_their_own_variables(a: Env, b: Env, p: bool, q: bool)
    requires
        fault_of(a, p) is None,
        fault_of(b, q) is None,
    ensures
        a("DYN_EPP_SELECTOR_SERVICE"@) == b("DYN_EPP_SELECTOR_SERVICE"@) ==> config_of(a, p).selector_service == config_of(b, q).selector_service,
        a("DYN_EPP_SELECTOR_SERVICE_NAMESPACE"@) == b("DYN_EPP_SELECTOR_SERVICE_NAMESPACE"@) ==> config_of(a, p).selector_service_namespace == config_of(b, q).selector_service_namespace,
        a("DYN_EPP_SELECTOR_HTTP_PORT"@) == b("DYN_EPP_SELECTOR_HTTP_PORT"@) ==> config_of(a, p).selector_http_port == config_of(b, q).selector_http_port,
        a("DYN_EPP_SELECTOR_REPLICA_SYNC_PORT"@) == b("DYN_EPP_SELECTOR_REPLICA_SYNC_PORT"@) ==> config_of(a, p).selector_replica_sync_port == config_of(b, q).selector_replica_sync_port,
        a("DYN_EPP_SELECTOR_THREADS"@) == b("DYN_EPP_SELECTOR_THREADS"@) ==> config_of(a, p).selector_threads == config_of(b, q).selector_threads,
        a("DYN_EPP_KV_EVENT_PORT"@) == b("DYN_EPP_KV_EVENT_PORT"@) ==> config_of(a, p).kv_event_port == config_of(b, q).kv_event_port,
        a("DYN_DATA_PARALLEL_SIZE"@) == b("DYN_DATA_PARALLEL_SIZE"@) ==> config_of(a, p).data_parallel_size == config_of(b, q).data_parallel_size,
        a("DYN_EPP_POOL_NAME"@) == b("DYN_EPP_POOL_NAME"@) ==> config_of(a, p).pool_name == config_of(b, q).pool_name,
        a("DYN_EPP_POOL_NAMESPACE"@) == b("DYN_EPP_POOL_NAMESPACE"@) ==> config_of(a, p).pool_namespace == config_of(b, q).pool_namespace,
        a("DYN_MODEL_NAME"@) == b("DYN_MODEL_NAME"@) ==> config_of(a, p).model_name == config_of(b, q).model_name,
        a("DYN_KV_CACHE_BLOCK_SIZE"@) == b("DYN_KV_CACHE_BLOCK_SIZE"@) ==> config_of(a, p).block_size == config_of(b, q).block_size,
        a("DYN_EPP_KV_EVENT_TOPIC"@) == b("DYN_EPP_KV_EVENT_TOPIC"@) ==> config_of(a, p).kv_event_topic == config_of(b, q).kv_event_topic,
        a("DYN_EPP_REPLAY_PORT"@) == b("DYN_EPP_REPLAY_PORT"@) ==> config_of(a, p).replay_port == config_of(b, q).replay_port,
        a("DYN_TOTAL_KV_BLOCKS"@) == b("DYN_TOTAL_KV_BLOCKS"@) ==> config_of(a, p).total_kv_blocks == config_of(b, q).total_kv_blocks,
        a("DYN_MAX_NUM_BATCHED_TOKENS"@) == b("DYN_MAX_NUM_BATCHED_TOKENS"@) ==> config_of(a, p).max_num_batched_tokens == config_of(b, q).max_num_batched_tokens,
{
}

/// An environment is accepted exactly when the selector mode, where set, is one of the
/// two; the Service is set where it is reached over HTTP; pool, model and block size are
/// set; each number that is set is one of its type; and the two sizes are not zero.
pub proof fn accepted_environments(env: Env, selector_http: bool)
    ensures
        ({
            let set = |key: Seq<char>| text::setting(env(key)) is Some;
            let number = |key: Seq<char>, max: nat|
                match text::setting(env(key)) {
                    Some(value) => text::unsigned_of(value, max) is Some,
                    None => true,
                };
            let zero = |key: Seq<char>|
                match text::setting(env(key)) {
                    Some(value) => text::unsigned_of(value, u32::MAX as nat) == Some(0nat),
                    None => false,
                };
            let over_http = match text::setting(env("DYN_EPP_SELECTOR_MODE"@)) {
                Some(value) => value == "http"@,
                None => selector_http,
            };
            fault_of(env, selector_http) is None <==> {
                &&& set("DYN_EPP_SELECTOR_MODE"@) ==> text::setting(env("DYN_EPP_SELECTOR_MODE"@))
                    == Some("http"@) || text::setting(env("DYN_EPP_SELECTOR_MODE"@)) == Some(
                    "embedded"@,
                )
                &&& over_http ==> set("DYN_EPP_SELECTOR_SERVICE"@)
                &&& number("DYN_EPP_SELECTOR_HTTP_PORT"@, u16::MAX as nat)
                &&& number("DYN_EPP_SELECTOR_REPLICA_SYNC_PORT"@, u16::MAX as nat)
                &&& number("DYN_EPP_SELECTOR_THREADS"@, usize::MAX as nat)
                &&& set("DYN_EPP_POOL_NAME"@)
                &&& set("DYN_MODEL_NAME"@)
                &&& set("DYN_KV_CACHE_BLOCK_SIZE"@)
                &&& number("DYN_KV_CACHE_BLOCK_SIZE"@, u32::MAX as nat)
                &&& !zero("DYN_KV_CACHE_BLOCK_SIZE"@)
                &&& number("DYN_EPP_KV_EVENT_PORT"@, u16::MAX as nat)
                &&& number("DYN_EPP_REPLAY_PORT"@, u16::MAX as nat)
                &&& number("DYN_DATA_PARALLEL_SIZE"@, u32::MAX as nat)
                &&& !zero("DYN_DATA_PARALLEL_SIZE"@)
                &&& number("DYN_TOTAL_KV_BLOCKS"@, u64::MAX as nat)
                &&& number("DYN_MAX_NUM_BATCHED_TOKENS"@, u64::MAX as nat)
            }
        }),
{
    let service = env("DYN_EPP_SELECTOR_SERVICE"@);
    assert(text::setting(service) is Some ==> text::setting(service)->0.len() > 0);
}

/// A refusal tells the truth: it names a variable and what is wrong with what it holds.
pub proof fn refusals_are_true(env: Env, selector_http: bool)
    requires
        fault_of(env, selector_http) is Some,
    ensures
        match fault_of(env, selector_http)->0 {
            ConfigFault::InvalidMode(_) => false,
            ConfigFault::InvalidSelectorMode(value) => text::setting(env("DYN_EPP_SELECTOR_MODE"@))
                == Some(value) && value != "http"@ && value != "embedded"@,
            ConfigFault::MissingSelectorService => text::setting(env("DYN_EPP_SELECTOR_SERVICE"@))
                is None,
            ConfigFault::Missing(key) => text::setting(env(key)) is None && (key
                == "DYN_EPP_POOL_NAME"@ || key == "DYN_MODEL_NAME"@ || key
                == "DYN_KV_CACHE_BLOCK_SIZE"@),
            ConfigFault::InvalidNumber(key, value, reason) => text::setting(env(key)) == Some(value)
                && exists|max: nat|
                (max == u16::MAX || max == u32::MAX || max == u64::MAX || max == usize::MAX)
                    && #[trigger] text::unsigned_of(value, max) is None && reason
                    == text::number_error(value, max),
            ConfigFault::Zero(key) => text::setting(env(key)) is Some && text::unsigned_of(
                text::setting(env(key))->0,
                u32::MAX as nat,
            ) == Some(0nat),
        },
{
}

/// Of several faults the one of the setting that is read first is told: the selector's
/// mode, its Service, its ports and threads, then the pool, the model and the block
/// size, then the engine's settings.
pub proof fn first_fault_is_told(env: Env, selector_http: bool)
    ensures
        ({
            let bad = |key: Seq<char>, max: nat|
                match text::setting(env(key)) {
                    Some(value) => text::unsigned_of(value, max) is None,
                    None => false,
                };
            let wrong = |key: Seq<char>, max: nat|
                Some(
                    ConfigFault::InvalidNumber(
                        key,
                        text::setting(env(key))->0,
                        text::number_error(text::setting(env(key))->0, max),
                    ),
                );
            let zero = |key: Seq<char>|
                match text::setting(env(key)) {
                    Some(value) => text::unsigned_of(value, u32::MAX as nat) == Some(0nat),
                    None => false,
                };
            let unset = |key: Seq<char>| text::setting(env(key)) is None;
            let mode = text::setting(env("DYN_EPP_SELECTOR_MODE"@));
            let over_http = match mode {
                Some(value) => value == "http"@,
                None => selector_http,
            };
            let fault = fault_of(env, selector_http);
            let p = u16::MAX as nat;
            let s = u32::MAX as nat;
            let l = u64::MAX as nat;
            if mode is Some && mode != Some("http"@) && mode != Some("embedded"@) {
                fault == Some(ConfigFault::InvalidSelectorMode(mode->0))
            } else if over_http && unset("DYN_EPP_SELECTOR_SERVICE"@) {
                fault == Some(ConfigFault::MissingSelectorService)
            } else if bad("DYN_EPP_SELECTOR_HTTP_PORT"@, p) {
                fault == wrong("DYN_EPP_SELECTOR_HTTP_PORT"@, p)
            } else if bad("DYN_EPP_SELECTOR_REPLICA_SYNC_PORT"@, p) {
                fault == wrong("DYN_EPP_SELECTOR_REPLICA_SYNC_PORT"@, p)
            } else if bad("DYN_EPP_SELECTOR_THREADS"@, usize::MAX as nat) {
                fault == wrong("DYN_EPP_SELECTOR_THREADS"@, usize::MAX as nat)
            } else if unset("DYN_EPP_POOL_NAME"@) {
                fault == Some(ConfigFault::Missing("DYN_EPP_POOL_NAME"@))
            } else if unset("DYN_MODEL_NAME"@) {
                fault == Some(ConfigFault::Missing("DYN_MODEL_NAME"@))
            } else if unset("DYN_KV_CACHE_BLOCK_SIZE"@) {
                fault == Some(ConfigFault::Missing("DYN_KV_CACHE_BLOCK_SIZE"@))
            } else if bad("DYN_KV_CACHE_BLOCK_SIZE"@, s) {
                fault == wrong("DYN_KV_CACHE_BLOCK_SIZE"@, s)
            } else if zero("DYN_KV_CACHE_BLOCK_SIZE"@) {
                fault == Some(ConfigFault::Zero("DYN_KV_CACHE_BLOCK_SIZE"@))
            } else if bad("DYN_EPP_KV_EVENT_PORT"@, p) {
                fault == wrong("DYN_EPP_KV_EVENT_PORT"@, p)
            } else if bad("DYN_EPP_REPLAY_PORT"@, p) {
                fault == wrong("DYN_EPP_REPLAY_PORT"@, p)
            } else if bad("DYN_DATA_PARALLEL_SIZE"@, s) {
                fault == wrong("DYN_DATA_PARALLEL_SIZE"@, s)
            } else if zero("DYN_DATA_PARALLEL_SIZE"@) {
                fault == Some(ConfigFault::Zero("DYN_DATA_PARALLEL_SIZE"@))
            } else if bad("DYN_TOTAL_KV_BLOCKS"@, l) {
                fault == wrong("DYN_TOTAL_KV_BLOCKS"@, l)
            } else if bad("DYN_MAX_NUM_BATCHED_TOKENS"@, l) {
                fault == wrong("DYN_MAX_NUM_BATCHED_TOKENS"@, l)
            } else {
                fault is None
            }
        }),
{
    let service = env("DYN_EPP_SELECTOR_SERVICE"@);
    assert(text::setting(service) is Some ==> text::setting(service)->0.len() > 0);
}

/// What a configuration says is what it holds.
pub proof fn config_says_what_it_holds(config: EppConfig)
    ensures
        config@.mode == config.mode,
        config@.selector_service == config.selector_service@,
        config@.selector_service_namespace is Some <==> config.selector_service_namespace is Some,
        config.selector_service_namespace is Some ==> config@.selector_service_namespace->0
            == config.selector_service_namespace->0@,
        config@.selector_http_port == config.selector_http_port,
        config@.selector_replica_sync_port == config.selector_replica_sync_port,
        config@.selector_threads == config.selector_threads,
        config@.pool_name == config.pool_name@,
        config@.pool_namespace is Some <==> config.pool_namespace is Some,
        config.pool_namespace is Some ==> config@.pool_namespace->0 == config.pool_namespace->0@,
        config@.model_name == config.model_name@,
        config@.block_size == config.block_size,
        config@.kv_event_port == config.kv_event_port,
        config@.kv_event_topic == config.kv_event_topic@,
        config@.replay_port is Some <==> config.replay_port is Some,
        config.replay_port is Some ==> config@.replay_port->0 == config.replay_port->0,
        config@.data_parallel_size == config.data_parallel_size,
        config@.total_kv_blocks is Some <==> config.total_kv_blocks is Some,
        config.total_kv_blocks is Some ==> config@.total_kv_blocks->0 == config.total_kv_blocks->0,
        config@.max_num_batched_tokens is Some <==> config.max_num_batched_tokens is Some,
        config.max_num_batched_tokens is Some ==> config@.max_num_batched_tokens->0
            == config.max_num_batched_tokens->0,
{
}

/// What an error says is what it holds.
pub proof fn error_says_what_it_holds(error: ConfigError)
    ensures
        match error {
            ConfigError::InvalidMode { value } => error@ == ConfigFault::InvalidMode(value@),
            ConfigError::InvalidSelectorMode { value } => error@
                == ConfigFault::InvalidSelectorMode(value@),
            ConfigError::MissingSelectorService => error@ == ConfigFault::MissingSelectorService,
            ConfigError::Missing { key } => error@ == ConfigFault::Missing(key@),
            ConfigError::InvalidNumber { key, value, reason } => error@
                == ConfigFault::InvalidNumber(key@, value@, reason),
            ConfigError::Zero { key } => error@ == ConfigFault::Zero(key@),
        },
{
}

/// Without a setting the selector is reached over HTTP exactly when that is built in.
pub proof fn default_mode_is_what_is_built_in(selector_http: bool, r: SelectorBackendMode)
    requires
        call_ensures(default_mode, (selector_http,), r),
    ensures
        r == SelectorBackendMode::Http <==> selector_http,
        r == SelectorBackendMode::Embedded <==> !selector_http,
{
}

} // verus!
