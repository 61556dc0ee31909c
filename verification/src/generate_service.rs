//! Decisions of the HTTP handler for the token-in/token-out `Generate` API.
//!
//! The handler preserves the complete request in an opaque backend envelope and
//! projects only what routing needs. Streaming remains unimplemented.

use serde_json::Value;
use vstd::prelude::*;
use vstd::string::*;

use crate::generate;
use crate::generate::{GenerateRequest, GenerateRequestView};
use crate::json;
use crate::json::Json;
use crate::text;
use crate::wire;

verus! {

/// Path of the endpoint unless another one is configured.
pub const DEFAULT_GENERATE_PATH: &'static str = "/inference/v1/generate";

/// vLLM's default when `sampling_params.max_tokens` is omitted.
pub const DEFAULT_MAX_TOKENS: u64 = 16;

/// Path that the endpoint is served on.
pub fn generate_path(path: Option<String>) -> (r: String)
    ensures
        r@ == match path {
            Some(p) => p@,
            None => "/inference/v1/generate"@,
        },
{
    match path {
        Some(p) => p,
        None => DEFAULT_GENERATE_PATH.to_owned(),
    }
}

// ---------------------------------------------------------------------------
// Error replies
// ---------------------------------------------------------------------------

/// A vLLM-style error reply.
#[derive(Debug, Clone)]
pub struct ErrorReply {
    /// HTTP status.
    pub status: u16,
    pub error_type: &'static str,
    pub message: String,
}

/// What an [`ErrorReply`] says.
#[verifier::ext_equal]
pub struct ErrorReplyView {
    pub status: u16,
    pub error_type: Seq<char>,
    pub message: Seq<char>,
}

impl View for ErrorReply {
    type V = ErrorReplyView;

    open spec fn view(&self) -> ErrorReplyView {
        ErrorReplyView {
            status: self.status,
            error_type: self.error_type@,
            message: self.message@,
        }
    }
}

impl ErrorReplyView {
    /// The nested error object of the body.
    pub open spec fn error(self) -> Map<Seq<char>, Json> {
        json::no_fields().insert("message"@, Json::Text(self.message)).insert(
            "type"@,
            Json::Text(self.error_type),
        ).insert("code"@, Json::Unsigned(self.status as u64))
    }
}

impl ErrorReply {
    /// Body of the reply: `{"error": {"message", "type", "code"}}`, where the code is
    /// the HTTP status.
    pub fn body(&self) -> (r: Value)
        ensures
            json::json_of(r) == Json::Object(
                json::no_fields().insert("error"@, Json::Object(self@.error())),
            ),
    {
        let mut error: serde_json::Map<String, Value> = serde_json::Map::new();
        json::set(&mut error, "message", json::text(self.message.as_str()));
        json::set(&mut error, "type", json::text(self.error_type));
        json::set(&mut error, "code", json::number(self.status as u64));
        let mut body: serde_json::Map<String, Value> = serde_json::Map::new();
        json::set(&mut body, "error", json::object(error));
        json::object(body)
    }
}

/// An error reply with the given parts.
pub open spec fn reply_of(status: u16, error_type: Seq<char>, message: Seq<char>) -> ErrorReplyView {
    ErrorReplyView { status, error_type, message }
}

/// Build a vLLM-style error reply.
pub fn generate_error_response(status: u16, error_type: &'static str, message: String) -> (r:
    ErrorReply)
    ensures
        r@ == reply_of(status, error_type@, message@),
{
    ErrorReply { status, error_type, message }
}

/// A text with more behind it.
fn joined(prefix: &str, rest: &str) -> (r: String)
    ensures
        r@ == prefix@ + rest@,
{
    let mut r = prefix.to_owned();
    r.append(rest);
    r
}

// ---------------------------------------------------------------------------
// Preprocessing
// ---------------------------------------------------------------------------

/// When generation stops.
#[derive(Debug, Clone, Copy, PartialEq, Eq, Structural)]
pub struct StopConditions {
    pub max_tokens: Option<u32>,
    pub min_tokens: Option<u32>,
    pub ignore_eos: Option<bool>,
}

/// How tokens are sampled.
#[derive(Debug, Clone, Copy, PartialEq, Eq, Structural)]
pub struct SamplingOptions {
    pub n: Option<u8>,
}

/// What the router may take into account.
#[derive(Debug, Clone, Copy, PartialEq, Eq, Structural)]
pub struct RoutingHints {
    pub expected_output_tokens: Option<u32>,
}

/// A request in the form that the pipeline routes. Whatever is not listed here is
/// left at its default.
#[derive(Debug, Clone)]
pub struct PreprocessedRequest {
    pub model: String,
    pub token_ids: Vec<u32>,
    pub stop_conditions: StopConditions,
    pub sampling_options: SamplingOptions,
    pub routing: Option<RoutingHints>,
    pub extra_args: Option<Value>,
}

/// What a [`PreprocessedRequest`] says.
#[verifier::ext_equal]
pub struct PreprocessedView {
    pub model: Seq<char>,
    pub token_ids: Seq<u32>,
    pub stop_conditions: StopConditions,
    pub sampling_options: SamplingOptions,
    pub routing: Option<RoutingHints>,
    pub extra_args: Option<Json>,
}

impl View for PreprocessedRequest {
    type V = PreprocessedView;

    open spec fn view(&self) -> PreprocessedView {
        PreprocessedView {
            model: self.model@,
            token_ids: self.token_ids@,
            stop_conditions: self.stop_conditions,
            sampling_options: self.sampling_options,
            routing: self.routing,
            extra_args: wire::optional_json(self.extra_args),
        }
    }
}

/// Why a request cannot be preprocessed.
#[derive(Debug, Clone, Copy, PartialEq, Eq, Structural)]
pub enum PreprocessError {
    MaxTokensTooLarge,
    MinTokensTooLarge,
}

impl PreprocessError {
    /// What the error says.
    pub open spec fn text(self) -> Seq<char> {
        match self {
            PreprocessError::MaxTokensTooLarge => "sampling_params.max_tokens exceeds u32"@,
            PreprocessError::MinTokensTooLarge => "sampling_params.min_tokens exceeds u32"@,
        }
    }

    /// What the error says.
    pub fn message(self) -> (r: String)
        ensures
            r@ == self.text(),
    {
        match self {
            PreprocessError::MaxTokensTooLarge => "sampling_params.max_tokens exceeds u32".to_owned(),
            PreprocessError::MinTokensTooLarge => "sampling_params.min_tokens exceeds u32".to_owned(),
        }
    }
}

/// A field of a document that need not be an object.
pub open spec fn field_in(value: Json, key: Seq<char>) -> Option<Json> {
    match value {
        Json::Object(fields) => if fields.contains_key(key) {
            Some(fields[key])
        } else {
            None
        },
        _ => None,
    }
}

/// An unsigned field, or a default where there is none.
pub open spec fn unsigned_in(value: Json, key: Seq<char>, default: u64) -> u64 {
    match field_in(value, key) {
        Some(Json::Unsigned(n)) => n,
        _ => default,
    }
}

/// A truth value, or `false` where there is none.
pub open spec fn flag_in(value: Json, key: Seq<char>) -> bool {
    field_in(value, key) == Some(Json::Bool(true))
}

fn read_unsigned(value: &Value, key: &str, default: u64) -> (r: u64)
    ensures
        r == unsigned_in(json::json_of(*value), key@, default),
{
    match json::get(value, key) {
        Some(field) => match field.as_u64() {
            Some(n) => n,
            None => default,
        },
        None => default,
    }
}

fn read_flag(value: &Value, key: &str) -> (r: bool)
    ensures
        r == flag_in(json::json_of(*value), key@),
{
    match json::get(value, key) {
        Some(field) => match field.as_bool() {
            Some(b) => b,
            None => false,
        },
        None => false,
    }
}

/// What preprocessing gives for a request and the model it is routed to.
pub open spec fn preprocessed_of(request: GenerateRequestView, model: Seq<char>) -> Result<
    PreprocessedView,
    PreprocessError,
> {
    let max_tokens = unsigned_in(request.sampling_params, "max_tokens"@, DEFAULT_MAX_TOKENS);
    let min_tokens = unsigned_in(request.sampling_params, "min_tokens"@, 0);
    if max_tokens > u32::MAX {
        Err(PreprocessError::MaxTokensTooLarge)
    } else if min_tokens > u32::MAX {
        Err(PreprocessError::MinTokensTooLarge)
    } else {
        Ok(
            PreprocessedView {
                model,
                token_ids: request.token_ids,
                stop_conditions: StopConditions {
                    max_tokens: Some(max_tokens as u32),
                    min_tokens: Some(min_tokens as u32),
                    ignore_eos: Some(flag_in(request.sampling_params, "ignore_eos"@)),
                },
                sampling_options: SamplingOptions { n: Some(1) },
                routing: Some(RoutingHints { expected_output_tokens: Some(max_tokens as u32) }),
                extra_args: Some(
                    Json::Object(
                        json::no_fields().insert("vllm_tito"@, Json::Object(request.fields())),
                    ),
                ),
            },
        )
    }
}

/// Project routing controls while retaining the complete client request in
/// `extra_args.vllm_tito`. The backend remains the authority for interpreting every
/// vLLM-specific field.
pub fn preprocessed_from_generate(request: &GenerateRequest, model: &str) -> (r: Result<
    PreprocessedRequest,
    PreprocessError,
>)
    ensures
        match r {
            Ok(p) => preprocessed_of(request@, model@) == Ok::<PreprocessedView, PreprocessError>(
                p@,
            ),
            Err(e) => preprocessed_of(request@, model@) == Err::<PreprocessedView, PreprocessError>(
                e,
            ),
        },
{
    let sampling = &request.sampling_params;
    let max_tokens: u64 = read_unsigned(sampling, "max_tokens", DEFAULT_MAX_TOKENS);
    let min_tokens: u64 = read_unsigned(sampling, "min_tokens", 0);
    let ignore_eos = read_flag(sampling, "ignore_eos");
    if max_tokens > u32::MAX as u64 {
        return Err(PreprocessError::MaxTokensTooLarge);
    }
    if min_tokens > u32::MAX as u64 {
        return Err(PreprocessError::MinTokensTooLarge);
    }
    let mut extra: serde_json::Map<String, Value> = serde_json::Map::new();
    json::set(&mut extra, "vllm_tito", request.to_value());
    let token_ids = request.token_ids.clone();
    proof {
        assert(token_ids@ =~= request.token_ids@);
    }
    Ok(
        PreprocessedRequest {
            model: model.to_owned(),
            token_ids,
            stop_conditions: StopConditions {
                max_tokens: Some(max_tokens as u32),
                min_tokens: Some(min_tokens as u32),
                ignore_eos: Some(ignore_eos),
            },
            sampling_options: SamplingOptions { n: Some(1) },
            routing: Some(RoutingHints { expected_output_tokens: Some(max_tokens as u32) }),
            extra_args: Some(json::object(extra)),
        },
    )
}

// ---------------------------------------------------------------------------
// Handling
// ---------------------------------------------------------------------------

/// What the handler does next.
#[derive(Debug, Clone)]
pub enum GenerateStep {
    /// Ask which generate-capable models are registered.
    ListModels,
    /// Look up the engine that serves this model.
    FindEngine { model: String },
    /// Hand the request to the engine.
    Dispatch { request: PreprocessedRequest },
    /// Reply with an error.
    Reply { error: ErrorReply },
}

/// What a [`GenerateStep`] says.
pub enum GenerateStepView {
    ListModels,
    FindEngine(Seq<char>),
    Dispatch(PreprocessedView),
    Reply(ErrorReplyView),
}

impl View for GenerateStep {
    type V = GenerateStepView;

    open spec fn view(&self) -> GenerateStepView {
        match self {
            GenerateStep::ListModels => GenerateStepView::ListModels,
            GenerateStep::FindEngine { model } => GenerateStepView::FindEngine(model@),
            GenerateStep::Dispatch { request } => GenerateStepView::Dispatch(request@),
            GenerateStep::Reply { error } => GenerateStepView::Reply(error@),
        }
    }
}

/// The first step for a request: streaming is refused, a named model is looked up,
/// and without a name the registered models are asked for.
pub open spec fn first_step(request: GenerateRequestView) -> GenerateStepView {
    if request.stream {
        GenerateStepView::Reply(
            reply_of(
                501,
                "not_implemented"@,
                "streaming (stream=true) is not implemented for /inference/v1/generate yet"@,
            ),
        )
    } else {
        match request.model {
            Some(model) => GenerateStepView::FindEngine(model),
            None => GenerateStepView::ListModels,
        }
    }
}

/// Begin handling a request.
pub fn begin(request: &GenerateRequest) -> (r: GenerateStep)
    ensures
        r@ == first_step(request@),
{
    if request.stream {
        return GenerateStep::Reply {
            error: generate_error_response(
                501,
                "not_implemented",
                "streaming (stream=true) is not implemented for /inference/v1/generate yet".to_owned(),
            ),
        };
    }
    match &request.model {
        Some(model) => GenerateStep::FindEngine { model: model.clone() },
        None => GenerateStep::ListModels,
    }
}

/// The step once the registered models are known: a request without a model goes to
/// the only one there is.
pub open spec fn step_with_models(models: Seq<Seq<char>>) -> GenerateStepView {
    if models.len() == 1 {
        GenerateStepView::FindEngine(models[0])
    } else if models.len() == 0 {
        GenerateStepView::Reply(
            reply_of(404, "not_found"@, "no generate-capable model is registered"@),
        )
    } else {
        GenerateStepView::Reply(
            reply_of(
                400,
                "invalid_request_error"@,
                "multiple models are registered; specify `model` in the request"@,
            ),
        )
    }
}

/// Choose a model for a request that names none.
pub fn choose_model(models: &Vec<String>) -> (r: GenerateStep)
    ensures
        r@ == step_with_models(text::texts(models@)),
{
    if models.len() == 1 {
        GenerateStep::FindEngine { model: models[0].clone() }
    } else if models.len() == 0 {
        GenerateStep::Reply {
            error: generate_error_response(
                404,
                "not_found",
                "no generate-capable model is registered".to_owned(),
            ),
        }
    } else {
        GenerateStep::Reply {
            error: generate_error_response(
                400,
                "invalid_request_error",
                "multiple models are registered; specify `model` in the request".to_owned(),
            ),
        }
    }
}

/// What looking up an engine found.
#[derive(Debug, Clone)]
pub enum EngineLookup {
    Found,
    /// The model is known but cannot serve now.
    Unavailable { error: String },
    /// There is no such model, or it cannot be used.
    Missing { error: String },
}

/// The step once the engine of a model was looked up.
pub open spec fn step_with_engine(
    request: GenerateRequestView,
    model: Seq<char>,
    lookup: EngineLookup,
) -> GenerateStepView {
    match lookup {
        EngineLookup::Found => match preprocessed_of(request, model) {
            Ok(preprocessed) => GenerateStepView::Dispatch(preprocessed),
            Err(e) => GenerateStepView::Reply(reply_of(400, "invalid_request_error"@, e.text())),
        },
        EngineLookup::Unavailable { error } => GenerateStepView::Reply(
            reply_of(503, "service_unavailable"@, error@),
        ),
        EngineLookup::Missing { error } => GenerateStepView::Reply(
            reply_of(404, "not_found"@, error@),
        ),
    }
}

/// Go on once the engine of a model was looked up.
pub fn with_engine(request: &GenerateRequest, model: &str, lookup: EngineLookup) -> (r: GenerateStep)
    ensures
        r@ == step_with_engine(request@, model@, lookup),
{
    match lookup {
        EngineLookup::Found => match preprocessed_from_generate(request, model) {
            Ok(preprocessed) => GenerateStep::Dispatch { request: preprocessed },
            Err(e) => GenerateStep::Reply {
                error: generate_error_response(400, "invalid_request_error", e.message()),
            },
        },
        EngineLookup::Unavailable { error } => GenerateStep::Reply {
            error: generate_error_response(503, "service_unavailable", error),
        },
        EngineLookup::Missing { error } => GenerateStep::Reply {
            error: generate_error_response(404, "not_found", error),
        },
    }
}

/// The id under which a request is handled: the client's own, or else a generated
/// one.
pub fn effective_request_id(request: &GenerateRequest, generated: String) -> (r: String)
    ensures
        r@ == match request@.request_id {
            Some(id) => id,
            None => generated@,
        },
{
    match &request.request_id {
        Some(id) => id.clone(),
        None => generated,
    }
}

/// How a dispatch ended.
#[derive(Debug, Clone)]
pub enum DispatchOutcome {
    /// The engine did not start, because it rejected the request or otherwise.
    EngineFailed { rejected: bool, error: String },
    /// The response stream was folded into one response.
    Folded { killed: bool, complete: bool },
    /// The response stream could not be folded.
    FoldFailed,
    /// The dispatch task panicked.
    Panicked { error: String },
}

/// The error that a dispatch is answered with; none means that its response is
/// sent.
pub open spec fn dispatch_error_of(outcome: DispatchOutcome, request_id: Seq<char>) -> Option<
    ErrorReplyView,
> {
    match outcome {
        DispatchOutcome::EngineFailed { rejected, error } => Some(
            if rejected {
                reply_of(503, "service_unavailable"@, "engine rejected the request: "@ + error@)
            } else {
                reply_of(500, "internal_error"@, "failed to generate: "@ + error@)
            },
        ),
        DispatchOutcome::Folded { killed, complete } => if killed {
            Some(reply_of(499, "request_cancelled"@, "request was cancelled"@))
        } else if !complete {
            Some(
                reply_of(
                    500,
                    "internal_error"@,
                    "generation produced no complete choice for "@ + request_id,
                ),
            )
        } else {
            None
        },
        DispatchOutcome::FoldFailed => Some(
            reply_of(500, "internal_error"@, "failed to fold generate stream for "@ + request_id),
        ),
        DispatchOutcome::Panicked { error } => Some(
            reply_of(500, "internal_error"@, "generate task panicked: "@ + error@),
        ),
    }
}

/// Decide what a dispatch is answered with.
pub fn dispatch_error(outcome: DispatchOutcome, request_id: &str) -> (r: Option<ErrorReply>)
    ensures
        match r {
            Some(error) => dispatch_error_of(outcome, request_id@) == Some(error@),
            None => dispatch_error_of(outcome, request_id@) is None,
        },
{
    match outcome {
        DispatchOutcome::EngineFailed { rejected, error } => if rejected {
            Some(
                generate_error_response(
                    503,
                    "service_unavailable",
                    joined("engine rejected the request: ", error.as_str()),
                ),
            )
        } else {
            Some(
                generate_error_response(
                    500,
                    "internal_error",
                    joined("failed to generate: ", error.as_str()),
                ),
            )
        },
        DispatchOutcome::Folded { killed, complete } => if killed {
            Some(
                generate_error_response(
                    499,
                    "request_cancelled",
                    "request was cancelled".to_owned(),
                ),
            )
        } else if !complete {
            Some(
                generate_error_response(
                    500,
                    "internal_error",
                    joined("generation produced no complete choice for ", request_id),
                ),
            )
        } else {
            None
        },
        DispatchOutcome::FoldFailed => Some(
            generate_error_response(
                500,
                "internal_error",
                joined("failed to fold generate stream for ", request_id),
            ),
        ),
        DispatchOutcome::Panicked { error } => Some(
            generate_error_response(
                500,
                "internal_error",
                joined("generate task panicked: ", error.as_str()),
            ),
        ),
    }
}

/// Whether a dispatch counts as a rejection.
pub fn is_rejection(outcome: &DispatchOutcome) -> (r: bool)
    ensures
        r == (*outcome matches DispatchOutcome::EngineFailed { rejected, .. } && rejected),
{
    match outcome {
        DispatchOutcome::EngineFailed { rejected, .. } => *rejected,
        _ => false,
    }
}

// ---------------------------------------------------------------------------
// Laws
// ---------------------------------------------------------------------------

/// The complete request reaches the backend: the envelope in
/// `extra_args.vllm_tito` is the accepted document, up to defaults that are spelled
/// out.
pub proof fn accepted_request_reaches_the_backend(fields: Map<Seq<char>, Json>, model: Seq<char>)
    requires
        generate::request_fault(fields) is None,
        preprocessed_of(generate::request_of(fields), model) is Ok,
    ensures
        field_in(
            preprocessed_of(generate::request_of(fields), model)->Ok_0.extra_args->0,
            "vllm_tito"@,
        ) == Some(Json::Object(generate::normalised(fields))),
{
    generate::accepted_request_is_written_back(fields);
}

/// The complete request reaches the backend unchanged: for an accepted document
/// that spells `stream` out and has no null id or model, the envelope in
/// `extra_args.vllm_tito` is that document.
pub proof fn complete_request_reaches_the_backend(fields: Map<Seq<char>, Json>, model: Seq<char>)
    requires
        generate::request_fault(fields) is None,
        fields.contains_key("stream"@),
        fields.contains_key("request_id"@) ==> fields["request_id"@] != Json::Null,
        fields.contains_key("model"@) ==> fields["model"@] != Json::Null,
        preprocessed_of(generate::request_of(fields), model) is Ok,
    ensures
        field_in(
            preprocessed_of(generate::request_of(fields), model)->Ok_0.extra_args->0,
            "vllm_tito"@,
        ) == Some(Json::Object(fields)),
{
    generate::spelled_out_request_is_unchanged(fields);
}

/// Every field that the frontend does not act on is in the backend's envelope,
/// verbatim.
pub proof fn unknown_fields_reach_the_backend(
    fields: Map<Seq<char>, Json>,
    model: Seq<char>,
    key: Seq<char>,
)
    requires
        generate::request_fault(fields) is None,
        fields.contains_key(key),
        !generate::typed(key),
        preprocessed_of(generate::request_of(fields), model) is Ok,
    ensures
        ({
            let extra = preprocessed_of(generate::request_of(fields), model)->Ok_0.extra_args->0;
            field_in(field_in(extra, "vllm_tito"@)->0, key) == Some(fields[key])
        }),
{
    generate::unknown_fields_flow_through(fields, key);
}

/// Routing expects as many output tokens as generation may produce.
pub proof fn routing_expects_the_token_limit(request: GenerateRequestView, model: Seq<char>)
    requires
        preprocessed_of(request, model) is Ok,
    ensures
        preprocessed_of(request, model)->Ok_0.routing->0.expected_output_tokens == preprocessed_of(
            request,
            model,
        )->Ok_0.stop_conditions.max_tokens,
        preprocessed_of(request, model)->Ok_0.token_ids == request.token_ids,
{
}

/// A streaming request is never handed on: its first step is a refusal.
pub proof fn streaming_is_never_dispatched(request: GenerateRequestView)
    requires
        request.stream,
    ensures
        first_step(request) is Reply,
        first_step(request)->Reply_0.status == 501,
{
}

/// The status and the type of an error belong together.
pub open spec fn status_fits(error: ErrorReplyView) -> bool {
    ||| error.status == 400 && error.error_type == "invalid_request_error"@
    ||| error.status == 404 && error.error_type == "not_found"@
    ||| error.status == 499 && error.error_type == "request_cancelled"@
    ||| error.status == 500 && error.error_type == "internal_error"@
    ||| error.status == 501 && error.error_type == "not_implemented"@
    ||| error.status == 503 && error.error_type == "service_unavailable"@
}

/// Every error that the handler replies with has the type that goes with its
/// status, and its body carries that status as its code.
pub proof fn error_types_follow_the_status(
    request: GenerateRequestView,
    models: Seq<Seq<char>>,
    model: Seq<char>,
    lookup: EngineLookup,
    outcome: DispatchOutcome,
    request_id: Seq<char>,
    error: ErrorReplyView,
)
    ensures
        first_step(request) matches GenerateStepView::Reply(e) ==> status_fits(e),
        step_with_models(models) matches GenerateStepView::Reply(e) ==> status_fits(e),
        step_with_engine(request, model, lookup) matches GenerateStepView::Reply(e)
            ==> status_fits(e),
        dispatch_error_of(outcome, request_id) matches Some(e) ==> status_fits(e),
        error.error()["code"@] == Json::Unsigned(error.status as u64),
{
}

/// A response is sent only when the stream was folded into a complete response and
/// the request was not cancelled.
pub proof fn only_complete_responses_are_sent(outcome: DispatchOutcome, request_id: Seq<char>)
    ensures
        dispatch_error_of(outcome, request_id) is None <==> outcome == (DispatchOutcome::Folded {
            killed: false,
            complete: true,
        }),
{
}

/// A token limit that the client asks for, and that fits, is exactly the limit that
/// generation and routing are given; one that does not fit is refused.
pub proof fn token_limit_is_the_one_asked_for(
    request: GenerateRequest,
    model: &str,
    r: Result<PreprocessedRequest, PreprocessError>,
    params: Map<Seq<char>, Json>,
    n: u64,
)
    requires
        call_ensures(preprocessed_from_generate, (&request, model), r),
        json::json_of(request.sampling_params) == Json::Object(params),
        params.contains_key("max_tokens"@),
        params["max_tokens"@] == Json::Unsigned(n),
    ensures
        n > u32::MAX ==> r == Err::<PreprocessedRequest, PreprocessError>(
            PreprocessError::MaxTokensTooLarge,
        ),
        r is Ok ==> {
            &&& n <= u32::MAX
            &&& r->Ok_0.stop_conditions.max_tokens == Some(n as u32)
            &&& r->Ok_0.routing is Some
            &&& r->Ok_0.routing->0.expected_output_tokens == Some(n as u32)
        },
{
}

/// The limit is 16 tokens where the client gives no unsigned number for it, whatever
/// else the parameters are.
pub proof fn token_limit_defaults_to_sixteen(
    request: GenerateRequest,
    model: &str,
    r: Result<PreprocessedRequest, PreprocessError>,
)
    requires
        call_ensures(preprocessed_from_generate, (&request, model), r),
        json::json_of(request.sampling_params) matches Json::Object(params) ==> !(
        params.contains_key("max_tokens"@) && params["max_tokens"@] is Unsigned),
    ensures
        r != Err::<PreprocessedRequest, PreprocessError>(PreprocessError::MaxTokensTooLarge),
        r is Ok ==> r->Ok_0.stop_conditions.max_tokens == Some(16u32) && r->Ok_0.routing is Some
            && r->Ok_0.routing->0.expected_output_tokens == Some(16u32),
{
}

/// A least number of tokens that the client asks for, and that fits, is exactly the one
/// that generation is given; one that does not fit is refused, unless the limit was.
pub proof fn least_tokens_are_the_ones_asked_for(
    request: GenerateRequest,
    model: &str,
    r: Result<PreprocessedRequest, PreprocessError>,
    params: Map<Seq<char>, Json>,
    n: u64,
)
    requires
        call_ensures(preprocessed_from_generate, (&request, model), r),
        json::json_of(request.sampling_params) == Json::Object(params),
        params.contains_key("min_tokens"@),
        params["min_tokens"@] == Json::Unsigned(n),
    ensures
        n > u32::MAX ==> r is Err,
        n > u32::MAX && !(params.contains_key("max_tokens"@) && params["max_tokens"@] is Unsigned
            && params["max_tokens"@]->Unsigned_0 > u32::MAX) ==> r == Err::<
            PreprocessedRequest,
            PreprocessError,
        >(PreprocessError::MinTokensTooLarge),
        r is Ok ==> n <= u32::MAX && r->Ok_0.stop_conditions.min_tokens == Some(n as u32),
{
}

/// No token is asked for at least where the client gives no unsigned number for it.
pub proof fn least_tokens_default_to_none(
    request: GenerateRequest,
    model: &str,
    r: Result<PreprocessedRequest, PreprocessError>,
)
    requires
        call_ensures(preprocessed_from_generate, (&request, model), r),
        json::json_of(request.sampling_params) matches Json::Object(params) ==> !(
        params.contains_key("min_tokens"@) && params["min_tokens"@] is Unsigned),
    ensures
        r != Err::<PreprocessedRequest, PreprocessError>(PreprocessError::MinTokensTooLarge),
        r is Ok ==> r->Ok_0.stop_conditions.min_tokens == Some(0u32),
{
}

/// The end of a sequence is ignored exactly when the client's `ignore_eos` is true.
pub proof fn end_of_sequence_is_ignored_on_request(
    request: GenerateRequest,
    model: &str,
    r: Result<PreprocessedRequest, PreprocessError>,
)
    requires
        call_ensures(preprocessed_from_generate, (&request, model), r),
        r is Ok,
    ensures
        r->Ok_0.stop_conditions.ignore_eos is Some,
        r->Ok_0.stop_conditions.ignore_eos->0 <==> (json::json_of(
            request.sampling_params,
        ) matches Json::Object(params) && params.contains_key("ignore_eos"@)
            && params["ignore_eos"@] == Json::Bool(true)),
{
}

/// A request is refused only for a limit or a least number of tokens that does not fit.
pub proof fn requests_that_fit_are_accepted(
    request: GenerateRequest,
    model: &str,
    r: Result<PreprocessedRequest, PreprocessError>,
    params: Map<Seq<char>, Json>,
)
    requires
        call_ensures(preprocessed_from_generate, (&request, model), r),
        json::json_of(request.sampling_params) == Json::Object(params),
    ensures
        r is Ok <==> {
            &&& params.contains_key("max_tokens"@) ==> (params["max_tokens"@] matches
                Json::Unsigned(n) ==> n <= u32::MAX)
            &&& params.contains_key("min_tokens"@) ==> (params["min_tokens"@] matches
                Json::Unsigned(n) ==> n <= u32::MAX)
        },
{
}

/// A preprocessed request has the model that it is routed to, the prompt's tokens, one
/// sample, and the whole request in the envelope and nothing beside it.
pub proof fn prompt_and_envelope_are_the_requests(
    request: GenerateRequest,
    model: &str,
    r: Result<PreprocessedRequest, PreprocessError>,
    written: Value,
)
    requires
        call_ensures(preprocessed_from_generate, (&request, model), r),
        call_ensures(GenerateRequest::to_value, (&request,), written),
        r is Ok,
    ensures
        r->Ok_0.model@ == model@,
        r->Ok_0.token_ids@ == request.token_ids@,
        r->Ok_0.sampling_options.n == Some(1u8),
        r->Ok_0.extra_args is Some,
        json::json_of(r->Ok_0.extra_args->0) matches Json::Object(extra) && extra.dom() == set![
            "vllm_tito"@,
        ] && extra["vllm_tito"@] == json::json_of(written),
{
    let extra = json::no_fields().insert("vllm_tito"@, json::json_of(written));
    assert(extra.dom() =~= set!["vllm_tito"@]);
}

/// Preprocessing follows the parameters' own fields.
pub proof fn preprocessing_follows_the_parameters(request: GenerateRequestView, model: Seq<char>)
    ensures
        ({
            let given = |key: Seq<char>|
                request.sampling_params matches Json::Object(params) && params.contains_key(key)
                    && params[key] is Unsigned;
            let asked = |key: Seq<char>|
                request.sampling_params->Object_0[key]->Unsigned_0;
            let r = preprocessed_of(request, model);
            &&& given("max_tokens"@) && asked("max_tokens"@) > u32::MAX ==> r == Err::<
                PreprocessedView,
                PreprocessError,
            >(PreprocessError::MaxTokensTooLarge)
            &&& r == Err::<PreprocessedView, PreprocessError>(PreprocessError::MaxTokensTooLarge)
                ==> given("max_tokens"@) && asked("max_tokens"@) > u32::MAX
            &&& r == Err::<PreprocessedView, PreprocessError>(PreprocessError::MinTokensTooLarge)
                ==> given("min_tokens"@) && asked("min_tokens"@) > u32::MAX
            &&& r is Ok && given("max_tokens"@) ==> r->Ok_0.stop_conditions.max_tokens is Some
                && r->Ok_0.stop_conditions.max_tokens->0 == asked("max_tokens"@)
            &&& r is Ok && !given("max_tokens"@) ==> r->Ok_0.stop_conditions.max_tokens == Some(
                16u32,
            )
            &&& r is Ok && given("min_tokens"@) ==> r->Ok_0.stop_conditions.min_tokens is Some
                && r->Ok_0.stop_conditions.min_tokens->0 == asked("min_tokens"@)
            &&& r is Ok && !given("min_tokens"@) ==> r->Ok_0.stop_conditions.min_tokens == Some(
                0u32,
            )
            &&& r is Ok ==> r->Ok_0.routing == Some(
                RoutingHints { expected_output_tokens: r->Ok_0.stop_conditions.max_tokens },
            )
            &&& r is Ok ==> r->Ok_0.model == model && r->Ok_0.token_ids == request.token_ids
                && r->Ok_0.sampling_options.n == Some(1u8)
        }),
{
}

/// A streaming request is answered with 501, a named model is looked up under its own
/// name, and only without a name are the models asked for.
pub proof fn handling_begins_with_the_model(request: GenerateRequest, r: GenerateStep)
    requires
        call_ensures(begin, (&request,), r),
    ensures
        request.stream ==> (r matches GenerateStep::Reply { error } && error.status == 501
            && error.error_type@ == "not_implemented"@ && error.message@
            == "streaming (stream=true) is not implemented for /inference/v1/generate yet"@),
        !request.stream && request.model is Some ==> (r matches GenerateStep::FindEngine { model }
            && model@ == request.model->0@),
        !request.stream && request.model is None ==> r is ListModels,
{
}

/// Without a name the only model is looked up under its own name; no model is a 404, and
/// several are a 400.
pub proof fn only_model_is_chosen(models: Vec<String>, r: GenerateStep)
    requires
        call_ensures(choose_model, (&models,), r),
    ensures
        models@.len() == 1 ==> (r matches GenerateStep::FindEngine { model } && model@
            == models@[0]@),
        models@.len() == 0 ==> (r matches GenerateStep::Reply { error } && error.status == 404
            && error.error_type@ == "not_found"@ && error.message@
            == "no generate-capable model is registered"@),
        models@.len() > 1 ==> (r matches GenerateStep::Reply { error } && error.status == 400
            && error.error_type@ == "invalid_request_error"@ && error.message@
            == "multiple models are registered; specify `model` in the request"@),
{
}

/// A found engine is handed the preprocessed request, or the client told in a 400 why
/// there is none; an engine that cannot serve is a 503 and a missing one a 404, each with
/// the lookup's own words.
pub proof fn engine_decides_the_step(
    request: GenerateRequest,
    model: &str,
    lookup: EngineLookup,
    r: GenerateStep,
)
    requires
        call_ensures(with_engine, (&request, model, lookup), r),
    ensures
        match lookup {
            EngineLookup::Found => match preprocessed_of(request@, model@) {
                Ok(preprocessed) => r matches GenerateStep::Dispatch { request: sent } && sent@
                    == preprocessed,
                Err(PreprocessError::MaxTokensTooLarge) => r matches GenerateStep::Reply { error }
                    && error.status == 400 && error.error_type@ == "invalid_request_error"@
                    && error.message@ == "sampling_params.max_tokens exceeds u32"@,
                Err(PreprocessError::MinTokensTooLarge) => r matches GenerateStep::Reply { error }
                    && error.status == 400 && error.error_type@ == "invalid_request_error"@
                    && error.message@ == "sampling_params.min_tokens exceeds u32"@,
            },
            EngineLookup::Unavailable { error: why } => r matches GenerateStep::Reply { error }
                && error.status == 503 && error.error_type@ == "service_unavailable"@
                && error.message@ == why@,
            EngineLookup::Missing { error: why } => r matches GenerateStep::Reply { error }
                && error.status == 404 && error.error_type@ == "not_found"@ && error.message@
                == why@,
        },
{
}

/// Each way in which a dispatch ends has its own answer.
pub proof fn dispatch_is_answered_by_how_it_ended(
    outcome: DispatchOutcome,
    request_id: &str,
    r: Option<ErrorReply>,
)
    requires
        call_ensures(dispatch_error, (outcome, request_id), r),
    ensures
        match outcome {
            DispatchOutcome::EngineFailed { rejected: true, error: why } => r matches Some(error)
                && error.status == 503 && error.error_type@ == "service_unavailable"@
                && error.message@ == "engine rejected the request: "@ + why@,
            DispatchOutcome::EngineFailed { rejected: false, error: why } => r matches Some(error)
                && error.status == 500 && error.error_type@ == "internal_error"@ && error.message@
                == "failed to generate: "@ + why@,
            DispatchOutcome::Folded { killed: true, complete: _ } => r matches Some(error)
                && error.status == 499 && error.error_type@ == "request_cancelled"@
                && error.message@ == "request was cancelled"@,
            DispatchOutcome::Folded { killed: false, complete: false } => r matches Some(error)
                && error.status == 500 && error.error_type@ == "internal_error"@ && error.message@
                == "generation produced no complete choice for "@ + request_id@,
            DispatchOutcome::Folded { killed: false, complete: true } => r is None,
            DispatchOutcome::FoldFailed => r matches Some(error) && error.status == 500
                && error.error_type@ == "internal_error"@ && error.message@
                == "failed to fold generate stream for "@ + request_id@,
            DispatchOutcome::Panicked { error: why } => r matches Some(error) && error.status == 500
                && error.error_type@ == "internal_error"@ && error.message@
                == "generate task panicked: "@ + why@,
        },
{
}

/// The body of an error reply is one object under `error` with the reply's message, type
/// and status, and nothing else.
pub proof fn error_body_tells_the_reply(error: ErrorReply, body: Value)
    requires
        call_ensures(ErrorReply::body, (&error,), body),
    ensures
        json::json_of(body) matches Json::Object(outer) && outer.dom() == set!["error"@] && (
        outer["error"@] matches Json::Object(inner) && inner.dom() == set![
            "message"@,
            "type"@,
            "code"@,
        ] && inner["message"@] == Json::Text(error.message@) && inner["type"@] == Json::Text(
            error.error_type@,
        ) && inner["code"@] == Json::Unsigned(error.status as u64)),
{
    reveal_strlit("message");
    reveal_strlit("type");
    reveal_strlit("code");
    assert("message"@.len() == 7);
    assert("type"@[0] == 't');
    assert("code"@[0] == 'c');
    assert(error@.error().dom() =~= set!["message"@, "type"@, "code"@]);
    assert(json::no_fields().insert("error"@, Json::Object(error@.error())).dom() =~= set![
        "error"@,
    ]);
}

/// What a reply, a preprocessed request and a step say is what they hold.
pub proof fn steps_say_what_they_hold(
    error: ErrorReply,
    request: PreprocessedRequest,
    model: String,
)
    ensures
        error@.status == error.status,
        error@.error_type == error.error_type@,
        error@.message == error.message@,
        request@.model == request.model@,
        request@.token_ids == request.token_ids@,
        request@.stop_conditions == request.stop_conditions,
        request@.sampling_options == request.sampling_options,
        request@.routing == request.routing,
        request@.extra_args is Some <==> request.extra_args is Some,
        request.extra_args is Some ==> request@.extra_args->0 == json::json_of(
            request.extra_args->0,
        ),
        GenerateStep::ListModels@ == GenerateStepView::ListModels,
        (GenerateStep::FindEngine { model })@ == GenerateStepView::FindEngine(model@),
        (GenerateStep::Dispatch { request })@ == GenerateStepView::Dispatch(request@),
        (GenerateStep::Reply { error })@ == GenerateStepView::Reply(error@),
{
}

/// A request keeps the id that its client gave it.
pub proof fn clients_id_is_kept(request: GenerateRequest, generated: String, r: String)
    requires
        call_ensures(effective_request_id, (&request, generated), r),
    ensures
        request.request_id is Some ==> r@ == request.request_id->0@,
        request.request_id is None ==> r@ == generated@,
{
}

/// The endpoint is served on the configured path, or else on the default one.
pub proof fn endpoint_is_served_on_its_path(path: Option<String>, r: String)
    requires
        call_ensures(generate_path, (path,), r),
    ensures
        path is Some ==> r@ == path->0@,
        path is None ==> r@ == "/inference/v1/generate"@,
{
}

/// An error reply holds the parts that it is built from.
pub proof fn reply_holds_its_parts(
    status: u16,
    error_type: &'static str,
    message: String,
    r: ErrorReply,
)
    requires
        call_ensures(generate_error_response, (status, error_type, message), r),
    ensures
        r.status == status,
        r.error_type@ == error_type@,
        r.message@ == message@,
{
}

/// A dispatch counts as a rejection exactly when it is answered with a 503.
pub proof fn rejections_are_unavailable(
    outcome: DispatchOutcome,
    request_id: &str,
    rejected: bool,
    r: Option<ErrorReply>,
)
    requires
        call_ensures(is_rejection, (&outcome,), rejected),
        call_ensures(dispatch_error, (outcome, request_id), r),
    ensures
        rejected <==> r is Some && r->0.status == 503,
{
}

} // verus!
