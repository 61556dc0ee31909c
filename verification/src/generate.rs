//! Protocol types for the token-in/token-out `Generate` API
//! (`POST /inference/v1/generate`).
//!
//! They follow vLLM's `GenerateRequest` / `GenerateResponse` wire contract. Only the
//! fields that the frontend itself acts on are typed; `sampling_params` is kept
//! opaque, and every other field, including ones that a newer vLLM adds, is captured
//! in `vllm_passthrough` and forwarded to the worker verbatim. A new request field
//! flows through with no change here.

use serde_json::Value;
use vstd::prelude::*;

use crate::json;
use crate::json::Json;
use crate::text;
use crate::wire;
use crate::wire::{
    read_flag, read_index, read_optional, read_optional_text, read_record, read_tokens, write_tokens,
    ProtocolError, ProtocolFault,
};

verus! {

/// Token-in/token-out generation request.
#[derive(Debug, Clone)]
pub struct GenerateRequest {
    /// Client-supplied request id, echoed back. The server generates one if absent.
    pub request_id: Option<String>,
    /// Pre-tokenized prompt. Required: this is the KV-routing input.
    pub token_ids: Vec<u32>,
    /// Opaque vLLM `sampling_params`; forwarded verbatim and parsed at the worker.
    pub sampling_params: Value,
    /// Model or alias for worker selection. Single-model deployments omit it.
    pub model: Option<String>,
    /// Streaming or unary response.
    pub stream: bool,
    /// Every other top-level field, captured verbatim and forwarded untouched.
    pub vllm_passthrough: serde_json::Map<String, Value>,
}

/// What a [`GenerateRequest`] says.
#[verifier::ext_equal]
pub struct GenerateRequestView {
    pub request_id: Option<Seq<char>>,
    pub token_ids: Seq<u32>,
    pub sampling_params: Json,
    pub model: Option<Seq<char>>,
    pub stream: bool,
    pub vllm_passthrough: Map<Seq<char>, Json>,
}

impl View for GenerateRequest {
    type V = GenerateRequestView;

    open spec fn view(&self) -> GenerateRequestView {
        GenerateRequestView {
            request_id: text::optional_text(self.request_id),
            token_ids: self.token_ids@,
            sampling_params: json::json_of(self.sampling_params),
            model: text::optional_text(self.model),
            stream: self.stream,
            vllm_passthrough: json::fields_of(self.vllm_passthrough),
        }
    }
}

// ---------------------------------------------------------------------------
// Requests
// ---------------------------------------------------------------------------

/// Whether a request field is one that the frontend acts on.
pub open spec fn typed(key: Seq<char>) -> bool {
    ||| key == "request_id"@
    ||| key == "token_ids"@
    ||| key == "sampling_params"@
    ||| key == "model"@
    ||| key == "stream"@
}

/// The fields that the frontend does not act on.
pub open spec fn untyped(fields: Map<Seq<char>, Json>) -> Map<Seq<char>, Json> {
    Map::new(|key: Seq<char>| fields.contains_key(key) && !typed(key), |key: Seq<char>| fields[key])
}

/// What is wrong with the fields of a request: first a value of the wrong kind,
/// then a required field that is absent.
pub open spec fn request_fault(fields: Map<Seq<char>, Json>) -> Option<ProtocolFault> {
    if wire::optional_text_field(fields, "model"@) is Err {
        Some(ProtocolFault::Invalid("model"@))
    } else if wire::optional_text_field(fields, "request_id"@) is Err {
        Some(ProtocolFault::Invalid("request_id"@))
    } else if wire::flag_field(fields, "stream"@) is Err {
        Some(ProtocolFault::Invalid("stream"@))
    } else if fields.contains_key("token_ids"@) && wire::tokens_in(fields["token_ids"@]) is None {
        Some(ProtocolFault::Invalid("token_ids"@))
    } else if !fields.contains_key("token_ids"@) {
        Some(ProtocolFault::Missing("token_ids"@))
    } else if !fields.contains_key("sampling_params"@) {
        Some(ProtocolFault::Missing("sampling_params"@))
    } else {
        None
    }
}

/// The request that some fields are, where nothing is wrong with them.
pub open spec fn request_of(fields: Map<Seq<char>, Json>) -> GenerateRequestView {
    GenerateRequestView {
        request_id: wire::optional_text_field(fields, "request_id"@)->Ok_0,
        token_ids: wire::tokens_in(fields["token_ids"@])->0,
        sampling_params: fields["sampling_params"@],
        model: wire::optional_text_field(fields, "model"@)->Ok_0,
        stream: wire::flag_field(fields, "stream"@)->Ok_0,
        vllm_passthrough: untyped(fields),
    }
}

impl GenerateRequestView {
    /// The typed fields of the request as it goes on the wire: an absent id or
    /// model is left out, the rest is always there.
    pub open spec fn typed_fields(self) -> Map<Seq<char>, Json> {
        wire::with_optional(
            wire::with_optional(json::no_fields(), "request_id"@, wire::text_value(self.request_id)),
            "model"@,
            wire::text_value(self.model),
        ).insert("token_ids"@, wire::token_array(self.token_ids)).insert(
            "sampling_params"@,
            self.sampling_params,
        ).insert("stream"@, Json::Bool(self.stream))
    }

    /// The request as it goes on the wire, with the untyped fields beside the typed
    /// ones.
    pub open spec fn fields(self) -> Map<Seq<char>, Json> {
        self.typed_fields().union_prefer_right(self.vllm_passthrough)
    }
}

/// The fields that are left once the typed ones are removed.
fn strip_typed(fields: &serde_json::Map<String, Value>) -> (r: serde_json::Map<String, Value>)
    ensures
        json::fields_of(r) == untyped(json::fields_of(*fields)),
{
    let mut rest = fields.clone();
    json::unset(&mut rest, "request_id");
    json::unset(&mut rest, "token_ids");
    json::unset(&mut rest, "sampling_params");
    json::unset(&mut rest, "model");
    json::unset(&mut rest, "stream");
    proof {
        assert(json::fields_of(rest) =~= untyped(json::fields_of(*fields)));
    }
    rest
}

/// Set a field that is not there yet.
fn set_absent(fields: &mut serde_json::Map<String, Value>, key: &str, value: Value)
    ensures
        json::fields_of(*final(fields)) == (if json::fields_of(*old(fields)).contains_key(key@) {
            json::fields_of(*old(fields))
        } else {
            json::fields_of(*old(fields)).insert(key@, json::json_of(value))
        }),
{
    if json::field(fields, key).is_none() {
        json::set(fields, key, value);
    }
}

impl GenerateRequest {
    /// Read a request off a JSON document.
    pub fn from_value(value: &Value) -> (r: Result<GenerateRequest, ProtocolError>)
        ensures
            match (json::json_of(*value), r) {
                (Json::Object(fields), Ok(request)) => request_fault(fields) is None && request@
                    == request_of(fields),
                (Json::Object(fields), Err(e)) => request_fault(fields) == Some(e@),
                (_, Ok(_)) => false,
                (_, Err(e)) => e@ == ProtocolFault::NotARecord,
            },
    {
        let fields = match value.as_object() {
            Some(fields) => fields,
            None => return Err(ProtocolError::NotARecord),
        };
        let model = match read_optional_text(fields, "model") {
            Ok(model) => model,
            Err(e) => return Err(e),
        };
        let request_id = match read_optional_text(fields, "request_id") {
            Ok(request_id) => request_id,
            Err(e) => return Err(e),
        };
        let stream = match read_flag(fields, "stream") {
            Ok(stream) => stream,
            Err(e) => return Err(e),
        };
        let token_ids = match json::field(fields, "token_ids") {
            Some(tokens) => match read_tokens(tokens) {
                Some(token_ids) => token_ids,
                None => return Err(ProtocolError::Invalid { field: "token_ids" }),
            },
            None => return Err(ProtocolError::Missing { field: "token_ids" }),
        };
        let sampling_params = match json::field(fields, "sampling_params") {
            Some(params) => params.clone(),
            None => return Err(ProtocolError::Missing { field: "sampling_params" }),
        };
        let vllm_passthrough = strip_typed(fields);
        Ok(
            GenerateRequest {
                request_id,
                token_ids,
                sampling_params,
                model,
                stream,
                vllm_passthrough,
            },
        )
    }

    /// Write the request as a JSON document, the untyped fields at the top level.
    pub fn to_value(&self) -> (r: Value)
        ensures
            json::json_of(r) == Json::Object(self@.fields()),
    {
        let mut fields = self.vllm_passthrough.clone();
        let ghost rest = json::fields_of(fields);
        if let Some(request_id) = &self.request_id {
            set_absent(&mut fields, "request_id", json::text(request_id.as_str()));
        }
        if let Some(model) = &self.model {
            set_absent(&mut fields, "model", json::text(model.as_str()));
        }
        set_absent(&mut fields, "token_ids", write_tokens(&self.token_ids));
        set_absent(&mut fields, "sampling_params", self.sampling_params.clone());
        set_absent(&mut fields, "stream", json::boolean(self.stream));
        proof {
            lemma_request_keys_differ();
            assert(json::fields_of(fields) =~= self@.fields());
        }
        json::object(fields)
    }
}

proof fn lemma_request_keys_differ()
    ensures
        "request_id"@ != "token_ids"@,
        "request_id"@ != "sampling_params"@,
        "request_id"@ != "model"@,
        "request_id"@ != "stream"@,
        "token_ids"@ != "sampling_params"@,
        "token_ids"@ != "model"@,
        "token_ids"@ != "stream"@,
        "sampling_params"@ != "model"@,
        "sampling_params"@ != "stream"@,
        "model"@ != "stream"@,
{
    reveal_strlit("request_id");
    reveal_strlit("token_ids");
    reveal_strlit("sampling_params");
    reveal_strlit("model");
    reveal_strlit("stream");
    assert("request_id"@.len() == 10);
    assert("token_ids"@.len() == 9);
    assert("sampling_params"@.len() == 15);
    assert("model"@.len() == 5);
    assert("stream"@.len() == 6);
}

// ---------------------------------------------------------------------------
// Laws of requests
// ---------------------------------------------------------------------------

/// Unknown fields are captured, not dropped: whatever is not typed is held
/// verbatim, and it goes back on the wire at the top level.
pub proof fn unknown_fields_flow_through(fields: Map<Seq<char>, Json>, key: Seq<char>)
    requires
        request_fault(fields) is None,
        fields.contains_key(key),
        !typed(key),
    ensures
        request_of(fields).vllm_passthrough.contains_key(key),
        request_of(fields).vllm_passthrough[key] == fields[key],
        request_of(fields).fields().contains_key(key),
        request_of(fields).fields()[key] == fields[key],
{
}

/// A document with its defaults in one form: an id or model that is null is absent,
/// and a missing `stream` is `false`.
pub open spec fn normalised(fields: Map<Seq<char>, Json>) -> Map<Seq<char>, Json> {
    Map::new(
        |key: Seq<char>|
            key == "stream"@ || (fields.contains_key(key) && !((key == "request_id"@ || key
                == "model"@) && fields[key] == Json::Null)),
        |key: Seq<char>|
            if fields.contains_key(key) {
                fields[key]
            } else {
                Json::Bool(false)
            },
    )
}

/// The complete request reaches the worker: writing an accepted request gives the
/// document it was read from, up to defaults that are spelled out.
pub proof fn accepted_request_is_written_back(fields: Map<Seq<char>, Json>)
    requires
        request_fault(fields) is None,
    ensures
        request_of(fields).fields() == normalised(fields),
{
    lemma_request_keys_differ();
    wire::lemma_tokens_round_trip(fields["token_ids"@]);
    let written = request_of(fields).fields();
    assert forall|key: Seq<char>|
        written.contains_key(key) == normalised(fields).contains_key(key) && (
        written.contains_key(key) ==> written[key] == normalised(fields)[key]) by {
        if typed(key) {
            assert(!request_of(fields).vllm_passthrough.contains_key(key));
        }
    }
    assert(written =~= normalised(fields));
}

/// A document that spells `stream` out and has no null id or model is written back
/// unchanged.
pub proof fn spelled_out_request_is_unchanged(fields: Map<Seq<char>, Json>)
    requires
        request_fault(fields) is None,
        fields.contains_key("stream"@),
        fields.contains_key("request_id"@) ==> fields["request_id"@] != Json::Null,
        fields.contains_key("model"@) ==> fields["model"@] != Json::Null,
    ensures
        request_of(fields).fields() == fields,
{
    accepted_request_is_written_back(fields);
    assert(normalised(fields) =~= fields);
}

/// Reading back a written request gives that request, provided that its untyped
/// fields do not take the name of a typed one.
pub proof fn written_request_reads_back(request: GenerateRequestView)
    requires
        forall|key: Seq<char>| #[trigger] typed(key) ==> !request.vllm_passthrough.contains_key(key),
    ensures
        request_fault(request.fields()) is None,
        request_of(request.fields()) == request,
{
    lemma_request_keys_differ();
    let fields = request.fields();
    let tokens = request.token_ids;
    assert(typed("request_id"@) && typed("token_ids"@) && typed("sampling_params"@) && typed(
        "model"@,
    ) && typed("stream"@));
    assert(fields["token_ids"@] == wire::token_array(tokens));
    wire::lemma_token_array_reads_back(tokens);
    assert(untyped(fields) =~= request.vllm_passthrough);
}

// ---------------------------------------------------------------------------
// Responses
// ---------------------------------------------------------------------------

/// A single choice in a [`GenerateResponse`].
#[derive(Debug, Clone)]
pub struct GenerateResponseChoice {
    pub index: u32,
    pub token_ids: Option<Vec<u32>>,
    pub logprobs: Option<Value>,
    pub finish_reason: Option<String>,
}

/// Token-in/token-out generation response.
#[derive(Debug, Clone)]
pub struct GenerateResponse {
    pub request_id: String,
    pub choices: Vec<GenerateResponseChoice>,
    pub prompt_logprobs: Option<Value>,
    pub kv_transfer_params: Option<Value>,
}

/// What a [`GenerateResponseChoice`] says.
#[verifier::ext_equal]
pub struct ChoiceView {
    pub index: u32,
    pub token_ids: Option<Seq<u32>>,
    pub logprobs: Option<Json>,
    pub finish_reason: Option<Seq<char>>,
}

/// What a [`GenerateResponse`] says.
#[verifier::ext_equal]
pub struct ResponseView {
    pub request_id: Seq<char>,
    pub choices: Seq<ChoiceView>,
    pub prompt_logprobs: Option<Json>,
    pub kv_transfer_params: Option<Json>,
}

/// The token ids of an optional list.
pub open spec fn optional_tokens(tokens: Option<Vec<u32>>) -> Option<Seq<u32>> {
    match tokens {
        Some(t) => Some(t@),
        None => None,
    }
}

impl View for GenerateResponseChoice {
    type V = ChoiceView;

    open spec fn view(&self) -> ChoiceView {
        ChoiceView {
            index: self.index,
            token_ids: optional_tokens(self.token_ids),
            logprobs: wire::optional_json(self.logprobs),
            finish_reason: text::optional_text(self.finish_reason),
        }
    }
}

/// What each choice says.
pub open spec fn choice_views(choices: Seq<GenerateResponseChoice>) -> Seq<ChoiceView> {
    choices.map_values(|c: GenerateResponseChoice| c@)
}

impl View for GenerateResponse {
    type V = ResponseView;

    open spec fn view(&self) -> ResponseView {
        ResponseView {
            request_id: self.request_id@,
            choices: choice_views(self.choices@),
            prompt_logprobs: wire::optional_json(self.prompt_logprobs),
            kv_transfer_params: wire::optional_json(self.kv_transfer_params),
        }
    }
}

/// Optional token ids as an optional field value.
pub open spec fn token_value(tokens: Option<Seq<u32>>) -> Option<Json> {
    match tokens {
        Some(t) => Some(wire::token_array(t)),
        None => None,
    }
}

impl ChoiceView {
    /// The choice as it goes on the wire: absent token ids and log-probabilities
    /// are left out, an absent finish reason is null.
    pub open spec fn fields(self) -> Map<Seq<char>, Json> {
        wire::with_optional(
            wire::with_optional(json::no_fields(), "token_ids"@, token_value(self.token_ids)),
            "logprobs"@,
            self.logprobs,
        ).insert("index"@, Json::Unsigned(self.index as u64)).insert(
            "finish_reason"@,
            match self.finish_reason {
                Some(reason) => Json::Text(reason),
                None => Json::Null,
            },
        )
    }
}

/// Choices as an array.
pub open spec fn choice_array(choices: Seq<ChoiceView>) -> Json {
    Json::Array(choices.map_values(|c: ChoiceView| Json::Object(c.fields())))
}

impl ResponseView {
    /// The response as it goes on the wire. There is no `usage` field, and absent
    /// values are left out.
    pub open spec fn fields(self) -> Map<Seq<char>, Json> {
        wire::with_optional(
            wire::with_optional(json::no_fields(), "prompt_logprobs"@, self.prompt_logprobs),
            "kv_transfer_params"@,
            self.kv_transfer_params,
        ).insert("request_id"@, Json::Text(self.request_id)).insert(
            "choices"@,
            choice_array(self.choices),
        )
    }
}

/// The fields of a choice, in order.
pub open spec fn choice_names() -> Seq<Seq<char>> {
    seq!["index"@, "token_ids"@, "logprobs"@, "finish_reason"@]
}

/// The choice that a value is, if it is one.
pub open spec fn choice_in(value: Json) -> Option<ChoiceView> {
    match wire::record_fields(value, choice_names(), 4) {
        Some(fields) => {
            let tokens = wire::optional_field(fields, "token_ids"@);
            if !fields.contains_key("index"@) || !wire::is_token(fields["index"@]) {
                None
            } else if tokens is Some && wire::tokens_in(tokens->0) is None {
                None
            } else if wire::optional_text_field(fields, "finish_reason"@) is Err {
                None
            } else {
                Some(
                    ChoiceView {
                        index: wire::token_of(fields["index"@]),
                        token_ids: match tokens {
                            Some(t) => wire::tokens_in(t),
                            None => None,
                        },
                        logprobs: wire::optional_field(fields, "logprobs"@),
                        finish_reason: wire::optional_text_field(fields, "finish_reason"@)->Ok_0,
                    },
                )
            }
        },
        None => None,
    }
}

/// The choices in an array, if every item is one.
pub open spec fn choices_in(value: Json) -> Option<Seq<ChoiceView>> {
    match value {
        Json::Array(items) => if forall|i: int|
            0 <= i < items.len() ==> choice_in(#[trigger] items[i]) is Some {
            Some(items.map_values(|item: Json| choice_in(item)->0))
        } else {
            None
        },
        _ => None,
    }
}

/// What is wrong with the fields of a response: first a value of the wrong kind,
/// then a required field that is absent.
pub open spec fn response_fault(fields: Map<Seq<char>, Json>) -> Option<ProtocolFault> {
    if fields.contains_key("choices"@) && choices_in(fields["choices"@]) is None {
        Some(ProtocolFault::Invalid("choices"@))
    } else if fields.contains_key("request_id"@) && !(fields["request_id"@] is Text) {
        Some(ProtocolFault::Invalid("request_id"@))
    } else if !fields.contains_key("request_id"@) {
        Some(ProtocolFault::Missing("request_id"@))
    } else if !fields.contains_key("choices"@) {
        Some(ProtocolFault::Missing("choices"@))
    } else {
        None
    }
}

/// The fields of a response, in order.
pub open spec fn response_names() -> Seq<Seq<char>> {
    seq!["request_id"@, "choices"@, "prompt_logprobs"@, "kv_transfer_params"@]
}

/// The response that some fields are, where nothing is wrong with them.
pub open spec fn response_of(fields: Map<Seq<char>, Json>) -> ResponseView {
    ResponseView {
        request_id: fields["request_id"@]->Text_0,
        choices: choices_in(fields["choices"@])->0,
        prompt_logprobs: wire::optional_field(fields, "prompt_logprobs"@),
        kv_transfer_params: wire::optional_field(fields, "kv_transfer_params"@),
    }
}

impl GenerateResponseChoice {
    fn from_value(value: &Value) -> (r: Option<GenerateResponseChoice>)
        ensures
            match r {
                Some(choice) => choice_in(json::json_of(*value)) == Some(choice@),
                None => choice_in(json::json_of(*value)) is None,
            },
    {
        let names: Vec<&'static str> = vec!["index", "token_ids", "logprobs", "finish_reason"];
        proof {
            assert(wire::name_views(names@) =~= choice_names());
        }
        let record = match read_record(value, &names, 4) {
            Some(record) => record,
            None => return None,
        };
        let fields = &record;
        let index: u32 = match json::field(fields, "index") {
            Some(index) => match read_index(index) {
                Some(index) => index,
                None => return None,
            },
            None => return None,
        };
        let token_ids = match read_optional(fields, "token_ids") {
            Some(tokens) => match read_tokens(&tokens) {
                Some(token_ids) => Some(token_ids),
                None => return None,
            },
            None => None,
        };
        let finish_reason = match read_optional_text(fields, "finish_reason") {
            Ok(finish_reason) => finish_reason,
            Err(_) => return None,
        };
        let logprobs = read_optional(fields, "logprobs");
        Some(GenerateResponseChoice { index, token_ids, logprobs, finish_reason })
    }

    fn to_value(&self) -> (r: Value)
        ensures
            json::json_of(r) == Json::Object(self@.fields()),
    {
        let mut fields: serde_json::Map<String, Value> = serde_json::Map::new();
        if let Some(token_ids) = &self.token_ids {
            json::set(&mut fields, "token_ids", write_tokens(token_ids));
        }
        if let Some(logprobs) = &self.logprobs {
            json::set(&mut fields, "logprobs", logprobs.clone());
        }
        json::set(&mut fields, "index", json::number(self.index as u64));
        match &self.finish_reason {
            Some(reason) => {
                json::set(&mut fields, "finish_reason", json::text(reason.as_str()));
            },
            None => {
                json::set(&mut fields, "finish_reason", json::null());
            },
        }
        json::object(fields)
    }
}

fn read_choices(value: &Value) -> (r: Option<Vec<GenerateResponseChoice>>)
    ensures
        match r {
            Some(choices) => choices_in(json::json_of(*value)) == Some(choice_views(choices@)),
            None => choices_in(json::json_of(*value)) is None,
        },
{
    let items = match value.as_array() {
        Some(items) => items,
        None => return None,
    };
    let ghost held = json::items_of(items@);
    let mut choices: Vec<GenerateResponseChoice> = Vec::new();
    let mut i: usize = 0;
    while i < items.len()
        invariant
            i <= items.len(),
            held == json::items_of(items@),
            json::json_of(*value) == Json::Array(held),
            choices@.len() == i,
            forall|j: int|
                0 <= j < i ==> choice_in(#[trigger] held[j]) == Some(choice_views(choices@)[j]),
        decreases items.len() - i,
    {
        let ghost listed = choice_views(choices@);
        match GenerateResponseChoice::from_value(&items[i]) {
            Some(choice) => {
                choices.push(choice);
                proof {
                    assert(choice_views(choices@) =~= listed.push(choice@));
                }
            },
            None => {
                proof {
                    assert(choice_in(held[i as int]) is None);
                }
                return None;
            },
        }
        i = i + 1;
    }
    proof {
        assert(choice_views(choices@) =~= held.map_values(|item: Json| choice_in(item)->0));
    }
    Some(choices)
}

impl GenerateResponse {
    /// Read a response off a JSON document.
    pub fn from_value(value: &Value) -> (r: Result<GenerateResponse, ProtocolError>)
        ensures
            match (wire::record_fields(json::json_of(*value), response_names(), 4), r) {
                (Some(fields), Ok(response)) => response_fault(fields) is None && response@
                    == response_of(fields),
                (Some(fields), Err(e)) => response_fault(fields) == Some(e@),
                (None, Ok(_)) => false,
                (None, Err(e)) => e@ == ProtocolFault::NotARecord,
            },
    {
        let names: Vec<&'static str> = vec![
            "request_id",
            "choices",
            "prompt_logprobs",
            "kv_transfer_params",
        ];
        proof {
            assert(wire::name_views(names@) =~= response_names());
        }
        let record = match read_record(value, &names, 4) {
            Some(record) => record,
            None => return Err(ProtocolError::NotARecord),
        };
        let fields = &record;
        let choices = match json::field(fields, "choices") {
            Some(choices) => match read_choices(choices) {
                Some(choices) => Some(choices),
                None => return Err(ProtocolError::Invalid { field: "choices" }),
            },
            None => None,
        };
        let request_id = match json::field(fields, "request_id") {
            Some(request_id) => match request_id.as_str() {
                Some(request_id) => request_id.to_owned(),
                None => return Err(ProtocolError::Invalid { field: "request_id" }),
            },
            None => return Err(ProtocolError::Missing { field: "request_id" }),
        };
        let choices = match choices {
            Some(choices) => choices,
            None => return Err(ProtocolError::Missing { field: "choices" }),
        };
        let prompt_logprobs = read_optional(fields, "prompt_logprobs");
        let kv_transfer_params = read_optional(fields, "kv_transfer_params");
        Ok(GenerateResponse { request_id, choices, prompt_logprobs, kv_transfer_params })
    }

    /// Write the response as a JSON document.
    pub fn to_value(&self) -> (r: Value)
        ensures
            json::json_of(r) == Json::Object(self@.fields()),
    {
        let mut items: Vec<Value> = Vec::new();
        let mut i: usize = 0;
        while i < self.choices.len()
            invariant
                i <= self.choices.len(),
                items@.len() == i,
                forall|j: int|
                    0 <= j < i ==> json::json_of(#[trigger] items@[j]) == Json::Object(
                        self.choices@[j]@.fields(),
                    ),
            decreases self.choices.len() - i,
        {
            items.push(self.choices[i].to_value());
            i = i + 1;
        }
        proof {
            assert(json::items_of(items@) =~= self@.choices.map_values(
                |c: ChoiceView| Json::Object(c.fields()),
            ));
        }
        let mut fields: serde_json::Map<String, Value> = serde_json::Map::new();
        if let Some(prompt_logprobs) = &self.prompt_logprobs {
            json::set(&mut fields, "prompt_logprobs", prompt_logprobs.clone());
        }
        if let Some(kv_transfer_params) = &self.kv_transfer_params {
            json::set(&mut fields, "kv_transfer_params", kv_transfer_params.clone());
        }
        json::set(&mut fields, "request_id", json::text(self.request_id.as_str()));
        json::set(&mut fields, "choices", json::array(items));
        json::object(fields)
    }
}

// ---------------------------------------------------------------------------
// Laws of responses
// ---------------------------------------------------------------------------

/// Whether an optional value can be told from an absent one on the wire.
pub open spec fn not_null(value: Option<Json>) -> bool {
    value != Some(Json::Null)
}

/// A response never carries a `usage` field, and what is absent is left out.
pub proof fn response_has_no_usage(response: ResponseView)
    ensures
        !response.fields().contains_key("usage"@),
        response.prompt_logprobs is None ==> !response.fields().contains_key("prompt_logprobs"@),
        response.kv_transfer_params is None ==> !response.fields().contains_key(
            "kv_transfer_params"@,
        ),
{
    lemma_response_keys_differ();
}

proof fn lemma_response_keys_differ()
    ensures
        "request_id"@ != "choices"@,
        "request_id"@ != "prompt_logprobs"@,
        "request_id"@ != "kv_transfer_params"@,
        "request_id"@ != "usage"@,
        "choices"@ != "prompt_logprobs"@,
        "choices"@ != "kv_transfer_params"@,
        "choices"@ != "usage"@,
        "prompt_logprobs"@ != "kv_transfer_params"@,
        "prompt_logprobs"@ != "usage"@,
        "kv_transfer_params"@ != "usage"@,
        "index"@ != "token_ids"@,
        "index"@ != "logprobs"@,
        "index"@ != "finish_reason"@,
        "token_ids"@ != "logprobs"@,
        "token_ids"@ != "finish_reason"@,
        "logprobs"@ != "finish_reason"@,
{
    reveal_strlit("request_id");
    reveal_strlit("choices");
    reveal_strlit("prompt_logprobs");
    reveal_strlit("kv_transfer_params");
    reveal_strlit("usage");
    reveal_strlit("index");
    reveal_strlit("token_ids");
    reveal_strlit("logprobs");
    reveal_strlit("finish_reason");
    assert("request_id"@.len() == 10);
    assert("choices"@.len() == 7);
    assert("prompt_logprobs"@.len() == 15);
    assert("kv_transfer_params"@.len() == 18);
    assert("usage"@.len() == 5);
    assert("index"@.len() == 5);
    assert("token_ids"@.len() == 9);
    assert("logprobs"@.len() == 8);
    assert("finish_reason"@.len() == 13);
}

proof fn lemma_choice_reads_back(choice: ChoiceView)
    requires
        not_null(choice.logprobs),
    ensures
        choice_in(Json::Object(choice.fields())) == Some(choice),
{
    lemma_response_keys_differ();
    if choice.token_ids is Some {
        wire::lemma_token_array_reads_back(choice.token_ids->0);
    }
}

/// Reading back a written response gives that response, provided that none of its
/// optional values is an explicit null.
pub proof fn written_response_reads_back(response: ResponseView)
    requires
        not_null(response.prompt_logprobs),
        not_null(response.kv_transfer_params),
        forall|i: int|
            0 <= i < response.choices.len() ==> not_null((#[trigger] response.choices[i]).logprobs),
    ensures
        response_fault(response.fields()) is None,
        response_of(response.fields()) == response,
{
    lemma_response_keys_differ();
    let items = response.choices.map_values(|c: ChoiceView| Json::Object(c.fields()));
    assert forall|i: int| 0 <= i < items.len() implies choice_in(#[trigger] items[i]) == Some(
        response.choices[i],
    ) by {
        lemma_choice_reads_back(response.choices[i]);
    }
    assert(items.map_values(|item: Json| choice_in(item)->0) =~= response.choices);
    assert(choices_in(choice_array(response.choices)) == Some(response.choices));
}

// ---------------------------------------------------------------------------
// Laws of single fields
// ---------------------------------------------------------------------------

/// An accepted request has each typed field as the document has it, and every other field
/// of the document as it stands there, and no more.
pub proof fn request_is_read_field_by_field(
    value: Value,
    r: Result<GenerateRequest, ProtocolError>,
    fields: Map<Seq<char>, Json>,
    key: Seq<char>,
)
    requires
        call_ensures(GenerateRequest::from_value, (&value,), r),
        json::json_of(value) == Json::Object(fields),
        r is Ok,
    ensures
        ({
            let request = r->Ok_0;
            let rest = json::fields_of(request.vllm_passthrough);
            &&& request.request_id is Some ==> fields.contains_key("request_id"@)
                && fields["request_id"@] == Json::Text(request.request_id->0@)
            &&& request.request_id is None ==> !fields.contains_key("request_id"@)
                || fields["request_id"@] == Json::Null
            &&& request.model is Some ==> fields.contains_key("model"@) && fields["model"@]
                == Json::Text(request.model->0@)
            &&& request.model is None ==> !fields.contains_key("model"@) || fields["model"@]
                == Json::Null
            &&& fields.contains_key("stream"@) ==> fields["stream"@] == Json::Bool(request.stream)
            &&& !fields.contains_key("stream"@) ==> !request.stream
            &&& fields.contains_key("token_ids"@)
            &&& fields["token_ids"@] matches Json::Array(items) && items.len()
                == request.token_ids@.len() && forall|i: int|
                0 <= i < items.len() ==> #[trigger] items[i] == Json::Unsigned(
                    request.token_ids@[i] as u64,
                )
            &&& fields.contains_key("sampling_params"@)
            &&& json::json_of(request.sampling_params) == fields["sampling_params"@]
            &&& rest.contains_key(key) <==> fields.contains_key(key) && key != "request_id"@ && key
                != "token_ids"@ && key != "sampling_params"@ && key != "model"@ && key != "stream"@
            &&& rest.contains_key(key) ==> rest[key] == fields[key]
        }),
{
    wire::tokens_are_the_items(fields["token_ids"@], r->Ok_0.token_ids@);
}

/// A document is a request exactly when it is an object whose id and model are texts,
/// null or absent, whose `stream` is a truth value or absent, whose tokens are an array of
/// tokens, and which has sampling parameters. Otherwise the first fault is told: a wrong
/// model, id or `stream`, wrong tokens, then what is missing.
pub proof fn request_is_accepted_by_its_typed_fields(
    value: Value,
    r: Result<GenerateRequest, ProtocolError>,
)
    requires
        call_ensures(GenerateRequest::from_value, (&value,), r),
    ensures
        json::json_of(value) matches Json::Object(fields) ==> {
            let wrong_text = |key: Seq<char>|
                fields.contains_key(key) && !(fields[key] is Text) && !(fields[key] is Null);
            if wrong_text("model"@) {
                r is Err && r->Err_0@ == ProtocolFault::Invalid("model"@)
            } else if wrong_text("request_id"@) {
                r is Err && r->Err_0@ == ProtocolFault::Invalid("request_id"@)
            } else if fields.contains_key("stream"@) && !(fields["stream"@] is Bool) {
                r is Err && r->Err_0@ == ProtocolFault::Invalid("stream"@)
            } else if !fields.contains_key("token_ids"@) {
                r is Err && r->Err_0@ == ProtocolFault::Missing("token_ids"@)
            } else if !(fields["token_ids"@] is Array) || exists|i: int|
                0 <= i < fields["token_ids"@]->Array_0.len() && !((
                #[trigger] fields["token_ids"@]->Array_0[i]) is Unsigned
                    && fields["token_ids"@]->Array_0[i]->Unsigned_0 <= u32::MAX) {
                r is Err && r->Err_0@ == ProtocolFault::Invalid("token_ids"@)
            } else if !fields.contains_key("sampling_params"@) {
                r is Err && r->Err_0@ == ProtocolFault::Missing("sampling_params"@)
            } else {
                r is Ok
            }
        },
        !(json::json_of(value) is Object) ==> r is Err && r->Err_0@ == ProtocolFault::NotARecord,
{
    if json::json_of(value) is Object {
        let fields = json::json_of(value)->Object_0;
        wire::tokens_are_the_items(fields["token_ids"@], Seq::empty());
    }
}

/// A request is written with its own fields: what it does not act on as it stands, and
/// beside that its tokens, parameters and `stream`, and its id and model where it has
/// them; nothing else is written.
pub proof fn request_is_written_field_by_field(
    request: GenerateRequest,
    written: Value,
    key: Seq<char>,
)
    requires
        call_ensures(GenerateRequest::to_value, (&request,), written),
    ensures
        json::json_of(written) matches Json::Object(fields) && {
            let rest = json::fields_of(request.vllm_passthrough);
            if rest.contains_key(key) {
                fields.contains_key(key) && fields[key] == rest[key]
            } else if key == "token_ids"@ {
                fields.contains_key(key) && fields[key] == wire::token_array(request.token_ids@)
            } else if key == "sampling_params"@ {
                fields.contains_key(key) && fields[key] == json::json_of(request.sampling_params)
            } else if key == "stream"@ {
                fields.contains_key(key) && fields[key] == Json::Bool(request.stream)
            } else if key == "request_id"@ && request.request_id is Some {
                fields.contains_key(key) && fields[key] == Json::Text(request.request_id->0@)
            } else if key == "model"@ && request.model is Some {
                fields.contains_key(key) && fields[key] == Json::Text(request.model->0@)
            } else {
                !fields.contains_key(key)
            }
        },
{
    lemma_request_keys_differ();
}

/// What a request says is what it holds.
pub proof fn request_says_what_it_holds(request: GenerateRequest)
    ensures
        request@.request_id is Some <==> request.request_id is Some,
        request.request_id is Some ==> request@.request_id->0 == request.request_id->0@,
        request@.token_ids == request.token_ids@,
        request@.sampling_params == json::json_of(request.sampling_params),
        request@.model is Some <==> request.model is Some,
        request.model is Some ==> request@.model->0 == request.model->0@,
        request@.stream == request.stream,
        request@.vllm_passthrough == json::fields_of(request.vllm_passthrough),
{
}

/// A choice is read off a document field by field: its index is a number up to the largest
/// token, its tokens are tokens, its reason is a text, and its log-probabilities are any
/// value; all but the index may be null or absent.
pub proof fn choice_is_read_field_by_field(fields: Map<Seq<char>, Json>, choice: ChoiceView)
    ensures
        choice_in(Json::Object(fields)) == Some(choice) ==> {
            &&& fields.contains_key("index"@)
            &&& fields["index"@] == Json::Unsigned(choice.index as u64)
            &&& choice.token_ids is None <==> !fields.contains_key("token_ids"@)
                || fields["token_ids"@] == Json::Null
            &&& choice.token_ids is Some ==> fields["token_ids"@] == wire::token_array(
                choice.token_ids->0,
            )
            &&& choice.logprobs is None <==> !fields.contains_key("logprobs"@)
                || fields["logprobs"@] == Json::Null
            &&& choice.logprobs is Some ==> fields["logprobs"@] == choice.logprobs->0
            &&& choice.finish_reason is None <==> !fields.contains_key("finish_reason"@)
                || fields["finish_reason"@] == Json::Null
            &&& choice.finish_reason is Some ==> fields["finish_reason"@] == Json::Text(
                choice.finish_reason->0,
            )
        },
        choice_in(Json::Object(fields)) is Some <==> {
            &&& fields.contains_key("index"@)
            &&& fields["index"@] is Unsigned
            &&& fields["index"@]->Unsigned_0 <= u32::MAX
            &&& fields.contains_key("token_ids"@) && fields["token_ids"@] != Json::Null
                ==> wire::tokens_in(fields["token_ids"@]) is Some
            &&& fields.contains_key("finish_reason"@) ==> fields["finish_reason"@] is Text
                || fields["finish_reason"@] is Null
        },
{
    if fields.contains_key("token_ids"@) && wire::tokens_in(fields["token_ids"@]) is Some {
        wire::lemma_tokens_round_trip(fields["token_ids"@]);
    }
}

/// A choice may also be written as an array of its four fields in the order index, tokens,
/// log-probabilities, reason; an array of any other length is none, nor is anything that
/// is neither array nor object.
pub proof fn choice_is_read_by_position(
    index: Json,
    tokens: Json,
    logprobs: Json,
    reason: Json,
    items: Seq<Json>,
    value: Json,
)
    ensures
        choice_in(Json::Array(seq![index, tokens, logprobs, reason])) == choice_in(
            Json::Object(
                map![
                    "index"@ => index,
                    "token_ids"@ => tokens,
                    "logprobs"@ => logprobs,
                    "finish_reason"@ => reason,
                ],
            ),
        ),
        items.len() != 4 ==> choice_in(Json::Array(items)) is None,
        !(value is Array) && !(value is Object) ==> choice_in(value) is None,
{
    lemma_response_keys_differ();
    let listed = seq![index, tokens, logprobs, reason];
    let names = choice_names();
    assert(names.no_duplicates());
    wire::records_are_read_by_position(listed, names, 4, Map::empty(), "index"@);
    let read = wire::record_fields(Json::Array(listed), names, 4)->0;
    let fields = map![
        "index"@ => index,
        "token_ids"@ => tokens,
        "logprobs"@ => logprobs,
        "finish_reason"@ => reason,
    ];
    assert(read[names[0]] == listed[0] && read[names[1]] == listed[1] && read[names[2]]
        == listed[2] && read[names[3]] == listed[3]);
    assert forall|key: Seq<char>| read.contains_key(key) == fields.contains_key(key) by {
        wire::records_are_read_by_position(listed, names, 4, Map::empty(), key);
        assert(names.take(4) =~= names);
        if names.contains(key) {
            let i = choose|i: int| 0 <= i < names.len() && names[i] == key;
            assert(i == 0 || i == 1 || i == 2 || i == 3);
        }
        assert(names[0] == "index"@ && names[1] == "token_ids"@ && names[2] == "logprobs"@
            && names[3] == "finish_reason"@);
    }
    assert(read =~= fields);
}

/// The choices are read off an array, one for each item and in its order, and only where
/// every item is one.
pub proof fn choices_are_read_item_by_item(value: Json)
    ensures
        choices_in(value) matches Some(choices) ==> value is Array && choices.len()
            == value->Array_0.len() && forall|i: int|
            0 <= i < choices.len() ==> choice_in(value->Array_0[i]) == Some(#[trigger] choices[i]),
        choices_in(value) is None ==> !(value is Array) || exists|i: int|
            0 <= i < value->Array_0.len() && choice_in(#[trigger] value->Array_0[i]) is None,
{
}

/// An accepted response has each field as the document has it; its id and its choices are
/// required, and the rest may be null or absent.
pub proof fn response_is_read_field_by_field(
    value: Value,
    r: Result<GenerateResponse, ProtocolError>,
    fields: Map<Seq<char>, Json>,
)
    requires
        call_ensures(GenerateResponse::from_value, (&value,), r),
        json::json_of(value) == Json::Object(fields),
    ensures
        r matches Ok(response) ==> {
            &&& fields.contains_key("request_id"@)
            &&& fields["request_id"@] == Json::Text(response.request_id@)
            &&& fields.contains_key("choices"@)
            &&& choices_in(fields["choices"@]) == Some(choice_views(response.choices@))
            &&& response.prompt_logprobs is None <==> !fields.contains_key("prompt_logprobs"@)
                || fields["prompt_logprobs"@] == Json::Null
            &&& response.prompt_logprobs is Some ==> fields["prompt_logprobs"@] == json::json_of(
                response.prompt_logprobs->0,
            )
            &&& response.kv_transfer_params is None <==> !fields.contains_key("kv_transfer_params"@)
                || fields["kv_transfer_params"@] == Json::Null
            &&& response.kv_transfer_params is Some ==> fields["kv_transfer_params"@]
                == json::json_of(response.kv_transfer_params->0)
        },
        if fields.contains_key("choices"@) && choices_in(fields["choices"@]) is None {
            r is Err && r->Err_0@ == ProtocolFault::Invalid("choices"@)
        } else if !fields.contains_key("request_id"@) {
            r is Err && r->Err_0@ == ProtocolFault::Missing("request_id"@)
        } else if !(fields["request_id"@] is Text) {
            r is Err && r->Err_0@ == ProtocolFault::Invalid("request_id"@)
        } else if !fields.contains_key("choices"@) {
            r is Err && r->Err_0@ == ProtocolFault::Missing("choices"@)
        } else {
            r is Ok
        },
{
    if r is Ok {
        let response = r->Ok_0;
        assert(response@.prompt_logprobs == wire::optional_field(fields, "prompt_logprobs"@));
        assert(response@.kv_transfer_params == wire::optional_field(fields, "kv_transfer_params"@));
    }
}

/// A response may also be written as an array of its four fields in the order id, choices,
/// prompt log-probabilities, transfer parameters: both forms read the same. Anything but
/// such an array or an object is no record.
pub proof fn response_is_read_by_position(
    listed: Value,
    named: Value,
    a: Result<GenerateResponse, ProtocolError>,
    b: Result<GenerateResponse, ProtocolError>,
    items: Seq<Json>,
)
    requires
        call_ensures(GenerateResponse::from_value, (&listed,), a),
        call_ensures(GenerateResponse::from_value, (&named,), b),
        json::json_of(listed) == Json::Array(items),
        json::json_of(named) == Json::Object(
            map![
                "request_id"@ => items[0],
                "choices"@ => items[1],
                "prompt_logprobs"@ => items[2],
                "kv_transfer_params"@ => items[3],
            ],
        ),
    ensures
        items.len() == 4 ==> (a is Ok <==> b is Ok),
        items.len() == 4 && a is Ok ==> a->Ok_0@ == b->Ok_0@,
        items.len() == 4 && a is Err ==> a->Err_0@ == b->Err_0@,
        items.len() != 4 ==> a is Err && a->Err_0@ == ProtocolFault::NotARecord,
{
    if items.len() == 4 {
        lemma_response_keys_differ();
        let names = response_names();
        assert(names.no_duplicates());
        wire::records_are_read_by_position(items, names, 4, Map::empty(), "index"@);
        let read = wire::record_fields(Json::Array(items), names, 4)->0;
        let fields = map![
            "request_id"@ => items[0],
            "choices"@ => items[1],
            "prompt_logprobs"@ => items[2],
            "kv_transfer_params"@ => items[3],
        ];
        assert(read[names[0]] == items[0] && read[names[1]] == items[1] && read[names[2]]
            == items[2] && read[names[3]] == items[3]);
        assert forall|key: Seq<char>| read.contains_key(key) == fields.contains_key(key) by {
            wire::records_are_read_by_position(items, names, 4, Map::empty(), key);
            assert(names.take(4) =~= names);
            if names.contains(key) {
                let i = choose|i: int| 0 <= i < names.len() && names[i] == key;
                assert(i == 0 || i == 1 || i == 2 || i == 3);
            }
            assert(names[0] == "request_id"@ && names[1] == "choices"@ && names[2]
                == "prompt_logprobs"@ && names[3] == "kv_transfer_params"@);
        }
        assert(read =~= fields);
    }
}

/// A response is written with its id and its choices, and with its other values where it
/// has them; nothing else is written.
pub proof fn response_is_written_field_by_field(
    response: GenerateResponse,
    written: Value,
    key: Seq<char>,
)
    requires
        call_ensures(GenerateResponse::to_value, (&response,), written),
    ensures
        json::json_of(written) matches Json::Object(fields) && {
            if key == "request_id"@ {
                fields.contains_key(key) && fields[key] == Json::Text(response.request_id@)
            } else if key == "choices"@ {
                &&& fields.contains_key(key)
                &&& fields[key] matches Json::Array(items)
                &&& items.len() == response.choices@.len()
                &&& forall|i: int|
                    0 <= i < items.len() ==> #[trigger] items[i] == Json::Object(
                        response.choices@[i]@.fields(),
                    )
            } else if key == "prompt_logprobs"@ && response.prompt_logprobs is Some {
                fields.contains_key(key) && fields[key] == json::json_of(
                    response.prompt_logprobs->0,
                )
            } else if key == "kv_transfer_params"@ && response.kv_transfer_params is Some {
                fields.contains_key(key) && fields[key] == json::json_of(
                    response.kv_transfer_params->0,
                )
            } else {
                !fields.contains_key(key)
            }
        },
{
    lemma_response_keys_differ();
}

/// A choice is written with its index and its reason, which is null where there is none,
/// and with its tokens and log-probabilities where it has them; nothing else is written.
pub proof fn choice_is_written_field_by_field(choice: GenerateResponseChoice, key: Seq<char>)
    ensures
        ({
            let fields = choice@.fields();
            if key == "index"@ {
                fields.contains_key(key) && fields[key] == Json::Unsigned(choice.index as u64)
            } else if key == "finish_reason"@ {
                &&& fields.contains_key(key)
                &&& choice.finish_reason is Some ==> fields[key] == Json::Text(
                    choice.finish_reason->0@,
                )
                &&& choice.finish_reason is None ==> fields[key] == Json::Null
            } else if key == "token_ids"@ && choice.token_ids is Some {
                fields.contains_key(key) && fields[key] == wire::token_array(choice.token_ids->0@)
            } else if key == "logprobs"@ && choice.logprobs is Some {
                fields.contains_key(key) && fields[key] == json::json_of(choice.logprobs->0)
            } else {
                !fields.contains_key(key)
            }
        }),
{
    lemma_response_keys_differ();
}

/// What a response and its choices say is what they hold.
pub proof fn response_says_what_it_holds(
    response: GenerateResponse,
    choice: GenerateResponseChoice,
)
    ensures
        response@.request_id == response.request_id@,
        response@.choices.len() == response.choices@.len(),
        forall|i: int|
            0 <= i < response.choices@.len() ==> #[trigger] response@.choices[i]
                == response.choices@[i]@,
        response@.prompt_logprobs is Some <==> response.prompt_logprobs is Some,
        response.prompt_logprobs is Some ==> response@.prompt_logprobs->0 == json::json_of(
            response.prompt_logprobs->0,
        ),
        response@.kv_transfer_params is Some <==> response.kv_transfer_params is Some,
        response.kv_transfer_params is Some ==> response@.kv_transfer_params->0 == json::json_of(
            response.kv_transfer_params->0,
        ),
        choice@.index == choice.index,
        choice@.token_ids is Some <==> choice.token_ids is Some,
        choice.token_ids is Some ==> choice@.token_ids->0 == choice.token_ids->0@,
        choice@.logprobs is Some <==> choice.logprobs is Some,
        choice.logprobs is Some ==> choice@.logprobs->0 == json::json_of(choice.logprobs->0),
        choice@.finish_reason is Some <==> choice.finish_reason is Some,
        choice.finish_reason is Some ==> choice@.finish_reason->0 == choice.finish_reason->0@,
{
}

/// Five fields are typed, and no other.
pub proof fn five_fields_are_typed(key: Seq<char>)
    ensures
        typed(key) <==> key == "request_id"@ || key == "token_ids"@ || key == "sampling_params"@
            || key == "model"@ || key == "stream"@,
{
}

} // verus!
