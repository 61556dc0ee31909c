use dynamo_serving::generate::{GenerateRequest, GenerateResponse, GenerateResponseChoice};
use dynamo_serving::generate_service::{
    begin, choose_model, dispatch_error, effective_request_id, generate_error_response,
    generate_path, is_rejection, preprocessed_from_generate, with_engine, DispatchOutcome,
    EngineLookup, GenerateStep, PreprocessError, DEFAULT_MAX_TOKENS,
};
use dynamo_serving::wire::ProtocolError;
use serde_json::Value;

fn json(s: &str) -> Value {
    serde_json::from_str(s).unwrap()
}

fn request(s: &str) -> GenerateRequest {
    GenerateRequest::from_value(&json(s)).expect("deserialize")
}

#[test]
fn generate_request_deserializes_from_vllm_json() {
    let raw = json(
        r#"{
        "request_id": "req-123",
        "token_ids": [1, 2, 3, 4],
        "sampling_params": {"temperature": 0.7, "max_tokens": 16},
        "model": "test-model",
        "stream": false,
        "cache_salt": "salt",
        "priority": 0,
        "kv_transfer_params": null
    }"#,
    );
    let req: GenerateRequest = GenerateRequest::from_value(&raw).expect("deserialize");
    assert_eq!(req.request_id.as_deref(), Some("req-123"));
    assert_eq!(req.token_ids, vec![1, 2, 3, 4]);
    assert!(!req.stream);
    assert_eq!(req.model.as_deref(), Some("test-model"));
}

#[test]
fn generate_request_captures_unknown_fields() {
    // Untyped + future fields are CAPTURED in `vllm_passthrough` (forwarded
    // verbatim), not dropped, so a field a newer vLLM adds flows through.
    let raw = json(
        r#"{
        "token_ids": [5, 6],
        "sampling_params": {},
        "priority": 7,
        "future_field": "kept"
    }"#,
    );
    let req: GenerateRequest = GenerateRequest::from_value(&raw).expect("deserialize");
    assert_eq!(req.token_ids, vec![5, 6]);
    assert!(!req.stream);
    assert_eq!(req.request_id, None);
    // Not typed on the struct: captured in `vllm_passthrough`.
    assert_eq!(req.vllm_passthrough.get("priority"), Some(&json("7")));
    assert_eq!(
        req.vllm_passthrough.get("future_field"),
        Some(&json("\"kept\""))
    );
    // Round-trip: flattened fields serialize back at the top level.
    let back = req.to_value();
    assert_eq!(back.get("priority"), Some(&json("7")));
    assert_eq!(back.get("future_field"), Some(&json("\"kept\"")));
}

#[test]
fn generate_response_round_trips_without_usage_key() {
    let resp = GenerateResponse {
        request_id: "req-123".to_string(),
        choices: vec![GenerateResponseChoice {
            index: 0,
            token_ids: Some(vec![10, 11, 12]),
            logprobs: None,
            finish_reason: Some("stop".to_string()),
        }],
        prompt_logprobs: None,
        kv_transfer_params: None,
    };

    let value = resp.to_value();
    assert!(
        value.get("usage").is_none(),
        "GenerateResponse must not emit a `usage` key"
    );
    assert!(value.get("prompt_logprobs").is_none());
    assert!(value.get("kv_transfer_params").is_none());

    let round: GenerateResponse =
        GenerateResponse::from_value(&value).expect("round-trip deserialize");
    assert_eq!(round.request_id, "req-123");
    assert_eq!(round.choices.len(), 1);
    assert_eq!(round.choices[0].token_ids, Some(vec![10, 11, 12]));
    assert_eq!(round.choices[0].finish_reason.as_deref(), Some("stop"));
}

#[test]
fn complete_request_envelope_reaches_preprocessed_request_unchanged() {
    let raw = json(
        r#"{
        "request_id": "req-forward",
        "token_ids": [1, 2],
        "sampling_params": {
            "max_tokens": 8,
            "future_sampling_field": {"nested": true}
        },
        "model": "test-model",
        "stream": false,
        "stream_options": {"include_usage": true},
        "features": {"future_feature": [1, 2, 3]},
        "priority": 7,
        "kv_transfer_params": {"remote": "worker-a"},
        "future_top_level_field": {"anything": "works"}
    }"#,
    );
    let request: GenerateRequest =
        GenerateRequest::from_value(&raw).expect("deserialize request");

    let preprocessed =
        preprocessed_from_generate(&request, "test-model").expect("build request");
    let envelope = preprocessed
        .extra_args
        .as_ref()
        .and_then(|extra| extra.get("vllm_tito"))
        .expect("vllm_tito envelope");

    assert_eq!(envelope, &raw);
}

#[test]
fn defaults_are_spelled_out_on_the_wire() {
    let req = request(
        r#"{"token_ids": [4294967295], "sampling_params": null, "model": null, "request_id": null,
            "x": null}"#,
    );
    assert_eq!(
        req.to_value(),
        json(r#"{"token_ids": [4294967295], "sampling_params": null, "stream": false, "x": null}"#)
    );
}

#[test]
fn passthrough_wins_over_typed_fields() {
    let mut req = request(r#"{"token_ids": [], "sampling_params": 1, "model": "a"}"#);
    req.vllm_passthrough.insert("model".to_string(), json("\"b\""));
    req.vllm_passthrough.insert("stream".to_string(), json("5"));
    assert_eq!(
        req.to_value(),
        json(r#"{"token_ids": [], "sampling_params": 1, "model": "b", "stream": 5}"#)
    );
}

#[test]
fn requests_are_refused_for_a_reason() {
    let err = |s: &str| GenerateRequest::from_value(&json(s)).unwrap_err();
    assert_eq!(err("[]"), ProtocolError::NotARecord);
    assert_eq!(err("{}"), ProtocolError::Missing { field: "token_ids" });
    assert_eq!(
        err(r#"{"token_ids": []}"#),
        ProtocolError::Missing { field: "sampling_params" }
    );
    for tokens in ["[1.0]", "[-1]", "[4294967296]", "[\"1\"]", "null", "7"] {
        let doc = format!(r#"{{"token_ids": {tokens}, "sampling_params": {{}}}}"#);
        assert_eq!(err(&doc), ProtocolError::Invalid { field: "token_ids" }, "{tokens}");
    }
    assert_eq!(
        err(r#"{"token_ids": [], "sampling_params": {}, "stream": null}"#),
        ProtocolError::Invalid { field: "stream" }
    );
    assert_eq!(
        err(r#"{"token_ids": [], "sampling_params": {}, "model": 3}"#),
        ProtocolError::Invalid { field: "model" }
    );
    assert_eq!(
        err(r#"{"token_ids": [], "sampling_params": {}, "request_id": {}}"#),
        ProtocolError::Invalid { field: "request_id" }
    );
}

#[test]
fn responses_are_written_exactly() {
    let resp = GenerateResponse {
        request_id: "r".to_string(),
        choices: vec![GenerateResponseChoice {
            index: 3,
            token_ids: None,
            logprobs: Some(json("[0.5]")),
            finish_reason: None,
        }],
        prompt_logprobs: Some(json("{}")),
        kv_transfer_params: Some(json("1")),
    };
    let value = json(
        r#"{"request_id": "r",
            "choices": [{"index": 3, "logprobs": [0.5], "finish_reason": null}],
            "prompt_logprobs": {}, "kv_transfer_params": 1}"#,
    );
    assert_eq!(resp.to_value(), value);
    assert_eq!(GenerateResponse::from_value(&value).unwrap().to_value(), value);
}

#[test]
fn responses_are_refused_for_a_reason() {
    let err = |s: &str| GenerateResponse::from_value(&json(s)).unwrap_err();
    assert_eq!(err("1"), ProtocolError::NotARecord);
    assert_eq!(err(r#"["r", [], null]"#), ProtocolError::NotARecord);
    assert_eq!(err("{}"), ProtocolError::Missing { field: "request_id" });
    assert_eq!(err(r#"{"request_id": "r"}"#), ProtocolError::Missing { field: "choices" });
    assert_eq!(
        err(r#"{"request_id": 1, "choices": []}"#),
        ProtocolError::Invalid { field: "request_id" }
    );
    for choice in ["{}", r#"{"index": -1}"#, r#"{"index": 0, "token_ids": [true]}"#, "3",
        r#"{"index": 0, "finish_reason": 4}"#]
    {
        let doc = format!(r#"{{"request_id": "r", "choices": [{choice}]}}"#);
        assert_eq!(err(&doc), ProtocolError::Invalid { field: "choices" }, "{choice}");
    }
    let listed = GenerateResponse::from_value(&json(r#"["r", [[2, [1], null, "stop"]], null, 5]"#))
        .unwrap();
    assert_eq!(listed.choices[0].index, 2);
    assert_eq!(listed.choices[0].finish_reason.as_deref(), Some("stop"));
    assert_eq!(listed.prompt_logprobs, None);
    assert_eq!(listed.kv_transfer_params, Some(json("5")));
}

#[test]
fn routing_controls_are_projected() {
    let req = request(
        r#"{"token_ids": [9], "sampling_params":
            {"max_tokens": 4294967295, "min_tokens": 3, "ignore_eos": true}}"#,
    );
    let p = preprocessed_from_generate(&req, "m").unwrap();
    assert_eq!(p.model, "m");
    assert_eq!(p.token_ids, vec![9]);
    assert_eq!(p.stop_conditions.max_tokens, Some(4294967295));
    assert_eq!(p.stop_conditions.min_tokens, Some(3));
    assert_eq!(p.stop_conditions.ignore_eos, Some(true));
    assert_eq!(p.sampling_options.n, Some(1));
    assert_eq!(p.routing.unwrap().expected_output_tokens, Some(4294967295));
}

#[test]
fn routing_controls_have_defaults() {
    for sampling in ["{}", "null", "[1]", r#"{"max_tokens": -4, "min_tokens": 1.5, "ignore_eos": 1}"#] {
        let doc = format!(r#"{{"token_ids": [], "sampling_params": {sampling}}}"#);
        let p = preprocessed_from_generate(&request(&doc), "m").unwrap();
        assert_eq!(p.stop_conditions.max_tokens, Some(16));
        assert_eq!(p.stop_conditions.min_tokens, Some(0));
        assert_eq!(p.stop_conditions.ignore_eos, Some(false));
    }
    assert_eq!(DEFAULT_MAX_TOKENS, 16);
}

#[test]
fn token_limits_must_fit() {
    let doc = |max: u64, min: u64| {
        request(&format!(
            r#"{{"token_ids": [], "sampling_params": {{"max_tokens": {max}, "min_tokens": {min}}}}}"#
        ))
    };
    assert_eq!(
        preprocessed_from_generate(&doc(4294967296, 4294967296), "m").unwrap_err(),
        PreprocessError::MaxTokensTooLarge
    );
    let e = preprocessed_from_generate(&doc(1, 4294967296), "m").unwrap_err();
    assert_eq!(e, PreprocessError::MinTokensTooLarge);
    assert_eq!(e.message(), "sampling_params.min_tokens exceeds u32");
    assert_eq!(
        PreprocessError::MaxTokensTooLarge.message(),
        "sampling_params.max_tokens exceeds u32"
    );
}

fn refusal(step: GenerateStep) -> (u16, String, String) {
    match step {
        GenerateStep::Reply { error } => {
            let body = error.body();
            assert_eq!(body["error"]["code"], error.status);
            assert_eq!(body["error"]["type"], error.error_type);
            assert_eq!(body["error"]["message"], error.message.as_str());
            (error.status, error.error_type.to_string(), error.message)
        }
        other => panic!("unexpected {other:?}"),
    }
}

#[test]
fn streaming_is_refused() {
    let req = request(r#"{"token_ids":[1,2,3],"sampling_params":{},"stream":true,"model":"m"}"#);
    assert_eq!(
        refusal(begin(&req)),
        (
            501,
            "not_implemented".to_string(),
            "streaming (stream=true) is not implemented for /inference/v1/generate yet".to_string()
        )
    );
}

#[test]
fn models_are_resolved() {
    let named = request(r#"{"token_ids":[1],"sampling_params":{},"model":"m"}"#);
    assert!(matches!(begin(&named), GenerateStep::FindEngine { model } if model == "m"));
    let unnamed = request(r#"{"token_ids":[1,2,3],"sampling_params":{}}"#);
    assert!(matches!(begin(&unnamed), GenerateStep::ListModels));
    assert!(matches!(
        choose_model(&vec!["only".to_string()]),
        GenerateStep::FindEngine { model } if model == "only"
    ));
    assert_eq!(
        refusal(choose_model(&vec![])),
        (
            404,
            "not_found".to_string(),
            "no generate-capable model is registered".to_string()
        )
    );
    assert_eq!(
        refusal(choose_model(&vec!["a".to_string(), "b".to_string()])),
        (
            400,
            "invalid_request_error".to_string(),
            "multiple models are registered; specify `model` in the request".to_string()
        )
    );
}

#[test]
fn engines_are_looked_up() {
    let req = request(r#"{"token_ids":[1],"sampling_params":{}}"#);
    assert!(matches!(
        with_engine(&req, "m", EngineLookup::Found),
        GenerateStep::Dispatch { request } if request.model == "m"
    ));
    assert_eq!(
        refusal(with_engine(&req, "m", EngineLookup::Unavailable { error: "e".to_string() })),
        (503, "service_unavailable".to_string(), "e".to_string())
    );
    assert_eq!(
        refusal(with_engine(&req, "m", EngineLookup::Missing { error: "e".to_string() })),
        (404, "not_found".to_string(), "e".to_string())
    );
    let huge = request(r#"{"token_ids":[1],"sampling_params":{"max_tokens":5000000000}}"#);
    assert_eq!(
        refusal(with_engine(&huge, "m", EngineLookup::Found)),
        (
            400,
            "invalid_request_error".to_string(),
            "sampling_params.max_tokens exceeds u32".to_string()
        )
    );
}

#[test]
fn dispatches_are_answered() {
    let answer = |outcome: DispatchOutcome| {
        dispatch_error(outcome, "id").map(|e| (e.status, e.error_type, e.message))
    };
    let failed = |rejected: bool| DispatchOutcome::EngineFailed {
        rejected,
        error: "why".to_string(),
    };
    assert_eq!(
        answer(failed(true)),
        Some((503, "service_unavailable", "engine rejected the request: why".to_string()))
    );
    assert_eq!(
        answer(failed(false)),
        Some((500, "internal_error", "failed to generate: why".to_string()))
    );
    assert!(is_rejection(&failed(true)));
    assert!(!is_rejection(&failed(false)));
    assert!(!is_rejection(&DispatchOutcome::FoldFailed));
    assert_eq!(
        answer(DispatchOutcome::Folded { killed: true, complete: true }),
        Some((499, "request_cancelled", "request was cancelled".to_string()))
    );
    assert_eq!(
        answer(DispatchOutcome::Folded { killed: false, complete: false }),
        Some((
            500,
            "internal_error",
            "generation produced no complete choice for id".to_string()
        ))
    );
    assert_eq!(
        answer(DispatchOutcome::FoldFailed),
        Some((
            500,
            "internal_error",
            "failed to fold generate stream for id".to_string()
        ))
    );
    assert_eq!(
        answer(DispatchOutcome::Panicked { error: "why".to_string() }),
        Some((500, "internal_error", "generate task panicked: why".to_string()))
    );
    assert_eq!(
        answer(DispatchOutcome::Folded { killed: false, complete: true }),
        None
    );
}

#[test]
fn error_bodies_are_nested() {
    let error = generate_error_response(404, "not_found", "gone".to_string());
    assert_eq!(
        error.body(),
        json(r#"{"error": {"message": "gone", "type": "not_found", "code": 404}}"#)
    );
}

#[test]
fn request_ids_and_paths_have_defaults() {
    let with_id = request(r#"{"token_ids":[],"sampling_params":{},"request_id":"mine"}"#);
    let without = request(r#"{"token_ids":[],"sampling_params":{}}"#);
    assert_eq!(effective_request_id(&with_id, "new".to_string()), "mine");
    assert_eq!(effective_request_id(&without, "new".to_string()), "new");
    assert_eq!(generate_path(None), "/inference/v1/generate");
    assert_eq!(generate_path(Some("/x".to_string())), "/x");
}
