use dynamo_serving::python_payload::{
    after_encode, after_parse, begin, decode_failure, encode_offload_failure,
    encode_python_response, from_data, is_envelope, item_is_envelope, Annotated, DecodeFailure,
    EncodedFrame, EnvelopeParts, Frame, FrameStep, Yielded,
};
use serde_json::Value;

fn err(s: &str) -> Option<String> {
    Some(s.to_string())
}

fn sent(step: FrameStep) -> (bool, bool) {
    match step {
        FrameStep::Send { is_error, stop_stream } => (is_error, stop_stream),
        other => panic!("unexpected {other:?}"),
    }
}

fn failed(step: FrameStep) -> String {
    match step {
        FrameStep::Fail { message } => message,
        other => panic!("unexpected {other:?}"),
    }
}

#[test]
fn final_frame_is_plain() {
    let step = begin(true, Yielded::Nothing);
    assert!(matches!(step, FrameStep::EncodeFinal));
    assert_eq!(sent(after_encode(&step, "json", None, true)), (false, false));
    assert_eq!(
        failed(after_encode(&step, "json", err("boom"), false)),
        "Failed serializing json request-plane final response: boom"
    );
}

#[test]
fn missing_item_is_refused() {
    assert_eq!(
        failed(begin(false, Yielded::Nothing)),
        "request-plane response item missing before final frame"
    );
}

#[test]
fn readable_value_does_not_end_the_stream() {
    assert!(matches!(begin(false, Yielded::Value), FrameStep::Parse));
    let step = after_parse(None);
    assert!(matches!(step, FrameStep::EncodeItem));
    assert_eq!(sent(after_encode(&step, "json", None, false)), (false, false));
    assert_eq!(sent(after_encode(&step, "json", None, true)), (true, false));
}

#[test]
fn unreadable_value_ends_the_stream() {
    let step = after_parse(err("no"));
    match &step {
        FrameStep::EncodeMessage { message } => assert_eq!(
            message,
            "critical error: invalid response object from Python async generator; \
             application-logic-mismatch: no"
        ),
        other => panic!("unexpected {other:?}"),
    }
    assert_eq!(sent(after_encode(&step, "json", None, true)), (true, true));
}

#[test]
fn exception_ends_the_stream() {
    let step = begin(false, Yielded::Exception);
    assert!(matches!(step, FrameStep::EncodeException));
    assert_eq!(sent(after_encode(&step, "msgpack", None, true)), (true, true));
}

#[test]
fn unencodable_item_falls_back() {
    let step = after_encode(&FrameStep::EncodeItem, "msgpack", err("bad"), false);
    match &step {
        FrameStep::EncodeFallback { message } => assert_eq!(
            message,
            "critical error: failed serializing Python response as msgpack: bad"
        ),
        other => panic!("unexpected {other:?}"),
    }
    assert_eq!(sent(after_encode(&step, "msgpack", None, false)), (true, true));
    assert_eq!(
        failed(after_encode(&step, "msgpack", err("worse"), false)),
        "failed to serialize Python response and fallback error as msgpack: worse"
    );
}

#[test]
fn decode_failures_are_worded() {
    assert_eq!(
        decode_failure(DecodeFailure::Offload, "json", "e"),
        "failed to offload json Python request decode: e"
    );
    assert_eq!(
        decode_failure(DecodeFailure::Payload, "json", "e"),
        "Failed deserializing json Python request payload: e"
    );
    assert_eq!(
        encode_offload_failure("json", "e"),
        "failed to offload json Python response encode: e"
    );
}

#[test]
fn envelopes_are_marked() {
    assert_eq!(is_envelope(Ok(Some(true))), Ok(true));
    assert_eq!(is_envelope(Ok(Some(false))), Ok(false));
    assert_eq!(is_envelope(Ok(None)), Ok(false));
    assert_eq!(is_envelope(Err("e".to_string())), Err("e".to_string()));
    let plain: Annotated<u8, ()> = from_data(3);
    assert_eq!(plain.data, Some(3));
    assert!(plain.id.is_none() && plain.event.is_none() && plain.comment.is_none());
}

fn parts() -> EnvelopeParts<u8, u16> {
    EnvelopeParts {
        data: Ok(Some(1)),
        id: Ok(Some("chunk-7".to_string())),
        event: Ok(Some("delta".to_string())),
        comment: Ok(Some(vec!["first".to_string(), "second".to_string()])),
        error: Ok(None),
    }
}

#[test]
fn envelopes_keep_their_metadata() {
    let item = parts().assemble().unwrap();
    assert_eq!(item.data, Some(1));
    assert_eq!(item.id.as_deref(), Some("chunk-7"));
    assert_eq!(item.event.as_deref(), Some("delta"));
    assert_eq!(item.comment, Some(vec!["first".to_string(), "second".to_string()]));
    assert_eq!(item.error, None);
}

#[test]
fn first_unreadable_part_decides() {
    let mut p = parts();
    p.error = Err("error".to_string());
    p.event = Err("event".to_string());
    assert_eq!(p.assemble().unwrap_err(), "event");
    let mut p = parts();
    p.data = Err("data".to_string());
    p.id = Err("id".to_string());
    assert_eq!(p.assemble().unwrap_err(), "data");
    let mut p = parts();
    p.comment = Err("comment".to_string());
    assert_eq!(p.assemble().unwrap_err(), "comment");
    let mut p = parts();
    p.id = Err("id".to_string());
    assert_eq!(p.assemble().unwrap_err(), "id");
    let mut p = parts();
    p.error = Err("error".to_string());
    assert_eq!(p.assemble().unwrap_err(), "error");
}

#[test]
fn only_dictionaries_can_be_envelopes() {
    assert_eq!(item_is_envelope(false, Ok(Some(true))), Ok(false));
    assert_eq!(item_is_envelope(false, Err("e".to_string())), Ok(false));
    assert_eq!(item_is_envelope(true, Ok(Some(true))), Ok(true));
    assert_eq!(item_is_envelope(true, Ok(None)), Ok(false));
    assert_eq!(item_is_envelope(true, Err("e".to_string())), Err("e".to_string()));
}

type Item = Annotated<Value, String>;

fn error_item(message: String) -> Item {
    let mut item: Item = from_data(Value::Null);
    item.data = None;
    item.event = Some("error".to_string());
    item.error = Some(message);
    item
}

/// Writes a frame as a JSON array; a text `unwritable` cannot be written.
fn write(frame: &Frame<Value, String>) -> Result<Vec<u8>, String> {
    let item = match &frame.data {
        Some(item) if item.data == Some(Value::from("unwritable")) => {
            return Err("cannot write".to_string())
        }
        Some(item) => Value::from(vec![
            item.data.clone().map_or(Value::Null, |data| Value::from(vec![data])),
            item.id.clone().map_or(Value::Null, Value::from),
            item.event.clone().map_or(Value::Null, Value::from),
            item.comment.clone().map_or(Value::Null, Value::from),
            item.error.clone().map_or(Value::Null, Value::from),
        ]),
        None => Value::Null,
    };
    Ok(Value::from(vec![item, Value::from(frame.complete_final)])
        .to_string()
        .into_bytes())
}

fn read_back(bytes: &[u8]) -> Value {
    serde_json::from_slice(bytes).unwrap()
}

/// Reads a value as data, a number as nothing, and a text `tagged` with metadata.
fn parse(value: Value) -> Result<Item, String> {
    if value.is_number() {
        return Err("a number".to_string());
    }
    let tagged = value == Value::from("tagged");
    let mut item: Item = from_data(value);
    if tagged {
        item.id = Some("chunk-7".to_string());
        item.comment = Some(vec!["first".to_string(), "second".to_string()]);
    }
    Ok(item)
}

fn encode(
    response: Option<Result<Value, String>>,
    complete_final: bool,
) -> Result<EncodedFrame, String> {
    encode_python_response(
        "json",
        response,
        complete_final,
        &parse,
        &error_item,
        &error_item,
        &|item: &Item| item.error.is_some(),
        &write,
    )
}

#[test]
fn plain_response_comes_back_unchanged() {
    let value: Value = serde_json::from_str(r#"{"a": [true, null], "b": "\u4e2d"}"#).unwrap();
    let frame = encode(Some(Ok(value.clone())), false).unwrap();
    assert!(!frame.is_error);
    assert!(!frame.stop_stream);
    let back = read_back(&frame.bytes);
    assert_eq!(back[1], false);
    assert_eq!(back[0][0][0], value);
    assert!(back[0][1].is_null() && back[0][2].is_null() && back[0][4].is_null());
}

#[test]
fn tagged_response_keeps_its_metadata() {
    let frame = encode(Some(Ok(Value::from("tagged"))), false).unwrap();
    let back = read_back(&frame.bytes);
    assert_eq!(back[0][0][0], "tagged");
    assert_eq!(back[0][1], "chunk-7");
    assert_eq!(back[0][3][1], "second");
    assert!(!frame.stop_stream);
}

#[test]
fn failed_responses_are_terminal_errors() {
    let raised = encode(Some(Err("bad request".to_string())), false).unwrap();
    assert!(raised.is_error && raised.stop_stream);
    assert_eq!(read_back(&raised.bytes)[0][4], "bad request");

    let unread = encode(Some(Ok(Value::from(3))), false).unwrap();
    assert!(unread.is_error && unread.stop_stream);
    assert_eq!(
        read_back(&unread.bytes)[0][4],
        "critical error: invalid response object from Python async generator; \
         application-logic-mismatch: a number"
    );

    let unwritable = encode(Some(Ok(Value::from("unwritable"))), false).unwrap();
    assert!(unwritable.is_error && unwritable.stop_stream);
    assert_eq!(
        read_back(&unwritable.bytes)[0][4],
        "critical error: failed serializing Python response as json: cannot write"
    );
}

#[test]
fn final_frame_comes_back_empty() {
    for response in [None, Some(Ok(Value::Null)), Some(Err("late".to_string()))] {
        let frame = encode(response, true).unwrap();
        assert!(!frame.is_error && !frame.stop_stream);
        let back = read_back(&frame.bytes);
        assert!(back[0].is_null());
        assert_eq!(back[1], true);
    }
}

#[test]
fn encoding_gives_up_when_nothing_is_left() {
    assert_eq!(
        encode(None, false).unwrap_err(),
        "request-plane response item missing before final frame"
    );
    let broken = |complete_final: bool| {
        encode_python_response(
            "msgpack",
            Some(Ok::<Value, String>(Value::Null)),
            complete_final,
            &parse,
            &error_item,
            &error_item,
            &|item: &Item| item.error.is_some(),
            &|_: &Frame<Value, String>| Err("broken".to_string()),
        )
        .unwrap_err()
    };
    assert_eq!(
        broken(false),
        "failed to serialize Python response and fallback error as msgpack: broken"
    );
    assert_eq!(
        broken(true),
        "Failed serializing msgpack request-plane final response: broken"
    );
}
