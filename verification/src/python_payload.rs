//! Decisions of the ingress path between the request plane and Python engines.
//!
//! Python values are decoded and encoded outside; here it is decided which frame a
//! Python response becomes, what an annotated envelope holds, and how failures are
//! reported.

use vstd::prelude::*;
use vstd::string::*;

use crate::text;

verus! {

/// Several texts one behind the other.
fn joined(a: &str, b: &str, c: &str, d: &str) -> (r: String)
    ensures
        r@ == a@ + b@ + c@ + d@,
{
    let mut r = a.to_owned();
    r.append(b);
    r.append(c);
    r.append(d);
    r
}

// ---------------------------------------------------------------------------
// Requests
// ---------------------------------------------------------------------------

/// Where decoding a request failed.
#[derive(Debug, Clone, Copy, PartialEq, Eq, Structural)]
pub enum DecodeFailure {
    /// The blocking task did not finish.
    Offload,
    /// The payload could not be decoded.
    Payload,
}

/// What a failed request decode is reported as.
pub fn decode_failure(failure: DecodeFailure, codec: &str, error: &str) -> (r: String)
    ensures
        r@ == match failure {
            DecodeFailure::Offload => "failed to offload "@ + codec@ + " Python request decode: "@
                + error@,
            DecodeFailure::Payload => "Failed deserializing "@ + codec@
                + " Python request payload: "@ + error@,
        },
{
    match failure {
        DecodeFailure::Offload => joined(
            "failed to offload ",
            codec,
            " Python request decode: ",
            error,
        ),
        DecodeFailure::Payload => joined(
            "Failed deserializing ",
            codec,
            " Python request payload: ",
            error,
        ),
    }
}

/// What a response encode that did not finish is reported as.
pub fn encode_offload_failure(codec: &str, error: &str) -> (r: String)
    ensures
        r@ == "failed to offload "@ + codec@ + " Python response encode: "@ + error@,
{
    joined("failed to offload ", codec, " Python response encode: ", error)
}

// ---------------------------------------------------------------------------
// Envelopes
// ---------------------------------------------------------------------------

/// A response item with its metadata.
#[derive(Debug)]
pub struct Annotated<P, E> {
    pub data: Option<P>,
    pub id: Option<String>,
    pub event: Option<String>,
    pub comment: Option<Vec<String>>,
    pub error: Option<E>,
}

/// Whether a dictionary is an annotated envelope: its marker is there and true. The
/// marker is absent when it cannot be read as a truth value.
pub fn is_envelope(marker: Result<Option<bool>, String>) -> (r: Result<bool, String>)
    ensures
        r == match marker {
            Ok(Some(b)) => Ok::<bool, String>(b),
            Ok(None) => Ok::<bool, String>(false),
            Err(e) => Err::<bool, String>(e),
        },
{
    match marker {
        Ok(Some(b)) => Ok(b),
        Ok(None) => Ok(false),
        Err(e) => Err(e),
    }
}

/// Whether a value is an annotated envelope: a dictionary whose marker is there and
/// true. Any other value is data.
pub fn item_is_envelope(is_dict: bool, marker: Result<Option<bool>, String>) -> (r: Result<
    bool,
    String,
>)
    ensures
        r == (if !is_dict {
            Ok::<bool, String>(false)
        } else {
            match marker {
                Ok(Some(b)) => Ok::<bool, String>(b),
                Ok(None) => Ok::<bool, String>(false),
                Err(e) => Err::<bool, String>(e),
            }
        }),
{
    if is_dict {
        is_envelope(marker)
    } else {
        Ok(false)
    }
}

/// A response item that is data and nothing else.
pub open spec fn plain_item<P, E>(data: P) -> Annotated<P, E> {
    Annotated { data: Some(data), id: None, event: None, comment: None, error: None }
}

/// A response item that is data and nothing else.
pub fn from_data<P, E>(item: P) -> (r: Annotated<P, E>)
    ensures
        r == plain_item::<P, E>(item),
        r.data == Some(item),
        r.id is None,
        r.event is None,
        r.comment is None,
        r.error is None,
{
    Annotated { data: Some(item), id: None, event: None, comment: None, error: None }
}

/// The parts of an envelope, each as far as it could be read.
#[derive(Debug)]
pub struct EnvelopeParts<P, E> {
    pub data: Result<Option<P>, String>,
    pub id: Result<Option<String>, String>,
    pub event: Result<Option<String>, String>,
    pub comment: Result<Option<Vec<String>>, String>,
    pub error: Result<Option<E>, String>,
}

impl<P, E> EnvelopeParts<P, E> {
    /// The first part that could not be read, in order.
    pub open spec fn fault(self) -> Option<String> {
        if self.data is Err {
            Some(self.data->Err_0)
        } else if self.id is Err {
            Some(self.id->Err_0)
        } else if self.event is Err {
            Some(self.event->Err_0)
        } else if self.comment is Err {
            Some(self.comment->Err_0)
        } else if self.error is Err {
            Some(self.error->Err_0)
        } else {
            None
        }
    }

    /// The item that the parts make, where all could be read.
    pub open spec fn whole(self) -> Annotated<P, E> {
        Annotated {
            data: self.data->Ok_0,
            id: self.id->Ok_0,
            event: self.event->Ok_0,
            comment: self.comment->Ok_0,
            error: self.error->Ok_0,
        }
    }

    /// Put an envelope together; the first part that could not be read decides.
    pub fn assemble(self) -> (r: Result<Annotated<P, E>, String>)
        ensures
            match r {
                Ok(item) => self.fault() is None && item == self.whole(),
                Err(e) => self.fault() == Some(e),
            },
            r is Ok <==> self.data is Ok && self.id is Ok && self.event is Ok && self.comment is Ok
                && self.error is Ok,
            r matches Ok(item) ==> {
                &&& self.data == Ok::<Option<P>, String>(item.data)
                &&& self.id == Ok::<Option<String>, String>(item.id)
                &&& self.event == Ok::<Option<String>, String>(item.event)
                &&& self.comment == Ok::<Option<Vec<String>>, String>(item.comment)
                &&& self.error == Ok::<Option<E>, String>(item.error)
            },
    {
        let data = match self.data {
            Ok(data) => data,
            Err(e) => return Err(e),
        };
        let id = match self.id {
            Ok(id) => id,
            Err(e) => return Err(e),
        };
        let event = match self.event {
            Ok(event) => event,
            Err(e) => return Err(e),
        };
        let comment = match self.comment {
            Ok(comment) => comment,
            Err(e) => return Err(e),
        };
        let error = match self.error {
            Ok(error) => error,
            Err(e) => return Err(e),
        };
        Ok(Annotated { data, id, event, comment, error })
    }
}

// ---------------------------------------------------------------------------
// Frames
// ---------------------------------------------------------------------------

/// What a Python generator yielded.
#[derive(Debug, Clone, Copy, PartialEq, Eq, Structural)]
pub enum Yielded {
    /// Nothing.
    Nothing,
    /// A value.
    Value,
    /// An exception.
    Exception,
}

/// What encoding a response does next.
#[derive(Debug, Clone)]
pub enum FrameStep {
    /// Encode the final frame: no data, marked complete.
    EncodeFinal,
    /// Read the value as an annotated item.
    Parse,
    /// Encode the item that was read.
    EncodeItem,
    /// Encode the exception as an error item; the stream ends with it.
    EncodeException,
    /// Encode this message as an error item; the stream ends with it.
    EncodeMessage { message: String },
    /// The item could not be encoded: encode this message instead.
    EncodeFallback { message: String },
    /// Send the bytes.
    Send { is_error: bool, stop_stream: bool },
    /// Give up.
    Fail { message: String },
}

/// What a [`FrameStep`] says.
pub enum FrameStepView {
    EncodeFinal,
    Parse,
    EncodeItem,
    EncodeException,
    EncodeMessage(Seq<char>),
    EncodeFallback(Seq<char>),
    Send { is_error: bool, stop_stream: bool },
    Fail(Seq<char>),
}

impl View for FrameStep {
    type V = FrameStepView;

    open spec fn view(&self) -> FrameStepView {
        match self {
            FrameStep::EncodeFinal => FrameStepView::EncodeFinal,
            FrameStep::Parse => FrameStepView::Parse,
            FrameStep::EncodeItem => FrameStepView::EncodeItem,
            FrameStep::EncodeException => FrameStepView::EncodeException,
            FrameStep::EncodeMessage { message } => FrameStepView::EncodeMessage(message@),
            FrameStep::EncodeFallback { message } => FrameStepView::EncodeFallback(message@),
            FrameStep::Send { is_error, stop_stream } => FrameStepView::Send {
                is_error: *is_error,
                stop_stream: *stop_stream,
            },
            FrameStep::Fail { message } => FrameStepView::Fail(message@),
        }
    }
}

/// The first step for a response.
pub open spec fn first_step(complete_final: bool, yielded: Yielded) -> FrameStepView {
    if complete_final {
        FrameStepView::EncodeFinal
    } else {
        match yielded {
            Yielded::Nothing => FrameStepView::Fail(
                "request-plane response item missing before final frame"@,
            ),
            Yielded::Value => FrameStepView::Parse,
            Yielded::Exception => FrameStepView::EncodeException,
        }
    }
}

/// Begin encoding a response.
pub fn begin(complete_final: bool, yielded: Yielded) -> (r: FrameStep)
    ensures
        r@ == first_step(complete_final, yielded),
{
    if complete_final {
        return FrameStep::EncodeFinal;
    }
    match yielded {
        Yielded::Nothing => FrameStep::Fail {
            message: "request-plane response item missing before final frame".to_owned(),
        },
        Yielded::Value => FrameStep::Parse,
        Yielded::Exception => FrameStep::EncodeException,
    }
}

/// The step once a value was read, or could not be.
pub open spec fn step_after_parse(error: Option<Seq<char>>) -> FrameStepView {
    match error {
        None => FrameStepView::EncodeItem,
        Some(e) => FrameStepView::EncodeMessage(
            "critical error: invalid response object from Python async generator; application-logic-mismatch: "@
                + e,
        ),
    }
}

/// Go on once a value was read, or could not be.
pub fn after_parse(error: Option<String>) -> (r: FrameStep)
    ensures
        r@ == step_after_parse(text::optional_text(error)),
{
    match error {
        None => FrameStep::EncodeItem,
        Some(e) => {
            let mut message =
                "critical error: invalid response object from Python async generator; application-logic-mismatch: ".to_owned();
            message.append(e.as_str());
            FrameStep::EncodeMessage { message }
        },
    }
}

/// Whether a step ends the stream once its item is sent.
pub open spec fn ends_stream(step: FrameStepView) -> bool {
    step is EncodeException || step is EncodeMessage
}

/// The step once the bytes of a step were encoded, or could not be. `is_error` says
/// whether the encoded item is an error item.
pub open spec fn step_after_encode(
    step: FrameStepView,
    codec: Seq<char>,
    error: Option<Seq<char>>,
    is_error: bool,
) -> FrameStepView {
    match (step, error) {
        (FrameStepView::EncodeFinal, None) => FrameStepView::Send {
            is_error: false,
            stop_stream: false,
        },
        (FrameStepView::EncodeFinal, Some(e)) => FrameStepView::Fail(
            "Failed serializing "@ + codec + " request-plane final response: "@ + e,
        ),
        (FrameStepView::EncodeFallback(_), None) => FrameStepView::Send {
            is_error: true,
            stop_stream: true,
        },
        (FrameStepView::EncodeFallback(_), Some(e)) => FrameStepView::Fail(
            "failed to serialize Python response and fallback error as "@ + codec + ": "@ + e,
        ),
        (_, None) => FrameStepView::Send { is_error, stop_stream: ends_stream(step) },
        (_, Some(e)) => FrameStepView::EncodeFallback(
            "critical error: failed serializing Python response as "@ + codec + ": "@ + e,
        ),
    }
}

/// Go on once the bytes of a step were encoded, or could not be. `is_error` says
/// whether the encoded item is an error item.
pub fn after_encode(step: &FrameStep, codec: &str, error: Option<String>, is_error: bool) -> (r:
    FrameStep)
    ensures
        r@ == step_after_encode(step@, codec@, text::optional_text(error), is_error),
{
    match error {
        None => match step {
            FrameStep::EncodeFinal => FrameStep::Send { is_error: false, stop_stream: false },
            FrameStep::EncodeFallback { .. } => FrameStep::Send {
                is_error: true,
                stop_stream: true,
            },
            FrameStep::EncodeException => FrameStep::Send { is_error, stop_stream: true },
            FrameStep::EncodeMessage { .. } => FrameStep::Send { is_error, stop_stream: true },
            _ => FrameStep::Send { is_error, stop_stream: false },
        },
        Some(e) => match step {
            FrameStep::EncodeFinal => FrameStep::Fail {
                message: joined(
                    "Failed serializing ",
                    codec,
                    " request-plane final response: ",
                    e.as_str(),
                ),
            },
            FrameStep::EncodeFallback { .. } => FrameStep::Fail {
                message: joined(
                    "failed to serialize Python response and fallback error as ",
                    codec,
                    ": ",
                    e.as_str(),
                ),
            },
            _ => FrameStep::EncodeFallback {
                message: joined(
                    "critical error: failed serializing Python response as ",
                    codec,
                    ": ",
                    e.as_str(),
                ),
            },
        },
    }
}

// ---------------------------------------------------------------------------
// Encoding a response
// ---------------------------------------------------------------------------

/// What a frame holds before a codec turns it into bytes.
#[derive(Debug)]
pub struct Frame<P, E> {
    pub data: Option<Annotated<P, E>>,
    pub complete_final: bool,
}

/// A frame as bytes, and what the stream does with it.
#[derive(Debug)]
pub struct EncodedFrame {
    pub bytes: Vec<u8>,
    pub is_error: bool,
    pub stop_stream: bool,
}

/// The final frame: no data, marked complete.
pub open spec fn final_frame<P, E>() -> Frame<P, E> {
    Frame { data: None, complete_final: true }
}

/// A frame that holds an item.
pub open spec fn item_frame<P, E>(item: Annotated<P, E>) -> Frame<P, E> {
    Frame { data: Some(item), complete_final: false }
}

/// Whether `item` is an error item that `message` makes of a text.
pub open spec fn says<P, E, M: Fn(String) -> Annotated<P, E>>(
    message: M,
    said: Seq<char>,
    item: Annotated<P, E>,
) -> bool {
    exists|m: String| m@ == said && #[trigger] call_ensures(message, (m,), item)
}

/// Whether a frame is the answer to what a codec made of a step's content: its bytes
/// with these flags, or the failure that the step ends in.
pub open spec fn answered(
    step: FrameStepView,
    codec: Seq<char>,
    encoded: Result<Vec<u8>, String>,
    is_error: bool,
    r: Result<EncodedFrame, String>,
) -> bool {
    match encoded {
        Ok(bytes) => match (step_after_encode(step, codec, None, is_error), r) {
            (FrameStepView::Send { is_error, stop_stream }, Ok(frame)) => {
                &&& frame.bytes@ == bytes@
                &&& frame.is_error == is_error
                &&& frame.stop_stream == stop_stream
            },
            _ => false,
        },
        Err(e) => match (step_after_encode(step, codec, Some(e@), is_error), r) {
            (FrameStepView::Fail(message), Err(failure)) => failure@ == message,
            _ => false,
        },
    }
}

/// Whether `r` is what encoding the content of a fallback step comes to.
pub open spec fn fallback_answered<
    P,
    E,
    M: Fn(String) -> Annotated<P, E>,
    C: Fn(&Frame<P, E>) -> Result<Vec<u8>, String>,
>(
    codec: Seq<char>,
    said: Seq<char>,
    message: M,
    encode: C,
    r: Result<EncodedFrame, String>,
) -> bool {
    exists|item: Annotated<P, E>, encoded: Result<Vec<u8>, String>|
        says(message, said, item) && #[trigger] call_ensures(encode, (&item_frame(item),), encoded)
            && answered(FrameStepView::EncodeFallback(said), codec, encoded, true, r)
}

/// Whether `r` is what encoding an item at a step comes to: its frame, or the
/// fallback where the codec cannot encode it.
pub open spec fn item_answered<
    P,
    E,
    M: Fn(String) -> Annotated<P, E>,
    J: Fn(&Annotated<P, E>) -> bool,
    C: Fn(&Frame<P, E>) -> Result<Vec<u8>, String>,
>(
    step: FrameStepView,
    item: Annotated<P, E>,
    codec: Seq<char>,
    message: M,
    judge: J,
    encode: C,
    r: Result<EncodedFrame, String>,
) -> bool {
    exists|is_error: bool, encoded: Result<Vec<u8>, String>| #[trigger]
        call_ensures(judge, (&item,), is_error) && #[trigger] call_ensures(
            encode,
            (&item_frame(item),),
            encoded,
        ) && match encoded {
            Ok(_) => answered(step, codec, encoded, is_error, r),
            Err(e) => match step_after_encode(step, codec, Some(e@), is_error) {
                FrameStepView::EncodeFallback(said) => fallback_answered(
                    codec,
                    said,
                    message,
                    encode,
                    r,
                ),
                _ => false,
            },
        }
}

/// Whether `r` is what an error item that says a text comes to.
pub open spec fn message_answered<
    P,
    E,
    M: Fn(String) -> Annotated<P, E>,
    J: Fn(&Annotated<P, E>) -> bool,
    C: Fn(&Frame<P, E>) -> Result<Vec<u8>, String>,
>(
    said: Seq<char>,
    codec: Seq<char>,
    message: M,
    judge: J,
    encode: C,
    r: Result<EncodedFrame, String>,
) -> bool {
    exists|item: Annotated<P, E>| #[trigger]
        says(message, said, item) && item_answered(
            FrameStepView::EncodeMessage(said),
            item,
            codec,
            message,
            judge,
            encode,
            r,
        )
}

/// Whether `r` is what a yielded value comes to: the item that it is read as, or an
/// error item that says why it cannot be read.
pub open spec fn value_answered<
    V,
    P,
    E,
    R: Fn(V) -> Result<Annotated<P, E>, String>,
    M: Fn(String) -> Annotated<P, E>,
    J: Fn(&Annotated<P, E>) -> bool,
    C: Fn(&Frame<P, E>) -> Result<Vec<u8>, String>,
>(
    value: V,
    codec: Seq<char>,
    read: R,
    message: M,
    judge: J,
    encode: C,
    r: Result<EncodedFrame, String>,
) -> bool {
    exists|parsed: Result<Annotated<P, E>, String>| #[trigger]
        call_ensures(read, (value,), parsed) && match parsed {
            Ok(item) => item_answered(
                step_after_parse(None),
                item,
                codec,
                message,
                judge,
                encode,
                r,
            ),
            Err(e) => match step_after_parse(Some(e@)) {
                FrameStepView::EncodeMessage(said) => message_answered(
                    said,
                    codec,
                    message,
                    judge,
                    encode,
                    r,
                ),
                _ => false,
            },
        }
}

/// Whether `r` is what a yielded exception comes to: the error item that `raise` makes
/// of it.
pub open spec fn exception_answered<
    X,
    P,
    E,
    T: Fn(X) -> Annotated<P, E>,
    M: Fn(String) -> Annotated<P, E>,
    J: Fn(&Annotated<P, E>) -> bool,
    C: Fn(&Frame<P, E>) -> Result<Vec<u8>, String>,
>(
    exception: X,
    codec: Seq<char>,
    raise: T,
    message: M,
    judge: J,
    encode: C,
    r: Result<EncodedFrame, String>,
) -> bool {
    exists|item: Annotated<P, E>| #[trigger]
        call_ensures(raise, (exception,), item) && item_answered(
            FrameStepView::EncodeException,
            item,
            codec,
            message,
            judge,
            encode,
            r,
        )
}

/// Whether `r` is what a final frame comes to.
pub open spec fn final_answered<P, E, C: Fn(&Frame<P, E>) -> Result<Vec<u8>, String>>(
    codec: Seq<char>,
    encode: C,
    r: Result<EncodedFrame, String>,
) -> bool {
    exists|encoded: Result<Vec<u8>, String>| #[trigger]
        call_ensures(encode, (&final_frame::<P, E>(),), encoded) && answered(
            FrameStepView::EncodeFinal,
            codec,
            encoded,
            false,
            r,
        )
}

/// Whether `r` is what a response comes to: the final frame where it is asked for, and
/// otherwise what was yielded, which has to be something.
pub open spec fn response_answered<
    V,
    X,
    P,
    E,
    R: Fn(V) -> Result<Annotated<P, E>, String>,
    T: Fn(X) -> Annotated<P, E>,
    M: Fn(String) -> Annotated<P, E>,
    J: Fn(&Annotated<P, E>) -> bool,
    C: Fn(&Frame<P, E>) -> Result<Vec<u8>, String>,
>(
    codec: Seq<char>,
    response: Option<Result<V, X>>,
    complete_final: bool,
    read: R,
    raise: T,
    message: M,
    judge: J,
    encode: C,
    r: Result<EncodedFrame, String>,
) -> bool {
    if complete_final {
        final_answered(codec, encode, r)
    } else {
        match response {
            None => r is Err && r->Err_0@
                == "request-plane response item missing before final frame"@,
            Some(Ok(value)) => value_answered(value, codec, read, message, judge, encode, r),
            Some(Err(exception)) => exception_answered(
                exception,
                codec,
                raise,
                message,
                judge,
                encode,
                r,
            ),
        }
    }
}

/// Take what a codec made of the content of a step: send it, or give up where nothing
/// is left to try.
fn answer(step: &FrameStep, codec: &str, encoded: Result<Vec<u8>, String>, is_error: bool) -> (r:
    Result<EncodedFrame, String>)
    requires
        step is EncodeFinal || step is EncodeFallback || encoded is Ok,
        step is EncodeFinal || step is EncodeFallback || step is EncodeItem || step is EncodeException
            || step is EncodeMessage,
    ensures
        answered(step@, codec@, encoded, is_error, r),
{
    match encoded {
        Ok(bytes) => match after_encode(step, codec, None, is_error) {
            FrameStep::Send { is_error, stop_stream } => Ok(
                EncodedFrame { bytes, is_error, stop_stream },
            ),
            _ => vstd::pervasive::unreached(),
        },
        Err(e) => match after_encode(step, codec, Some(e), is_error) {
            FrameStep::Fail { message } => Err(message),
            _ => vstd::pervasive::unreached(),
        },
    }
}

fn encode_item<
    P,
    E,
    M: Fn(String) -> Annotated<P, E>,
    J: Fn(&Annotated<P, E>) -> bool,
    C: Fn(&Frame<P, E>) -> Result<Vec<u8>, String>,
>(
    step: &FrameStep,
    item: Annotated<P, E>,
    codec: &str,
    message: &M,
    judge: &J,
    encode: &C,
) -> (r: Result<EncodedFrame, String>)
    requires
        step is EncodeItem || step is EncodeException || step is EncodeMessage,
        forall|m: String| #[trigger] call_requires(*message, (m,)),
        forall|i: &Annotated<P, E>| #[trigger] call_requires(*judge, (i,)),
        forall|f: &Frame<P, E>| #[trigger] call_requires(*encode, (f,)),
    ensures
        item_answered(step@, item, codec@, *message, *judge, *encode, r),
{
    let is_error = judge(&item);
    let frame = Frame { data: Some(item), complete_final: false };
    let encoded = encode(&frame);
    let ghost first = encoded;
    proof {
        assert(frame == item_frame(item));
        assert(call_ensures(*judge, (&item,), is_error));
        assert(call_ensures(*encode, (&item_frame(item),), first));
    }
    match encoded {
        Ok(bytes) => answer(step, codec, Ok(bytes), is_error),
        Err(e) => {
            let ghost why = e@;
            match after_encode(step, codec, Some(e), is_error) {
                FrameStep::EncodeFallback { message: said } => {
                    let fallback = FrameStep::EncodeFallback { message: said.clone() };
                    let ghost text = said@;
                    let told = message(said);
                    let frame = Frame { data: Some(told), complete_final: false };
                    let encoded = encode(&frame);
                    let ghost second = encoded;
                    let r = answer(&fallback, codec, encoded, true);
                    proof {
                        assert(call_ensures(*message, (said,), told));
                        assert(says(*message, text, told));
                        assert(frame == item_frame(told));
                        assert(call_ensures(*encode, (&item_frame(told),), second));
                        assert(fallback_answered(codec@, text, *message, *encode, r));
                    }
                    r
                },
                _ => vstd::pervasive::unreached(),
            }
        },
    }
}

/// Encode what a Python generator yielded, or the final frame, given how the outside
/// does its part: `read` reads a value as an item, `raise` and `message` make error
/// items of an exception and of a text, `judge` tells error items, and `encode` is the
/// codec.
pub fn encode_python_response<
    V,
    X,
    P,
    E,
    R: Fn(V) -> Result<Annotated<P, E>, String>,
    T: Fn(X) -> Annotated<P, E>,
    M: Fn(String) -> Annotated<P, E>,
    J: Fn(&Annotated<P, E>) -> bool,
    C: Fn(&Frame<P, E>) -> Result<Vec<u8>, String>,
>(
    codec: &str,
    response: Option<Result<V, X>>,
    complete_final: bool,
    read: &R,
    raise: &T,
    message: &M,
    judge: &J,
    encode: &C,
) -> (r: Result<EncodedFrame, String>)
    requires
        forall|v: V| #[trigger] call_requires(*read, (v,)),
        forall|x: X| #[trigger] call_requires(*raise, (x,)),
        forall|m: String| #[trigger] call_requires(*message, (m,)),
        forall|i: &Annotated<P, E>| #[trigger] call_requires(*judge, (i,)),
        forall|f: &Frame<P, E>| #[trigger] call_requires(*encode, (f,)),
    ensures
        response_answered(
            codec@,
            response,
            complete_final,
            *read,
            *raise,
            *message,
            *judge,
            *encode,
            r,
        ),
{
    let yielded = match &response {
        None => Yielded::Nothing,
        Some(Ok(_)) => Yielded::Value,
        Some(Err(_)) => Yielded::Exception,
    };
    let step = begin(complete_final, yielded);
    if let FrameStep::Fail { message: failure } = step {
        return Err(failure);
    }
    if complete_final {
        let frame: Frame<P, E> = Frame { data: None, complete_final: true };
        let encoded = encode(&frame);
        proof {
            assert(frame == final_frame::<P, E>());
            assert(call_ensures(*encode, (&final_frame::<P, E>(),), encoded));
        }
        return answer(&step, codec, encoded, false);
    }
    match response {
        None => vstd::pervasive::unreached(),
        Some(Ok(value)) => {
            let parsed = read(value);
            proof {
                assert(call_ensures(*read, (value,), parsed));
            }
            match parsed {
                Ok(item) => {
                    let next = after_parse(None);
                    encode_item(&next, item, codec, message, judge, encode)
                },
                Err(e) => {
                    let next = after_parse(Some(e));
                    match &next {
                        FrameStep::EncodeMessage { message: said } => {
                            let text = said.clone();
                            let told = message(text);
                            proof {
                                assert(call_ensures(*message, (text,), told));
                                assert(says(*message, said@, told));
                            }
                            encode_item(&next, told, codec, message, judge, encode)
                        },
                        _ => vstd::pervasive::unreached(),
                    }
                },
            }
        },
        Some(Err(exception)) => {
            let item = raise(exception);
            proof {
                assert(call_ensures(*raise, (exception,), item));
            }
            encode_item(&step, item, codec, message, judge, encode)
        },
    }
}

// ---------------------------------------------------------------------------
// Laws
// ---------------------------------------------------------------------------

/// An exception and a value that cannot be read both end the stream, a value that
/// can be read does not.
pub proof fn only_failures_end_the_stream(error: Option<Seq<char>>)
    ensures
        ends_stream(first_step(false, Yielded::Exception)),
        ends_stream(step_after_parse(error)) <==> error is Some,
        !ends_stream(first_step(true, Yielded::Nothing)),
{
}

/// An item that cannot be encoded still reaches the peer, as an error that ends the
/// stream, unless the fallback cannot be encoded either.
pub proof fn unencodable_item_becomes_a_terminal_error(
    step: FrameStepView,
    codec: Seq<char>,
    error: Seq<char>,
    is_error: bool,
)
    requires
        step is EncodeItem || step is EncodeException || step is EncodeMessage,
    ensures
        ({
            let next = step_after_encode(step, codec, Some(error), is_error);
            &&& next is EncodeFallback
            &&& step_after_encode(next, codec, None, is_error) == FrameStepView::Send {
                is_error: true,
                stop_stream: true,
            }
        }),
{
}

/// The final frame is neither an error nor a stop, whatever was yielded.
pub proof fn final_frame_is_plain(yielded: Yielded, codec: Seq<char>, is_error: bool)
    ensures
        step_after_encode(first_step(true, yielded), codec, None, is_error)
            == (FrameStepView::Send { is_error: false, stop_stream: false }),
{
}

/// A frame that ends the stream is an error frame, given that an item made of an
/// exception or of a message is an error item.
pub proof fn ending_frame_is_an_error(step: FrameStepView, codec: Seq<char>, is_error: bool)
    requires
        ends_stream(step) ==> is_error,
    ensures
        step_after_encode(step, codec, None, is_error) matches FrameStepView::Send {
            is_error: sent,
            stop_stream,
        } ==> stop_stream ==> sent,
        step is EncodeException || step is EncodeMessage || step is EncodeFallback
            ==> step_after_encode(step, codec, None, is_error) == (FrameStepView::Send {
            is_error: true,
            stop_stream: true,
        }),
{
}

/// Whether a codec reads back what it wrote.
pub open spec fn reads_back<P, E, C: Fn(&Frame<P, E>) -> Result<Vec<u8>, String>>(
    encode: C,
    decode: spec_fn(Seq<u8>) -> Option<Frame<P, E>>,
) -> bool {
    forall|frame: &Frame<P, E>, encoded: Result<Vec<u8>, String>| #[trigger]
        call_ensures(encode, (frame,), encoded) ==> match encoded {
            Ok(bytes) => decode(bytes@) == Some(*frame),
            Err(_) => true,
        }
}

/// Whether a codec can encode a frame.
pub open spec fn can_encode<P, E, C: Fn(&Frame<P, E>) -> Result<Vec<u8>, String>>(
    encode: C,
    frame: Frame<P, E>,
) -> bool {
    forall|encoded: Result<Vec<u8>, String>| #[trigger]
        call_ensures(encode, (&frame,), encoded) ==> encoded is Ok
}

/// Whether a value is read as an item.
pub open spec fn reads_as<V, P, E, R: Fn(V) -> Result<Annotated<P, E>, String>>(
    read: R,
    value: V,
    item: Annotated<P, E>,
) -> bool {
    forall|parsed: Result<Annotated<P, E>, String>| #[trigger]
        call_ensures(read, (value,), parsed) ==> parsed == Ok::<Annotated<P, E>, String>(item)
}

/// Whether the items that are made of exceptions and of messages are error items.
pub open spec fn errors_are_told<
    X,
    P,
    E,
    T: Fn(X) -> Annotated<P, E>,
    M: Fn(String) -> Annotated<P, E>,
    J: Fn(&Annotated<P, E>) -> bool,
>(raise: T, message: M, judge: J) -> bool {
    &&& forall|x: X, item: Annotated<P, E>, told: bool| #[trigger]
        call_ensures(raise, (x,), item) && #[trigger] call_ensures(judge, (&item,), told) ==> told
    &&& forall|m: String, item: Annotated<P, E>, told: bool| #[trigger]
        call_ensures(message, (m,), item) && #[trigger] call_ensures(judge, (&item,), told) ==> told
}

/// An item comes back with its metadata, and does not end the stream: the codec reads
/// back, from the frame of a value, the item that the value was read as.
pub proof fn read_item_comes_back<
    V,
    X,
    P,
    E,
    R: Fn(V) -> Result<Annotated<P, E>, String>,
    T: Fn(X) -> Annotated<P, E>,
    M: Fn(String) -> Annotated<P, E>,
    J: Fn(&Annotated<P, E>) -> bool,
    C: Fn(&Frame<P, E>) -> Result<Vec<u8>, String>,
>(
    codec: Seq<char>,
    value: V,
    item: Annotated<P, E>,
    read: R,
    raise: T,
    message: M,
    judge: J,
    encode: C,
    r: Result<EncodedFrame, String>,
    decode: spec_fn(Seq<u8>) -> Option<Frame<P, E>>,
)
    requires
        response_answered(
            codec,
            Some(Ok(value)),
            false,
            read,
            raise,
            message,
            judge,
            encode,
            r,
        ),
        reads_as(read, value, item),
        reads_back(encode, decode),
        can_encode(encode, item_frame(item)),
    ensures
        r is Ok,
        !r->Ok_0.stop_stream,
        call_ensures(judge, (&item,), r->Ok_0.is_error),
        decode(r->Ok_0.bytes@) == Some(item_frame(item)),
{
    assert(item_answered(FrameStepView::EncodeItem, item, codec, message, judge, encode, r));
    let (is_error, encoded) = choose|is_error: bool, encoded: Result<Vec<u8>, String>| #[trigger]
        call_ensures(judge, (&item,), is_error) && #[trigger] call_ensures(
            encode,
            (&item_frame(item),),
            encoded,
        ) && match encoded {
            Ok(_) => answered(FrameStepView::EncodeItem, codec, encoded, is_error, r),
            Err(e) => fallback_answered(
                codec,
                step_after_encode(
                    FrameStepView::EncodeItem,
                    codec,
                    Some(e@),
                    is_error,
                )->EncodeFallback_0,
                message,
                encode,
                r,
            ),
        };
    assert(encoded is Ok);
}

/// A plain response comes back unchanged: the frame of a value that is data and
/// nothing else is neither an error nor a stop, and the codec reads that data back
/// from it.
pub proof fn plain_response_comes_back<
    V,
    X,
    P,
    E,
    R: Fn(V) -> Result<Annotated<P, E>, String>,
    T: Fn(X) -> Annotated<P, E>,
    M: Fn(String) -> Annotated<P, E>,
    J: Fn(&Annotated<P, E>) -> bool,
    C: Fn(&Frame<P, E>) -> Result<Vec<u8>, String>,
>(
    codec: Seq<char>,
    value: V,
    data: P,
    read: R,
    raise: T,
    message: M,
    judge: J,
    encode: C,
    r: Result<EncodedFrame, String>,
    decode: spec_fn(Seq<u8>) -> Option<Frame<P, E>>,
)
    requires
        response_answered(
            codec,
            Some(Ok(value)),
            false,
            read,
            raise,
            message,
            judge,
            encode,
            r,
        ),
        reads_as(read, value, plain_item(data)),
        forall|told: bool| #[trigger]
            call_ensures(judge, (&plain_item::<P, E>(data),), told) ==> !told,
        reads_back(encode, decode),
        can_encode(encode, item_frame(plain_item::<P, E>(data))),
    ensures
        r is Ok,
        !r->Ok_0.is_error,
        !r->Ok_0.stop_stream,
        decode(r->Ok_0.bytes@) is Some,
        !decode(r->Ok_0.bytes@)->0.complete_final,
        decode(r->Ok_0.bytes@)->0.data == Some(plain_item::<P, E>(data)),
        decode(r->Ok_0.bytes@)->0.data->0.data == Some(data),
{
    read_item_comes_back::<V, X, P, E, R, T, M, J, C>(
        codec,
        value,
        plain_item(data),
        read,
        raise,
        message,
        judge,
        encode,
        r,
        decode,
    );
}

/// The final frame comes back: it holds nothing, is marked complete, and is neither an
/// error nor a stop, whatever was yielded.
pub proof fn final_frame_comes_back<
    V,
    X,
    P,
    E,
    R: Fn(V) -> Result<Annotated<P, E>, String>,
    T: Fn(X) -> Annotated<P, E>,
    M: Fn(String) -> Annotated<P, E>,
    J: Fn(&Annotated<P, E>) -> bool,
    C: Fn(&Frame<P, E>) -> Result<Vec<u8>, String>,
>(
    codec: Seq<char>,
    response: Option<Result<V, X>>,
    read: R,
    raise: T,
    message: M,
    judge: J,
    encode: C,
    r: Result<EncodedFrame, String>,
    decode: spec_fn(Seq<u8>) -> Option<Frame<P, E>>,
)
    requires
        response_answered(
            codec,
            response,
            true,
            read,
            raise,
            message,
            judge,
            encode,
            r,
        ),
        reads_back(encode, decode),
        can_encode(encode, final_frame::<P, E>()),
    ensures
        r is Ok,
        !r->Ok_0.is_error,
        !r->Ok_0.stop_stream,
        decode(r->Ok_0.bytes@) == Some(final_frame::<P, E>()),
{
    let encoded = choose|encoded: Result<Vec<u8>, String>| #[trigger]
        call_ensures(encode, (&final_frame::<P, E>(),), encoded) && answered(
            FrameStepView::EncodeFinal,
            codec,
            encoded,
            false,
            r,
        );
    assert(encoded is Ok);
}

/// What an error item comes to: a frame that is an error and ends the stream, unless
/// neither it nor the fallback can be encoded.
proof fn lemma_error_item<
    P,
    E,
    M: Fn(String) -> Annotated<P, E>,
    J: Fn(&Annotated<P, E>) -> bool,
    C: Fn(&Frame<P, E>) -> Result<Vec<u8>, String>,
>(
    step: FrameStepView,
    item: Annotated<P, E>,
    codec: Seq<char>,
    message: M,
    judge: J,
    encode: C,
    r: Result<EncodedFrame, String>,
)
    requires
        item_answered(step, item, codec, message, judge, encode, r),
        step is EncodeItem || step is EncodeException || step is EncodeMessage,
        ends_stream(step) ==> forall|told: bool| #[trigger]
            call_ensures(judge, (&item,), told) ==> told,
    ensures
        r is Ok ==> r->Ok_0.stop_stream ==> r->Ok_0.is_error,
        r is Ok && ends_stream(step) ==> r->Ok_0.stop_stream,
{
}

/// What an error item that says a text comes to: a frame that is an error and ends the
/// stream, unless neither it nor the fallback can be encoded.
proof fn lemma_message<
    X,
    P,
    E,
    T: Fn(X) -> Annotated<P, E>,
    M: Fn(String) -> Annotated<P, E>,
    J: Fn(&Annotated<P, E>) -> bool,
    C: Fn(&Frame<P, E>) -> Result<Vec<u8>, String>,
>(
    said: Seq<char>,
    codec: Seq<char>,
    raise: T,
    message: M,
    judge: J,
    encode: C,
    r: Result<EncodedFrame, String>,
)
    requires
        message_answered(said, codec, message, judge, encode, r),
        errors_are_told::<X, P, E, T, M, J>(raise, message, judge),
    ensures
        r is Ok ==> r->Ok_0.is_error && r->Ok_0.stop_stream,
{
    let step = FrameStepView::EncodeMessage(said);
    let item = choose|item: Annotated<P, E>| #[trigger]
        says(message, said, item) && item_answered(step, item, codec, message, judge, encode, r);
    lemma_error_item(step, item, codec, message, judge, encode, r);
}

/// An exception, and a value that cannot be read, reach the peer as an error that ends
/// the stream, unless neither it nor the fallback can be encoded.
pub proof fn failure_is_a_terminal_error<
    V,
    X,
    P,
    E,
    R: Fn(V) -> Result<Annotated<P, E>, String>,
    T: Fn(X) -> Annotated<P, E>,
    M: Fn(String) -> Annotated<P, E>,
    J: Fn(&Annotated<P, E>) -> bool,
    C: Fn(&Frame<P, E>) -> Result<Vec<u8>, String>,
>(
    codec: Seq<char>,
    response: Option<Result<V, X>>,
    read: R,
    raise: T,
    message: M,
    judge: J,
    encode: C,
    r: Result<EncodedFrame, String>,
)
    requires
        response_answered(
            codec,
            response,
            false,
            read,
            raise,
            message,
            judge,
            encode,
            r,
        ),
        errors_are_told::<X, P, E, T, M, J>(raise, message, judge),
        response matches Some(Ok(value)) ==> forall|parsed: Result<Annotated<P, E>, String>|
            #[trigger] call_ensures(read, (value,), parsed) ==> parsed is Err,
    ensures
        r is Ok ==> r->Ok_0.is_error && r->Ok_0.stop_stream,
{
    match response {
        None => {},
        Some(Ok(value)) => {
            let parsed = choose|parsed: Result<Annotated<P, E>, String>| #[trigger]
                call_ensures(read, (value,), parsed) && message_answered(
                    step_after_parse(Some(parsed->Err_0@))->EncodeMessage_0,
                    codec,
                    message,
                    judge,
                    encode,
                    r,
                );
            let said = step_after_parse(Some(parsed->Err_0@))->EncodeMessage_0;
            lemma_message::<X, P, E, T, M, J, C>(said, codec, raise, message, judge, encode, r);
        },
        Some(Err(exception)) => {
            let step = FrameStepView::EncodeException;
            let item = choose|item: Annotated<P, E>| #[trigger]
                call_ensures(raise, (exception,), item) && item_answered(
                    step,
                    item,
                    codec,
                    message,
                    judge,
                    encode,
                    r,
                );
            lemma_error_item(step, item, codec, message, judge, encode, r);
        },
    }
}

/// Whatever is yielded, a frame that ends the stream is an error frame, given that
/// items made of exceptions and of messages are error items.
pub proof fn stream_ends_only_with_an_error<
    V,
    X,
    P,
    E,
    R: Fn(V) -> Result<Annotated<P, E>, String>,
    T: Fn(X) -> Annotated<P, E>,
    M: Fn(String) -> Annotated<P, E>,
    J: Fn(&Annotated<P, E>) -> bool,
    C: Fn(&Frame<P, E>) -> Result<Vec<u8>, String>,
>(
    codec: Seq<char>,
    response: Option<Result<V, X>>,
    complete_final: bool,
    read: R,
    raise: T,
    message: M,
    judge: J,
    encode: C,
    r: Result<EncodedFrame, String>,
)
    requires
        response_answered(
            codec,
            response,
            complete_final,
            read,
            raise,
            message,
            judge,
            encode,
            r,
        ),
        errors_are_told::<X, P, E, T, M, J>(raise, message, judge),
    ensures
        r is Ok ==> r->Ok_0.stop_stream ==> r->Ok_0.is_error,
{
    if !complete_final {
        match response {
            None => {},
            Some(Err(_)) => {
                failure_is_a_terminal_error::<V, X, P, E, R, T, M, J, C>(
                    codec,
                    response,
                    read,
                    raise,
                    message,
                    judge,
                    encode,
                    r,
                );
            },
            Some(Ok(value)) => {
                let parsed = choose|parsed: Result<Annotated<P, E>, String>| #[trigger]
                    call_ensures(read, (value,), parsed) && match parsed {
                        Ok(item) => item_answered(
                            FrameStepView::EncodeItem,
                            item,
                            codec,
                            message,
                            judge,
                            encode,
                            r,
                        ),
                        Err(e) => message_answered(
                            step_after_parse(Some(e@))->EncodeMessage_0,
                            codec,
                            message,
                            judge,
                            encode,
                            r,
                        ),
                    };
                match parsed {
                    Ok(item) => {
                        lemma_error_item(
                            FrameStepView::EncodeItem,
                            item,
                            codec,
                            message,
                            judge,
                            encode,
                            r,
                        );
                    },
                    Err(e) => {
                        let said = step_after_parse(Some(e@))->EncodeMessage_0;
                        lemma_message::<X, P, E, T, M, J, C>(
                            said,
                            codec,
                            raise,
                            message,
                            judge,
                            encode,
                            r,
                        );
                    },
                }
            },
        }
    }
}

/// An envelope whose parts can all be read is the item with exactly those parts, each
/// in its own place.
pub proof fn assembled_item_has_the_parts<P, E>(
    parts: EnvelopeParts<P, E>,
    r: Result<Annotated<P, E>, String>,
)
    requires
        call_ensures(EnvelopeParts::<P, E>::assemble, (parts,), r),
        parts.data is Ok,
        parts.id is Ok,
        parts.event is Ok,
        parts.comment is Ok,
        parts.error is Ok,
    ensures
        r is Ok,
        r->Ok_0.data == parts.data->Ok_0,
        r->Ok_0.id == parts.id->Ok_0,
        r->Ok_0.event == parts.event->Ok_0,
        r->Ok_0.comment == parts.comment->Ok_0,
        r->Ok_0.error == parts.error->Ok_0,
{
}

/// Two envelopes that differ in one part give items that differ in that part alone.
pub proof fn parts_do_not_mix<P, E>(
    a: EnvelopeParts<P, E>,
    b: EnvelopeParts<P, E>,
    x: Result<Annotated<P, E>, String>,
    y: Result<Annotated<P, E>, String>,
)
    requires
        call_ensures(EnvelopeParts::<P, E>::assemble, (a,), x),
        call_ensures(EnvelopeParts::<P, E>::assemble, (b,), y),
        x is Ok,
        y is Ok,
    ensures
        x->Ok_0.data == y->Ok_0.data <==> a.data == b.data,
        x->Ok_0.id == y->Ok_0.id <==> a.id == b.id,
        x->Ok_0.event == y->Ok_0.event <==> a.event == b.event,
        x->Ok_0.comment == y->Ok_0.comment <==> a.comment == b.comment,
        x->Ok_0.error == y->Ok_0.error <==> a.error == b.error,
{
}

/// An envelope with a part that cannot be read is refused for the first such part, in
/// the order data, id, event, comment, error.
pub proof fn first_unreadable_part_is_told<P, E>(
    parts: EnvelopeParts<P, E>,
    r: Result<Annotated<P, E>, String>,
)
    requires
        call_ensures(EnvelopeParts::<P, E>::assemble, (parts,), r),
    ensures
        parts.data matches Err(e) ==> r == Err::<Annotated<P, E>, String>(e),
        parts.data is Ok ==> (parts.id matches Err(e) ==> r == Err::<Annotated<P, E>, String>(e)),
        parts.data is Ok && parts.id is Ok ==> (parts.event matches Err(e) ==> r == Err::<
            Annotated<P, E>,
            String,
        >(e)),
        parts.data is Ok && parts.id is Ok && parts.event is Ok ==> (parts.comment matches Err(e)
            ==> r == Err::<Annotated<P, E>, String>(e)),
        parts.data is Ok && parts.id is Ok && parts.event is Ok && parts.comment is Ok ==> (
        parts.error matches Err(e) ==> r == Err::<Annotated<P, E>, String>(e)),
{
}

/// The item that readable parts make has each of them in its own place, and then there
/// is no fault; otherwise the fault is the first part's that cannot be read.
pub proof fn whole_has_the_parts<P, E>(
    parts: EnvelopeParts<P, E>,
    data: Option<P>,
    id: Option<String>,
    event: Option<String>,
    comment: Option<Vec<String>>,
    error: Option<E>,
)
    requires
        parts.data == Ok::<Option<P>, String>(data),
        parts.id == Ok::<Option<String>, String>(id),
        parts.event == Ok::<Option<String>, String>(event),
        parts.comment == Ok::<Option<Vec<String>>, String>(comment),
        parts.error == Ok::<Option<E>, String>(error),
    ensures
        parts.fault() is None,
        parts.whole().data == data,
        parts.whole().id == id,
        parts.whole().event == event,
        parts.whole().comment == comment,
        parts.whole().error == error,
{
}

/// A value is an envelope exactly when it is a dictionary whose marker can be read and is
/// true; a marker that cannot be read matters only in a dictionary.
pub proof fn marked_dictionaries_are_envelopes(
    is_dict: bool,
    marker: Result<Option<bool>, String>,
    r: Result<bool, String>,
)
    requires
        call_ensures(item_is_envelope, (is_dict, marker), r),
    ensures
        r == Ok::<bool, String>(true) <==> is_dict && marker == Ok::<Option<bool>, String>(
            Some(true),
        ),
        r is Err <==> is_dict && marker is Err,
        r is Err ==> r->Err_0 == marker->Err_0,
{
}

/// Plain data has no metadata.
pub proof fn plain_item_is_data_alone<P, E>(data: P)
    ensures
        plain_item::<P, E>(data).data == Some(data),
        plain_item::<P, E>(data).id is None,
        plain_item::<P, E>(data).event is None,
        plain_item::<P, E>(data).comment is None,
        plain_item::<P, E>(data).error is None,
{
}

/// The frame of an item holds it and is not the last; the final frame holds nothing and
/// is.
pub proof fn frames_hold_their_items<P, E>(item: Annotated<P, E>)
    ensures
        item_frame(item).data == Some(item),
        !item_frame(item).complete_final,
        final_frame::<P, E>().data is None,
        final_frame::<P, E>().complete_final,
{
}

/// A response begins with the final frame where it is asked for; otherwise a value is
/// read, an exception is told, and nothing is a failure.
pub proof fn responses_begin_with_what_was_yielded(
    complete_final: bool,
    yielded: Yielded,
    r: FrameStep,
)
    requires
        call_ensures(begin, (complete_final, yielded), r),
    ensures
        complete_final ==> r is EncodeFinal,
        !complete_final && yielded == Yielded::Value ==> r is Parse,
        !complete_final && yielded == Yielded::Exception ==> r is EncodeException,
        !complete_final && yielded == Yielded::Nothing ==> (r matches FrameStep::Fail { message }
            && message@ == "request-plane response item missing before final frame"@),
{
}

/// A value that was read is encoded; one that could not be is told as a mismatch, with
/// the reason at the end.
pub proof fn unreadable_values_are_told(error: Option<String>, r: FrameStep)
    requires
        call_ensures(after_parse, (error,), r),
    ensures
        error is None <==> r is EncodeItem,
        error is Some <==> r is EncodeMessage,
        r matches FrameStep::EncodeMessage { message } ==> message@
            == "critical error: invalid response object from Python async generator; application-logic-mismatch: "@
            + error->0@,
{
}

/// What was encoded is sent: the final frame and the fallback with their own flags, any
/// other item as the error that it is, and it ends the stream exactly when it tells an
/// exception or a message.
pub proof fn encoded_steps_are_sent(step: FrameStep, codec: &str, is_error: bool, r: FrameStep)
    requires
        call_ensures(after_encode, (&step, codec, None, is_error), r),
    ensures
        r matches FrameStep::Send { is_error: told, stop_stream } && match step {
            FrameStep::EncodeFinal => !told && !stop_stream,
            FrameStep::EncodeFallback { .. } => told && stop_stream,
            FrameStep::EncodeException => told == is_error && stop_stream,
            FrameStep::EncodeMessage { .. } => told == is_error && stop_stream,
            _ => told == is_error && !stop_stream,
        },
{
}

/// What could not be encoded is told: once by a fallback, and where the fallback or the
/// final frame cannot be encoded by giving up, each with the codec and the reason.
pub proof fn unencodable_steps_are_told(
    step: FrameStep,
    codec: &str,
    error: String,
    is_error: bool,
    r: FrameStep,
)
    requires
        call_ensures(after_encode, (&step, codec, Some(error), is_error), r),
    ensures
        match step {
            FrameStep::EncodeFinal => r matches FrameStep::Fail { message } && message@
                == "Failed serializing "@ + codec@ + " request-plane final response: "@ + error@,
            FrameStep::EncodeFallback { .. } => r matches FrameStep::Fail { message } && message@
                == "failed to serialize Python response and fallback error as "@ + codec@ + ": "@
                + error@,
            _ => r matches FrameStep::EncodeFallback { message } && message@
                == "critical error: failed serializing Python response as "@ + codec@ + ": "@
                + error@,
        },
{
}

/// What a step says is what it holds.
pub proof fn frame_step_says_what_it_holds(message: String, is_error: bool, stop_stream: bool)
    ensures
        FrameStep::EncodeFinal@ == FrameStepView::EncodeFinal,
        FrameStep::Parse@ == FrameStepView::Parse,
        FrameStep::EncodeItem@ == FrameStepView::EncodeItem,
        FrameStep::EncodeException@ == FrameStepView::EncodeException,
        (FrameStep::EncodeMessage { message })@ == FrameStepView::EncodeMessage(message@),
        (FrameStep::EncodeFallback { message })@ == FrameStepView::EncodeFallback(message@),
        (FrameStep::Send { is_error, stop_stream })@ == (FrameStepView::Send {
            is_error,
            stop_stream,
        }),
        (FrameStep::Fail { message })@ == FrameStepView::Fail(message@),
{
}

/// An exception comes back as the item that is made of it, and ends the stream.
pub proof fn exception_comes_back<
    V,
    X,
    P,
    E,
    R: Fn(V) -> Result<Annotated<P, E>, String>,
    T: Fn(X) -> Annotated<P, E>,
    M: Fn(String) -> Annotated<P, E>,
    J: Fn(&Annotated<P, E>) -> bool,
    C: Fn(&Frame<P, E>) -> Result<Vec<u8>, String>,
>(
    codec: Seq<char>,
    exception: X,
    item: Annotated<P, E>,
    read: R,
    raise: T,
    message: M,
    judge: J,
    encode: C,
    r: Result<EncodedFrame, String>,
    decode: spec_fn(Seq<u8>) -> Option<Frame<P, E>>,
)
    requires
        response_answered(
            codec,
            Some(Err::<V, X>(exception)),
            false,
            read,
            raise,
            message,
            judge,
            encode,
            r,
        ),
        forall|made: Annotated<P, E>| #[trigger]
            call_ensures(raise, (exception,), made) ==> made == item,
        reads_back(encode, decode),
        can_encode(encode, Frame { data: Some(item), complete_final: false }),
    ensures
        r is Ok,
        r->Ok_0.stop_stream,
        call_ensures(judge, (&item,), r->Ok_0.is_error),
        decode(r->Ok_0.bytes@) == Some(Frame { data: Some(item), complete_final: false }),
{
    let step = FrameStepView::EncodeException;
    let made = choose|made: Annotated<P, E>| #[trigger]
        call_ensures(raise, (exception,), made) && item_answered(
            step,
            made,
            codec,
            message,
            judge,
            encode,
            r,
        );
    lemma_encodable_item(step, made, codec, message, judge, encode, r, decode);
}

/// What an item that the codec can encode comes to.
proof fn lemma_encodable_item<
    P,
    E,
    M: Fn(String) -> Annotated<P, E>,
    J: Fn(&Annotated<P, E>) -> bool,
    C: Fn(&Frame<P, E>) -> Result<Vec<u8>, String>,
>(
    step: FrameStepView,
    item: Annotated<P, E>,
    codec: Seq<char>,
    message: M,
    judge: J,
    encode: C,
    r: Result<EncodedFrame, String>,
    decode: spec_fn(Seq<u8>) -> Option<Frame<P, E>>,
)
    requires
        item_answered(step, item, codec, message, judge, encode, r),
        step is EncodeItem || step is EncodeException || step is EncodeMessage,
        reads_back(encode, decode),
        can_encode(encode, item_frame(item)),
    ensures
        r is Ok,
        r->Ok_0.stop_stream == ends_stream(step),
        call_ensures(judge, (&item,), r->Ok_0.is_error),
        decode(r->Ok_0.bytes@) == Some(item_frame(item)),
{
    let (is_error, encoded) = choose|is_error: bool, encoded: Result<Vec<u8>, String>| #[trigger]
        call_ensures(judge, (&item,), is_error) && #[trigger] call_ensures(
            encode,
            (&item_frame(item),),
            encoded,
        ) && match encoded {
            Ok(_) => answered(step, codec, encoded, is_error, r),
            Err(e) => true,
        };
    assert(encoded is Ok);
}

/// A value that cannot be read comes back as an item made of a message that says so and
/// why, and ends the stream.
pub proof fn unreadable_value_comes_back_as_a_message<
    V,
    X,
    P,
    E,
    R: Fn(V) -> Result<Annotated<P, E>, String>,
    T: Fn(X) -> Annotated<P, E>,
    M: Fn(String) -> Annotated<P, E>,
    J: Fn(&Annotated<P, E>) -> bool,
    C: Fn(&Frame<P, E>) -> Result<Vec<u8>, String>,
>(
    codec: Seq<char>,
    value: V,
    why: Seq<char>,
    read: R,
    raise: T,
    message: M,
    judge: J,
    encode: C,
    r: Result<EncodedFrame, String>,
    decode: spec_fn(Seq<u8>) -> Option<Frame<P, E>>,
) -> (told: (String, Annotated<P, E>))
    requires
        response_answered(
            codec,
            Some(Ok::<V, X>(value)),
            false,
            read,
            raise,
            message,
            judge,
            encode,
            r,
        ),
        forall|parsed: Result<Annotated<P, E>, String>| #[trigger]
            call_ensures(read, (value,), parsed) ==> parsed is Err && parsed->Err_0@ == why,
        reads_back(encode, decode),
        forall|m: String, item: Annotated<P, E>| #[trigger]
            call_ensures(message, (m,), item) ==> can_encode(
                encode,
                Frame { data: Some(item), complete_final: false },
            ),
    ensures
        told.0@
            == "critical error: invalid response object from Python async generator; application-logic-mismatch: "@
            + why,
        call_ensures(message, (told.0,), told.1),
        r is Ok,
        r->Ok_0.stop_stream,
        call_ensures(judge, (&told.1,), r->Ok_0.is_error),
        decode(r->Ok_0.bytes@) == Some(Frame { data: Some(told.1), complete_final: false }),
{
    let said =
        "critical error: invalid response object from Python async generator; application-logic-mismatch: "@
        + why;
    let step = FrameStepView::EncodeMessage(said);
    assert(message_answered(said, codec, message, judge, encode, r));
    let item = choose|item: Annotated<P, E>| #[trigger]
        says(message, said, item) && item_answered(step, item, codec, message, judge, encode, r);
    let m = choose|m: String| m@ == said && #[trigger] call_ensures(message, (m,), item);
    lemma_encodable_item(step, item, codec, message, judge, encode, r, decode);
    (m, item)
}

/// An item that the codec cannot encode comes back as an item made of a message that says
/// so and why; it is an error and ends the stream.
pub proof fn unencodable_value_comes_back_as_a_message<
    V,
    X,
    P,
    E,
    R: Fn(V) -> Result<Annotated<P, E>, String>,
    T: Fn(X) -> Annotated<P, E>,
    M: Fn(String) -> Annotated<P, E>,
    J: Fn(&Annotated<P, E>) -> bool,
    C: Fn(&Frame<P, E>) -> Result<Vec<u8>, String>,
>(
    codec: Seq<char>,
    value: V,
    item: Annotated<P, E>,
    why: Seq<char>,
    read: R,
    raise: T,
    message: M,
    judge: J,
    encode: C,
    r: Result<EncodedFrame, String>,
    decode: spec_fn(Seq<u8>) -> Option<Frame<P, E>>,
) -> (told: (String, Annotated<P, E>))
    requires
        response_answered(
            codec,
            Some(Ok::<V, X>(value)),
            false,
            read,
            raise,
            message,
            judge,
            encode,
            r,
        ),
        reads_as(read, value, item),
        forall|encoded: Result<Vec<u8>, String>| #[trigger]
            call_ensures(
                encode,
                (&Frame { data: Some(item), complete_final: false },),
                encoded,
            ) ==> encoded is Err && encoded->Err_0@ == why,
        reads_back(encode, decode),
        forall|m: String, made: Annotated<P, E>| #[trigger]
            call_ensures(message, (m,), made) ==> can_encode(
                encode,
                Frame { data: Some(made), complete_final: false },
            ),
    ensures
        told.0@ == "critical error: failed serializing Python response as "@ + codec + ": "@ + why,
        call_ensures(message, (told.0,), told.1),
        r is Ok,
        r->Ok_0.is_error,
        r->Ok_0.stop_stream,
        decode(r->Ok_0.bytes@) == Some(Frame { data: Some(told.1), complete_final: false }),
{
    let said = "critical error: failed serializing Python response as "@ + codec + ": "@ + why;
    assert(item_answered(FrameStepView::EncodeItem, item, codec, message, judge, encode, r));
    assert(item_frame(item) == (Frame { data: Some(item), complete_final: false }));
    assert(fallback_answered(codec, said, message, encode, r));
    let (made, encoded) = choose|made: Annotated<P, E>, encoded: Result<Vec<u8>, String>|
        says(message, said, made) && #[trigger] call_ensures(encode, (&item_frame(made),), encoded)
            && answered(FrameStepView::EncodeFallback(said), codec, encoded, true, r);
    let m = choose|m: String| m@ == said && #[trigger] call_ensures(message, (m,), made);
    assert(can_encode(encode, item_frame(made)));
    assert(encoded is Ok);
    (m, made)
}

/// Where the codec can encode nothing, every response fails, with words that tell what
/// was tried and why it failed; where nothing was yielded, that is told instead.
pub proof fn nothing_encodable_is_a_failure<
    V,
    X,
    P,
    E,
    R: Fn(V) -> Result<Annotated<P, E>, String>,
    T: Fn(X) -> Annotated<P, E>,
    M: Fn(String) -> Annotated<P, E>,
    J: Fn(&Annotated<P, E>) -> bool,
    C: Fn(&Frame<P, E>) -> Result<Vec<u8>, String>,
>(
    codec: Seq<char>,
    response: Option<Result<V, X>>,
    complete_final: bool,
    why: Seq<char>,
    read: R,
    raise: T,
    message: M,
    judge: J,
    encode: C,
    r: Result<EncodedFrame, String>,
)
    requires
        response_answered(
            codec,
            response,
            complete_final,
            read,
            raise,
            message,
            judge,
            encode,
            r,
        ),
        forall|frame: &Frame<P, E>, encoded: Result<Vec<u8>, String>| #[trigger]
            call_ensures(encode, (frame,), encoded) ==> encoded is Err && encoded->Err_0@ == why,
    ensures
        r is Err,
        complete_final ==> r->Err_0@ == "Failed serializing "@ + codec
            + " request-plane final response: "@ + why,
        !complete_final && response is None ==> r->Err_0@
            == "request-plane response item missing before final frame"@,
        !complete_final && response is Some ==> r->Err_0@
            == "failed to serialize Python response and fallback error as "@ + codec + ": "@ + why,
{
}

/// A failure names what failed, the codec and the reason, in that order.
pub proof fn failures_name_codec_and_reason(
    codec: &str,
    error: &str,
    offload: String,
    payload: String,
    encode: String,
)
    requires
        call_ensures(decode_failure, (DecodeFailure::Offload, codec, error), offload),
        call_ensures(decode_failure, (DecodeFailure::Payload, codec, error), payload),
        call_ensures(encode_offload_failure, (codec, error), encode),
    ensures
        offload@ == "failed to offload "@ + codec@ + " Python request decode: "@ + error@,
        payload@ == "Failed deserializing "@ + codec@ + " Python request payload: "@ + error@,
        encode@ == "failed to offload "@ + codec@ + " Python response encode: "@ + error@,
{
}

/// A dictionary is an envelope as its marker says, and without a marker it is none.
pub proof fn marker_decides(marker: Result<Option<bool>, String>, r: Result<bool, String>)
    requires
        call_ensures(is_envelope, (marker,), r),
    ensures
        r == Ok::<bool, String>(true) <==> marker == Ok::<Option<bool>, String>(Some(true)),
        r is Err <==> marker is Err,
        r is Err ==> r->Err_0 == marker->Err_0,
{
}

} // verus!
