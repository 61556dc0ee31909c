//! Reading and writing the fields of JSON documents.

use serde_json::Value;
use vstd::prelude::*;

use crate::json;
use crate::json::Json;
use crate::text;

verus! {

/// Why a document is not what it should be.
#[derive(Debug, Clone, Copy, PartialEq, Eq)]
pub enum ProtocolError {
    /// The document has not the shape of a record.
    NotARecord,
    /// A field holds a value of the wrong kind.
    Invalid { field: &'static str },
    /// A required field is absent.
    Missing { field: &'static str },
}

/// What a [`ProtocolError`] says.
pub enum ProtocolFault {
    NotARecord,
    Invalid(Seq<char>),
    Missing(Seq<char>),
}

impl View for ProtocolError {
    type V = ProtocolFault;

    open spec fn view(&self) -> ProtocolFault {
        match self {
            ProtocolError::NotARecord => ProtocolFault::NotARecord,
            ProtocolError::Invalid { field } => ProtocolFault::Invalid(field@),
            ProtocolError::Missing { field } => ProtocolFault::Missing(field@),
        }
    }
}

// ---------------------------------------------------------------------------
// Fields
// ---------------------------------------------------------------------------

/// A field that may be absent or null and otherwise has to be a text.
pub open spec fn optional_text_field(
    fields: Map<Seq<char>, Json>,
    key: Seq<char>,
) -> Result<Option<Seq<char>>, ProtocolFault> {
    if !fields.contains_key(key) {
        Ok(None)
    } else {
        match fields[key] {
            Json::Null => Ok(None),
            Json::Text(s) => Ok(Some(s)),
            _ => Err(ProtocolFault::Invalid(key)),
        }
    }
}

/// A field that may be absent, which means `false`, and otherwise has to be a
/// truth value.
pub open spec fn flag_field(fields: Map<Seq<char>, Json>, key: Seq<char>) -> Result<
    bool,
    ProtocolFault,
> {
    if !fields.contains_key(key) {
        Ok(false)
    } else {
        match fields[key] {
            Json::Bool(b) => Ok(b),
            _ => Err(ProtocolFault::Invalid(key)),
        }
    }
}

/// Whether a value is a token id.
pub open spec fn is_token(item: Json) -> bool {
    item matches Json::Unsigned(n) && n <= u32::MAX
}

/// The token id that a value is.
pub open spec fn token_of(item: Json) -> u32 {
    match item {
        Json::Unsigned(n) => n as u32,
        _ => 0,
    }
}

/// The token ids in an array, if every item is one.
pub open spec fn tokens_in(value: Json) -> Option<Seq<u32>> {
    match value {
        Json::Array(items) => if forall|i: int|
            0 <= i < items.len() ==> is_token(#[trigger] items[i]) {
            Some(items.map_values(|item: Json| token_of(item)))
        } else {
            None
        },
        _ => None,
    }
}

/// Token ids as an array.
pub open spec fn token_array(tokens: Seq<u32>) -> Json {
    Json::Array(tokens.map_values(|t: u32| Json::Unsigned(t as u64)))
}

pub(crate) fn read_optional_text(
    fields: &serde_json::Map<String, Value>,
    key: &'static str,
) -> (r: Result<Option<String>, ProtocolError>)
    ensures
        match r {
            Ok(s) => optional_text_field(json::fields_of(*fields), key@) == Ok::<
                Option<Seq<char>>,
                ProtocolFault,
            >(text::optional_text(s)),
            Err(e) => optional_text_field(json::fields_of(*fields), key@) == Err::<
                Option<Seq<char>>,
                ProtocolFault,
            >(e@),
        },
{
    match json::field(fields, key) {
        None => Ok(None),
        Some(value) => if value.is_null() {
            Ok(None)
        } else {
            match value.as_str() {
                Some(s) => Ok(Some(s.to_owned())),
                None => Err(ProtocolError::Invalid { field: key }),
            }
        },
    }
}

pub(crate) fn read_flag(fields: &serde_json::Map<String, Value>, key: &'static str) -> (r: Result<
    bool,
    ProtocolError,
>)
    ensures
        match r {
            Ok(b) => flag_field(json::fields_of(*fields), key@) == Ok::<bool, ProtocolFault>(b),
            Err(e) => flag_field(json::fields_of(*fields), key@) == Err::<bool, ProtocolFault>(e@),
        },
{
    match json::field(fields, key) {
        None => Ok(false),
        Some(value) => match value.as_bool() {
            Some(b) => Ok(b),
            None => Err(ProtocolError::Invalid { field: key }),
        },
    }
}

pub(crate) fn read_tokens(value: &Value) -> (r: Option<Vec<u32>>)
    ensures
        match r {
            Some(tokens) => tokens_in(json::json_of(*value)) == Some(tokens@),
            None => tokens_in(json::json_of(*value)) is None,
        },
{
    let items = match value.as_array() {
        Some(items) => items,
        None => return None,
    };
    let ghost held = json::items_of(items@);
    let mut tokens: Vec<u32> = Vec::new();
    let mut i: usize = 0;
    while i < items.len()
        invariant
            i <= items.len(),
            held == json::items_of(items@),
            json::json_of(*value) == Json::Array(held),
            tokens@.len() == i,
            forall|j: int|
                0 <= j < i ==> is_token(#[trigger] held[j]) && tokens@[j] == token_of(held[j]),
        decreases items.len() - i,
    {
        match items[i].as_u64() {
            Some(n) => {
                if n > u32::MAX as u64 {
                    proof {
                        assert(!is_token(held[i as int]));
                    }
                    return None;
                }
                tokens.push(n as u32);
            },
            None => {
                proof {
                    assert(!is_token(held[i as int]));
                }
                return None;
            },
        }
        i = i + 1;
    }
    proof {
        assert(tokens@ =~= held.map_values(|item: Json| token_of(item)));
    }
    Some(tokens)
}

pub(crate) fn write_tokens(tokens: &Vec<u32>) -> (r: Value)
    ensures
        json::json_of(r) == token_array(tokens@),
{
    let mut items: Vec<Value> = Vec::new();
    let mut i: usize = 0;
    while i < tokens.len()
        invariant
            i <= tokens.len(),
            items@.len() == i,
            forall|j: int|
                0 <= j < i ==> json::json_of(#[trigger] items@[j]) == Json::Unsigned(
                    tokens@[j] as u64,
                ),
        decreases tokens.len() - i,
    {
        items.push(json::number(tokens[i] as u64));
        i = i + 1;
    }
    proof {
        assert(json::items_of(items@) =~= tokens@.map_values(|t: u32| Json::Unsigned(t as u64)));
    }
    json::array(items)
}

/// A field with a value, unless there is none.
pub open spec fn with_optional(
    fields: Map<Seq<char>, Json>,
    key: Seq<char>,
    value: Option<Json>,
) -> Map<Seq<char>, Json> {
    match value {
        Some(v) => fields.insert(key, v),
        None => fields,
    }
}

/// An optional text as an optional field value.
pub open spec fn text_value(value: Option<Seq<char>>) -> Option<Json> {
    match value {
        Some(s) => Some(Json::Text(s)),
        None => None,
    }
}

/// What an optional JSON value holds.
pub open spec fn optional_json(value: Option<Value>) -> Option<Json> {
    match value {
        Some(v) => Some(json::json_of(v)),
        None => None,
    }
}

/// A field of any kind that may be absent or null.
pub open spec fn optional_field(fields: Map<Seq<char>, Json>, key: Seq<char>) -> Option<Json> {
    if fields.contains_key(key) && fields[key] != Json::Null {
        Some(fields[key])
    } else {
        None
    }
}

pub(crate) fn read_optional(fields: &serde_json::Map<String, Value>, key: &str) -> (r: Option<Value>)
    ensures
        optional_json(r) == optional_field(json::fields_of(*fields), key@),
{
    match json::field(fields, key) {
        Some(value) => if value.is_null() {
            None
        } else {
            Some(value.clone())
        },
        None => None,
    }
}

pub(crate) fn read_index(value: &Value) -> (r: Option<u32>)
    ensures
        r == (if is_token(json::json_of(*value)) {
            Some(token_of(json::json_of(*value)))
        } else {
            None
        }),
{
    match value.as_u64() {
        Some(n) => if n > u32::MAX as u64 {
            None
        } else {
            Some(n as u32)
        },
        None => None,
    }
}

pub(crate) proof fn lemma_token_array_reads_back(tokens: Seq<u32>)
    ensures
        tokens_in(token_array(tokens)) == Some(tokens),
{
    let items = tokens.map_values(|t: u32| Json::Unsigned(t as u64));
    assert forall|i: int| 0 <= i < items.len() implies is_token(#[trigger] items[i]) by {}
    assert(items.map_values(|item: Json| token_of(item)) =~= tokens);
}

pub(crate) proof fn lemma_tokens_round_trip(value: Json)
    requires
        tokens_in(value) is Some,
    ensures
        token_array(tokens_in(value)->0) == value,
{
    let items = value->Array_0;
    let tokens = tokens_in(value)->0;
    assert(tokens.map_values(|t: u32| Json::Unsigned(t as u64)) =~= items) by {
        assert forall|i: int| 0 <= i < items.len() implies Json::Unsigned(tokens[i] as u64)
            == items[i] by {
            assert(is_token(items[i]));
        }
    }
}

/// A field that may be absent and otherwise has to be an unsigned number within
/// range.
pub open spec fn unsigned_field(fields: Map<Seq<char>, Json>, key: Seq<char>, max: u64) -> Result<
    Option<u64>,
    ProtocolFault,
> {
    if !fields.contains_key(key) {
        Ok(None)
    } else {
        match fields[key] {
            Json::Unsigned(n) => if n <= max {
                Ok(Some(n))
            } else {
                Err(ProtocolFault::Invalid(key))
            },
            _ => Err(ProtocolFault::Invalid(key)),
        }
    }
}

/// A field that may be absent or null and otherwise has to be an unsigned number
/// within range.
pub open spec fn optional_unsigned_field(
    fields: Map<Seq<char>, Json>,
    key: Seq<char>,
    max: u64,
) -> Result<Option<u64>, ProtocolFault> {
    if fields.contains_key(key) && fields[key] == Json::Null {
        Ok(None)
    } else {
        unsigned_field(fields, key, max)
    }
}

/// A field that may be absent and otherwise has to be a text.
pub open spec fn text_field(fields: Map<Seq<char>, Json>, key: Seq<char>) -> Result<
    Option<Seq<char>>,
    ProtocolFault,
> {
    if !fields.contains_key(key) {
        Ok(None)
    } else {
        match fields[key] {
            Json::Text(s) => Ok(Some(s)),
            _ => Err(ProtocolFault::Invalid(key)),
        }
    }
}

/// An optional number as an optional field value.
pub open spec fn number_value(n: Option<u64>) -> Option<Json> {
    match n {
        Some(n) => Some(Json::Unsigned(n)),
        None => None,
    }
}

pub(crate) fn read_unsigned(
    fields: &serde_json::Map<String, Value>,
    key: &'static str,
    max: u64,
) -> (r: Result<Option<u64>, ProtocolError>)
    ensures
        match r {
            Ok(n) => unsigned_field(json::fields_of(*fields), key@, max) == Ok::<
                Option<u64>,
                ProtocolFault,
            >(n),
            Err(e) => unsigned_field(json::fields_of(*fields), key@, max) == Err::<
                Option<u64>,
                ProtocolFault,
            >(e@),
        },
{
    match json::field(fields, key) {
        None => Ok(None),
        Some(value) => match value.as_u64() {
            Some(n) => if n <= max {
                Ok(Some(n))
            } else {
                Err(ProtocolError::Invalid { field: key })
            },
            None => Err(ProtocolError::Invalid { field: key }),
        },
    }
}

pub(crate) fn read_optional_unsigned(
    fields: &serde_json::Map<String, Value>,
    key: &'static str,
    max: u64,
) -> (r: Result<Option<u64>, ProtocolError>)
    ensures
        match r {
            Ok(n) => optional_unsigned_field(json::fields_of(*fields), key@, max) == Ok::<
                Option<u64>,
                ProtocolFault,
            >(n),
            Err(e) => optional_unsigned_field(json::fields_of(*fields), key@, max) == Err::<
                Option<u64>,
                ProtocolFault,
            >(e@),
        },
{
    let null = match json::field(fields, key) {
        Some(value) => value.is_null(),
        None => false,
    };
    if null {
        Ok(None)
    } else {
        read_unsigned(fields, key, max)
    }
}

pub(crate) fn read_text(fields: &serde_json::Map<String, Value>, key: &'static str) -> (r: Result<
    Option<String>,
    ProtocolError,
>)
    ensures
        match r {
            Ok(s) => text_field(json::fields_of(*fields), key@) == Ok::<
                Option<Seq<char>>,
                ProtocolFault,
            >(text::optional_text(s)),
            Err(e) => text_field(json::fields_of(*fields), key@) == Err::<
                Option<Seq<char>>,
                ProtocolFault,
            >(e@),
        },
{
    match json::field(fields, key) {
        None => Ok(None),
        Some(value) => match value.as_str() {
            Some(s) => Ok(Some(s.to_owned())),
            None => Err(ProtocolError::Invalid { field: key }),
        },
    }
}

/// Set a text field, unless there is no text.
pub(crate) fn set_optional_text(
    fields: &mut serde_json::Map<String, Value>,
    key: &str,
    value: &Option<String>,
)
    ensures
        json::fields_of(*final(fields)) == with_optional(
            json::fields_of(*old(fields)),
            key@,
            text_value(text::optional_text(*value)),
        ),
{
    if let Some(s) = value {
        json::set(fields, key, json::text(s.as_str()));
    }
}

/// Set a number field, unless there is no number.
pub(crate) fn set_optional_number(
    fields: &mut serde_json::Map<String, Value>,
    key: &str,
    value: Option<u64>,
)
    ensures
        json::fields_of(*final(fields)) == with_optional(
            json::fields_of(*old(fields)),
            key@,
            number_value(value),
        ),
{
    if let Some(n) = value {
        json::set(fields, key, json::number(n));
    }
}

// ---------------------------------------------------------------------------
// Records
// ---------------------------------------------------------------------------

/// Items as fields, each under the name at its position.
pub open spec fn by_position(items: Seq<Json>, names: Seq<Seq<char>>) -> Map<Seq<char>, Json>
    decreases items.len(),
{
    if items.len() == 0 {
        json::no_fields()
    } else {
        by_position(items.drop_last(), names).insert(names[items.len() - 1], items.last())
    }
}

/// The fields of a record. It is written as an object, or as an array of its fields
/// in order, of which the last ones may be left out down to a least number.
pub open spec fn record_fields(value: Json, names: Seq<Seq<char>>, least: nat) -> Option<
    Map<Seq<char>, Json>,
> {
    match value {
        Json::Object(fields) => Some(fields),
        Json::Array(items) => if least <= items.len() <= names.len() {
            Some(by_position(items, names))
        } else {
            None
        },
        _ => None,
    }
}

/// The characters of each name.
pub open spec fn name_views(names: Seq<&'static str>) -> Seq<Seq<char>> {
    names.map_values(|name: &'static str| name@)
}

/// The fields of a record that is written as an object or as an array.
pub(crate) fn read_record(value: &Value, names: &Vec<&'static str>, least: usize) -> (r: Option<
    serde_json::Map<String, Value>,
>)
    ensures
        match r {
            Some(fields) => record_fields(
                json::json_of(*value),
                name_views(names@),
                least as nat,
            ) == Some(json::fields_of(fields)),
            None => record_fields(
                json::json_of(*value),
                name_views(names@),
                least as nat,
            ) is None,
        },
{
    if let Some(fields) = value.as_object() {
        return Some(fields.clone());
    }
    let items = match value.as_array() {
        Some(items) => items,
        None => return None,
    };
    if items.len() < least || items.len() > names.len() {
        return None;
    }
    let ghost held = json::items_of(items@);
    let ghost listed = name_views(names@);
    let mut fields: serde_json::Map<String, Value> = serde_json::Map::new();
    let mut i: usize = 0;
    proof {
        assert(held.take(0) =~= Seq::<Json>::empty());
    }
    while i < items.len()
        invariant
            i <= items.len(),
            items.len() <= names.len(),
            held == json::items_of(items@),
            listed == name_views(names@),
            json::fields_of(fields) == by_position(held.take(i as int), listed),
        decreases items.len() - i,
    {
        json::set(&mut fields, names[i], items[i].clone());
        i = i + 1;
        proof {
            assert(held.take(i as int).drop_last() =~= held.take(i - 1));
            assert(held.take(i as int).last() == held[i - 1]);
        }
    }
    proof {
        assert(held.take(held.len() as int) =~= held);
    }
    Some(fields)
}

// ---------------------------------------------------------------------------
// Laws
// ---------------------------------------------------------------------------

/// An optional text is read from a text, is absent where the field is absent or null, and
/// anything else is refused by the field's name; a text that may not be null is refused
/// then too.
pub proof fn texts_are_read_as_they_are(fields: Map<Seq<char>, Json>, key: Seq<char>)
    ensures
        !fields.contains_key(key) ==> optional_text_field(fields, key) == Ok::<
            Option<Seq<char>>,
            ProtocolFault,
        >(None) && text_field(fields, key) == Ok::<Option<Seq<char>>, ProtocolFault>(None),
        fields.contains_key(key) ==> match fields[key] {
            Json::Text(s) => optional_text_field(fields, key) == Ok::<
                Option<Seq<char>>,
                ProtocolFault,
            >(Some(s)) && text_field(fields, key) == Ok::<Option<Seq<char>>, ProtocolFault>(
                Some(s),
            ),
            Json::Null => optional_text_field(fields, key) == Ok::<
                Option<Seq<char>>,
                ProtocolFault,
            >(None) && text_field(fields, key) == Err::<Option<Seq<char>>, ProtocolFault>(
                ProtocolFault::Invalid(key),
            ),
            _ => optional_text_field(fields, key) == Err::<Option<Seq<char>>, ProtocolFault>(
                ProtocolFault::Invalid(key),
            ) && text_field(fields, key) == Err::<Option<Seq<char>>, ProtocolFault>(
                ProtocolFault::Invalid(key),
            ),
        },
{
}

/// A flag is read from a truth value, is false where the field is absent, and anything
/// else, null included, is refused by the field's name.
pub proof fn flags_are_read_as_they_are(fields: Map<Seq<char>, Json>, key: Seq<char>)
    ensures
        !fields.contains_key(key) ==> flag_field(fields, key) == Ok::<bool, ProtocolFault>(false),
        fields.contains_key(key) ==> match fields[key] {
            Json::Bool(b) => flag_field(fields, key) == Ok::<bool, ProtocolFault>(b),
            _ => flag_field(fields, key) == Err::<bool, ProtocolFault>(ProtocolFault::Invalid(key)),
        },
{
}

/// A number is read from an unsigned number within range and is absent where the field
/// is; anything else is refused by the field's name, but for null where that is allowed.
pub proof fn numbers_are_read_as_they_are(fields: Map<Seq<char>, Json>, key: Seq<char>, max: u64)
    ensures
        !fields.contains_key(key) ==> unsigned_field(fields, key, max) == Ok::<
            Option<u64>,
            ProtocolFault,
        >(None) && optional_unsigned_field(fields, key, max) == Ok::<Option<u64>, ProtocolFault>(
            None,
        ),
        fields.contains_key(key) && fields[key] == Json::Null ==> unsigned_field(fields, key, max)
            == Err::<Option<u64>, ProtocolFault>(ProtocolFault::Invalid(key))
            && optional_unsigned_field(fields, key, max) == Ok::<Option<u64>, ProtocolFault>(None),
        fields.contains_key(key) && fields[key] != Json::Null ==> unsigned_field(fields, key, max)
            == optional_unsigned_field(fields, key, max),
        fields.contains_key(key) ==> (fields[key] matches Json::Unsigned(n) ==> (if n <= max {
            unsigned_field(fields, key, max) == Ok::<Option<u64>, ProtocolFault>(Some(n))
        } else {
            unsigned_field(fields, key, max) == Err::<Option<u64>, ProtocolFault>(
                ProtocolFault::Invalid(key),
            )
        })),
        fields.contains_key(key) && !(fields[key] is Unsigned) ==> unsigned_field(fields, key, max)
            == Err::<Option<u64>, ProtocolFault>(ProtocolFault::Invalid(key)),
{
}

/// A field of any kind is read as it is, and is absent where it is absent or null.
pub proof fn values_are_read_as_they_are(fields: Map<Seq<char>, Json>, key: Seq<char>)
    ensures
        optional_field(fields, key) is None <==> !fields.contains_key(key) || fields[key]
            == Json::Null,
        optional_field(fields, key) is Some ==> optional_field(fields, key)->0 == fields[key],
{
}

/// Some tokens are read exactly from an array of those numbers, in that order; and an
/// array with an item that is no number up to the largest token is refused.
pub proof fn tokens_are_the_items(value: Json, tokens: Seq<u32>)
    ensures
        tokens_in(value) == Some(tokens) <==> (value matches Json::Array(items) && items.len()
            == tokens.len() && forall|i: int|
            0 <= i < items.len() ==> #[trigger] items[i] == Json::Unsigned(tokens[i] as u64)),
        tokens_in(value) is None <==> !(value is Array) || exists|i: int|
            0 <= i < value->Array_0.len() && !((#[trigger] value->Array_0[i]) is Unsigned
                && value->Array_0[i]->Unsigned_0 <= u32::MAX),
        token_array(tokens) matches Json::Array(items) && items.len() == tokens.len() && forall|
            i: int,
        |
            0 <= i < tokens.len() ==> #[trigger] items[i] == Json::Unsigned(tokens[i] as u64),
{
    if value is Array {
        let items = value->Array_0;
        if tokens_in(value) == Some(tokens) {
            assert forall|i: int| 0 <= i < items.len() implies #[trigger] items[i]
                == Json::Unsigned(tokens[i] as u64) by {
                assert(is_token(items[i]));
                assert(tokens[i] == token_of(items[i]));
            }
        }
        if items.len() == tokens.len() && forall|i: int|
            0 <= i < items.len() ==> #[trigger] items[i] == Json::Unsigned(tokens[i] as u64) {
            assert forall|i: int| 0 <= i < items.len() implies is_token(#[trigger] items[i]) by {}
            assert(items.map_values(|item: Json| token_of(item)) =~= tokens);
        }
        if tokens_in(value) is None {
            let i = choose|i: int| 0 <= i < items.len() && !is_token(#[trigger] items[i]);
            assert(0 <= i < items.len());
        }
    }
}

/// A value that is there is written under its key beside the other fields, and one that
/// is not leaves them as they are.
pub proof fn present_values_are_written(
    fields: Map<Seq<char>, Json>,
    key: Seq<char>,
    other: Seq<char>,
    value: Json,
    s: Seq<char>,
    n: u64,
)
    ensures
        with_optional(fields, key, None) == fields,
        with_optional(fields, key, Some(value)).contains_key(key),
        with_optional(fields, key, Some(value))[key] == value,
        other != key ==> (with_optional(fields, key, Some(value)).contains_key(other)
            <==> fields.contains_key(other)),
        other != key && fields.contains_key(other) ==> with_optional(fields, key, Some(value))[other]
            == fields[other],
        text_value(Some(s)) == Some(Json::Text(s)),
        text_value(None) is None,
        number_value(Some(n)) == Some(Json::Unsigned(n)),
        number_value(None) is None,
{
}

/// A record that is written as an array has each item under the name at its position and
/// nothing else; too few or too many items are no record. One that is written as an
/// object has its own fields.
pub proof fn records_are_read_by_position(
    items: Seq<Json>,
    names: Seq<Seq<char>>,
    least: nat,
    fields: Map<Seq<char>, Json>,
    key: Seq<char>,
)
    requires
        names.no_duplicates(),
    ensures
        record_fields(Json::Object(fields), names, least) == Some(fields),
        record_fields(Json::Array(items), names, least) is Some <==> least <= items.len()
            && items.len() <= names.len(),
        record_fields(Json::Array(items), names, least) matches Some(read) ==> {
            &&& forall|i: int|
                0 <= i < items.len() ==> read.contains_key(#[trigger] names[i]) && read[names[i]]
                    == items[i]
            &&& read.contains_key(key) <==> names.take(items.len() as int).contains(key)
        },
        record_fields(Json::Null, names, least) is None,
{
    if items.len() <= names.len() {
        lemma_by_position(items, names, key);
    }
}

proof fn lemma_by_position(items: Seq<Json>, names: Seq<Seq<char>>, key: Seq<char>)
    requires
        names.no_duplicates(),
        items.len() <= names.len(),
    ensures
        forall|i: int|
            0 <= i < items.len() ==> by_position(items, names).contains_key(#[trigger] names[i])
                && by_position(items, names)[names[i]] == items[i],
        by_position(items, names).contains_key(key) <==> names.take(items.len() as int).contains(
            key,
        ),
    decreases items.len(),
{
    if items.len() > 0 {
        let n = items.len() - 1;
        let rest = items.drop_last();
        lemma_by_position(rest, names, key);
        let shorter = names.take(n);
        let longer = names.take(n + 1);
        assert(longer =~= shorter.push(names[n]));
        assert forall|i: int| 0 <= i < items.len() implies by_position(items, names).contains_key(
            #[trigger] names[i],
        ) && by_position(items, names)[names[i]] == items[i] by {
            if i < n {
                assert(rest[i] == items[i]);
                assert(names[i] != names[n]);
            }
        }
        if longer.contains(key) && key != names[n] {
            let i = choose|i: int| 0 <= i < longer.len() && longer[i] == key;
            assert(shorter[i] == key);
        }
        if shorter.contains(key) {
            let i = choose|i: int| 0 <= i < shorter.len() && shorter[i] == key;
            assert(longer[i] == key);
        }
        assert(longer[n] == names[n]);
    } else {
        assert(names.take(0).len() == 0);
    }
}

/// What a protocol error says is what it holds.
pub proof fn protocol_error_says_what_it_holds(field: &'static str)
    ensures
        ProtocolError::NotARecord@ == ProtocolFault::NotARecord,
        (ProtocolError::Invalid { field })@ == ProtocolFault::Invalid(field@),
        (ProtocolError::Missing { field })@ == ProtocolFault::Missing(field@),
{
}

/// What an optional value holds is what the value does.
pub proof fn optional_json_is_the_value(value: Value)
    ensures
        optional_json(Some(value)) == Some(json::json_of(value)),
        optional_json(None) is None,
{
}

} // verus!
