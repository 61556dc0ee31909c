//! The JSON form of what the router and the selection service exchange.

use std::collections::{HashMap, HashSet};

use serde_json::Value;
use vstd::prelude::*;

use crate::collections;
use crate::collections::{ascending_hash_members, ascending_hash_ranks};
use crate::json;
use crate::json::Json;
use crate::replica_catalog;
use crate::replica_catalog::{CatalogRecordView, CatalogRecordWire};
use crate::selection_backend;
use crate::selection_backend::{
    OverlapSummary, SelectRequest, SelectRequestView, SelectResponse, SelectResponseView,
    WorkerPatch, WorkerRegistration, WorkerRegistrationView,
};
use crate::text;
use crate::text::{same_text, to_decimal, Unsigned};
use crate::wire;
use crate::wire::{
    read_flag, read_optional_text, read_optional_unsigned, read_record, read_text, read_unsigned,
    set_optional_number, set_optional_text, write_tokens, ProtocolError, ProtocolFault,
};

verus! {

// ---------------------------------------------------------------------------
// Texts by rank
// ---------------------------------------------------------------------------

/// Whether a name is the decimal form of a rank.
pub open spec fn names_rank(name: Seq<char>, rank: u32) -> bool {
    name == text::decimal(rank as nat)
}

/// Texts by rank as an object, each rank named in decimal.
pub open spec fn rank_fields(texts: Map<u32, Seq<char>>) -> Map<Seq<char>, Json> {
    Map::new(
        |name: Seq<char>|
            exists|rank: u32| #[trigger] texts.contains_key(rank) && names_rank(name, rank),
        |name: Seq<char>| Json::Text(texts[text::digits_value(name) as u32]),
    )
}

proof fn lemma_rank_named(name: Seq<char>, rank: u32)
    requires
        names_rank(name, rank),
    ensures
        text::digits_value(name) as u32 == rank,
        text::digits_value(name) == rank,
        text::unsigned_of(name, u32::MAX as nat) == Some(rank as nat),
{
    text::decimal_is_faithful(rank as nat);
    assert('0' <= name[0] <= '9');
}

fn write_texts_by_rank(texts: &HashMap<u32, String>) -> (r: Value)
    ensures
        json::json_of(r) == Json::Object(rank_fields(selection_backend::texts_by_rank(texts@))),
{
    let ranks = ascending_hash_ranks(texts);
    let ghost held = selection_backend::texts_by_rank(texts@);
    let mut fields: serde_json::Map<String, Value> = serde_json::Map::new();
    let mut i: usize = 0;
    while i < ranks.len()
        invariant
            i <= ranks.len(),
            held == selection_backend::texts_by_rank(texts@),
            ranks@.to_set() == texts@.dom(),
            forall|name: Seq<char>| #[trigger]
                json::fields_of(fields).contains_key(name) <==> exists|j: int|
                    0 <= j < i && names_rank(name, #[trigger] ranks@[j]),
            forall|name: Seq<char>| #[trigger]
                json::fields_of(fields).contains_key(name) ==> json::fields_of(fields)[name]
                    == Json::Text(held[text::digits_value(name) as u32]),
        decreases ranks.len() - i,
    {
        let rank: u32 = ranks[i];
        let ghost before = json::fields_of(fields);
        proof {
            assert(ranks@.to_set().contains(rank));
            assert(texts@.contains_key(rank));
        }
        if let Some(value) = texts.get(&rank) {
            let name = to_decimal(rank as u64);
            json::set(&mut fields, name.as_str(), json::text(value.as_str()));
            proof {
                lemma_rank_named(name@, rank);
                assert(json::fields_of(fields) == before.insert(name@, Json::Text(held[rank])));
            }
        }
        i = i + 1;
        proof {
            assert forall|name: Seq<char>| #[trigger]
                json::fields_of(fields).contains_key(name) <==> exists|j: int|
                    0 <= j < i && names_rank(name, #[trigger] ranks@[j]) by {
                assert(before.contains_key(name) <==> exists|j: int|
                    0 <= j < i - 1 && names_rank(name, #[trigger] ranks@[j]));
                assert(ranks@[i - 1] == rank);
            }
        }
    }
    proof {
        let wanted = rank_fields(held);
        assert forall|name: Seq<char>| #[trigger]
            json::fields_of(fields).contains_key(name) == wanted.contains_key(name) by {
            if json::fields_of(fields).contains_key(name) {
                let j = choose|j: int| 0 <= j < ranks@.len() && names_rank(
                    name,
                    #[trigger] ranks@[j],
                );
                assert(ranks@.to_set().contains(ranks@[j]));
                assert(held.contains_key(ranks@[j]));
            }
            if wanted.contains_key(name) {
                let rank = choose|rank: u32| #[trigger]
                    held.contains_key(rank) && names_rank(name, rank);
                assert(ranks@.to_set().contains(rank));
                let j = choose|j: int| 0 <= j < ranks@.len() && ranks@[j] == rank;
                assert(names_rank(name, ranks@[j]));
            }
        }
        assert(json::fields_of(fields) =~= wanted);
    }
    json::object(fields)
}

/// Whether every field of an object is a text named by a rank.
pub open spec fn is_rank_fields(fields: Map<Seq<char>, Json>) -> bool {
    forall|name: Seq<char>| #[trigger]
        fields.contains_key(name) ==> fields[name] is Text && exists|rank: u32|
            names_rank(name, rank)
}

/// The texts by rank in an object.
pub open spec fn texts_in(fields: Map<Seq<char>, Json>) -> Map<u32, Seq<char>> {
    Map::new(
        |rank: u32| fields.contains_key(text::decimal(rank as nat)),
        |rank: u32| fields[text::decimal(rank as nat)]->Text_0,
    )
}

/// A field that may be absent, which means no texts, and otherwise has to be an
/// object of texts by rank.
pub open spec fn rank_texts_field(fields: Map<Seq<char>, Json>, key: Seq<char>) -> Result<
    Map<u32, Seq<char>>,
    ProtocolFault,
> {
    if !fields.contains_key(key) {
        Ok(Map::empty())
    } else {
        match fields[key] {
            Json::Object(inner) => if is_rank_fields(inner) {
                Ok(texts_in(inner))
            } else {
                Err(ProtocolFault::Invalid(key))
            },
            _ => Err(ProtocolFault::Invalid(key)),
        }
    }
}

/// The rank that a name stands for: its decimal form, without a sign or leading
/// zeros.
fn rank_of(name: &str) -> (r: Option<u32>)
    ensures
        match r {
            Some(rank) => names_rank(name@, rank),
            None => forall|rank: u32| !names_rank(name@, rank),
        },
{
    match u32::parse_text(name) {
        Ok(rank) => {
            let canonical = to_decimal(rank as u64);
            if same_text(canonical.as_str(), name) {
                Some(rank)
            } else {
                proof {
                    assert forall|other: u32| !names_rank(name@, other) by {
                        if names_rank(name@, other) {
                            lemma_rank_named(name@, other);
                        }
                    }
                }
                None
            }
        },
        Err(_) => {
            proof {
                assert forall|other: u32| !names_rank(name@, other) by {
                    if names_rank(name@, other) {
                        lemma_rank_named(name@, other);
                    }
                }
            }
            None
        },
    }
}

fn read_rank_object(inner: &serde_json::Map<String, Value>) -> (r: Option<HashMap<u32, String>>)
    ensures
        match r {
            Some(texts) => is_rank_fields(json::fields_of(*inner))
                && selection_backend::texts_by_rank(texts@) == texts_in(json::fields_of(*inner)),
            None => !is_rank_fields(json::fields_of(*inner)),
        },
{
    let names = json::keys(inner);
    let ghost fields = json::fields_of(*inner);
    let ghost listed = text::texts(names@);
    let mut texts: HashMap<u32, String> = HashMap::new();
    let mut i: usize = 0;
    while i < names.len()
        invariant
            i <= names.len(),
            fields == json::fields_of(*inner),
            listed == text::texts(names@),
            listed.to_set() == fields.dom(),
            forall|j: int|
                0 <= j < i ==> fields[#[trigger] listed[j]] is Text && exists|rank: u32|
                    names_rank(listed[j], rank),
            forall|rank: u32| #[trigger]
                texts@.contains_key(rank) <==> exists|j: int|
                    0 <= j < i && names_rank(#[trigger] listed[j], rank),
            forall|rank: u32| #[trigger]
                texts@.contains_key(rank) ==> texts@[rank]@ == fields[text::decimal(
                    rank as nat,
                )]->Text_0,
        decreases names.len() - i,
    {
        let name = names[i].as_str();
        let ghost before = texts@;
        proof {
            assert(listed[i as int] == name@);
            assert(listed.to_set().contains(name@));
            assert(fields.contains_key(name@));
        }
        let rank: u32 = match rank_of(name) {
            Some(rank) => rank,
            None => return None,
        };
        let value = match json::field(inner, name) {
            Some(value) => value,
            None => return None,
        };
        match value.as_str() {
            Some(s) => {
                texts.insert(rank, s.to_owned());
                proof {
                    assert(texts@ == before.insert(rank, texts@[rank]));
                    assert(texts@[rank]@ == s@);
                    assert(name@ == text::decimal(rank as nat));
                }
            },
            None => return None,
        }
        i = i + 1;
        proof {
            assert forall|other: u32| #[trigger]
                texts@.contains_key(other) <==> exists|j: int|
                    0 <= j < i && names_rank(#[trigger] listed[j], other) by {
                assert(before.contains_key(other) <==> exists|j: int|
                    0 <= j < i - 1 && names_rank(#[trigger] listed[j], other));
                assert(names_rank(listed[i - 1], rank));
                if names_rank(listed[i - 1], other) {
                    lemma_rank_named(listed[i - 1], rank);
                    lemma_rank_named(listed[i - 1], other);
                }
            }
        }
    }
    proof {
        assert forall|name: Seq<char>| #[trigger] fields.contains_key(name) implies fields[name] is Text
            && exists|rank: u32| names_rank(name, rank) by {
            assert(listed.to_set().contains(name));
            let j = choose|j: int| 0 <= j < listed.len() && listed[j] == name;
            assert(fields[listed[j]] is Text);
        }
        let got = selection_backend::texts_by_rank(texts@);
        let wanted = texts_in(fields);
        assert forall|rank: u32| #[trigger] got.contains_key(rank) == wanted.contains_key(rank) by {
            let name = text::decimal(rank as nat);
            if texts@.contains_key(rank) {
                let j = choose|j: int| 0 <= j < listed.len() && names_rank(
                    #[trigger] listed[j],
                    rank,
                );
                assert(listed.to_set().contains(listed[j]));
            }
            if fields.contains_key(name) {
                assert(listed.to_set().contains(name));
                let j = choose|j: int| 0 <= j < listed.len() && listed[j] == name;
                assert(names_rank(listed[j], rank));
            }
        }
        assert(got =~= wanted);
    }
    Some(texts)
}

fn read_texts_by_rank(
    fields: &serde_json::Map<String, Value>,
    key: &'static str,
) -> (r: Result<HashMap<u32, String>, ProtocolError>)
    ensures
        match r {
            Ok(texts) => rank_texts_field(json::fields_of(*fields), key@) == Ok::<
                Map<u32, Seq<char>>,
                ProtocolFault,
            >(selection_backend::texts_by_rank(texts@)),
            Err(e) => rank_texts_field(json::fields_of(*fields), key@) == Err::<
                Map<u32, Seq<char>>,
                ProtocolFault,
            >(e@),
        },
{
    match json::field(fields, key) {
        None => {
            let texts: HashMap<u32, String> = HashMap::new();
            proof {
                assert(selection_backend::texts_by_rank(texts@) =~= Map::<u32, Seq<char>>::empty());
            }
            Ok(texts)
        },
        Some(value) => match value.as_object() {
            Some(inner) => match read_rank_object(inner) {
                Some(texts) => Ok(texts),
                None => Err(ProtocolError::Invalid { field: key }),
            },
            None => Err(ProtocolError::Invalid { field: key }),
        },
    }
}

// ---------------------------------------------------------------------------
// Requests to the selector
// ---------------------------------------------------------------------------

impl WorkerRegistrationView {
    /// The registration as it goes on the wire; what is absent is left out.
    pub open spec fn fields(self) -> Map<Seq<char>, Json> {
        let optional = wire::with_optional(
            wire::with_optional(
                wire::with_optional(
                    wire::with_optional(
                        json::no_fields(),
                        "replay_endpoint"@,
                        wire::text_value(self.replay_endpoint),
                    ),
                    "total_kv_blocks"@,
                    wire::number_value(self.total_kv_blocks),
                ),
                "max_num_batched_tokens"@,
                wire::number_value(self.max_num_batched_tokens),
            ),
            "stable_routing_id"@,
            wire::text_value(self.stable_routing_id),
        );
        optional.insert("worker_id"@, Json::Unsigned(self.worker_id)).insert(
            "model_name"@,
            Json::Text(self.model_name),
        ).insert("endpoint"@, Json::Text(self.endpoint)).insert(
            "block_size"@,
            Json::Unsigned(self.block_size as u64),
        ).insert("data_parallel_size"@, Json::Unsigned(self.data_parallel_size as u64)).insert(
            "kv_events_endpoints"@,
            Json::Object(rank_fields(self.kv_events_endpoints)),
        )
    }
}

impl WorkerRegistration {
    /// Body of `POST /workers`.
    pub fn to_value(&self) -> (r: Value)
        ensures
            json::json_of(r) == Json::Object(self@.fields()),
    {
        let mut fields: serde_json::Map<String, Value> = serde_json::Map::new();
        set_optional_text(&mut fields, "replay_endpoint", &self.replay_endpoint);
        set_optional_number(&mut fields, "total_kv_blocks", self.total_kv_blocks);
        set_optional_number(&mut fields, "max_num_batched_tokens", self.max_num_batched_tokens);
        set_optional_text(&mut fields, "stable_routing_id", &self.stable_routing_id);
        json::set(&mut fields, "worker_id", json::number(self.worker_id));
        json::set(&mut fields, "model_name", json::text(self.model_name.as_str()));
        json::set(&mut fields, "endpoint", json::text(self.endpoint.as_str()));
        json::set(&mut fields, "block_size", json::number(self.block_size as u64));
        json::set(
            &mut fields,
            "data_parallel_size",
            json::number(self.data_parallel_size as u64),
        );
        json::set(
            &mut fields,
            "kv_events_endpoints",
            write_texts_by_rank(&self.kv_events_endpoints),
        );
        json::object(fields)
    }
}

/// Ids as an array, smallest first.
pub open spec fn id_array(ids: Set<u64>) -> Json {
    Json::Array(collections::ascending_u64(ids).map_values(|id: u64| Json::Unsigned(id)))
}

fn write_ids(ids: &HashSet<u64>) -> (r: Value)
    ensures
        json::json_of(r) == id_array(ids@),
{
    let listed = ascending_hash_members(ids);
    let mut items: Vec<Value> = Vec::new();
    let mut i: usize = 0;
    while i < listed.len()
        invariant
            i <= listed.len(),
            items@.len() == i,
            forall|j: int|
                0 <= j < i ==> json::json_of(#[trigger] items@[j]) == Json::Unsigned(listed@[j]),
        decreases listed.len() - i,
    {
        items.push(json::number(listed[i]));
        i = i + 1;
    }
    proof {
        assert(json::items_of(items@) =~= listed@.map_values(|id: u64| Json::Unsigned(id)));
    }
    json::array(items)
}

impl SelectRequestView {
    /// The request as it goes on the wire, given the priority jump as a number;
    /// what is absent is left out.
    pub open spec fn fields(self, priority_jump: Option<Json>) -> Map<Seq<char>, Json> {
        let optional = wire::with_optional(
            wire::with_optional(
                wire::with_optional(
                    wire::with_optional(
                        wire::with_optional(
                            json::no_fields(),
                            "selection_id"@,
                            wire::text_value(self.selection_id),
                        ),
                        "reservation_id"@,
                        wire::text_value(self.reservation_id),
                    ),
                    "allowed_worker_ids"@,
                    match self.allowed_worker_ids {
                        Some(ids) => Some(id_array(ids)),
                        None => None,
                    },
                ),
                "priority_jump"@,
                priority_jump,
            ),
            "strict_priority"@,
            match self.strict_priority {
                Some(p) => Some(Json::Unsigned(p as u64)),
                None => None,
            },
        );
        optional.insert("model_name"@, Json::Text(self.model_name)).insert(
            "token_ids"@,
            wire::token_array(self.token_ids),
        )
    }
}

/// Whether `jump` is the priority jump of a request as a number: absent where there
/// is none, and otherwise what `number` makes of its bits.
pub open spec fn jump_as_number<F: Fn(u64) -> Value>(
    number: F,
    bits: Option<u64>,
    jump: Option<Value>,
) -> bool {
    match bits {
        Some(b) => jump is Some && call_ensures(number, (b,), jump->0),
        None => jump is None,
    }
}

impl SelectRequest {
    /// Body of `POST /select_and_reserve`. The prompt goes flat, as its token ids;
    /// `number` turns the bits of the priority jump into a JSON number.
    pub fn to_value<F: Fn(u64) -> Value>(&self, number: &F) -> (r: Value)
        requires
            self.priority_jump matches Some(bits) ==> call_requires(*number, (bits,)),
        ensures
            exists|jump: Option<Value>| #[trigger]
                jump_as_number(*number, self.priority_jump, jump) && json::json_of(r)
                    == Json::Object(self@.fields(wire::optional_json(jump))),
    {
        let mut fields: serde_json::Map<String, Value> = serde_json::Map::new();
        set_optional_text(&mut fields, "selection_id", &self.selection_id);
        set_optional_text(&mut fields, "reservation_id", &self.reservation_id);
        if let Some(ids) = &self.allowed_worker_ids {
            json::set(&mut fields, "allowed_worker_ids", write_ids(ids));
        }
        let jump = match self.priority_jump {
            Some(bits) => Some(number(bits)),
            None => None,
        };
        let ghost written = jump;
        if let Some(value) = jump {
            json::set(&mut fields, "priority_jump", value);
        }
        if let Some(p) = self.strict_priority {
            json::set(&mut fields, "strict_priority", json::number(p as u64));
        }
        json::set(&mut fields, "model_name", json::text(self.model_name.as_str()));
        json::set(&mut fields, "token_ids", write_tokens(&self.token_ids));
        proof {
            assert(jump_as_number(*number, self.priority_jump, written));
        }
        json::object(fields)
    }
}

impl WorkerPatch {
    /// The update as it goes on the wire; what is absent is left out.
    pub open spec fn fields(self) -> Map<Seq<char>, Json> {
        wire::with_optional(
            wire::with_optional(
                wire::with_optional(
                    wire::with_optional(
                        wire::with_optional(
                            json::no_fields(),
                            "endpoint"@,
                            wire::text_value(text::optional_text(self.endpoint)),
                        ),
                        "kv_events_endpoints"@,
                        match self.kv_events_endpoints {
                            Some(texts) => Some(
                                Json::Object(
                                    rank_fields(selection_backend::texts_by_rank(texts@)),
                                ),
                            ),
                            None => None,
                        },
                    ),
                    "replay_endpoint"@,
                    wire::text_value(text::optional_text(self.replay_endpoint)),
                ),
                "total_kv_blocks"@,
                wire::number_value(self.total_kv_blocks),
            ),
            "stable_routing_id"@,
            wire::text_value(text::optional_text(self.stable_routing_id)),
        )
    }

    /// Body of `PATCH /workers/{id}`.
    pub fn to_value(&self) -> (r: Value)
        ensures
            json::json_of(r) == Json::Object(self.fields()),
    {
        let mut fields: serde_json::Map<String, Value> = serde_json::Map::new();
        set_optional_text(&mut fields, "endpoint", &self.endpoint);
        if let Some(texts) = &self.kv_events_endpoints {
            json::set(&mut fields, "kv_events_endpoints", write_texts_by_rank(texts));
        }
        set_optional_text(&mut fields, "replay_endpoint", &self.replay_endpoint);
        set_optional_number(&mut fields, "total_kv_blocks", self.total_kv_blocks);
        set_optional_text(&mut fields, "stable_routing_id", &self.stable_routing_id);
        json::object(fields)
    }
}

/// Body of a replica-sync call: `{"endpoint": ...}`.
pub fn peer_body(peer_endpoint: &str) -> (r: Value)
    ensures
        json::json_of(r) == Json::Object(
            json::no_fields().insert("endpoint"@, Json::Text(peer_endpoint@)),
        ),
{
    let mut fields: serde_json::Map<String, Value> = serde_json::Map::new();
    json::set(&mut fields, "endpoint", json::text(peer_endpoint));
    json::object(fields)
}

// ---------------------------------------------------------------------------
// Answers of the selector
// ---------------------------------------------------------------------------

/// Whether a `/ready` answer says that the replica is ready.
pub open spec fn says_ready(value: Json) -> bool {
    match wire::record_fields(value, seq!["ready"@], 0) {
        Some(fields) => wire::flag_field(fields, "ready"@) == Ok::<bool, ProtocolFault>(true),
        None => false,
    }
}

/// Whether a `/ready` answer says that the replica is ready. An answer that cannot
/// be read does not.
pub fn is_ready(value: &Value) -> (r: bool)
    ensures
        r == says_ready(json::json_of(*value)),
{
    let names: Vec<&'static str> = vec!["ready"];
    proof {
        assert(wire::name_views(names@) =~= seq!["ready"@]);
    }
    match read_record(value, &names, 0) {
        Some(fields) => match read_flag(&fields, "ready") {
            Ok(ready) => ready,
            Err(_) => false,
        },
        None => false,
    }
}

/// An optional number that is known to fit.
pub open spec fn narrowed(n: Option<u64>) -> Option<u32> {
    match n {
        Some(n) => Some(n as u32),
        None => None,
    }
}

fn narrow(n: Option<u64>) -> (r: Option<u32>)
    requires
        n is Some ==> n->0 <= u32::MAX,
    ensures
        r == narrowed(n),
{
    match n {
        Some(n) => Some(n as u32),
        None => None,
    }
}

/// What is wrong with the fields of a catalog record: first a value of the wrong
/// kind, then a missing worker id.
pub open spec fn record_fault(fields: Map<Seq<char>, Json>) -> Option<ProtocolFault> {
    if wire::optional_unsigned_field(fields, "block_size"@, u32::MAX as u64) is Err {
        Some(ProtocolFault::Invalid("block_size"@))
    } else if wire::optional_unsigned_field(
        fields,
        "data_parallel_size"@,
        u32::MAX as u64,
    ) is Err {
        Some(ProtocolFault::Invalid("data_parallel_size"@))
    } else if wire::optional_text_field(fields, "endpoint"@) is Err {
        Some(ProtocolFault::Invalid("endpoint"@))
    } else if rank_texts_field(fields, "kv_events_endpoints"@) is Err {
        Some(ProtocolFault::Invalid("kv_events_endpoints"@))
    } else if wire::optional_unsigned_field(fields, "max_num_batched_tokens"@, u64::MAX) is Err {
        Some(ProtocolFault::Invalid("max_num_batched_tokens"@))
    } else if wire::text_field(fields, "model_name"@) is Err {
        Some(ProtocolFault::Invalid("model_name"@))
    } else if wire::optional_text_field(fields, "replay_endpoint"@) is Err {
        Some(ProtocolFault::Invalid("replay_endpoint"@))
    } else if wire::optional_text_field(fields, "stable_routing_id"@) is Err {
        Some(ProtocolFault::Invalid("stable_routing_id"@))
    } else if wire::optional_unsigned_field(fields, "total_kv_blocks"@, u64::MAX) is Err {
        Some(ProtocolFault::Invalid("total_kv_blocks"@))
    } else if wire::unsigned_field(fields, "worker_id"@, u64::MAX) is Err {
        Some(ProtocolFault::Invalid("worker_id"@))
    } else if !fields.contains_key("worker_id"@) {
        Some(ProtocolFault::Missing("worker_id"@))
    } else {
        None
    }
}

/// The record that some fields are, where nothing is wrong with them. Unknown
/// fields are ignored.
pub open spec fn record_in(fields: Map<Seq<char>, Json>) -> CatalogRecordView {
    CatalogRecordView {
        worker_id: wire::unsigned_field(fields, "worker_id"@, u64::MAX)->Ok_0->0,
        model_name: match wire::text_field(fields, "model_name"@)->Ok_0 {
            Some(name) => name,
            None => Seq::empty(),
        },
        endpoint: wire::optional_text_field(fields, "endpoint"@)->Ok_0,
        kv_events_endpoints: rank_texts_field(fields, "kv_events_endpoints"@)->Ok_0,
        replay_endpoint: wire::optional_text_field(fields, "replay_endpoint"@)->Ok_0,
        block_size: narrowed(
            wire::optional_unsigned_field(fields, "block_size"@, u32::MAX as u64)->Ok_0,
        ),
        data_parallel_size: narrowed(
            wire::optional_unsigned_field(fields, "data_parallel_size"@, u32::MAX as u64)->Ok_0,
        ),
        max_num_batched_tokens: wire::optional_unsigned_field(
            fields,
            "max_num_batched_tokens"@,
            u64::MAX,
        )->Ok_0,
        total_kv_blocks: wire::optional_unsigned_field(
            fields,
            "total_kv_blocks"@,
            u64::MAX,
        )->Ok_0,
        stable_routing_id: wire::optional_text_field(fields, "stable_routing_id"@)->Ok_0,
    }
}

/// The fields of a record, in order.
pub open spec fn record_names() -> Seq<Seq<char>> {
    seq![
        "worker_id"@,
        "model_name"@,
        "endpoint"@,
        "kv_events_endpoints"@,
        "replay_endpoint"@,
        "block_size"@,
        "data_parallel_size"@,
        "max_num_batched_tokens"@,
        "total_kv_blocks"@,
        "stable_routing_id"@,
    ]
}

/// The record that a value is, if it is one.
pub open spec fn record_of_value(value: Json) -> Result<CatalogRecordView, ProtocolFault> {
    match wire::record_fields(value, record_names(), 1) {
        Some(fields) => match record_fault(fields) {
            Some(fault) => Err(fault),
            None => Ok(record_in(fields)),
        },
        None => Err(ProtocolFault::NotARecord),
    }
}

impl CatalogRecordWire {
    /// Read one record of a `/workers` answer.
    pub fn from_value(value: &Value) -> (r: Result<CatalogRecordWire, ProtocolError>)
        ensures
            match r {
                Ok(record) => record_of_value(json::json_of(*value)) == Ok::<
                    CatalogRecordView,
                    ProtocolFault,
                >(record@),
                Err(e) => record_of_value(json::json_of(*value)) == Err::<
                    CatalogRecordView,
                    ProtocolFault,
                >(e@),
            },
    {
        let names: Vec<&'static str> = vec![
            "worker_id",
            "model_name",
            "endpoint",
            "kv_events_endpoints",
            "replay_endpoint",
            "block_size",
            "data_parallel_size",
            "max_num_batched_tokens",
            "total_kv_blocks",
            "stable_routing_id",
        ];
        proof {
            assert(wire::name_views(names@) =~= record_names());
        }
        let record = match read_record(value, &names, 1) {
            Some(record) => record,
            None => return Err(ProtocolError::NotARecord),
        };
        let fields = &record;
        let block_size = match read_optional_unsigned(fields, "block_size", u32::MAX as u64) {
            Ok(n) => narrow(n),
            Err(e) => return Err(e),
        };
        let data_parallel_size = match read_optional_unsigned(
            fields,
            "data_parallel_size",
            u32::MAX as u64,
        ) {
            Ok(n) => narrow(n),
            Err(e) => return Err(e),
        };
        let endpoint = match read_optional_text(fields, "endpoint") {
            Ok(s) => s,
            Err(e) => return Err(e),
        };
        let kv_events_endpoints = match read_texts_by_rank(fields, "kv_events_endpoints") {
            Ok(texts) => texts,
            Err(e) => return Err(e),
        };
        let max_num_batched_tokens = match read_optional_unsigned(
            fields,
            "max_num_batched_tokens",
            u64::MAX,
        ) {
            Ok(n) => n,
            Err(e) => return Err(e),
        };
        let model_name = match read_text(fields, "model_name") {
            Ok(Some(s)) => s,
            Ok(None) => String::new(),
            Err(e) => return Err(e),
        };
        let replay_endpoint = match read_optional_text(fields, "replay_endpoint") {
            Ok(s) => s,
            Err(e) => return Err(e),
        };
        let stable_routing_id = match read_optional_text(fields, "stable_routing_id") {
            Ok(s) => s,
            Err(e) => return Err(e),
        };
        let total_kv_blocks = match read_optional_unsigned(fields, "total_kv_blocks", u64::MAX) {
            Ok(n) => n,
            Err(e) => return Err(e),
        };
        let worker_id: u64 = match read_unsigned(fields, "worker_id", u64::MAX) {
            Ok(Some(n)) => n,
            Ok(None) => return Err(ProtocolError::Missing { field: "worker_id" }),
            Err(e) => return Err(e),
        };
        Ok(
            CatalogRecordWire {
                worker_id,
                model_name,
                endpoint,
                kv_events_endpoints,
                replay_endpoint,
                block_size,
                data_parallel_size,
                max_num_batched_tokens,
                total_kv_blocks,
                stable_routing_id,
            },
        )
    }
}

/// Whether every item of an array is a record.
pub open spec fn all_records(items: Seq<Json>) -> bool {
    forall|i: int| 0 <= i < items.len() ==> record_of_value(#[trigger] items[i]) is Ok
}

/// Read a `/workers` answer, if it is an array of records.
pub fn records_from_value(value: &Value) -> (r: Option<Vec<CatalogRecordWire>>)
    ensures
        match (json::json_of(*value), r) {
            (Json::Array(items), Some(records)) => all_records(items)
                && replica_catalog::record_views(records@) == items.map_values(
                |item: Json| record_of_value(item)->Ok_0,
            ),
            (Json::Array(items), None) => !all_records(items),
            (_, Some(_)) => false,
            (_, None) => true,
        },
{
    let items = match value.as_array() {
        Some(items) => items,
        None => return None,
    };
    let ghost held = json::items_of(items@);
    let mut records: Vec<CatalogRecordWire> = Vec::new();
    let mut i: usize = 0;
    while i < items.len()
        invariant
            i <= items.len(),
            held == json::items_of(items@),
            json::json_of(*value) == Json::Array(held),
            records@.len() == i,
            forall|j: int|
                0 <= j < i ==> record_of_value(#[trigger] held[j]) == Ok::<
                    CatalogRecordView,
                    ProtocolFault,
                >(records@[j]@),
        decreases items.len() - i,
    {
        match CatalogRecordWire::from_value(&items[i]) {
            Ok(record) => {
                records.push(record);
            },
            Err(_) => {
                proof {
                    assert(record_of_value(held[i as int]) is Err);
                }
                return None;
            },
        }
        i = i + 1;
    }
    proof {
        assert(replica_catalog::record_views(records@) =~= held.map_values(
            |item: Json| record_of_value(item)->Ok_0,
        ));
    }
    Some(records)
}

// ---------------------------------------------------------------------------
// Selections
// ---------------------------------------------------------------------------

/// A number field, or zero where it is absent.
pub open spec fn count_field(fields: Map<Seq<char>, Json>, key: Seq<char>, max: u64) -> Option<u64> {
    match wire::unsigned_field(fields, key, max) {
        Ok(Some(n)) => Some(n),
        Ok(None) => Some(0),
        Err(_) => None,
    }
}

fn read_count(fields: &serde_json::Map<String, Value>, key: &'static str, max: u64) -> (r: Option<u64>)
    ensures
        r == count_field(json::fields_of(*fields), key@, max),
        r is Some ==> r->0 <= max,
{
    match read_unsigned(fields, key, max) {
        Ok(Some(n)) => Some(n),
        Ok(None) => Some(0),
        Err(_) => None,
    }
}

/// The overlap summary that a value is, if it is one; absent counts are zero.
pub open spec fn overlap_in(value: Json) -> Option<OverlapSummary> {
    match wire::record_fields(value, seq!["longest_matched"@, "gpu"@, "cpu"@, "disk"@], 0) {
        Some(fields) => match (
            count_field(fields, "longest_matched"@, u32::MAX as u64),
            count_field(fields, "gpu"@, u32::MAX as u64),
            count_field(fields, "cpu"@, u32::MAX as u64),
            count_field(fields, "disk"@, u32::MAX as u64),
        ) {
            (Some(longest_matched), Some(gpu), Some(cpu), Some(disk)) => Some(
                OverlapSummary {
                    longest_matched: longest_matched as u32,
                    gpu: gpu as u32,
                    cpu: cpu as u32,
                    disk: disk as u32,
                },
            ),
            _ => None,
        },
        None => None,
    }
}

fn read_overlap(value: &Value) -> (r: Option<OverlapSummary>)
    ensures
        r == overlap_in(json::json_of(*value)),
{
    let names: Vec<&'static str> = vec!["longest_matched", "gpu", "cpu", "disk"];
    proof {
        assert(wire::name_views(names@) =~= seq!["longest_matched"@, "gpu"@, "cpu"@, "disk"@]);
    }
    let fields = match read_record(value, &names, 0) {
        Some(fields) => fields,
        None => return None,
    };
    match (
        read_count(&fields, "longest_matched", u32::MAX as u64),
        read_count(&fields, "gpu", u32::MAX as u64),
        read_count(&fields, "cpu", u32::MAX as u64),
        read_count(&fields, "disk", u32::MAX as u64),
    ) {
        (Some(longest_matched), Some(gpu), Some(cpu), Some(disk)) => Some(
            OverlapSummary {
                longest_matched: longest_matched as u32,
                gpu: gpu as u32,
                cpu: cpu as u32,
                disk: disk as u32,
            },
        ),
        _ => None,
    }
}

/// The overlap summary of a selection; absent means none.
pub open spec fn overlap_field(fields: Map<Seq<char>, Json>) -> Option<OverlapSummary> {
    if fields.contains_key("overlap"@) {
        overlap_in(fields["overlap"@])
    } else {
        Some(OverlapSummary { longest_matched: 0, gpu: 0, cpu: 0, disk: 0 })
    }
}

/// What is wrong with the fields of a selection: first a value of the wrong kind,
/// then a required field that is absent.
pub open spec fn selection_fault(fields: Map<Seq<char>, Json>) -> Option<ProtocolFault> {
    if wire::unsigned_field(fields, "block_size"@, u32::MAX as u64) is Err {
        Some(ProtocolFault::Invalid("block_size"@))
    } else if wire::unsigned_field(fields, "dp_rank"@, u32::MAX as u64) is Err {
        Some(ProtocolFault::Invalid("dp_rank"@))
    } else if wire::unsigned_field(fields, "effective_prefill_tokens"@, usize::MAX as u64) is Err {
        Some(ProtocolFault::Invalid("effective_prefill_tokens"@))
    } else if wire::text_field(fields, "endpoint"@) is Err {
        Some(ProtocolFault::Invalid("endpoint"@))
    } else if overlap_field(fields) is None {
        Some(ProtocolFault::Invalid("overlap"@))
    } else if wire::optional_text_field(fields, "reservation_id"@) is Err {
        Some(ProtocolFault::Invalid("reservation_id"@))
    } else if wire::optional_text_field(fields, "selection_id"@) is Err {
        Some(ProtocolFault::Invalid("selection_id"@))
    } else if wire::unsigned_field(fields, "worker_id"@, u64::MAX) is Err {
        Some(ProtocolFault::Invalid("worker_id"@))
    } else if !fields.contains_key("worker_id"@) {
        Some(ProtocolFault::Missing("worker_id"@))
    } else if !fields.contains_key("dp_rank"@) {
        Some(ProtocolFault::Missing("dp_rank"@))
    } else if !fields.contains_key("endpoint"@) {
        Some(ProtocolFault::Missing("endpoint"@))
    } else if !fields.contains_key("block_size"@) {
        Some(ProtocolFault::Missing("block_size"@))
    } else {
        None
    }
}

/// The selection that some fields are, where nothing is wrong with them. Unknown
/// fields are ignored.
pub open spec fn selection_in(fields: Map<Seq<char>, Json>) -> SelectResponseView {
    SelectResponseView {
        selection_id: wire::optional_text_field(fields, "selection_id"@)->Ok_0,
        reservation_id: wire::optional_text_field(fields, "reservation_id"@)->Ok_0,
        worker_id: wire::unsigned_field(fields, "worker_id"@, u64::MAX)->Ok_0->0,
        dp_rank: wire::unsigned_field(fields, "dp_rank"@, u32::MAX as u64)->Ok_0->0 as u32,
        endpoint: wire::text_field(fields, "endpoint"@)->Ok_0->0,
        block_size: wire::unsigned_field(fields, "block_size"@, u32::MAX as u64)->Ok_0->0 as u32,
        overlap: overlap_field(fields)->0,
        effective_prefill_tokens: count_field(
            fields,
            "effective_prefill_tokens"@,
            usize::MAX as u64,
        )->0 as usize,
    }
}

/// The fields of a selection, in order.
pub open spec fn selection_names() -> Seq<Seq<char>> {
    seq![
        "selection_id"@,
        "reservation_id"@,
        "worker_id"@,
        "dp_rank"@,
        "endpoint"@,
        "block_size"@,
        "overlap"@,
        "effective_prefill_tokens"@,
    ]
}

impl SelectResponse {
    /// Read the answer to `POST /select_and_reserve`.
    pub fn from_value(value: &Value) -> (r: Result<SelectResponse, ProtocolError>)
        ensures
            match (wire::record_fields(json::json_of(*value), selection_names(), 6), r) {
                (Some(fields), Ok(response)) => selection_fault(fields) is None && response@
                    == selection_in(fields),
                (Some(fields), Err(e)) => selection_fault(fields) == Some(e@),
                (None, Ok(_)) => false,
                (None, Err(e)) => e@ == ProtocolFault::NotARecord,
            },
    {
        let names: Vec<&'static str> = vec![
            "selection_id",
            "reservation_id",
            "worker_id",
            "dp_rank",
            "endpoint",
            "block_size",
            "overlap",
            "effective_prefill_tokens",
        ];
        proof {
            assert(wire::name_views(names@) =~= selection_names());
        }
        let record = match read_record(value, &names, 6) {
            Some(record) => record,
            None => return Err(ProtocolError::NotARecord),
        };
        let fields = &record;
        let block_size = match read_unsigned(fields, "block_size", u32::MAX as u64) {
            Ok(n) => n,
            Err(e) => return Err(e),
        };
        let dp_rank = match read_unsigned(fields, "dp_rank", u32::MAX as u64) {
            Ok(n) => n,
            Err(e) => return Err(e),
        };
        let effective_prefill_tokens: u64 = match read_unsigned(
            fields,
            "effective_prefill_tokens",
            usize::MAX as u64,
        ) {
            Ok(Some(n)) => n,
            Ok(None) => 0,
            Err(e) => return Err(e),
        };
        let endpoint = match read_text(fields, "endpoint") {
            Ok(s) => s,
            Err(e) => return Err(e),
        };
        let overlap = match json::field(fields, "overlap") {
            Some(overlap) => match read_overlap(overlap) {
                Some(overlap) => overlap,
                None => return Err(ProtocolError::Invalid { field: "overlap" }),
            },
            None => OverlapSummary::default(),
        };
        let reservation_id = match read_optional_text(fields, "reservation_id") {
            Ok(s) => s,
            Err(e) => return Err(e),
        };
        let selection_id = match read_optional_text(fields, "selection_id") {
            Ok(s) => s,
            Err(e) => return Err(e),
        };
        let worker_id: u64 = match read_unsigned(fields, "worker_id", u64::MAX) {
            Ok(Some(n)) => n,
            Ok(None) => return Err(ProtocolError::Missing { field: "worker_id" }),
            Err(e) => return Err(e),
        };
        let dp_rank: u32 = match dp_rank {
            Some(n) => n as u32,
            None => return Err(ProtocolError::Missing { field: "dp_rank" }),
        };
        let endpoint = match endpoint {
            Some(s) => s,
            None => return Err(ProtocolError::Missing { field: "endpoint" }),
        };
        let block_size: u32 = match block_size {
            Some(n) => n as u32,
            None => return Err(ProtocolError::Missing { field: "block_size" }),
        };
        Ok(
            SelectResponse {
                selection_id,
                reservation_id,
                worker_id,
                dp_rank,
                endpoint,
                block_size,
                overlap,
                effective_prefill_tokens: effective_prefill_tokens as usize,
            },
        )
    }
}

// ---------------------------------------------------------------------------
// Laws
// ---------------------------------------------------------------------------

proof fn lemma_registration_keys_differ()
    ensures
        forall|i: int, j: int|
            0 <= i < j < record_names().len() ==> record_names()[i] != record_names()[j],
{
    reveal_strlit("worker_id");
    reveal_strlit("model_name");
    reveal_strlit("endpoint");
    reveal_strlit("kv_events_endpoints");
    reveal_strlit("replay_endpoint");
    reveal_strlit("block_size");
    reveal_strlit("data_parallel_size");
    reveal_strlit("max_num_batched_tokens");
    reveal_strlit("total_kv_blocks");
    reveal_strlit("stable_routing_id");
    assert("worker_id"@.len() == 9);
    assert("model_name"@.len() == 10);
    assert("endpoint"@.len() == 8);
    assert("kv_events_endpoints"@.len() == 19);
    assert("replay_endpoint"@.len() == 15);
    assert("block_size"@.len() == 10);
    assert("data_parallel_size"@.len() == 18);
    assert("max_num_batched_tokens"@.len() == 22);
    assert("total_kv_blocks"@.len() == 15);
    assert("stable_routing_id"@.len() == 17);
    assert("model_name"@[0] == 'm');
    assert("block_size"@[0] == 'b');
    assert("replay_endpoint"@[0] == 'r');
    assert("total_kv_blocks"@[0] == 't');
}

/// Texts by rank that are written as an object read back as they were.
pub proof fn rank_texts_read_back(texts: Map<u32, Seq<char>>)
    ensures
        is_rank_fields(rank_fields(texts)),
        texts_in(rank_fields(texts)) == texts,
{
    let fields = rank_fields(texts);
    assert forall|name: Seq<char>| #[trigger] fields.contains_key(name) implies fields[name] is Text
        && exists|rank: u32| names_rank(name, rank) by {
        let rank = choose|rank: u32| #[trigger] texts.contains_key(rank) && names_rank(name, rank);
        assert(names_rank(name, rank));
    }
    let back = texts_in(fields);
    assert forall|rank: u32| #[trigger]
        back.contains_key(rank) == texts.contains_key(rank) && (texts.contains_key(rank)
            ==> back[rank] == texts[rank]) by {
        let name = text::decimal(rank as nat);
        lemma_rank_named(name, rank);
        if fields.contains_key(name) {
            let other = choose|other: u32| #[trigger]
                texts.contains_key(other) && names_rank(name, other);
            lemma_rank_named(name, other);
        }
        if texts.contains_key(rank) {
            assert(names_rank(name, rank));
            assert(fields.contains_key(name));
        }
    }
    assert(back =~= texts);
}

/// A selector that lists a worker just as it was registered is up to date: reading
/// the registration as a record gives the record that it asks for.
pub proof fn registration_reads_back_as_its_record(registration: WorkerRegistrationView)
    ensures
        record_of_value(Json::Object(registration.fields())) == Ok::<
            CatalogRecordView,
            ProtocolFault,
        >(replica_catalog::record_of(registration)),
        replica_catalog::up_to_date(registration, record_in(registration.fields())),
{
    lemma_registration_keys_differ();
    let names = record_names();
    assert(names[0] == "worker_id"@ && names[1] == "model_name"@ && names[2] == "endpoint"@
        && names[3] == "kv_events_endpoints"@ && names[4] == "replay_endpoint"@ && names[5]
        == "block_size"@ && names[6] == "data_parallel_size"@ && names[7]
        == "max_num_batched_tokens"@ && names[8] == "total_kv_blocks"@ && names[9]
        == "stable_routing_id"@);
    rank_texts_read_back(registration.kv_events_endpoints);
    let fields = registration.fields();
    assert(fields["kv_events_endpoints"@] == Json::Object(
        rank_fields(registration.kv_events_endpoints),
    ));
    assert(record_fault(fields) is None);
    assert(record_in(fields) =~= replica_catalog::record_of(registration));
}

/// The prompt goes flat: a selection request always names its model and carries its
/// token ids, and leaves out what is absent.
pub proof fn select_request_is_flat(request: SelectRequestView, priority_jump: Option<Json>)
    ensures
        request.fields(priority_jump).contains_key("token_ids"@),
        request.fields(priority_jump)["token_ids"@] == wire::token_array(request.token_ids),
        request.fields(priority_jump)["model_name"@] == Json::Text(request.model_name),
        priority_jump is None ==> !request.fields(priority_jump).contains_key("priority_jump"@),
        request.strict_priority is None ==> !request.fields(priority_jump).contains_key(
            "strict_priority"@,
        ),
{
    reveal_strlit("selection_id");
    reveal_strlit("reservation_id");
    reveal_strlit("allowed_worker_ids");
    reveal_strlit("priority_jump");
    reveal_strlit("strict_priority");
    reveal_strlit("model_name");
    reveal_strlit("token_ids");
    assert("selection_id"@.len() == 12);
    assert("reservation_id"@.len() == 14);
    assert("allowed_worker_ids"@.len() == 18);
    assert("priority_jump"@.len() == 13);
    assert("strict_priority"@.len() == 15);
    assert("model_name"@.len() == 10);
    assert("token_ids"@.len() == 9);
}

/// Texts by rank go on the wire under each rank in decimal, and under no other name.
pub proof fn ranks_are_named_in_decimal(texts: Map<u32, Seq<char>>, rank: u32, name: Seq<char>)
    ensures
        rank_fields(texts).contains_key(text::decimal(rank as nat)) <==> texts.contains_key(rank),
        texts.contains_key(rank) ==> rank_fields(texts)[text::decimal(rank as nat)] == Json::Text(
            texts[rank],
        ),
        rank_fields(texts).contains_key(name) ==> exists|r: u32| #[trigger]
            texts.contains_key(r) && name == text::decimal(r as nat),
{
    let written = text::decimal(rank as nat);
    lemma_rank_named(written, rank);
    if rank_fields(texts).contains_key(written) {
        let other = choose|other: u32| #[trigger]
            texts.contains_key(other) && names_rank(written, other);
        lemma_rank_named(written, other);
    }
    if texts.contains_key(rank) {
        assert(names_rank(written, rank));
    }
    if rank_fields(texts).contains_key(name) {
        let r = choose|r: u32| #[trigger] texts.contains_key(r) && names_rank(name, r);
        assert(texts.contains_key(r) && name == text::decimal(r as nat));
    }
}

/// Texts by rank are read off an object whose names are ranks in decimal and whose values
/// are texts; an absent field holds none, and anything else is refused by its name.
pub proof fn rank_texts_are_read_as_they_are(
    fields: Map<Seq<char>, Json>,
    key: Seq<char>,
    rank: u32,
)
    ensures
        !fields.contains_key(key) ==> rank_texts_field(fields, key) == Ok::<
            Map<u32, Seq<char>>,
            ProtocolFault,
        >(Map::empty()),
        fields.contains_key(key) && !(fields[key] is Object) ==> rank_texts_field(fields, key)
            == Err::<Map<u32, Seq<char>>, ProtocolFault>(ProtocolFault::Invalid(key)),
        fields.contains_key(key) ==> (fields[key] matches Json::Object(inner) ==> {
            let proper = forall|name: Seq<char>| #[trigger]
                inner.contains_key(name) ==> inner[name] is Text && exists|r: u32|
                    name == #[trigger] text::decimal(r as nat);
            &&& proper <==> rank_texts_field(fields, key) is Ok
            &&& !proper ==> rank_texts_field(fields, key) == Err::<
                Map<u32, Seq<char>>,
                ProtocolFault,
            >(ProtocolFault::Invalid(key))
            &&& proper ==> (rank_texts_field(fields, key)->Ok_0.contains_key(rank)
                <==> inner.contains_key(text::decimal(rank as nat)))
            &&& proper && inner.contains_key(text::decimal(rank as nat)) ==> inner[text::decimal(
                rank as nat,
            )] == Json::Text(rank_texts_field(fields, key)->Ok_0[rank])
        }),
{
    if fields.contains_key(key) && fields[key] is Object {
        let inner = fields[key]->Object_0;
        if is_rank_fields(inner) {
            assert forall|name: Seq<char>| #[trigger] inner.contains_key(name) implies exists|
                r: u32,
            | name == #[trigger] text::decimal(r as nat) by {
                let r = choose|r: u32| names_rank(name, r);
                assert(name == text::decimal(r as nat));
            }
        }
        if forall|name: Seq<char>| #[trigger]
            inner.contains_key(name) ==> inner[name] is Text && exists|r: u32|
                name == #[trigger] text::decimal(r as nat) {
            assert forall|name: Seq<char>| #[trigger] inner.contains_key(name) implies exists|
                r: u32,
            | names_rank(name, r) by {
                let r = choose|r: u32| name == #[trigger] text::decimal(r as nat);
                assert(names_rank(name, r));
            }
            assert(is_rank_fields(inner));
        }
    }
}

/// A registration is written with its required fields, and with its optional ones where
/// it has them; nothing else is written.
pub proof fn registration_is_written_field_by_field(
    registration: WorkerRegistration,
    written: Value,
    key: Seq<char>,
)
    requires
        call_ensures(WorkerRegistration::to_value, (&registration,), written),
    ensures
        json::json_of(written) matches Json::Object(fields) && {
            if key == "worker_id"@ {
                fields.contains_key(key) && fields[key] == Json::Unsigned(registration.worker_id)
            } else if key == "model_name"@ {
                fields.contains_key(key) && fields[key] == Json::Text(registration.model_name@)
            } else if key == "endpoint"@ {
                fields.contains_key(key) && fields[key] == Json::Text(registration.endpoint@)
            } else if key == "block_size"@ {
                fields.contains_key(key) && fields[key] == Json::Unsigned(
                    registration.block_size as u64,
                )
            } else if key == "data_parallel_size"@ {
                fields.contains_key(key) && fields[key] == Json::Unsigned(
                    registration.data_parallel_size as u64,
                )
            } else if key == "kv_events_endpoints"@ {
                fields.contains_key(key) && fields[key] == Json::Object(
                    rank_fields(
                        selection_backend::texts_by_rank(registration.kv_events_endpoints@),
                    ),
                )
            } else if key == "replay_endpoint"@ && registration.replay_endpoint is Some {
                fields.contains_key(key) && fields[key] == Json::Text(
                    registration.replay_endpoint->0@,
                )
            } else if key == "total_kv_blocks"@ && registration.total_kv_blocks is Some {
                fields.contains_key(key) && fields[key] == Json::Unsigned(
                    registration.total_kv_blocks->0,
                )
            } else if key == "max_num_batched_tokens"@ && registration.max_num_batched_tokens
                is Some {
                fields.contains_key(key) && fields[key] == Json::Unsigned(
                    registration.max_num_batched_tokens->0,
                )
            } else if key == "stable_routing_id"@ && registration.stable_routing_id is Some {
                fields.contains_key(key) && fields[key] == Json::Text(
                    registration.stable_routing_id->0@,
                )
            } else {
                !fields.contains_key(key)
            }
        },
{
    lemma_record_key_texts_differ();
}

proof fn lemma_record_key_texts_differ()
    ensures
        record_names() == seq![
            "worker_id"@,
            "model_name"@,
            "endpoint"@,
            "kv_events_endpoints"@,
            "replay_endpoint"@,
            "block_size"@,
            "data_parallel_size"@,
            "max_num_batched_tokens"@,
            "total_kv_blocks"@,
            "stable_routing_id"@,
        ],
        record_names().no_duplicates(),
        "replay_endpoint"@ != "worker_id"@,
        "replay_endpoint"@ != "model_name"@,
        "replay_endpoint"@ != "endpoint"@,
        "replay_endpoint"@ != "block_size"@,
        "replay_endpoint"@ != "data_parallel_size"@,
        "replay_endpoint"@ != "kv_events_endpoints"@,
        "replay_endpoint"@ != "total_kv_blocks"@,
        "replay_endpoint"@ != "max_num_batched_tokens"@,
        "replay_endpoint"@ != "stable_routing_id"@,
        "total_kv_blocks"@ != "worker_id"@,
        "total_kv_blocks"@ != "model_name"@,
        "total_kv_blocks"@ != "endpoint"@,
        "total_kv_blocks"@ != "block_size"@,
        "total_kv_blocks"@ != "data_parallel_size"@,
        "total_kv_blocks"@ != "kv_events_endpoints"@,
        "total_kv_blocks"@ != "max_num_batched_tokens"@,
        "total_kv_blocks"@ != "stable_routing_id"@,
        "max_num_batched_tokens"@ != "worker_id"@,
        "max_num_batched_tokens"@ != "model_name"@,
        "max_num_batched_tokens"@ != "endpoint"@,
        "max_num_batched_tokens"@ != "block_size"@,
        "max_num_batched_tokens"@ != "data_parallel_size"@,
        "max_num_batched_tokens"@ != "kv_events_endpoints"@,
        "max_num_batched_tokens"@ != "stable_routing_id"@,
        "stable_routing_id"@ != "worker_id"@,
        "stable_routing_id"@ != "model_name"@,
        "stable_routing_id"@ != "endpoint"@,
        "stable_routing_id"@ != "block_size"@,
        "stable_routing_id"@ != "data_parallel_size"@,
        "stable_routing_id"@ != "kv_events_endpoints"@,
        "worker_id"@ != "model_name"@,
        "worker_id"@ != "endpoint"@,
        "worker_id"@ != "block_size"@,
        "worker_id"@ != "data_parallel_size"@,
        "worker_id"@ != "kv_events_endpoints"@,
        "model_name"@ != "endpoint"@,
        "model_name"@ != "block_size"@,
        "model_name"@ != "data_parallel_size"@,
        "model_name"@ != "kv_events_endpoints"@,
        "endpoint"@ != "block_size"@,
        "endpoint"@ != "data_parallel_size"@,
        "endpoint"@ != "kv_events_endpoints"@,
        "block_size"@ != "data_parallel_size"@,
        "block_size"@ != "kv_events_endpoints"@,
        "data_parallel_size"@ != "kv_events_endpoints"@,
{
    lemma_registration_keys_differ();
    let names = record_names();
    assert(names[0] == "worker_id"@ && names[1] == "model_name"@ && names[2] == "endpoint"@
        && names[3] == "kv_events_endpoints"@ && names[4] == "replay_endpoint"@ && names[5]
        == "block_size"@ && names[6] == "data_parallel_size"@ && names[7]
        == "max_num_batched_tokens"@ && names[8] == "total_kv_blocks"@ && names[9]
        == "stable_routing_id"@);
}

/// Ids go on the wire each once and smallest first.
pub proof fn ids_are_written_in_order(ids: Set<u64>)
    requires
        ids.finite(),
    ensures
        id_array(ids) matches Json::Array(items) && {
            &&& forall|i: int| 0 <= i < items.len() ==> (#[trigger] items[i]) is Unsigned
            &&& forall|i: int|
                0 <= i < items.len() ==> ids.contains((#[trigger] items[i])->Unsigned_0)
            &&& forall|id: u64| ids.contains(id) ==> #[trigger] items.contains(Json::Unsigned(id))
            &&& forall|i: int, j: int|
                0 <= i < j < items.len() ==> (#[trigger] items[i])->Unsigned_0 < (
                #[trigger] items[j])->Unsigned_0
        },
{
    collections::lemma_ascending_u64_members(ids);
    let listed = collections::ascending_u64(ids);
    let items = listed.map_values(|id: u64| Json::Unsigned(id));
    assert forall|i: int| 0 <= i < items.len() implies ids.contains(
        (#[trigger] items[i])->Unsigned_0,
    ) by {
        assert(listed.contains(listed[i]));
    }
    assert forall|id: u64| ids.contains(id) implies #[trigger] items.contains(
        Json::Unsigned(id),
    ) by {
        assert(listed.contains(id));
        let i = choose|i: int| 0 <= i < listed.len() && listed[i] == id;
        assert(items[i] == Json::Unsigned(id));
    }
}

/// A selection request is written with its model and its tokens, and with its optional
/// fields where it has them; nothing else is written.
pub proof fn select_request_is_written_field_by_field(
    request: SelectRequest,
    jump: Option<Json>,
    key: Seq<char>,
)
    ensures
        ({
            let fields = request@.fields(jump);
            if key == "model_name"@ {
                fields.contains_key(key) && fields[key] == Json::Text(request.model_name@)
            } else if key == "token_ids"@ {
                fields.contains_key(key) && fields[key] == wire::token_array(request.token_ids@)
            } else if key == "selection_id"@ && request.selection_id is Some {
                fields.contains_key(key) && fields[key] == Json::Text(request.selection_id->0@)
            } else if key == "reservation_id"@ && request.reservation_id is Some {
                fields.contains_key(key) && fields[key] == Json::Text(request.reservation_id->0@)
            } else if key == "allowed_worker_ids"@ && request.allowed_worker_ids is Some {
                fields.contains_key(key) && fields[key] == id_array(
                    request.allowed_worker_ids->0@,
                )
            } else if key == "priority_jump"@ && jump is Some {
                fields.contains_key(key) && fields[key] == jump->0
            } else if key == "strict_priority"@ && request.strict_priority is Some {
                fields.contains_key(key) && fields[key] == Json::Unsigned(
                    request.strict_priority->0 as u64,
                )
            } else {
                !fields.contains_key(key)
            }
        }),
{
    reveal_strlit("selection_id");
    reveal_strlit("reservation_id");
    reveal_strlit("allowed_worker_ids");
    reveal_strlit("priority_jump");
    reveal_strlit("strict_priority");
    reveal_strlit("model_name");
    reveal_strlit("token_ids");
    assert("selection_id"@.len() == 12);
    assert("reservation_id"@.len() == 14);
    assert("allowed_worker_ids"@.len() == 18);
    assert("priority_jump"@.len() == 13);
    assert("strict_priority"@.len() == 15);
    assert("model_name"@.len() == 10);
    assert("token_ids"@.len() == 9);
}

/// The priority jump goes on the wire exactly when there is one, as what its bits are
/// turned into.
pub proof fn jump_is_what_its_bits_become<F: Fn(u64) -> Value>(
    number: F,
    bits: u64,
    jump: Option<Value>,
)
    ensures
        jump_as_number(number, None, jump) <==> jump is None,
        jump_as_number(number, Some(bits), jump) <==> jump is Some && call_ensures(
            number,
            (bits,),
            jump->0,
        ),
{
}

/// A patch is written with the fields that it changes, and with nothing else.
pub proof fn patch_is_written_field_by_field(patch: WorkerPatch, written: Value, key: Seq<char>)
    requires
        call_ensures(WorkerPatch::to_value, (&patch,), written),
    ensures
        json::json_of(written) matches Json::Object(fields) && {
            if key == "endpoint"@ && patch.endpoint is Some {
                fields.contains_key(key) && fields[key] == Json::Text(patch.endpoint->0@)
            } else if key == "kv_events_endpoints"@ && patch.kv_events_endpoints is Some {
                fields.contains_key(key) && fields[key] == Json::Object(
                    rank_fields(
                        selection_backend::texts_by_rank(patch.kv_events_endpoints->0@),
                    ),
                )
            } else if key == "replay_endpoint"@ && patch.replay_endpoint is Some {
                fields.contains_key(key) && fields[key] == Json::Text(patch.replay_endpoint->0@)
            } else if key == "total_kv_blocks"@ && patch.total_kv_blocks is Some {
                fields.contains_key(key) && fields[key] == Json::Unsigned(patch.total_kv_blocks->0)
            } else if key == "stable_routing_id"@ && patch.stable_routing_id is Some {
                fields.contains_key(key) && fields[key] == Json::Text(patch.stable_routing_id->0@)
            } else {
                !fields.contains_key(key)
            }
        },
{
    lemma_record_key_texts_differ();
}

/// The body of a replica-sync call holds the endpoint and nothing else.
pub proof fn peer_body_holds_the_endpoint(peer_endpoint: &str, body: Value)
    requires
        call_ensures(peer_body, (peer_endpoint,), body),
    ensures
        json::json_of(body) matches Json::Object(fields) && fields.dom() == set!["endpoint"@]
            && fields["endpoint"@] == Json::Text(peer_endpoint@),
{
    assert(json::no_fields().insert("endpoint"@, Json::Text(peer_endpoint@)).dom() =~= set![
        "endpoint"@,
    ]);
}

/// A replica is ready exactly when its answer says so: an object whose `ready` is true,
/// or an array of that one value.
pub proof fn ready_means_ready(answer: Value, r: bool)
    requires
        call_ensures(is_ready, (&answer,), r),
    ensures
        match json::json_of(answer) {
            Json::Object(fields) => r <==> fields.contains_key("ready"@) && fields["ready"@]
                == Json::Bool(true),
            Json::Array(items) => r <==> items.len() == 1 && items[0] == Json::Bool(true),
            _ => !r,
        },
{
    if json::json_of(answer) is Array {
        let items = json::json_of(answer)->Array_0;
        let names = seq!["ready"@];
        wire::records_are_read_by_position(items, names, 0, Map::empty(), "ready"@);
        assert(names[0] == "ready"@);
        if items.len() == 0 {
            assert(names.take(0).len() == 0);
        }
        if items.len() == 1 {
            assert(wire::record_fields(Json::Array(items), names, 0)->0[names[0]] == items[0]);
            assert(names.take(1)[0] == "ready"@);
        }
    }
}

/// A record is read off an object field by field: the worker id is a number; sizes,
/// limits and endpoints may be null or absent, the model is empty where it is absent, and
/// unknown fields do not matter.
pub proof fn record_is_read_field_by_field(
    value: Value,
    r: Result<CatalogRecordWire, ProtocolError>,
    fields: Map<Seq<char>, Json>,
)
    requires
        call_ensures(CatalogRecordWire::from_value, (&value,), r),
        json::json_of(value) == Json::Object(fields),
        r is Ok,
    ensures
        ({
            let record = r->Ok_0;
            let absent = |key: Seq<char>| !fields.contains_key(key) || fields[key] == Json::Null;
            &&& fields.contains_key("worker_id"@)
            &&& fields["worker_id"@] == Json::Unsigned(record.worker_id)
            &&& fields.contains_key("model_name"@) ==> fields["model_name"@] == Json::Text(
                record.model_name@,
            )
            &&& !fields.contains_key("model_name"@) ==> record.model_name@.len() == 0
            &&& record.endpoint is None <==> absent("endpoint"@)
            &&& record.endpoint is Some ==> fields["endpoint"@] == Json::Text(record.endpoint->0@)
            &&& rank_texts_field(fields, "kv_events_endpoints"@) == Ok::<
                Map<u32, Seq<char>>,
                ProtocolFault,
            >(selection_backend::texts_by_rank(record.kv_events_endpoints@))
            &&& record.replay_endpoint is None <==> absent("replay_endpoint"@)
            &&& record.replay_endpoint is Some ==> fields["replay_endpoint"@] == Json::Text(
                record.replay_endpoint->0@,
            )
            &&& record.block_size is None <==> absent("block_size"@)
            &&& record.block_size is Some ==> fields["block_size"@] == Json::Unsigned(
                record.block_size->0 as u64,
            )
            &&& record.data_parallel_size is None <==> absent("data_parallel_size"@)
            &&& record.data_parallel_size is Some ==> fields["data_parallel_size"@]
                == Json::Unsigned(record.data_parallel_size->0 as u64)
            &&& record.max_num_batched_tokens is None <==> absent("max_num_batched_tokens"@)
            &&& record.max_num_batched_tokens is Some ==> fields["max_num_batched_tokens"@]
                == Json::Unsigned(record.max_num_batched_tokens->0)
            &&& record.total_kv_blocks is None <==> absent("total_kv_blocks"@)
            &&& record.total_kv_blocks is Some ==> fields["total_kv_blocks"@] == Json::Unsigned(
                record.total_kv_blocks->0,
            )
            &&& record.stable_routing_id is None <==> absent("stable_routing_id"@)
            &&& record.stable_routing_id is Some ==> fields["stable_routing_id"@] == Json::Text(
                record.stable_routing_id->0@,
            )
        }),
{
    assert(r->Ok_0@ == record_in(fields));
    let record = r->Ok_0;
    assert(record@.endpoint == wire::optional_text_field(fields, "endpoint"@)->Ok_0);
    assert(record@.replay_endpoint == wire::optional_text_field(
        fields,
        "replay_endpoint"@,
    )->Ok_0);
    assert(record@.stable_routing_id == wire::optional_text_field(
        fields,
        "stable_routing_id"@,
    )->Ok_0);
}

/// An object is a record exactly when its worker id is a number and every field that it
/// has is of its kind. Otherwise the first wrong field is told, in the order of their
/// names, and a missing worker id only then.
pub proof fn record_is_refused_for_its_first_fault(fields: Map<Seq<char>, Json>)
    ensures
        ({
            let there = |key: Seq<char>| fields.contains_key(key) && fields[key] != Json::Null;
            let no_number = |key: Seq<char>, max: u64|
                there(key) && !(fields[key] is Unsigned && fields[key]->Unsigned_0 <= max);
            let no_text = |key: Seq<char>| there(key) && !(fields[key] is Text);
            let r = record_of_value(Json::Object(fields));
            let refused = |key: Seq<char>|
                r == Err::<CatalogRecordView, ProtocolFault>(ProtocolFault::Invalid(key));
            if no_number("block_size"@, u32::MAX as u64) {
                refused("block_size"@)
            } else if no_number("data_parallel_size"@, u32::MAX as u64) {
                refused("data_parallel_size"@)
            } else if no_text("endpoint"@) {
                refused("endpoint"@)
            } else if rank_texts_field(fields, "kv_events_endpoints"@) is Err {
                refused("kv_events_endpoints"@)
            } else if no_number("max_num_batched_tokens"@, u64::MAX) {
                refused("max_num_batched_tokens"@)
            } else if fields.contains_key("model_name"@) && !(fields["model_name"@] is Text) {
                refused("model_name"@)
            } else if no_text("replay_endpoint"@) {
                refused("replay_endpoint"@)
            } else if no_text("stable_routing_id"@) {
                refused("stable_routing_id"@)
            } else if no_number("total_kv_blocks"@, u64::MAX) {
                refused("total_kv_blocks"@)
            } else if fields.contains_key("worker_id"@) && !(fields["worker_id"@] is Unsigned) {
                refused("worker_id"@)
            } else if !fields.contains_key("worker_id"@) {
                r == Err::<CatalogRecordView, ProtocolFault>(ProtocolFault::Missing("worker_id"@))
            } else {
                r is Ok
            }
        }),
{
}

/// A record may also be written as an array of its fields in order, of which the last
/// ones may be left out but not the worker id: both forms read the same.
pub proof fn record_is_read_by_position(items: Seq<Json>, fields: Map<Seq<char>, Json>)
    requires
        ({
            let names = seq![
                "worker_id"@,
                "model_name"@,
                "endpoint"@,
                "kv_events_endpoints"@,
                "replay_endpoint"@,
                "block_size"@,
                "data_parallel_size"@,
                "max_num_batched_tokens"@,
                "total_kv_blocks"@,
                "stable_routing_id"@,
            ];
            1 <= items.len() <= 10 ==> {
                &&& forall|key: Seq<char>| #[trigger]
                    fields.contains_key(key) <==> names.take(items.len() as int).contains(key)
                &&& forall|i: int| 0 <= i < items.len() ==> fields[#[trigger] names[i]] == items[i]
            }
        }),
    ensures
        1 <= items.len() <= 10 ==> record_of_value(Json::Array(items)) == record_of_value(
            Json::Object(fields),
        ),
        items.len() == 0 || items.len() > 10 ==> record_of_value(Json::Array(items)) == Err::<
            CatalogRecordView,
            ProtocolFault,
        >(ProtocolFault::NotARecord),
{
    lemma_record_key_texts_differ();
    if 1 <= items.len() <= 10 {
        lemma_same_fields(items, record_names(), 1, fields);
    }
}

proof fn lemma_same_fields(
    items: Seq<Json>,
    names: Seq<Seq<char>>,
    least: nat,
    fields: Map<Seq<char>, Json>,
)
    requires
        names.no_duplicates(),
        least <= items.len() <= names.len(),
        forall|key: Seq<char>| #[trigger]
            fields.contains_key(key) <==> names.take(items.len() as int).contains(key),
        forall|i: int| 0 <= i < items.len() ==> fields[#[trigger] names[i]] == items[i],
    ensures
        wire::record_fields(Json::Array(items), names, least) == Some(fields),
{
    wire::records_are_read_by_position(items, names, least, fields, Seq::empty());
    let read = wire::record_fields(Json::Array(items), names, least)->0;
    assert forall|key: Seq<char>|
        #![trigger read.contains_key(key)]
        #![trigger fields.contains_key(key)]
        #![trigger read[key]]
        read.contains_key(key) == fields.contains_key(key) && (read.contains_key(key) ==> read[key]
            == fields[key]) by {
        wire::records_are_read_by_position(items, names, least, fields, key);
        let listed = names.take(items.len() as int);
        if listed.contains(key) {
            let i = choose|i: int| 0 <= i < listed.len() && listed[i] == key;
            assert(names[i] == key);
        }
    }
    assert(read.dom() =~= fields.dom());
    assert(read =~= fields);
}

/// Anything but an object or an array is no record.
pub proof fn scalars_are_no_records(value: Json)
    requires
        !(value is Object),
        !(value is Array),
    ensures
        record_of_value(value) == Err::<CatalogRecordView, ProtocolFault>(
            ProtocolFault::NotARecord,
        ),
        overlap_in(value) is None,
{
}

/// The records of an answer are those of its items, in order, and only where every item
/// is one.
pub proof fn records_are_read_item_by_item(value: Value, r: Option<Vec<CatalogRecordWire>>)
    requires
        call_ensures(records_from_value, (&value,), r),
    ensures
        r matches Some(records) ==> (json::json_of(value) matches Json::Array(items)
            && records@.len() == items.len() && forall|i: int|
            0 <= i < items.len() ==> record_of_value(#[trigger] items[i]) == Ok::<
                CatalogRecordView,
                ProtocolFault,
            >(records@[i]@)),
        r is None ==> (json::json_of(value) matches Json::Array(items) ==> exists|i: int|
            0 <= i < items.len() && record_of_value(#[trigger] items[i]) is Err),
{
    if r is Some && json::json_of(value) is Array {
        let records = r->0;
        let items = json::json_of(value)->Array_0;
        let views = replica_catalog::record_views(records@);
        assert(views.len() == records@.len());
        assert forall|i: int| 0 <= i < items.len() implies record_of_value(#[trigger] items[i])
            == Ok::<CatalogRecordView, ProtocolFault>(records@[i]@) by {
            assert(views[i] == records@[i]@);
            assert(record_of_value(items[i]) is Ok);
        }
    }
}

/// An overlap summary is read off an object count by count; an absent count is zero, and
/// a count that is no number of its type is refused.
pub proof fn overlap_is_read_field_by_field(fields: Map<Seq<char>, Json>)
    ensures
        ({
            let fits = |key: Seq<char>|
                fields.contains_key(key) ==> fields[key] is Unsigned && fields[key]->Unsigned_0
                    <= u32::MAX;
            let r = overlap_in(Json::Object(fields));
            &&& r is Some <==> fits("longest_matched"@) && fits("gpu"@) && fits("cpu"@) && fits(
                "disk"@,
            )
            &&& r matches Some(overlap) ==> {
                &&& fields.contains_key("longest_matched"@) ==> fields["longest_matched"@]
                    == Json::Unsigned(overlap.longest_matched as u64)
                &&& !fields.contains_key("longest_matched"@) ==> overlap.longest_matched == 0
                &&& fields.contains_key("gpu"@) ==> fields["gpu"@] == Json::Unsigned(
                    overlap.gpu as u64,
                )
                &&& !fields.contains_key("gpu"@) ==> overlap.gpu == 0
                &&& fields.contains_key("cpu"@) ==> fields["cpu"@] == Json::Unsigned(
                    overlap.cpu as u64,
                )
                &&& !fields.contains_key("cpu"@) ==> overlap.cpu == 0
                &&& fields.contains_key("disk"@) ==> fields["disk"@] == Json::Unsigned(
                    overlap.disk as u64,
                )
                &&& !fields.contains_key("disk"@) ==> overlap.disk == 0
            }
        }),
{
}

/// An overlap summary may also be written as an array of its counts in order, of which
/// the last ones may be left out: both forms read the same.
pub proof fn overlap_is_read_by_position(items: Seq<Json>, fields: Map<Seq<char>, Json>)
    requires
        ({
            let names = seq!["longest_matched"@, "gpu"@, "cpu"@, "disk"@];
            items.len() <= 4 ==> {
                &&& forall|key: Seq<char>| #[trigger]
                    fields.contains_key(key) <==> names.take(items.len() as int).contains(key)
                &&& forall|i: int| 0 <= i < items.len() ==> fields[#[trigger] names[i]] == items[i]
            }
        }),
    ensures
        items.len() <= 4 ==> overlap_in(Json::Array(items)) == overlap_in(Json::Object(fields)),
        items.len() > 4 ==> overlap_in(Json::Array(items)) is None,
{
    if items.len() <= 4 {
        reveal_strlit("longest_matched");
        reveal_strlit("gpu");
        reveal_strlit("cpu");
        reveal_strlit("disk");
        assert("longest_matched"@.len() == 15 && "disk"@.len() == 4 && "gpu"@.len() == 3
            && "cpu"@.len() == 3);
        assert("gpu"@[0] == 'g' && "cpu"@[0] == 'c');
        let names = seq!["longest_matched"@, "gpu"@, "cpu"@, "disk"@];
        assert(names.no_duplicates());
        lemma_same_fields(items, names, 0, fields);
    }
}

/// A selection is read off an object field by field: worker, rank, endpoint and block size
/// are required, the ids may be null or absent, and an absent count or summary is zero.
pub proof fn selection_is_read_field_by_field(
    value: Value,
    r: Result<SelectResponse, ProtocolError>,
    fields: Map<Seq<char>, Json>,
)
    requires
        call_ensures(SelectResponse::from_value, (&value,), r),
        json::json_of(value) == Json::Object(fields),
        r is Ok,
    ensures
        ({
            let s = r->Ok_0;
            let absent = |key: Seq<char>| !fields.contains_key(key) || fields[key] == Json::Null;
            &&& fields.contains_key("worker_id"@)
            &&& fields["worker_id"@] == Json::Unsigned(s.worker_id)
            &&& fields.contains_key("dp_rank"@)
            &&& fields["dp_rank"@] == Json::Unsigned(s.dp_rank as u64)
            &&& fields.contains_key("endpoint"@)
            &&& fields["endpoint"@] == Json::Text(s.endpoint@)
            &&& fields.contains_key("block_size"@)
            &&& fields["block_size"@] == Json::Unsigned(s.block_size as u64)
            &&& s.selection_id is None <==> absent("selection_id"@)
            &&& s.selection_id is Some ==> fields["selection_id"@] == Json::Text(s.selection_id->0@)
            &&& s.reservation_id is None <==> absent("reservation_id"@)
            &&& s.reservation_id is Some ==> fields["reservation_id"@] == Json::Text(
                s.reservation_id->0@,
            )
            &&& fields.contains_key("overlap"@) ==> overlap_in(fields["overlap"@]) == Some(s.overlap)
            &&& !fields.contains_key("overlap"@) ==> s.overlap == (OverlapSummary {
                longest_matched: 0,
                gpu: 0,
                cpu: 0,
                disk: 0,
            })
            &&& fields.contains_key("effective_prefill_tokens"@)
                ==> fields["effective_prefill_tokens"@] == Json::Unsigned(
                s.effective_prefill_tokens as u64,
            )
            &&& !fields.contains_key("effective_prefill_tokens"@) ==> s.effective_prefill_tokens == 0
        }),
{
    let s = r->Ok_0;
    assert(s@ == selection_in(fields));
    assert(s@.selection_id == wire::optional_text_field(fields, "selection_id"@)->Ok_0);
    assert(s@.reservation_id == wire::optional_text_field(fields, "reservation_id"@)->Ok_0);
}

/// An object is a selection exactly when every field that it has is of its kind and the
/// required ones are there. Otherwise the first wrong field is told, in the order of their
/// names, and then what is missing, in the order worker, rank, endpoint, block size.
pub proof fn selection_is_refused_for_its_first_fault(
    value: Value,
    r: Result<SelectResponse, ProtocolError>,
    fields: Map<Seq<char>, Json>,
)
    requires
        call_ensures(SelectResponse::from_value, (&value,), r),
        json::json_of(value) == Json::Object(fields),
    ensures
        ({
            let no_number = |key: Seq<char>, max: u64|
                fields.contains_key(key) && !(fields[key] is Unsigned && fields[key]->Unsigned_0
                    <= max);
            let no_text = |key: Seq<char>|
                fields.contains_key(key) && fields[key] != Json::Null && !(fields[key] is Text);
            let invalid = |key: Seq<char>| r is Err && r->Err_0@ == ProtocolFault::Invalid(key);
            let missing = |key: Seq<char>| r is Err && r->Err_0@ == ProtocolFault::Missing(key);
            if no_number("block_size"@, u32::MAX as u64) {
                invalid("block_size"@)
            } else if no_number("dp_rank"@, u32::MAX as u64) {
                invalid("dp_rank"@)
            } else if no_number("effective_prefill_tokens"@, usize::MAX as u64) {
                invalid("effective_prefill_tokens"@)
            } else if fields.contains_key("endpoint"@) && !(fields["endpoint"@] is Text) {
                invalid("endpoint"@)
            } else if fields.contains_key("overlap"@) && overlap_in(fields["overlap"@]) is None {
                invalid("overlap"@)
            } else if no_text("reservation_id"@) {
                invalid("reservation_id"@)
            } else if no_text("selection_id"@) {
                invalid("selection_id"@)
            } else if no_number("worker_id"@, u64::MAX) {
                invalid("worker_id"@)
            } else if !fields.contains_key("worker_id"@) {
                missing("worker_id"@)
            } else if !fields.contains_key("dp_rank"@) {
                missing("dp_rank"@)
            } else if !fields.contains_key("endpoint"@) {
                missing("endpoint"@)
            } else if !fields.contains_key("block_size"@) {
                missing("block_size"@)
            } else {
                r is Ok
            }
        }),
{
}

/// A selection may also be written as an array of its fields in order, of which the last
/// two may be left out: both forms read the same. Anything else is no record.
pub proof fn selection_is_read_by_position(
    listed: Value,
    named: Value,
    a: Result<SelectResponse, ProtocolError>,
    b: Result<SelectResponse, ProtocolError>,
    items: Seq<Json>,
    fields: Map<Seq<char>, Json>,
)
    requires
        call_ensures(SelectResponse::from_value, (&listed,), a),
        call_ensures(SelectResponse::from_value, (&named,), b),
        json::json_of(listed) == Json::Array(items),
        json::json_of(named) == Json::Object(fields),
        ({
            let names = seq![
                "selection_id"@,
                "reservation_id"@,
                "worker_id"@,
                "dp_rank"@,
                "endpoint"@,
                "block_size"@,
                "overlap"@,
                "effective_prefill_tokens"@,
            ];
            6 <= items.len() <= 8 ==> {
                &&& forall|key: Seq<char>| #[trigger]
                    fields.contains_key(key) <==> names.take(items.len() as int).contains(key)
                &&& forall|i: int| 0 <= i < items.len() ==> fields[#[trigger] names[i]] == items[i]
            }
        }),
    ensures
        6 <= items.len() <= 8 ==> (a is Ok <==> b is Ok),
        6 <= items.len() <= 8 && a is Ok ==> a->Ok_0@ == b->Ok_0@,
        6 <= items.len() <= 8 && a is Err ==> a->Err_0@ == b->Err_0@,
        items.len() < 6 || items.len() > 8 ==> a is Err && a->Err_0@ == ProtocolFault::NotARecord,
{
    if 6 <= items.len() <= 8 {
        lemma_selection_keys_differ();
        lemma_same_fields(items, selection_names(), 6, fields);
    }
}

proof fn lemma_selection_keys_differ()
    ensures
        selection_names().no_duplicates(),
{
    reveal_strlit("selection_id");
    reveal_strlit("reservation_id");
    reveal_strlit("worker_id");
    reveal_strlit("dp_rank");
    reveal_strlit("endpoint");
    reveal_strlit("block_size");
    reveal_strlit("overlap");
    reveal_strlit("effective_prefill_tokens");
    assert("selection_id"@.len() == 12);
    assert("reservation_id"@.len() == 14);
    assert("worker_id"@.len() == 9);
    assert("dp_rank"@.len() == 7);
    assert("endpoint"@.len() == 8);
    assert("block_size"@.len() == 10);
    assert("overlap"@.len() == 7);
    assert("effective_prefill_tokens"@.len() == 24);
    assert("dp_rank"@[0] == 'd');
    assert("overlap"@[0] == 'o');
}

} // verus!
