//! Decision logic of an inference-serving front end.

use vstd::prelude::*;

pub mod collections;
pub mod embedded_selector;
pub mod env;
pub mod epp_config;
pub mod generate;
pub mod generate_service;
pub mod json;
pub mod peer_mesh;
pub mod python_payload;
pub mod replica_catalog;
pub mod request_trace;
pub mod selection_backend;
pub mod selection_wire;
pub mod selector_fleet;
pub mod telemetry;
pub mod text;
pub mod wire;
pub mod worker_query_health;

verus! {

} // verus!
