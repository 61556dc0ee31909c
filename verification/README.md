# dynamo_serving

Decision logic of an inference-serving front end, written in Verus: every function in
`src/` states what it returns in `requires` / `ensures` clauses that Verus proves.

| Module | What it decides |
|---|---|
| `epp_config` | the router-only configuration that an environment describes |
| `request_trace`, `telemetry` | where and how requests are traced |
| `worker_query_health` | which workers lack KV query endpoints, and when to say so |
| `selector_fleet` | which selector replicas are live, tracked and routable |
| `peer_mesh` | the calls that keep the replica-sync peer mesh full |
| `replica_catalog` | the calls that bring one replica's worker catalog in sync |
| `embedded_selector` | the same for the in-process selector |
| `selection_backend`, `selection_wire` | what router and selector exchange, and its JSON form |
| `generate`, `generate_service` | the token-in/token-out `Generate` API |
| `python_payload` | the frames that a Python generator's items become |
| `text`, `collections`, `env`, `json`, `wire` | shared foundations |

`text` and `json` hold the only trusted items: what the library takes `std`'s text
functions and `serde_json` to do.

`app/` is ordinary Rust around the library: process environment, HTTP, Kubernetes
discovery, background tasks and the Python bridge.
