# dbflux

The decision logic of the DBFlux database client as a Verus-verified
library: what each operation computes is stated in `requires`/`ensures`
contracts over mathematical views (`Seq`, `Map`, `Set`, `int`) and proved.

Layout:

- `src/` — the verified library.
  - `text`, `json`, `strmap`, `keyed`, `error`: strings, the JSON document
    model, a string map, an ordered keyed collection, error values.
  - `profile`, `hooks`: connection profiles and lifecycle hooks (binding
    resolution, the phase runner, process supervision decisions).
  - `dynamo/`: the DynamoDB driver — command envelopes, key schemas, read
    planning and paging, error classification, attribute values and result
    rows.
  - `governance`, `audit`, `ddl`: MCP tool catalogue, trusted clients and
    policy assignments, authorization, the audit service's switches and what recording an
    event comes to, audit export and queries, DDL text.
  - `query_json`: query results as JSON documents for MCP answers.
  - `storage`, `config`, `rpc`, `access`: legacy import planning, state
    reset, configuration loading, RPC driver services, access routes.
  - `ui`, `modals`, `assets`: settings navigation, the settings sidebar and
    its collapse state, key maps, dialog state machines, icon lookup.
- `app/` — the unverified shell: hook processes, SQLite and files, serde
  records of library types.
- `tests/` — tests of the library as a user calls it.

Calls into outside crates (serde_json, sha2, hex, uuid, std's case
mapping) sit behind small trusted wrappers whose doc comments say what is
assumed of them.
