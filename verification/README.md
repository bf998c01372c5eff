# finance_core

An offline-first personal finance core: accounts, categories, transactions, transfers,
budgets, recurring transactions, tags, exchange rates, statistics and synchronization with
a server by last write wins. The library is written in Verus: every public function carries
a contract over mathematical models of the data (sequences of records, sums, filters and
orders), and Verus proves the code against it.

## Layout

- `src/` — the verified library.
  - `time.rs`, `date_utils.rs`, `ids.rs`, `text.rs` — instants in whole seconds, calendar
    steps, RFC 3339 text, UUID identifiers and text helpers (including SQL `LIKE`
    matching); calls into `chrono` and `uuid` sit behind small trusted wrappers.
  - `entities/` — the domain records and their enumerations.
  - `records.rs`, `queries.rs` — tables of records keyed by identifier, soft deletion,
    filtering, stable ordering, pagination and sums, with their lemmas.
  - `repositories/` — in-memory repositories with the semantics of the SQL tables
    (unique keys, soft deletion, date ranges, searches, statistics), and `columns.rs`,
    which reads stored column text back into records.
  - `use_cases/` — validation and the operations callers perform.
  - `json.rs` — patches that change a stored record, read from JSON object text through
    `serde_json` behind trusted wrappers.
  - `sync.rs` — collecting pending changes, applying the server's answers, conflict
    resolution.
  - `laws.rs` — properties that relate several operations (reads after writes, balances,
    transfers, pagination, idempotence, deleted tags, rate precedence, last write wins and
    what a full synchronization marks).
- `tests/` — tests of the library on concrete values.
- `app/` — what stays outside verification: the SQLite file the repositories are stored
  in, JSON copies of the types, floating-point exchange rates and the C interface.
