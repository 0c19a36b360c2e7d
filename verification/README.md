# knowledge_store

An in-memory knowledge store for several tenants and their users, verified with Verus. It keeps
history events, facts, insights, links, sessions, company documents with their revisions, parsed
documents cut into fragments, a registry of evaluation cases and runs, and the journal of the
operations that change all of these.

## Layout

- `src/` is the library. Every public function has a contract that Verus proves. The wrappers of
  calls into other crates have contracts that are believed.
  - `model/` holds the records; `data.rs` the tables that make up a store; `table.rs` the table.
  - `text.rs`, `naming.rs`, `json.rs`, `float.rs`, `order.rs`, `record.rs` are what the rest is
    written with.
  - `history.rs`, `facts.rs`, `insights.rs`, `links.rs`, `sessions.rs`, `company.rs`, `tasks.rs`,
    `components.rs`, `runs.rs`, `verdicts.rs` and their neighbours change a store.
  - `reading.rs`, `search.rs`, `hits.rs`, `query.rs`, `usage.rs`, `accessors.rs` read it.
  - `plan.rs`, `idle.rs`, `operations.rs`, `routing.rs`, `execution.rs`, `publish.rs`, `reconcile.rs`,
    `listing.rs`, `cursor.rs` find out what a change consists of, plan it, guard it, run it, make
    it visible and list it.
  - `hydration.rs`, `loading.rs`, `recovery.rs`, `stage.rs` load a tenant at the start.
- `tests/` runs the library from outside.
- `app/` is the asynchronous store around the library: locks, the repository, scores and
  measurements, which are floating-point numbers, and what is written as JSON.

## Conventions

Moments are nanoseconds since 1970. The present moment and new ids are arguments. Floating-point
numbers are held as their 32 bits; measurements are held as fractions. Two records are the same
where they would be written alike: texts by their characters, numbers by their value. Documents
are cut into fragments by a function that the caller gives; what it is handed holds none of the
configured secrets. What a call of another crate returns is stated in its wrapper, or named there
where it takes pages to state.
