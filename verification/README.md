# ML release control plane

A release control plane for ML models: candidate releases are registered,
evaluated against metric-gate policies, deployed as canaries, then promoted,
rolled back or failed, under one central transition table.

## Layout

- `src/` is the library, written in Verus and verified:
  - `domain/states.rs`: the lifecycle states and the transition table, with
    the laws that terminal states have no successor, that every transition
    moves forward, and that persisted state names read back to their state.
  - `domain/policy.rs`: parsing of `{"gates": {...}}` policies and gate
    evaluation, each stated exactly by spec functions.
  - `domain/models.rs`: the release record and the changes a transition, an
    evaluation or a failure makes to it.
  - `application.rs`: the decisions of the release service (new releases,
    evaluation outcomes, the deployment steps, promotion and rollback).
  - `api.rs`: field validation and the HTTP answer to each service error.
  - `repository.rs`: SQLite URL normalisation, stored timestamps and metrics.
  - `json.rs`, `text.rs`: JSON values with IEEE 754 doubles held by their
    bits, and character-level string helpers (Unicode white space, trimming,
    UTF-8 length).
- `app/` is the server: environment, SQLite through sqlx, the asynchronous
  service loop and the axum routes. It performs the I/O and asks the library
  for every decision.
- `tests/` exercises the library on concrete values.
