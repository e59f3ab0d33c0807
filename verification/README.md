# ssi_agent

The domain core of a self-sovereign identity agent: credential templates, catalogs and
catalogues of templates, the issuer's server configuration, and the reissuance of
credentials, written in Verus. Every aggregate is a `handle` (command to events) and an
`apply` (event to state), each with a contract over a mathematical model of its state, and
the properties that span several commands are proved as lemmas.

Layout:

- `src/json.rs`, `src/text.rs`: the JSON document model and the string operations the
  rest is stated over (trimming, sorting, joining).
- `src/template/`: templates, their attribute maps, schema and tag normalization, the
  Open Badges rules, the template views, and the template lifecycle laws (`laws.rs`).
- `src/catalog/`, `src/catalogue/`: collections of templates and their views.
- `src/server_config/`: issuer and authorization server metadata, credential
  configurations, and the commands that bring them in line with the settings at startup.
- `src/reissuance/`: the reissuance relation, the policy that allows it, and the
  reissuance process as a state machine whose actions the caller performs.
- `src/json_schema_validation.rs`: recognizing a credential's kind and version from its
  `@context` and reporting schema violations.
- `src/utils/generate_tx_code.rs`: transaction codes for pre-authorized offers.
- `app/`: what stays outside the verifier: conversion to and from `serde_json::Value`,
  loading the Open Badges schema, running `jsonschema` validators, choosing the startup
  commands for the stored configuration, and the loop that performs a reissuance's actions against a
  store.

Outside crates are reached through a few trusted wrappers, each documented where it is
declared: `chrono` (time and RFC 3339 parsing), `iso8601`, `jsonschema`, `serde_json`
and `rand`.
