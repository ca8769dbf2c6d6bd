# ham

A verified library for HAM, an asset-management system: a catalog of assets
grouped in categories, tagged with typed values that change through events.
Every function in `src/` carries a contract that Verus proves. The few
calls into outside crates (`url`) and into parts of std that vstd does not
specify stand behind small trusted wrappers. Their contracts say what std
documents (`String::push`, `str::trim`; nothing for the `Hash` impls that
feed the idempotency scope hash), or, for `url`, only name the URL
the crate builds from the given texts, for inputs within a size limit past
which the crate panics.

## Layout

- `src/text.rs`: text helpers over character sequences (decimal spelling and
  parsing, padding, splitting, lexicographic order, substring search).
- `src/json.rs`: JSON values with a mathematical view, equality as JSON, and
  the canonical form with sorted keys.
- `src/domain.rs`: event types, mutations and how an event changes an asset's
  state; typed tag values and their validation; idempotent replays.
- `src/server.rs`, `src/server_db.rs`, `src/category_hints.rs`: the server's
  decisions: request checks, replies to errors, guarded deletions, event
  listing pages, asset-tag generation and asset creation with its retries
  past taken tags, schema versions, the walk up the category tree.
- `src/search*.rs`: asset search: filter validation, predicates, sort orders,
  category subtrees, and the page of results.
- `src/cli.rs`, `src/cli_run.rs`: the command-line grammar, its error output,
  and the scripted core flow as a state machine that emits requests.
- `src/gui.rs`, `src/asset_groups.rs`: the desktop client's controller (catalog,
  asset detail, event forms, URLs) and the catalog grouped by category. The
  server connection is a trait for the client's users to implement; the
  controller's contracts say which requests it makes and build on the
  answers, whatever they are.
- `src/shared.rs`, `src/ui_db.rs`, `src/ham_app.rs`, `src/ham_pages.rs`,
  `src/category_ancestry.rs`, `src/elm.rs`, `src/remote.rs`, `src/iced_*.rs`,
  `src/ham_server.rs`: the editor front ends as state machines over the shared
  model, their pages' decisions, and the row grouping of the editor's server.
- `tests/`: tests on concrete values.
- `app/`: the command-line program around the library (argument handling,
  HTTP calls, JSON text).
