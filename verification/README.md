# zap

The decision logic of the Zap terminal's dsh integration and embedded
webviews, written in Verus and proved against its contracts.

- `src/` is the verified library: the dsh runtime state machine and its
  laws, the bridge that turns `zap.*` page messages into events, the
  loopback endpoint's token and message handling, the dsh log, pid-record and
  update-channel logic, the git plumbing parsers of code review, the CEF input
  and page-lifecycle decisions, and the pane state machines.
- `tests/` runs the library on concrete inputs.
- `app/` is the host side: shared process state, files, child processes,
  the registry and CEF index downloads, and the axum loopback route. It reads
  and sends; every decision it acts on comes from the library.

Calls into `serde_json`, `semver`, `url` and `rand` stand in `src/` behind
small trusted wrappers whose contracts name what those crates return.
