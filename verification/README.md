# noddo

The permission broker behind Noddo, a tray app that shows a coding agent's
`PreToolUse` permission prompts as desktop popups, written in Verus.

- `src/` is the verified library: the hook payloads (`models`), the table of
  requests that wait for a decision and the session's auto-allow list
  (`state`, read through `pending`), what the popup asks of the broker
  (`commands`), the decisions of the hook endpoint (`server`), the tray's
  decisions (`tray`) and the properties that span operations (`laws`).
  `channel` and `stamps` hold the few calls into tokio, uuid and chrono.
- `app/` is the desktop shell around it: tauri, the axum endpoint, the async
  lock around the broker, serde forms of the payloads, and window geometry.
- `tests/` exercise the library on concrete values.
