# subforge

The core of a proxy-subscription service, written in Verus: parsers for subscription
formats (`ss://`, `ssr://`, `socks5://`, `http://`, WireGuard URIs, INI-like lines,
Clash YAML/JSON documents), the aggregation of the nodes of several sources
(de-duplication, name conflicts, region groups), the decoding of subscription bodies,
the sanitation of logs and core API responses, and the decisions of the desktop shell
and the management API.

- `src/` is the verified library. Each public function states its result in `ensures`
  over spec functions; laws that relate several calls are public `proof fn`s.
  Calls into outside crates go through small `external_body` wrappers, each with a doc
  comment naming the call and what its contract claims.
- Workflows that alternate storage, file system or network work with decisions
  (creating or updating a source, installing a plugin, forwarding a front-end call) are
  verified step functions from state and event to next state and action. A caller is
  meant to perform each action and report the event; no such caller is included here,
  since the storage, plugin runtime and HTTP client they need are not part of this crate.
- `tests/` runs the library with the real outside crates.
- `app/` holds what Verus does not see: reading YAML/JSON into the library's document
  type, the file system, the clock, process-wide state and serde copies of library types.
