# lomway

A local MCP aggregation gateway: it serves the tools of 0..N loopback
MCP backends on one loopback endpoint, each backend's tools under its own
namespace prefix, and fails closed on anything outside its small policy.

The library in `src/` holds the gateway's rules with machine-checked
contracts:

* `config` — the public configuration model, its validation, `${VAR}`
  resolution, format detection, configuration-path precedence, the legacy
  `mcp-proxy` deployment model with its policy, and the migrations between
  the two schemas;
* `backend` — validated backend descriptors, the registry, and the startup
  decision drawn from per-backend probe outcomes;
* `namespace` — prefix rules and the collision-free tool-name plan;
* `health` — readiness tracking and the `/readyz` body;
* `gateway` — transport-recovery decisions, the served HTTP surface and
  northbound OAuth token checks;
* `cli` — the command set and the reports the binary prints;
* `error` — every error with its message.

`app/` is the `lomway` binary: argument parsing, file and network I/O, the
upstream proxy, the HTTP server and the recovery loop, each decision taken
by the library. `tests/` exercises the library on concrete inputs.
