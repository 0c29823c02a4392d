# gateway_kit

The control plane of a Linux soft-router gateway: configuration and its
validation, host discovery, the change plan and the files it renders
(nftables, wg-quick, dnsmasq, sing-box), apply / disable / boot restore
decisions, health checks and the watchdog. The data plane itself is run by
nftables, WireGuard, sing-box and dnsmasq.

The library under `src/` is verified with Verus: every public function states
its result in `ensures`, over the views of the data types, and the laws of the
library (the apply gate, the stage machine's bypass on failure, the default
route that is never replaced, the watchdog's three strikes, CIDR arithmetic,
secrets patches, the apply journal, redaction, the rendered tunnel file read
back by the paste import) are proof functions next to the code they speak of.
The command runner keeps a ghost log of the calls it receives and of what it
answered when it can (`records_calls`); for such a runner the contracts of
discovery, health checks, apply steps and the emergency bypass say exactly
which commands were run, and the reports are stated over the answers given.

| Path | What it holds |
| --- | --- |
| `src/model.rs`, `src/config.rs`, `src/net.rs`, `src/secrets.rs` | configuration types, validation, IPv4/CIDR/MAC parsing, secrets |
| `src/wg.rs`, `src/proxy.rs` | WireGuard paste import, `vless://` proxy links |
| `src/discovery.rs`, `src/health.rs`, `src/command.rs` | host probes and health checks over an injectable command runner |
| `src/plan.rs`, `src/render.rs`, `src/tunnel_rules.rs`, `src/singbox.rs`, `src/redact.rs` | the change plan, rendered files (and that the tunnel rules are absent when the tunnel is off), redaction |
| `src/apply.rs`, `src/store.rs`, `src/watch.rs`, `src/paths.rs` | apply steps and stages, boot decisions, state-store formats, watchdog |
| `src/web.rs`, `src/monitor.rs` | API authorisation and asset types, host metric rules |
| `app/` | the `gateway-kit` binary: CLI, agent, HTTP API, SQLite store, file system and process I/O |
| `tests/` | tests of the library |
