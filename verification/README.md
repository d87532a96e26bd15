# vpn_core

The logic of a desktop VPN client and of its server-side node agent, as a
Verus library: every function in `src/` carries a contract that Verus proves.

## Layout

- `src/command.rs` — the executor boundary. The library decides which
  commands to run and how to read their answers; a `CommandExecutor` runs
  them. Its spec function `answers` names the answers an executor may give
  (any, unless an executor says more; `DryRunCommandExecutor` always succeeds),
  and the relation `runs` says what a plan of commands may end in.
- `src/linux.rs`, `src/macos.rs`, `src/windows.rs` — DNS, kill switch, split
  routes and VPN adapters per platform, each stated as the exact commands it
  hands to the executor.
- `src/desktop.rs` — the cross-platform layer and the auto-connect decision.
- `src/session.rs` — the WireGuard session: interface setup, the policy with
  its rollback, and the manager that starts, updates and stops a session.
- `src/daemon.rs`, `src/agent.rs` — the local agent's requests and state.
- `src/node.rs` — the node agent: configuration, peer directives, region
  lookup, directory addresses and payloads, server keys and the session cap.
- `src/admission.rs` — the admission endpoint's decisions: which key a
  token names, the token's check through `jsonwebtoken`, and the session
  cap.
- `src/auth.rs`, `src/store.rs`, `src/ui.rs`, `src/gui.rs` — login and
  profiles, keychain storage, the UI's server settings and state machine.
- `src/text.rs`, `src/codec.rs`, `src/wg.rs`, `src/ipv6.rs`, `src/tun.rs` —
  text, Base64/SHA-256/X25519, addresses and TUN interfaces.
- `app/` — the programs around the library: process execution, files, HTTP
  servers and clients, command-line handling.
- `tests/` — tests of the library on concrete values.

Public proof functions whose names start with `law_` state the properties
that hold across calls (for example that a failed policy stage rolls back
exactly the stages before it, and that each kill switch fails closed).
