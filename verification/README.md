# agt — agent governance, verified

A library for governing AI agents on a mesh, with its behaviour stated as
`requires`/`ensures` contracts and proved with Verus, and a command-line
program around it.

## Layout

- `src/` — the verified library.
  - `ring` — privilege rings and the ring check.
  - `identity`, `attestation`, `registry`, `keystore` — DIDs, Ed25519
    identities, registry attestations, request-signature checks.
  - `escalation` — escalation requests, signed approval and denial.
  - `governance`, `policy_store` — MCP tools, argument-aware data
    classification, per-agent policies and the decision on a tool call.
  - `compliance`, `audit`, `action_log` — GDPR/SOX rules, action records and
    the hash-chained action log.
  - `discovery` — presence reports and shadow-agent detection.
  - `kernel` — the stateless execution kernel and its state backend.
  - `circuit_breaker`, `saga` — reliability primitives.
  - `gateway`, `server`, `wire` — the daemon's and MCP gateway's decisions
    on requests, and the wire form of messages.
  - `text`, `codec`, `crypto`, `clock`, `strmap`, `idmap` — strings,
    encodings, SHA-256/Ed25519, time, and string/id-keyed maps.
- `tests/` — tests of the library.
- `app/` — the `agt` program: command line, HTTP daemon and gateway, files.

Calls into `sha2`, `ed25519-dalek`, `base64`, `hex`, `uuid`, `chrono` and
`rand` are made through small trusted wrappers whose contracts name what the
call computes.

## Implementing the library's traits

`ComplianceRule`, `PolicyStore`, `KeyStore`, `AgentRegistry` and
`StateBackend` are meant to be implemented by users. Each carries spec
functions that say what an implementation's answers may be (a rule's
verdict, a store's contents and answers), so an implementation is written
as verified code beside the library's own and proved against them. `BuiltinRule` shows how several
rule types are put behind one type for a `ComplianceVerifier`.
