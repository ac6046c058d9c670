# thane

The decision-making core of thane, a terminal workspace manager for coding
agents, written in Verus. Every function in `src/` carries a contract; the
verifier proves all of them except the small trusted wrappers around
outside crates described below, whose contracts are believed.

## Layout

- `src/` — the verified library.
  - Sandboxing: `sandbox` (resource limits), `policy` (the per-workspace
    sandbox policy and its rules), `landlock`, `seccomp` (the BPF filter that
    refuses the blocked system calls), `namespace`, `seatbelt` (the macOS
    profile and helper command line).
  - Persistence: `audit` (encrypted, rotated audit log), `crypto`,
    `timestamp`, `stores` (session, history and queue history files),
    `secrets` (keyring and encrypted-file fallback).
  - Control socket: `protocol`, `params`, `methods`, `ipc`, `auth`,
    `headless`.
  - Terminal and workspace state: `osc`, `workspace_status`, `version`.
  - Platform: `dirs`, `paths`, `pidlock`, `platform`, `text`, and the module that keeps
    thane's instructions in the coding agent's memory file.
- `tests/` — tests of the library on concrete values.
- `app/` — the program around the library: argument handling, sockets,
  files, system calls, and the serde copies of the wire types.

Calls into outside crates (AES-GCM, HKDF, the OS random generator,
serde_json, `dirs`, `nix`, `libc`) sit behind small trusted wrappers whose
contracts are stated in their doc comments; everything built on them is
verified.

## Checking

Verify the library with Verus; build and run the tests with cargo.
