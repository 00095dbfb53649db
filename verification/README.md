# senv

Sandboxed Python environments with the workflow of uv: dependency
installation and code execution each run under their own policy, and the
policy file is watched for widenings made behind the user's back.

The decisions senv makes are a Verus library, `src/`, proved against its
contracts:

- `config`, `policy` — reading `senv.toml` and compiling each phase's policy
  (grants, network, limits, tier choice).
- `trust` — the snapshot of the security-relevant settings, the widenings
  between two snapshots, and the laws of the trust gate.
- `project`, `paths` — where a project's state lives, and the refusal of a
  state or cache root that overlaps the project.
- `receipt`, `exec` — inferring denials from a command's output, receipts,
  and what senv prints about them.
- `uv`, `manifest`, `toml_value` — finding uv, staging resolutions and
  reviewing what a staged resolution changed.
- `cmd` — what each command concludes and prints; the sync sequence is a
  state machine (`cmd::install::SyncMachine`).
- `error` — senv's errors, each refusal with the change that would fix it.
- `text`, `util`, `lines`, `order` — text, numbers, sanitizing and output lines.

`app/` is the program around the library: the command line, files, the
sandbox engine and printing. `tests/` exercise the library from outside.
