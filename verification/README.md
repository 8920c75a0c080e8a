# sparrow

The verified core of a small streaming runtime for edge devices. The library
under `src/` is written in Verus: every function states in its contract what it
returns or changes, and the proofs are checked with it.

- `expr`: typed expressions over rows: inference, binding, evaluation.
- `mqtt`, `http`, `file_replay`, `file_lines`, `file_poll`, `log`: the
  connectors' rules: settings, framing, sessions, deliveries, positions in files.
- `policy`, `secret`, `tls`, `capabilities`: what connectors may reach and what
  they promise.
- `control`: pipeline specifications, the catalog with its sealed secrets, and
  the supervisor that makes jobs follow it.
- `bench`, `demo`: the plan and the checks of the benchmark and the demos.
- `model`, `table`, `text`, `ip`, `socket`, `diag`, `error`: what the others share.

Floating-point numbers are held by their IEEE 754 bits; arithmetic on them is
asked of the caller. Sockets, files, processes, the clock and the database are
the business of the program under `app/`, which hands the library plain values.

Calls into other crates stand behind small functions whose contracts are
believed: sealing and opening of secrets and random bytes (`ring`), parsing of
URLs (`url`), reading of JSON bodies (`serde_json`), and a few conversions of
the standard library. Each says what it claims.

`tests/` runs the library.
