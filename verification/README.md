# chanlib

Verified utilities for small concurrent programs.

- `src/cli.rs` finds the configuration file named on the command line
  (the argument after the first `config`) and picks the format it is read
  in from its extension (YAML, TOML or JSON; YAML when the extension names
  none).
- `src/crossbeam/` holds the channels:
  - `broadcast.rs`: a broadcast channel whose listeners each receive every
    message sent after they were made, and which forgets listeners that
    are gone; and a notifier/watcher pair that only broadcasts a value when
    it differs from the last one broadcast.
  - `priority.rs`: a receiver that moves pending messages into a buffer
    kept in ascending order and always hands out the largest one.
  - `outside.rs`: the trusted calls into `crossbeam_channel` and
    `std::sync`, each with the contract it is trusted to meet.
- `app/` is ordinary Rust around the library: reading the process
  arguments and configuration files (`clap`, `config`, `serde`), spawning
  onto tokio, and an error-logging macro (`log`, `anyhow`).

The tests under `tests/` exercise the library against the real channel
crate.
