# herdr-scratch

Persistent named scratchpads for the Herdr terminal workspace manager, with
their logic verified in Verus.

Users work with scratchpad names, scopes (`global`, `workspace`, `cwd`),
profiles and lifecycle states; the plugin keeps a versioned registry of soft
runtime handles and talks to Herdr through a backend adapter.

## Layout

- `src/` — the verified library.
  - `text.rs`: trimming, control characters, ordering and joining of text.
  - `text_map.rs`: a string-keyed map kept in ascending key order.
  - `json.rs`: JSON values as the library reads them.
  - `config.rs`: configuration, its defaults, and where files live.
  - `registry.rs`: registry records, keys and lifecycle states.
  - `herdr.rs`: the backend adapter's trait, Herdr's command lines and the
    reading of its replies.
  - `cli.rs`: the commands and their arguments.
  - `scratchpad.rs`: what each command does, stated as a contract over the
    registry and the configuration.
  - `output.rs`: the lines a report is written as.
  - `laws.rs`: properties of the commands taken together.
- `tests/` — tests of the library on concrete values, with a fake Herdr.
- `app/` — the program: argument parsing, reading and writing the
  configuration and the registry, running `herdr` and the socket, printing.

The contracts of the commands are in `scratchpad.rs`; the properties that
span commands are in `laws.rs`.
