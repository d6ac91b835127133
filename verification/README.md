# battery_pack

The logic of `cargo bp`, the battery-pack tool, as a library verified with
Verus: reading battery pack manifests into specs, resolving features to
crates, reading facts out of Cargo.toml text, planning and writing the
edits `add`, `sync`, template merging and `bp-managed` resolution make to
Cargo.toml (through `toml_edit`, which keeps the user's formatting),
merging workflow YAML files, registering the pack in `build.rs`, rendering templates, the
browser's key handling and screens, and the checks `validate` runs.

- `src/` is the library. Every function has a contract; the properties that
  span several functions are stated as `law_*` proof functions.
- `app/` is the command-line program around it: argument parsing with clap,
  files, the network, the terminal.
- `tests/` exercises the library on concrete inputs.

Calls into other crates (`toml`, `toml_edit`, `yaml-rust2`, `semver`, `syn`,
`regex`, `urlencoding`) go through small wrappers whose contracts say what the
library relies on; where a result takes pages to describe, the contract
gives it a name (a `pub uninterp spec fn`) and the library's own contracts
are stated in terms of that name.
