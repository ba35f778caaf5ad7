# kit

The logic of `kit`, the command-line tool for building, setting up and
running Hyperware/Kinode packages, as a Verus library with proved contracts.

## Layout

- `src/` — the verified library.
  - `naming`, `casing`, `text`: name conversions (kebab, Pascal, snake, WIT
    identifiers) and the string helpers they rest on.
  - `rust_model`, `rust_source`: Rust source files read with `syn` into a
    plain model of their items.
  - `wit_types`, `wit_gen`, `wit_world`: WIT interface generation from a
    hyperprocess (types, signature records, definition order, world files).
  - `wit_parse`, `ts_types`, `ts_emit`, `caller_utils`: reading WIT files and
    writing the TypeScript caller utilities.
  - `build_rules`, `setup`, `chain`: the decisions of `kit build`, `clean`,
    `update`, `setup` and `chain` (arguments, dependency checks, version
    choice, ABI encoding, the steps of starting a chain).
  - `templates`, `todo`, `llm_state`, `llm_http`, `llm_test`: the state and
    message handling of the template processes.
  - `logging`: restoring ANSI escapes in log output.
- `app/` — the program around the library: argument handling, the file
  system, processes, HTTP and JSON-RPC, and the serde copies of library
  types.
- `tests/` — tests of the library on concrete values.

Calls into outside crates (regex, toml, uuid, hex, alloy, serde_json, syn)
stand behind small trusted wrappers whose contracts say what the crates'
sources show; everything around them is verified.
