# controlpath_cli

The library behind the `controlpath` command line: a Git-native feature flag
workflow with a committed flag catalog (`control-path.yaml`), compiled
per-environment artifacts, kill switch files and a generated TypeScript SDK.

## Layout

- `src/` — the verified library (Verus). Every public function states what it
  returns or changes in `requires`/`ensures`, over mathematical models of the
  data (`JsonView` for documents, `Seq<char>` for text).
  - `json.rs`, `text.rs`, `paths.rs` — JSON documents, text and path helpers,
    including the compact JSON text of a value.
  - `utils/` — catalog edits (`unified_config`), kill switch files, project
    configuration, branch-to-environment mapping, language detection, runtime
    options.
  - `commands/` — the decisions and the output of each command; `debug` and
    `evaluation` hold the rule evaluator of the debug UI, `explain` the layer
    that decides a flag's value.
  - `saas/` — the offline SaaS service (sync, retirement, telemetry), remote
    artifact checks (ed25519 signatures), endpoints and HTTP paths, the flag rot
    report.
  - `monorepo/`, `ops/`, `generator/` — service paths, compile and SDK options,
    the TypeScript template data.
- `app/` — the program: argument parsing, files, prompts, the web server of the
  debug UI, and the calls into the catalog compiler.
- `tests/` — tests of the library on concrete values.

Laws that span several operations are public proof functions named `law_*`
(for example `utils::unified_config::law_enable_appends_rule`,
`saas::sync::law_second_sync_retires_nothing`).
