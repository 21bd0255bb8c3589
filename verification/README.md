# fermio

A local-first static analyser for PHP projects, written in Verus. The library in `src/` is
verified: every public function carries a contract over mathematical models (`Seq`, `Map`,
views of the library's types), and the properties that relate several operations are stated
and proved as public proof functions in `src/laws.rs`.

## Layout

- `src/text.rs`: text helpers (trimming, case folding, decimal numbers) with their models.
- `src/findings.rs`: severities, locations, findings, scan results and fingerprint baselines.
- `src/ir.rs`: the language-neutral intermediate representation and its well-formedness.
- `src/syntax.rs`: the library's own syntax tree, copied from the tree-sitter PHP grammar's
  parse of a text; its contract names each fact tree-sitter reports of a node by the text and
  the node's path of child indices.
- `src/php.rs`: the PHP frontend: an exact model of the lowering of syntax trees to the
  intermediate representation, syntax diagnostics and framework detection.
- `src/taint.rs`, `src/scope.rs`, `src/analysis.rs`: taint facts, the per-scope analysis as a
  state machine over instructions, and function summaries computed to a bounded fixed point.
- `src/rules.rs`, `src/object_sql.rs`, `src/rulepack.rs`: the compiled rules, the
  receiver-aware object SQL analysis and declarative rulepacks with their validation.
- `src/fingerprint.rs`: SHA-256 fingerprints of rule, normalized path and anchor.
- `src/config.rs`, `src/cli.rs`, `src/engine.rs`, `src/report.rs`: configuration validation,
  rule selection and severity overrides, the scan engine's bookkeeping, and the terminal and
  SARIF reports.
- `src/laws.rs`: baselines, overrides, fingerprints, thresholds, sanitization domains, one
  report per output statement (also through helper functions), redacted secrets and lowering
  scopes.
- `app/`: the command-line program: argument parsing, file discovery, reading and writing
  files, TOML and JSON parsing, and JSON output.
- `tests/`: tests of the library on concrete inputs.

## Trusted code

Calls into `sha2`, `serde_json`, `tree-sitter`, `tree-sitter-php` and two `std` functions go
through small `#[verifier::external_body]` wrappers. Each has a contract, and a doc comment
that says what the contract claims of the called function. Where a result is a function of
its arguments too long to write out (the SHA-256 digest, a JSON document's member names,
what the PHP grammar makes of a text), the contract names it with an uninterpreted spec
function of the arguments.
