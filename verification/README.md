# verifiable_intelligence

Verified core of a toolkit for receipt-bearing, CommitLLM-audited LLM
inference: the binary formats, the error taxonomy and the decisions of the
`vi` command line, written in Verus with every function proved against its
contract.

## Layout

- `src/` — the verified library.
  - `envelope`, `binding`, `key_binding`, `receipt_binding`, `audit_binding`:
    the `VIKY`/`VIRC`/`VIAU` envelopes and their CRC-framed binding headers,
    with round-trip laws for each codec.
  - `errors`: the `ViError` taxonomy, messages, machine-readable details and
    the stderr error envelope.
  - `client`: multipart chat-response parsing, endpoint and header rules,
    HTTP status and transport-failure classification.
  - `log`: filter precedence, trace identifiers and field redaction.
  - `keygen`: the canonical checkpoint file order and hash.
  - `bundle`, `compression`: the browser verifier's proof-bundle checks and
    the zstd shim.
  - `cli`, `tui`, `pins`: the command-line boundary decisions, the terminal
    runtime hand-off and the upstream pins.
  - `text`, `checksum`: shared text helpers, CRC-32C and SHA-256.
- `tests/` — scenario tests run against the compiled library.
- `app/` — the `vi` binary: argument parsing, process hooks, HTTP transport,
  the tracing subscriber, directory reading and the WASM bindings.
