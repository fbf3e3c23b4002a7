# toolgate

Harness-side guardrails that bound what coding agents read, edit and run,
written in Verus.

- `src/` is the verified library: bounded reads (`read`), exact-string
  edits with a capped diff (`edit`), the head+tail output clipper (`run`),
  the command safety rules (`gate`), the hook policy (`policy`), harness
  payload adapters (`adapters`, over the JSON model in `json`), telemetry
  rows (`telemetry`), hook settings (`hook`), and the text, path and digest
  helpers they share (`text`, `path`, `digest`). Each public function states
  its result over spec functions; the `law_*` proof functions state the
  properties that span calls.
- `app/` is the `toolgate` program: the command line, file and process
  I/O, the hook driver over stdin/stdout, the MCP server, the remote Jev
  score (with its floating-point thresholds), and the JSON/TOML wire forms.
- `tests/` runs the library on concrete values.
