# central-logs

The core of a self-hosted, single-node logging server, written in Verus: what the
server decides and computes is stated in contracts and proved; what it reads, sends
and stores is ordinary Rust around it.

- `src/` is the library. `query` is the filter language and its SQL, `ingest` turns
  records into rows, `insert` reads what arrives over HTTP, OpenTelemetry, syslog,
  GELF, Fluentd, Splunk HEC and the Kubernetes audit webhook, `collector` reads
  container logs, `errors` groups errors, `alerts` evaluates rules, `dashboard` and
  `ai` talk to language models, `config`, `load`, `validate` and `units` are the
  settings, and `client` is the queue of a shipping client.
- `tests/` runs the library with the outside crates linked.
- `app/` is the server: HTTP, sockets, DuckDB, mail, clocks and floating point.

Floating-point numbers appear in the library as their bit patterns. Points in time
are seconds and nanoseconds since the epoch; the caller says what time it is.

What holds of the library as a whole is stated in public proof functions whose names
begin with `law_`.
