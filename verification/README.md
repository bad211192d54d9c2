# clickpipe_rs

An event ingester for ClickHouse. Raw events (JSON Lines) are validated and
normalised, given a deduplication hash, and sent in `JSONEachRow` batches over
ClickHouse's HTTP interface. Configuration is layered: built-in defaults,
then environment variables, then command-line options.

Layout:

- `src/` is the library, written in Verus with its contracts proved:
  `validate` (normalisation and hashing), `config` and `console`
  (configuration layers), `sink` (the insert request and its body),
  `pipeline` (the validation stage of a run), `model`, `error`, `text`.
- `app/` is the program around it: command line (clap), environment,
  Ctrl+C handling, reading the input file (serde_json) and the HTTP call (ureq).
- `tests/` exercises the library.
