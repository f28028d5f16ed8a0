# FlowLog

A log pipeline: an emitter stamps records, a processor drops those below the
configured level and names the sinks for the rest, and each sink renders or
stores the record (console line, rotating `log-<date>.log` files, S3 staging
file). Hot reloading is driven by a watcher on `config/log.toml`.

Layout:

- `src/` — the library, written in Verus: every decision (level filtering,
  configuration building, console formatting, file rotation, S3 keys and
  staging-file rotation, watch-loop steps) with its contract and the laws
  that relate the functions.
- `app/` — the program around it: the logging macros, the shared sink
  instances, reading the configuration file, the file system, the S3 client
  and the file watcher.
- `tests/` — tests of the library on concrete values.
