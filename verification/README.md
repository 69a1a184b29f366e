# vhost_enumerator

A virtual-host fuzzer: for each word of a wordlist it asks a web server for
`/` with the `Host` header set to `word.domain`, and reports the hosts whose
answer differs from the server's answer to a random, surely unknown host.

- `src/` is the verified library (Verus): argument resolution
  (`constants`), argument parsers and wordlist text (`parsers`), decimal
  numbers and line splitting (`text`), probe headers (`requester`), run
  state and calibration host (`fuzzer`), probe verdicts and report lines
  (`probe`), the request counter line (`progress`).
- `app/main.rs` is the command-line program: arguments, files, downloads,
  HTTP requests, tasks and printing.
- `tests/` runs the library on concrete values.
