# goku

A small HTTP load-testing tool. `goku attack <url> [options]` sends one
request `--try-count` times in rounds of `--concurrent-request` parallel
calls and logs, per call number, how long each call took and its status;
`goku report <test-name>` reads such a log back.

- `src/` is the verified library (Verus): request preparation
  (`engine::http`), raw request text (`engine::tcp`), attack scheduling and
  bookkeeping (`goku`), configuration (`config`), log records
  (`goku_data_io`) and decimal text (`text`).
- `app/` is the command-line program around it: argument parsing, the
  environment, files, threads and the network.
- `tests/` runs the library on concrete inputs.
