# criterion_core

The core of a micro-benchmarking library, written and verified with Verus.

- `src/` is the library. `bencher` holds the timing loops, `session` makes their calls and writes
  them down, `record` says what each loop leaves in that record, and `step_laws` and `record_laws`
  what follows from it. `batch_size` is how iterations are divided into batches.
  `criterion` is the benchmark manager, `configure` how a command line changes it, `benchmark` how
  benchmarks are named and grouped. `float` and `decimal` are the numbers of the settings.
- `tests/` runs the library.
- `app/` is the process around it: environment, command line, output.
