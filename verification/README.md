# eval_core

A testing framework for LLM agents: a test case is a prompt, and its assertions are built-in
checks on what the agent did — which tools it called, with which arguments, what it finally said
or computed. The runner times every case, isolates panics, and assembles a report with a summary
table and a self-contained HTML dashboard.

## Layout

- `src/` — the verified library (Verus). Every public function states its result in its
  contract, up to what outside code computes: texts that the regex crate, serde_json or std
  produce are named and carried through, and the clock, random bytes and OS error texts are
  left to the caller or unstated:
  - `expect`, `calls`, `number`, `json`, `text` — the assertion library: the verdict of each
    `Expectation` over a run's artifacts, the JSON subset rule, the last-number grammar.
  - `runner` — run metadata and its builders, the record identity of a run, how a harness
    result and a panic become a `CaseOutcome`, the one-line error form.
  - `report`, `summary` — counts, token totals, mean latency, the nearest-rank latency, and
    the summary table.
  - `persist`, `upload`, `report_html` — file names (`slug`), run records, the EvalForge
    endpoint, the escaping and the page of the HTML report, the newest-first record order.
  - `order`, `case`, `baseline` — text order, stable sorting, and which `.ron` files are read
    in which order.
- `app/` — plain Rust around the library: the `Harness` / `Agent` / `Scorer` traits, the run
  loop (`catch_unwind`, timing, progress on stderr), file and network I/O, serde/RON forms of
  the types, and the statistics that are floating-point numbers.
- `tests/` — tests of the library's behaviour on concrete values.
