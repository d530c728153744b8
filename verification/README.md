# rwatch

A lightweight cluster monitoring tool. An agent on each node exposes host memory
and Kubernetes resource metrics over HTTP; a terminal UI discovers the agents,
queries them concurrently and shows cluster-wide totals.

## Layout

- `src/` — the verified library (Verus):
  - `numeric` — the unsigned-integer and floating-point literal grammars;
  - `metrics::resource` — CPU (millicores) and memory (MiB) quantities, parsed and
    formatted. Integer forms are read exactly; decimal literals are checked here and
    converted in `f64` by the caller, which passes the converted value in. Nanocores
    (`n`) are divided by 10^9, as the documented example `1000000000n` -> 1 says;
    earlier releases divided by 10^6, so nanocore readings from a metrics server are
    now a thousand times smaller than they were there;
  - `metrics::{nodes, pods, summary}` — what the metrics endpoints compute from the
    quantities the metrics server reports;
  - `memory`, `memory_display` — `/proc/meminfo` readings and their display in GB;
  - `agent`, `discovery`, `client` — agent lists, discovery, and the aggregation of
    query results;
  - `dummy` — simulated pods for the test-data mode, drawn from a `rand` generator.
- `app/` — the program: the HTTP agent (axum, kube), the HTTP client (reqwest), the
  terminal UI, serialization, and the floating-point arithmetic (quantity conversions,
  percentages, simulated node usage).
- `tests/` — tests of the library.
