# metalps

A GPU process monitor for macOS ("like ps, but for the GPU") and a
Prometheus exporter for the same figures.

- `src/` is the verified core, checked with Verus: joining two snapshots
  of per-process GPU samples into per-process activity, seeding and
  filtering by PID, stable sorting, the text of byte counts and durations
  (including the exact rounding of one-decimal fixed notation), the
  human-readable report, the merging and validation of command-line and
  file configuration, and the gauge assignments of an exporter update.
  Each public function carries a contract; the `law_*` proof functions
  state properties that relate several functions or hold of every input.
- `app/` is the unverified shell: the command-line program, the exporter's
  HTTP server, the IOKit/Mach/libproc queries, clocks and sleeping, the
  serde/clap/thiserror copies of the library's types, and the
  floating-point conversions (utilization percentages, gauge values).
- `tests/` runs the library on concrete values, including cross-checks of
  the integer models of float formatting against `format!`.
