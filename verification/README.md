# terminal_spectral_harness

Collaboration graphs of agents, and the spectral readings that a terminal
dashboard shows of them, written and verified in Verus.

- `src/graph.rs`: the graph. Nodes are registered by name, edges are added by
  agent id, and a snapshot of node indices is handed to the solvers.
- `src/readings.rs`: what solvers measured, and the status bar text.
- `src/dashboard.rs`: taking the readings again every so many ticks.
- `src/ticks.rs`: the counter behind that.
- `src/binary64.rs`: double-precision numbers as encodings, with their order.
- `src/model.rs`: the mathematical model that the contracts speak of.
- `src/laws.rs`: what holds of all operations together.
- `app/`: the terminal's side, with `f64` numbers, serialisation and the
  eigenvalue solver.
