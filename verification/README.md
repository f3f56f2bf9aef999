# mtld3d_diag

The verified core of the unix-side diagnostics.

* A fatal signal leads to a crash report on the standard error stream and to the
  end of the process. The report is a state machine (`src/handler.rs`): it asks
  for one action at a time and is told its result. `src/trace.rs` proves what
  whole reports look like: their sections and their order, that they end, that
  the scans of the stack come last and print no more than their caps.
* The cycle counter is calibrated once against the wall clock, and durations are
  converted to cycles (`src/tsc.rs`).

`src/` is verified by Verus. It trusts three constants of the `libc` crate, the
numbers of `SIGSEGV`, `SIGBUS` and `SIGABRT`. `app/` installs the handler,
carries out the report's actions and reads the counter.
