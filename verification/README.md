# mquickjs_rs

Verified building blocks of an embedding of the mquickjs JavaScript engine,
written in Verus.

- `src/` is the library, verified by Verus. The single-owner types carry
  exact contracts; the lock-guarded wrappers shared between threads
  (`SharedTaskManager`, `SharedRootsRegistry`, `ThreadSafeEventQueue`)
  state only what holds of every interleaving. It covers the task manager
  and cancellation rules of the async bridge, event queues and stream
  subscriptions, GC-root slots, the RIDL lexer, grammar, parser and code
  generator, the decisions of the RIDL build helpers, the plan of the
  native engine build, and the per-context extension slots.
  Laws that relate several operations stand as public proof functions named
  `law_*`.
- `tests/` runs the library on concrete inputs.
- `app/` holds what Verus does not see: the `mquickjs-build` command line,
  file and process I/O, JSON and TOML decoding, the worker threads that
  drive bridged futures, and the floating-point value snapshots.
