# overseer

The core of a node's overseer, verified with Verus. The overseer keeps the set of active leaves of
the chain, tells the subsystems about every change of that set, and answers whoever waits for a
block to become an active leaf.

- `src/`: the verified library.
  - `state.rs` holds the overseer's state as a mathematical value and what each event does to it;
    `overseer.rs` and `run.rs` implement that, and `laws.rs` proves what holds of it as a whole.
    Listeners who are given up are handed back unanswered; whoever runs the overseer drops them,
    which closes their channels.
  - `listeners.rs` is the only place that relies on code outside the library: sending on, and
    polling, a oneshot channel of the `futures` crate.
  - `leaf_map.rs` is the map from block hashes to values that the state is kept in.
  - `handler.rs` is the way into the overseer, `subsystems.rs` and `dispatch.rs` are about the
    subsystems and the messages they get, and `metrics.rs` is about what is counted and measured.
- `tests/`: tests of the library with real channels.
- `app/`: the asynchronous service around the library: channels, the main loop, the connection to
  the client's runtime, and the code generator for the dispatch of network events.
