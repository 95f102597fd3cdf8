# nuphus

The logic of a desktop agent, verified with Verus: what it observes of the
desktop, which actions it offers and dares, how it runs a bounded automation,
how it talks to models, tools and services, and how it keeps what it knows.

- `src/` is the library. Every function states in its contract what it returns
  or changes, over mathematical models of its data; laws that relate several
  functions are public proof functions beside them.
- `app/` is ordinary Rust around the library: files, databases, processes, the
  network, the screen and the embedding model.
- `tests/` runs the library.

Outside work is never done in the middle of a decision. A run is a state that
names the work it waits for; the application does the work and hands back what
came of it.
