# zellij_project_sidebar

A sidebar for the Zellij terminal multiplexer that lists project sessions:
which run, which have exited, which ask for attention, what the AI agent
in each is doing, and lets the user
switch to, start, or kill them. The library holds the sidebar's logic,
verified with Verus; `app/` is the plugin that connects it to Zellij.

## Layout

- `src/model.rs`: projects, session statuses, what the host reports
  (sessions, keys, mouse) and what the sidebar asks of it.
- `src/strings.rs`: ordering, decimal text, prefixes, subsequences, line
  splitting; the calls into `std` for lowercasing, path components and
  UTF-8 decoding.
- `src/store.rs`: statuses by session name in key order, and the set of
  sessions that ask for attention.
- `src/sessions.rs`: the status of each session in a session update.
- `src/sorting.rs`: projects ordered by lowercased name.
- `src/config.rs`, `src/discovery.rs`: the configuration, and the
  directories a scan lists.
- `src/ai.rs`: AI agent activity per session, from pipe messages and from
  the shared state files.
- `src/render.rs`: project rows, layout and key binding texts.
- `src/warnings.rs`: the warnings about a configuration.
- `src/state.rs`: the state and its reaction to each event, stated over
  `StateView` and proved.
- `src/laws.rs`: properties that hold of every state and input.
- `app/main.rs`: the plugin: converts the host's events, reads the shared
  AI state files when the timer goes off, performs the requests, prints
  the warnings and what the library draws (as zellij-tile's `Text`).
