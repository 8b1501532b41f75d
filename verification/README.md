# rift_workspaces

The virtual workspaces of a tiling window manager, verified with Verus.

Every native space of the desktop has a list of virtual workspaces, each a named
set of windows with a layout of its own. The library keeps track of them and of
single windows, applies app rules to new windows, and decides what to do when
native spaces, screens or windows change.

- `src/manager.rs` holds the workspaces; `src/manager_state.rs` is the model that
  its contracts speak of.
- `src/window_registry.rs` is what is known of single windows.
- `src/rules.rs` picks the app rule for a window.
- `src/space_events.rs` decides on events of native spaces, from the state in
  `src/reactor.rs` to the next state and a list of steps to take outside.
- `src/consistency.rs`, `src/laws.rs` and `src/event_laws.rs` state what holds
  across functions: above all that a window is in at most one workspace, the one
  that the registry names.
- `src/slots.rs`, `src/workspace_id.rs`, `src/rules.rs`, `src/text.rs` and
  `src/clock.rs` hold the calls into `slotmap`, `regex` and the standard library
  whose contracts are taken on trust.
- `app/` is the part around the library: geometry, records for serde, errors and
  logging, and the loop that takes the steps.
