//! Virtual workspaces on top of native spaces: the window registry, the
//! workspace manager, the app rules and the decisions taken on space events.
pub mod clock;
pub mod config;
pub mod consistency;
pub mod event_laws;
pub mod floating;
pub mod hiding;
pub mod id_map;
pub mod ids;
pub mod laws;
pub mod lists;
pub mod manager;
pub mod manager_laws;
pub mod manager_state;
pub mod reactor;
pub mod record_laws;
pub mod rule_laws;
pub mod rules;
pub mod slots;
pub mod space_events;
pub mod state_laws;
pub mod step_laws;
pub mod text;
pub mod text_laws;
pub mod view_laws;
pub mod window;
pub mod window_registry;
pub mod workspace;
pub mod workspace_id;
