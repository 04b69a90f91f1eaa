//! Verified core of a multiplayer agent runtime.

pub mod agent_watch;
pub mod append;
pub mod audience;
pub mod consistency;
pub mod delivery;
pub mod directory;
pub mod dogfood;
pub mod error;
pub mod event;
pub mod facts;
pub mod fixtures;
pub mod instances;
pub mod keyed;
pub mod laws;
pub mod laws_admission;
pub mod laws_children;
pub mod laws_directory;
pub mod laws_moves;
pub mod laws_projection;
pub mod laws_reading;
pub mod laws_relay;
pub mod laws_routing;
pub mod laws_script;
pub mod laws_tables;
pub mod laws_text;
pub mod laws_waiting;
pub mod laws_watching;
pub mod model;
pub mod notify;
pub mod outside;
pub mod parents;
pub mod presence;
pub mod projection;
pub mod relay;
pub mod report;
pub mod router;
pub mod session;
pub mod store;
pub mod subagent;
pub mod text;
pub mod time;
pub mod tools;
pub mod validate;
pub mod wait;
pub mod wait_machine;
pub mod watch;
pub mod watch_error;
pub mod watcher;
pub mod watches;
pub mod workspace;
