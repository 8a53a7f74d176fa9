//! The agent: its conversation, its turns and the tools it runs.
pub mod agent_laws;
pub mod calls;
pub mod collect;
pub mod compact;
pub mod compact_helpers;
pub mod compact_laws;
pub mod conversation;
pub mod effects;
pub mod laws;
pub mod registry;
pub mod reply;
pub mod spawner;
pub mod step_laws;
pub mod truncate;
pub mod turn;
pub mod turn_laws;
