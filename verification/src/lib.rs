//! Incremental state engine for a single monitor's strip of workspaces.
//!
//! The engine consumes workspace-change events and keeps an ordered registry
//! of rendered widget buttons, one per workspace that lives on the configured
//! monitor.

pub mod text;
pub mod registry;
pub mod visibility;
pub mod markup;
pub mod identity;
pub mod reducer;
pub mod laws;
