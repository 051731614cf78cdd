//! State reconciliation for emoji decorations on pane and tab titles.

pub mod command;
pub mod debug;
pub mod laws;
pub mod model;
pub mod resolver;
pub mod snapshot;
pub mod state;
pub mod store;
pub mod tab_index_tracker;
pub mod text;
pub mod title;
