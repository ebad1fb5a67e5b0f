//! Verified core of a command palette for a terminal multiplexer: fuzzy
//! filtering, selection handling, pane trees, user configuration overlays.
pub mod text;
pub mod collections;
pub mod kdl;
pub mod model;
pub mod fuzzy;
pub mod focus;
pub mod selection;
pub mod state;
pub mod pane_tree;
pub mod user_config;
pub mod session;
pub mod palettes;
pub mod controller;
pub mod layout;
