//! Core of a retained-mode widget toolkit: geometry, size-rule algebra,
//! layout solving, widget identifiers and window event state.

pub mod geom;
pub mod size_rules;
pub mod layout;
pub mod widget_id;
pub mod event;
pub mod grab;
pub mod slots;
pub mod config;
pub mod state;
pub mod util;
