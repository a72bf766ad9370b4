//! Composition of a terminal file explorer's configuration: merging a user
//! overlay onto a baseline, restricting key bindings for read-only sessions,
//! resolving modes by name, deriving help menus and checking the declared
//! version.

pub mod action;
pub mod config;
pub mod general;
pub mod key_bindings;
pub mod merge;
pub mod mode;
pub mod modes;
pub mod node_types;
pub mod ordered_map;
pub mod style;
pub mod text;
pub mod ui;
pub mod version;
