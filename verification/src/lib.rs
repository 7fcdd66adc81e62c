//! Core of a dual-pane terminal file manager.
//!
//! The crate holds the coordination engine of the application: the panel and
//! item data model, the directory-listing order, cyclic index navigation, the
//! popup confirmation state machine, and the reducer that maps each UI action
//! to a state transition plus a request for outside work (a command to run or
//! a directory to rescan).  Everything that touches the terminal, the
//! filesystem or a process lives outside this crate and talks to it through
//! plain values.

pub mod action;
pub mod filelist;
pub mod panel_context;
pub mod panel_item;
pub mod panel_item_context;
pub mod pathops;
pub mod sorting;
pub mod state;
pub mod state_store;
