//! Verified core of a two-panel terminal file manager that copies files over SSH:
//! directory listings, cursor and selection state, key and mouse handling,
//! saved-host lookup and the text the screen shows.

pub mod text;
pub mod util;
pub mod listing;
pub mod ssh;
pub mod file_ops;
pub mod ui;
pub mod app;
pub mod events;
pub mod store;
pub mod login;
