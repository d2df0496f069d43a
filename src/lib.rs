//! Core of a directory-listing tool: entry filtering, ordering, name
//! decoration, size and permission rendering, column layout, identity-name
//! caching and the recursive walk plan.

pub mod text;
pub mod entry;
pub mod mode;
pub mod size;
pub mod order;
pub mod layout;
pub mod long;
pub mod names;
pub mod stamp;
pub mod collect;
pub mod walk;
pub mod config;
pub mod listing;
