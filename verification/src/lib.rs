//! A small local registry of navigator (co-author) and driver identities,
//! its on-disk formats, and the resolution of queries against it.

pub mod args;
pub mod config;
pub mod data;
pub mod delete;
pub mod drive;
pub mod edit;
pub mod lines;
pub mod list;
pub mod new;
pub mod text;
pub mod ui;
