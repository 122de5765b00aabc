//! A three-stage task tracker: tasks move between a pending, an
//! in-progress and a finished list, and carry identifiers that are
//! handed out afresh, in list order, every time the lists are loaded.
pub mod task;
pub mod store;
pub mod text;
pub mod render;
pub mod command;
