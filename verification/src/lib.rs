//! RusioDB's core: connection settings, catalog classification, result
//! shaping, saved profiles, update checks and the desktop session's state
//! machine.

pub mod text;
pub mod db;
pub mod drivers;
pub mod catalog;
pub mod connections;
pub mod results;
pub mod mongo;
pub mod updater;
pub mod session;
pub mod explorer;
pub mod screen;
pub mod properties;
