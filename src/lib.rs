//! A quick-launch catalog: discovered launchables, ranked substring search
//! and the command line each one is started with.
pub mod catalog;
pub mod command;
pub mod entry;
pub mod item;
pub mod launch;
pub mod locator;
pub mod rank;
pub mod text;
