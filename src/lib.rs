//! Serves game save files to an interactive map viewer: the decisions of the
//! server (which save a request names, which names the catalog lists, which
//! headers every response carries) as verified functions.

pub mod catalog;
pub mod config;
pub mod cors;
pub mod error;
pub mod resolver;
pub mod text;
