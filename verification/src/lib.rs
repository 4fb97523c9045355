//! Launch-file handoff: the native side of a desktop shell that forwards a
//! markdown file path (from the command line or an OS open-file event) to the
//! UI layer.
//!
//! The pieces are:
//! - [`path_ext`]: recognising a markdown file path by its extension,
//!   compared ASCII-case-insensitively;
//! - [`state`]: the single-slot store that holds a path until the UI claims
//!   it with a fetch-and-clear query;
//! - [`scan`]: the startup argument scanner and the store-and-emit routing
//!   that both the scanner and the OS open-file hook funnel through;
//! - [`commands`]: the query commands the UI layer can call.

pub mod commands;
pub mod path_ext;
pub mod scan;
pub mod state;
