//! Configurable directory discovery for a terminal session manager.
//!
//! The crate models one run of the discovery engine: configured search
//! roots are expanded (home directory and environment variables), each
//! root's effective depth budget and hidden-entry policy are resolved,
//! and a bounded-depth walk over a directory snapshot turns the roots
//! into one flat candidate list.

use vstd::prelude::*;

pub mod config;
pub mod engine;
pub mod error;
pub mod expand;
pub mod laws;
pub mod paths;
pub mod picker;
pub mod session;
pub mod walker;

pub use config::Config;
pub use config::ResolvedRoot;
pub use config::SearchPath;
pub use config::Settings;
pub use error::Error;
pub use expand::expand_path;
pub use picker::picker_input;
pub use picker::picker_invocation;
pub use picker::split_invocation;
pub use picker::strip_last_char;
pub use session::attach;
pub use session::has_session;
pub use session::new_session;
pub use session::switch;
pub use paths::get_dir_name;
pub use paths::path_file_name;
pub use paths::is_hidden_path;
pub use walker::walk;
pub use walker::FsEntry;
