//! ClipVault's core: the clipboard history store, its search, and the rules
//! that turn clipboard contents, archive listings and file previews into the
//! records the user interface shows.

pub mod text;
pub mod encode;
pub mod json;
pub mod search;
pub mod history;
pub mod laws;
pub mod raster;
pub mod capture;
pub mod preview;
pub mod archive;
pub mod commands;
pub mod window;
pub mod settings;
pub mod snippets;
pub mod stats;
