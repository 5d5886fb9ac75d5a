//! Turns declarative service descriptions into service-manager unit files.
//!
//! The crate holds the decisions of the tool and nothing else: which files of
//! a directory are read, what a parsed file must look like, which values a
//! description may carry, what text a description is rendered to, and which
//! steps a deployment takes in each mode. Reading files, parsing their syntax
//! and talking to the service manager are left to the caller, who hands plain
//! values in and performs the actions that come back.
//!
//! The way of a description through the crate:
//!
//! - `loader` decides how the input path is read and which files count;
//! - `document` reads the descriptions out of a parsed file;
//! - `loader::collect` gathers the descriptions of all files and sets aside
//!   what cannot be used;
//! - `descriptor` holds a description against the schema of `service_struct`;
//! - `render` writes the unit file, and `reading` and `fidelity` say what can
//!   be read back from it;
//! - `deploy` names the steps that bring the unit file to its target.

pub mod decimal;
pub mod deploy;
pub mod descriptor;
pub mod document;
pub mod error;
pub mod fidelity;
pub mod loader;
pub mod reading;
pub mod render;
pub mod service_struct;
mod text;
