//! Discovery of project directories for an interactive picker.
//!
//! A discovery expands the configured search roots, which are glob
//! patterns, keeps the matches that are directories, looks in each for a
//! preview file, and hands the directories out as records sorted by name.
//!
//! [`dirs::get_dirs`] does all of that.  What it asks of the filesystem goes
//! through the few calls of [`walk`]; what it makes of the answers is
//! [`records::assemble`], which is stated and proved for every answer that
//! the filesystem can give.

pub mod dirs;
pub mod names;
pub mod order;
pub mod paths;
pub mod patterns;
pub mod preview;
pub mod records;
pub mod settings;
pub mod walk;

pub use dirs::{get_dirs, DirItem, GetDirsError};
pub use settings::{ColorSettings, Settings};
