//! Sorting the files of one directory into category folders.
//!
//! The library holds the decisions: which category a file name belongs to,
//! which folder a category is kept in, which members of a directory are
//! files, and which file-system operation a relocation asks for next.
//! Touching the disk is left to the caller, who performs each operation
//! that is asked for and reports how it went.
//!
//! - [`category`]: the categories and their folders.
//! - [`mapping`]: the table from extension to category.
//! - [`classify`]: from a file name to its category.
//! - [`listing`]: the regular files among the members of a directory.
//! - [`relocate`]: the steps that move one file, and what they achieve.
//! - [`organize`]: a run over every file of a listing.
//! - [`tree`]: a model of the directory, to say what a run leaves in it.

pub mod category;
pub mod classify;
pub mod listing;
pub mod mapping;
pub mod organize;
pub mod relocate;
pub mod tree;
