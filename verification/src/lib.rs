//! Listing of files in the manner of `ls(1)`, each entry preceded by an
//! inline image in the iTerm2 escape-sequence protocol.

pub mod text;
pub mod mode;
pub mod human;
pub mod options;
pub mod names;
pub mod ordering;
pub mod sorting;
pub mod image;
pub mod timefmt;
pub mod dims;
pub mod listing;
pub mod walk;
