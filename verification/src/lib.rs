//! Turns a tree of generated API reference pages into the pieces of a docset:
//! the symbol entries recovered from file names, the rows of the search index,
//! the layout of the bundle and its descriptive metadata.

pub mod bundle;
pub mod config;
pub mod entry;
pub mod grammar;
pub mod index;
pub mod walker;
