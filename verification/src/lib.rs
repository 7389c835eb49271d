//! `frep` renames files by substituting one substring for another in the
//! final component of each candidate path.
//!
//! The crate holds the decisions of the tool as verified functions on plain
//! values: how a name is searched and rewritten ([`text`]), how a path is
//! split into directory and file name ([`path`]), how the command line
//! selects its source of candidates ([`cli`]), and what is done with each
//! candidate and with the outcome of each move ([`pipeline`]). Reading the
//! file system and moving files is left to the caller.

pub mod cli;
pub mod path;
pub mod pipeline;
pub mod report;
pub mod text;
