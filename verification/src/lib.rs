//! Core of a template-fetching tool: it merges remembered settings with
//! per-run overrides, drives acquisition of a remote source tree, selects a
//! template subtree (or a catalog entry), and materializes the chosen tree
//! into a destination.
//!
//! Everything here is pure logic over plain values; the thin shell that talks
//! to the terminal, the filesystem, the network and the `git` binary lives
//! outside the library and feeds results back in as values.

pub mod cache;
pub mod catalog;
pub mod codec;
pub mod errors;
pub mod git;
pub mod jsontext;
pub mod materialize;
pub mod paths;
pub mod resolve;
pub mod template;
