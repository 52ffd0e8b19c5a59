//! Reconciles an installed file tree with a published target state.
//!
//! A manifest records, for every tracked file, the content hash it has before
//! and after patching. The producer side builds that manifest together with
//! the binary deltas; the consumer side classifies local files against it and
//! drives each one to its target content.

pub mod artifact;
pub mod cache;
pub mod compress;
pub mod consumer;
pub mod delta;
pub mod generate;
pub mod hash;
pub mod install;
pub mod integrity;
pub mod json;
pub mod load;
pub mod manifest;
pub mod mirror;
pub mod patch;
pub mod run;
pub mod terminal;
pub mod text;
pub mod tree;
pub mod version;
