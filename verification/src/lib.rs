//! Core logic of a `touch`-style file utility: pattern expansion, per-path
//! dispatch planning, content-mode selection, trailing-whitespace trimming,
//! octal permission parsing and timestamp parsing.
//!
//! Everything here is pure: the filesystem work itself (creating, opening,
//! writing, chmod, utimes, glob walks) is carried out by a thin unverified
//! front end that feeds plain values into these functions and acts on the
//! plans and parsed values they return.

pub mod expand;
pub mod octal;
pub mod plan;
pub mod timestamp;
pub mod tree;
pub mod trim;
