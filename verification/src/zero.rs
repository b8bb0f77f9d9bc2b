//! Algebra in dimension zero: sets of elements with operations on them.

pub mod rig;
