//! The removal of a single entry, step by step.
//!
//! Each removal is a small machine: it names the next step, the program takes
//! that step and hands back what came of it.
pub mod portable;
pub mod win;
