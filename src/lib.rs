//! Discovery of the forks of a course repository and the manifest that records them.

pub mod assemble;
pub mod cli;
pub mod config;
pub mod feedback;
pub mod json;
pub mod pager;
