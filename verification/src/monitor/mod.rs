//! The viewfinder's decisions: the library and player screens and the shell's rules.

pub mod library;
pub mod luts;
pub mod sheets;
pub mod shell;
