//! Filesystem operations: the decisions and data shapes around the OS calls
//! the runner performs.

pub mod crud;
pub mod file_system;
