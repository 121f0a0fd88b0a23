//! The native operations a front-end can reach: filesystem, subprocess and
//! window work, each behind the dispatcher.

pub mod fs;
pub mod subprocess;
pub mod window;
