//! The components of the user interface.

pub mod page;
