//! Layout and navigation core of a terminal wiki reader.
//!
//! A document tree is rendered into word-wrapped lines of styled fragments,
//! and a page component keeps a scroll position, a link selection and a
//! per-width cache of renders on top of it.

pub mod action;
pub mod components;
pub mod document;
pub mod event;
pub mod page;
pub mod renderer;
pub mod style;
