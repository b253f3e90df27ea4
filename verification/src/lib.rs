//! Tab-management core of a multi-surface desktop shell.
//!
//! A single top-level window hosts one fixed chrome surface (the tab bar)
//! and zero or more content surfaces (tabs). This crate owns the logical
//! state: the registry mapping tab ids to titles, surface handles and
//! presentation order, the active selection, and the geometry/visibility
//! protocol that keeps exactly one content surface visible. All window
//! system side effects are expressed as command values for the embedding
//! host to execute.

pub mod errors;
pub mod geometry;
pub mod coordinator;
pub mod lifecycle;
pub mod locator;
pub mod registry;
pub mod theme;
