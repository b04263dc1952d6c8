//! Lexical path normalization.
//!
//! A path is an ordered sequence of [`Component`]s. Normalizing it simplifies
//! the sequence by looking at the components alone: no filesystem is
//! consulted, no symbolic link is followed, and nothing can fail.
//!
//! - `.` markers are dropped,
//! - a `..` marker cancels the named segment before it,
//! - a `..` marker directly above a root or a prefix is absorbed,
//! - a `..` marker with nothing to cancel is kept,
//! - a path that collapses to nothing becomes the single marker `.`.
//!
//! Splitting a string into components and joining components back into a
//! string are left to the caller.
pub mod component;
pub mod laws;
pub mod normalize;

pub use crate::component::Component;
pub use crate::normalize::{collapse, normalize, Lexiclean};
