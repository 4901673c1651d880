//! Resolving the pods that a workload controller owns, from the objects
//! that a cluster's object store hands out.
//!
//! A deployment owns its pods through one of its replica sets, the current
//! generation, which is found by comparing pod templates; a stateful set
//! marks its pods with the revision they were made from. The library never
//! reads from the store itself: `resolver::Resolver` says which object to
//! read next, and decides on what the read brought.

pub mod generation;
pub mod helper;
pub mod labels;
pub mod ownership;
pub mod resolver;
pub mod revision;
pub mod template;
pub mod text;
pub mod workload;

pub use helper::ignore_not_found;
pub use helper::not_found_ok;
