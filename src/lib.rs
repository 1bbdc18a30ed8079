//! Backend selection and fail-over for filesystem change notification.
//!
//! A [`manager::Manager`] holds an ordered list of backend selectors, builds a
//! live instance from each, keeps those that offer at least one capability, and
//! binds a set of paths to the first live instance that accepts them.
use vstd::prelude::*;

pub mod capability;
pub mod error;
pub mod event;
pub mod manager;
pub mod runtime;

verus! {

} // verus!
