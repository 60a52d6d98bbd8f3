//! A registry of named mutations.
//!
//! Accounts author *mutations*: a description together with an ordered list of
//! string-to-string override rules. The registry files every mutation under
//! its author and its identifier, lets anybody read, and lets only the author
//! write. Every operation is verified against a mathematical model of the
//! registry, found in [`model`]; the laws that relate the operations to each
//! other are proved in [`laws`].

pub mod error;
mod keyed;
pub mod laws;
pub mod model;
pub mod record;
pub mod registry;

pub use crate::error::RegistryError;
pub use crate::record::{Mutation, Override};
pub use crate::registry::MutationRegistry;
