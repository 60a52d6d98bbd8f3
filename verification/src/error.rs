//! The ways in which a write to the registry is refused.

use vstd::prelude::*;

verus! {

/// Why a write was refused. A refused write leaves the registry as it was.
#[derive(Clone, Copy, Debug, PartialEq, Eq, Structural)]
pub enum RegistryError {
    /// The caller is not the author whose mutations the call would change.
    PermissionDenied,
    /// The mutation to copy overrides from does not exist.
    SourceNotFound,
    /// The mutation to copy overrides into does not exist.
    TargetNotFound,
}

impl RegistryError {
    /// The text that goes with each refusal.
    pub open spec fn text(self) -> Seq<char> {
        match self {
            RegistryError::PermissionDenied => "Mutations: permission denied"@,
            RegistryError::SourceNotFound => "Source mutation not found"@,
            RegistryError::TargetNotFound => "Target mutation not found"@,
        }
    }

    /// A message for the caller whose write was refused.
    pub fn message(&self) -> (msg: &'static str)
        ensures
            msg@ == self.text(),
    {
        match self {
            RegistryError::PermissionDenied => "Mutations: permission denied",
            RegistryError::SourceNotFound => "Source mutation not found",
            RegistryError::TargetNotFound => "Target mutation not found",
        }
    }
}

} // verus!
