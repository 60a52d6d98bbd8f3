//! The records that the registry keeps: overrides and mutations.

use vstd::prelude::*;
use crate::model::{MutationView, OverrideView};

verus! {

/// One override rule: a source to replace and the source that replaces it.
/// Both are opaque to the registry.
#[derive(Debug, PartialEq, Eq)]
pub struct Override {
    pub from_src: String,
    pub to_src: String,
}

impl View for Override {
    type V = OverrideView;

    open spec fn view(&self) -> OverrideView {
        OverrideView { from_src: self.from_src@, to_src: self.to_src@ }
    }
}

impl DeepView for Override {
    type V = OverrideView;

    open spec fn deep_view(&self) -> OverrideView {
        self@
    }
}

impl Clone for Override {
    fn clone(&self) -> (copy: Self)
        ensures
            copy@ == self@,
    {
        Override { from_src: self.from_src.clone(), to_src: self.to_src.clone() }
    }
}

/// A mutation: a description and the override rules it applies, in order.
#[derive(Debug, PartialEq, Eq)]
pub struct Mutation {
    pub description: String,
    pub overrides: Vec<Override>,
}

impl View for Mutation {
    type V = MutationView;

    open spec fn view(&self) -> MutationView {
        MutationView { description: self.description@, overrides: self.overrides.deep_view() }
    }
}

impl DeepView for Mutation {
    type V = MutationView;

    open spec fn deep_view(&self) -> MutationView {
        self@
    }
}

impl Clone for Mutation {
    fn clone(&self) -> (copy: Self)
        ensures
            copy@ == self@,
    {
        let copy = Mutation {
            description: self.description.clone(),
            overrides: self.overrides.clone(),
        };
        assert(copy.overrides.deep_view() =~= self.overrides.deep_view());
        copy
    }
}

} // verus!
