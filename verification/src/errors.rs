//! The failures that attaching a component or building a query can report.

use vstd::prelude::*;

verus! {

/// Why a component could not be attached or requested.
#[derive(Debug, Clone, Copy, PartialEq, Eq, Structural)]
pub enum Errors {
    /// A component was handed over before any entity was created.
    CreateEntityNeverCalled,
    /// The component's type was never registered with the store.
    ComponentNotRegistered,
}

impl Errors {
    /// The text that describes the failure.
    pub open spec fn text(self) -> Seq<char> {
        match self {
            Errors::CreateEntityNeverCalled => "attempting to add component to an entity without calling create component first"@,
            Errors::ComponentNotRegistered => "attempted to use a component that wasn't registered"@,
        }
    }

    /// The text that describes the failure.
    pub fn message(&self) -> (message: String)
        ensures
            message@ == self.text(),
    {
        match self {
            Errors::CreateEntityNeverCalled => "attempting to add component to an entity without calling create component first".to_owned(),
            Errors::ComponentNotRegistered => "attempted to use a component that wasn't registered".to_owned(),
        }
    }
}

} // verus!
