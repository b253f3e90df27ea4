//! Error taxonomy of the tab-management core.

use vstd::prelude::*;

verus! {

/// Everything that a registry or lifecycle operation can fail with.
///
/// Failed operations leave the registry unchanged; none of them aborts
/// the process.
#[derive(Clone, Copy, Debug, PartialEq, Eq, Structural)]
pub enum TabError {
    /// The referenced tab id is not registered (e.g. a stale id after a
    /// concurrent close).
    NotFound,
    /// An id was inserted that is already registered.
    DuplicateId,
    /// The resource locator handed to `add_tab` is not a well-formed
    /// absolute URL.
    InvalidLocator,
    /// A reorder payload is not a permutation of the current tabs.
    OrderMismatch,
    /// An underlying host-toolkit operation failed; reported by the
    /// embedding layer, never produced by the core itself.
    ToolkitError,
}

impl TabError {
    /// A short human-readable name, for logs and messages.
    pub fn describe(&self) -> (r: &'static str)
        ensures
            r@ == self.spec_describe(),
    {
        match self {
            TabError::NotFound => "tab not found",
            TabError::DuplicateId => "duplicate tab id",
            TabError::InvalidLocator => "invalid locator",
            TabError::OrderMismatch => "order mismatch",
            TabError::ToolkitError => "toolkit error",
        }
    }

    pub open spec fn spec_describe(self) -> Seq<char> {
        match self {
            TabError::NotFound => "tab not found"@,
            TabError::DuplicateId => "duplicate tab id"@,
            TabError::InvalidLocator => "invalid locator"@,
            TabError::OrderMismatch => "order mismatch"@,
            TabError::ToolkitError => "toolkit error"@,
        }
    }
}

} // verus!
