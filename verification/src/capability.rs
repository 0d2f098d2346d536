//! Capabilities: bearer tokens that prove the ownership of a port binding.

use vstd::prelude::*;

verus! {

/// An opaque handle identified by its index. Two capabilities are equal
/// exactly when their indices are equal.
#[derive(Clone, Copy, Debug, PartialEq, Eq, Structural)]
pub struct Capability {
    index: u64,
}

/// The index of a capability that may be absent.
pub open spec fn index_of(cap: Option<Capability>) -> Option<u64> {
    match cap {
        Some(c) => Some(c.index()),
        None => None,
    }
}

impl From<u64> for Capability {
    /// The capability with the given index.
    fn from(index: u64) -> (cap: Capability) {
        Capability { index }
    }
}

impl vstd::std_specs::convert::FromSpecImpl<u64> for Capability {
    open spec fn obeys_from_spec() -> bool {
        true
    }

    open spec fn from_spec(index: u64) -> Capability {
        Capability::with_index(index)
    }
}

impl Capability {
    /// The capability with the given index.
    pub closed spec fn with_index(index: u64) -> Capability {
        Capability { index }
    }

    /// The index that identifies this capability.
    pub closed spec fn spec_index(&self) -> u64 {
        self.index
    }

    /// The index that identifies this capability.
    #[verifier::when_used_as_spec(spec_index)]
    pub fn index(&self) -> (index: u64)
        ensures
            index == self.spec_index(),
    {
        self.index
    }

    /// The capability made with an index has that index.
    pub proof fn lemma_index_of_made(index: u64)
        ensures
            Capability::with_index(index).index() == index,
    {
    }

    /// Capabilities with the same index are the same capability.
    pub proof fn lemma_equal_by_index(a: Capability, b: Capability)
        ensures
            (a == b) <==> (a.index() == b.index()),
    {
    }
}

} // verus!
