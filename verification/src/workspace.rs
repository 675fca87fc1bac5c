//! The 1-based workspace index shared by every subsystem.

use vstd::prelude::*;
use crate::error::JacqueError;

verus! {

/// The number of workspaces JacqueWM manages.
pub const WORKSPACE_COUNT: u8 = 9;

/// A stable, 1-based desktop index; the value always lies in `1..=9`.
#[derive(Debug, Clone, Copy, PartialEq, Eq, Hash, Structural)]
pub struct WorkspaceIndex(u8);

impl WorkspaceIndex {
    /// The value behind the index.
    pub closed spec fn value(self) -> u8 {
        self.0
    }

    #[verifier::type_invariant]
    closed spec fn in_range(self) -> bool {
        1 <= self.0 <= WORKSPACE_COUNT
    }

    /// Two indices with the same value are the same index.
    pub broadcast proof fn lemma_value_injective(a: WorkspaceIndex, b: WorkspaceIndex)
        ensures
            #[trigger] a.value() == #[trigger] b.value() <==> a == b,
    {
    }

    /// The index with the given value (meaningful for values in `1..=9`).
    pub closed spec fn with_value(v: u8) -> WorkspaceIndex {
        WorkspaceIndex(v)
    }

    /// The first workspace.
    pub open spec fn first() -> WorkspaceIndex {
        WorkspaceIndex::with_value(1)
    }

    /// `with_value` gives back the value it was built from.
    pub broadcast proof fn lemma_with_value(v: u8)
        ensures
            #[trigger] WorkspaceIndex::with_value(v).value() == v,
    {
    }

    /// The total number of workspaces.
    pub const COUNT: u8 = 9;

    /// Build an index from a 1-based integer; values outside `1..=9`
    /// are refused with [`JacqueError::InvalidWorkspaceIndex`].
    pub fn new(value: u8) -> (r: Result<WorkspaceIndex, JacqueError>)
        ensures
            1 <= value <= 9 ==> (r matches Ok(w) && w.value() == value),
            !(1 <= value <= 9) ==> r == Err::<WorkspaceIndex, JacqueError>(JacqueError::InvalidWorkspaceIndex(value)),
    {
        if 1 <= value && value <= Self::COUNT {
            Ok(WorkspaceIndex(value))
        } else {
            Err(JacqueError::InvalidWorkspaceIndex(value))
        }
    }

    /// Build an index the caller knows to be in range.
    pub fn new_unchecked(value: u8) -> (r: WorkspaceIndex)
        requires
            1 <= value <= 9,
        ensures
            r.value() == value,
    {
        WorkspaceIndex(value)
    }

    /// The 1-based integer.
    pub fn get(self) -> (r: u8)
        ensures
            r == self.value(),
            1 <= r <= 9,
    {
        proof {
            use_type_invariant(&self);
        }
        self.0
    }
}

} // verus!
