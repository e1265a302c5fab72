//! Capture targets and the criteria by which targets are selected.

use vstd::prelude::*;

verus! {

/// What a capture looks at.
///
/// The numbers are identities of protocol objects: two values name the same
/// target exactly when they are the same variant with the same identities.
#[derive(Clone, Copy, Debug, Hash, PartialEq, Eq, Structural)]
pub enum CaptureSource {
    /// One window, by its identity.
    Toplevel(u64),
    /// One workspace as it is shown on one output: the workspace's identity,
    /// then the output's.
    Workspace(u64, u64),
}

/// Selection criteria for capture targets, handed to whoever enumerates them.
///
/// Both lists keep the order in which they were filled. What an empty list
/// selects is for the enumerator to define.
#[derive(Debug)]
pub struct CaptureFilter {
    /// Workspaces visible on these outputs are eligible.
    pub workspaces_on_outputs: Vec<u64>,
    /// Windows on these workspaces are eligible.
    pub toplevels_on_workspaces: Vec<u64>,
}

impl CaptureFilter {
    /// The two lists, as values.
    pub open spec fn view(&self) -> (Seq<u64>, Seq<u64>) {
        (self.workspaces_on_outputs@, self.toplevels_on_workspaces@)
    }
}

/// Whether two lists of identities hold the same identities in the same
/// order.
fn same_identities(left: &Vec<u64>, right: &Vec<u64>) -> (same: bool)
    ensures
        same == (left@ == right@),
{
    if left.len() != right.len() {
        return false;
    }
    let mut i: usize = 0;
    while i < left.len()
        invariant
            left.len() == right.len(),
            i <= left.len(),
            forall|k: int| 0 <= k < i ==> left@[k] == right@[k],
        decreases left.len() - i,
    {
        if left[i] != right[i] {
            return false;
        }
        i += 1;
    }
    assert(left@ =~= right@);
    true
}

impl PartialEq for CaptureFilter {
    fn eq(&self, other: &Self) -> (same: bool) {
        same_identities(&self.workspaces_on_outputs, &other.workspaces_on_outputs)
            && same_identities(&self.toplevels_on_workspaces, &other.toplevels_on_workspaces)
    }
}

impl vstd::std_specs::cmp::PartialEqSpecImpl for CaptureFilter {
    open spec fn obeys_eq_spec() -> bool {
        true
    }

    open spec fn eq_spec(&self, other: &Self) -> bool {
        self@ == other@
    }
}

impl Eq for CaptureFilter {}

impl Default for CaptureFilter {
    fn default() -> (filter: Self)
        ensures
            filter@ == (Seq::<u64>::empty(), Seq::<u64>::empty()),
    {
        CaptureFilter { workspaces_on_outputs: Vec::new(), toplevels_on_workspaces: Vec::new() }
    }
}

impl Clone for CaptureFilter {
    fn clone(&self) -> (copy: Self)
        ensures
            copy@ == self@,
    {
        CaptureFilter {
            workspaces_on_outputs: self.workspaces_on_outputs.clone(),
            toplevels_on_workspaces: self.toplevels_on_workspaces.clone(),
        }
    }
}

} // verus!
