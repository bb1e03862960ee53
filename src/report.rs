//! Per-group outcomes and the overall verdict.

use vstd::prelude::*;

use crate::scan::Violation;

verus! {

/// The type of an entry met while walking a target.
#[derive(Clone, Copy, PartialEq, Eq, Structural, Debug)]
pub enum EntryKind {
    RegularFile,
    Directory,
    Symlink,
    /// No type could be determined for the entry.
    Unknown,
}

impl EntryKind {
    /// Only regular files are read and checked.
    pub fn is_scanned(&self) -> (r: bool)
        ensures
            r == (*self == EntryKind::RegularFile),
    {
        *self == EntryKind::RegularFile
    }
}

/// What one target group has produced so far.
pub struct GroupScan {
    /// Every violation recorded, file after file.
    pub violations: Vec<Violation>,
    /// Whether the walk reported an error for an entry.
    pub walk_failed: bool,
}

/// A group passes when it recorded no violation and no walk error.
pub open spec fn group_passed(violations: int, walk_failed: bool) -> bool {
    violations == 0 && !walk_failed
}

/// The run passes when every group passed.
pub open spec fn all_passed(outcomes: Seq<bool>) -> bool {
    forall|i: int| 0 <= i < outcomes.len() ==> #[trigger] outcomes[i]
}

impl GroupScan {
    /// A group before anything was found.
    pub fn new() -> (r: GroupScan)
        ensures
            r.violations@.len() == 0,
            !r.walk_failed,
    {
        GroupScan { violations: Vec::new(), walk_failed: false }
    }

    /// Adds the violations found in one file.
    pub fn record_file(&mut self, found: Vec<Violation>)
        ensures
            final(self).violations@ == old(self).violations@ + found@,
            final(self).walk_failed == old(self).walk_failed,
    {
        let mut found = found;
        self.violations.append(&mut found);
    }

    /// Notes an error reported by the walk; the walk goes on.
    pub fn record_walk_error(&mut self)
        ensures
            final(self).violations@ == old(self).violations@,
            final(self).walk_failed,
    {
        self.walk_failed = true;
    }

    /// Whether the group passed.
    pub fn passed(&self) -> (r: bool)
        ensures
            r == group_passed(self.violations@.len() as int, self.walk_failed),
    {
        self.violations.len() == 0 && !self.walk_failed
    }
}

/// Whether the run passes: exactly when every group passed.
pub fn verdict(outcomes: &Vec<bool>) -> (r: bool)
    ensures
        r == all_passed(outcomes@),
{
    let mut pass = true;
    let mut i: usize = 0;
    while i < outcomes.len()
        invariant
            i <= outcomes@.len(),
            pass == (forall|j: int| 0 <= j < i ==> #[trigger] outcomes@[j]),
        decreases outcomes@.len() - i,
    {
        pass = pass && outcomes[i];
        i = i + 1;
    }
    pass
}

/// What one group yields enters the verdict only through that group's own
/// outcome: replacing it leaves every other group's outcome as it was, and the
/// verdict is that outcome together with the others'.
pub proof fn lemma_group_independence(outcomes: Seq<bool>, i: int, outcome: bool)
    requires
        0 <= i < outcomes.len(),
    ensures
        forall|j: int|
            0 <= j < outcomes.len() && j != i ==> #[trigger] outcomes.update(i, outcome)[j]
                == outcomes[j],
        all_passed(outcomes.update(i, outcome)) == (outcome && forall|j: int|
            0 <= j < outcomes.len() && j != i ==> #[trigger] outcomes[j]),
{
    let u = outcomes.update(i, outcome);
    if all_passed(u) {
        assert(u[i] == outcome);
        assert forall|j: int| 0 <= j < outcomes.len() && j != i implies #[trigger] outcomes[j] by {
            assert(u[j] == outcomes[j]);
        }
    }
}

} // verus!
