//! The branched registry of planning values.
//!
//! A branch stores only the values that were set in it. What it does not
//! store it inherits from its parent, so that a fork costs nothing and a
//! speculative run of moves can be tried without copying a solution.
//! Branches live in an arena and are named by their place in it. A parent
//! is always older than its children, which is why no chain of parents can
//! run in a circle.

use uuid::Uuid;
use vstd::prelude::*;
use crate::ids::uuid_bits;
use crate::solution::{EntityVariable, PlanningValue, Slot};
use crate::value_table::ValueTable;

verus! {

/// The name of a branch: its place in the arena of the registry that made
/// it.
#[derive(Clone, Copy, Debug, PartialEq, Eq, Hash, Structural)]
pub struct BranchId {
    pub index: usize,
}

/// Why the registry refused an operation.
#[derive(Clone, Copy, Debug, PartialEq, Eq, Structural)]
pub enum RegistryError {
    /// The parent named for a new branch is not older than that branch
    /// would be: the chain of parents would not be known to end.
    BranchCycle,
    /// The branch named does not exist, or exists no longer.
    UnknownBranch,
    /// The branch is still the parent of another branch.
    BranchInUse,
}

struct Branch {
    parent: Option<usize>,
    live: bool,
    overrides: ValueTable,
}

/// The registry: an arena of branches.
pub struct EntityRegistry {
    branches: Vec<Branch>,
}

impl EntityRegistry {
    /// How many branches were ever made. The next branch gets this number
    /// as its index.
    pub closed spec fn branch_count(&self) -> nat {
        self.branches@.len()
    }

    /// `branch` was made by this registry and not deleted since.
    pub closed spec fn is_branch(&self, branch: BranchId) -> bool {
        branch.index < self.branches@.len() && self.branches@[branch.index as int].live
    }

    /// The parent of `branch`, if it is a branch and has one.
    pub closed spec fn parent_of(&self, branch: BranchId) -> Option<BranchId> {
        if self.is_branch(branch) {
            match self.branches@[branch.index as int].parent {
                Some(index) => Some(BranchId { index }),
                None => None,
            }
        } else {
            None
        }
    }

    /// The values that were set in `branch` itself.
    pub closed spec fn overrides(&self, branch: BranchId) -> Map<Slot, PlanningValue> {
        if self.is_branch(branch) {
            self.branches@[branch.index as int].overrides@
        } else {
            Map::empty()
        }
    }

    /// What a lookup of `slot` in `branch` finds: the value set in the
    /// nearest branch on the way from `branch` up through its parents, or
    /// nothing where no branch on that way has one.
    pub open spec fn lookup(&self, branch: BranchId, slot: Slot) -> Option<PlanningValue>
        decreases branch.index,
    {
        if !self.is_branch(branch) {
            None
        } else if self.overrides(branch).contains_key(slot) {
            Some(self.overrides(branch)[slot])
        } else {
            match self.parent_of(branch) {
                Some(parent) => if parent.index < branch.index {
                    self.lookup(parent, slot)
                } else {
                    None
                },
                None => None,
            }
        }
    }

    /// Some branch has `branch` as its parent.
    pub open spec fn has_child(&self, branch: BranchId) -> bool {
        exists|child: BranchId| #[trigger] self.parent_of(child) == Some(branch)
    }

    /// The registry's invariant: a parent is a branch and older than its
    /// child, and every branch holds one value per variable at most.
    pub closed spec fn well_formed(&self) -> bool {
        forall|i: int|
            0 <= i < self.branches@.len() ==> {
                let branch = #[trigger] self.branches@[i];
                &&& branch.overrides.well_formed()
                &&& branch.live ==> match branch.parent {
                    Some(parent) => parent < i && self.branches@[parent as int].live,
                    None => true,
                }
            }
    }

    /// `branch` is the same in both registries: a branch in both or in
    /// neither, with the same parent and the same values of its own.
    pub open spec fn same_branch(&self, other: &Self, branch: BranchId) -> bool {
        &&& self.is_branch(branch) == other.is_branch(branch)
        &&& self.parent_of(branch) == other.parent_of(branch)
        &&& self.overrides(branch) == other.overrides(branch)
    }

    /// Every branch was counted when it was made.
    pub proof fn lemma_branches_are_counted(&self, branch: BranchId)
        ensures
            self.is_branch(branch) ==> branch.index < self.branch_count(),
    {
    }

    /// In a well-formed registry a parent is a branch, and older than its
    /// child.
    pub proof fn lemma_parent_is_older(&self, branch: BranchId)
        requires
            self.well_formed(),
        ensures
            match self.parent_of(branch) {
                Some(parent) => parent.index < branch.index && self.is_branch(parent),
                None => true,
            },
    {
        if self.is_branch(branch) {
            assert(self.branches@[branch.index as int].overrides.well_formed());
        }
    }

    /// A registry without branches.
    pub fn new() -> (registry: Self)
        ensures
            registry.well_formed(),
            registry.branch_count() == 0,
            forall|branch: BranchId| !registry.is_branch(branch),
    {
        EntityRegistry { branches: Vec::new() }
    }
}

impl EntityRegistry {
    /// What making a branch does: `child` is the new branch, it has the
    /// parent named and no values of its own, and every other branch is as
    /// it was.
    pub open spec fn branch_added(
        &self,
        before: &Self,
        child: BranchId,
        parent: Option<BranchId>,
    ) -> bool {
        &&& child.index == before.branch_count()
        &&& self.branch_count() == before.branch_count() + 1
        &&& !before.is_branch(child)
        &&& self.is_branch(child)
        &&& self.parent_of(child) == parent
        &&& self.overrides(child) == Map::<Slot, PlanningValue>::empty()
        &&& forall|other: BranchId| other != child ==> #[trigger] self.same_branch(before, other)
    }

    /// What setting a value does: `branch` holds `value` for `slot` and
    /// its other values as before, and every other branch is as it was.
    pub open spec fn value_set(
        &self,
        before: &Self,
        branch: BranchId,
        slot: Slot,
        value: PlanningValue,
    ) -> bool {
        &&& before.is_branch(branch)
        &&& self.is_branch(branch)
        &&& self.branch_count() == before.branch_count()
        &&& self.parent_of(branch) == before.parent_of(branch)
        &&& self.overrides(branch) == before.overrides(branch).insert(slot, value)
        &&& forall|other: BranchId| other != branch ==> #[trigger] self.same_branch(before, other)
    }

    /// What deleting a branch does: `branch` is no branch any more, and
    /// every other branch is as it was.
    pub open spec fn branch_deleted(&self, before: &Self, branch: BranchId) -> bool {
        &&& before.is_branch(branch)
        &&& !self.is_branch(branch)
        &&& self.branch_count() == before.branch_count()
        &&& forall|other: BranchId| other != branch ==> #[trigger] self.same_branch(before, other)
    }

    /// Makes a branch that has no parent.
    pub fn create_branch(&mut self) -> (branch: BranchId)
        requires
            old(self).well_formed(),
        ensures
            final(self).well_formed(),
            final(self).branch_added(old(self), branch, None),
    {
        let index = self.branches.len();
        self.branches.push(Branch { parent: None, live: true, overrides: ValueTable::new() });
        let branch = BranchId { index };
        proof {
            assert forall|other: BranchId| other != branch implies #[trigger] self.same_branch(
                old(self),
                other,
            ) by {
                if other.index < index {
                    assert(self.branches@[other.index as int] == old(self).branches@[other.index as int]);
                }
            }
            assert forall|i: int| 0 <= i < self.branches@.len() implies {
                let b = #[trigger] self.branches@[i];
                &&& b.overrides.well_formed()
                &&& b.live ==> match b.parent {
                    Some(parent) => parent < i && self.branches@[parent as int].live,
                    None => true,
                }
            } by {
                if i < index {
                    assert(self.branches@[i] == old(self).branches@[i]);
                }
            }
        }
        branch
    }

    /// Makes a branch whose parent is `parent`. The new branch has no
    /// values of its own: a lookup in it finds what a lookup in `parent`
    /// finds.
    ///
    /// A parent that is not older than the new branch would be is refused
    /// as `BranchCycle`, a deleted one as `UnknownBranch`; the registry is
    /// then left as it was.
    pub fn fork_branch(&mut self, parent: BranchId) -> (forked: Result<BranchId, RegistryError>)
        requires
            old(self).well_formed(),
        ensures
            final(self).well_formed(),
            match forked {
                Ok(child) => old(self).is_branch(parent) && final(self).branch_added(
                    old(self),
                    child,
                    Some(parent),
                ),
                Err(error) => {
                    &&& !old(self).is_branch(parent)
                    &&& *final(self) == *old(self)
                    &&& error == if parent.index >= old(self).branch_count() {
                        RegistryError::BranchCycle
                    } else {
                        RegistryError::UnknownBranch
                    }
                },
            },
    {
        let index = self.branches.len();
        if parent.index >= index {
            return Err(RegistryError::BranchCycle);
        }
        if !self.branches[parent.index].live {
            return Err(RegistryError::UnknownBranch);
        }
        self.branches.push(
            Branch { parent: Some(parent.index), live: true, overrides: ValueTable::new() },
        );
        let child = BranchId { index };
        proof {
            assert forall|other: BranchId| other != child implies #[trigger] self.same_branch(
                old(self),
                other,
            ) by {
                if other.index < index {
                    assert(self.branches@[other.index as int] == old(self).branches@[other.index as int]);
                }
            }
            assert forall|i: int| 0 <= i < self.branches@.len() implies {
                let b = #[trigger] self.branches@[i];
                &&& b.overrides.well_formed()
                &&& b.live ==> match b.parent {
                    Some(parent) => parent < i && self.branches@[parent as int].live,
                    None => true,
                }
            } by {
                if i < index {
                    assert(self.branches@[i] == old(self).branches@[i]);
                }
            }
        }
        Ok(child)
    }

    /// Looks a variable up in `branch`: in the branch itself first, then
    /// up the chain of its parents. Finding nothing is no error.
    pub fn get_value(&self, branch: BranchId, entity_uuid: &Uuid, variable_name: &String) -> (value:
        Option<&PlanningValue>)
        requires
            self.well_formed(),
        ensures
            value == match self.lookup(branch, (uuid_bits(*entity_uuid), variable_name@)) {
                Some(found) => Some(&found),
                None => None,
            },
    {
        let ghost slot = (uuid_bits(*entity_uuid), variable_name@);
        if branch.index >= self.branches.len() || !self.branches[branch.index].live {
            return None;
        }
        let mut current: usize = branch.index;
        loop
            invariant
                self.well_formed(),
                slot == (uuid_bits(*entity_uuid), variable_name@),
                self.is_branch(BranchId { index: current }),
                self.lookup(branch, slot) == self.lookup(BranchId { index: current }, slot),
            decreases current,
        {
            proof {
                self.lemma_parent_is_older(BranchId { index: current });
            }
            match self.branches[current].overrides.get(entity_uuid, variable_name) {
                Some(found) => {
                    return Some(found);
                },
                None => {},
            }
            match self.branches[current].parent {
                Some(parent) => {
                    current = parent;
                },
                None => {
                    return None;
                },
            }
        }
    }

    /// Sets a variable in `branch`, and in no other branch.
    ///
    /// Where `branch` is no branch of the registry the value is refused
    /// as `UnknownBranch` and nothing changes.
    pub fn set_value(
        &mut self,
        branch: BranchId,
        entity_uuid: Uuid,
        variable_name: String,
        value: PlanningValue,
    ) -> (done: Result<(), RegistryError>)
        requires
            old(self).well_formed(),
        ensures
            final(self).well_formed(),
            match done {
                Ok(_) => final(self).value_set(
                    old(self),
                    branch,
                    (uuid_bits(entity_uuid), variable_name@),
                    value,
                ),
                Err(error) => {
                    &&& !old(self).is_branch(branch)
                    &&& *final(self) == *old(self)
                    &&& error == RegistryError::UnknownBranch
                },
            },
    {
        if branch.index >= self.branches.len() || !self.branches[branch.index].live {
            return Err(RegistryError::UnknownBranch);
        }
        let slot = EntityVariable::new(entity_uuid, variable_name);
        self.branches[branch.index].overrides.set(slot, value);
        proof {
            assert forall|other: BranchId| other != branch implies #[trigger] self.same_branch(
                old(self),
                other,
            ) by {
                if other.index < self.branches@.len() {
                    assert(self.branches@[other.index as int] == old(self).branches@[other.index as int]);
                }
            }
            assert forall|i: int| 0 <= i < self.branches@.len() implies {
                let b = #[trigger] self.branches@[i];
                &&& b.overrides.well_formed()
                &&& b.live ==> match b.parent {
                    Some(parent) => parent < i && self.branches@[parent as int].live,
                    None => true,
                }
            } by {
                let before = old(self).branches@[i];
                assert(before.overrides.well_formed());
            }
        }
        Ok(())
    }
}

impl EntityRegistry {
    /// Deletes a branch, with the values set in it.
    ///
    /// Only a branch that is no parent of another can be deleted: a branch
    /// that still has children is refused as `BranchInUse`, and what is no
    /// branch as `UnknownBranch`; the registry is then left as it was.
    pub fn delete_branch(&mut self, branch: BranchId) -> (done: Result<(), RegistryError>)
        requires
            old(self).well_formed(),
        ensures
            final(self).well_formed(),
            match done {
                Ok(_) => !old(self).has_child(branch) && final(self).branch_deleted(
                    old(self),
                    branch,
                ),
                Err(error) => {
                    &&& *final(self) == *old(self)
                    &&& error == if old(self).is_branch(branch) {
                        RegistryError::BranchInUse
                    } else {
                        RegistryError::UnknownBranch
                    }
                    &&& old(self).is_branch(branch) ==> old(self).has_child(branch)
                },
            },
    {
        if branch.index >= self.branches.len() || !self.branches[branch.index].live {
            return Err(RegistryError::UnknownBranch);
        }
        let mut at: usize = 0;
        while at < self.branches.len()
            invariant
                at <= self.branches@.len(),
                *self == *old(self),
                self.well_formed(),
                self.is_branch(branch),
                forall|i: int|
                    0 <= i < at ==> !((#[trigger] self.branches@[i]).live && self.branches@[i].parent
                        == Some(branch.index)),
            decreases self.branches@.len() - at,
        {
            if self.branches[at].live {
                match self.branches[at].parent {
                    Some(parent) => {
                        if parent == branch.index {
                            assert(self.parent_of(BranchId { index: at }) == Some(branch));
                            return Err(RegistryError::BranchInUse);
                        }
                    },
                    None => {},
                }
            }
            at = at + 1;
        }
        proof {
            assert forall|child: BranchId| #[trigger]
                self.parent_of(child) != Some(branch) by {
                if self.is_branch(child) {
                    assert(!(self.branches@[child.index as int].live && self.branches@[child.index as int].parent
                        == Some(branch.index)));
                }
            }
        }
        self.branches.set(branch.index, Branch { parent: None, live: false, overrides: ValueTable::new() });
        proof {
            assert forall|other: BranchId| other != branch implies #[trigger] self.same_branch(
                old(self),
                other,
            ) by {
                if other.index < self.branches@.len() {
                    assert(self.branches@[other.index as int] == old(self).branches@[other.index as int]);
                }
            }
            assert forall|i: int| 0 <= i < self.branches@.len() implies {
                let b = #[trigger] self.branches@[i];
                &&& b.overrides.well_formed()
                &&& b.live ==> match b.parent {
                    Some(parent) => parent < i && self.branches@[parent as int].live,
                    None => true,
                }
            } by {
                if i != branch.index {
                    let before = old(self).branches@[i];
                    assert(before.overrides.well_formed());
                    assert(self.branches@[i] == before);
                }
            }
        }
        Ok(())
    }

    /// A lookup reads the branch and its elders only: two registries that
    /// are the same in every branch up to `branch` find the same there.
    pub proof fn lemma_lookup_reads_elders(&self, other: &Self, branch: BranchId, slot: Slot)
        requires
            forall|elder: BranchId|
                elder.index <= branch.index ==> #[trigger] self.same_branch(other, elder),
        ensures
            self.lookup(branch, slot) == other.lookup(branch, slot),
        decreases branch.index,
    {
        assert(self.same_branch(other, branch));
        if self.is_branch(branch) && !self.overrides(branch).contains_key(slot) {
            match self.parent_of(branch) {
                Some(parent) => {
                    if parent.index < branch.index {
                        self.lemma_lookup_reads_elders(other, parent, slot);
                    }
                },
                None => {},
            }
        }
    }

    /// Inheritance: a branch that holds no value of its own for a variable
    /// finds what its parent finds.
    pub proof fn lemma_child_inherits(&self, child: BranchId, parent: BranchId, slot: Slot)
        requires
            self.well_formed(),
            self.parent_of(child) == Some(parent),
            !self.overrides(child).contains_key(slot),
        ensures
            self.lookup(child, slot) == self.lookup(parent, slot),
    {
        self.lemma_parent_is_older(child);
    }

    /// A fresh fork sees its parent's state: right after `fork_branch`, a
    /// lookup in the child finds, for every variable, what a lookup in the
    /// parent found before and finds now.
    pub proof fn lemma_fork_inherits(&self, before: &Self, parent: BranchId, child: BranchId, slot: Slot)
        requires
            before.well_formed(),
            self.well_formed(),
            before.is_branch(parent),
            self.branch_added(before, child, Some(parent)),
        ensures
            self.lookup(child, slot) == before.lookup(parent, slot),
            self.lookup(parent, slot) == before.lookup(parent, slot),
    {
        self.lemma_parent_is_older(child);
        assert forall|elder: BranchId| elder.index <= parent.index implies #[trigger] self.same_branch(
            before,
            elder,
        ) by {
            assert(elder != child);
        }
        self.lemma_lookup_reads_elders(before, parent, slot);
        self.lemma_child_inherits(child, parent, slot);
    }

    /// An override stays in its branch: after `set_value`, the branch
    /// finds the new value for the variable set and what it found before
    /// for every other, and its parent finds what it found before.
    pub proof fn lemma_set_value_is_local(
        &self,
        before: &Self,
        branch: BranchId,
        slot: Slot,
        value: PlanningValue,
        parent: BranchId,
        other_slot: Slot,
    )
        requires
            before.well_formed(),
            self.well_formed(),
            self.value_set(before, branch, slot, value),
        ensures
            self.lookup(branch, slot) == Some(value),
            other_slot != slot ==> self.lookup(branch, other_slot) == before.lookup(
                branch,
                other_slot,
            ),
            before.parent_of(branch) == Some(parent) ==> self.lookup(parent, other_slot)
                == before.lookup(parent, other_slot),
            parent.index < branch.index ==> self.lookup(parent, other_slot) == before.lookup(
                parent,
                other_slot,
            ),
    {
        before.lemma_parent_is_older(branch);
        self.lemma_parent_is_older(branch);
        if parent.index < branch.index {
            assert forall|elder: BranchId| elder.index <= parent.index implies #[trigger] self.same_branch(
                before,
                elder,
            ) by {
                assert(elder != branch);
            }
            self.lemma_lookup_reads_elders(before, parent, other_slot);
        }
        if other_slot != slot {
            match before.parent_of(branch) {
                Some(above) => {
                    assert forall|elder: BranchId| elder.index <= above.index implies #[trigger] self.same_branch(
                        before,
                        elder,
                    ) by {
                        assert(elder != branch);
                    }
                    self.lemma_lookup_reads_elders(before, above, other_slot);
                },
                None => {},
            }
        }
    }
}

} // verus!
