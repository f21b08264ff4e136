//! A table from planning variables to values, with one entry per
//! variable.

use uuid::Uuid;
use vstd::prelude::*;
use crate::ids::uuid_bits;
use crate::solution::{EntityVariable, PlanningValue, Slot};

verus! {

/// One entry of a table: a variable and the value stored for it.
pub struct TableEntry {
    slot: EntityVariable,
    value: PlanningValue,
}

/// The mapping that a run of entries stands for. Where a variable occurs
/// more than once, the entry nearest the end counts.
pub closed spec fn entries_map(entries: Seq<TableEntry>) -> Map<Slot, PlanningValue>
    decreases entries.len(),
{
    if entries.len() == 0 {
        Map::empty()
    } else {
        entries_map(entries.drop_last()).insert(entries.last().slot@, entries.last().value)
    }
}

/// No variable has two entries.
pub closed spec fn distinct_slots(entries: Seq<TableEntry>) -> bool {
    forall|i: int, j: int|
        0 <= i < j < entries.len() ==> (#[trigger] entries[i]).slot@ != (#[trigger] entries[j]).slot@
}

proof fn lemma_map_of_push(entries: Seq<TableEntry>, entry: TableEntry)
    ensures
        entries_map(entries.push(entry)) == entries_map(entries).insert(entry.slot@, entry.value),
{
    assert(entries.push(entry).drop_last() =~= entries);
}

proof fn lemma_map_without(entries: Seq<TableEntry>, key: Slot)
    requires
        forall|i: int| 0 <= i < entries.len() ==> (#[trigger] entries[i]).slot@ != key,
    ensures
        !entries_map(entries).contains_key(key),
    decreases entries.len(),
{
    if entries.len() > 0 {
        lemma_map_without(entries.drop_last(), key);
        assert(entries[entries.len() - 1].slot@ != key);
    }
}

proof fn lemma_map_with(entries: Seq<TableEntry>, at: int)
    requires
        distinct_slots(entries),
        0 <= at < entries.len(),
    ensures
        entries_map(entries).contains_key(entries[at].slot@),
        entries_map(entries)[entries[at].slot@] == entries[at].value,
    decreases entries.len(),
{
    if at < entries.len() - 1 {
        lemma_map_with(entries.drop_last(), at);
        assert(entries[at].slot@ != entries[entries.len() - 1].slot@);
    }
}

proof fn lemma_map_of_update(entries: Seq<TableEntry>, at: int, entry: TableEntry)
    requires
        distinct_slots(entries),
        0 <= at < entries.len(),
        entries[at].slot@ == entry.slot@,
    ensures
        distinct_slots(entries.update(at, entry)),
        entries_map(entries.update(at, entry)) == entries_map(entries).insert(
            entry.slot@,
            entry.value,
        ),
    decreases entries.len(),
{
    let updated = entries.update(at, entry);
    assert(distinct_slots(updated)) by {
        assert forall|i: int, j: int| 0 <= i < j < updated.len() implies (#[trigger] updated[i]).slot@
            != (#[trigger] updated[j]).slot@ by {
            assert(entries[i].slot@ != entries[j].slot@);
        }
    }
    if at == entries.len() - 1 {
        assert(updated.drop_last() =~= entries.drop_last());
        assert(entries_map(updated) =~= entries_map(entries).insert(entry.slot@, entry.value));
    } else {
        lemma_map_of_update(entries.drop_last(), at, entry);
        assert(updated.drop_last() =~= entries.drop_last().update(at, entry));
        assert(entries[at].slot@ != entries[entries.len() - 1].slot@);
        assert(entries_map(updated) =~= entries_map(entries).insert(entry.slot@, entry.value));
    }
}

/// A table from planning variables to values.
pub struct ValueTable {
    entries: Vec<TableEntry>,
}

impl View for ValueTable {
    type V = Map<Slot, PlanningValue>;

    closed spec fn view(&self) -> Map<Slot, PlanningValue> {
        entries_map(self.entries@)
    }
}

impl ValueTable {
    /// Every variable has one entry at most.
    pub closed spec fn well_formed(&self) -> bool {
        distinct_slots(self.entries@)
    }

    pub fn new() -> (table: Self)
        ensures
            table.well_formed(),
            table@ == Map::<Slot, PlanningValue>::empty(),
    {
        ValueTable { entries: Vec::new() }
    }

    /// Where the entry of a variable stands, if it has one.
    fn position(&self, entity_uuid: &Uuid, variable_name: &String) -> (found: Option<usize>)
        ensures
            match found {
                Some(at) => at < self.entries@.len() && self.entries@[at as int].slot@ == (
                    uuid_bits(*entity_uuid),
                    variable_name@,
                ),
                None => forall|i: int|
                    0 <= i < self.entries@.len() ==> (#[trigger] self.entries@[i]).slot@ != (
                        uuid_bits(*entity_uuid),
                        variable_name@,
                    ),
            },
    {
        let mut at: usize = 0;
        while at < self.entries.len()
            invariant
                at <= self.entries@.len(),
                forall|i: int|
                    0 <= i < at ==> (#[trigger] self.entries@[i]).slot@ != (
                        uuid_bits(*entity_uuid),
                        variable_name@,
                    ),
            decreases self.entries@.len() - at,
        {
            if self.entries[at].slot.names(entity_uuid, variable_name) {
                return Some(at);
            }
            at = at + 1;
        }
        None
    }

    /// The value stored for a variable, if there is one.
    pub fn get(&self, entity_uuid: &Uuid, variable_name: &String) -> (value: Option<&PlanningValue>)
        requires
            self.well_formed(),
        ensures
            value == (if self@.contains_key((uuid_bits(*entity_uuid), variable_name@)) {
                Some(&self@[(uuid_bits(*entity_uuid), variable_name@)])
            } else {
                None
            }),
    {
        match self.position(entity_uuid, variable_name) {
            Some(at) => {
                proof {
                    lemma_map_with(self.entries@, at as int);
                }
                Some(&self.entries[at].value)
            },
            None => {
                proof {
                    lemma_map_without(self.entries@, (uuid_bits(*entity_uuid), variable_name@));
                }
                None
            },
        }
    }

    /// Stores `value` for `slot`, in place of what was stored for it.
    pub fn set(&mut self, slot: EntityVariable, value: PlanningValue)
        requires
            old(self).well_formed(),
        ensures
            final(self).well_formed(),
            final(self)@ == old(self)@.insert(slot@, value),
    {
        let found = self.position(&slot.entity_uuid(), slot.variable_name());
        let entry = TableEntry { slot, value };
        match found {
            Some(at) => {
                proof {
                    lemma_map_of_update(self.entries@, at as int, entry);
                }
                self.entries.set(at, entry);
            },
            None => {
                proof {
                    lemma_map_of_push(self.entries@, entry);
                    lemma_map_without(self.entries@, entry.slot@);
                }
                self.entries.push(entry);
                assert(distinct_slots(self.entries@)) by {
                    assert forall|i: int, j: int| 0 <= i < j < self.entries@.len() implies (
                    #[trigger] self.entries@[i]).slot@ != (#[trigger] self.entries@[j]).slot@ by {
                        if j < old(self).entries@.len() {
                            assert(old(self).entries@[i].slot@ != old(self).entries@[j].slot@);
                        } else {
                            assert(old(self).entries@[i].slot@ != entry.slot@);
                        }
                    }
                }
            },
        }
    }
}

impl Clone for ValueTable {
    /// A copy that shares nothing with the table: every entry is copied.
    fn clone(&self) -> (copy: Self)
        ensures
            copy@ == self@,
            self.well_formed() ==> copy.well_formed(),
    {
        let mut entries: Vec<TableEntry> = Vec::new();
        let mut at: usize = 0;
        while at < self.entries.len()
            invariant
                at <= self.entries@.len(),
                entries@ == self.entries@.take(at as int),
            decreases self.entries@.len() - at,
        {
            let entry = TableEntry {
                slot: self.entries[at].slot.clone(),
                value: self.entries[at].value.clone(),
            };
            entries.push(entry);
            assert(entries@ =~= self.entries@.take(at + 1));
            at = at + 1;
        }
        assert(entries@ =~= self.entries@);
        ValueTable { entries }
    }
}

} // verus!
