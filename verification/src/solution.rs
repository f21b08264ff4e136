//! Planning variables and the values they hold.

use uuid::Uuid;
use vstd::prelude::*;
use crate::ids::{uuid_bits, uuid_to_bits};
use crate::score::ScoreTrait;
use crate::value_table::ValueTable;

verus! {

/// What identifies a slot in specifications: the entity's identifier as a
/// number, and the variable's name.
pub type Slot = (u128, Seq<char>);

/// One mutable slot of a problem: a variable of an entity.
#[derive(Debug, Eq, Hash)]
pub struct EntityVariable {
    entity_uuid: Uuid,
    variable_name: String,
}

impl View for EntityVariable {
    type V = Slot;

    closed spec fn view(&self) -> Slot {
        (uuid_bits(self.entity_uuid), self.variable_name@)
    }
}

impl EntityVariable {
    pub fn new(entity_uuid: Uuid, variable_name: String) -> (slot: Self)
        ensures
            slot@ == (uuid_bits(entity_uuid), variable_name@),
    {
        EntityVariable { entity_uuid, variable_name }
    }

    pub fn entity_uuid(&self) -> (id: Uuid)
        ensures
            uuid_bits(id) == self@.0,
    {
        self.entity_uuid
    }

    pub fn variable_name(&self) -> (name: &String)
        ensures
            name@ == self@.1,
    {
        &self.variable_name
    }

    /// Whether this is the variable `variable_name` of the entity
    /// `entity_uuid`.
    pub fn names(&self, entity_uuid: &Uuid, variable_name: &String) -> (r: bool)
        ensures
            r == (self@ == (uuid_bits(*entity_uuid), variable_name@)),
    {
        uuid_to_bits(&self.entity_uuid) == uuid_to_bits(entity_uuid) && self.variable_name
            == *variable_name
    }
}

impl Clone for EntityVariable {
    fn clone(&self) -> (copy: Self)
        ensures
            copy == *self,
    {
        EntityVariable {
            entity_uuid: self.entity_uuid,
            variable_name: self.variable_name.clone(),
        }
    }
}

impl PartialEq for EntityVariable {
    fn eq(&self, other: &Self) -> (r: bool) {
        self.names(&other.entity_uuid, &other.variable_name)
    }
}

impl vstd::std_specs::cmp::PartialEqSpecImpl for EntityVariable {
    open spec fn obeys_eq_spec() -> bool {
        true
    }

    open spec fn eq_spec(&self, other: &Self) -> bool {
        self@ == other@
    }
}

/// A value a planning variable may hold.
///
/// Values are never changed in place: to change a variable is to store a
/// new value for it. The two reference kinds name another variable, of an
/// entity or of a fact, whose value is found in the registry.
#[derive(Debug, PartialEq)]
pub enum PlanningValue {
    String(String),
    Int8(i8),
    Int16(i16),
    Int32(i32),
    Int64(i64),
    Int128(i128),
    /// A fixed-point decimal; it carries no data yet.
    Decimal32,
    /// A 64-bit floating-point decimal, held as its bit pattern.
    Decimal64(u64),
    EntityVariable(Uuid, String),
    FactVariable(Uuid, String),
}

impl Clone for PlanningValue {
    fn clone(&self) -> (copy: Self)
        ensures
            copy == *self,
    {
        match self {
            PlanningValue::String(text) => PlanningValue::String(text.clone()),
            PlanningValue::Int8(number) => PlanningValue::Int8(*number),
            PlanningValue::Int16(number) => PlanningValue::Int16(*number),
            PlanningValue::Int32(number) => PlanningValue::Int32(*number),
            PlanningValue::Int64(number) => PlanningValue::Int64(*number),
            PlanningValue::Int128(number) => PlanningValue::Int128(*number),
            PlanningValue::Decimal32 => PlanningValue::Decimal32,
            PlanningValue::Decimal64(bits) => PlanningValue::Decimal64(*bits),
            PlanningValue::EntityVariable(entity, variable) => PlanningValue::EntityVariable(
                *entity,
                variable.clone(),
            ),
            PlanningValue::FactVariable(fact, variable) => PlanningValue::FactVariable(
                *fact,
                variable.clone(),
            ),
        }
    }
}

/// A candidate solution: the value of every planning variable that has
/// one, under an identity that its maker chose.
pub struct Solution {
    solution_uuid: Uuid,
    entity_map: ValueTable,
}

impl View for Solution {
    type V = Map<Slot, PlanningValue>;

    closed spec fn view(&self) -> Map<Slot, PlanningValue> {
        self.entity_map@
    }
}

impl Solution {
    /// The table inside holds one entry per variable at most.
    pub closed spec fn well_formed(&self) -> bool {
        self.entity_map.well_formed()
    }

    /// The identity of the solution, as a number.
    pub closed spec fn identity(&self) -> u128 {
        uuid_bits(self.solution_uuid)
    }

    /// A solution in which no variable has a value.
    pub fn new(solution_uuid: Uuid) -> (solution: Self)
        ensures
            solution.well_formed(),
            solution@ == Map::<Slot, PlanningValue>::empty(),
            solution.identity() == uuid_bits(solution_uuid),
    {
        Solution { solution_uuid, entity_map: ValueTable::new() }
    }

    /// The identity that the solution was made with.
    pub fn solution_uuid(&self) -> (id: Uuid)
        ensures
            uuid_bits(id) == self.identity(),
    {
        self.solution_uuid
    }

    /// The value of a variable, if it has one.
    pub fn get_value(&self, entity_variable: &EntityVariable) -> (value: Option<&PlanningValue>)
        requires
            self.well_formed(),
        ensures
            value == (if self@.contains_key(entity_variable@) {
                Some(&self@[entity_variable@])
            } else {
                None
            }),
    {
        self.entity_map.get(&entity_variable.entity_uuid(), entity_variable.variable_name())
    }

    /// Gives a variable a new value. No other variable changes.
    pub fn set_value(&mut self, entity_variable: EntityVariable, value: PlanningValue)
        requires
            old(self).well_formed(),
        ensures
            final(self).well_formed(),
            final(self)@ == old(self)@.insert(entity_variable@, value),
            final(self).identity() == old(self).identity(),
    {
        self.entity_map.set(entity_variable, value);
    }
}

impl<ScoreType: ScoreTrait> crate::solver::Solution<ScoreType> for Solution {
    open spec fn identity(&self) -> u128 {
        Solution::identity(self)
    }

    fn get_solution_uuid(&self) -> (id: Uuid) {
        self.solution_uuid
    }
}

impl Clone for Solution {
    /// A deep copy: it holds its own copy of every value, under the same
    /// identity.
    fn clone(&self) -> (copy: Self)
        ensures
            copy@ == self@,
            copy.identity() == self.identity(),
            self.well_formed() ==> copy.well_formed(),
    {
        Solution { solution_uuid: self.solution_uuid, entity_map: self.entity_map.clone() }
    }
}

} // verus!
