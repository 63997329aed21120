//! Instruction steps: the persisted row, its transfer form, and the maps
//! between the two.

use crate::external::{fresh_id, is_random_uuid};
use chrono::NaiveDateTime;
use vstd::prelude::*;

verus! {

/// One persisted instruction step. It belongs to exactly one recipe; `step`
/// is its zero-based place among that recipe's steps.
#[derive(Debug, PartialEq)]
pub struct Instruction {
    pub id: u128,
    pub instruction: String,
    pub step: i16,
    pub cocktail_id: u128,
    pub created_at: Option<NaiveDateTime>,
    pub updated_at: Option<NaiveDateTime>,
}

/// The transfer form of an instruction step: identifier and owner are absent
/// until the step is persisted.
#[derive(Debug, PartialEq)]
pub struct InstructionData {
    pub id: Option<u128>,
    pub instruction: String,
    pub step: i16,
    pub cocktail_id: Option<u128>,
    pub created_at: Option<NaiveDateTime>,
    pub updated_at: Option<NaiveDateTime>,
}

/// What an [`Instruction`] is, with its texts as character sequences.
pub struct InstructionView {
    pub id: u128,
    pub instruction: Seq<char>,
    pub step: i16,
    pub cocktail_id: u128,
    pub created_at: Option<NaiveDateTime>,
    pub updated_at: Option<NaiveDateTime>,
}

/// What an [`InstructionData`] is, with its texts as character sequences.
pub struct InstructionDataView {
    pub id: Option<u128>,
    pub instruction: Seq<char>,
    pub step: i16,
    pub cocktail_id: Option<u128>,
    pub created_at: Option<NaiveDateTime>,
    pub updated_at: Option<NaiveDateTime>,
}

impl View for Instruction {
    type V = InstructionView;

    open spec fn view(&self) -> InstructionView {
        InstructionView {
            id: self.id,
            instruction: self.instruction@,
            step: self.step,
            cocktail_id: self.cocktail_id,
            created_at: self.created_at,
            updated_at: self.updated_at,
        }
    }
}

impl DeepView for Instruction {
    type V = InstructionView;

    open spec fn deep_view(&self) -> InstructionView {
        self@
    }
}

impl View for InstructionData {
    type V = InstructionDataView;

    open spec fn view(&self) -> InstructionDataView {
        InstructionDataView {
            id: self.id,
            instruction: self.instruction@,
            step: self.step,
            cocktail_id: self.cocktail_id,
            created_at: self.created_at,
            updated_at: self.updated_at,
        }
    }
}

impl DeepView for InstructionData {
    type V = InstructionDataView;

    open spec fn deep_view(&self) -> InstructionDataView {
        self@
    }
}

/// The most steps that one recipe can number: a step index counts from zero
/// in sixteen signed bits.
pub const MAX_STEPS: usize = 32768;

/// The step index of the instruction at `position` of a list of at most
/// `MAX_STEPS` instructions: the position itself.
pub open spec fn step_at(position: usize) -> i16
    recommends
        position < MAX_STEPS,
{
    position as i16
}

impl InstructionView {
    /// The transfer form of a persisted step: every field kept, identifier
    /// and owner present.
    pub open spec fn to_data(self) -> InstructionDataView {
        InstructionDataView {
            id: Some(self.id),
            instruction: self.instruction,
            step: self.step,
            cocktail_id: Some(self.cocktail_id),
            created_at: self.created_at,
            updated_at: self.updated_at,
        }
    }
}

impl InstructionDataView {
    /// A freshly described step: its text and its place, nothing else.
    pub open spec fn described(position: usize, instruction: Seq<char>) -> InstructionDataView
        recommends
            position < MAX_STEPS,
    {
        InstructionDataView {
            id: None,
            instruction,
            step: step_at(position),
            cocktail_id: None,
            created_at: None,
            updated_at: None,
        }
    }

    /// The step to persist for this record under recipe `owner`: its own
    /// identifier if it has one, else `fresh`; always owned by `owner`,
    /// whatever owner the record itself names.
    pub open spec fn to_step(self, fresh: u128, owner: u128) -> InstructionView {
        InstructionView {
            id: match self.id {
                Some(id) => id,
                None => fresh,
            },
            instruction: self.instruction,
            step: self.step,
            cocktail_id: owner,
            created_at: self.created_at,
            updated_at: self.updated_at,
        }
    }

    /// `step` is what persisting this record under `owner` may produce: it is
    /// `to_step` for some random identifier.
    pub open spec fn persisted_as(self, owner: u128, step: InstructionView) -> bool {
        &&& step == self.to_step(step.id, owner)
        &&& self.id is None ==> is_random_uuid(step.id)
    }
}

/// The transfer forms of a sequence of steps, in the same order.
pub open spec fn steps_to_data(steps: Seq<InstructionView>) -> Seq<InstructionDataView> {
    steps.map_values(|s: InstructionView| s.to_data())
}

/// `steps` is what persisting `records` under `owner` may produce: one step
/// per record, in order.
pub open spec fn steps_persist(
    records: Seq<InstructionDataView>,
    owner: u128,
    steps: Seq<InstructionView>,
) -> bool {
    &&& steps.len() == records.len()
    &&& forall|i: int|
        0 <= i < records.len() ==> (#[trigger] records[i]).persisted_as(owner, steps[i])
}

/// The test "recipe `owner` owns this step".
pub open spec fn step_owned_by(owner: u128) -> spec_fn(InstructionView) -> bool {
    |s: InstructionView| s.cocktail_id == owner
}

/// The steps among `rows` that recipe `owner` owns, in the order of `rows`.
/// They are not sorted by step index.
pub open spec fn steps_of(rows: Seq<InstructionView>, owner: u128) -> Seq<InstructionView> {
    rows.filter(step_owned_by(owner))
}

impl Clone for Instruction {
    fn clone(&self) -> (r: Self)
        ensures
            r == *self,
    {
        Instruction {
            id: self.id,
            instruction: self.instruction.clone(),
            step: self.step,
            cocktail_id: self.cocktail_id,
            created_at: self.created_at,
            updated_at: self.updated_at,
        }
    }
}

impl Clone for InstructionData {
    fn clone(&self) -> (r: Self)
        ensures
            r == *self,
    {
        InstructionData {
            id: self.id,
            instruction: self.instruction.clone(),
            step: self.step,
            cocktail_id: self.cocktail_id,
            created_at: self.created_at,
            updated_at: self.updated_at,
        }
    }
}

impl InstructionData {
    /// The freshly described step for the instruction at `position` of a
    /// list. The position has to be one that a step index can hold.
    pub fn at_position(position: usize, instruction: String) -> (r: InstructionData)
        requires
            position < MAX_STEPS,
        ensures
            r@ == InstructionDataView::described(position, instruction@),
            r.step == position,
    {
        InstructionData {
            id: None,
            instruction,
            step: position as i16,
            cocktail_id: None,
            created_at: None,
            updated_at: None,
        }
    }
}

impl From<Instruction> for InstructionData {
    fn from(ins: Instruction) -> (r: Self) {
        InstructionData {
            id: Some(ins.id),
            instruction: ins.instruction,
            step: ins.step,
            cocktail_id: Some(ins.cocktail_id),
            created_at: ins.created_at,
            updated_at: ins.updated_at,
        }
    }
}

impl vstd::std_specs::convert::FromSpecImpl<Instruction> for InstructionData {
    open spec fn obeys_from_spec() -> bool {
        true
    }

    open spec fn from_spec(ins: Instruction) -> Self {
        InstructionData {
            id: Some(ins.id),
            instruction: ins.instruction,
            step: ins.step,
            cocktail_id: Some(ins.cocktail_id),
            created_at: ins.created_at,
            updated_at: ins.updated_at,
        }
    }
}

impl Instruction {
    /// The transfer form of a persisted step.
    pub fn map_instruction_to_data(ins: &Instruction) -> (r: InstructionData)
        ensures
            r@ == ins@.to_data(),
    {
        InstructionData {
            id: Some(ins.id),
            instruction: ins.instruction.clone(),
            step: ins.step,
            cocktail_id: Some(ins.cocktail_id),
            created_at: ins.created_at,
            updated_at: ins.updated_at,
        }
    }

    /// The transfer forms of all `ins`, in the same order.
    pub fn map_instructions_to_data(ins: Vec<Instruction>) -> (r: Vec<InstructionData>)
        ensures
            r.deep_view() == steps_to_data(ins.deep_view()),
    {
        let mut out: Vec<InstructionData> = Vec::new();
        let mut i: usize = 0;
        while i < ins.len()
            invariant
                i <= ins.len(),
                out.len() == i,
                forall|j: int| 0 <= j < i ==> out[j]@ == ins[j]@.to_data(),
            decreases ins.len() - i,
        {
            out.push(Instruction::map_instruction_to_data(&ins[i]));
            i += 1;
        }
        assert(out.deep_view() =~= steps_to_data(ins.deep_view()));
        out
    }

    /// The steps among `rows` that recipe `c_id` owns, in the order of `rows`.
    pub fn get_instructions_by_cocktail_id(rows: &Vec<Instruction>, c_id: &u128) -> (r: Vec<
        Instruction,
    >)
        ensures
            r.deep_view() == steps_of(rows.deep_view(), *c_id),
    {
        let mut out: Vec<Instruction> = Vec::new();
        let mut i: usize = 0;
        assert(rows.deep_view().take(0) =~= Seq::empty());
        reveal_with_fuel(Seq::filter, 1);
        while i < rows.len()
            invariant
                i <= rows.len(),
                out.deep_view() == steps_of(rows.deep_view().take(i as int), *c_id),
            decreases rows.len() - i,
        {
            proof {
                let all = rows.deep_view();
                assert(all.take(i + 1) =~= all.take(i as int).push(rows[i as int]@));
                all.take(i as int).lemma_filter_push(rows[i as int]@, step_owned_by(*c_id));
            }
            if rows[i].cocktail_id == *c_id {
                let ghost before = out.deep_view();
                out.push(rows[i].clone());
                assert(out.deep_view() =~= before.push(rows[i as int]@));
            }
            i += 1;
        }
        assert(rows.deep_view().take(rows.len() as int) =~= rows.deep_view());
        out
    }

    /// The step to persist for `ins` under recipe `c_id`, with `fresh` as the
    /// identifier to use if `ins` has none.
    pub fn map_data_with_id(ins: &InstructionData, fresh: u128, c_id: &u128) -> (r: Instruction)
        ensures
            r@ == ins@.to_step(fresh, *c_id),
    {
        Instruction {
            id: match ins.id {
                Some(id) => id,
                None => fresh,
            },
            instruction: ins.instruction.clone(),
            step: ins.step,
            cocktail_id: *c_id,
            created_at: ins.created_at,
            updated_at: ins.updated_at,
        }
    }

    /// The step to persist for `ins` under recipe `c_id`. A record without
    /// an identifier gets a random one.
    pub fn map_data_to_instruction(ins: &InstructionData, c_id: &u128) -> (r: Instruction)
        ensures
            ins@.persisted_as(*c_id, r@),
    {
        let fresh = fresh_id();
        Instruction::map_data_with_id(ins, fresh, c_id)
    }

    /// The steps to persist for all `ins` under recipe `c_id`, in the same
    /// order.
    pub fn map_data_to_instructions(ins: Vec<InstructionData>, c_id: &u128) -> (r: Vec<Instruction>)
        ensures
            steps_persist(ins.deep_view(), *c_id, r.deep_view()),
    {
        let mut out: Vec<Instruction> = Vec::new();
        let mut i: usize = 0;
        while i < ins.len()
            invariant
                i <= ins.len(),
                out.len() == i,
                forall|j: int| 0 <= j < i ==> (#[trigger] ins[j])@.persisted_as(*c_id, out[j]@),
            decreases ins.len() - i,
        {
            out.push(Instruction::map_data_to_instruction(&ins[i], c_id));
            i += 1;
        }
        out
    }
}

} // verus!
