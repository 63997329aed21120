//! The persistence coordinator: a recipe and its children are written by
//! three separate inserts, and no transaction spans them. The coordinator is
//! a state machine that names the next write and is told how the last one
//! went; when a child insert fails it asks for the recipe row to be deleted
//! again. Its one guarantee is that the recipe row does not outlive a failed
//! child insert. Child rows that a failed insert left behind are not removed.

use crate::cocktails::{Cocktail, CocktailData, CocktailDataView, CocktailView};
use crate::error::{EngineError, EngineErrorView};
use crate::external::{current_time, fresh_id, is_random_uuid};
use crate::ingredients::{lines_persist, Ingredient, IngredientView};
use crate::instructions::{steps_persist, Instruction, InstructionView};
use chrono::NaiveDateTime;
use vstd::prelude::*;

verus! {

/// One write that the coordinator asks of the catalog store.
#[derive(Debug, PartialEq)]
pub enum StoreWrite {
    InsertRecipe(Cocktail),
    InsertIngredientLines(Vec<Ingredient>),
    InsertInstructionSteps(Vec<Instruction>),
    DeleteRecipe(u128),
}

/// How a write went.
#[derive(Debug, PartialEq)]
pub enum WriteOutcome {
    Written,
    Failed(String),
}

/// How far a coordinated write has come.
#[derive(Debug, PartialEq)]
pub enum Phase {
    /// Nothing is written; the recipe row is to be inserted.
    Planned,
    /// The recipe row is written; the ingredient lines are to be inserted.
    Created,
    /// The ingredient lines are written; the instruction steps are to be
    /// inserted.
    IngredientsWritten,
    /// A child insert failed with this message; the recipe row is to be
    /// deleted.
    Compensating(String),
    /// All three inserts went through.
    Committed,
    /// A child insert failed with this message and the delete of the recipe
    /// row has been attempted.
    RolledBack(String),
    /// The insert of the recipe row itself failed with this message; there
    /// was nothing to undo.
    Rejected(String),
}

/// A coordinated write in flight: the rows to write and how far it has come.
#[derive(Debug, PartialEq)]
pub struct Saga {
    pub phase: Phase,
    pub cocktail: Cocktail,
    pub ingredients: Vec<Ingredient>,
    pub instructions: Vec<Instruction>,
}

/// A [`StoreWrite`] over views.
pub enum StoreWriteView {
    InsertRecipe(CocktailView),
    InsertIngredientLines(Seq<IngredientView>),
    InsertInstructionSteps(Seq<InstructionView>),
    DeleteRecipe(u128),
}

/// A [`WriteOutcome`] with its message as a character sequence.
pub enum WriteOutcomeView {
    Written,
    Failed(Seq<char>),
}

/// A [`Phase`] with its message as a character sequence.
pub enum PhaseView {
    Planned,
    Created,
    IngredientsWritten,
    Compensating(Seq<char>),
    Committed,
    RolledBack(Seq<char>),
    Rejected(Seq<char>),
}

/// A [`Saga`] over views.
pub struct SagaView {
    pub phase: PhaseView,
    pub cocktail: CocktailView,
    pub ingredients: Seq<IngredientView>,
    pub instructions: Seq<InstructionView>,
}

impl View for StoreWrite {
    type V = StoreWriteView;

    open spec fn view(&self) -> StoreWriteView {
        match self {
            StoreWrite::InsertRecipe(row) => StoreWriteView::InsertRecipe(row@),
            StoreWrite::InsertIngredientLines(lines) => StoreWriteView::InsertIngredientLines(
                lines.deep_view(),
            ),
            StoreWrite::InsertInstructionSteps(steps) => StoreWriteView::InsertInstructionSteps(
                steps.deep_view(),
            ),
            StoreWrite::DeleteRecipe(id) => StoreWriteView::DeleteRecipe(*id),
        }
    }
}

impl View for WriteOutcome {
    type V = WriteOutcomeView;

    open spec fn view(&self) -> WriteOutcomeView {
        match self {
            WriteOutcome::Written => WriteOutcomeView::Written,
            WriteOutcome::Failed(m) => WriteOutcomeView::Failed(m@),
        }
    }
}

impl View for Phase {
    type V = PhaseView;

    open spec fn view(&self) -> PhaseView {
        match self {
            Phase::Planned => PhaseView::Planned,
            Phase::Created => PhaseView::Created,
            Phase::IngredientsWritten => PhaseView::IngredientsWritten,
            Phase::Compensating(m) => PhaseView::Compensating(m@),
            Phase::Committed => PhaseView::Committed,
            Phase::RolledBack(m) => PhaseView::RolledBack(m@),
            Phase::Rejected(m) => PhaseView::Rejected(m@),
        }
    }
}

impl View for Saga {
    type V = SagaView;

    open spec fn view(&self) -> SagaView {
        SagaView {
            phase: self.phase@,
            cocktail: self.cocktail@,
            ingredients: self.ingredients.deep_view(),
            instructions: self.instructions.deep_view(),
        }
    }
}

impl PhaseView {
    /// The phase that follows when the write that this phase waits for went
    /// as `outcome` says. A failed recipe insert ends the write; a failed
    /// child insert turns to the compensating delete; what the delete
    /// returns is not looked at; a finished write stays as it is.
    pub open spec fn next(self, outcome: WriteOutcomeView) -> PhaseView {
        match (self, outcome) {
            (PhaseView::Planned, WriteOutcomeView::Written) => PhaseView::Created,
            (PhaseView::Planned, WriteOutcomeView::Failed(m)) => PhaseView::Rejected(m),
            (PhaseView::Created, WriteOutcomeView::Written) => PhaseView::IngredientsWritten,
            (PhaseView::Created, WriteOutcomeView::Failed(m)) => PhaseView::Compensating(m),
            (PhaseView::IngredientsWritten, WriteOutcomeView::Written) => PhaseView::Committed,
            (PhaseView::IngredientsWritten, WriteOutcomeView::Failed(m)) => PhaseView::Compensating(
                m,
            ),
            (PhaseView::Compensating(m), _) => PhaseView::RolledBack(m),
            (PhaseView::Committed, _) => PhaseView::Committed,
            (PhaseView::RolledBack(m), _) => PhaseView::RolledBack(m),
            (PhaseView::Rejected(m), _) => PhaseView::Rejected(m),
        }
    }

    /// Whether the write has ended, well or badly.
    pub open spec fn finished(self) -> bool {
        self is Committed || self is RolledBack || self is Rejected
    }
}

impl SagaView {
    /// The write that the coordinator waits for, if any.
    pub open spec fn request(self) -> Option<StoreWriteView> {
        match self.phase {
            PhaseView::Planned => Some(StoreWriteView::InsertRecipe(self.cocktail)),
            PhaseView::Created => Some(StoreWriteView::InsertIngredientLines(self.ingredients)),
            PhaseView::IngredientsWritten => Some(
                StoreWriteView::InsertInstructionSteps(self.instructions),
            ),
            PhaseView::Compensating(_) => Some(StoreWriteView::DeleteRecipe(self.cocktail.id)),
            _ => None,
        }
    }

    /// The coordinator after the write it waited for went as `outcome` says:
    /// the rows stay, the phase moves on.
    pub open spec fn next(self, outcome: WriteOutcomeView) -> SagaView {
        SagaView { phase: self.phase.next(outcome), ..self }
    }

    /// What a finished write reports: the recipe row, or the failure. A
    /// write in flight reports nothing yet.
    pub open spec fn outcome(self) -> Option<Result<CocktailView, EngineErrorView>> {
        match self.phase {
            PhaseView::Committed => Some(Ok(self.cocktail)),
            PhaseView::RolledBack(m) => Some(Err(EngineErrorView::PartialWriteFailure(m))),
            PhaseView::Rejected(m) => Some(Err(EngineErrorView::QueryFailure(m))),
            _ => None,
        }
    }

    /// Whether this is the plan for persisting `data` as recipe `id`,
    /// stamped `created_at` and `updated_at`: nothing written yet, the row
    /// named as `data` is, one line per ingredient record and one step per
    /// instruction record, each owned by the new recipe.
    pub open spec fn plans(
        self,
        data: CocktailDataView,
        id: u128,
        created_at: NaiveDateTime,
        updated_at: NaiveDateTime,
    ) -> bool {
        &&& self.phase is Planned
        &&& self.cocktail == CocktailView {
            id,
            name: data.name,
            created_at: Some(created_at),
            updated_at: Some(updated_at),
        }
        &&& lines_persist(data.ingredients, id, self.ingredients)
        &&& steps_persist(data.instructions, id, self.instructions)
    }

    /// Whether this is a plan for persisting `data` under some random
    /// identifier and some pair of timestamps.
    pub open spec fn plans_some(self, data: CocktailDataView) -> bool {
        &&& is_random_uuid(self.cocktail.id)
        &&& self.cocktail.created_at is Some
        &&& self.cocktail.updated_at is Some
        &&& self.plans(
            data,
            self.cocktail.id,
            self.cocktail.created_at->0,
            self.cocktail.updated_at->0,
        )
    }
}

impl Clone for WriteOutcome {
    fn clone(&self) -> (r: Self)
        ensures
            r == *self,
    {
        match self {
            WriteOutcome::Written => WriteOutcome::Written,
            WriteOutcome::Failed(m) => WriteOutcome::Failed(m.clone()),
        }
    }
}

/// A copy of `lines`.
pub fn copy_lines(lines: &Vec<Ingredient>) -> (r: Vec<Ingredient>)
    ensures
        r.deep_view() == lines.deep_view(),
{
    let mut out: Vec<Ingredient> = Vec::new();
    let mut i: usize = 0;
    while i < lines.len()
        invariant
            i <= lines.len(),
            out.len() == i,
            forall|j: int| 0 <= j < i ==> out[j] == lines[j],
        decreases lines.len() - i,
    {
        out.push(lines[i].clone());
        i += 1;
    }
    assert(out.deep_view() =~= lines.deep_view());
    out
}

/// A copy of `steps`.
pub fn copy_steps(steps: &Vec<Instruction>) -> (r: Vec<Instruction>)
    ensures
        r.deep_view() == steps.deep_view(),
{
    let mut out: Vec<Instruction> = Vec::new();
    let mut i: usize = 0;
    while i < steps.len()
        invariant
            i <= steps.len(),
            out.len() == i,
            forall|j: int| 0 <= j < i ==> out[j] == steps[j],
        decreases steps.len() - i,
    {
        out.push(steps[i].clone());
        i += 1;
    }
    assert(out.deep_view() =~= steps.deep_view());
    out
}

impl Phase {
    /// The phase that follows when the write that this phase waits for went
    /// as `outcome` says.
    pub fn advance(self, outcome: WriteOutcome) -> (r: Phase)
        ensures
            r@ == self@.next(outcome@),
    {
        match self {
            Phase::Planned => match outcome {
                WriteOutcome::Written => Phase::Created,
                WriteOutcome::Failed(m) => Phase::Rejected(m),
            },
            Phase::Created => match outcome {
                WriteOutcome::Written => Phase::IngredientsWritten,
                WriteOutcome::Failed(m) => Phase::Compensating(m),
            },
            Phase::IngredientsWritten => match outcome {
                WriteOutcome::Written => Phase::Committed,
                WriteOutcome::Failed(m) => Phase::Compensating(m),
            },
            Phase::Compensating(m) => Phase::RolledBack(m),
            Phase::Committed => Phase::Committed,
            Phase::RolledBack(m) => Phase::RolledBack(m),
            Phase::Rejected(m) => Phase::Rejected(m),
        }
    }
}

impl Saga {
    /// The plan for persisting `new_cocktail` as recipe `id`, stamped
    /// `created_at` and `updated_at`. Children without an identifier get a
    /// random one.
    pub fn plan(
        new_cocktail: CocktailData,
        id: u128,
        created_at: NaiveDateTime,
        updated_at: NaiveDateTime,
    ) -> (saga: Saga)
        ensures
            saga@.plans(new_cocktail@, id, created_at, updated_at),
    {
        let cocktail = Cocktail {
            id,
            name: new_cocktail.name,
            created_at: Some(created_at),
            updated_at: Some(updated_at),
        };
        let ingredients = Ingredient::map_data_to_ingredients(new_cocktail.ingredients, &cocktail.id);
        let instructions = Instruction::map_data_to_instructions(
            new_cocktail.instructions,
            &cocktail.id,
        );
        Saga { phase: Phase::Planned, cocktail, ingredients, instructions }
    }

    /// The write that the coordinator waits for: `None` once it has finished.
    pub fn request(&self) -> (r: Option<StoreWrite>)
        ensures
            match r {
                Some(w) => self@.request() == Some(w@),
                None => self@.request() is None,
            },
    {
        match &self.phase {
            Phase::Planned => Some(StoreWrite::InsertRecipe(self.cocktail.clone())),
            Phase::Created => Some(StoreWrite::InsertIngredientLines(copy_lines(&self.ingredients))),
            Phase::IngredientsWritten => Some(
                StoreWrite::InsertInstructionSteps(copy_steps(&self.instructions)),
            ),
            Phase::Compensating(_) => Some(StoreWrite::DeleteRecipe(self.cocktail.id)),
            _ => None,
        }
    }

    /// Takes in how the write that the coordinator waited for went.
    pub fn advance(self, outcome: WriteOutcome) -> (r: Saga)
        ensures
            r@ == self@.next(outcome@),
    {
        Saga {
            phase: self.phase.advance(outcome),
            cocktail: self.cocktail,
            ingredients: self.ingredients,
            instructions: self.instructions,
        }
    }

    /// Whether the write has ended, well or badly.
    pub fn is_finished(&self) -> (r: bool)
        ensures
            r == self@.phase.finished(),
            r == (self@.request() is None),
            r == (self@.outcome() is Some),
    {
        match &self.phase {
            Phase::Committed => true,
            Phase::RolledBack(_) => true,
            Phase::Rejected(_) => true,
            _ => false,
        }
    }

    /// What a finished write reports: the persisted recipe row alone, or the
    /// failure. `None` while the write is in flight.
    pub fn outcome(&self) -> (r: Option<Result<Cocktail, EngineError>>)
        ensures
            match r {
                Some(Ok(row)) => self@.outcome() == Some(
                    Ok::<CocktailView, EngineErrorView>(row@),
                ),
                Some(Err(e)) => self@.outcome() == Some(Err::<CocktailView, EngineErrorView>(e@)),
                None => self@.outcome() is None,
            },
    {
        match &self.phase {
            Phase::Committed => Some(Ok(self.cocktail.clone())),
            Phase::RolledBack(m) => Some(Err(EngineError::PartialWriteFailure(m.clone()))),
            Phase::Rejected(m) => Some(Err(EngineError::QueryFailure(m.clone()))),
            _ => None,
        }
    }
}

impl Cocktail {
    /// Starts persisting `new_cocktail`: draws a random identifier and the
    /// current time for the recipe row and plans the three inserts. Nothing
    /// is written yet; the first write to perform is `request()` of the
    /// result.
    pub fn create_cocktail(new_cocktail: CocktailData) -> (saga: Saga)
        ensures
            saga@.plans_some(new_cocktail@),
    {
        let id = fresh_id();
        let created_at = current_time();
        let updated_at = current_time();
        Saga::plan(new_cocktail, id, created_at, updated_at)
    }
}

/// When a child insert fails, the next write asked for is the delete of the
/// recipe row that was just inserted, and once that has been attempted the
/// failure is what the coordinator reports.
pub proof fn lemma_failed_child_insert_compensates(saga: SagaView, message: Seq<char>)
    requires
        saga.phase is Created || saga.phase is IngredientsWritten,
    ensures
        saga.next(WriteOutcomeView::Failed(message)).request() == Some(
            StoreWriteView::DeleteRecipe(saga.cocktail.id),
        ),
        forall|deleted: WriteOutcomeView|
            saga.next(WriteOutcomeView::Failed(message)).next(deleted).outcome() == Some(
                Err::<CocktailView, EngineErrorView>(EngineErrorView::PartialWriteFailure(message)),
            ),
{
}

/// A plan whose three inserts all go through reports the planned recipe row.
pub proof fn lemma_three_writes_commit(saga: SagaView)
    requires
        saga.phase is Planned,
    ensures
        saga.next(WriteOutcomeView::Written).next(WriteOutcomeView::Written).next(
            WriteOutcomeView::Written,
        ).outcome() == Some(Ok::<CocktailView, EngineErrorView>(saga.cocktail)),
{
}

} // verus!
