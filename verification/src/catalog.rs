//! A model of the catalog store: three tables of rows, and what a write that
//! went through does to them. The store itself lives outside this crate; the
//! model is what the coordinator and the assembler are reasoned against.

use crate::cocktails::{assembled, find_recipe, lemma_find_recipe_at, CocktailDataView, CocktailView};
use crate::error::EngineErrorView;
use crate::ingredients::{lines_of, lines_to_data, owned_by, IngredientView};
use crate::instructions::{step_owned_by, steps_of, steps_to_data, InstructionView};
use crate::persistence::{SagaView, StoreWriteView, WriteOutcomeView};
use vstd::prelude::*;

verus! {

/// The rows that the catalog holds.
pub struct Catalog {
    pub recipes: Seq<CocktailView>,
    pub lines: Seq<IngredientView>,
    pub steps: Seq<InstructionView>,
}

/// The test "this row is not recipe `id`".
pub open spec fn other_than(id: u128) -> spec_fn(CocktailView) -> bool {
    |row: CocktailView| row.id != id
}

impl Catalog {
    /// Whether a recipe row with identifier `id` exists.
    pub open spec fn holds_recipe(self, id: u128) -> bool {
        exists|i: int| 0 <= i < self.recipes.len() && (#[trigger] self.recipes[i]).id == id
    }

    /// Whether any row carries `id`, as a recipe or as the owner of a child.
    pub open spec fn mentions(self, id: u128) -> bool {
        ||| self.holds_recipe(id)
        ||| exists|i: int| 0 <= i < self.lines.len() && (#[trigger] self.lines[i]).cocktail_id == id
        ||| exists|i: int| 0 <= i < self.steps.len() && (#[trigger] self.steps[i]).cocktail_id == id
    }

    /// The catalog after `write` went through. An insert appends its rows;
    /// a delete removes the recipe row and leaves the children where they
    /// are, since nothing cascades.
    pub open spec fn written(self, write: StoreWriteView) -> Catalog {
        match write {
            StoreWriteView::InsertRecipe(row) => Catalog {
                recipes: self.recipes.push(row),
                ..self
            },
            StoreWriteView::InsertIngredientLines(lines) => Catalog {
                lines: self.lines + lines,
                ..self
            },
            StoreWriteView::InsertInstructionSteps(steps) => Catalog {
                steps: self.steps + steps,
                ..self
            },
            StoreWriteView::DeleteRecipe(id) => Catalog {
                recipes: self.recipes.filter(other_than(id)),
                ..self
            },
        }
    }

    /// The recipe `id` in full, as the assembler returns it from these rows.
    pub open spec fn assembled(self, id: u128) -> Option<CocktailDataView> {
        assembled(self.recipes, self.lines, self.steps, id)
    }
}

/// A filter keeps a sequence whole when every entry passes.
proof fn lemma_filter_keeps_all<A>(s: Seq<A>, pred: spec_fn(A) -> bool)
    requires
        forall|i: int| 0 <= i < s.len() ==> pred(#[trigger] s[i]),
    ensures
        s.filter(pred) == s,
    decreases s.len(),
{
    reveal_with_fuel(Seq::filter, 1);
    if s.len() > 0 {
        lemma_filter_keeps_all(s.drop_last(), pred);
        assert(s.drop_last().push(s.last()) =~= s);
    }
}

/// A filter leaves nothing when no entry passes.
proof fn lemma_filter_keeps_none<A>(s: Seq<A>, pred: spec_fn(A) -> bool)
    requires
        forall|i: int| 0 <= i < s.len() ==> !pred(#[trigger] s[i]),
    ensures
        s.filter(pred) == Seq::<A>::empty(),
    decreases s.len(),
{
    reveal_with_fuel(Seq::filter, 1);
    if s.len() > 0 {
        lemma_filter_keeps_none(s.drop_last(), pred);
    }
}

/// Round trip: when a plan for `data` is written in full to a catalog that
/// does not mention the new identifier yet, assembling the new recipe
/// returns one ingredient entry per ingredient record of `data` and one
/// instruction entry per instruction record, in the order of `data`, under
/// the name of `data`. Each entry says what its record says, and names the
/// new recipe as its owner, whatever owner the record named.
pub proof fn lemma_assemble_after_persist(before: Catalog, data: CocktailDataView, saga: SagaView)
    requires
        saga.plans_some(data),
        !before.mentions(saga.cocktail.id),
    ensures
        ({
            let first = saga.request()->0;
            let second = saga.next(WriteOutcomeView::Written).request()->0;
            let third = saga.next(WriteOutcomeView::Written).next(
                WriteOutcomeView::Written,
            ).request()->0;
            let after = before.written(first).written(second).written(third);
            let done = saga.next(WriteOutcomeView::Written).next(WriteOutcomeView::Written).next(
                WriteOutcomeView::Written,
            );
            &&& done.outcome() == Some(Ok::<CocktailView, EngineErrorView>(saga.cocktail))
            &&& after.assembled(saga.cocktail.id) is Some
            &&& after.assembled(saga.cocktail.id)->0.id == Some(saga.cocktail.id)
            &&& after.assembled(saga.cocktail.id)->0.name == data.name
            &&& after.assembled(saga.cocktail.id)->0.ingredients.len() == data.ingredients.len()
            &&& after.assembled(saga.cocktail.id)->0.instructions.len() == data.instructions.len()
            &&& after.assembled(saga.cocktail.id)->0.ingredients == lines_to_data(saga.ingredients)
            &&& after.assembled(saga.cocktail.id)->0.instructions == steps_to_data(
                saga.instructions,
            )
            &&& forall|i: int|
                0 <= i < data.ingredients.len() ==> {
                    let got = #[trigger] after.assembled(saga.cocktail.id)->0.ingredients[i];
                    &&& got.name == data.ingredients[i].name
                    &&& got.measurement == data.ingredients[i].measurement
                    &&& got.cocktail_id == Some(saga.cocktail.id)
                    &&& got.id is Some
                }
            &&& forall|i: int|
                0 <= i < data.instructions.len() ==> {
                    let got = #[trigger] after.assembled(saga.cocktail.id)->0.instructions[i];
                    &&& got.instruction == data.instructions[i].instruction
                    &&& got.step == data.instructions[i].step
                    &&& got.cocktail_id == Some(saga.cocktail.id)
                    &&& got.id is Some
                }
        }),
{
    let id = saga.cocktail.id;
    let after = before.written(StoreWriteView::InsertRecipe(saga.cocktail)).written(
        StoreWriteView::InsertIngredientLines(saga.ingredients),
    ).written(StoreWriteView::InsertInstructionSteps(saga.instructions));
    assert(after.recipes == before.recipes.push(saga.cocktail));
    assert forall|j: int| 0 <= j < before.recipes.len() implies after.recipes[j].id != id by {
        assert(before.recipes[j].id != id);
    }
    lemma_find_recipe_at(after.recipes, id, before.recipes.len() as int);
    assert(find_recipe(after.recipes, id) == Some(saga.cocktail));

    assert forall|i: int| 0 <= i < before.lines.len() implies !owned_by(id)(
        #[trigger] before.lines[i],
    ) by {}
    lemma_filter_keeps_none(before.lines, owned_by(id));
    assert forall|i: int| 0 <= i < saga.ingredients.len() implies owned_by(id)(
        #[trigger] saga.ingredients[i],
    ) by {
        assert(data.ingredients[i].persisted_as(id, saga.ingredients[i]));
    }
    lemma_filter_keeps_all(saga.ingredients, owned_by(id));
    Seq::filter_distributes_over_add(before.lines, saga.ingredients, owned_by(id));
    assert(lines_of(after.lines, id) =~= saga.ingredients);

    assert forall|i: int| 0 <= i < before.steps.len() implies !step_owned_by(id)(
        #[trigger] before.steps[i],
    ) by {}
    lemma_filter_keeps_none(before.steps, step_owned_by(id));
    assert forall|i: int| 0 <= i < saga.instructions.len() implies step_owned_by(id)(
        #[trigger] saga.instructions[i],
    ) by {
        assert(data.instructions[i].persisted_as(id, saga.instructions[i]));
    }
    lemma_filter_keeps_all(saga.instructions, step_owned_by(id));
    Seq::filter_distributes_over_add(before.steps, saga.instructions, step_owned_by(id));
    assert(steps_of(after.steps, id) =~= saga.instructions);
}

/// Compensation: when a child insert fails after the recipe insert went
/// through, the coordinator asks for the delete of that recipe; once the
/// delete went through no recipe row with that identifier exists, whatever
/// rows the failed insert left behind, and the coordinator reports the
/// failure.
pub proof fn lemma_failed_child_insert_removes_recipe(
    saga: SagaView,
    message: Seq<char>,
    damaged: Catalog,
)
    requires
        saga.phase is Created || saga.phase is IngredientsWritten,
    ensures
        ({
            let failed = saga.next(WriteOutcomeView::Failed(message));
            &&& failed.request() == Some(StoreWriteView::DeleteRecipe(saga.cocktail.id))
            &&& !damaged.written(failed.request()->0).holds_recipe(saga.cocktail.id)
            &&& failed.next(WriteOutcomeView::Written).outcome() == Some(
                Err::<CocktailView, EngineErrorView>(EngineErrorView::PartialWriteFailure(message)),
            )
        }),
{
    let id = saga.cocktail.id;
    let left = damaged.recipes.filter(other_than(id));
    assert forall|i: int| 0 <= i < left.len() implies (#[trigger] left[i]).id != id by {
        damaged.recipes.lemma_filter_pred(other_than(id), i);
    }
}

} // verus!
