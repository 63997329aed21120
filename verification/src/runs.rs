//! Runs of the generation flow against a model of its surroundings: a
//! catalog that serves every request, so that every write goes through and
//! every read is answered from the rows held, and a completion service that
//! answers as given. The laws here say what such a run persists, and that a
//! second run persists again: the flow is not idempotent.

use crate::catalog::Catalog;
use crate::cocktails::{assembled, lemma_find_recipe_none, CocktailDataView, CocktailView};
use crate::error::EngineErrorView;
use crate::generate::{
    first_step, persists_next, GenerationView, ReplyView, RequestView, StepView,
};
use crate::ingredients::lines_named;
use crate::persistence::{StoreWriteView, WriteOutcomeView};
use crate::query::GenerateQueryView;
use crate::synthesis::{reply_read, request_for};
use vstd::prelude::*;

verus! {

/// Whether `reply` answers `request` where the catalog holds the rows of
/// `store` and the completion service answers `completion`: a search finds
/// the lines that carry a requested name, a load brings rows from which the
/// recipe assembles as it does from all rows, a write goes through.
pub open spec fn answers(
    store: Catalog,
    completion: ReplyView,
    request: RequestView,
    reply: ReplyView,
) -> bool {
    match request {
        RequestView::FindIngredientLines(names) => reply == ReplyView::IngredientLines(
            lines_named(store.lines, names),
        ),
        RequestView::LoadRecipe(id) => reply matches ReplyView::Recipe(recipes, lines, steps)
            && assembled(recipes, lines, steps, id) == store.assembled(id),
        RequestView::Complete(_) => reply == completion,
        RequestView::Write(_) => reply == ReplyView::Written,
    }
}

/// The rows that the catalog holds once `request` is served: a write goes
/// through, anything else leaves the rows as they are.
pub open spec fn served(store: Catalog, request: RequestView) -> Catalog {
    match request {
        RequestView::Write(write) => store.written(write),
        _ => store,
    }
}

/// Whether `next` may follow `step`, and `after` are the rows then held,
/// when the request of `step` is served on the rows of `store`.
pub open spec fn follows(
    step: StepView,
    store: Catalog,
    completion: ReplyView,
    next: StepView,
    after: Catalog,
) -> bool {
    match step {
        StepView::Ask(flow, request) => {
            &&& exists|reply: ReplyView| #[trigger]
                answers(store, completion, request, reply) && flow.steps(reply, next)
            &&& after == served(store, request)
        },
        StepView::Finish(_) => false,
    }
}

/// Whether `steps` is a run of the flow to its end, each request served,
/// with `stores[i]` the rows held when `steps[i]` is reached.
pub open spec fn is_run(steps: Seq<StepView>, stores: Seq<Catalog>, completion: ReplyView) -> bool {
    &&& steps.len() > 0
    &&& stores.len() == steps.len()
    &&& steps.last() is Finish
    &&& forall|i: int|
        0 <= i < steps.len() - 1 ==> follows(
            #[trigger] steps[i],
            stores[i],
            completion,
            steps[i + 1],
            stores[i + 1],
        )
}

/// Once the recipes in `drafts` are to be persisted, a run persists every
/// one of them, whatever rows the catalog holds: each draft takes three
/// writes and one load, the rows held before stay, one recipe row is added
/// per draft, in the order and under the names of the drafts, and the run
/// ends with the page grown by one recipe per draft.
pub proof fn lemma_run_persists_every_draft(
    steps: Seq<StepView>,
    stores: Seq<Catalog>,
    completion: ReplyView,
    start: int,
    drafts: Seq<CocktailDataView>,
    page: Seq<CocktailDataView>,
)
    requires
        is_run(steps, stores, completion),
        0 <= start < steps.len(),
        persists_next(drafts, page, steps[start]),
    ensures
        steps.len() == start + 1 + 4 * drafts.len(),
        steps.last() matches StepView::Finish(Ok(out)) && out.len() == page.len() + drafts.len(),
        stores.last().recipes.len() == stores[start].recipes.len() + drafts.len(),
        forall|j: int|
            0 <= j < stores[start].recipes.len() ==> stores.last().recipes[j]
                == stores[start].recipes[j],
        forall|k: int|
            0 <= k < drafts.len() ==> stores.last().recipes[stores[start].recipes.len() + k].name
                == (#[trigger] drafts[k]).name,
    decreases drafts.len(),
{
    let last = steps.len() - 1;
    if drafts.len() == 0 {
        assert(steps[start] is Finish);
        if start < last {
            assert(follows(steps[start], stores[start], completion, steps[start + 1], stores[start + 1]));
        }
    } else {
        let saga = steps[start]->Ask_0->Persisting_saga;
        let rest = drafts.drop_first();
        let before = stores[start];
        assert(saga.plans_some(drafts[0]));
        assert(start < last);
        assert(follows(steps[start], before, completion, steps[start + 1], stores[start + 1]));
        let created = saga.next(WriteOutcomeView::Written);
        assert(created.request() == Some(StoreWriteView::InsertIngredientLines(saga.ingredients)));
        assert(steps[start + 1] is Ask);
        assert(start + 1 < last);
        assert(follows(
            steps[start + 1],
            stores[start + 1],
            completion,
            steps[start + 2],
            stores[start + 2],
        ));
        let lined = created.next(WriteOutcomeView::Written);
        assert(lined.request() == Some(StoreWriteView::InsertInstructionSteps(saga.instructions)));
        assert(steps[start + 2] is Ask);
        assert(start + 2 < last);
        assert(follows(
            steps[start + 2],
            stores[start + 2],
            completion,
            steps[start + 3],
            stores[start + 3],
        ));
        let done = lined.next(WriteOutcomeView::Written);
        assert(done.request() is None);
        assert(done.outcome() == Some(Ok::<CocktailView, EngineErrorView>(saga.cocktail)));
        assert(steps[start + 3] is Ask);
        assert(start + 3 < last);
        assert(follows(
            steps[start + 3],
            stores[start + 3],
            completion,
            steps[start + 4],
            stores[start + 4],
        ));
        let held = stores[start + 3];
        assert(held.recipes == before.recipes.push(saga.cocktail));
        assert(stores[start + 4] == held);
        lemma_find_recipe_none(held.recipes, saga.cocktail.id);
        assert(held.recipes[before.recipes.len() as int].id == saga.cocktail.id);
        let recipe = held.assembled(saga.cocktail.id)->0;
        assert(persists_next(rest, page.push(recipe), steps[start + 4]));
        lemma_run_persists_every_draft(steps, stores, completion, start + 4, rest, page.push(recipe));
        assert forall|k: int| 0 <= k < drafts.len() implies stores.last().recipes[before.recipes.len()
            + k].name == (#[trigger] drafts[k]).name by {
            if k > 0 {
                assert(rest[k - 1] == drafts[k]);
            }
        }
    }
}

/// How far the flow has come at `step`: 0 while it reads the catalog, 1 when
/// it asks for the completion, 2 while it persists, 3 at its end.
pub open spec fn stage(step: StepView) -> int {
    match step {
        StepView::Ask(GenerationView::Matching { .. }, _) => 0,
        StepView::Ask(GenerationView::Hydrating { .. }, _) => 0,
        StepView::Ask(GenerationView::Synthesizing { .. }, _) => 1,
        StepView::Ask(GenerationView::Persisting { .. }, _) => 2,
        StepView::Ask(GenerationView::Rehydrating { .. }, _) => 2,
        StepView::Finish(_) => 3,
    }
}

/// Whether `step`, if the flow has not gone past the completion yet, is a
/// step of the flow for `ingredients`: a read of the catalog, or the request
/// for the completion for these ingredients, made for a page of no or one
/// recipe.
pub open spec fn gathers(step: StepView, ingredients: Seq<Seq<char>>) -> bool {
    match step {
        StepView::Ask(GenerationView::Matching { query }, request) => {
            &&& query.ingredients == ingredients
            &&& request is FindIngredientLines
        },
        StepView::Ask(GenerationView::Hydrating { ingredients: names, .. }, request) => {
            &&& names == ingredients
            &&& request is LoadRecipe
        },
        StepView::Ask(GenerationView::Synthesizing { page }, request) => {
            &&& page.len() <= 1
            &&& request == RequestView::Complete(request_for(ingredients))
        },
        _ => true,
    }
}

/// One step of a run never leads back: the stage does not fall, the
/// completion is asked for at most once, and a read leaves the rows alone.
proof fn lemma_stage_moves_on(
    step: StepView,
    store: Catalog,
    completion: ReplyView,
    next: StepView,
    after: Catalog,
    ingredients: Seq<Seq<char>>,
)
    requires
        follows(step, store, completion, next, after),
    ensures
        stage(step) <= stage(next),
        stage(step) >= 1 ==> stage(next) >= 2,
        stage(step) == 0 && gathers(step, ingredients) ==> after == store && gathers(
            next,
            ingredients,
        ),
{
}

/// The stage never falls along a run.
proof fn lemma_stage_monotone(
    steps: Seq<StepView>,
    stores: Seq<Catalog>,
    completion: ReplyView,
    i: int,
    j: int,
)
    requires
        is_run(steps, stores, completion),
        0 <= i <= j < steps.len(),
    ensures
        stage(steps[i]) <= stage(steps[j]),
    decreases j - i,
{
    if i < j {
        assert(follows(steps[i], stores[i], completion, steps[i + 1], stores[i + 1]));
        lemma_stage_moves_on(
            steps[i],
            stores[i],
            completion,
            steps[i + 1],
            stores[i + 1],
            Seq::empty(),
        );
        lemma_stage_monotone(steps, stores, completion, i + 1, j);
    }
}

/// Up to the request for the completion a run only reads: the rows stay as
/// they were at the start.
proof fn lemma_reads_until_completion(
    steps: Seq<StepView>,
    stores: Seq<Catalog>,
    completion: ReplyView,
    ingredients: Seq<Seq<char>>,
    at: int,
    i: int,
)
    requires
        is_run(steps, stores, completion),
        stage(steps[0]) == 0,
        gathers(steps[0], ingredients),
        0 <= i <= at < steps.len(),
        stage(steps[at]) == 1,
    ensures
        stores[i] == stores[0],
        gathers(steps[i], ingredients),
        i < at ==> stage(steps[i]) == 0,
    decreases i,
{
    if i > 0 {
        lemma_reads_until_completion(steps, stores, completion, ingredients, at, i - 1);
        assert(follows(steps[i - 1], stores[i - 1], completion, steps[i], stores[i]));
        lemma_stage_moves_on(
            steps[i - 1],
            stores[i - 1],
            completion,
            steps[i],
            stores[i],
            ingredients,
        );
        if i < at {
            lemma_stage_monotone(steps, stores, completion, i, at);
            if stage(steps[i]) == 1 {
                assert(follows(steps[i], stores[i], completion, steps[i + 1], stores[i + 1]));
                lemma_stage_moves_on(
                    steps[i],
                    stores[i],
                    completion,
                    steps[i + 1],
                    stores[i + 1],
                    ingredients,
                );
                lemma_stage_monotone(steps, stores, completion, i + 1, at);
            }
        }
    }
}

/// A run of the flow for `query` that comes to ask for a completion, at step
/// `at`, has only read the catalog until then, asks for the completion for
/// the ingredients of `query`, and, where the answer reads as recipes,
/// persists every one of them: the rows held at the start stay, one recipe
/// row is added per recipe of the answer, in the order and under the names
/// of the answer, and the run ends with a page of these and at most one
/// recipe more.
pub proof fn lemma_thin_run_persists(
    query: GenerateQueryView,
    steps: Seq<StepView>,
    stores: Seq<Catalog>,
    choices: Seq<Option<Seq<char>>>,
    at: int,
)
    requires
        is_run(steps, stores, ReplyView::Completion(choices)),
        steps[0] == first_step(query),
        0 <= at < steps.len(),
        stage(steps[at]) == 1,
        reply_read(choices) is Some,
    ensures
        stores[at] == stores[0],
        steps[at]->Ask_1 == RequestView::Complete(request_for(query.ingredients)),
        steps.len() == at + 2 + 4 * reply_read(choices)->0.len(),
        steps.last() matches StepView::Finish(Ok(out)) && reply_read(choices)->0.len() <= out.len()
            <= reply_read(choices)->0.len() + 1,
        stores.last().recipes.len() == stores[0].recipes.len() + reply_read(choices)->0.len(),
        forall|j: int|
            0 <= j < stores[0].recipes.len() ==> stores.last().recipes[j] == stores[0].recipes[j],
        forall|k: int|
            0 <= k < reply_read(choices)->0.len() ==> stores.last().recipes[stores[0].recipes.len()
                + k].name == (#[trigger] reply_read(choices)->0[k]).name,
{
    let completion = ReplyView::Completion(choices);
    let drafts = reply_read(choices)->0;
    lemma_reads_until_completion(steps, stores, completion, query.ingredients, at, at);
    let page = steps[at]->Ask_0->Synthesizing_page;
    assert(at < steps.len() - 1);
    assert(follows(steps[at], stores[at], completion, steps[at + 1], stores[at + 1]));
    assert(stores[at + 1] == stores[at]);
    assert(persists_next(drafts, page, steps[at + 1]));
    lemma_run_persists_every_draft(steps, stores, completion, at + 1, drafts, page);
}

/// The flow is not idempotent. A run for `query` that finds the catalog too
/// thin asks the completion service and persists every recipe that the
/// answer spells out. A second run for the same query, on the rows that the
/// first one left, that finds the catalog too thin again asks the service
/// again with the same request and persists every recipe of its answer, also
/// where the answer is the same as before: nothing is looked up by name and
/// nothing is left out because it is there already. After both runs the
/// catalog holds one more recipe row for every recipe of the first answer
/// and one more for every recipe of the second.
pub proof fn lemma_second_run_persists_again(
    query: GenerateQueryView,
    first: Seq<StepView>,
    first_stores: Seq<Catalog>,
    first_answer: Seq<Option<Seq<char>>>,
    first_at: int,
    second: Seq<StepView>,
    second_stores: Seq<Catalog>,
    second_answer: Seq<Option<Seq<char>>>,
    second_at: int,
)
    requires
        is_run(first, first_stores, ReplyView::Completion(first_answer)),
        first[0] == first_step(query),
        0 <= first_at < first.len(),
        stage(first[first_at]) == 1,
        reply_read(first_answer) is Some,
        is_run(second, second_stores, ReplyView::Completion(second_answer)),
        second[0] == first_step(query),
        0 <= second_at < second.len(),
        stage(second[second_at]) == 1,
        reply_read(second_answer) is Some,
        second_stores[0] == first_stores.last(),
    ensures
        first[first_at]->Ask_1 == RequestView::Complete(request_for(query.ingredients)),
        second[second_at]->Ask_1 == first[first_at]->Ask_1,
        first.last() matches StepView::Finish(Ok(out)) && out.len() >= reply_read(
            first_answer,
        )->0.len(),
        second.last() matches StepView::Finish(Ok(out)) && out.len() >= reply_read(
            second_answer,
        )->0.len(),
        second_stores.last().recipes.len() == first_stores[0].recipes.len() + reply_read(
            first_answer,
        )->0.len() + reply_read(second_answer)->0.len(),
        forall|k: int|
            0 <= k < reply_read(second_answer)->0.len() ==> second_stores.last().recipes[first_stores[0].recipes.len()
                + reply_read(first_answer)->0.len() + k].name == (#[trigger] reply_read(
                second_answer,
            )->0[k]).name,
{
    lemma_thin_run_persists(query, first, first_stores, first_answer, first_at);
    lemma_thin_run_persists(query, second, second_stores, second_answer, second_at);
}

} // verus!
