//! The generation flow: match, assemble the page, decide whether the catalog
//! is too thin, and if so synthesize, persist and assemble new recipes.
//!
//! The flow is a state machine. Each step says what to ask of the catalog
//! store or of the completion service, and the next step takes the answer.
//! Nothing is retried. Running the flow twice on a thin catalog asks the
//! completion service twice and may persist two different sets of recipes:
//! the flow is not idempotent and does not try to be.

use crate::cocktails::{
    assembled, parse_failure, Cocktail, CocktailData, CocktailDataView, CocktailView,
};
use crate::error::{EngineError, EngineErrorView};
use crate::ingredients::{Ingredient, IngredientView};
use crate::instructions::{Instruction, InstructionView};
use crate::matcher::{match_recipes, page_of, ranking, recipes_of_tallies, MIN_MATCHES};
use crate::persistence::{Saga, SagaView, StoreWrite, StoreWriteView, WriteOutcome, WriteOutcomeView};
use crate::query::{GenerateQuery, GenerateQueryView};
use crate::synthesis::{
    has_text, no_choice, no_text, read_completion, reply_read, request_for, CompletionRequest,
    CompletionRequestView,
};
use vstd::prelude::*;

verus! {

/// What the flow asks for next.
#[derive(Debug, PartialEq)]
pub enum Request {
    /// All ingredient lines whose name is one of these.
    FindIngredientLines(Vec<String>),
    /// The recipe row with this identifier, and the ingredient lines and
    /// instruction steps that it owns.
    LoadRecipe(u128),
    /// One completion.
    Complete(CompletionRequest),
    /// One write to the catalog.
    Write(StoreWrite),
}

/// What came back.
#[derive(Debug, PartialEq)]
pub enum Reply {
    /// The lines found for `FindIngredientLines`.
    IngredientLines(Vec<Ingredient>),
    /// The rows found for `LoadRecipe`: recipe rows, ingredient lines,
    /// instruction steps.
    Recipe(Vec<Cocktail>, Vec<Ingredient>, Vec<Instruction>),
    /// The texts of the choices of a completion, in order.
    Completion(Vec<Option<String>>),
    /// A write went through.
    Written,
    /// The request failed, with this message.
    Failed(String),
}

/// A flow in progress: what it waits for and what it has gathered.
#[derive(Debug, PartialEq)]
pub enum Generation {
    /// Waits for the lines that match the request.
    Matching { query: GenerateQuery },
    /// Waits for recipe `current` of the matched page; `queue` holds the
    /// matched recipes still to come.
    Hydrating { ingredients: Vec<String>, current: u128, queue: Vec<u128>, page: Vec<CocktailData> },
    /// Waits for the completion.
    Synthesizing { page: Vec<CocktailData> },
    /// Waits for a write of `saga`; `drafts` holds the synthesized recipes
    /// still to be persisted.
    Persisting { saga: Saga, drafts: Vec<CocktailData>, page: Vec<CocktailData> },
    /// Waits for the recipe `id` that was just persisted.
    Rehydrating { id: u128, drafts: Vec<CocktailData>, page: Vec<CocktailData> },
}

/// One step of the flow: a request to perform, with the flow that takes its
/// answer, or the end of the flow with the page of recipes or the failure.
#[derive(Debug, PartialEq)]
pub enum Step {
    Ask(Generation, Request),
    Finish(Result<Vec<CocktailData>, EngineError>),
}

/// A [`Request`] over views.
pub enum RequestView {
    FindIngredientLines(Seq<Seq<char>>),
    LoadRecipe(u128),
    Complete(CompletionRequestView),
    Write(StoreWriteView),
}

/// A [`Reply`] over views.
pub enum ReplyView {
    IngredientLines(Seq<IngredientView>),
    Recipe(Seq<CocktailView>, Seq<IngredientView>, Seq<InstructionView>),
    Completion(Seq<Option<Seq<char>>>),
    Written,
    Failed(Seq<char>),
}

/// A [`Generation`] over views.
pub enum GenerationView {
    Matching { query: GenerateQueryView },
    Hydrating {
        ingredients: Seq<Seq<char>>,
        current: u128,
        queue: Seq<u128>,
        page: Seq<CocktailDataView>,
    },
    Synthesizing { page: Seq<CocktailDataView> },
    Persisting { saga: SagaView, drafts: Seq<CocktailDataView>, page: Seq<CocktailDataView> },
    Rehydrating { id: u128, drafts: Seq<CocktailDataView>, page: Seq<CocktailDataView> },
}

/// A [`Step`] over views.
pub enum StepView {
    Ask(GenerationView, RequestView),
    Finish(Result<Seq<CocktailDataView>, EngineErrorView>),
}

impl View for Request {
    type V = RequestView;

    open spec fn view(&self) -> RequestView {
        match self {
            Request::FindIngredientLines(names) => RequestView::FindIngredientLines(
                names.deep_view(),
            ),
            Request::LoadRecipe(id) => RequestView::LoadRecipe(*id),
            Request::Complete(request) => RequestView::Complete(request@),
            Request::Write(write) => RequestView::Write(write@),
        }
    }
}

impl View for Reply {
    type V = ReplyView;

    open spec fn view(&self) -> ReplyView {
        match self {
            Reply::IngredientLines(rows) => ReplyView::IngredientLines(rows.deep_view()),
            Reply::Recipe(cocktails, lines, steps) => ReplyView::Recipe(
                cocktails.deep_view(),
                lines.deep_view(),
                steps.deep_view(),
            ),
            Reply::Completion(choices) => ReplyView::Completion(choices.deep_view()),
            Reply::Written => ReplyView::Written,
            Reply::Failed(m) => ReplyView::Failed(m@),
        }
    }
}

impl View for Generation {
    type V = GenerationView;

    open spec fn view(&self) -> GenerationView {
        match self {
            Generation::Matching { query } => GenerationView::Matching { query: query@ },
            Generation::Hydrating { ingredients, current, queue, page } => GenerationView::Hydrating {
                ingredients: ingredients.deep_view(),
                current: *current,
                queue: queue@,
                page: page.deep_view(),
            },
            Generation::Synthesizing { page } => GenerationView::Synthesizing {
                page: page.deep_view(),
            },
            Generation::Persisting { saga, drafts, page } => GenerationView::Persisting {
                saga: saga@,
                drafts: drafts.deep_view(),
                page: page.deep_view(),
            },
            Generation::Rehydrating { id, drafts, page } => GenerationView::Rehydrating {
                id: *id,
                drafts: drafts.deep_view(),
                page: page.deep_view(),
            },
        }
    }
}

impl View for Step {
    type V = StepView;

    open spec fn view(&self) -> StepView {
        match self {
            Step::Ask(flow, request) => StepView::Ask(flow@, request@),
            Step::Finish(Ok(page)) => StepView::Finish(Ok(page.deep_view())),
            Step::Finish(Err(e)) => StepView::Finish(Err(e@)),
        }
    }
}

/// The shortfall policy: the catalog is too thin when the page holds at most
/// one assembled recipe.
pub open spec fn too_thin(assembled: nat) -> bool {
    assembled <= 1
}

/// The message of the failure reported for an answer that does not fit the
/// request it answers.
pub open spec fn unexpected_reply() -> Seq<char> {
    "unexpected reply"@
}

/// The first step of the flow for `query`: find the lines that carry a
/// requested name.
pub open spec fn first_step(query: GenerateQueryView) -> StepView {
    StepView::Ask(
        GenerationView::Matching { query },
        RequestView::FindIngredientLines(query.ingredients),
    )
}

/// The step once the page gathered so far is `page`, with the matched
/// recipes in `queue` still to load: load the next one, or, when none is
/// left, apply the shortfall policy.
pub open spec fn hydrate_next(
    ingredients: Seq<Seq<char>>,
    queue: Seq<u128>,
    page: Seq<CocktailDataView>,
) -> StepView {
    if queue.len() > 0 {
        StepView::Ask(
            GenerationView::Hydrating {
                ingredients,
                current: queue[0],
                queue: queue.drop_first(),
                page,
            },
            RequestView::LoadRecipe(queue[0]),
        )
    } else if too_thin(page.len()) {
        StepView::Ask(
            GenerationView::Synthesizing { page },
            RequestView::Complete(request_for(ingredients)),
        )
    } else {
        StepView::Finish(Ok(page))
    }
}

/// Whether `step` is a step that may follow once the synthesized recipes in
/// `drafts` are still to persist: with none left the flow ends with `page`;
/// else a plan for the first draft is made and its first write is asked for.
pub open spec fn persists_next(
    drafts: Seq<CocktailDataView>,
    page: Seq<CocktailDataView>,
    step: StepView,
) -> bool {
    if drafts.len() == 0 {
        step == StepView::Finish(Ok(page))
    } else {
        match step {
            StepView::Ask(GenerationView::Persisting { saga, drafts: rest, page: kept }, request) => {
                &&& saga.plans_some(drafts[0])
                &&& rest == drafts.drop_first()
                &&& kept == page
                &&& request == RequestView::Write(StoreWriteView::InsertRecipe(saga.cocktail))
            },
            _ => false,
        }
    }
}

/// How a write went, as an answer tells it. An answer of another kind
/// counts as a failed write, so that a coordinated write is compensated and
/// not abandoned.
pub open spec fn write_outcome(reply: ReplyView) -> WriteOutcomeView {
    match reply {
        ReplyView::Written => WriteOutcomeView::Written,
        ReplyView::Failed(m) => WriteOutcomeView::Failed(m),
        _ => WriteOutcomeView::Failed(unexpected_reply()),
    }
}

impl GenerationView {
    /// Whether `step` may follow when the request that this flow waits for is
    /// answered by `reply`.
    ///
    /// A failed read ends the flow with a query failure, a failed completion
    /// with a synthesis call failure, a completion that cannot be read with
    /// the failure of reading it, a failed coordinated write with its
    /// failure once the compensating delete has been attempted. A matched
    /// recipe whose row is gone is left out of the page; a persisted recipe
    /// whose row is gone ends the flow with not-found.
    pub open spec fn steps(self, reply: ReplyView, step: StepView) -> bool {
        match self {
            GenerationView::Matching { query } => match reply {
                ReplyView::IngredientLines(rows) => step == hydrate_next(
                    query.ingredients,
                    page_of(
                        recipes_of_tallies(ranking(rows, query.ingredients, MIN_MATCHES)),
                        query.pagestart,
                        query.pagesize,
                    ),
                    Seq::empty(),
                ),
                ReplyView::Failed(m) => step == StepView::Finish(
                    Err(EngineErrorView::QueryFailure(m)),
                ),
                _ => step == StepView::Finish(
                    Err(EngineErrorView::QueryFailure(unexpected_reply())),
                ),
            },
            GenerationView::Hydrating { ingredients, current, queue, page } => match reply {
                ReplyView::Recipe(cocktails, lines, steps) => step == hydrate_next(
                    ingredients,
                    queue,
                    match assembled(cocktails, lines, steps, current) {
                        Some(recipe) => page.push(recipe),
                        None => page,
                    },
                ),
                ReplyView::Failed(m) => step == StepView::Finish(
                    Err(EngineErrorView::QueryFailure(m)),
                ),
                _ => step == StepView::Finish(
                    Err(EngineErrorView::QueryFailure(unexpected_reply())),
                ),
            },
            GenerationView::Synthesizing { page } => match reply {
                ReplyView::Completion(choices) => match reply_read(choices) {
                    Some(drafts) => persists_next(drafts, page, step),
                    None => if has_text(choices) {
                        step matches StepView::Finish(Err(e)) && parse_failure(choices[0]->0, e)
                    } else {
                        step == StepView::Finish(
                            Err(
                                EngineErrorView::SynthesisCallFailure(
                                    if choices.len() == 0 {
                                        no_choice()
                                    } else {
                                        no_text()
                                    },
                                ),
                            ),
                        )
                    },
                },
                ReplyView::Failed(m) => step == StepView::Finish(
                    Err(EngineErrorView::SynthesisCallFailure(m)),
                ),
                _ => step == StepView::Finish(
                    Err(EngineErrorView::SynthesisCallFailure(unexpected_reply())),
                ),
            },
            GenerationView::Persisting { saga, drafts, page } => {
                let moved = saga.next(write_outcome(reply));
                match moved.request() {
                    Some(write) => step == StepView::Ask(
                        GenerationView::Persisting { saga: moved, drafts, page },
                        RequestView::Write(write),
                    ),
                    None => match moved.outcome() {
                        Some(Ok(row)) => step == StepView::Ask(
                            GenerationView::Rehydrating { id: row.id, drafts, page },
                            RequestView::LoadRecipe(row.id),
                        ),
                        Some(Err(e)) => step == StepView::Finish(Err(e)),
                        None => false,
                    },
                }
            },
            GenerationView::Rehydrating { id, drafts, page } => match reply {
                ReplyView::Recipe(cocktails, lines, steps) => match assembled(
                    cocktails,
                    lines,
                    steps,
                    id,
                ) {
                    Some(recipe) => persists_next(drafts, page.push(recipe), step),
                    None => step == StepView::Finish(Err(EngineErrorView::NotFound)),
                },
                ReplyView::Failed(m) => step == StepView::Finish(
                    Err(EngineErrorView::QueryFailure(m)),
                ),
                _ => step == StepView::Finish(
                    Err(EngineErrorView::QueryFailure(unexpected_reply())),
                ),
            },
        }
    }
}

/// The shortfall policy: whether synthesis is to run for a page that holds
/// `assembled` recipes.
pub fn needs_synthesis(assembled: usize) -> (r: bool)
    ensures
        r == too_thin(assembled as nat),
        assembled <= 1 ==> r,
        assembled >= 2 ==> !r,
{
    assembled <= 1
}

/// A copy of `names`.
pub fn copy_names(names: &Vec<String>) -> (r: Vec<String>)
    ensures
        r.deep_view() == names.deep_view(),
{
    let mut out: Vec<String> = Vec::new();
    let mut i: usize = 0;
    while i < names.len()
        invariant
            i <= names.len(),
            out.len() == i,
            forall|j: int| 0 <= j < i ==> out[j]@ == names[j]@,
        decreases names.len() - i,
    {
        out.push(names[i].clone());
        i += 1;
    }
    assert(out.deep_view() =~= names.deep_view());
    out
}

/// The failure reported for an answer that does not fit its request.
fn unexpected() -> (r: String)
    ensures
        r@ == unexpected_reply(),
{
    "unexpected reply".to_owned()
}

/// Loads the next matched recipe, or applies the shortfall policy when the
/// page is whole.
fn hydrate_or_decide(ingredients: Vec<String>, queue: Vec<u128>, page: Vec<CocktailData>) -> (step:
    Step)
    ensures
        step@ == hydrate_next(ingredients.deep_view(), queue@, page.deep_view()),
{
    let mut queue = queue;
    if queue.len() > 0 {
        let ghost all = queue@;
        let current = queue.remove(0);
        assert(queue@ =~= all.drop_first());
        Step::Ask(
            Generation::Hydrating { ingredients, current, queue, page },
            Request::LoadRecipe(current),
        )
    } else if needs_synthesis(page.len()) {
        let request = Cocktail::ask_gpt_for_cocktails(&ingredients);
        Step::Ask(Generation::Synthesizing { page }, Request::Complete(request))
    } else {
        Step::Finish(Ok(page))
    }
}

/// Starts persisting the next synthesized recipe, or ends the flow when none
/// is left.
fn persist_or_finish(drafts: Vec<CocktailData>, page: Vec<CocktailData>) -> (step: Step)
    ensures
        persists_next(drafts.deep_view(), page.deep_view(), step@),
{
    let mut drafts = drafts;
    if drafts.len() == 0 {
        Step::Finish(Ok(page))
    } else {
        let ghost all = drafts.deep_view();
        let draft = drafts.remove(0);
        assert(drafts.deep_view() =~= all.drop_first());
        assert(draft@ == all[0]);
        let saga = Cocktail::create_cocktail(draft);
        let first = StoreWrite::InsertRecipe(saga.cocktail.clone());
        Step::Ask(Generation::Persisting { saga, drafts, page }, Request::Write(first))
    }
}

/// How a write went, as `reply` tells it: written, failed with the
/// message of the failure, or, for a reply that answers no write, failed
/// as an unexpected reply.
pub fn outcome_of(reply: Reply) -> (r: WriteOutcome)
    ensures
        r@ == write_outcome(reply@),
{
    match reply {
        Reply::Written => WriteOutcome::Written,
        Reply::Failed(m) => WriteOutcome::Failed(m),
        _ => WriteOutcome::Failed(unexpected()),
    }
}

impl Cocktail {
    /// Starts the flow for `query`. The first request asks for the
    /// ingredient lines that carry a requested name.
    pub fn generate_cocktails(query: GenerateQuery) -> (step: Step)
        ensures
            step@ == first_step(query@),
    {
        let names = copy_names(&query.ingredients);
        Step::Ask(Generation::Matching { query }, Request::FindIngredientLines(names))
    }
}

impl Generation {
    /// Takes the answer to the request that the flow waits for and says what
    /// comes next.
    pub fn advance(self, reply: Reply) -> (step: Step)
        ensures
            self@.steps(reply@, step@),
    {
        match self {
            Generation::Matching { query } => match reply {
                Reply::IngredientLines(rows) => {
                    let queue = match_recipes(
                        &rows,
                        &query.ingredients,
                        MIN_MATCHES,
                        query.pagestart,
                        query.pagesize,
                    );
                    let page: Vec<CocktailData> = Vec::new();
                    assert(page.deep_view() =~= Seq::empty());
                    hydrate_or_decide(query.ingredients, queue, page)
                },
                Reply::Failed(m) => Step::Finish(Err(EngineError::QueryFailure(m))),
                _ => Step::Finish(Err(EngineError::QueryFailure(unexpected()))),
            },
            Generation::Hydrating { ingredients, current, queue, page } => match reply {
                Reply::Recipe(cocktails, lines, steps) => {
                    let mut page = page;
                    let ghost before = page.deep_view();
                    match Cocktail::get_cocktail_by_id(&cocktails, &lines, &steps, current) {
                        Some(recipe) => {
                            page.push(recipe);
                            assert(page.deep_view() =~= before.push(recipe@));
                        },
                        None => {},
                    }
                    hydrate_or_decide(ingredients, queue, page)
                },
                Reply::Failed(m) => Step::Finish(Err(EngineError::QueryFailure(m))),
                _ => Step::Finish(Err(EngineError::QueryFailure(unexpected()))),
            },
            Generation::Synthesizing { page } => match reply {
                Reply::Completion(choices) => match read_completion(&choices) {
                    Ok(drafts) => persist_or_finish(drafts, page),
                    Err(e) => Step::Finish(Err(e)),
                },
                Reply::Failed(m) => Step::Finish(Err(EngineError::SynthesisCallFailure(m))),
                _ => Step::Finish(Err(EngineError::SynthesisCallFailure(unexpected()))),
            },
            Generation::Persisting { saga, drafts, page } => {
                let moved = saga.advance(outcome_of(reply));
                match moved.request() {
                    Some(write) => Step::Ask(
                        Generation::Persisting { saga: moved, drafts, page },
                        Request::Write(write),
                    ),
                    None => match moved.outcome() {
                        Some(Ok(row)) => Step::Ask(
                            Generation::Rehydrating { id: row.id, drafts, page },
                            Request::LoadRecipe(row.id),
                        ),
                        Some(Err(e)) => Step::Finish(Err(e)),
                        None => {
                            proof {
                                assert(moved@.request() is None);
                                assert(moved@.outcome() is None);
                                assert(false);
                            }
                            Step::Finish(Err(EngineError::NotFound))
                        },
                    },
                }
            },
            Generation::Rehydrating { id, drafts, page } => match reply {
                Reply::Recipe(cocktails, lines, steps) => {
                    match Cocktail::get_cocktail_by_id(&cocktails, &lines, &steps, id) {
                        Some(recipe) => {
                            let mut page = page;
                            let ghost before = page.deep_view();
                            page.push(recipe);
                            assert(page.deep_view() =~= before.push(recipe@));
                            persist_or_finish(drafts, page)
                        },
                        None => Step::Finish(Err(EngineError::NotFound)),
                    }
                },
                Reply::Failed(m) => Step::Finish(Err(EngineError::QueryFailure(m))),
                _ => Step::Finish(Err(EngineError::QueryFailure(unexpected()))),
            },
        }
    }
}

/// Shortfall: once every matched recipe of the page is loaded, a page of no
/// or one recipe asks for a completion, and a page of two or more ends the
/// flow as it is.
pub proof fn lemma_shortfall_decides(ingredients: Seq<Seq<char>>, page: Seq<CocktailDataView>)
    ensures
        page.len() <= 1 ==> hydrate_next(ingredients, Seq::empty(), page) == StepView::Ask(
            GenerationView::Synthesizing { page },
            RequestView::Complete(request_for(ingredients)),
        ),
        page.len() >= 2 ==> hydrate_next(ingredients, Seq::empty(), page) == StepView::Finish(
            Ok(page),
        ),
{
}

} // verus!
