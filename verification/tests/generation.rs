use bartender::cocktails::{Cocktail, CocktailData};
use bartender::error::EngineError;
use bartender::generate::{outcome_of, Generation, Reply, Request, Step};
use bartender::ingredients::Ingredient;
use bartender::instructions::Instruction;
use bartender::persistence::{StoreWrite, WriteOutcome};
use bartender::query::GenerateQuery;
use bartender::synthesis::build_prompt;

const MOJITO: u128 = 0x33;
const DAIQUIRI: u128 = 0x44;
const GIMLET: u128 = 0x55;

const TWO_RECIPES: &str = "[[\"Rum Sour\",[[\"Rum\",\"2 ounces\"],[\"Lemon juice\",\"1 ounce\"]],[\"Shake with ice.\",\"Strain and serve.\"]],[\"Rum Fizz\",[[\"Rum\",\"2 ounces\"]],[\"Build over ice.\"]]]";

/// An in-memory stand-in for the catalog store and the completion service.
struct World {
    recipes: Vec<Cocktail>,
    lines: Vec<Ingredient>,
    steps: Vec<Instruction>,
    choices: Vec<Option<String>>,
    refuse: Option<&'static str>,
    log: Vec<String>,
}

impl World {
    fn new(choices: Vec<Option<String>>) -> World {
        World { recipes: vec![], lines: vec![], steps: vec![], choices, refuse: None, log: vec![] }
    }

    fn stocked(choices: Vec<Option<String>>) -> World {
        let mut world = World::new(choices);
        for (id, name) in [(MOJITO, "Mojito"), (DAIQUIRI, "Daiquiri"), (GIMLET, "Gimlet")] {
            world.recipes.push(Cocktail {
                id,
                name: name.to_owned(),
                created_at: None,
                updated_at: None,
            });
        }
        let lines = [
            (1, "Rum", MOJITO),
            (2, "Lime", MOJITO),
            (3, "Mint", MOJITO),
            (4, "Rum", DAIQUIRI),
            (5, "Lime", DAIQUIRI),
            (6, "Gin", GIMLET),
            (7, "Lime", GIMLET),
        ];
        for (id, name, owner) in lines {
            world.lines.push(Ingredient {
                id,
                name: name.to_owned(),
                measurement: "1 ounce".to_owned(),
                cocktail_id: owner,
                created_at: None,
                updated_at: None,
            });
        }
        for (id, owner) in [(1, MOJITO), (2, DAIQUIRI), (3, GIMLET)] {
            world.steps.push(Instruction {
                id,
                instruction: "Shake.".to_owned(),
                step: 0,
                cocktail_id: owner,
                created_at: None,
                updated_at: None,
            });
        }
        world
    }

    fn answer(&mut self, request: Request) -> Reply {
        let kind = match &request {
            Request::FindIngredientLines(_) => "find",
            Request::LoadRecipe(_) => "load",
            Request::Complete(_) => "complete",
            Request::Write(StoreWrite::InsertRecipe(_)) => "recipe",
            Request::Write(StoreWrite::InsertIngredientLines(_)) => "lines",
            Request::Write(StoreWrite::InsertInstructionSteps(_)) => "steps",
            Request::Write(StoreWrite::DeleteRecipe(_)) => "delete",
        };
        self.log.push(kind.to_owned());
        if self.refuse == Some(kind) {
            return Reply::Failed(format!("{} refused", kind));
        }
        match request {
            Request::FindIngredientLines(names) => Reply::IngredientLines(
                self.lines.iter().filter(|l| names.contains(&l.name)).map(|l| l.clone()).collect(),
            ),
            Request::LoadRecipe(id) => Reply::Recipe(
                self.recipes.iter().filter(|r| r.id == id).map(|r| r.clone()).collect(),
                self.lines.iter().filter(|l| l.cocktail_id == id).map(|l| l.clone()).collect(),
                self.steps.iter().filter(|s| s.cocktail_id == id).map(|s| s.clone()).collect(),
            ),
            Request::Complete(request) => {
                self.log.push(request.prompt);
                Reply::Completion(self.choices.clone())
            }
            Request::Write(StoreWrite::InsertRecipe(row)) => {
                self.recipes.push(row);
                Reply::Written
            }
            Request::Write(StoreWrite::InsertIngredientLines(mut rows)) => {
                self.lines.append(&mut rows);
                Reply::Written
            }
            Request::Write(StoreWrite::InsertInstructionSteps(mut rows)) => {
                self.steps.append(&mut rows);
                Reply::Written
            }
            Request::Write(StoreWrite::DeleteRecipe(id)) => {
                self.recipes.retain(|r| r.id != id);
                Reply::Written
            }
        }
    }

    fn generate(&mut self, query: GenerateQuery) -> Result<Vec<CocktailData>, EngineError> {
        let mut step = Cocktail::generate_cocktails(query);
        loop {
            match step {
                Step::Finish(result) => return result,
                Step::Ask(flow, request) => {
                    let reply = self.answer(request);
                    step = flow.advance(reply);
                }
            }
        }
    }
}

fn query(names: &[&str], pagestart: usize, pagesize: usize) -> GenerateQuery {
    GenerateQuery {
        ingredients: names.iter().map(|n| n.to_string()).collect(),
        pagestart,
        pagesize,
    }
}

fn two_recipes() -> Vec<Option<String>> {
    vec![Some(TWO_RECIPES.to_owned())]
}

fn names_of(page: &[CocktailData]) -> Vec<&str> {
    page.iter().map(|c| c.name.as_str()).collect()
}

#[test]
fn the_flow_starts_by_asking_for_the_matching_lines() {
    match Cocktail::generate_cocktails(query(&["Rum", "Lime"], 0, 10)) {
        Step::Ask(Generation::Matching { query: kept }, Request::FindIngredientLines(names)) => {
            assert_eq!(names, vec!["Rum".to_owned(), "Lime".to_owned()]);
            assert_eq!(kept, query(&["Rum", "Lime"], 0, 10));
        }
        other => panic!("unexpected: {:?}", other),
    }
}

#[test]
fn enough_matches_are_returned_without_synthesis() {
    let mut world = World::stocked(two_recipes());
    let page = world.generate(query(&["Rum", "Lime", "Mint"], 0, 10)).unwrap();
    assert_eq!(names_of(&page), vec!["Mojito", "Daiquiri", "Gimlet"]);
    assert_eq!(world.log, vec!["find", "load", "load", "load"]);
    assert_eq!(page[0].id, Some(MOJITO));
    assert_eq!(page[0].ingredients.len(), 3);
    assert_eq!(page[0].instructions.len(), 1);
    assert_eq!(world.recipes.len(), 3);
}

#[test]
fn two_matches_are_enough() {
    let mut world = World::stocked(two_recipes());
    let page = world.generate(query(&["Rum"], 0, 10)).unwrap();
    assert_eq!(names_of(&page), vec!["Mojito", "Daiquiri"]);
    assert_eq!(world.log, vec!["find", "load", "load"]);
}

#[test]
fn one_match_is_too_thin_and_new_recipes_follow_it() {
    let mut world = World::stocked(two_recipes());
    let page = world.generate(query(&["Gin"], 0, 10)).unwrap();
    assert_eq!(names_of(&page), vec!["Gimlet", "Rum Sour", "Rum Fizz"]);
    assert_eq!(
        world.log,
        vec![
            "find".to_owned(),
            "load".to_owned(),
            "complete".to_owned(),
            build_prompt(&vec!["Gin".to_owned()]),
            "recipe".to_owned(),
            "lines".to_owned(),
            "steps".to_owned(),
            "load".to_owned(),
            "recipe".to_owned(),
            "lines".to_owned(),
            "steps".to_owned(),
            "load".to_owned(),
        ]
    );
    assert_eq!(world.recipes.len(), 5);
    let sour = &page[1];
    assert_eq!(sour.id, Some(world.recipes[3].id));
    assert!(sour.created_at.is_some() && sour.updated_at.is_some());
    assert_eq!(sour.ingredients.len(), 2);
    assert_eq!(sour.ingredients[1].name, "Lemon juice");
    assert_eq!(sour.ingredients[1].cocktail_id, sour.id);
    assert_eq!(sour.instructions.len(), 2);
    assert_eq!(sour.instructions[1].instruction, "Strain and serve.");
    assert_eq!(sour.instructions[1].step, 1);
    assert_eq!(page[2].ingredients.len(), 1);
    assert_eq!(page[2].instructions.len(), 1);
}

#[test]
fn no_match_is_too_thin() {
    let mut world = World::stocked(two_recipes());
    let page = world.generate(query(&["Absinthe"], 0, 10)).unwrap();
    assert_eq!(names_of(&page), vec!["Rum Sour", "Rum Fizz"]);
    assert_eq!(world.log[..2], ["find".to_owned(), "complete".to_owned()]);
}

#[test]
fn an_empty_request_matches_nothing_and_synthesizes() {
    let mut world = World::stocked(two_recipes());
    let page = world.generate(query(&[], 0, 10)).unwrap();
    assert_eq!(names_of(&page), vec!["Rum Sour", "Rum Fizz"]);
    assert!(world.log[2].contains("[,ice]"));
}

#[test]
fn a_short_page_of_many_matches_is_too_thin_as_well() {
    let mut world = World::stocked(two_recipes());
    let page = world.generate(query(&["Lime"], 2, 5)).unwrap();
    assert_eq!(names_of(&page), vec!["Gimlet", "Rum Sour", "Rum Fizz"]);
    let mut world = World::stocked(two_recipes());
    let page = world.generate(query(&["Lime"], 0, 1)).unwrap();
    assert_eq!(names_of(&page), vec!["Mojito", "Rum Sour", "Rum Fizz"]);
    let mut world = World::stocked(two_recipes());
    let page = world.generate(query(&["Lime"], 1, 2)).unwrap();
    assert_eq!(names_of(&page), vec!["Daiquiri", "Gimlet"]);
}

#[test]
fn a_completion_without_recipes_adds_nothing() {
    let mut world = World::stocked(vec![Some("[]".to_owned())]);
    let page = world.generate(query(&["Gin"], 0, 10)).unwrap();
    assert_eq!(names_of(&page), vec!["Gimlet"]);
    assert_eq!(world.recipes.len(), 3);
}

#[test]
fn running_twice_on_a_thin_catalog_persists_twice() {
    let mut world = World::new(two_recipes());
    let first = world.generate(query(&["Rum"], 5, 10)).unwrap();
    let second = world.generate(query(&["Rum"], 5, 10)).unwrap();
    assert_eq!(names_of(&first), vec!["Rum Sour", "Rum Fizz"]);
    assert_eq!(names_of(&second), vec!["Rum Sour", "Rum Fizz"]);
    assert_ne!(first[0].id, second[0].id);
    assert_eq!(world.recipes.len(), 4);
}

#[test]
fn a_failed_search_is_a_query_failure() {
    let mut world = World::stocked(two_recipes());
    world.refuse = Some("find");
    assert_eq!(
        world.generate(query(&["Rum"], 0, 10)),
        Err(EngineError::QueryFailure("find refused".to_owned()))
    );
    assert_eq!(world.log, vec!["find"]);
}

#[test]
fn a_failed_load_is_a_query_failure_and_returns_no_partial_page() {
    let mut world = World::stocked(two_recipes());
    world.refuse = Some("load");
    assert_eq!(
        world.generate(query(&["Rum"], 0, 10)),
        Err(EngineError::QueryFailure("load refused".to_owned()))
    );
    assert_eq!(world.log, vec!["find", "load"]);
}

#[test]
fn a_failed_completion_is_a_synthesis_call_failure() {
    let mut world = World::stocked(two_recipes());
    world.refuse = Some("complete");
    assert_eq!(
        world.generate(query(&["Gin"], 0, 10)),
        Err(EngineError::SynthesisCallFailure("complete refused".to_owned()))
    );
    assert_eq!(world.recipes.len(), 3);
}

#[test]
fn a_completion_without_choices_is_a_synthesis_call_failure() {
    let mut world = World::stocked(vec![]);
    assert_eq!(
        world.generate(query(&["Gin"], 0, 10)),
        Err(EngineError::SynthesisCallFailure("the completion holds no choice".to_owned()))
    );
    let mut world = World::stocked(vec![None]);
    assert_eq!(
        world.generate(query(&["Gin"], 0, 10)),
        Err(EngineError::SynthesisCallFailure("the first choice holds no text".to_owned()))
    );
}

#[test]
fn an_unreadable_completion_is_a_synthesis_parse_failure() {
    let mut world = World::stocked(vec![Some("Try a Gimlet!".to_owned())]);
    let result = world.generate(query(&["Gin"], 0, 10));
    assert!(matches!(result, Err(EngineError::SynthesisParseFailure(_))));
    assert_eq!(world.recipes.len(), 3);
}

#[test]
fn a_failed_child_insert_removes_the_new_recipe_and_ends_the_flow() {
    let mut world = World::stocked(two_recipes());
    world.refuse = Some("lines");
    assert_eq!(
        world.generate(query(&["Gin"], 0, 10)),
        Err(EngineError::PartialWriteFailure("lines refused".to_owned()))
    );
    assert_eq!(world.log[4..], ["recipe".to_owned(), "lines".to_owned(), "delete".to_owned()]);
    assert_eq!(world.recipes.len(), 3);
    assert!(world.recipes.iter().all(|r| r.name != "Rum Sour"));

    let mut world = World::stocked(two_recipes());
    world.refuse = Some("steps");
    assert_eq!(
        world.generate(query(&["Gin"], 0, 10)),
        Err(EngineError::PartialWriteFailure("steps refused".to_owned()))
    );
    assert_eq!(world.recipes.len(), 3);
    assert_eq!(world.lines.len(), 9);
}

#[test]
fn a_failed_recipe_insert_is_a_query_failure() {
    let mut world = World::stocked(two_recipes());
    world.refuse = Some("recipe");
    assert_eq!(
        world.generate(query(&["Gin"], 0, 10)),
        Err(EngineError::QueryFailure("recipe refused".to_owned()))
    );
    assert_eq!(world.log.last().unwrap(), "recipe");
}

#[test]
fn a_matched_recipe_whose_row_is_gone_is_left_out() {
    let mut world = World::stocked(two_recipes());
    world.recipes.retain(|r| r.id != DAIQUIRI);
    let page = world.generate(query(&["Lime"], 0, 10)).unwrap();
    assert_eq!(names_of(&page), vec!["Mojito", "Gimlet"]);
    assert_eq!(world.log, vec!["find", "load", "load", "load"]);
}

#[test]
fn a_persisted_recipe_whose_row_is_gone_is_not_found() {
    let flow = Generation::Rehydrating { id: 9, drafts: vec![], page: vec![] };
    let step = flow.advance(Reply::Recipe(vec![], vec![], vec![]));
    assert_eq!(step, Step::Finish(Err(EngineError::NotFound)));
}

#[test]
fn an_answer_of_the_wrong_kind_ends_the_flow() {
    let flow = Generation::Matching { query: query(&["Rum"], 0, 10) };
    assert_eq!(
        flow.advance(Reply::Written),
        Step::Finish(Err(EngineError::QueryFailure("unexpected reply".to_owned())))
    );
    let flow = Generation::Hydrating {
        ingredients: vec![],
        current: MOJITO,
        queue: vec![],
        page: vec![],
    };
    assert_eq!(
        flow.advance(Reply::Completion(vec![])),
        Step::Finish(Err(EngineError::QueryFailure("unexpected reply".to_owned())))
    );
    let flow = Generation::Synthesizing { page: vec![] };
    assert_eq!(
        flow.advance(Reply::IngredientLines(vec![])),
        Step::Finish(Err(EngineError::SynthesisCallFailure("unexpected reply".to_owned())))
    );
    let flow = Generation::Rehydrating { id: 9, drafts: vec![], page: vec![] };
    assert_eq!(
        flow.advance(Reply::Written),
        Step::Finish(Err(EngineError::QueryFailure("unexpected reply".to_owned())))
    );
}

#[test]
fn an_answer_of_the_wrong_kind_to_a_write_counts_as_a_failed_write() {
    let mut world = World::new(two_recipes());
    let mut step = Cocktail::generate_cocktails(query(&["Rum"], 0, 10));
    let mut asked = Vec::new();
    let result = loop {
        match step {
            Step::Finish(result) => break result,
            Step::Ask(flow, request) => {
                let wrong = matches!(
                    request,
                    Request::Write(StoreWrite::InsertIngredientLines(_))
                );
                let reply = world.answer(request);
                asked.push(world.log.last().unwrap().clone());
                step = flow.advance(if wrong { Reply::Completion(vec![]) } else { reply });
            }
        }
    };
    assert_eq!(result, Err(EngineError::PartialWriteFailure("unexpected reply".to_owned())));
    assert_eq!(asked.last().unwrap(), "delete");
    assert!(world.recipes.is_empty());
}

#[test]
fn the_last_loaded_recipe_decides_between_synthesis_and_the_end() {
    let one = Generation::Hydrating {
        ingredients: vec!["Gin".to_owned()],
        current: GIMLET,
        queue: vec![],
        page: vec![],
    };
    let world = World::stocked(vec![]);
    let reply = || {
        Reply::Recipe(
            world.recipes.iter().filter(|r| r.id == GIMLET).map(|r| r.clone()).collect(),
            vec![],
            vec![],
        )
    };
    match one.advance(reply()) {
        Step::Ask(Generation::Synthesizing { page }, Request::Complete(request)) => {
            assert_eq!(names_of(&page), vec!["Gimlet"]);
            assert_eq!(request.prompt, build_prompt(&vec!["Gin".to_owned()]));
        }
        other => panic!("unexpected: {:?}", other),
    }
    let first = Cocktail::hydrate(&world.recipes[0], &world.lines, &world.steps);
    let two = Generation::Hydrating {
        ingredients: vec!["Gin".to_owned()],
        current: GIMLET,
        queue: vec![],
        page: vec![first],
    };
    match two.advance(reply()) {
        Step::Finish(Ok(page)) => assert_eq!(names_of(&page), vec!["Mojito", "Gimlet"]),
        other => panic!("unexpected: {:?}", other),
    }
    let more = Generation::Hydrating {
        ingredients: vec![],
        current: GIMLET,
        queue: vec![MOJITO, DAIQUIRI],
        page: vec![],
    };
    match more.advance(reply()) {
        Step::Ask(Generation::Hydrating { current, queue, page, .. }, Request::LoadRecipe(id)) => {
            assert_eq!(current, MOJITO);
            assert_eq!(id, MOJITO);
            assert_eq!(queue, vec![DAIQUIRI]);
            assert_eq!(names_of(&page), vec!["Gimlet"]);
        }
        other => panic!("unexpected: {:?}", other),
    }
}

#[test]
fn a_reply_to_a_write_tells_how_the_write_went() {
    assert_eq!(outcome_of(Reply::Written), WriteOutcome::Written);
    assert_eq!(
        outcome_of(Reply::Failed("disk full".to_owned())),
        WriteOutcome::Failed("disk full".to_owned())
    );
    assert_eq!(
        outcome_of(Reply::IngredientLines(Vec::new())),
        WriteOutcome::Failed("unexpected reply".to_owned())
    );
    assert_eq!(
        outcome_of(Reply::Completion(vec![Some("[]".to_owned())])),
        WriteOutcome::Failed("unexpected reply".to_owned())
    );
    assert_eq!(
        outcome_of(Reply::Recipe(Vec::new(), Vec::new(), Vec::new())),
        WriteOutcome::Failed("unexpected reply".to_owned())
    );
}
