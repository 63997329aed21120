use bartender::cocktails::CocktailData;
use bartender::error::EngineError;
use bartender::ingredients::IngredientData;
use bartender::instructions::{InstructionData, MAX_STEPS};

fn ingredient(name: &str, measurement: &str) -> IngredientData {
    IngredientData {
        name: name.to_owned(),
        measurement: measurement.to_owned(),
        id: None,
        cocktail_id: None,
        created_at: None,
        updated_at: None,
    }
}

fn instruction(text: &str, step: i16) -> InstructionData {
    InstructionData {
        instruction: text.to_owned(),
        step,
        id: None,
        cocktail_id: None,
        created_at: None,
        updated_at: None,
    }
}

#[test]
pub fn test_parse_message() {
    let test_message = "\n\n[[\"Whiskey Sour\",[[\"Whiskey\",\"2 ounces\"],[\"Lemon juice\",\"1 ounce\"],[\"Simple syrup\",\"1/2 ounce\"]],[\"Add whiskey, lemon juice and simple syrup to a shaker with ice.\",\"Shake and strain into a rocks glass with fresh ice.\",\"Garnish with a lemon wedge.\"]],\n[\"Tom Collins\",[[\"Gin\",\"2 ounces\"],[\"Lemon juice\",\"1 ounce\"],[\"Simple syrup\",\"1/2 ounce\"],[\"Club soda\",\"3 ounces\"]],[\"Fill a shaker with ice cubes.\",\"Add gin, lemon juice and simple syrup to the shaker.\",\"Shake and strain into a highball glass filled with ice.\",\"Top with club soda.\",\"Garnish with a lemon slice.\"]]]";
    let result = CocktailData::parse_message(test_message).unwrap();
    let actuall: Vec<CocktailData> = vec![
        CocktailData {
            id: None,
            created_at: None,
            updated_at: None,
            name: "Whiskey Sour".to_owned(),
            ingredients: vec![
                ingredient("Whiskey", "2 ounces"),
                ingredient("Lemon juice", "1 ounce"),
                ingredient("Simple syrup", "1/2 ounce"),
            ],
            instructions: vec![
                instruction("Add whiskey, lemon juice and simple syrup to a shaker with ice.", 0),
                instruction("Shake and strain into a rocks glass with fresh ice.", 1),
                instruction("Garnish with a lemon wedge.", 2),
            ],
        },
        CocktailData {
            id: None,
            created_at: None,
            updated_at: None,
            name: "Tom Collins".to_owned(),
            ingredients: vec![
                ingredient("Gin", "2 ounces"),
                ingredient("Lemon juice", "1 ounce"),
                ingredient("Simple syrup", "1/2 ounce"),
                ingredient("Club Soda", "3 ounce"),
            ],
            instructions: vec![
                instruction("Fill a shaker with ice cubes.", 0),
                instruction("Add gin, lemon juice and simple syrup to the shaker.", 1),
                instruction("Shake and strain into a highball glass filled with ice.", 2),
                instruction("Top with club soda.", 3),
                instruction("Garnish with a lemon slice.", 4),
            ],
        },
    ];

    println!("[len tests]");
    assert_eq!(result.len(), actuall.len());

    println!("[name tests]");
    assert_eq!(result[0].name, actuall[0].name);
    assert_eq!(result[1].name, actuall[1].name);

    println!("[instructions tests]");
    assert_eq!(result[0].instructions[0].instruction, actuall[0].instructions[0].instruction);
    assert_eq!(result[1].instructions[1].instruction, actuall[1].instructions[1].instruction);

    println!("[ingredents tests]");
    assert_eq!(result[0].ingredients[0].name, actuall[0].ingredients[0].name);
    assert_eq!(result[1].ingredients[1].name, actuall[1].ingredients[1].name);
}

#[test]
fn whiskey_sour_reply_reads_as_one_recipe() {
    let text = "[[\"Whiskey Sour\",[[\"Whiskey\",\"2 ounces\"],[\"Lemon juice\",\"1 ounce\"]],[\"Shake with ice.\",\"Strain and serve.\"]]]";
    let recipes = CocktailData::parse_message(text).unwrap();
    let expected = vec![CocktailData {
        id: None,
        name: "Whiskey Sour".to_owned(),
        created_at: None,
        updated_at: None,
        ingredients: vec![ingredient("Whiskey", "2 ounces"), ingredient("Lemon juice", "1 ounce")],
        instructions: vec![instruction("Shake with ice.", 0), instruction("Strain and serve.", 1)],
    }];
    assert_eq!(recipes, expected);
}

#[test]
fn parsing_the_same_text_twice_gives_the_same_recipes() {
    let text = "[[\"Gimlet\",[[\"Gin\",\"2 ounces\"],[\"Lime juice\",\"1 ounce\"]],[\"Shake.\",\"Strain.\",\"Serve.\"]]]";
    let first = CocktailData::parse_message(text).unwrap();
    let second = CocktailData::parse_message(text).unwrap();
    assert_eq!(first, second);
    assert_eq!(first[0].instructions[2].step, 2);
}

#[test]
fn an_empty_list_reads_as_no_recipes() {
    assert_eq!(CocktailData::parse_message(" [ ] ").unwrap(), Vec::<CocktailData>::new());
}

#[test]
fn a_recipe_without_children_reads_with_empty_lists() {
    let recipes = CocktailData::parse_message("[[\"Water\",[],[]]]").unwrap();
    assert_eq!(recipes.len(), 1);
    assert_eq!(recipes[0].name, "Water");
    assert!(recipes[0].ingredients.is_empty());
    assert!(recipes[0].instructions.is_empty());
}

#[test]
fn malformed_json_is_a_parse_failure() {
    let r = CocktailData::parse_message("[[\"Whiskey Sour\",");
    assert!(matches!(r, Err(EngineError::SynthesisParseFailure(_))));
}

#[test]
fn wrong_arity_is_a_parse_failure() {
    let r = CocktailData::parse_message("[[\"Whiskey Sour\",[[\"Whiskey\",\"2 ounces\"]]]]");
    assert!(matches!(r, Err(EngineError::SynthesisParseFailure(_))));
    let r = CocktailData::parse_message("[[\"Whiskey Sour\",[[\"Whiskey\"]],[\"Shake.\"]]]");
    assert!(matches!(r, Err(EngineError::SynthesisParseFailure(_))));
}

#[test]
fn wrong_types_are_a_parse_failure() {
    let r = CocktailData::parse_message("[[1,[[\"Whiskey\",\"2 ounces\"]],[\"Shake.\"]]]");
    assert!(matches!(r, Err(EngineError::SynthesisParseFailure(_))));
    let r = CocktailData::parse_message("{\"name\":\"Whiskey Sour\"}");
    assert!(matches!(r, Err(EngineError::SynthesisParseFailure(_))));
}

#[test]
fn text_after_the_list_is_a_parse_failure() {
    let r = CocktailData::parse_message("[] and more");
    assert!(matches!(r, Err(EngineError::SynthesisParseFailure(_))));
}

#[test]
fn a_parse_failure_says_what_the_decoder_found() {
    match CocktailData::parse_message("") {
        Err(EngineError::SynthesisParseFailure(m)) => {
            assert_eq!(
                m,
                "the completion is not a list of recipes: EOF while parsing a value at line 1 column 0"
            )
        }
        other => panic!("unexpected: {:?}", other),
    }
    match CocktailData::parse_message("[] and more") {
        Err(EngineError::SynthesisParseFailure(m)) => {
            assert!(m.starts_with("the completion is not a list of recipes: "));
            assert!(m.len() > "the completion is not a list of recipes: ".len());
        }
        other => panic!("unexpected: {:?}", other),
    }
}

fn steps(count: usize) -> Vec<String> {
    let mut texts = Vec::new();
    for _ in 0..count {
        texts.push("Stir.".to_owned());
    }
    texts
}

fn reply_with_steps(count: usize) -> String {
    let mut text = String::from("[[\"Long\",[],[");
    for i in 0..count {
        if i > 0 {
            text.push(',');
        }
        text.push_str("\"Stir.\"");
    }
    text.push_str("]]]");
    text
}

#[test]
fn a_recipe_with_as_many_instructions_as_can_be_numbered_reads() {
    assert_eq!(MAX_STEPS, 32768);
    let recipes = CocktailData::parse_message(&reply_with_steps(MAX_STEPS)).unwrap();
    assert_eq!(recipes.len(), 1);
    assert_eq!(recipes[0].instructions.len(), 32768);
    assert_eq!(recipes[0].instructions[0].step, 0);
    assert_eq!(recipes[0].instructions[32767].step, 32767);
    assert!(recipes[0].instructions.iter().enumerate().all(|(i, s)| s.step as usize == i));
}

#[test]
fn a_recipe_with_more_instructions_than_can_be_numbered_is_a_parse_failure() {
    assert_eq!(
        CocktailData::parse_message(&reply_with_steps(MAX_STEPS + 1)),
        Err(EngineError::SynthesisParseFailure(
            "a recipe holds more instructions than can be numbered".to_owned()
        ))
    );
    let list = vec![
        ("A".to_owned(), vec![], vec!["one".to_owned()]),
        ("Long".to_owned(), vec![], steps(MAX_STEPS + 1)),
    ];
    assert_eq!(
        CocktailData::from_decoded(list),
        Err(EngineError::SynthesisParseFailure(
            "a recipe holds more instructions than can be numbered".to_owned()
        ))
    );
    let list = vec![("Long".to_owned(), vec![], steps(MAX_STEPS))];
    assert_eq!(CocktailData::from_decoded(list).unwrap()[0].instructions.len(), MAX_STEPS);
}

#[test]
fn a_triple_maps_to_a_transfer_recipe() {
    let recipe = CocktailData::from_triple((
        "Negroni".to_owned(),
        vec![("Gin".to_owned(), "1 ounce".to_owned()), ("Campari".to_owned(), "1 ounce".to_owned())],
        vec!["Stir.".to_owned(), "Strain.".to_owned()],
    ));
    assert_eq!(recipe.id, None);
    assert_eq!(recipe.name, "Negroni");
    assert_eq!(recipe.created_at, None);
    assert_eq!(recipe.updated_at, None);
    assert_eq!(
        recipe.ingredients,
        vec![ingredient("Gin", "1 ounce"), ingredient("Campari", "1 ounce")]
    );
    assert_eq!(recipe.instructions, vec![instruction("Stir.", 0), instruction("Strain.", 1)]);
}

#[test]
fn decoded_triples_keep_their_order() {
    let recipes = CocktailData::from_decoded(vec![
        ("A".to_owned(), vec![], vec!["one".to_owned()]),
        ("B".to_owned(), vec![("x".to_owned(), "y".to_owned())], vec![]),
    ])
    .unwrap();
    assert_eq!(recipes.len(), 2);
    assert_eq!(recipes[0].name, "A");
    assert_eq!(recipes[0].instructions, vec![instruction("one", 0)]);
    assert_eq!(recipes[1].name, "B");
    assert_eq!(recipes[1].ingredients, vec![ingredient("x", "y")]);
}

#[test]
fn a_pair_maps_to_a_transfer_ingredient() {
    let data = IngredientData::from(("Gin".to_owned(), "2 ounces".to_owned()));
    assert_eq!(data, ingredient("Gin", "2 ounces"));
}

#[test]
fn a_position_and_text_map_to_a_transfer_instruction() {
    let data = InstructionData::at_position(3, "Stir.".to_owned());
    assert_eq!(data, instruction("Stir.", 3));
    let first = InstructionData::at_position(0, "Pour.".to_owned());
    assert_eq!(first, instruction("Pour.", 0));
    let last = InstructionData::at_position(MAX_STEPS - 1, "Serve.".to_owned());
    assert_eq!(last, instruction("Serve.", 32767));
}
