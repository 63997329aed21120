use bartender::cocktails::{Cocktail, CocktailData};
use bartender::ingredients::{Ingredient, IngredientData};
use bartender::instructions::{Instruction, InstructionData};
use chrono::{NaiveDate, NaiveDateTime};

const MOJITO: u128 = 0x33;
const DAIQUIRI: u128 = 0x44;

fn is_random_id(id: u128) -> bool {
    (id >> 76) & 0xf == 4 && (id >> 62) & 0x3 == 2
}

fn at(day: u32) -> Option<NaiveDateTime> {
    NaiveDate::from_ymd_opt(2024, 3, day).unwrap().and_hms_opt(12, 30, 0)
}

fn recipe(id: u128, name: &str) -> Cocktail {
    Cocktail { id, name: name.to_owned(), created_at: at(1), updated_at: at(2) }
}

fn line(id: u128, name: &str, measurement: &str, owner: u128) -> Ingredient {
    Ingredient {
        id,
        name: name.to_owned(),
        measurement: measurement.to_owned(),
        cocktail_id: owner,
        created_at: at(3),
        updated_at: None,
    }
}

fn step(id: u128, text: &str, index: i16, owner: u128) -> Instruction {
    Instruction {
        id,
        instruction: text.to_owned(),
        step: index,
        cocktail_id: owner,
        created_at: None,
        updated_at: at(4),
    }
}

fn tables() -> (Vec<Cocktail>, Vec<Ingredient>, Vec<Instruction>) {
    (
        vec![recipe(MOJITO, "Mojito"), recipe(DAIQUIRI, "Daiquiri")],
        vec![
            line(1, "Rum", "2 ounces", MOJITO),
            line(2, "Rum", "2 ounces", DAIQUIRI),
            line(3, "Mint", "6 leaves", MOJITO),
            line(4, "Lime", "1 ounce", DAIQUIRI),
            line(5, "Lime", "1 ounce", MOJITO),
        ],
        vec![
            step(1, "Shake.", 0, DAIQUIRI),
            step(2, "Top with soda.", 1, MOJITO),
            step(3, "Muddle.", 0, MOJITO),
            step(4, "Strain.", 1, DAIQUIRI),
        ],
    )
}

#[test]
fn a_stored_recipe_is_assembled_with_its_own_children() {
    let (recipes, lines, steps) = tables();
    let found = Cocktail::get_cocktail_by_id(&recipes, &lines, &steps, MOJITO).unwrap();
    assert_eq!(
        found,
        CocktailData {
            id: Some(MOJITO),
            name: "Mojito".to_owned(),
            created_at: at(1),
            updated_at: at(2),
            ingredients: vec![
                IngredientData {
                    id: Some(1),
                    name: "Rum".to_owned(),
                    measurement: "2 ounces".to_owned(),
                    cocktail_id: Some(MOJITO),
                    created_at: at(3),
                    updated_at: None,
                },
                IngredientData {
                    id: Some(3),
                    name: "Mint".to_owned(),
                    measurement: "6 leaves".to_owned(),
                    cocktail_id: Some(MOJITO),
                    created_at: at(3),
                    updated_at: None,
                },
                IngredientData {
                    id: Some(5),
                    name: "Lime".to_owned(),
                    measurement: "1 ounce".to_owned(),
                    cocktail_id: Some(MOJITO),
                    created_at: at(3),
                    updated_at: None,
                },
            ],
            instructions: vec![
                InstructionData {
                    id: Some(2),
                    instruction: "Top with soda.".to_owned(),
                    step: 1,
                    cocktail_id: Some(MOJITO),
                    created_at: None,
                    updated_at: at(4),
                },
                InstructionData {
                    id: Some(3),
                    instruction: "Muddle.".to_owned(),
                    step: 0,
                    cocktail_id: Some(MOJITO),
                    created_at: None,
                    updated_at: at(4),
                },
            ],
        }
    );
}

#[test]
fn steps_come_back_in_table_order_not_sorted() {
    let (recipes, lines, steps) = tables();
    let found = Cocktail::get_cocktail_by_id(&recipes, &lines, &steps, MOJITO).unwrap();
    let order: Vec<i16> = found.instructions.iter().map(|s| s.step).collect();
    assert_eq!(order, vec![1, 0]);
}

#[test]
fn a_missing_recipe_row_is_not_found() {
    let (recipes, lines, steps) = tables();
    assert_eq!(Cocktail::get_cocktail_by_id(&recipes, &lines, &steps, 0x99), None);
    assert_eq!(Cocktail::get_cocktail_by_id(&Vec::new(), &lines, &steps, MOJITO), None);
}

#[test]
fn a_recipe_without_children_is_assembled_empty() {
    let recipes = vec![recipe(MOJITO, "Mojito")];
    let found = Cocktail::get_cocktail_by_id(&recipes, &Vec::new(), &Vec::new(), MOJITO).unwrap();
    assert_eq!(found.id, Some(MOJITO));
    assert!(found.ingredients.is_empty());
    assert!(found.instructions.is_empty());
}

#[test]
fn the_first_row_with_the_identifier_is_the_one_assembled() {
    let recipes = vec![recipe(DAIQUIRI, "Daiquiri"), recipe(MOJITO, "Mojito"), recipe(MOJITO, "Other")];
    let found = Cocktail::get_cocktail_by_id(&recipes, &Vec::new(), &Vec::new(), MOJITO).unwrap();
    assert_eq!(found.name, "Mojito");
}

#[test]
fn hydrate_keeps_the_row_and_filters_the_children() {
    let (_, lines, steps) = tables();
    let found = Cocktail::hydrate(&recipe(DAIQUIRI, "Daiquiri"), &lines, &steps);
    assert_eq!(found.name, "Daiquiri");
    assert_eq!(found.created_at, at(1));
    assert_eq!(found.updated_at, at(2));
    let names: Vec<&str> = found.ingredients.iter().map(|l| l.name.as_str()).collect();
    assert_eq!(names, vec!["Rum", "Lime"]);
    let texts: Vec<&str> = found.instructions.iter().map(|s| s.instruction.as_str()).collect();
    assert_eq!(texts, vec!["Shake.", "Strain."]);
}

#[test]
fn steps_are_selected_by_owner_in_table_order() {
    let (_, _, steps) = tables();
    let found = Instruction::get_instructions_by_cocktail_id(&steps, &DAIQUIRI);
    assert_eq!(found, vec![step(1, "Shake.", 0, DAIQUIRI), step(4, "Strain.", 1, DAIQUIRI)]);
}

#[test]
fn a_line_maps_to_its_transfer_form() {
    let data = Ingredient::map_ingredient_to_data(&line(7, "Gin", "2 ounces", MOJITO));
    assert_eq!(
        data,
        IngredientData {
            id: Some(7),
            name: "Gin".to_owned(),
            measurement: "2 ounces".to_owned(),
            cocktail_id: Some(MOJITO),
            created_at: at(3),
            updated_at: None,
        }
    );
    assert_eq!(IngredientData::from(line(7, "Gin", "2 ounces", MOJITO)), data);
    let all = Ingredient::map_ingredients_to_data(vec![
        line(7, "Gin", "2 ounces", MOJITO),
        line(8, "Lime", "1 ounce", MOJITO),
    ]);
    assert_eq!(all.len(), 2);
    assert_eq!(all[0], data);
    assert_eq!(all[1].id, Some(8));
}

#[test]
fn a_step_maps_to_its_transfer_form() {
    let data = Instruction::map_instruction_to_data(&step(9, "Stir.", 2, MOJITO));
    assert_eq!(
        data,
        InstructionData {
            id: Some(9),
            instruction: "Stir.".to_owned(),
            step: 2,
            cocktail_id: Some(MOJITO),
            created_at: None,
            updated_at: at(4),
        }
    );
    assert_eq!(InstructionData::from(step(9, "Stir.", 2, MOJITO)), data);
    let all = Instruction::map_instructions_to_data(vec![
        step(9, "Stir.", 2, MOJITO),
        step(10, "Serve.", 3, MOJITO),
    ]);
    assert_eq!(all.len(), 2);
    assert_eq!(all[0], data);
    assert_eq!(all[1].step, 3);
}

fn bare_ingredient() -> IngredientData {
    IngredientData {
        id: None,
        name: "Gin".to_owned(),
        measurement: "2 ounces".to_owned(),
        cocktail_id: None,
        created_at: at(5),
        updated_at: at(6),
    }
}

fn bare_instruction() -> InstructionData {
    InstructionData {
        id: None,
        instruction: "Stir.".to_owned(),
        step: 4,
        cocktail_id: None,
        created_at: at(5),
        updated_at: at(6),
    }
}

#[test]
fn a_record_without_identifier_takes_the_one_offered() {
    let made = Ingredient::map_data_with_id(&bare_ingredient(), 0xabc, &MOJITO);
    assert_eq!(
        made,
        Ingredient {
            id: 0xabc,
            name: "Gin".to_owned(),
            measurement: "2 ounces".to_owned(),
            cocktail_id: MOJITO,
            created_at: at(5),
            updated_at: at(6),
        }
    );
    let made = Instruction::map_data_with_id(&bare_instruction(), 0xabc, &MOJITO);
    assert_eq!(
        made,
        Instruction {
            id: 0xabc,
            instruction: "Stir.".to_owned(),
            step: 4,
            cocktail_id: MOJITO,
            created_at: at(5),
            updated_at: at(6),
        }
    );
}

#[test]
fn a_record_keeps_its_own_identifier_and_takes_the_owner_handed_in() {
    let mut data = bare_ingredient();
    data.id = Some(77);
    data.cocktail_id = Some(DAIQUIRI);
    let made = Ingredient::map_data_with_id(&data, 0xabc, &MOJITO);
    assert_eq!(made.id, 77);
    assert_eq!(made.cocktail_id, MOJITO);
    let made = Ingredient::map_data_to_ingredient(&data, &MOJITO);
    assert_eq!(made.id, 77);
    assert_eq!(made.cocktail_id, MOJITO);

    let mut data = bare_instruction();
    data.id = Some(78);
    data.cocktail_id = Some(DAIQUIRI);
    let made = Instruction::map_data_with_id(&data, 0xabc, &MOJITO);
    assert_eq!(made.id, 78);
    assert_eq!(made.cocktail_id, MOJITO);
    let made = Instruction::map_data_to_instruction(&data, &MOJITO);
    assert_eq!(made.id, 78);
    assert_eq!(made.cocktail_id, MOJITO);
    assert_eq!(made.step, 4);
}

#[test]
fn a_record_without_identifier_gets_a_random_one() {
    let first = Ingredient::map_data_to_ingredient(&bare_ingredient(), &MOJITO);
    let second = Ingredient::map_data_to_ingredient(&bare_ingredient(), &MOJITO);
    assert_eq!(first.cocktail_id, MOJITO);
    assert_eq!(first.name, "Gin");
    assert_eq!(first.measurement, "2 ounces");
    assert_eq!(first.created_at, at(5));
    assert_eq!(first.updated_at, at(6));
    assert!(is_random_id(first.id));
    assert!(is_random_id(second.id));
    assert_ne!(first.id, second.id);
    assert_eq!((first.id >> 76) & 0xf, 4);
    assert_eq!((first.id >> 62) & 0x3, 2);

    let made = Instruction::map_data_to_instruction(&bare_instruction(), &MOJITO);
    assert_eq!(made.cocktail_id, MOJITO);
    assert_eq!(made.instruction, "Stir.");
    assert!(is_random_id(made.id));
}

#[test]
fn records_map_to_rows_one_for_one() {
    let mut owned = bare_ingredient();
    owned.id = Some(5);
    let rows = Ingredient::map_data_to_ingredients(vec![bare_ingredient(), owned], &MOJITO);
    assert_eq!(rows.len(), 2);
    assert!(is_random_id(rows[0].id));
    assert_eq!(rows[1].id, 5);
    assert!(rows.iter().all(|r| r.cocktail_id == MOJITO && r.name == "Gin"));

    let mut second = bare_instruction();
    second.step = 5;
    second.instruction = "Serve.".to_owned();
    let rows = Instruction::map_data_to_instructions(vec![bare_instruction(), second], &MOJITO);
    assert_eq!(rows.len(), 2);
    assert_eq!(rows[0].step, 4);
    assert_eq!(rows[1].step, 5);
    assert_eq!(rows[1].instruction, "Serve.");
    assert!(rows.iter().all(|r| r.cocktail_id == MOJITO));
}

#[test]
fn a_record_that_names_its_owner_converts_on_its_own() {
    let mut data = bare_ingredient();
    data.cocktail_id = Some(DAIQUIRI);
    let made = Ingredient::from_data(data);
    assert_eq!(made.cocktail_id, DAIQUIRI);
    assert_eq!(made.name, "Gin");
    assert!(is_random_id(made.id));
}

#[test]
fn clones_are_equal_to_their_source() {
    let (recipes, lines, steps) = tables();
    assert_eq!(recipes[0].clone(), recipes[0]);
    assert_eq!(lines[0].clone(), lines[0]);
    assert_eq!(steps[0].clone(), steps[0]);
    let full = Cocktail::get_cocktail_by_id(&recipes, &lines, &steps, MOJITO).unwrap();
    assert_eq!(full.clone(), full);
    assert_eq!(bare_ingredient().clone(), bare_ingredient());
    assert_eq!(bare_instruction().clone(), bare_instruction());
}
