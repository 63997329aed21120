//! Recipes: the persisted row, the transfer form with its children inline,
//! reading a synthesized reply, and assembling a stored recipe.

use crate::error::{EngineError, EngineErrorView};
use crate::external::{decode_recipe_list, json_error_text, json_recipe_list};
use crate::ingredients::{lines_of, lines_to_data, Ingredient, IngredientData, IngredientDataView, IngredientView};
use crate::instructions::{
    steps_of, steps_to_data, Instruction, InstructionData, InstructionDataView, InstructionView,
    MAX_STEPS,
};
use chrono::NaiveDateTime;
use vstd::prelude::*;

verus! {

/// One persisted recipe row. Its ingredient lines and instruction steps are
/// separate rows that name it as their owner.
#[derive(Debug, PartialEq)]
pub struct Cocktail {
    pub id: u128,
    pub name: String,
    pub created_at: Option<NaiveDateTime>,
    pub updated_at: Option<NaiveDateTime>,
}

/// The transfer form of a recipe, with its children inline.
#[derive(Debug, PartialEq)]
pub struct CocktailData {
    pub id: Option<u128>,
    pub name: String,
    pub created_at: Option<NaiveDateTime>,
    pub updated_at: Option<NaiveDateTime>,
    pub instructions: Vec<InstructionData>,
    pub ingredients: Vec<IngredientData>,
}

/// What a [`Cocktail`] is, with its name as a character sequence.
pub struct CocktailView {
    pub id: u128,
    pub name: Seq<char>,
    pub created_at: Option<NaiveDateTime>,
    pub updated_at: Option<NaiveDateTime>,
}

/// What a [`CocktailData`] is: texts as character sequences, children as
/// sequences of their views.
pub struct CocktailDataView {
    pub id: Option<u128>,
    pub name: Seq<char>,
    pub created_at: Option<NaiveDateTime>,
    pub updated_at: Option<NaiveDateTime>,
    pub instructions: Seq<InstructionDataView>,
    pub ingredients: Seq<IngredientDataView>,
}

impl View for Cocktail {
    type V = CocktailView;

    open spec fn view(&self) -> CocktailView {
        CocktailView {
            id: self.id,
            name: self.name@,
            created_at: self.created_at,
            updated_at: self.updated_at,
        }
    }
}

impl DeepView for Cocktail {
    type V = CocktailView;

    open spec fn deep_view(&self) -> CocktailView {
        self@
    }
}

impl View for CocktailData {
    type V = CocktailDataView;

    open spec fn view(&self) -> CocktailDataView {
        CocktailDataView {
            id: self.id,
            name: self.name@,
            created_at: self.created_at,
            updated_at: self.updated_at,
            instructions: self.instructions.deep_view(),
            ingredients: self.ingredients.deep_view(),
        }
    }
}

impl DeepView for CocktailData {
    type V = CocktailDataView;

    open spec fn deep_view(&self) -> CocktailDataView {
        self@
    }
}

/// A synthesized recipe as the reply spells it: a name, the
/// (ingredient, measurement) pairs, the instruction texts.
pub type RecipeTriple = (Seq<char>, Seq<(Seq<char>, Seq<char>)>, Seq<Seq<char>>);

/// Whether the instructions of `triple` can all be numbered.
pub open spec fn numbered(triple: RecipeTriple) -> bool {
    triple.2.len() <= MAX_STEPS
}

/// Whether the instructions of every recipe of `triples` can be numbered.
pub open spec fn all_numbered(triples: Seq<RecipeTriple>) -> bool {
    forall|i: int| 0 <= i < triples.len() ==> numbered(#[trigger] triples[i])
}

/// The transfer form of one synthesized recipe: nothing is persisted yet, so
/// no identifier, owner or timestamp is set; each instruction carries its
/// place in the list as step index.
pub open spec fn recipe_of(triple: RecipeTriple) -> CocktailDataView
    recommends
        numbered(triple),
{
    CocktailDataView {
        id: None,
        name: triple.0,
        created_at: None,
        updated_at: None,
        instructions: Seq::new(
            triple.2.len(),
            |i: int| InstructionDataView::described(i as usize, triple.2[i]),
        ),
        ingredients: Seq::new(
            triple.1.len(),
            |i: int| IngredientDataView::described(triple.1[i].0, triple.1[i].1),
        ),
    }
}

/// The transfer forms of a list of synthesized recipes, in the same order.
pub open spec fn recipes_of(triples: Seq<RecipeTriple>) -> Seq<CocktailDataView> {
    triples.map_values(|t: RecipeTriple| recipe_of(t))
}

/// What a completion reply says: its recipes, or `None` where the reply is
/// not a JSON list of triples, or holds a recipe with more instructions than
/// can be numbered.
pub open spec fn parsed_recipes(text: Seq<char>) -> Option<Seq<CocktailDataView>> {
    match json_recipe_list(text) {
        Some(triples) => if all_numbered(triples) {
            Some(recipes_of(triples))
        } else {
            None
        },
        None => None,
    }
}

/// The message of the failure reported for a list that holds a recipe with
/// more instructions than can be numbered.
pub open spec fn too_many_steps() -> Seq<char> {
    "a recipe holds more instructions than can be numbered"@
}

/// How the message of the failure begins that is reported for a reply that
/// is not a JSON list of triples. What the decoder says of the reply follows.
pub open spec fn not_a_recipe_list() -> Seq<char> {
    "the completion is not a list of recipes: "@
}

/// Whether `e` is a failure to report for the reply `text`, which does not
/// read as recipes.
pub open spec fn parse_failure(text: Seq<char>, e: EngineErrorView) -> bool {
    match json_recipe_list(text) {
        Some(_) => e == EngineErrorView::SynthesisParseFailure(too_many_steps()),
        None => e matches EngineErrorView::SynthesisParseFailure(m) && not_a_recipe_list().is_prefix_of(
            m,
        ),
    }
}

/// The first row of `recipes` with identifier `id`, if there is one.
pub open spec fn find_recipe(recipes: Seq<CocktailView>, id: u128) -> Option<CocktailView>
    decreases recipes.len(),
{
    if recipes.len() == 0 {
        None
    } else if recipes.first().id == id {
        Some(recipes.first())
    } else {
        find_recipe(recipes.drop_first(), id)
    }
}

/// The transfer form of the stored recipe `row`: its own fields, and for
/// children the lines and steps that name it as owner, each in the order in
/// which `lines` and `steps` hold them.
pub open spec fn hydrated(
    row: CocktailView,
    lines: Seq<IngredientView>,
    steps: Seq<InstructionView>,
) -> CocktailDataView {
    CocktailDataView {
        id: Some(row.id),
        name: row.name,
        created_at: row.created_at,
        updated_at: row.updated_at,
        instructions: steps_to_data(steps_of(steps, row.id)),
        ingredients: lines_to_data(lines_of(lines, row.id)),
    }
}

/// The recipe `id` as the three tables hold it, or `None` where no recipe
/// row has that identifier.
pub open spec fn assembled(
    recipes: Seq<CocktailView>,
    lines: Seq<IngredientView>,
    steps: Seq<InstructionView>,
    id: u128,
) -> Option<CocktailDataView> {
    match find_recipe(recipes, id) {
        Some(row) => Some(hydrated(row, lines, steps)),
        None => None,
    }
}

/// The row at the first position that carries `id` is the one found.
pub proof fn lemma_find_recipe_at(recipes: Seq<CocktailView>, id: u128, i: int)
    requires
        0 <= i < recipes.len(),
        recipes[i].id == id,
        forall|j: int| 0 <= j < i ==> recipes[j].id != id,
    ensures
        find_recipe(recipes, id) == Some(recipes[i]),
    decreases i,
{
    if i > 0 {
        assert(recipes[0].id != id);
        lemma_find_recipe_at(recipes.drop_first(), id, i - 1);
    }
}

/// Nothing is found where no row carries `id`, and only there.
pub proof fn lemma_find_recipe_none(recipes: Seq<CocktailView>, id: u128)
    ensures
        find_recipe(recipes, id) is None <==> forall|j: int|
            0 <= j < recipes.len() ==> recipes[j].id != id,
    decreases recipes.len(),
{
    if recipes.len() > 0 {
        lemma_find_recipe_none(recipes.drop_first(), id);
        if recipes[0].id != id {
            if find_recipe(recipes, id) is None {
                assert forall|j: int| 0 <= j < recipes.len() implies recipes[j].id != id by {
                    if j > 0 {
                        assert(recipes.drop_first()[j - 1].id != id);
                    }
                }
            } else {
                let k = choose|k: int|
                    0 <= k < recipes.drop_first().len() && recipes.drop_first()[k].id == id;
                assert(recipes[k + 1].id == id);
            }
        }
    }
}

impl Clone for Cocktail {
    fn clone(&self) -> (r: Self)
        ensures
            r == *self,
    {
        Cocktail {
            id: self.id,
            name: self.name.clone(),
            created_at: self.created_at,
            updated_at: self.updated_at,
        }
    }
}

impl Clone for CocktailData {
    fn clone(&self) -> (r: Self)
        ensures
            r@ == self@,
    {
        let mut instructions: Vec<InstructionData> = Vec::new();
        let mut i: usize = 0;
        while i < self.instructions.len()
            invariant
                i <= self.instructions.len(),
                instructions.len() == i,
                forall|j: int| 0 <= j < i ==> instructions[j] == self.instructions[j],
            decreases self.instructions.len() - i,
        {
            instructions.push(self.instructions[i].clone());
            i += 1;
        }
        let mut ingredients: Vec<IngredientData> = Vec::new();
        let mut k: usize = 0;
        while k < self.ingredients.len()
            invariant
                k <= self.ingredients.len(),
                ingredients.len() == k,
                forall|j: int| 0 <= j < k ==> ingredients[j] == self.ingredients[j],
            decreases self.ingredients.len() - k,
        {
            ingredients.push(self.ingredients[k].clone());
            k += 1;
        }
        assert(instructions.deep_view() =~= self.instructions.deep_view());
        assert(ingredients.deep_view() =~= self.ingredients.deep_view());
        CocktailData {
            id: self.id,
            name: self.name.clone(),
            created_at: self.created_at,
            updated_at: self.updated_at,
            instructions,
            ingredients,
        }
    }
}

impl CocktailData {
    /// The transfer form of one synthesized recipe. Its instructions have to
    /// be few enough to be numbered.
    pub fn from_triple(msg: (String, Vec<(String, String)>, Vec<String>)) -> (r: Self)
        requires
            msg.2.len() <= MAX_STEPS,
        ensures
            r@ == recipe_of(msg.deep_view()),
    {
        let mut instructions: Vec<InstructionData> = Vec::new();
        let mut i: usize = 0;
        while i < msg.2.len()
            invariant
                i <= msg.2.len(),
                msg.2.len() <= MAX_STEPS,
                instructions.len() == i,
                forall|j: int|
                    0 <= j < i ==> instructions[j]@ == InstructionDataView::described(
                        j as usize,
                        msg.2[j]@,
                    ),
            decreases msg.2.len() - i,
        {
            instructions.push(InstructionData::at_position(i, msg.2[i].clone()));
            i += 1;
        }
        let mut ingredients: Vec<IngredientData> = Vec::new();
        let mut k: usize = 0;
        while k < msg.1.len()
            invariant
                k <= msg.1.len(),
                ingredients.len() == k,
                forall|j: int|
                    0 <= j < k ==> ingredients[j]@ == IngredientDataView::described(
                        msg.1[j].0@,
                        msg.1[j].1@,
                    ),
            decreases msg.1.len() - k,
        {
            ingredients.push(IngredientData::from((msg.1[k].0.clone(), msg.1[k].1.clone())));
            k += 1;
        }
        assert(instructions.deep_view() =~= recipe_of(msg.deep_view()).instructions);
        assert(ingredients.deep_view() =~= recipe_of(msg.deep_view()).ingredients);
        CocktailData {
            id: None,
            name: msg.0,
            created_at: None,
            updated_at: None,
            instructions,
            ingredients,
        }
    }
}

impl Cocktail {
    /// The transfer form of the stored recipe `row`, with the children that
    /// `ingredients` and `instructions` hold for it. Children keep the order
    /// of the tables; steps are not sorted by index.
    pub fn hydrate(
        row: &Cocktail,
        ingredients: &Vec<Ingredient>,
        instructions: &Vec<Instruction>,
    ) -> (r: CocktailData)
        ensures
            r@ == hydrated(row@, ingredients.deep_view(), instructions.deep_view()),
    {
        let lines = Ingredient::get_ingredients_by_cocktail_id(ingredients, &row.id);
        let steps = Instruction::get_instructions_by_cocktail_id(instructions, &row.id);
        CocktailData {
            id: Some(row.id),
            name: row.name.clone(),
            created_at: row.created_at,
            updated_at: row.updated_at,
            ingredients: Ingredient::map_ingredients_to_data(lines),
            instructions: Instruction::map_instructions_to_data(steps),
        }
    }

    /// The recipe `c_id` in full, from the rows that the catalog returned:
    /// `None` where `cocktails` holds no row with that identifier.
    pub fn get_cocktail_by_id(
        cocktails: &Vec<Cocktail>,
        ingredients: &Vec<Ingredient>,
        instructions: &Vec<Instruction>,
        c_id: u128,
    ) -> (r: Option<CocktailData>)
        ensures
            r.deep_view() == assembled(
                cocktails.deep_view(),
                ingredients.deep_view(),
                instructions.deep_view(),
                c_id,
            ),
    {
        let mut i: usize = 0;
        while i < cocktails.len()
            invariant
                i <= cocktails.len(),
                forall|j: int| 0 <= j < i ==> cocktails[j].id != c_id,
            decreases cocktails.len() - i,
        {
            if cocktails[i].id == c_id {
                proof {
                    lemma_find_recipe_at(cocktails.deep_view(), c_id, i as int);
                }
                return Some(Cocktail::hydrate(&cocktails[i], ingredients, instructions));
            }
            i += 1;
        }
        proof {
            lemma_find_recipe_none(cocktails.deep_view(), c_id);
        }
        None
    }
}

impl CocktailData {
    /// The transfer forms of a decoded list of synthesized recipes, in the
    /// same order. A list that holds a recipe with more instructions than
    /// can be numbered is a parse failure.
    pub fn from_decoded(list: Vec<(String, Vec<(String, String)>, Vec<String>)>) -> (r: Result<
        Vec<CocktailData>,
        EngineError,
    >)
        ensures
            all_numbered(list.deep_view()) ==> r is Ok && r->Ok_0.deep_view() == recipes_of(
                list.deep_view(),
            ),
            !all_numbered(list.deep_view()) ==> r is Err && r->Err_0@
                == EngineErrorView::SynthesisParseFailure(too_many_steps()),
    {
        let mut out: Vec<CocktailData> = Vec::new();
        let ghost all = list.deep_view();
        let mut i: usize = 0;
        while i < list.len()
            invariant
                i <= list.len(),
                out.len() == i,
                list.deep_view() == all,
                forall|j: int| 0 <= j < i ==> numbered(#[trigger] all[j]),
                forall|j: int| 0 <= j < i ==> out[j]@ == recipe_of(all[j]),
            decreases list.len() - i,
        {
            assert(all[i as int].2.len() == list[i as int].2.len());
            if list[i].2.len() > MAX_STEPS {
                assert(!numbered(all[i as int]));
                return Err(
                    EngineError::SynthesisParseFailure(
                        "a recipe holds more instructions than can be numbered".to_owned(),
                    ),
                );
            }
            let name = list[i].0.clone();
            let pairs = clone_pairs(&list[i].1);
            let texts = clone_texts(&list[i].2);
            let one = CocktailData::from_triple((name, pairs, texts));
            assert((name, pairs, texts).deep_view() == all[i as int]);
            out.push(one);
            i += 1;
        }
        assert(out.deep_view() =~= recipes_of(all));
        Ok(out)
    }

    /// Reads a completion reply. The reply must be, as a whole, a JSON list of
    /// `[name, [[ingredient, measurement], ..], [instruction, ..]]` triples,
    /// none with more instructions than can be numbered; anything else is a
    /// parse failure, whose message says which of the two it was. The same
    /// text always reads the same.
    pub fn parse_message(message: &str) -> (r: Result<Vec<CocktailData>, EngineError>)
        ensures
            match parsed_recipes(message@) {
                Some(recipes) => r is Ok && r->Ok_0.deep_view() == recipes,
                None => r is Err && parse_failure(message@, r->Err_0@),
            },
    {
        match decode_recipe_list(message) {
            Ok(list) => CocktailData::from_decoded(list),
            Err(e) => {
                let mut text = "the completion is not a list of recipes: ".to_owned();
                let detail = json_error_text(&e);
                text.append(detail.as_str());
                proof {
                    let head = not_a_recipe_list();
                    assert(text@ == head + detail@);
                    assert((head + detail@).subrange(0, head.len() as int) =~= head);
                }
                Err(EngineError::SynthesisParseFailure(text))
            },
        }
    }
}

/// A copy of `pairs`.
fn clone_pairs(pairs: &Vec<(String, String)>) -> (r: Vec<(String, String)>)
    ensures
        r.deep_view() == pairs.deep_view(),
{
    let mut out: Vec<(String, String)> = Vec::new();
    let mut i: usize = 0;
    while i < pairs.len()
        invariant
            i <= pairs.len(),
            out.len() == i,
            forall|j: int| 0 <= j < i ==> out[j].deep_view() == pairs[j].deep_view(),
        decreases pairs.len() - i,
    {
        out.push((pairs[i].0.clone(), pairs[i].1.clone()));
        i += 1;
    }
    assert(out.deep_view() =~= pairs.deep_view());
    out
}

/// A copy of `texts`.
fn clone_texts(texts: &Vec<String>) -> (r: Vec<String>)
    ensures
        r.deep_view() == texts.deep_view(),
{
    let mut out: Vec<String> = Vec::new();
    let mut i: usize = 0;
    while i < texts.len()
        invariant
            i <= texts.len(),
            out.len() == i,
            forall|j: int| 0 <= j < i ==> out[j]@ == texts[j]@,
        decreases texts.len() - i,
    {
        out.push(texts[i].clone());
        i += 1;
    }
    assert(out.deep_view() =~= texts.deep_view());
    out
}

} // verus!
