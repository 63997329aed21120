//! The recipe synthesizer: what to ask of the completion service and how to
//! read what it answers.

use crate::cocktails::{parse_failure, parsed_recipes, Cocktail, CocktailData, CocktailDataView};
use crate::error::{EngineError, EngineErrorView};
use crate::query::joined;
use vstd::prelude::*;
use vstd::string::StringExecFns;

verus! {

/// One request to the completion service: a single, non-streaming completion
/// of `prompt`. Temperature and nucleus mass are held in hundredths.
#[derive(Debug, PartialEq)]
pub struct CompletionRequest {
    pub model: String,
    pub prompt: String,
    pub max_tokens: i32,
    pub temperature_percent: u32,
    pub top_p_percent: u32,
    pub choices: i32,
    pub stream: bool,
}

/// A [`CompletionRequest`] with its texts as character sequences.
pub struct CompletionRequestView {
    pub model: Seq<char>,
    pub prompt: Seq<char>,
    pub max_tokens: i32,
    pub temperature_percent: u32,
    pub top_p_percent: u32,
    pub choices: i32,
    pub stream: bool,
}

impl View for CompletionRequest {
    type V = CompletionRequestView;

    open spec fn view(&self) -> CompletionRequestView {
        CompletionRequestView {
            model: self.model@,
            prompt: self.prompt@,
            max_tokens: self.max_tokens,
            temperature_percent: self.temperature_percent,
            top_p_percent: self.top_p_percent,
            choices: self.choices,
            stream: self.stream,
        }
    }
}

/// The prompt up to the ingredient list.
pub open spec fn prompt_head() -> Seq<char> {
    "What cockatils can I make with these ingredients? ["@
}

/// The prompt after the ingredient list. It names ice as one more ingredient
/// and asks for two recipes as a JSON list of triples.
pub open spec fn prompt_tail() -> Seq<char> {
    ",ice] Format the result as a json array '[[name,[ingredents list],[instructions list]],...]'. Where 'name' is the cocktail name string, 'ingredients list' is an array of ingredient name and measurement tuples, and instructions is an array of instruction strings. Limit to 2 cocktails."@
}

/// The prompt for a list of ingredient names: the names with commas between
/// them, framed by the fixed text.
pub open spec fn prompt_for(names: Seq<Seq<char>>) -> Seq<char> {
    prompt_head() + joined(names, ',') + prompt_tail()
}

/// The request sent for a list of ingredient names.
pub open spec fn request_for(names: Seq<Seq<char>>) -> CompletionRequestView {
    CompletionRequestView {
        model: "text-davinci-003"@,
        prompt: prompt_for(names),
        max_tokens: 256,
        temperature_percent: 60,
        top_p_percent: 100,
        choices: 1,
        stream: false,
    }
}

/// Whether a completion has a first choice and that choice has a text.
pub open spec fn has_text(choices: Seq<Option<Seq<char>>>) -> bool {
    choices.len() > 0 && choices[0] is Some
}

/// What a completion says: the recipes in the text of its first choice. A
/// completion without choices, or whose first choice has no text, is a failed
/// call; a text that does not read as recipes is a parse failure.
pub open spec fn reply_read(choices: Seq<Option<Seq<char>>>) -> Option<Seq<CocktailDataView>> {
    if has_text(choices) {
        parsed_recipes(choices[0]->0)
    } else {
        None
    }
}

/// The names of `ingredients` with commas between them.
pub fn join_names(ingredients: &Vec<String>) -> (r: String)
    ensures
        r@ == joined(ingredients.deep_view(), ','),
{
    let mut out = String::new();
    let mut k: usize = 0;
    proof {
        reveal_strlit(",");
        assert(ingredients.deep_view().take(0) =~= Seq::empty());
    }
    while k < ingredients.len()
        invariant
            k <= ingredients.len(),
            ","@ == seq![','],
            out@ == joined(ingredients.deep_view().take(k as int), ','),
        decreases ingredients.len() - k,
    {
        proof {
            let names = ingredients.deep_view();
            assert(names.take(k + 1).drop_last() =~= names.take(k as int));
            assert(names.take(k + 1).last() == ingredients[k as int]@);
        }
        if k > 0 {
            out.append(",");
            assert(out@ =~= joined(ingredients.deep_view().take(k as int), ',').push(','));
        } else {
            assert(out@ =~= Seq::<char>::empty());
        }
        out.append(ingredients[k].as_str());
        k += 1;
    }
    assert(ingredients.deep_view().take(ingredients.len() as int) =~= ingredients.deep_view());
    out
}

/// The prompt that asks for recipes made from `ingredients`.
pub fn build_prompt(ingredients: &Vec<String>) -> (r: String)
    ensures
        r@ == prompt_for(ingredients.deep_view()),
{
    let mut out = "What cockatils can I make with these ingredients? [".to_owned();
    let names = join_names(ingredients);
    out.append(names.as_str());
    out.append(
        ",ice] Format the result as a json array '[[name,[ingredents list],[instructions list]],...]'. Where 'name' is the cocktail name string, 'ingredients list' is an array of ingredient name and measurement tuples, and instructions is an array of instruction strings. Limit to 2 cocktails.",
    );
    out
}

impl Cocktail {
    /// What to ask of the completion service for recipes made from
    /// `ingredients`: one non-streaming completion of at most 256 tokens at
    /// temperature 0.6. Sending it is left to the caller, and so is handing
    /// the answer to [`read_completion`].
    pub fn ask_gpt_for_cocktails(ingredients: &Vec<String>) -> (r: CompletionRequest)
        ensures
            r@ == request_for(ingredients.deep_view()),
    {
        CompletionRequest {
            model: "text-davinci-003".to_owned(),
            prompt: build_prompt(ingredients),
            max_tokens: 256,
            temperature_percent: 60,
            top_p_percent: 100,
            choices: 1,
            stream: false,
        }
    }
}

/// The message of the failure reported for a completion without choices.
pub open spec fn no_choice() -> Seq<char> {
    "the completion holds no choice"@
}

/// The message of the failure reported for a first choice without text.
pub open spec fn no_text() -> Seq<char> {
    "the first choice holds no text"@
}

/// The text of the first choice of a completion, as it came.
pub fn first_choice(choices: &Vec<Option<String>>) -> (r: Result<String, EngineError>)
    ensures
        match r {
            Ok(text) => choices.len() > 0 && choices[0] == Some(text),
            Err(e) => if choices.len() == 0 {
                e@ == EngineErrorView::SynthesisCallFailure(no_choice())
            } else {
                choices[0] is None && e@ == EngineErrorView::SynthesisCallFailure(no_text())
            },
        },
{
    if choices.len() == 0 {
        return Err(EngineError::SynthesisCallFailure("the completion holds no choice".to_owned()));
    }
    match &choices[0] {
        Some(text) => Ok(text.clone()),
        None => Err(
            EngineError::SynthesisCallFailure("the first choice holds no text".to_owned()),
        ),
    }
}

/// Reads a completion: the recipes that the text of its first choice spells
/// out.
pub fn read_completion(choices: &Vec<Option<String>>) -> (r: Result<
    Vec<CocktailData>,
    EngineError,
>)
    ensures
        match reply_read(choices.deep_view()) {
            Some(recipes) => r is Ok && r->Ok_0.deep_view() == recipes,
            None => r is Err,
        },
        !has_text(choices.deep_view()) ==> r is Err && r->Err_0@
            == EngineErrorView::SynthesisCallFailure(
            if choices.len() == 0 {
                no_choice()
            } else {
                no_text()
            },
        ),
        has_text(choices.deep_view()) && reply_read(choices.deep_view()) is None ==> r is Err
            && parse_failure(choices.deep_view()[0]->0, r->Err_0@),
{
    assert(choices.len() > 0 ==> choices.deep_view()[0] == choices[0].deep_view());
    match first_choice(choices) {
        Ok(text) => {
            assert(choices.deep_view()[0] == Some(text@));
            CocktailData::parse_message(text.as_str())
        },
        Err(e) => {
            assert(choices.len() > 0 ==> choices.deep_view()[0] == choices[0].deep_view());
            Err(e)
        },
    }
}

} // verus!
