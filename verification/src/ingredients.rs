//! Ingredient lines: the persisted row, its transfer form, and the maps
//! between the two.

use crate::external::{fresh_id, is_random_uuid};
use chrono::NaiveDateTime;
use vstd::prelude::*;

verus! {

/// One persisted ingredient line. It belongs to exactly one recipe.
#[derive(Debug, PartialEq)]
pub struct Ingredient {
    pub id: u128,
    pub name: String,
    pub measurement: String,
    pub cocktail_id: u128,
    pub created_at: Option<NaiveDateTime>,
    pub updated_at: Option<NaiveDateTime>,
}

/// The transfer form of an ingredient line: identifier and owner are absent
/// until the line is persisted.
#[derive(Debug, PartialEq)]
pub struct IngredientData {
    pub id: Option<u128>,
    pub name: String,
    pub measurement: String,
    pub cocktail_id: Option<u128>,
    pub created_at: Option<NaiveDateTime>,
    pub updated_at: Option<NaiveDateTime>,
}

/// What an [`Ingredient`] is, with its texts as character sequences.
pub struct IngredientView {
    pub id: u128,
    pub name: Seq<char>,
    pub measurement: Seq<char>,
    pub cocktail_id: u128,
    pub created_at: Option<NaiveDateTime>,
    pub updated_at: Option<NaiveDateTime>,
}

/// What an [`IngredientData`] is, with its texts as character sequences.
pub struct IngredientDataView {
    pub id: Option<u128>,
    pub name: Seq<char>,
    pub measurement: Seq<char>,
    pub cocktail_id: Option<u128>,
    pub created_at: Option<NaiveDateTime>,
    pub updated_at: Option<NaiveDateTime>,
}

impl View for Ingredient {
    type V = IngredientView;

    open spec fn view(&self) -> IngredientView {
        IngredientView {
            id: self.id,
            name: self.name@,
            measurement: self.measurement@,
            cocktail_id: self.cocktail_id,
            created_at: self.created_at,
            updated_at: self.updated_at,
        }
    }
}

impl DeepView for Ingredient {
    type V = IngredientView;

    open spec fn deep_view(&self) -> IngredientView {
        self@
    }
}

impl View for IngredientData {
    type V = IngredientDataView;

    open spec fn view(&self) -> IngredientDataView {
        IngredientDataView {
            id: self.id,
            name: self.name@,
            measurement: self.measurement@,
            cocktail_id: self.cocktail_id,
            created_at: self.created_at,
            updated_at: self.updated_at,
        }
    }
}

impl DeepView for IngredientData {
    type V = IngredientDataView;

    open spec fn deep_view(&self) -> IngredientDataView {
        self@
    }
}

impl IngredientView {
    /// The transfer form of a persisted line: every field kept, identifier
    /// and owner present.
    pub open spec fn to_data(self) -> IngredientDataView {
        IngredientDataView {
            id: Some(self.id),
            name: self.name,
            measurement: self.measurement,
            cocktail_id: Some(self.cocktail_id),
            created_at: self.created_at,
            updated_at: self.updated_at,
        }
    }
}

impl IngredientDataView {
    /// A freshly described ingredient: a name and a measurement, nothing else.
    pub open spec fn described(name: Seq<char>, measurement: Seq<char>) -> IngredientDataView {
        IngredientDataView {
            id: None,
            name,
            measurement,
            cocktail_id: None,
            created_at: None,
            updated_at: None,
        }
    }

    /// The line to persist for this record under recipe `owner`: its own
    /// identifier if it has one, else `fresh`; always owned by `owner`,
    /// whatever owner the record itself names.
    pub open spec fn to_line(self, fresh: u128, owner: u128) -> IngredientView {
        IngredientView {
            id: match self.id {
                Some(id) => id,
                None => fresh,
            },
            name: self.name,
            measurement: self.measurement,
            cocktail_id: owner,
            created_at: self.created_at,
            updated_at: self.updated_at,
        }
    }

    /// `line` is what persisting this record under `owner` may produce: it is
    /// `to_line` for some random identifier.
    pub open spec fn persisted_as(self, owner: u128, line: IngredientView) -> bool {
        &&& line == self.to_line(line.id, owner)
        &&& self.id is None ==> is_random_uuid(line.id)
    }
}

/// The transfer forms of a sequence of lines, in the same order.
pub open spec fn lines_to_data(lines: Seq<IngredientView>) -> Seq<IngredientDataView> {
    lines.map_values(|l: IngredientView| l.to_data())
}

/// `lines` is what persisting `records` under `owner` may produce: one line
/// per record, in order.
pub open spec fn lines_persist(
    records: Seq<IngredientDataView>,
    owner: u128,
    lines: Seq<IngredientView>,
) -> bool {
    &&& lines.len() == records.len()
    &&& forall|i: int|
        0 <= i < records.len() ==> (#[trigger] records[i]).persisted_as(owner, lines[i])
}

/// The test "recipe `owner` owns this line".
pub open spec fn owned_by(owner: u128) -> spec_fn(IngredientView) -> bool {
    |l: IngredientView| l.cocktail_id == owner
}

/// The test "this line's name is one of `names`".
pub open spec fn named_in(names: Seq<Seq<char>>) -> spec_fn(IngredientView) -> bool {
    |l: IngredientView| names.contains(l.name)
}

/// The lines among `rows` that recipe `owner` owns, in the order of `rows`.
pub open spec fn lines_of(rows: Seq<IngredientView>, owner: u128) -> Seq<IngredientView> {
    rows.filter(owned_by(owner))
}

/// The lines among `rows` whose name is one of `names`, in the order of
/// `rows`. Names are compared character by character, with no normalizing.
pub open spec fn lines_named(rows: Seq<IngredientView>, names: Seq<Seq<char>>) -> Seq<
    IngredientView,
> {
    rows.filter(named_in(names))
}

impl Clone for Ingredient {
    fn clone(&self) -> (r: Self)
        ensures
            r == *self,
    {
        Ingredient {
            id: self.id,
            name: self.name.clone(),
            measurement: self.measurement.clone(),
            cocktail_id: self.cocktail_id,
            created_at: self.created_at,
            updated_at: self.updated_at,
        }
    }
}

impl Clone for IngredientData {
    fn clone(&self) -> (r: Self)
        ensures
            r == *self,
    {
        IngredientData {
            id: self.id,
            name: self.name.clone(),
            measurement: self.measurement.clone(),
            cocktail_id: self.cocktail_id,
            created_at: self.created_at,
            updated_at: self.updated_at,
        }
    }
}

impl From<(String, String)> for IngredientData {
    fn from(tuple: (String, String)) -> (r: Self) {
        IngredientData {
            id: None,
            name: tuple.0,
            measurement: tuple.1,
            cocktail_id: None,
            created_at: None,
            updated_at: None,
        }
    }
}

impl vstd::std_specs::convert::FromSpecImpl<(String, String)> for IngredientData {
    open spec fn obeys_from_spec() -> bool {
        true
    }

    open spec fn from_spec(tuple: (String, String)) -> Self {
        IngredientData {
            id: None,
            name: tuple.0,
            measurement: tuple.1,
            cocktail_id: None,
            created_at: None,
            updated_at: None,
        }
    }
}

impl From<Ingredient> for IngredientData {
    fn from(ingredient: Ingredient) -> (r: Self) {
        IngredientData {
            id: Some(ingredient.id),
            name: ingredient.name,
            measurement: ingredient.measurement,
            cocktail_id: Some(ingredient.cocktail_id),
            created_at: ingredient.created_at,
            updated_at: ingredient.updated_at,
        }
    }
}

impl vstd::std_specs::convert::FromSpecImpl<Ingredient> for IngredientData {
    open spec fn obeys_from_spec() -> bool {
        true
    }

    open spec fn from_spec(ingredient: Ingredient) -> Self {
        IngredientData {
            id: Some(ingredient.id),
            name: ingredient.name,
            measurement: ingredient.measurement,
            cocktail_id: Some(ingredient.cocktail_id),
            created_at: ingredient.created_at,
            updated_at: ingredient.updated_at,
        }
    }
}

impl Ingredient {
    /// The transfer form of a persisted line.
    pub fn map_ingredient_to_data(ins: &Ingredient) -> (r: IngredientData)
        ensures
            r@ == ins@.to_data(),
    {
        IngredientData {
            id: Some(ins.id),
            name: ins.name.clone(),
            measurement: ins.measurement.clone(),
            cocktail_id: Some(ins.cocktail_id),
            created_at: ins.created_at,
            updated_at: ins.updated_at,
        }
    }

    /// The transfer forms of all `ins`, in the same order.
    pub fn map_ingredients_to_data(ins: Vec<Ingredient>) -> (r: Vec<IngredientData>)
        ensures
            r.deep_view() == lines_to_data(ins.deep_view()),
    {
        let mut out: Vec<IngredientData> = Vec::new();
        let mut i: usize = 0;
        while i < ins.len()
            invariant
                i <= ins.len(),
                out.len() == i,
                forall|j: int| 0 <= j < i ==> out[j]@ == ins[j]@.to_data(),
            decreases ins.len() - i,
        {
            out.push(Ingredient::map_ingredient_to_data(&ins[i]));
            i += 1;
        }
        assert(out.deep_view() =~= lines_to_data(ins.deep_view()));
        out
    }

    /// The lines among `rows` that recipe `c_id` owns, in the order of `rows`.
    pub fn get_ingredients_by_cocktail_id(rows: &Vec<Ingredient>, c_id: &u128) -> (r: Vec<
        Ingredient,
    >)
        ensures
            r.deep_view() == lines_of(rows.deep_view(), *c_id),
    {
        let mut out: Vec<Ingredient> = Vec::new();
        let mut i: usize = 0;
        assert(rows.deep_view().take(0) =~= Seq::empty());
        reveal_with_fuel(Seq::filter, 1);
        while i < rows.len()
            invariant
                i <= rows.len(),
                out.deep_view() == lines_of(rows.deep_view().take(i as int), *c_id),
            decreases rows.len() - i,
        {
            proof {
                let all = rows.deep_view();
                assert(all.take(i + 1) =~= all.take(i as int).push(rows[i as int]@));
                all.take(i as int).lemma_filter_push(rows[i as int]@, owned_by(*c_id));
            }
            if rows[i].cocktail_id == *c_id {
                let ghost before = out.deep_view();
                out.push(rows[i].clone());
                assert(out.deep_view() =~= before.push(rows[i as int]@));
            }
            i += 1;
        }
        assert(rows.deep_view().take(rows.len() as int) =~= rows.deep_view());
        out
    }

    /// Whether `name` is one of `ns`.
    pub fn is_named(name: &String, ns: &Vec<String>) -> (r: bool)
        ensures
            r == ns.deep_view().contains(name@),
    {
        let mut k: usize = 0;
        while k < ns.len()
            invariant
                k <= ns.len(),
                forall|j: int| 0 <= j < k ==> ns[j]@ != name@,
            decreases ns.len() - k,
        {
            if ns[k] == *name {
                assert(ns.deep_view()[k as int] == name@);
                return true;
            }
            k += 1;
        }
        false
    }

    /// The lines among `rows` whose name is one of `ns`, in the order of
    /// `rows`. An empty `ns` selects nothing.
    pub fn get_ingredients_by_names(rows: &Vec<Ingredient>, ns: &Vec<String>) -> (r: Vec<
        Ingredient,
    >)
        ensures
            r.deep_view() == lines_named(rows.deep_view(), ns.deep_view()),
    {
        let mut out: Vec<Ingredient> = Vec::new();
        let mut i: usize = 0;
        assert(rows.deep_view().take(0) =~= Seq::empty());
        reveal_with_fuel(Seq::filter, 1);
        while i < rows.len()
            invariant
                i <= rows.len(),
                out.deep_view() == lines_named(rows.deep_view().take(i as int), ns.deep_view()),
            decreases rows.len() - i,
        {
            proof {
                let all = rows.deep_view();
                assert(all.take(i + 1) =~= all.take(i as int).push(rows[i as int]@));
                all.take(i as int).lemma_filter_push(rows[i as int]@, named_in(ns.deep_view()));
            }
            if Ingredient::is_named(&rows[i].name, ns) {
                let ghost before = out.deep_view();
                out.push(rows[i].clone());
                assert(out.deep_view() =~= before.push(rows[i as int]@));
            }
            i += 1;
        }
        assert(rows.deep_view().take(rows.len() as int) =~= rows.deep_view());
        out
    }

    /// The line to persist for `ins` under recipe `c_id`, with `fresh` as the
    /// identifier to use if `ins` has none.
    pub fn map_data_with_id(ins: &IngredientData, fresh: u128, c_id: &u128) -> (r: Ingredient)
        ensures
            r@ == ins@.to_line(fresh, *c_id),
    {
        Ingredient {
            id: match ins.id {
                Some(id) => id,
                None => fresh,
            },
            name: ins.name.clone(),
            measurement: ins.measurement.clone(),
            cocktail_id: *c_id,
            created_at: ins.created_at,
            updated_at: ins.updated_at,
        }
    }

    /// The line to persist for `ins` under recipe `c_id`. A record without
    /// an identifier gets a random one.
    pub fn map_data_to_ingredient(ins: &IngredientData, c_id: &u128) -> (r: Ingredient)
        ensures
            ins@.persisted_as(*c_id, r@),
    {
        let fresh = fresh_id();
        Ingredient::map_data_with_id(ins, fresh, c_id)
    }

    /// The lines to persist for all `ins` under recipe `c_id`, in the same
    /// order.
    pub fn map_data_to_ingredients(ins: Vec<IngredientData>, c_id: &u128) -> (r: Vec<Ingredient>)
        ensures
            lines_persist(ins.deep_view(), *c_id, r.deep_view()),
    {
        let mut out: Vec<Ingredient> = Vec::new();
        let mut i: usize = 0;
        while i < ins.len()
            invariant
                i <= ins.len(),
                out.len() == i,
                forall|j: int| 0 <= j < i ==> (#[trigger] ins[j])@.persisted_as(*c_id, out[j]@),
            decreases ins.len() - i,
        {
            out.push(Ingredient::map_data_to_ingredient(&ins[i], c_id));
            i += 1;
        }
        out
    }

    /// The line that `ins` describes, for a record that already names its
    /// owner. A record without an identifier gets a random one.
    pub fn from_data(ins: IngredientData) -> (r: Ingredient)
        requires
            ins.cocktail_id is Some,
        ensures
            ins@.persisted_as(ins.cocktail_id->0, r@),
    {
        let owner = ins.cocktail_id.unwrap();
        Ingredient::map_data_to_ingredient(&ins, &owner)
    }
}

} // verus!
