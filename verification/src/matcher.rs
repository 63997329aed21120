//! The ingredient matcher: which recipes hold requested ingredients, ranked
//! by how many of their lines match.

use crate::ingredients::{Ingredient, IngredientView};
use vstd::prelude::*;

verus! {

/// How well one recipe matches a request.
#[derive(Debug, Clone, Copy, PartialEq, Eq, Structural)]
pub struct Tally {
    /// The recipe.
    pub recipe: u128,
    /// How many of its ingredient lines carry a requested name.
    pub count: usize,
    /// Where, among the rows searched, its first such line stands.
    pub first: usize,
}

/// Whether `line` belongs to `recipe` and carries one of `names`. A name
/// listed twice counts as listed once.
pub open spec fn hit(names: Seq<Seq<char>>, recipe: u128, line: IngredientView) -> bool {
    names.contains(line.name) && line.cocktail_id == recipe
}

/// [`hit`] as a test on lines.
pub open spec fn hits(names: Seq<Seq<char>>, recipe: u128) -> spec_fn(IngredientView) -> bool {
    |line: IngredientView| hit(names, recipe, line)
}

/// The number of lines of `recipe` among `rows` that carry one of `names`.
pub open spec fn match_count(rows: Seq<IngredientView>, names: Seq<Seq<char>>, recipe: u128) -> nat {
    rows.filter(hits(names, recipe)).len()
}

/// Whether `t` is the tally of its recipe over `rows`: the count is the
/// recipe's match count, and `first` is the place of its first matching line.
pub open spec fn tallies(rows: Seq<IngredientView>, names: Seq<Seq<char>>, t: Tally) -> bool {
    &&& t.count == match_count(rows, names, t.recipe)
    &&& t.first < rows.len()
    &&& hit(names, t.recipe, rows[t.first as int])
    &&& forall|j: int| 0 <= j < t.first ==> !hit(names, t.recipe, #[trigger] rows[j])
}

/// The ranking order: the higher count first; of two equal counts, the recipe
/// whose first matching line stands earlier among the rows.
pub open spec fn precedes(a: Tally, b: Tally) -> bool {
    a.count > b.count || (a.count == b.count && a.first < b.first)
}

/// Whether `ranked` is the ranking of `rows` for `names`: it holds exactly
/// the recipes with at least one and at least `min_count` matching lines,
/// each once with its tally, in ranking order.
pub open spec fn is_ranking(
    rows: Seq<IngredientView>,
    names: Seq<Seq<char>>,
    min_count: usize,
    ranked: Seq<Tally>,
) -> bool {
    &&& forall|i: int|
        0 <= i < ranked.len() ==> tallies(rows, names, #[trigger] ranked[i]) && ranked[i].count
            >= min_count
    &&& forall|recipe: u128|
        1 <= #[trigger] match_count(rows, names, recipe) && min_count <= match_count(
            rows,
            names,
            recipe,
        ) ==> exists|i: int| 0 <= i < ranked.len() && (#[trigger] ranked[i]).recipe == recipe
    &&& forall|i: int, j: int|
        0 <= i < j < ranked.len() ==> precedes(#[trigger] ranked[i], #[trigger] ranked[j])
}

/// The ranking of `rows` for `names`. There is at most one
/// ([`lemma_ranking_unique`]), and [`rank_recipes`] computes it.
pub open spec fn ranking(rows: Seq<IngredientView>, names: Seq<Seq<char>>, min_count: usize) -> Seq<
    Tally,
> {
    choose|ranked: Seq<Tally>| is_ranking(rows, names, min_count, ranked)
}

/// Whether `s` stands in ranking order.
pub open spec fn in_order(s: Seq<Tally>) -> bool {
    forall|i: int, j: int| 0 <= i < j < s.len() ==> precedes(#[trigger] s[i], #[trigger] s[j])
}

/// The recipes of `ranked`, in the same order.
pub open spec fn recipes_of_tallies(ranked: Seq<Tally>) -> Seq<u128> {
    ranked.map_values(|t: Tally| t.recipe)
}

/// The page of `all` that starts after `offset` entries and holds at most
/// `limit` of them.
pub open spec fn page_of<A>(all: Seq<A>, offset: usize, limit: usize) -> Seq<A> {
    let lo = if offset <= all.len() {
        offset as int
    } else {
        all.len() as int
    };
    let hi = if lo + limit <= all.len() {
        lo + limit
    } else {
        all.len() as int
    };
    all.subrange(lo, hi)
}

/// One more row adds one to the count of the recipe it hits and nothing to
/// any other.
pub proof fn lemma_count_push(
    rows: Seq<IngredientView>,
    line: IngredientView,
    names: Seq<Seq<char>>,
    recipe: u128,
)
    ensures
        match_count(rows.push(line), names, recipe) == match_count(rows, names, recipe) + (if hit(
            names,
            recipe,
            line,
        ) {
            1nat
        } else {
            0nat
        }),
{
    rows.lemma_filter_push(line, hits(names, recipe));
}

/// A recipe's count is positive exactly where one of the rows hits it, and it
/// never exceeds the number of rows.
pub proof fn lemma_count_positive(rows: Seq<IngredientView>, names: Seq<Seq<char>>, recipe: u128)
    ensures
        match_count(rows, names, recipe) <= rows.len(),
        match_count(rows, names, recipe) >= 1 <==> exists|j: int|
            0 <= j < rows.len() && hit(names, recipe, #[trigger] rows[j]),
    decreases rows.len(),
{
    reveal_with_fuel(Seq::filter, 1);
    if rows.len() > 0 {
        let init = rows.drop_last();
        lemma_count_positive(init, names, recipe);
        assert(rows =~= init.push(rows.last()));
        lemma_count_push(init, rows.last(), names, recipe);
        if match_count(rows, names, recipe) >= 1 {
            if hit(names, recipe, rows.last()) {
                assert(hit(names, recipe, rows[rows.len() - 1]));
            } else {
                let j = choose|j: int| 0 <= j < init.len() && hit(names, recipe, #[trigger] init[j]);
                assert(hit(names, recipe, rows[j]));
            }
        }
        if exists|j: int| 0 <= j < rows.len() && hit(names, recipe, #[trigger] rows[j]) {
            let j = choose|j: int| 0 <= j < rows.len() && hit(names, recipe, #[trigger] rows[j]);
            if j < init.len() {
                assert(hit(names, recipe, init[j]));
            }
        }
    }
}

/// Two tallies of one recipe over the same rows are the same tally.
pub proof fn lemma_tally_unique(rows: Seq<IngredientView>, names: Seq<Seq<char>>, a: Tally, b: Tally)
    requires
        tallies(rows, names, a),
        tallies(rows, names, b),
        a.recipe == b.recipe,
    ensures
        a == b,
{
    if a.first < b.first {
        assert(!hit(names, b.recipe, rows[a.first as int]));
    }
    if b.first < a.first {
        assert(!hit(names, a.recipe, rows[b.first as int]));
    }
}

/// Two sequences in ranking order that hold the same tallies are equal.
proof fn lemma_sorted_same_members_equal(a: Seq<Tally>, b: Seq<Tally>)
    requires
        forall|i: int, j: int| 0 <= i < j < a.len() ==> precedes(#[trigger] a[i], #[trigger] a[j]),
        forall|i: int, j: int| 0 <= i < j < b.len() ==> precedes(#[trigger] b[i], #[trigger] b[j]),
        forall|i: int| 0 <= i < a.len() ==> b.contains(#[trigger] a[i]),
        forall|i: int| 0 <= i < b.len() ==> a.contains(#[trigger] b[i]),
    ensures
        a == b,
    decreases a.len(),
{
    if a.len() == 0 {
        if b.len() > 0 {
            assert(a.contains(b[0]));
        }
        assert(a =~= b);
    } else {
        assert(b.contains(a[0]));
        let j = choose|j: int| 0 <= j < b.len() && b[j] == a[0];
        assert(a.contains(b[0]));
        let k = choose|k: int| 0 <= k < a.len() && a[k] == b[0];
        if j > 0 {
            assert(precedes(b[0], b[j]));
            if k > 0 {
                assert(precedes(a[0], a[k]));
            }
        }
        assert(a[0] == b[0]);
        let ra = a.drop_first();
        let rb = b.drop_first();
        assert forall|i: int| 0 <= i < ra.len() implies rb.contains(#[trigger] ra[i]) by {
            assert(b.contains(a[i + 1]));
            let m = choose|m: int| 0 <= m < b.len() && b[m] == a[i + 1];
            assert(precedes(a[0], a[i + 1]));
            assert(m > 0);
            assert(rb[m - 1] == ra[i]);
        }
        assert forall|i: int| 0 <= i < rb.len() implies ra.contains(#[trigger] rb[i]) by {
            assert(a.contains(b[i + 1]));
            let m = choose|m: int| 0 <= m < a.len() && a[m] == b[i + 1];
            assert(precedes(b[0], b[i + 1]));
            assert(m > 0);
            assert(ra[m - 1] == rb[i]);
        }
        assert forall|i: int, j: int| 0 <= i < j < ra.len() implies precedes(
            #[trigger] ra[i],
            #[trigger] ra[j],
        ) by {
            assert(precedes(a[i + 1], a[j + 1]));
        }
        assert forall|i: int, j: int| 0 <= i < j < rb.len() implies precedes(
            #[trigger] rb[i],
            #[trigger] rb[j],
        ) by {
            assert(precedes(b[i + 1], b[j + 1]));
        }
        lemma_sorted_same_members_equal(ra, rb);
        assert(a =~= seq![a[0]] + ra);
        assert(b =~= seq![b[0]] + rb);
    }
}

/// A request has at most one ranking: the order leaves nothing open.
pub proof fn lemma_ranking_unique(
    rows: Seq<IngredientView>,
    names: Seq<Seq<char>>,
    min_count: usize,
    a: Seq<Tally>,
    b: Seq<Tally>,
)
    requires
        is_ranking(rows, names, min_count, a),
        is_ranking(rows, names, min_count, b),
    ensures
        a == b,
{
    assert forall|i: int| 0 <= i < a.len() implies b.contains(#[trigger] a[i]) by {
        lemma_count_positive(rows, names, a[i].recipe);
        assert(hit(names, a[i].recipe, rows[a[i].first as int]));
        let m = choose|m: int| 0 <= m < b.len() && (#[trigger] b[m]).recipe == a[i].recipe;
        lemma_tally_unique(rows, names, a[i], b[m]);
    }
    assert forall|i: int| 0 <= i < b.len() implies a.contains(#[trigger] b[i]) by {
        lemma_count_positive(rows, names, b[i].recipe);
        assert(hit(names, b[i].recipe, rows[b[i].first as int]));
        let m = choose|m: int| 0 <= m < a.len() && (#[trigger] a[m]).recipe == b[i].recipe;
        lemma_tally_unique(rows, names, b[i], a[m]);
    }
    lemma_sorted_same_members_equal(a, b);
}

/// No recipe in a ranking is below the threshold, and every recipe in it
/// matched at least once.
pub proof fn lemma_ranking_meets_threshold(
    rows: Seq<IngredientView>,
    names: Seq<Seq<char>>,
    min_count: usize,
    ranked: Seq<Tally>,
    i: int,
)
    requires
        is_ranking(rows, names, min_count, ranked),
        0 <= i < ranked.len(),
    ensures
        match_count(rows, names, ranked[i].recipe) >= min_count,
        match_count(rows, names, ranked[i].recipe) >= 1,
{
    lemma_count_positive(rows, names, ranked[i].recipe);
    assert(hit(names, ranked[i].recipe, rows[ranked[i].first as int]));
}

/// A ranking is monotonic: a recipe with a higher match count stands before
/// every recipe with a lower one.
pub proof fn lemma_ranking_monotonic(
    rows: Seq<IngredientView>,
    names: Seq<Seq<char>>,
    min_count: usize,
    ranked: Seq<Tally>,
    i: int,
    j: int,
)
    requires
        is_ranking(rows, names, min_count, ranked),
        0 <= i < ranked.len(),
        0 <= j < ranked.len(),
        match_count(rows, names, ranked[i].recipe) > match_count(rows, names, ranked[j].recipe),
    ensures
        i < j,
{
    if j < i {
        assert(precedes(ranked[j], ranked[i]));
    }
}

/// No recipe stands twice in a ranking.
pub proof fn lemma_ranking_distinct(
    rows: Seq<IngredientView>,
    names: Seq<Seq<char>>,
    min_count: usize,
    ranked: Seq<Tally>,
    i: int,
    j: int,
)
    requires
        is_ranking(rows, names, min_count, ranked),
        0 <= i < j < ranked.len(),
    ensures
        ranked[i].recipe != ranked[j].recipe,
{
    if ranked[i].recipe == ranked[j].recipe {
        lemma_tally_unique(rows, names, ranked[i], ranked[j]);
        assert(precedes(ranked[i], ranked[j]));
    }
}

/// The smallest number of matching lines with which a recipe is offered.
pub const MIN_MATCHES: usize = 1;

/// Puts `t` into `ranked` at its place in ranking order.
fn insert_in_order(ranked: &mut Vec<Tally>, t: Tally)
    requires
        in_order(old(ranked)@),
        forall|i: int| 0 <= i < old(ranked).len() ==> (#[trigger] old(ranked)[i]).first != t.first,
    ensures
        in_order(final(ranked)@),
        exists|p: int| 0 <= p <= old(ranked).len() && final(ranked)@ == old(ranked)@.insert(p, t),
{
    let mut p: usize = 0;
    while p < ranked.len() && (ranked[p].count > t.count || (ranked[p].count == t.count
        && ranked[p].first < t.first))
        invariant
            p <= ranked.len(),
            ranked@ == old(ranked)@,
            forall|a: int| 0 <= a < p ==> precedes(#[trigger] ranked[a], t),
        decreases ranked.len() - p,
    {
        p += 1;
    }
    let ghost before = ranked@;
    assert forall|b: int| p <= b < before.len() implies precedes(t, #[trigger] before[b]) by {
        if b > p {
            assert(precedes(before[p as int], before[b]));
        }
    }
    ranked.insert(p, t);
    assert forall|i: int, j: int| 0 <= i < j < ranked.len() implies precedes(
        #[trigger] ranked[i],
        #[trigger] ranked[j],
    ) by {
        if j < p {
            assert(precedes(before[i], before[j]));
        } else if j == p {
            assert(precedes(before[i], t));
        } else if i < p {
            assert(precedes(before[i], before[j - 1]));
        } else if i == p {
            assert(precedes(t, before[j - 1]));
        } else {
            assert(precedes(before[i - 1], before[j - 1]));
        }
    }
}

/// Groups the rows that carry a requested name by recipe: one tally per
/// recipe with at least one such line, in the order of their first lines.
fn tally_matches(rows: &Vec<Ingredient>, ns: &Vec<String>) -> (groups: Vec<Tally>)
    ensures
        forall|g: int|
            0 <= g < groups.len() ==> tallies(
                rows.deep_view(),
                ns.deep_view(),
                #[trigger] groups[g],
            ),
        forall|recipe: u128|
            1 <= #[trigger] match_count(rows.deep_view(), ns.deep_view(), recipe) ==> exists|g: int|
                0 <= g < groups.len() && (#[trigger] groups[g]).recipe == recipe,
        forall|g: int, h: int|
            0 <= g < h < groups.len() ==> (#[trigger] groups[g]).first < (#[trigger] groups[h]).first,
{
    let ghost all = rows.deep_view();
    let ghost names = ns.deep_view();
    let mut groups: Vec<Tally> = Vec::new();
    let mut i: usize = 0;
    proof {
        assert(all.take(0) =~= Seq::empty());
        assert forall|recipe: u128| match_count(all.take(0), names, recipe) == 0 by {
            lemma_count_positive(all.take(0), names, recipe);
        }
    }
    while i < rows.len()
        invariant
            i <= rows.len(),
            all == rows.deep_view(),
            names == ns.deep_view(),
            forall|g: int|
                0 <= g < groups.len() ==> tallies(all.take(i as int), names, #[trigger] groups[g]),
            forall|recipe: u128|
                1 <= #[trigger] match_count(all.take(i as int), names, recipe) ==> exists|g: int|
                    0 <= g < groups.len() && (#[trigger] groups[g]).recipe == recipe,
            forall|g: int, h: int|
                0 <= g < h < groups.len() ==> (#[trigger] groups[g]).first < (
                #[trigger] groups[h]).first,
        decreases rows.len() - i,
    {
        let ghost seen = all.take(i as int);
        let ghost line = all[i as int];
        let ghost old_groups = groups@;
        let owner = rows[i].cocktail_id;
        let named = Ingredient::is_named(&rows[i].name, ns);
        proof {
            assert(all.take(i + 1) =~= seen.push(line));
            assert(line == rows[i as int]@);
            assert forall|recipe: u128|
                match_count(all.take(i + 1), names, recipe) == #[trigger] match_count(
                    seen,
                    names,
                    recipe,
                ) + (if hit(names, recipe, line) {
                    1nat
                } else {
                    0nat
                }) by {
                lemma_count_push(seen, line, names, recipe);
            }
        }
        if named {
            let mut g: usize = 0;
            while g < groups.len() && groups[g].recipe != owner
                invariant
                    g <= groups.len(),
                    forall|h: int| 0 <= h < g ==> (#[trigger] groups[h]).recipe != owner,
                decreases groups.len() - g,
            {
                g += 1;
            }
            if g < groups.len() {
                let t = groups[g];
                proof {
                    lemma_count_positive(seen, names, owner);
                    assert forall|h: int| 0 <= h < groups.len() && h != g implies (
                    #[trigger] groups[h]).recipe != owner by {
                        if groups[h].recipe == owner {
                            lemma_tally_unique(seen, names, groups[h], groups[g as int]);
                        }
                    }
                }
                groups.set(g, Tally { recipe: t.recipe, count: t.count + 1, first: t.first });
            } else {
                proof {
                    lemma_count_positive(seen, names, owner);
                    if match_count(seen, names, owner) >= 1 {
                        let h = choose|h: int|
                            0 <= h < groups.len() && (#[trigger] groups[h]).recipe == owner;
                        assert(false);
                    }
                }
                groups.push(Tally { recipe: owner, count: 1, first: i });
            }
        }
        proof {
            let next = all.take(i + 1);
            assert forall|g: int| 0 <= g < groups.len() implies tallies(
                next,
                names,
                #[trigger] groups[g],
            ) by {
                let t = groups[g];
                if g < old_groups.len() {
                    let o = old_groups[g];
                    assert(tallies(seen, names, o));
                    assert(next[o.first as int] == seen[o.first as int]);
                    assert forall|j: int| 0 <= j < t.first implies !hit(
                        names,
                        t.recipe,
                        #[trigger] next[j],
                    ) by {
                        assert(next[j] == seen[j]);
                    }
                } else {
                    assert(next[i as int] == line);
                    assert forall|j: int| 0 <= j < t.first implies !hit(
                        names,
                        t.recipe,
                        #[trigger] next[j],
                    ) by {
                        assert(next[j] == seen[j]);
                    }
                }
            }
            assert forall|recipe: u128| 1 <= #[trigger] match_count(next, names, recipe) implies exists|
                g: int,
            |
                0 <= g < groups.len() && (#[trigger] groups[g]).recipe == recipe by {
                if match_count(seen, names, recipe) >= 1 {
                    let g = choose|g: int|
                        0 <= g < old_groups.len() && (#[trigger] old_groups[g]).recipe == recipe;
                    assert(groups[g].recipe == recipe);
                } else {
                    assert(hit(names, recipe, line));
                    if old_groups.len() < groups.len() {
                        assert(groups[groups.len() - 1].recipe == recipe);
                    } else {
                        let g = choose|g: int|
                            0 <= g < groups.len() && groups[g].recipe == owner && groups[g].count
                                != old_groups[g].count;
                        assert(groups[g].recipe == recipe);
                    }
                }
            }
        }
        i += 1;
    }
    proof {
        assert(all.take(rows.len() as int) =~= all);
    }
    groups
}

/// The ranking for a request: every recipe with at least one and at least
/// `min_count` lines among `rows` whose name is one of `ns`, the best match
/// first. Of two recipes with the same count, the one whose first matching
/// line stands earlier in `rows` comes first.
pub fn rank_recipes(rows: &Vec<Ingredient>, ns: &Vec<String>, min_count: usize) -> (ranked: Vec<
    Tally,
>)
    ensures
        is_ranking(rows.deep_view(), ns.deep_view(), min_count, ranked@),
        ranked@ == ranking(rows.deep_view(), ns.deep_view(), min_count),
{
    let ghost all = rows.deep_view();
    let ghost names = ns.deep_view();
    let groups = tally_matches(rows, ns);
    let mut ranked: Vec<Tally> = Vec::new();
    let mut k: usize = 0;
    while k < groups.len()
        invariant
            k <= groups.len(),
            in_order(ranked@),
            forall|g: int, h: int|
                0 <= g < h < groups.len() ==> (#[trigger] groups[g]).first < (
                #[trigger] groups[h]).first,
            forall|a: int|
                0 <= a < ranked.len() ==> (#[trigger] ranked[a]).count >= min_count && exists|g: int|
                    0 <= g < k && groups[g] == ranked[a],
            forall|g: int|
                0 <= g < k && (#[trigger] groups[g]).count >= min_count ==> ranked@.contains(
                    groups[g],
                ),
        decreases groups.len() - k,
    {
        let t = groups[k];
        if t.count >= min_count {
            let ghost before = ranked@;
            proof {
                assert forall|a: int| 0 <= a < ranked.len() implies (#[trigger] ranked[a]).first
                    != t.first by {
                    let g = choose|g: int| 0 <= g < k && groups[g] == ranked[a];
                    assert(groups[g].first < groups[k as int].first);
                }
            }
            insert_in_order(&mut ranked, t);
            proof {
                let p = choose|p: int| 0 <= p <= before.len() && ranked@ == before.insert(p, t);
                assert forall|a: int| 0 <= a < ranked.len() implies (#[trigger] ranked[a]).count
                    >= min_count && exists|g: int| 0 <= g < k + 1 && groups[g] == ranked[a] by {
                    if a < p {
                        assert(ranked[a] == before[a]);
                        let g = choose|g: int| 0 <= g < k && groups[g] == before[a];
                        assert(groups[g] == ranked[a]);
                    } else if a == p {
                        assert(groups[k as int] == ranked[a]);
                    } else {
                        assert(ranked[a] == before[a - 1]);
                        let g = choose|g: int| 0 <= g < k && groups[g] == before[a - 1];
                        assert(groups[g] == ranked[a]);
                    }
                }
                assert forall|g: int|
                    0 <= g < k + 1 && (#[trigger] groups[g]).count >= min_count implies ranked@.contains(
                    groups[g],
                ) by {
                    if g < k {
                        let a = choose|a: int| 0 <= a < before.len() && before[a] == groups[g];
                        if a < p {
                            assert(ranked[a] == groups[g]);
                        } else {
                            assert(ranked[a + 1] == groups[g]);
                        }
                    } else {
                        assert(ranked[p] == groups[g]);
                    }
                }
            }
        }
        k += 1;
    }
    proof {
        assert forall|i: int| 0 <= i < ranked.len() implies tallies(all, names, #[trigger] ranked[i])
            && ranked[i].count >= min_count by {
            let g = choose|g: int| 0 <= g < groups.len() && groups[g] == ranked[i];
            assert(tallies(all, names, groups[g]));
        }
        assert forall|recipe: u128|
            1 <= #[trigger] match_count(all, names, recipe) && min_count <= match_count(
                all,
                names,
                recipe,
            ) implies exists|i: int| 0 <= i < ranked.len() && (#[trigger] ranked[i]).recipe
            == recipe by {
            let g = choose|g: int| 0 <= g < groups.len() && (#[trigger] groups[g]).recipe == recipe;
            assert(tallies(all, names, groups[g]));
            assert(ranked@.contains(groups[g]));
            let i = choose|i: int| 0 <= i < ranked.len() && ranked[i] == groups[g];
            assert(ranked[i].recipe == recipe);
        }
        assert(is_ranking(all, names, min_count, ranked@));
        lemma_ranking_unique(all, names, min_count, ranked@, ranking(all, names, min_count));
    }
    ranked
}

/// The ingredient matcher: the page of recipe identifiers for a request.
/// The recipes of the ranking for `ns` are taken in order, the first
/// `offset` are passed over and at most `limit` are returned. An empty `ns`
/// matches nothing.
pub fn match_recipes(
    rows: &Vec<Ingredient>,
    ns: &Vec<String>,
    min_count: usize,
    offset: usize,
    limit: usize,
) -> (page: Vec<u128>)
    ensures
        page@ == page_of(
            recipes_of_tallies(ranking(rows.deep_view(), ns.deep_view(), min_count)),
            offset,
            limit,
        ),
        forall|i: int|
            0 <= i < page.len() ==> match_count(
                rows.deep_view(),
                ns.deep_view(),
                #[trigger] page[i],
            ) >= min_count,
        forall|i: int|
            0 <= i < page.len() ==> match_count(
                rows.deep_view(),
                ns.deep_view(),
                #[trigger] page[i],
            ) >= 1,
        forall|i: int, j: int|
            0 <= i < page.len() && 0 <= j < page.len() && match_count(
                rows.deep_view(),
                ns.deep_view(),
                #[trigger] page[i],
            ) > match_count(rows.deep_view(), ns.deep_view(), #[trigger] page[j]) ==> i < j,
        ns.len() == 0 ==> page.len() == 0,
{
    let ghost all = rows.deep_view();
    let ghost names = ns.deep_view();
    let ranked = rank_recipes(rows, ns, min_count);
    let lo: usize = if offset <= ranked.len() {
        offset
    } else {
        ranked.len()
    };
    let hi: usize = if limit <= ranked.len() - lo {
        lo + limit
    } else {
        ranked.len()
    };
    let mut page: Vec<u128> = Vec::new();
    let mut k: usize = lo;
    while k < hi
        invariant
            lo <= k <= hi <= ranked.len(),
            page.len() == k - lo,
            forall|a: int| 0 <= a < page.len() ==> #[trigger] page[a] == ranked[lo + a].recipe,
        decreases hi - k,
    {
        page.push(ranked[k].recipe);
        k += 1;
    }
    proof {
        assert(page@ =~= page_of(recipes_of_tallies(ranked@), offset, limit));
        assert forall|i: int| 0 <= i < page.len() implies match_count(
            all,
            names,
            #[trigger] page[i],
        ) >= min_count && match_count(all, names, page[i]) >= 1 by {
            lemma_ranking_meets_threshold(all, names, min_count, ranked@, lo + i);
        }
        assert forall|i: int, j: int|
            0 <= i < page.len() && 0 <= j < page.len() && match_count(
                all,
                names,
                #[trigger] page[i],
            ) > match_count(all, names, #[trigger] page[j]) implies i < j by {
            lemma_ranking_monotonic(all, names, min_count, ranked@, lo + i, lo + j);
        }
        if ns.len() == 0 && page.len() > 0 {
            lemma_ranking_meets_threshold(all, names, min_count, ranked@, lo as int);
            lemma_count_positive(all, names, ranked[lo as int].recipe);
            let j = choose|j: int|
                0 <= j < all.len() && hit(names, ranked[lo as int].recipe, #[trigger] all[j]);
            assert(names.contains(all[j].name));
        }
    }
    page
}

} // verus!
