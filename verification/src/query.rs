//! The request for generated recipes, and the reading of its
//! comma-separated ingredient list.

use vstd::prelude::*;
use vstd::string::StrSliceExecFns;

verus! {

/// A request for recipes that can be made from `ingredients`: the page that
/// starts after `pagestart` ranked recipes and holds at most `pagesize`.
#[derive(Debug, PartialEq)]
pub struct GenerateQuery {
    pub ingredients: Vec<String>,
    pub pagestart: usize,
    pub pagesize: usize,
}

/// A [`GenerateQuery`] with its names as character sequences.
pub struct GenerateQueryView {
    pub ingredients: Seq<Seq<char>>,
    pub pagestart: usize,
    pub pagesize: usize,
}

impl View for GenerateQuery {
    type V = GenerateQueryView;

    open spec fn view(&self) -> GenerateQueryView {
        GenerateQueryView {
            ingredients: self.ingredients.deep_view(),
            pagestart: self.pagestart,
            pagesize: self.pagesize,
        }
    }
}

/// The pieces of `text` between occurrences of `sep`. A text without `sep`
/// is one piece, the empty text too; a `sep` at either end leaves an empty
/// piece there.
pub open spec fn split(text: Seq<char>, sep: char) -> Seq<Seq<char>>
    decreases text.len(),
{
    if text.len() == 0 {
        seq![Seq::empty()]
    } else {
        let before = split(text.drop_last(), sep);
        if text.last() == sep {
            before.push(Seq::empty())
        } else {
            before.drop_last().push(before.last().push(text.last()))
        }
    }
}

/// The texts of `parts` in a row, with `sep` between neighbours.
pub open spec fn joined(parts: Seq<Seq<char>>, sep: char) -> Seq<char>
    decreases parts.len(),
{
    if parts.len() == 0 {
        Seq::empty()
    } else if parts.len() == 1 {
        parts[0]
    } else {
        joined(parts.drop_last(), sep).push(sep) + parts.last()
    }
}

/// Reads a comma-separated list: every comma ends one entry and starts the
/// next, and nothing is trimmed or dropped.
pub fn deserialize_stringified_list(v: &str) -> (names: Vec<String>)
    ensures
        names.deep_view() == split(v@, ','),
{
    let mut names: Vec<String> = Vec::new();
    let mut start: usize = 0;
    let mut i: usize = 0;
    let n = v.unicode_len();
    assert(v@.take(0) =~= Seq::empty());
    assert(v@.subrange(0, 0) =~= Seq::empty());
    assert(names.deep_view().push(Seq::empty()) =~= seq![Seq::<char>::empty()]);
    for c in it: v.chars()
        invariant
            n == v@.len(),
            it.seq() == v@,
            i == it.index(),
            start <= i <= n,
            split(v@.take(i as int), ',') == names.deep_view().push(
                v@.subrange(start as int, i as int),
            ),
    {
        proof {
            let seen = v@.take(i as int);
            assert(v@.take(i + 1).drop_last() =~= seen);
            assert(v@.take(i + 1).last() == c);
            let before = split(seen, ',');
            assert(before.drop_last() =~= names.deep_view());
        }
        if c == ',' {
            let ghost done = names.deep_view();
            names.push(v.substring_char(start, i).to_owned());
            assert(names.deep_view() =~= done.push(v@.subrange(start as int, i as int)));
            start = i + 1;
            assert(v@.subrange(start as int, i + 1) =~= Seq::empty());
        } else {
            assert(v@.subrange(start as int, i + 1) =~= v@.subrange(start as int, i as int).push(c));
        }
        i += 1;
    }
    assert(v@.take(n as int) =~= v@);
    let ghost done = names.deep_view();
    names.push(v.substring_char(start, n).to_owned());
    assert(names.deep_view() =~= done.push(v@.subrange(start as int, n as int)));
    names
}

/// A split always has a piece, and no piece holds the separator.
pub proof fn lemma_split_pieces(text: Seq<char>, sep: char)
    ensures
        split(text, sep).len() >= 1,
        forall|i: int, j: int|
            0 <= i < split(text, sep).len() && 0 <= j < split(text, sep)[i].len() ==> split(
                text,
                sep,
            )[i][j] != sep,
    decreases text.len(),
{
    if text.len() > 0 {
        lemma_split_pieces(text.drop_last(), sep);
    }
}

/// Joining the pieces of a split gives the text back.
pub proof fn lemma_join_split(text: Seq<char>, sep: char)
    ensures
        joined(split(text, sep), sep) == text,
    decreases text.len(),
{
    if text.len() == 0 {
        assert(joined(split(text, sep), sep) =~= text);
    } else {
        let init = text.drop_last();
        let before = split(init, sep);
        let pieces = split(text, sep);
        lemma_split_pieces(init, sep);
        lemma_join_split(init, sep);
        if text.last() == sep {
            assert(pieces.drop_last() =~= before);
            assert(joined(pieces, sep) =~= init.push(sep));
        } else if before.len() == 1 {
            assert(joined(pieces, sep) =~= init.push(text.last()));
        } else {
            assert(pieces.drop_last() =~= before.drop_last());
            assert(joined(pieces, sep) =~= joined(before, sep).push(text.last()));
        }
        assert(init.push(text.last()) =~= text);
    }
}

/// Text without the separator, put behind another text, lengthens the last
/// piece of that text's split and adds no piece.
pub proof fn lemma_split_append(text: Seq<char>, piece: Seq<char>, sep: char)
    requires
        !piece.contains(sep),
    ensures
        split(text + piece, sep) == split(text, sep).drop_last().push(
            split(text, sep).last() + piece,
        ),
    decreases piece.len(),
{
    lemma_split_pieces(text, sep);
    if piece.len() == 0 {
        assert(text + piece =~= text);
        assert(split(text, sep).last() + piece =~= split(text, sep).last());
        assert(split(text, sep).drop_last().push(split(text, sep).last()) =~= split(text, sep));
    } else {
        let shorter = piece.drop_last();
        assert(!shorter.contains(sep)) by {
            if shorter.contains(sep) {
                let k = choose|k: int| 0 <= k < shorter.len() && shorter[k] == sep;
                assert(piece[k] == sep);
            }
        }
        assert(piece.last() != sep) by {
            assert(piece[piece.len() - 1] == piece.last());
        }
        lemma_split_append(text, shorter, sep);
        assert((text + piece).drop_last() =~= text + shorter);
        assert((text + piece).last() == piece.last());
        let before = split(text + shorter, sep);
        assert(before.drop_last() =~= split(text, sep).drop_last());
        assert(before.last().push(piece.last()) =~= split(text, sep).last() + piece);
    }
}

/// Splitting a joined list gives the list back, provided that the list is
/// not empty and none of its texts holds the separator.
pub proof fn lemma_split_join(parts: Seq<Seq<char>>, sep: char)
    requires
        parts.len() >= 1,
        forall|i: int| 0 <= i < parts.len() ==> !(#[trigger] parts[i]).contains(sep),
    ensures
        split(joined(parts, sep), sep) == parts,
    decreases parts.len(),
{
    let empty = Seq::<char>::empty();
    if parts.len() == 1 {
        lemma_split_append(empty, parts[0], sep);
        assert(empty + parts[0] =~= parts[0]);
        assert(split(empty, sep) =~= seq![empty]);
        assert(seq![empty].drop_last().push(empty + parts[0]) =~= parts);
    } else {
        let init = parts.drop_last();
        assert forall|i: int| 0 <= i < init.len() implies !(#[trigger] init[i]).contains(sep) by {
            assert(init[i] == parts[i]);
        }
        lemma_split_join(init, sep);
        let head = joined(init, sep).push(sep);
        assert(head.drop_last() =~= joined(init, sep));
        assert(split(head, sep) == init.push(empty));
        lemma_split_append(head, parts.last(), sep);
        assert(init.push(empty).drop_last() =~= init);
        assert(empty + parts.last() =~= parts.last());
        assert(init.push(parts.last()) =~= parts);
    }
}

} // verus!
