//! Paths as Windows writes them.

use crate::utf16::{
    lemma_decode_across, lemma_decode_encode, lossy_text, text_units, to_string_lossy,
};
use vstd::prelude::*;

verus! {

/// Appends a character, by `String::push`.
pub assume_specification[ String::push ](text: &mut String, c: char)
    ensures
        final(text)@ == old(text)@.push(c),
;

pub open spec fn is_separator(c: char) -> bool {
    c == '\\' || c == '/'
}

/// What stands between the separators, empty pieces included.
pub open spec fn pieces(text: Seq<char>) -> Seq<Seq<char>>
    decreases text.len(),
{
    if text.len() == 0 {
        seq![Seq::empty()]
    } else {
        let before = pieces(text.drop_last());
        if is_separator(text.last()) {
            before.push(Seq::empty())
        } else {
            before.drop_last().push(before.last().push(text.last()))
        }
    }
}

/// Whether a piece names something: an empty piece and a lone dot do not.
pub open spec fn names_something(piece: Seq<char>) -> bool {
    piece.len() > 0 && piece != seq!['.']
}

/// The components of a path, from the root down.
pub open spec fn components(text: Seq<char>) -> Seq<Seq<char>> {
    pieces(text).filter(|piece: Seq<char>| names_something(piece))
}

/// The texts of a list of strings.
pub open spec fn texts(strings: Seq<String>) -> Seq<Seq<char>> {
    strings.map_values(|string: String| string@)
}

/// The components of a path that is given in UTF-16.
pub open spec fn path_names(file_name: Seq<u16>) -> Seq<Seq<char>> {
    components(lossy_text(file_name))
}

/// The components of a path that is given in UTF-16.
pub fn path_components(file_name: &[u16]) -> (names: Vec<String>)
    ensures
        texts(names@) == path_names(file_name@),
{
    let text = to_string_lossy(file_name);
    split_path(text.as_str())
}

/// The components of a path.
pub fn split_path(text: &str) -> (names: Vec<String>)
    ensures
        texts(names@) == components(text@),
{
    let mut names: Vec<String> = Vec::new();
    let mut piece = String::new();
    let ghost mut seen: Seq<char> = Seq::empty();
    let ghost keep = |piece: Seq<char>| names_something(piece);
    proof {
        assert(texts(names@) == Seq::<Seq<char>>::empty());
        assert(pieces(seen).drop_last() == Seq::<Seq<char>>::empty());
        assert(Seq::<Seq<char>>::empty().filter(keep) == Seq::<Seq<char>>::empty());
    }
    for c in chars: text.chars()
        invariant
            chars.seq() == text@,
            seen == text@.take(chars.index() as int),
            keep == (|piece: Seq<char>| names_something(piece)),
            pieces(seen).len() > 0,
            piece@ == pieces(seen).last(),
            texts(names@) == pieces(seen).drop_last().filter(keep),
    {
        let ghost before = pieces(seen);
        proof {
            assert(text@.take(chars.index() + 1).drop_last() == seen);
            seen = seen.push(c);
            assert(seen == text@.take(chars.index() + 1));
        }
        if c == '\\' || c == '/' {
            keep_piece(&mut names, piece);
            piece = String::new();
            proof {
                assert(pieces(seen).drop_last() == before);
                lemma_filter_last(before, keep);
            }
        } else {
            piece.push(c);
            proof {
                assert(pieces(seen).drop_last() == before.drop_last());
            }
        }
    }
    assert(seen == text@);
    keep_piece(&mut names, piece);
    proof {
        lemma_filter_last(pieces(text@), keep);
    }
    names
}

/// Lists a piece if it names something.
fn keep_piece(names: &mut Vec<String>, piece: String)
    ensures
        texts(final(names)@) == if names_something(piece@) {
            texts(old(names)@).push(piece@)
        } else {
            texts(old(names)@)
        },
{
    proof {
        reveal_strlit(".");
        assert("."@ == seq!['.']);
    }
    let dot = ".".to_owned();
    if !piece.as_str().is_empty() && piece != dot {
        names.push(piece);
        assert(texts(names@) == texts(old(names)@).push(piece@));
    }
}

/// Filtering a sequence is filtering all but its last item, then adding that one if it passes.
proof fn lemma_filter_last<A>(items: Seq<A>, keep: spec_fn(A) -> bool)
    requires
        items.len() > 0,
    ensures
        items.filter(keep) == if keep(items.last()) {
            items.drop_last().filter(keep).push(items.last())
        } else {
            items.drop_last().filter(keep)
        },
{
    reveal(Seq::filter);
}

/// Splitting at a separator splits what stands before it and what stands behind it.
proof fn lemma_pieces_append(front: Seq<char>, separator: char, back: Seq<char>)
    requires
        is_separator(separator),
    ensures
        pieces(front.push(separator) + back) == pieces(front) + pieces(back),
        pieces(back).len() > 0,
    decreases back.len(),
{
    let whole = front.push(separator) + back;
    if back.len() == 0 {
        assert(whole == front.push(separator));
        assert(whole.drop_last() == front);
        assert(pieces(whole) == pieces(front) + pieces(back));
    } else {
        lemma_pieces_append(front, separator, back.drop_last());
        assert(whole.drop_last() == front.push(separator) + back.drop_last());
        let before = pieces(back.drop_last());
        assert((pieces(front) + before).drop_last() == pieces(front) + before.drop_last());
        assert(pieces(whole) == pieces(front) + pieces(back));
    }
}

/// The components of a path are those before a separator and then those behind it, at
/// whichever separator the path is cut.
pub proof fn lemma_components_append(front: Seq<char>, separator: char, back: Seq<char>)
    requires
        is_separator(separator),
    ensures
        components(front.push(separator) + back) == components(front) + components(back),
{
    lemma_pieces_append(front, separator, back);
    Seq::filter_distributes_over_add(
        pieces(front),
        pieces(back),
        |piece: Seq<char>| names_something(piece),
    );
}

/// No piece holds a separator.
proof fn lemma_pieces_hold_no_separator(text: Seq<char>)
    ensures
        pieces(text).len() > 0,
        forall|i: int, j: int|
            0 <= i < pieces(text).len() && 0 <= j < pieces(text)[i].len() ==> !is_separator(
                #[trigger] pieces(text)[i][j],
            ),
    decreases text.len(),
{
    if text.len() > 0 {
        lemma_pieces_hold_no_separator(text.drop_last());
    }
}

/// No component is empty, is a lone dot or holds a separator.
pub proof fn lemma_components_are_names(text: Seq<char>, i: int)
    requires
        0 <= i < components(text).len(),
    ensures
        names_something(components(text)[i]),
        forall|j: int|
            0 <= j < components(text)[i].len() ==> !is_separator(
                #[trigger] components(text)[i][j],
            ),
{
    let keep = |piece: Seq<char>| names_something(piece);
    lemma_pieces_hold_no_separator(text);
    pieces(text).lemma_filter_pred(keep, i);
    pieces(text).lemma_filter_contains_rev(keep, components(text)[i]);
}

/// The path that lists names, each behind a backslash.
pub open spec fn joined(names: Seq<Seq<char>>) -> Seq<char>
    decreases names.len(),
{
    if names.len() == 0 {
        Seq::empty()
    } else {
        joined(names.drop_last()).push('\\') + names.last()
    }
}

/// A text without separators is one piece.
proof fn lemma_single_piece(name: Seq<char>)
    requires
        forall|j: int| 0 <= j < name.len() ==> !is_separator(#[trigger] name[j]),
    ensures
        pieces(name) == seq![name],
    decreases name.len(),
{
    if name.len() > 0 {
        let front = name.drop_last();
        assert forall|j: int| 0 <= j < front.len() implies !is_separator(#[trigger] front[j]) by {
            assert(front[j] == name[j]);
        }
        lemma_single_piece(front);
        assert(front.push(name.last()) == name);
        assert(!is_separator(name[name.len() - 1]));
        assert(pieces(name) == seq![name]);
    } else {
        assert(name == Seq::<char>::empty());
    }
}

/// A path that lists proper names has those names, in that order, for its components. The
/// root has none.
pub proof fn lemma_components_of_joined(names: Seq<Seq<char>>)
    requires
        forall|i: int| 0 <= i < names.len() ==> names_something(#[trigger] names[i]),
        forall|i: int, j: int|
            0 <= i < names.len() && 0 <= j < names[i].len() ==> !is_separator(
                #[trigger] names[i][j],
            ),
    ensures
        components(joined(names)) == names,
        components(joined(names).push('\\')) == names,
    decreases names.len(),
{
    let keep = |piece: Seq<char>| names_something(piece);
    reveal_with_fuel(Seq::filter, 2);
    assert(components(Seq::empty()) == Seq::<Seq<char>>::empty()) by {
        assert(pieces(Seq::<char>::empty()).drop_last() == Seq::<Seq<char>>::empty());
        lemma_filter_last(pieces(Seq::<char>::empty()), keep);
    }
    if names.len() > 0 {
        let front = names.drop_last();
        assert forall|i: int, j: int|
            0 <= i < front.len() && 0 <= j < front[i].len() implies !is_separator(
            #[trigger] front[i][j],
        ) by {
            assert(front[i][j] == names[i][j]);
        }
        lemma_components_of_joined(front);
        lemma_components_append(joined(front), '\\', names.last());
        lemma_single_piece(names.last());
        assert(components(names.last()) == seq![names.last()]) by {
            assert(seq![names.last()].drop_last() == Seq::<Seq<char>>::empty());
            lemma_filter_last(seq![names.last()], keep);
        }
        assert(front + seq![names.last()] == names);
    }
    lemma_components_append(joined(names), '\\', Seq::empty());
    assert(joined(names).push('\\') + Seq::<char>::empty() == joined(names).push('\\'));
    assert(names + Seq::<Seq<char>>::empty() == names);
}

/// Whether a unit is a separator.
pub open spec fn is_separator_unit(unit: u16) -> bool {
    unit == 0x5C || unit == 0x2F
}

/// The components of a path in UTF-16 are those before a separator and then those behind it,
/// at whichever separator the path is cut and whatever stands there, unpaired surrogates
/// included.
pub proof fn lemma_path_names_append(front: Seq<u16>, separator: u16, back: Seq<u16>)
    requires
        is_separator_unit(separator),
    ensures
        path_names(front.push(separator) + back) == path_names(front) + path_names(back),
{
    lemma_decode_across(front, separator, back);
    lemma_components_append(lossy_text(front), separator as char, lossy_text(back));
}

/// A path in UTF-16 that lists proper names has those names, in that order, for its
/// components.
pub proof fn lemma_path_names_of_joined(names: Seq<Seq<char>>)
    requires
        forall|i: int| 0 <= i < names.len() ==> names_something(#[trigger] names[i]),
        forall|i: int, j: int|
            0 <= i < names.len() && 0 <= j < names[i].len() ==> !is_separator(
                #[trigger] names[i][j],
            ),
    ensures
        path_names(text_units(joined(names))) == names,
        path_names(text_units(joined(names).push('\\'))) == names,
{
    lemma_components_of_joined(names);
    lemma_decode_encode(joined(names));
    lemma_decode_encode(joined(names).push('\\'));
}

/// A text without separators is its only component, unless it is empty or a lone dot: then it
/// has none.
pub proof fn lemma_components_of_piece(text: Seq<char>)
    requires
        forall|i: int| 0 <= i < text.len() ==> text[i] != '\\' && #[trigger] text[i] != '/',
    ensures
        components(text) == if text.len() == 0 || text == seq!['.'] {
            Seq::<Seq<char>>::empty()
        } else {
            seq![text]
        },
{
    let keep = |piece: Seq<char>| names_something(piece);
    lemma_single_piece(text);
    lemma_filter_last(seq![text], keep);
    assert(seq![text].drop_last() == Seq::<Seq<char>>::empty());
    reveal(Seq::filter);
}

/// The texts of strings are theirs, one for one.
pub proof fn lemma_texts(strings: Seq<String>)
    ensures
        texts(strings).len() == strings.len(),
        forall|i: int| 0 <= i < strings.len() ==> #[trigger] texts(strings)[i] == strings[i]@,
{
}

} // verus!
