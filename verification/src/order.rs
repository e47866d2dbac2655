//! The order of directory entries: by name, and as they come where names are equal.

use crate::protocol::{shown, DirEntry};
use vstd::prelude::*;

verus! {

/// The order of texts: by the first character in which they differ, and a text before those
/// that it begins.
pub open spec fn text_le(left: Seq<char>, right: Seq<char>) -> bool
    decreases left.len(),
{
    if left.len() == 0 {
        true
    } else if right.len() == 0 {
        false
    } else if left[0] != right[0] {
        (left[0] as int) < (right[0] as int)
    } else {
        text_le(left.skip(1), right.skip(1))
    }
}

/// Compares two strings, by `<=` of `str`, which orders strings by their bytes. Claims that
/// this is the order of their characters by code point.
#[verifier::external_body]
pub(crate) fn not_after(left: &str, right: &str) -> (ordered: bool)
    ensures
        ordered == text_le(left@, right@),
{
    left <= right
}

/// Any two texts are in order one way or the other, and both ways only if they are the same.
pub proof fn lemma_text_le_total(left: Seq<char>, right: Seq<char>)
    ensures
        text_le(left, right) || text_le(right, left),
        text_le(left, right) && text_le(right, left) <==> left == right,
    decreases left.len(),
{
    if left.len() > 0 && right.len() > 0 && left[0] == right[0] {
        lemma_text_le_total(left.skip(1), right.skip(1));
        if left.skip(1) == right.skip(1) {
            assert(left == seq![left[0]] + left.skip(1));
            assert(right == seq![right[0]] + right.skip(1));
        }
    } else if left.len() == 0 && right.len() == 0 {
        assert(left == right);
    }
}

/// The order of texts is transitive.
pub proof fn lemma_text_le_transitive(first: Seq<char>, second: Seq<char>, third: Seq<char>)
    requires
        text_le(first, second),
        text_le(second, third),
    ensures
        text_le(first, third),
    decreases first.len(),
{
    if first.len() > 0 && first[0] == second[0] && second[0] == third[0] {
        lemma_text_le_transitive(first.skip(1), second.skip(1), third.skip(1));
    }
}

pub type Entries = Seq<DirEntry<Seq<char>>>;

/// Whether entries are ordered by name.
pub open spec fn ordered(entries: Entries) -> bool {
    forall|i: int, j: int|
        0 <= i <= j < entries.len() ==> text_le(
            (#[trigger] entries[i]).name,
            (#[trigger] entries[j]).name,
        )
}

/// Whether an entry has a given name.
pub open spec fn has_name(name: Seq<char>) -> spec_fn(DirEntry<Seq<char>>) -> bool {
    |entry: DirEntry<Seq<char>>| entry.name == name
}

/// The entries of a given name, as they come.
pub open spec fn named(entries: Entries, name: Seq<char>) -> Entries {
    entries.filter(has_name(name))
}

/// Two ordered lists in one; of equal names those of the first list come first.
pub open spec fn merged(left: Entries, right: Entries) -> Entries
    decreases left.len() + right.len(),
{
    if right.len() == 0 {
        left
    } else if left.len() == 0 {
        right
    } else if text_le(left.last().name, right.last().name) {
        merged(left, right.drop_last()).push(right.last())
    } else {
        merged(left.drop_last(), right).push(left.last())
    }
}

/// The entries ordered by name; those of equal names stay as they come.
pub open spec fn sorted(entries: Entries) -> Entries
    decreases entries.len(),
{
    if entries.len() == 0 {
        entries
    } else {
        merged(sorted(entries.drop_last()), seq![entries.last()])
    }
}

proof fn lemma_named_push(entries: Entries, entry: DirEntry<Seq<char>>, name: Seq<char>)
    ensures
        named(entries.push(entry), name) == if entry.name == name {
            named(entries, name).push(entry)
        } else {
            named(entries, name)
        },
{
    reveal(Seq::filter);
    assert(entries.push(entry).drop_last() == entries);
}

proof fn lemma_named_last(entries: Entries, name: Seq<char>)
    requires
        entries.len() > 0,
    ensures
        named(entries, name) == if entries.last().name == name {
            named(entries.drop_last(), name).push(entries.last())
        } else {
            named(entries.drop_last(), name)
        },
{
    lemma_named_push(entries.drop_last(), entries.last(), name);
    assert(entries == entries.drop_last().push(entries.last()));
}

/// The list that two ordered lists make is ordered and holds, of every name, the entries of
/// the first and then those of the second.
pub proof fn lemma_merged(left: Entries, right: Entries)
    requires
        ordered(left),
        ordered(right),
    ensures
        ordered(merged(left, right)),
        merged(left, right).len() == left.len() + right.len(),
        forall|name: Seq<char>|
            #[trigger] named(merged(left, right), name) == named(left, name) + named(right, name),
    decreases left.len() + right.len(),
{
    let whole = merged(left, right);
    if left.len() == 0 || right.len() == 0 {
        assert forall|name: Seq<char>| #[trigger]
            named(whole, name) == named(left, name) + named(right, name) by {
            reveal(Seq::filter);
        }
    } else if text_le(left.last().name, right.last().name) {
        let rest = right.drop_last();
        lemma_merged(left, rest);
        lemma_merged_push(left, rest, right.last());
        assert forall|name: Seq<char>| #[trigger]
            named(whole, name) == named(left, name) + named(right, name) by {
            lemma_named_push(merged(left, rest), right.last(), name);
            lemma_named_last(right, name);
            assert(named(merged(left, rest), name) == named(left, name) + named(rest, name));
        }
    } else {
        let rest = left.drop_last();
        lemma_text_le_total(left.last().name, right.last().name);
        lemma_merged(rest, right);
        lemma_merged_push(rest, right, left.last());
        assert forall|name: Seq<char>| #[trigger]
            named(whole, name) == named(left, name) + named(right, name) by {
            lemma_named_push(merged(rest, right), left.last(), name);
            lemma_named_last(left, name);
            assert(named(merged(rest, right), name) == named(rest, name) + named(right, name));
            if left.last().name == name {
                lemma_none_named(right, name);
            }
        }
    }
}

/// No entry of a list whose last name comes before another has that other name.
proof fn lemma_none_named(entries: Entries, name: Seq<char>)
    requires
        ordered(entries),
        entries.len() > 0,
        !text_le(name, entries.last().name),
    ensures
        named(entries, name) == Entries::empty(),
{
    let found = named(entries, name);
    if found.len() > 0 {
        entries.lemma_filter_pred(has_name(name), 0);
        entries.lemma_filter_contains_rev(has_name(name), found[0]);
        assert(found.contains(found[0]));
        let i = choose|i: int| 0 <= i < entries.len() && entries[i] == found[0];
        assert(text_le(entries[i].name, entries[entries.len() - 1].name));
        assert(false);
    }
}

/// What is made of two lists stays ordered with an entry that comes after both.
proof fn lemma_merged_push(left: Entries, right: Entries, entry: DirEntry<Seq<char>>)
    requires
        ordered(merged(left, right)),
        left.len() > 0 ==> text_le(left.last().name, entry.name),
        right.len() > 0 ==> text_le(right.last().name, entry.name),
    ensures
        ordered(merged(left, right).push(entry)),
{
    let whole = merged(left, right);
    let name = entry.name;
    assert forall|i: int| 0 <= i < whole.len() implies text_le(
        (#[trigger] whole[i]).name,
        name,
    ) by {
        assert(text_le(whole[i].name, whole[whole.len() - 1].name));
        lemma_text_le_transitive(whole[i].name, whole.last().name, name);
    }
    lemma_text_le_total(name, name);
}

/// Sorting orders the entries by name and keeps, of every name, the entries as they come.
pub proof fn lemma_sorted(entries: Entries)
    ensures
        ordered(sorted(entries)),
        sorted(entries).len() == entries.len(),
        forall|name: Seq<char>| #[trigger] named(sorted(entries), name) == named(entries, name),
    decreases entries.len(),
{
    if entries.len() > 0 {
        let before = entries.drop_last();
        let last = seq![entries.last()];
        lemma_sorted(before);
        lemma_text_le_total(entries.last().name, entries.last().name);
        lemma_merged(sorted(before), last);
        assert forall|name: Seq<char>| #[trigger]
            named(sorted(entries), name) == named(entries, name) by {
            assert(named(sorted(before), name) == named(before, name));
            lemma_named_last(entries, name);
            lemma_named_last(last, name);
            assert(last.drop_last() == Entries::empty());
            assert(named(Entries::empty(), name) == Entries::empty()) by {
                reveal(Seq::filter);
            }
        }
    }
}

/// Sorting neither adds nor drops an entry.
pub proof fn lemma_sorted_keeps(entries: Entries, entry: DirEntry<Seq<char>>)
    ensures
        sorted(entries).contains(entry) <==> entries.contains(entry),
{
    lemma_sorted(entries);
    lemma_named_holds(entries, entry);
    lemma_named_holds(sorted(entries), entry);
    assert(named(sorted(entries), entry.name) == named(entries, entry.name));
}

proof fn lemma_named_holds(entries: Entries, entry: DirEntry<Seq<char>>)
    ensures
        named(entries, entry.name).contains(entry) <==> entries.contains(entry),
{
    if entries.contains(entry) {
        let at = choose|at: int| 0 <= at < entries.len() && entries[at] == entry;
        entries.lemma_filter_contains(has_name(entry.name), at);
    }
    if named(entries, entry.name).contains(entry) {
        entries.lemma_filter_contains_rev(has_name(entry.name), entry);
    }
}

/// There is one way only to order entries by name and keep those of equal names as they
/// come.
pub proof fn lemma_sorted_is_unique(entries: Entries, arranged: Entries)
    requires
        ordered(arranged),
        forall|name: Seq<char>| #[trigger] named(arranged, name) == named(entries, name),
    ensures
        arranged == sorted(entries),
{
    lemma_sorted(entries);
    assert forall|name: Seq<char>| #[trigger]
        named(arranged, name) == named(sorted(entries), name) by {
        assert(named(sorted(entries), name) == named(entries, name));
    }
    lemma_same_arrangement(arranged, sorted(entries));
}

proof fn lemma_same_arrangement(left: Entries, right: Entries)
    requires
        ordered(left),
        ordered(right),
        forall|name: Seq<char>| #[trigger] named(left, name) == named(right, name),
    ensures
        left == right,
    decreases left.len(),
{
    if left.len() == 0 {
        if right.len() > 0 {
            let name = right.last().name;
            lemma_named_last(right, name);
            assert(named(left, name) == Entries::empty()) by {
                reveal(Seq::filter);
            }
            assert(false);
        }
        assert(left == right);
    } else {
        lemma_last_is_last(left, right);
        lemma_last_is_last(right, left);
        let name = left.last().name;
        lemma_text_le_total(name, right.last().name);
        lemma_named_last(left, name);
        lemma_named_last(right, name);
        assert(named(left, name).last() == left.last());
        assert(named(right, name).last() == right.last());
        assert forall|other: Seq<char>| #[trigger]
            named(left.drop_last(), other) == named(right.drop_last(), other) by {
            lemma_named_last(left, other);
            lemma_named_last(right, other);
            assert(named(left, other) == named(right, other));
            if other == name {
                assert(named(left, name).drop_last() == named(left.drop_last(), name));
                assert(named(right, name).drop_last() == named(right.drop_last(), name));
            }
        }
        lemma_same_arrangement(left.drop_last(), right.drop_last());
        assert(left == left.drop_last().push(left.last()));
        assert(right == right.drop_last().push(right.last()));
    }
}

/// The last name of a list comes at or before the last of an ordered one with the same names.
proof fn lemma_last_is_last(left: Entries, right: Entries)
    requires
        ordered(right),
        left.len() > 0,
        named(left, left.last().name) == named(right, left.last().name),
    ensures
        right.len() > 0,
        text_le(left.last().name, right.last().name),
{
    let name = left.last().name;
    lemma_named_last(left, name);
    let found = named(right, name);
    assert(found.last() == left.last());
    assert(found.contains(found.last()));
    right.lemma_filter_contains_rev(has_name(name), found.last());
    let i = choose|i: int| 0 <= i < right.len() && right[i] == left.last();
    assert(text_le(right[i].name, right[right.len() - 1].name));
}

/// Whether no two entries have the same name.
pub open spec fn distinct(entries: Entries) -> bool {
    forall|i: int, j: int|
        0 <= i < j < entries.len() ==> (#[trigger] entries[i]).name != (#[trigger] entries[j]).name
}

/// Sorting keeps names distinct.
pub proof fn lemma_sorted_is_distinct(entries: Entries)
    requires
        distinct(entries),
    ensures
        distinct(sorted(entries)),
{
    lemma_sorted(entries);
    assert forall|name: Seq<char>| (#[trigger] named(sorted(entries), name)).len() <= 1 by {
        lemma_distinct_named(entries, name);
        assert(named(sorted(entries), name) == named(entries, name));
    }
    lemma_named_distinct(sorted(entries));
}

/// Of distinct names there is one entry at most.
proof fn lemma_distinct_named(entries: Entries, name: Seq<char>)
    requires
        distinct(entries),
    ensures
        named(entries, name).len() <= 1,
    decreases entries.len(),
{
    if entries.len() > 0 {
        let before = entries.drop_last();
        lemma_named_last(entries, name);
        lemma_distinct_named(before, name);
        let found = named(before, name);
        if entries.last().name == name && found.len() > 0 {
            before.lemma_filter_pred(has_name(name), 0);
            assert(found.contains(found[0]));
            before.lemma_filter_contains_rev(has_name(name), found[0]);
            let at = choose|at: int| 0 <= at < before.len() && before[at] == found[0];
            assert(entries[at].name != entries[entries.len() - 1].name);
            assert(false);
        }
    } else {
        reveal(Seq::filter);
    }
}

/// Names of which there is one entry at most are distinct.
proof fn lemma_named_distinct(entries: Entries)
    requires
        forall|name: Seq<char>| (#[trigger] named(entries, name)).len() <= 1,
    ensures
        distinct(entries),
    decreases entries.len(),
{
    if entries.len() > 0 {
        let before = entries.drop_last();
        let last = entries.last();
        assert forall|name: Seq<char>| (#[trigger] named(before, name)).len() <= 1 by {
            lemma_named_last(entries, name);
            assert(named(entries, name).len() <= 1);
        }
        lemma_named_distinct(before);
        assert forall|i: int| 0 <= i < before.len() implies (#[trigger] before[i]).name
            != last.name by {
            if before[i].name == last.name {
                lemma_named_last(entries, last.name);
                before.lemma_filter_contains(has_name(last.name), i);
                assert(named(before, last.name).len() > 0);
                assert(named(entries, last.name).len() <= 1);
            }
        }
        assert forall|i: int, j: int| 0 <= i < j < entries.len() implies (
        #[trigger] entries[i]).name != (#[trigger] entries[j]).name by {
            assert(before[i] == entries[i]);
            if j < before.len() {
                assert(before[j] == entries[j]);
            }
        }
    }
}

/// Makes one list of two ordered ones.
fn merge(left: Vec<DirEntry<String>>, right: Vec<DirEntry<String>>) -> (whole: Vec<
    DirEntry<String>,
>)
    ensures
        shown(whole@) == merged(shown(left@), shown(right@)),
{
    let ghost target = merged(shown(left@), shown(right@));
    let mut left = left;
    let mut right = right;
    let mut behind: Vec<DirEntry<String>> = Vec::new();
    assert(shown(behind@).reverse() == Entries::empty());
    while left.len() > 0 && right.len() > 0
        invariant
            target == merged(shown(left@), shown(right@)) + shown(behind@).reverse(),
        decreases left.len() + right.len(),
    {
        let ghost before = (left@, right@, behind@);
        let in_order = not_after(
            left[left.len() - 1].name.as_str(),
            right[right.len() - 1].name.as_str(),
        );
        let last = if in_order {
            right.pop()
        } else {
            left.pop()
        };
        match last {
            Some(entry) => behind.push(entry),
            None => {},
        }
        proof {
            assert(shown(before.0.drop_last()) == shown(before.0).drop_last());
            assert(shown(before.1.drop_last()) == shown(before.1).drop_last());
            assert(shown(before.2.push(last->0)).reverse() == seq![last->0@] + shown(
                before.2,
            ).reverse());
        }
    }
    let mut whole = if left.len() > 0 {
        left
    } else {
        right
    };
    assert(target == shown(whole@) + shown(behind@).reverse());
    while behind.len() > 0
        invariant
            target == shown(whole@) + shown(behind@).reverse(),
        decreases behind.len(),
    {
        let ghost before = (whole@, behind@);
        match behind.pop() {
            Some(entry) => {
                whole.push(entry);
                proof {
                    assert(shown(before.1).reverse() == seq![entry@] + shown(
                        before.1.drop_last(),
                    ).reverse());
                    assert(shown(before.0.push(entry)) == shown(before.0).push(entry@));
                }
            },
            None => {},
        }
    }
    assert(shown(behind@).reverse() == Entries::empty());
    whole
}

/// Orders entries by name; those of equal names stay as they come.
pub fn sort_entries(entries: Vec<DirEntry<String>>) -> (whole: Vec<DirEntry<String>>)
    ensures
        shown(whole@) == sorted(shown(entries@)),
    decreases entries.len(),
{
    let ghost all = shown(entries@);
    if entries.len() <= 1 {
        proof {
            reveal_with_fuel(sorted, 2);
            if all.len() == 1 {
                assert(all.drop_last() == Entries::empty());
                assert(seq![all.last()] == all);
            }
        }
        return entries;
    }
    let mut first = entries;
    let half: usize = first.len() / 2;
    let second = first.split_off(half);
    proof {
        let head = shown(first@);
        let tail = shown(second@);
        assert(all == head + tail);
        lemma_sorted(head);
        lemma_sorted(tail);
        lemma_merged(sorted(head), sorted(tail));
        assert forall|name: Seq<char>| #[trigger]
            named(merged(sorted(head), sorted(tail)), name) == named(all, name) by {
            assert(named(sorted(head), name) == named(head, name));
            assert(named(sorted(tail), name) == named(tail, name));
            Seq::filter_distributes_over_add(head, tail, has_name(name));
        }
        lemma_sorted_is_unique(all, merged(sorted(head), sorted(tail)));
    }
    merge(sort_entries(first), sort_entries(second))
}

/// Texts are ordered by the first character in which they differ, by code point, and a text
/// comes before those that it begins.
pub proof fn lemma_first_difference_decides(left: Seq<char>, right: Seq<char>, at: int)
    requires
        0 <= at <= left.len(),
        at <= right.len(),
        left.take(at) == right.take(at),
    ensures
        at == left.len() ==> text_le(left, right),
        at < left.len() && at == right.len() ==> !text_le(left, right),
        at < left.len() && at < right.len() && (left[at] as int) < (right[at] as int) ==> text_le(
            left,
            right,
        ) && !text_le(right, left),
    decreases at,
{
    if at > 0 {
        assert(left[0] == left.take(at)[0] && right[0] == right.take(at)[0]);
        assert(left.skip(1).take(at - 1) =~= left.take(at).skip(1));
        assert(right.skip(1).take(at - 1) =~= right.take(at).skip(1));
        lemma_first_difference_decides(left.skip(1), right.skip(1), at - 1);
    }
}

} // verus!
