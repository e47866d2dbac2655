//! UTF-16 text, as Windows hands it over and takes it back.

use std::path::PathBuf;
use vstd::prelude::*;
use widestring::error::ContainsNul;

verus! {

/// The error of `widestring::U16CString::from_str`.
#[verifier::external_type_specification]
#[verifier::external_body]
#[verifier::reject_recursive_types(C)]
pub struct ExContainsNul<C>(ContainsNul<C>);

/// The most UTF-16 units that a name may have, plus one: a directory record of WinFSP has
/// room for this many, the terminator among them.
pub const NAME_UNITS: usize = 255;

pub open spec fn is_high_surrogate(unit: u16) -> bool {
    0xD800 <= unit <= 0xDBFF
}

pub open spec fn is_low_surrogate(unit: u16) -> bool {
    0xDC00 <= unit <= 0xDFFF
}

/// The character that a surrogate pair stands for.
pub open spec fn paired(high: u16, low: u16) -> char {
    (0x10000 + (high - 0xD800) * 0x400 + (low - 0xDC00)) as char
}

/// The text of a sequence of units, each unpaired surrogate replaced by U+FFFD.
pub open spec fn lossy_text(units: Seq<u16>) -> Seq<char>
    decreases units.len(),
{
    if units.len() == 0 {
        Seq::empty()
    } else if !is_high_surrogate(units[0]) && !is_low_surrogate(units[0]) {
        seq![units[0] as char] + lossy_text(units.skip(1))
    } else if is_high_surrogate(units[0]) && units.len() > 1 && is_low_surrogate(units[1]) {
        seq![paired(units[0], units[1])] + lossy_text(units.skip(2))
    } else {
        seq!['\u{FFFD}'] + lossy_text(units.skip(1))
    }
}

/// Whether every surrogate among the units is half of a pair.
pub open spec fn well_formed(units: Seq<u16>) -> bool
    decreases units.len(),
{
    if units.len() == 0 {
        true
    } else if !is_high_surrogate(units[0]) && !is_low_surrogate(units[0]) {
        well_formed(units.skip(1))
    } else {
        &&& is_high_surrogate(units[0])
        &&& units.len() > 1
        &&& is_low_surrogate(units[1])
        &&& well_formed(units.skip(2))
    }
}

/// The units of one character.
pub open spec fn char_units(c: char) -> Seq<u16> {
    if c as u32 <= 0xFFFF {
        seq![c as u16]
    } else {
        let above = c as u32 - 0x10000;
        seq![(0xD800 + above / 0x400) as u16, (0xDC00 + above % 0x400) as u16]
    }
}

/// The units of a text.
pub open spec fn text_units(text: Seq<char>) -> Seq<u16>
    decreases text.len(),
{
    if text.len() == 0 {
        Seq::empty()
    } else {
        text_units(text.drop_last()) + char_units(text.last())
    }
}

/// Text survives the way to UTF-16 and back: it is encoded without unpaired surrogates, and
/// decoding gives back every character.
pub proof fn lemma_decode_encode(text: Seq<char>)
    ensures
        well_formed(text_units(text)),
        lossy_text(text_units(text)) == text,
    decreases text.len(),
{
    if text.len() > 0 {
        lemma_decode_encode(text.drop_last());
        lemma_decode_append(text_units(text.drop_last()), text.last());
        assert(text.drop_last().push(text.last()) == text);
    }
}

/// Decoding well-formed units and one more character.
proof fn lemma_decode_append(units: Seq<u16>, c: char)
    requires
        well_formed(units),
    ensures
        well_formed(units + char_units(c)),
        lossy_text(units + char_units(c)) == lossy_text(units).push(c),
    decreases units.len(),
{
    let more = units + char_units(c);
    if units.len() == 0 {
        assert(more == char_units(c));
        if c as u32 <= 0xFFFF {
            assert(more.skip(1) == Seq::<u16>::empty());
        } else {
            assert(more.skip(2) == Seq::<u16>::empty());
        }
        reveal_with_fuel(lossy_text, 2);
        reveal_with_fuel(well_formed, 2);
        assert(lossy_text(more) =~= seq![c]);
    } else if !is_high_surrogate(units[0]) && !is_low_surrogate(units[0]) {
        lemma_decode_append(units.skip(1), c);
        assert(more.skip(1) == units.skip(1) + char_units(c));
        assert(lossy_text(more) =~= lossy_text(units).push(c));
    } else {
        lemma_decode_append(units.skip(2), c);
        assert(more.skip(2) == units.skip(2) + char_units(c));
        assert(lossy_text(more) =~= lossy_text(units).push(c));
    }
}

/// Units on both sides of one that is no surrogate are decoded on their own: no pair reaches
/// across it.
pub proof fn lemma_decode_across(front: Seq<u16>, unit: u16, back: Seq<u16>)
    requires
        !is_high_surrogate(unit),
        !is_low_surrogate(unit),
    ensures
        lossy_text(front.push(unit) + back) == lossy_text(front).push(unit as char) + lossy_text(
            back,
        ),
    decreases front.len(),
{
    let whole = front.push(unit) + back;
    if front.len() == 0 {
        assert(whole.skip(1) == back);
    } else if is_high_surrogate(front[0]) && front.len() > 1 && is_low_surrogate(front[1]) {
        lemma_decode_across(front.skip(2), unit, back);
        assert(whole.skip(2) == front.skip(2).push(unit) + back);
    } else {
        lemma_decode_across(front.skip(1), unit, back);
        assert(whole.skip(1) == front.skip(1).push(unit) + back);
    }
    assert(lossy_text(whole) =~= lossy_text(front).push(unit as char) + lossy_text(back));
}

/// Calls `widestring::U16Str::to_string_lossy`, the decoding that every wide string of
/// WinFSP offers. Claims that the units are decoded as UTF-16 and that each unpaired
/// surrogate becomes U+FFFD.
#[verifier::external_body]
pub(crate) fn to_string_lossy(units: &[u16]) -> (text: String)
    ensures
        text@ == lossy_text(units@),
{
    widestring::U16Str::from_slice(units).to_string_lossy()
}

/// Calls `widestring::U16CString::from_str`. Claims that it fails when the text holds a NUL
/// before its end, and that the units it makes otherwise are those of the text, ended by
/// exactly one NUL.
#[verifier::external_body]
pub(crate) fn to_wide(text: &str) -> (units: Result<Vec<u16>, ContainsNul<u16>>)
    ensures
        units is Err <==> has_early_nul(text@),
        units matches Ok(units) ==> units@ == terminated(text_units(text@)),
{
    Ok(widestring::U16CString::from_str(text)?.into_vec_with_nul())
}

/// Whether a NUL stands before the last character.
pub open spec fn has_early_nul(text: Seq<char>) -> bool {
    exists|i: int| 0 <= i < text.len() - 1 && text[i] == '\0'
}

/// The units with a NUL behind them, unless they end in one.
pub open spec fn terminated(units: Seq<u16>) -> Seq<u16> {
    if units.len() > 0 && units.last() == 0 {
        units
    } else {
        units.push(0)
    }
}

/// The units of a path, as `widestring::U16CString::from_os_str` takes them from the
/// operating system's form of it.
pub uninterp spec fn path_units(path: PathBuf) -> Seq<u16>;

/// Whether a NUL stands before the last unit.
pub open spec fn unit_is_early_nul(units: Seq<u16>) -> bool {
    exists|i: int| 0 <= i < units.len() - 1 && units[i] == 0
}

/// Calls `widestring::U16CString::from_os_str`. Claims that the units depend on the path
/// alone, that it fails when a NUL stands before the last of them, and that they are ended by
/// exactly one NUL otherwise.
#[verifier::external_body]
pub(crate) fn wide_path(path: &PathBuf) -> (units: Result<Vec<u16>, ContainsNul<u16>>)
    ensures
        units is Err <==> unit_is_early_nul(path_units(*path)),
        units matches Ok(units) ==> units@ == terminated(path_units(*path)),
{
    Ok(widestring::U16CString::from_os_str(path)?.into_vec_with_nul())
}

/// Calls `String::from_utf16`. Claims that it fails exactly on an unpaired surrogate, and
/// that the text it makes otherwise is the one that the units stand for.
#[verifier::external_body]
pub(crate) fn from_utf16(units: &[u16]) -> (text: Option<String>)
    ensures
        text is Some <==> well_formed(units@),
        text matches Some(text) ==> text@ == lossy_text(units@),
{
    String::from_utf16(units).ok()
}

/// Whether a name has fewer than `NAME_UNITS` UTF-16 units.
pub fn fits_directory_record(name: &str) -> (fits: bool)
    ensures
        fits == (text_units(name@).len() < NAME_UNITS),
{
    let mut count: usize = 0;
    let ghost mut seen: Seq<char> = Seq::empty();
    for c in chars: name.chars()
        invariant
            seen == chars.seq().take(chars.index() as int),
            chars.seq() == name@,
            count == text_units(seen).len() < NAME_UNITS,
    {
        proof {
            assert(name@.take(chars.index() + 1).drop_last() == seen);
            seen = seen.push(c);
            assert(seen.drop_last() == name@.take(chars.index() as int));
        }
        count = count + if c as u32 <= 0xFFFF { 1 } else { 2 };
        if count >= NAME_UNITS {
            proof {
                lemma_units_grow(name@, chars.index() + 1);
            }
            return false;
        }
    }
    assert(seen == name@);
    true
}

/// A text has at least as many units as any of its beginnings.
proof fn lemma_units_grow(text: Seq<char>, n: int)
    requires
        0 <= n <= text.len(),
    ensures
        text_units(text.take(n)).len() <= text_units(text).len(),
    decreases text.len() - n,
{
    if n < text.len() {
        assert(text.take(n + 1).drop_last() == text.take(n));
        lemma_units_grow(text, n + 1);
    } else {
        assert(text.take(n) == text);
    }
}

/// A character takes one unit, which is its code point, or two surrogates beyond the basic
/// plane.
pub proof fn lemma_units_of_a_character(text: Seq<char>, c: char)
    ensures
        ({
            let units = text_units(text.push(c));
            let before = text_units(text);
            &&& before.is_prefix_of(units)
            &&& c as u32 <= 0xFFFF ==> units.len() == before.len() + 1 && units.last() == c as u32
            &&& c as u32 > 0xFFFF ==> units.len() == before.len() + 2 && is_high_surrogate(
                units[before.len() as int],
            ) && is_low_surrogate(units.last())
        }),
{
    assert(text.push(c).drop_last() == text);
}

/// A surrogate that stands alone is replaced.
pub proof fn lemma_lone_surrogate_is_replaced(unit: u16)
    requires
        is_high_surrogate(unit) || is_low_surrogate(unit),
    ensures
        lossy_text(seq![unit]) == seq!['\u{FFFD}'],
{
    assert(seq![unit].skip(1) == Seq::<u16>::empty());
    reveal_with_fuel(lossy_text, 2);
    assert(lossy_text(seq![unit]) =~= seq!['\u{FFFD}']);
}

} // verus!
