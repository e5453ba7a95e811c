//! UTF-16 text, as the clipboard holds it.

use crate::text::is_scalar;
use vstd::prelude::*;

verus! {

/// What stands in the place of a surrogate that has no partner.
pub const REPLACEMENT: char = '\u{FFFD}';

/// Whether a unit is the first half of a surrogate pair.
pub open spec fn is_high_surrogate(unit: u16) -> bool {
    0xD800 <= unit <= 0xDBFF
}

/// Whether a unit is the second half of a surrogate pair.
pub open spec fn is_low_surrogate(unit: u16) -> bool {
    0xDC00 <= unit <= 0xDFFF
}

/// The character that a surrogate pair stands for.
pub open spec fn paired(high: u16, low: u16) -> char {
    (0x10000 + (high - 0xD800) * 0x400 + (low - 0xDC00)) as char
}

/// The text that UTF-16 units spell, with every surrogate that has no partner
/// replaced by U+FFFD.
pub open spec fn utf16_lossy(units: Seq<u16>) -> Seq<char>
    decreases units.len(),
{
    if units.len() == 0 {
        Seq::empty()
    } else if !is_high_surrogate(units[0]) && !is_low_surrogate(units[0]) {
        seq![units[0] as char] + utf16_lossy(units.skip(1))
    } else if is_high_surrogate(units[0]) && units.len() > 1 && is_low_surrogate(units[1]) {
        seq![paired(units[0], units[1])] + utf16_lossy(units.skip(2))
    } else {
        seq![REPLACEMENT] + utf16_lossy(units.skip(1))
    }
}

/// The character with a given scalar value.
fn scalar(value: u32) -> (c: char)
    requires
        is_scalar(value as int),
    ensures
        c as u32 == value,
{
    match char::from_u32(value) {
        Some(c) => c,
        None => REPLACEMENT,
    }
}

/// Decodes UTF-16 units, replacing every surrogate that has no partner by
/// U+FFFD.
pub fn decode_utf16_lossy(units: &[u16]) -> (text: String)
    ensures
        text@ == utf16_lossy(units@),
{
    let mut text = String::new();
    let mut i: usize = 0;
    assert(units@.skip(0) =~= units@);
    assert(text@ + utf16_lossy(units@) =~= utf16_lossy(units@));
    while i < units.len()
        invariant
            i <= units@.len(),
            text@ + utf16_lossy(units@.skip(i as int)) == utf16_lossy(units@),
        decreases units@.len() - i,
    {
        let ghost rest = units@.skip(i as int);
        let ghost before = text@;
        let unit: u16 = units[i];
        assert(rest[0] == unit);
        assert(rest.skip(1) =~= units@.skip(i + 1));
        if unit < 0xD800 || unit > 0xDFFF {
            text.push(scalar(unit as u32));
            assert(before + utf16_lossy(rest) =~= text@ + utf16_lossy(rest.skip(1)));
            i = i + 1;
        } else if unit <= 0xDBFF && i < units.len() - 1 && 0xDC00 <= units[i + 1] && units[i + 1]
            <= 0xDFFF {
            let low: u16 = units[i + 1];
            assert(rest[1] == low);
            text.push(scalar(0x10000 + (unit as u32 - 0xD800) * 0x400 + (low as u32 - 0xDC00)));
            assert(rest.skip(2) =~= units@.skip(i + 2));
            assert(before + utf16_lossy(rest) =~= text@ + utf16_lossy(rest.skip(2)));
            i = i + 2;
        } else {
            assert(rest.len() > 1 ==> rest[1] == units@[i + 1]);
            text.push(REPLACEMENT);
            assert(before + utf16_lossy(rest) =~= text@ + utf16_lossy(rest.skip(1)));
            i = i + 1;
        }
    }
    assert(units@.skip(i as int) =~= Seq::empty());
    assert(text@ + Seq::<char>::empty() =~= text@);
    text
}

/// The units that spell one character.
pub open spec fn utf16_units(c: char) -> Seq<u16> {
    let u = c as u32;
    if u < 0x10000 {
        seq![u as u16]
    } else {
        seq![(0xD800 + (u - 0x10000) / 0x400) as u16, (0xDC00 + (u - 0x10000) % 0x400) as u16]
    }
}

/// The units that spell a text.
pub open spec fn utf16(text: Seq<char>) -> Seq<u16>
    decreases text.len(),
{
    if text.len() == 0 {
        Seq::empty()
    } else {
        utf16_units(text[0]) + utf16(text.skip(1))
    }
}

/// What the units of one character are.
proof fn lemma_units(c: char)
    ensures
        c as u32 == 0 <==> utf16_units(c).contains(0),
        (c as u32) < 0x10000 ==> {
            &&& utf16_units(c).len() == 1
            &&& !is_high_surrogate(utf16_units(c)[0])
            &&& !is_low_surrogate(utf16_units(c)[0])
            &&& utf16_units(c)[0] as char == c
        },
        c as u32 >= 0x10000 ==> {
            &&& utf16_units(c).len() == 2
            &&& is_high_surrogate(utf16_units(c)[0])
            &&& is_low_surrogate(utf16_units(c)[1])
            &&& paired(utf16_units(c)[0], utf16_units(c)[1]) == c
        },
{
    if c as u32 == 0 {
        assert(utf16_units(c)[0] == 0);
    }
}

/// Decoding loses nothing of a text that was encoded as UTF-16.
pub proof fn law_decoding_gives_back_what_was_encoded(text: Seq<char>)
    ensures
        utf16_lossy(utf16(text)) == text,
    decreases text.len(),
{
    if text.len() > 0 {
        let first = utf16_units(text[0]);
        let rest = utf16(text.skip(1));
        lemma_units(text[0]);
        law_decoding_gives_back_what_was_encoded(text.skip(1));
        assert((first + rest).skip(first.len() as int) =~= rest);
        assert(seq![text[0]] + text.skip(1) =~= text);
        assert((first + rest)[0] == first[0]);
        assert(first.len() == 2 ==> (first + rest)[1] == first[1]);
    }
}

/// Only a NUL character is spelled with a zero unit.
pub proof fn lemma_zero_unit_is_nul(text: Seq<char>)
    requires
        !text.contains('\0'),
    ensures
        !utf16(text).contains(0),
    decreases text.len(),
{
    if text.len() > 0 {
        assert(text[0] != '\0');
        assert forall|i: int| 0 <= i < text.skip(1).len() implies text.skip(1)[i] != '\0' by {
            assert(text[i + 1] != '\0');
        }
        lemma_zero_unit_is_nul(text.skip(1));
        lemma_units(text[0]);
        let first = utf16_units(text[0]);
        let rest = utf16(text.skip(1));
        assert forall|i: int| 0 <= i < (first + rest).len() implies (first + rest)[i] != 0 by {
            if i < first.len() {
                assert(first[i] == (first + rest)[i]);
            } else {
                assert(rest[i - first.len()] == (first + rest)[i]);
            }
        }
    }
}

/// Units that follow those of a text are decoded as if they stood alone.
pub proof fn law_decoding_goes_on_after_a_text(text: Seq<char>, rest: Seq<u16>)
    ensures
        utf16_lossy(utf16(text) + rest) == text + utf16_lossy(rest),
    decreases text.len(),
{
    if text.len() == 0 {
        assert(utf16(text) + rest =~= rest);
        assert(text + utf16_lossy(rest) =~= utf16_lossy(rest));
    } else {
        let first = utf16_units(text[0]);
        let more = utf16(text.skip(1)) + rest;
        let all = utf16(text) + rest;
        lemma_units(text[0]);
        law_decoding_goes_on_after_a_text(text.skip(1), rest);
        assert(all =~= first + more);
        assert(all.skip(first.len() as int) =~= more);
        assert(all[0] == first[0]);
        assert(first.len() == 2 ==> all[1] == first[1]);
        assert(seq![text[0]] + (text.skip(1) + utf16_lossy(rest)) =~= text + utf16_lossy(rest));
    }
}

/// A surrogate that has no partner is replaced, wherever it stands, and what is
/// before it and after it is decoded as ever.
pub proof fn law_lone_surrogates_are_replaced(text: Seq<char>, unit: u16, rest: Seq<u16>)
    requires
        0xD800 <= unit <= 0xDFFF,
        unit <= 0xDBFF && rest.len() > 0 ==> !(0xDC00 <= rest[0] <= 0xDFFF),
    ensures
        utf16_lossy(utf16(text) + seq![unit] + rest) == text + seq!['\u{FFFD}'] + utf16_lossy(rest),
{
    let tail = seq![unit] + rest;
    law_decoding_goes_on_after_a_text(text, tail);
    assert(utf16(text) + seq![unit] + rest =~= utf16(text) + tail);
    assert(tail.skip(1) =~= rest);
    assert(rest.len() > 0 ==> tail[1] == rest[0]);
    assert(text + (seq![REPLACEMENT] + utf16_lossy(rest)) =~= text + seq!['\u{FFFD}']
        + utf16_lossy(rest));
}

} // verus!
