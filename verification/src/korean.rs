//! Classification of single Korean code points and the similarity
//! predicate between them.
//!
//! A code point falls in exactly one of three classes: a Hangul
//! compatibility-jamo consonant (`U+3131..=U+314E`), a precomposed Hangul
//! syllable (`U+AC00..=U+D7A3`), or anything else.  A syllable decomposes
//! arithmetically into a leading consonant (groups of 588 code points), a
//! vowel, and an optional trailing consonant (28 slots per vowel).
use vstd::prelude::*;

verus! {

/// First code point of the compatibility-jamo consonant range.
pub const JAMO_FIRST: u32 = 0x3131;

/// Last code point of the compatibility-jamo consonant range.
pub const JAMO_LAST: u32 = 0x314e;

/// First precomposed Hangul syllable.
pub const SYLLABLE_FIRST: u32 = 0xac00;

/// Last precomposed Hangul syllable.
pub const SYLLABLE_LAST: u32 = 0xd7a3;

/// Code points per leading-consonant group: 21 vowels times 28 final slots.
pub const LEAD_SPAN: u32 = 588;

/// Code points per vowel group: one slot per possible trailing consonant.
pub const FINAL_SPAN: u32 = 28;

/// The code point lies in the compatibility-jamo consonant range.
/// (The range also holds a few standalone vowel jamo; the boundary is
/// exactly this range, on purpose.)
pub open spec fn is_consonant_spec(c: char) -> bool {
    JAMO_FIRST <= c as u32 && c as u32 <= JAMO_LAST
}

/// The code point is a precomposed Hangul syllable.
pub open spec fn is_syllable_spec(c: char) -> bool {
    SYLLABLE_FIRST <= c as u32 && c as u32 <= SYLLABLE_LAST
}

/// The code point is Korean: a consonant jamo or a syllable.
pub open spec fn is_korean_spec(c: char) -> bool {
    is_consonant_spec(c) || is_syllable_spec(c)
}

/// The syllable's trailing-consonant slot is occupied.
pub open spec fn has_final_spec(c: char) -> bool {
    is_syllable_spec(c) && (c as int - SYLLABLE_FIRST as int) % (FINAL_SPAN as int) != 0
}

/// The syllable with the trailing consonant removed; any other code point
/// is returned unchanged.
pub open spec fn omit_final_spec(c: char) -> char {
    if has_final_spec(c) {
        (((c as int - SYLLABLE_FIRST as int) / (FINAL_SPAN as int)) * (FINAL_SPAN as int)
            + SYLLABLE_FIRST as int) as char
    } else {
        c
    }
}

/// The bare consonant jamo for a leading-consonant group index, in the
/// order the groups appear in the syllable block.
pub open spec fn lead_consonant_jamo(i: int) -> char {
    if i == 0 { '\u{3131}' }        // group of U+AC00
    else if i == 1 { '\u{3132}' }
    else if i == 2 { '\u{3134}' }
    else if i == 3 { '\u{3137}' }
    else if i == 4 { '\u{3138}' }
    else if i == 5 { '\u{3139}' }
    else if i == 6 { '\u{3141}' }
    else if i == 7 { '\u{3142}' }
    else if i == 8 { '\u{3143}' }
    else if i == 9 { '\u{3145}' }
    else if i == 10 { '\u{3146}' }
    else if i == 11 { '\u{3147}' }
    else if i == 12 { '\u{3148}' }
    else if i == 13 { '\u{3149}' }
    else if i == 14 { '\u{314a}' }
    else if i == 15 { '\u{314b}' }
    else if i == 16 { '\u{314c}' }
    else if i == 17 { '\u{314d}' }
    else if i == 18 { '\u{314e}' }
    else { '\u{0}' }                // defensive sentinel, unreachable for syllables
}

/// The leading consonant of a syllable, as a bare jamo; any other code
/// point is returned unchanged.
pub open spec fn get_consonant_spec(c: char) -> char {
    if is_syllable_spec(c) {
        lead_consonant_jamo((c as int - SYLLABLE_FIRST as int) / (LEAD_SPAN as int))
    } else {
        c
    }
}

/// Two code points are similar when they are identical; when either is a
/// bare consonant, when their leading consonants agree; otherwise when
/// they agree once trailing consonants are stripped.
pub open spec fn is_similar_spec(c1: char, c2: char) -> bool {
    if c1 == c2 {
        true
    } else if is_consonant_spec(c1) || is_consonant_spec(c2) {
        get_consonant_spec(c1) == get_consonant_spec(c2)
    } else {
        omit_final_spec(c1) == omit_final_spec(c2)
    }
}

/// Relies on char::from_u32: a Unicode scalar value converts to the char
/// with exactly that code point, and surrogates and out-of-range values
/// convert to nothing.
pub assume_specification[ char::from_u32 ](i: u32) -> (r: Option<char>)
    ensures
        r matches Some(c) ==> c as u32 == i,
        (i < 0xd800 || (0xe000 <= i && i <= 0x10ffff)) <==> r is Some,
;

/// Check whether a letter lies in the compatibility-jamo consonant range.
pub fn is_consonant(c: &char) -> (r: bool)
    ensures
        r == is_consonant_spec(*c),
{
    let u = *c as u32;
    JAMO_FIRST <= u && u <= JAMO_LAST
}

/// Check whether a letter is a precomposed Hangul syllable.
pub fn is_syllable(c: &char) -> (r: bool)
    ensures
        r == is_syllable_spec(*c),
{
    let u = *c as u32;
    SYLLABLE_FIRST <= u && u <= SYLLABLE_LAST
}

/// Check whether a letter is a Korean letter.
pub fn is_korean(c: &char) -> (r: bool)
    ensures
        r == is_korean_spec(*c),
{
    is_consonant(c) || is_syllable(c)
}

/// Check whether a Korean letter has a final (trailing) consonant.
pub fn has_final(c: &char) -> (r: bool)
    ensures
        r == has_final_spec(*c),
{
    if !is_syllable(c) {
        return false;
    }
    let code = (*c as u32) - SYLLABLE_FIRST;
    code % FINAL_SPAN > 0
}

/// Remove the final consonant from a Korean letter.
pub fn omit_final(c: &char) -> (r: char)
    ensures
        r == omit_final_spec(*c),
{
    if !has_final(c) {
        return *c;
    }
    let code = ((*c as u32) - SYLLABLE_FIRST) / FINAL_SPAN * FINAL_SPAN + SYLLABLE_FIRST;
    let r = char::from_u32(code).unwrap();
    proof {
        vstd::utf8::char_u32_cast(r, code);
    }
    r
}

/// Get the first (leading) consonant of a Korean letter as a bare jamo.
pub fn get_consonant(c: &char) -> (r: char)
    ensures
        r == get_consonant_spec(*c),
{
    if !is_syllable(c) {
        return *c;
    }
    let lead = ((*c as u32) - SYLLABLE_FIRST) / LEAD_SPAN;
    match lead {
        0 => '\u{3131}',
        1 => '\u{3132}',
        2 => '\u{3134}',
        3 => '\u{3137}',
        4 => '\u{3138}',
        5 => '\u{3139}',
        6 => '\u{3141}',
        7 => '\u{3142}',
        8 => '\u{3143}',
        9 => '\u{3145}',
        10 => '\u{3146}',
        11 => '\u{3147}',
        12 => '\u{3148}',
        13 => '\u{3149}',
        14 => '\u{314a}',
        15 => '\u{314b}',
        16 => '\u{314c}',
        17 => '\u{314d}',
        18 => '\u{314e}',
        _ => '\u{0}',
    }
}

/// Check whether two Korean letters are similar.
pub fn is_similar(c1: &char, c2: &char) -> (r: bool)
    ensures
        r == is_similar_spec(*c1, *c2),
{
    if *c1 == *c2 {
        return true;
    }
    if is_consonant(c1) || is_consonant(c2) {
        let cc1 = get_consonant(c1);
        let cc2 = get_consonant(c2);
        return cc1 == cc2;
    }
    let o1 = omit_final(c1);
    let o2 = omit_final(c2);
    o1 == o2
}

/// Law: every code point is similar to itself.
pub proof fn lemma_similar_reflexive(c: char)
    ensures
        is_similar_spec(c, c),
{
}

/// Law: similarity is symmetric.
pub proof fn lemma_similar_symmetric(c1: char, c2: char)
    ensures
        is_similar_spec(c1, c2) == is_similar_spec(c2, c1),
{
}

} // verus!
