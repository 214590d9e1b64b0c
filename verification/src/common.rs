//! Random names made of letters.
use vstd::prelude::*;

verus! {

/// How many values a drawn letter index can take.
pub const LETTER_DRAWS: u8 = 58;

/// A letter of the basic Latin alphabet, upper or lower case.
pub open spec fn is_letter(c: char) -> bool {
    ('A' as u32 <= c as u32 && c as u32 <= 'Z' as u32) || ('a' as u32 <= c as u32 && c as u32
        <= 'z' as u32)
}

/// The letter that a drawn index stands for. The index counts from `A`; the
/// six signs that stand between the upper-case and the lower-case letters are
/// replaced by the letters seven places further on.
pub open spec fn letter_at(index: u8) -> char
    recommends
        index < LETTER_DRAWS,
{
    let byte = (index + 65) as u8;
    if 90 < byte && byte < 97 {
        (byte + 7) as u8 as char
    } else {
        byte as char
    }
}

/// `Rng::gen_range` on `rand::thread_rng()`, over the half-open range from
/// zero to `bound`. Trusted: the number drawn lies in the range. The range
/// must not be empty.
#[verifier::external_body]
fn random_below(bound: u8) -> (drawn: u8)
    requires
        bound > 0,
    ensures
        drawn < bound,
{
    rand::Rng::gen_range(&mut rand::thread_rng(), 0..bound)
}

/// `String::push`. Trusted: the character is appended at the end.
pub assume_specification[ String::push ](text: &mut String, ch: char)
    ensures
        final(text)@ == old(text)@.push(ch),
;

/// The letter for a drawn index.
pub fn letter_for(index: u8) -> (letter: char)
    requires
        index < LETTER_DRAWS,
    ensures
        letter == letter_at(index),
        is_letter(letter),
{
    let byte: u8 = index + 65;
    if 90 < byte && byte < 97 {
        (byte + 7) as char
    } else {
        byte as char
    }
}

/// Returns a random sequence of `len` letters.
pub fn ran_letters(len: usize) -> (name: String)
    ensures
        name@.len() == len,
        forall|i: int| 0 <= i < len ==> is_letter(#[trigger] name@[i]),
{
    let mut name = String::new();
    let mut made: usize = 0;
    while made < len
        invariant
            made <= len,
            name@.len() == made,
            forall|i: int| 0 <= i < made ==> is_letter(#[trigger] name@[i]),
        decreases len - made,
    {
        let drawn = random_below(LETTER_DRAWS);
        name.push(letter_for(drawn));
        made += 1;
    }
    name
}

} // verus!
