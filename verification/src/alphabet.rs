//! The Morse alphabet table, taken from the `morse_codec` crate.
//!
//! The table maps a byte (an uppercase letter, a digit, a punctuation mark,
//! or the space at entry 0) to its sequence of dit/dah signals. The two
//! accessors below are the only trusted view of it; everything that walks
//! the table is verified against the names `alphabet_char` and
//! `alphabet_code`.

use vstd::prelude::*;

verus! {

/// Number of entries in the alphabet table
/// (`morse_codec::CHARACTER_SET_LENGTH`).
pub const ALPHABET_LEN: usize = 53;

/// The space byte: the token separator, and the byte of the table's
/// entry 0.
pub const SPACE: u8 = 32;

/// The dot byte, written for a dit.
pub const DOT: u8 = 46;

/// The dash byte, written for a dah.
pub const DASH: u8 = 45;

pub uninterp spec fn alphabet_char(i: int) -> u8;

pub uninterp spec fn alphabet_code(i: int) -> Seq<u8>;

/// Relies on `morse_codec::DEFAULT_CHARACTER_SET`: the byte mapped by entry
/// `i` of the alphabet table; entry 0 is the space.
#[verifier::external_body]
fn alphabet_char_at(i: usize) -> (r: u8)
    requires
        i < ALPHABET_LEN,
    ensures
        r == alphabet_char(i as int),
        i == 0 ==> r == SPACE,
{
    morse_codec::DEFAULT_CHARACTER_SET[i]
}

/// Relies on `morse_codec::MORSE_CODE_SET`: the dit/dah signals of entry
/// `i` of the alphabet table, converted one signal at a time to the bytes
/// `.` and `-`. Entry 0, the space, has no signals; every other entry has
/// at least one.
#[verifier::external_body]
fn alphabet_code_at(i: usize) -> (r: Vec<u8>)
    requires
        i < ALPHABET_LEN,
    ensures
        r@ == alphabet_code(i as int),
        forall|k: int| 0 <= k < r@.len() ==> (r@[k] == DOT || r@[k] == DASH),
        i == 0 ==> r@.len() == 0,
        i >= 1 ==> r@.len() > 0,
{
    let mut out = Vec::new();
    for signal in morse_codec::MORSE_CODE_SET[i].iter() {
        match signal {
            Some(morse_codec::MorseSignal::Short) => out.push(b'.'),
            Some(morse_codec::MorseSignal::Long) => out.push(b'-'),
            None => {}
        }
    }
    out
}

/// Index of the first alphabet entry at or after `i` whose byte is `b`.
pub open spec fn first_match_from(b: u8, i: int) -> Option<int>
    decreases ALPHABET_LEN - i,
{
    if i < 0 || i >= ALPHABET_LEN {
        None
    } else if alphabet_char(i) == b {
        Some(i)
    } else {
        first_match_from(b, i + 1)
    }
}

/// The Morse token the alphabet maps byte `b` to, if any: the code of the
/// first entry whose byte is `b`.
pub open spec fn token_of(b: u8) -> Option<Seq<u8>> {
    match first_match_from(b, 0) {
        Some(i) => Some(alphabet_code(i)),
        None => None,
    }
}

/// Look the byte `b` up in the alphabet table. A found token holds only
/// dot and dash bytes, and is empty exactly for the space; a byte with no
/// entry at all is never the space.
pub fn lookup(b: u8) -> (r: Option<Vec<u8>>)
    ensures
        match r {
            Some(v) => {
                &&& token_of(b) == Some(v@)
                &&& forall|k: int| 0 <= k < v@.len() ==> (v@[k] == DOT || v@[k] == DASH)
                &&& (v@.len() == 0 <==> b == SPACE)
            },
            None => token_of(b) is None && b != SPACE,
        },
{
    let mut i: usize = 0;
    while i < ALPHABET_LEN
        invariant
            i <= ALPHABET_LEN,
            first_match_from(b, 0) == first_match_from(b, i as int),
            i > 0 ==> alphabet_char(0) == SPACE && b != SPACE,
        decreases ALPHABET_LEN - i,
    {
        if alphabet_char_at(i) == b {
            let code = alphabet_code_at(i);
            return Some(code);
        }
        i = i + 1;
    }
    None
}

} // verus!
