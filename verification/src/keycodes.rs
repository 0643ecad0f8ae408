//! Common macOS virtual key codes.

use vstd::prelude::*;

verus! {

pub const A: u16 = 0;
pub const S: u16 = 1;
pub const D: u16 = 2;
pub const F: u16 = 3;
pub const H: u16 = 4;
pub const G: u16 = 5;
pub const Z: u16 = 6;
pub const X: u16 = 7;
pub const C: u16 = 8;
pub const V: u16 = 9;
pub const B: u16 = 11;
pub const Q: u16 = 12;
pub const W: u16 = 13;
pub const E: u16 = 14;
pub const R: u16 = 15;
pub const Y: u16 = 16;
pub const T: u16 = 17;
pub const O: u16 = 31;
pub const U: u16 = 32;
pub const I: u16 = 34;
pub const P: u16 = 35;
pub const L: u16 = 37;
pub const J: u16 = 38;
pub const K: u16 = 40;
pub const N: u16 = 45;
pub const M: u16 = 46;
pub const SPACE: u16 = 49;
pub const RETURN: u16 = 36;
pub const TAB: u16 = 48;
pub const ESCAPE: u16 = 53;

/// The virtual key code of a lowercase letter's key (0, the code of `a`, for
/// any other character).
pub open spec fn letter_key_code(c: char) -> u16 {
    match c {
        'a' => A,
        'b' => B,
        'c' => C,
        'd' => D,
        'e' => E,
        'f' => F,
        'g' => G,
        'h' => H,
        'i' => I,
        'j' => J,
        'k' => K,
        'l' => L,
        'm' => M,
        'n' => N,
        'o' => O,
        'p' => P,
        'q' => Q,
        'r' => R,
        's' => S,
        't' => T,
        'u' => U,
        'v' => V,
        'w' => W,
        'x' => X,
        'y' => Y,
        'z' => Z,
        _ => A,
    }
}

/// The lowercase letter whose key has a code (`a` for codes of no letter).
pub open spec fn key_code_letter(code: u16) -> char {
    if code == A { 'a' }
    else if code == B { 'b' }
    else if code == C { 'c' }
    else if code == D { 'd' }
    else if code == E { 'e' }
    else if code == F { 'f' }
    else if code == G { 'g' }
    else if code == H { 'h' }
    else if code == I { 'i' }
    else if code == J { 'j' }
    else if code == K { 'k' }
    else if code == L { 'l' }
    else if code == M { 'm' }
    else if code == N { 'n' }
    else if code == O { 'o' }
    else if code == P { 'p' }
    else if code == Q { 'q' }
    else if code == R { 'r' }
    else if code == S { 's' }
    else if code == T { 't' }
    else if code == U { 'u' }
    else if code == V { 'v' }
    else if code == W { 'w' }
    else if code == X { 'x' }
    else if code == Y { 'y' }
    else if code == Z { 'z' }
    else { 'a' }
}

/// Each letter's key code leads back to the letter, so different letters
/// have different key codes.
pub proof fn lemma_letter_key_codes_distinct(c: char)
    requires
        'a' <= c <= 'z',
    ensures
        key_code_letter(letter_key_code(c)) == c,
{
}

} // verus!
