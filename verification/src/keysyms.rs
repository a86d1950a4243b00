//! Keysyms: the numbers by which X names what a key types.

use vstd::prelude::*;

use crate::text::chars_of;

verus! {

/// The keysym that stands for no keysym at all.
pub const NO_SYMBOL: u32 = 0;

/// The keysym of the key that erases to the left.
pub const BACKSPACE: u32 = 0xff08;

/// The keysym of a character, as `xkeysym::Keysym::from_char` has it.
pub uninterp spec fn keysym_of_char(c: char) -> u32;

/// The printable characters of Latin-1, which are their own keysyms.
pub open spec fn is_latin1(c: char) -> bool {
    0x20 <= c as int <= 0x7e || 0xa0 <= c as int <= 0xff
}

/// The code points that Unicode sets aside as no characters.
pub open spec fn is_noncharacter(c: char) -> bool {
    0xfdd0 <= c as int <= 0xfdef || c as int % 0x10000 >= 0xfffe
}

/// `xkeysym::Keysym::from_char`, by its raw number.
///
/// Trusted: the result depends on the character alone; a printable Latin-1
/// character is its own keysym; and the noncharacters, no others, have none.
/// Which keysym each other character has (a table, and behind it the code point
/// with a marker bit) is left to the name `keysym_of_char`.
#[verifier::external_body]
pub(crate) fn keysym_from_char(c: char) -> (keysym: u32)
    ensures
        keysym == keysym_of_char(c),
        is_latin1(c) ==> keysym as int == c as int,
        keysym == NO_SYMBOL <==> is_noncharacter(c),
{
    xkeysym::Keysym::from_char(c).raw()
}

/// The keysym that a text of exactly one character has, if it has one.
pub open spec fn keysym_of_text(s: Seq<char>) -> Option<u32> {
    if s.len() == 1 && keysym_of_char(s[0]) != NO_SYMBOL {
        Some(keysym_of_char(s[0]))
    } else {
        None
    }
}

/// The keysym for a single-character string, or `None` if `s` isn't exactly one
/// char or that char has no keysym.
pub fn single_char_keysym(s: &str) -> (keysym: Option<u32>)
    ensures
        keysym == keysym_of_text(s@),
        keysym matches Some(k) ==> k == keysym_of_char(s@[0]),
        keysym is Some <==> s@.len() == 1 && !is_noncharacter(s@[0]),
        s@.len() == 1 && is_latin1(s@[0]) ==> keysym is Some && keysym->0 as int == s@[0] as int,
{
    let chars = chars_of(s);
    if chars.len() != 1 {
        return None;
    }
    let keysym: u32 = keysym_from_char(chars[0]);
    if keysym != NO_SYMBOL {
        Some(keysym)
    } else {
        None
    }
}

} // verus!
