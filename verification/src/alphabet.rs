//! The 64 symbols that a text may be written in, and the 6-bit value of each.
//!
//! A symbol's value is its position in the alphabet. Lower-case letters are
//! folded to upper case before the lookup, so a text reads back in upper case.

use crate::error::CodecError;
use vstd::prelude::*;

verus! {

/// Number of symbols: every 6-bit value names one.
pub const ALPHABET_SIZE: usize = 64;

/// The symbols in the order of their values: the space, the letters, the
/// digits, then 27 punctuation marks.
pub open spec fn alphabet() -> Seq<char> {
    " ABCDEFGHIJKLMNOPQRSTUVWXYZ0123456789.,!?-:;'\"@#$%&*()[]{}=+/<>_"@
}

/// `c` with the letters `a` to `z` mapped to `A` to `Z`.
pub open spec fn fold(c: char) -> char {
    if 'a' <= c && c <= 'z' {
        ((c as u32) - 32) as char
    } else {
        c
    }
}

/// Whether `c`, folded to upper case, is a symbol of the alphabet.
pub open spec fn supported(c: char) -> bool {
    alphabet().contains(fold(c))
}

/// The 6-bit value of a supported character: the position of its folded form
/// in the alphabet.
pub open spec fn symbol_of(c: char) -> u8
    recommends
        supported(c),
{
    alphabet().index_of(fold(c)) as u8
}

/// The 6-bit values of a text, character by character.
pub open spec fn symbols_of(text: Seq<char>) -> Seq<u8> {
    Seq::new(text.len(), |i: int| symbol_of(text[i]))
}

/// Whether every character of `text` is supported.
pub open spec fn all_supported(text: Seq<char>) -> bool {
    forall|i: int| 0 <= i < text.len() ==> supported(#[trigger] text[i])
}

/// The characters that a sequence of 6-bit values stands for.
pub open spec fn chars_of(symbols: Seq<u8>) -> Seq<char> {
    Seq::new(symbols.len(), |i: int| alphabet()[symbols[i] as int])
}

/// `text` as it reads after a trip through the codec: folded to upper case.
pub open spec fn folded(text: Seq<char>) -> Seq<char> {
    Seq::new(text.len(), |i: int| fold(text[i]))
}

/// The alphabet, symbol by symbol.
pub proof fn lemma_alphabet_symbols()
    ensures
        alphabet() =~= seq![
            ' ', 'A', 'B', 'C', 'D', 'E', 'F', 'G', 'H', 'I', 'J', 'K', 'L', 'M', 'N', 'O',
            'P', 'Q', 'R', 'S', 'T', 'U', 'V', 'W', 'X', 'Y', 'Z', '0', '1', '2', '3', '4',
            '5', '6', '7', '8', '9', '.', ',', '!', '?', '-', ':', ';', '\'', '"', '@', '#',
            '$', '%', '&', '*', '(', ')', '[', ']', '{', '}', '=', '+', '/', '<', '>', '_',
        ],
        alphabet().len() == 64,
{
    reveal_strlit(" ABCDEFGHIJKLMNOPQRSTUVWXYZ0123456789.,!?-:;'\"@#$%&*()[]{}=+/<>_");
}

/// No symbol occurs twice, so a symbol's value is the one position it has;
/// every symbol is an ASCII character that folding leaves as it is.
pub proof fn lemma_alphabet_distinct()
    ensures
        alphabet().len() == 64,
        forall|i: int, j: int|
            0 <= i < 64 && 0 <= j < 64 && #[trigger] alphabet()[i] == #[trigger] alphabet()[j]
                ==> i == j,
        forall|i: int| 0 <= i < 64 ==> '\0' <= #[trigger] alphabet()[i] <= '\u{7f}',
        forall|i: int| 0 <= i < 64 ==> fold(#[trigger] alphabet()[i]) == alphabet()[i],
{
    lemma_alphabet_symbols();
    assert forall|i: int, j: int|
        0 <= i < 64 && 0 <= j < 64 && #[trigger] alphabet()[i] == #[trigger] alphabet()[j]
    implies i == j by {}
    assert forall|i: int| 0 <= i < 64 implies '\0' <= #[trigger] alphabet()[i] <= '\u{7f}' by {}
    assert forall|i: int| 0 <= i < 64 implies fold(#[trigger] alphabet()[i]) == alphabet()[i] by {}
}

/// A character whose folded form stands at position `i` of the alphabet is
/// supported, and `i` is its value.
pub proof fn lemma_symbol_found(c: char, i: int)
    requires
        0 <= i < 64,
        alphabet()[i] == fold(c),
    ensures
        supported(c),
        symbol_of(c) == i,
{
    lemma_alphabet_distinct();
}

/// The two lookups are inverse to each other on the 64 values: the symbol
/// of the value `i` has the value `i`.
pub proof fn lemma_symbol_of_symbol(i: int)
    requires
        0 <= i < 64,
    ensures
        supported(alphabet()[i]),
        symbol_of(alphabet()[i]) == i,
{
    lemma_alphabet_distinct();
}

/// A supported character has a value below 64, and the symbol of that value
/// is the character's folded form.
pub proof fn lemma_symbol_of_supported(c: char)
    requires
        supported(c),
    ensures
        symbol_of(c) < 64,
        alphabet()[symbol_of(c) as int] == fold(c),
{
    lemma_alphabet_symbols();
}

/// The alphabet as the table that the lookups read.
fn table() -> (t: &'static str)
    ensures
        t@ == alphabet(),
{
    " ABCDEFGHIJKLMNOPQRSTUVWXYZ0123456789.,!?-:;'\"@#$%&*()[]{}=+/<>_"
}

/// Folds a lower-case ASCII letter to upper case and leaves every other
/// character as it is.
pub fn to_upper(c: char) -> (r: char)
    ensures
        r == fold(c),
{
    if 'a' <= c && c <= 'z' {
        ((c as u8) - 32) as char
    } else {
        c
    }
}

/// The 6-bit value of `ch`: the position of its upper-case form in the
/// alphabet. A character outside the alphabet is refused.
pub fn char_to_6bit(ch: char) -> (r: Result<u8, CodecError>)
    ensures
        supported(ch) ==> r is Ok && r->Ok_0 == symbol_of(ch),
        !supported(ch) ==> r is Err && r->Err_0 == CodecError::UnsupportedCharacter,
        r is Ok ==> r->Ok_0 < 64 && alphabet()[r->Ok_0 as int] == fold(ch),
{
    let upper = to_upper(ch);
    let symbols_text = table();
    let symbols = symbols_text.as_bytes();
    proof {
        lemma_alphabet_distinct();
        vstd::string::is_ascii_spec_bytes(symbols_text);
    }
    let mut i: usize = 0;
    while i < ALPHABET_SIZE
        invariant
            0 <= i <= 64,
            upper == fold(ch),
            symbols@.len() == 64,
            alphabet().len() == 64,
            forall|k: int| 0 <= k < 64 ==> '\0' <= #[trigger] alphabet()[k] <= '\u{7f}',
            forall|k: int| 0 <= k < 64 ==> symbols@[k] == alphabet()[k] as u8,
            forall|k: int| 0 <= k < i ==> alphabet()[k] != upper,
        decreases 64 - i,
    {
        if symbols[i] as char == upper {
            proof {
                lemma_symbol_found(ch, i as int);
            }
            return Ok(i as u8);
        }
        i += 1;
    }
    Err(CodecError::UnsupportedCharacter)
}

/// The symbol that the 6-bit value `val` stands for. A value of 64 or more
/// names no symbol and is refused.
pub fn sixbit_to_char(val: u8) -> (r: Result<char, CodecError>)
    ensures
        val < 64 ==> r is Ok && r->Ok_0 == alphabet()[val as int],
        val >= 64 ==> r is Err && r->Err_0 == CodecError::InvalidSymbol,
{
    if (val as usize) < ALPHABET_SIZE {
        let symbols_text = table();
        let symbols = symbols_text.as_bytes();
        proof {
            lemma_alphabet_distinct();
            vstd::string::is_ascii_spec_bytes(symbols_text);
        }
        Ok(symbols[val as usize] as char)
    } else {
        Err(CodecError::InvalidSymbol)
    }
}

} // verus!
