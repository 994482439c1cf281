//! Six-bit packing: the symbols of a text written one after another, six
//! bits each and most significant bit first, and cut into bytes. The bits
//! that are left in the last byte are zero.

use crate::alphabet::{
    all_supported, char_to_6bit, chars_of, folded, lemma_alphabet_distinct,
    lemma_symbol_of_supported, sixbit_to_char, supported, symbols_of,
};
use crate::error::CodecError;
use crate::text::{text_chars, text_new, text_push, Text};
use vstd::prelude::*;
use vstd::utf8::{is_ascii_chars, is_ascii_chars_encode_utf8};

verus! {

/// Number of bytes that `n` symbols pack into: six bits each, rounded up to
/// whole bytes.
pub open spec fn packed_len(n: nat) -> nat {
    (n * 6 + 7) / 8
}

/// Bit `t` of a 6-bit value, counted from its most significant bit.
pub open spec fn symbol_bit(v: u8, t: int) -> bool {
    (v >> ((5 - t) as u8)) & 1 == 1
}

/// Bit `t` of a byte, counted from its most significant bit.
pub open spec fn byte_bit(b: u8, t: int) -> bool {
    (b >> ((7 - t) as u8)) & 1 == 1
}

/// The 6-bit value with the given bits, most significant first.
pub open spec fn symbol_of_bits(b0: bool, b1: bool, b2: bool, b3: bool, b4: bool, b5: bool) -> u8 {
    (if b0 { 0x20u8 } else { 0u8 }) | (if b1 { 0x10u8 } else { 0u8 })
    | (if b2 { 0x08u8 } else { 0u8 }) | (if b3 { 0x04u8 } else { 0u8 })
    | (if b4 { 0x02u8 } else { 0u8 }) | (if b5 { 0x01u8 } else { 0u8 })
}

/// The byte with the given bits, most significant first.
pub open spec fn byte_of_bits(
    b0: bool,
    b1: bool,
    b2: bool,
    b3: bool,
    b4: bool,
    b5: bool,
    b6: bool,
    b7: bool,
) -> u8 {
    (if b0 { 0x80u8 } else { 0u8 }) | (if b1 { 0x40u8 } else { 0u8 })
    | (if b2 { 0x20u8 } else { 0u8 }) | (if b3 { 0x10u8 } else { 0u8 })
    | (if b4 { 0x08u8 } else { 0u8 }) | (if b5 { 0x04u8 } else { 0u8 })
    | (if b6 { 0x02u8 } else { 0u8 }) | (if b7 { 0x01u8 } else { 0u8 })
}

/// Bit `k` of the stream that the symbols form when each is written with
/// six bits, the first symbol first. Past the last symbol the stream is zero.
pub open spec fn stream_bit(symbols: Seq<u8>, k: int) -> bool {
    0 <= k < 6 * symbols.len() && symbol_bit(symbols[k / 6], k % 6)
}

/// Byte `j` of the packed symbols: bits `8j` to `8j + 7` of their stream.
pub open spec fn packed_byte(symbols: Seq<u8>, j: int) -> u8 {
    byte_of_bits(
        stream_bit(symbols, 8 * j),
        stream_bit(symbols, 8 * j + 1),
        stream_bit(symbols, 8 * j + 2),
        stream_bit(symbols, 8 * j + 3),
        stream_bit(symbols, 8 * j + 4),
        stream_bit(symbols, 8 * j + 5),
        stream_bit(symbols, 8 * j + 6),
        stream_bit(symbols, 8 * j + 7),
    )
}

/// The packed form of a sequence of 6-bit values.
pub open spec fn pack(symbols: Seq<u8>) -> Seq<u8> {
    Seq::new(packed_len(symbols.len()), |j: int| packed_byte(symbols, j))
}

/// Bit `k` of a byte string, the first byte's most significant bit first.
pub open spec fn packed_bit(bytes: Seq<u8>, k: int) -> bool {
    0 <= k < 8 * bytes.len() && byte_bit(bytes[k / 8], k % 8)
}

/// The 6-bit value that bits `6i` to `6i + 5` of a byte string spell.
pub open spec fn symbol_at(bytes: Seq<u8>, i: int) -> u8 {
    symbol_of_bits(
        packed_bit(bytes, 6 * i),
        packed_bit(bytes, 6 * i + 1),
        packed_bit(bytes, 6 * i + 2),
        packed_bit(bytes, 6 * i + 3),
        packed_bit(bytes, 6 * i + 4),
        packed_bit(bytes, 6 * i + 5),
    )
}

/// The first `n` 6-bit values of a byte string.
pub open spec fn unpack(bytes: Seq<u8>, n: nat) -> Seq<u8> {
    Seq::new(n, |i: int| symbol_at(bytes, i))
}

/// Number of whole symbols that `len` bytes hold.
pub open spec fn symbols_in(len: nat) -> nat {
    (8 * len / 6) as nat
}

/// The failure of unpacking `n` characters from `len` bytes, if it fails.
/// Bytes that end before the `n`-th character are told first, whatever `n`
/// is; a count that the bytes do hold fails where it is more than the 64
/// characters that a text has room for.
pub open spec fn unpack_failure(len: nat, n: nat) -> Option<CodecError> {
    if symbols_in(len) < n {
        Some(CodecError::InsufficientPackedData)
    } else if n > 64 {
        Some(CodecError::CapacityExceeded)
    } else {
        None
    }
}

proof fn lemma_bits_zero()
    by (bit_vector)
    ensures
        byte_of_bits(false, false, false, false, false, false, false, false) == 0,
{
}

proof fn lemma_place_at_0(v: u8)
    by (bit_vector)
    requires
        v < 64,
    ensures
        byte_of_bits(
            symbol_bit(v, 0),
            symbol_bit(v, 1),
            symbol_bit(v, 2),
            symbol_bit(v, 3),
            symbol_bit(v, 4),
            symbol_bit(v, 5),
            false,
            false,
        ) == 0u8 | (v << 2u8),
{
}

proof fn lemma_place_at_2(a0: bool, a1: bool, v: u8)
    by (bit_vector)
    requires
        v < 64,
    ensures
        byte_of_bits(
            a0,
            a1,
            symbol_bit(v, 0),
            symbol_bit(v, 1),
            symbol_bit(v, 2),
            symbol_bit(v, 3),
            symbol_bit(v, 4),
            symbol_bit(v, 5),
        ) == byte_of_bits(a0, a1, false, false, false, false, false, false) | (v << 0u8),
{
}

proof fn lemma_place_at_4(a0: bool, a1: bool, a2: bool, a3: bool, v: u8)
    by (bit_vector)
    requires
        v < 64,
    ensures
        byte_of_bits(
            a0,
            a1,
            a2,
            a3,
            symbol_bit(v, 0),
            symbol_bit(v, 1),
            symbol_bit(v, 2),
            symbol_bit(v, 3),
        ) == byte_of_bits(a0, a1, a2, a3, false, false, false, false) | (v >> 2u8),
        byte_of_bits(symbol_bit(v, 4), symbol_bit(v, 5), false, false, false, false, false, false)
            == 0u8 | (v << 6u8),
{
}

proof fn lemma_place_at_6(a0: bool, a1: bool, a2: bool, a3: bool, a4: bool, a5: bool, v: u8)
    by (bit_vector)
    requires
        v < 64,
    ensures
        byte_of_bits(a0, a1, a2, a3, a4, a5, symbol_bit(v, 0), symbol_bit(v, 1)) == byte_of_bits(
            a0,
            a1,
            a2,
            a3,
            a4,
            a5,
            false,
            false,
        ) | (v >> 4u8),
        byte_of_bits(
            symbol_bit(v, 2),
            symbol_bit(v, 3),
            symbol_bit(v, 4),
            symbol_bit(v, 5),
            false,
            false,
            false,
            false,
        ) == 0u8 | (v << 4u8),
{
}

/// What one more symbol does to the packed bytes: it is or-ed into the byte
/// that its first bit falls in and, where it crosses a byte boundary, into
/// the next; every other byte stays.
proof fn lemma_pack_push(symbols: Seq<u8>, v: u8)
    requires
        v < 64,
    ensures
        ({
            let at = 6 * (symbols.len() as int) / 8;
            let bit = 6 * (symbols.len() as int) % 8;
            let more = symbols.push(v);
            &&& bit == 0 || bit == 2 || bit == 4 || bit == 6
            &&& forall|j: int|
                0 <= j && j != at && j != at + 1 ==> #[trigger] packed_byte(more, j)
                    == packed_byte(symbols, j)
            &&& bit == 0 ==> packed_byte(more, at) == packed_byte(symbols, at) | (v << 2u8)
            &&& bit == 2 ==> packed_byte(more, at) == packed_byte(symbols, at) | (v << 0u8)
            &&& bit == 4 ==> packed_byte(more, at) == packed_byte(symbols, at) | (v >> 2u8)
            &&& bit == 6 ==> packed_byte(more, at) == packed_byte(symbols, at) | (v >> 4u8)
            &&& bit <= 2 ==> packed_byte(more, at + 1) == packed_byte(symbols, at + 1)
            &&& bit == 4 ==> packed_byte(more, at + 1) == packed_byte(symbols, at + 1) | (v << 6u8)
            &&& bit == 6 ==> packed_byte(more, at + 1) == packed_byte(symbols, at + 1) | (v << 4u8)
        }),
{
    let n = symbols.len() as int;
    let at = 6 * n / 8;
    let bit = 6 * n % 8;
    let more = symbols.push(v);
    assert forall|k: int| k < 6 * n implies stream_bit(more, k) == stream_bit(symbols, k) by {}
    assert forall|k: int| 6 * n <= k < 6 * n + 6 implies stream_bit(more, k) == symbol_bit(
        v,
        k - 6 * n,
    ) && !stream_bit(symbols, k) by {}
    assert forall|k: int| 6 * n + 6 <= k implies !stream_bit(more, k) && !stream_bit(
        symbols,
        k,
    ) by {}
    lemma_bits_zero();
    if bit == 0 {
        lemma_place_at_0(v);
    } else if bit == 2 {
        lemma_place_at_2(stream_bit(symbols, 8 * at), stream_bit(symbols, 8 * at + 1), v);
    } else if bit == 4 {
        lemma_place_at_4(
            stream_bit(symbols, 8 * at),
            stream_bit(symbols, 8 * at + 1),
            stream_bit(symbols, 8 * at + 2),
            stream_bit(symbols, 8 * at + 3),
            v,
        );
    } else {
        lemma_place_at_6(
            stream_bit(symbols, 8 * at),
            stream_bit(symbols, 8 * at + 1),
            stream_bit(symbols, 8 * at + 2),
            stream_bit(symbols, 8 * at + 3),
            stream_bit(symbols, 8 * at + 4),
            stream_bit(symbols, 8 * at + 5),
            v,
        );
    }
    assert forall|j: int| 0 <= j && j != at && j != at + 1 implies #[trigger] packed_byte(more, j)
        == packed_byte(symbols, j) by {}
}

proof fn lemma_read_at_0(b: u8)
    by (bit_vector)
    ensures
        symbol_of_bits(
            byte_bit(b, 0),
            byte_bit(b, 1),
            byte_bit(b, 2),
            byte_bit(b, 3),
            byte_bit(b, 4),
            byte_bit(b, 5),
        ) == (b >> 2u8) & 0x3F,
{
}

proof fn lemma_read_at_2(b: u8)
    by (bit_vector)
    ensures
        symbol_of_bits(
            byte_bit(b, 2),
            byte_bit(b, 3),
            byte_bit(b, 4),
            byte_bit(b, 5),
            byte_bit(b, 6),
            byte_bit(b, 7),
        ) == (b >> 0u8) & 0x3F,
{
}

proof fn lemma_read_at_4(b: u8, c: u8)
    by (bit_vector)
    ensures
        symbol_of_bits(
            byte_bit(b, 4),
            byte_bit(b, 5),
            byte_bit(b, 6),
            byte_bit(b, 7),
            byte_bit(c, 0),
            byte_bit(c, 1),
        ) == ((b & 15) << 2u8) | (c >> 6u8),
{
}

proof fn lemma_read_at_6(b: u8, c: u8)
    by (bit_vector)
    ensures
        symbol_of_bits(
            byte_bit(b, 6),
            byte_bit(b, 7),
            byte_bit(c, 0),
            byte_bit(c, 1),
            byte_bit(c, 2),
            byte_bit(c, 3),
        ) == ((b & 3) << 4u8) | (c >> 4u8),
{
}

/// The masks of the low four and the low two bits.
proof fn lemma_low_bits()
    by (bit_vector)
    ensures
        (1u8 << 4u8) - 1 == 15,
        (1u8 << 2u8) - 1 == 3,
{
}

proof fn lemma_symbol_range(b0: bool, b1: bool, b2: bool, b3: bool, b4: bool, b5: bool)
    by (bit_vector)
    ensures
        symbol_of_bits(b0, b1, b2, b3, b4, b5) < 64,
{
}

/// How a symbol is read out of the bytes that hold it: from one byte where
/// its six bits lie in it, from two where they cross into the next.
proof fn lemma_symbol_at(bytes: Seq<u8>, i: int)
    requires
        0 <= i,
        6 * (i + 1) <= 8 * bytes.len(),
    ensures
        ({
            let at = 6 * i / 8;
            let bit = 6 * i % 8;
            &&& bit == 0 || bit == 2 || bit == 4 || bit == 6
            &&& 0 <= at < bytes.len()
            &&& bit >= 4 ==> at + 1 < bytes.len()
            &&& bit == 0 ==> symbol_at(bytes, i) == (bytes[at] >> 2u8) & 0x3F
            &&& bit == 2 ==> symbol_at(bytes, i) == (bytes[at] >> 0u8) & 0x3F
            &&& bit == 4 ==> symbol_at(bytes, i) == ((bytes[at] & 15) << 2u8) | (bytes[at + 1]
                >> 6u8)
            &&& bit == 6 ==> symbol_at(bytes, i) == ((bytes[at] & 3) << 4u8) | (bytes[at + 1]
                >> 4u8)
            &&& symbol_at(bytes, i) < 64
        }),
{
    let at = 6 * i / 8;
    let bit = 6 * i % 8;
    lemma_symbol_range(
        packed_bit(bytes, 6 * i),
        packed_bit(bytes, 6 * i + 1),
        packed_bit(bytes, 6 * i + 2),
        packed_bit(bytes, 6 * i + 3),
        packed_bit(bytes, 6 * i + 4),
        packed_bit(bytes, 6 * i + 5),
    );
    if bit == 0 {
        lemma_read_at_0(bytes[at]);
    } else if bit == 2 {
        lemma_read_at_2(bytes[at]);
    } else if bit == 4 {
        lemma_read_at_4(bytes[at], bytes[at + 1]);
    } else {
        lemma_read_at_6(bytes[at], bytes[at + 1]);
    }
}

proof fn lemma_bits_of_byte(
    b0: bool,
    b1: bool,
    b2: bool,
    b3: bool,
    b4: bool,
    b5: bool,
    b6: bool,
    b7: bool,
)
    by (bit_vector)
    ensures
        byte_bit(byte_of_bits(b0, b1, b2, b3, b4, b5, b6, b7), 0) == b0,
        byte_bit(byte_of_bits(b0, b1, b2, b3, b4, b5, b6, b7), 1) == b1,
        byte_bit(byte_of_bits(b0, b1, b2, b3, b4, b5, b6, b7), 2) == b2,
        byte_bit(byte_of_bits(b0, b1, b2, b3, b4, b5, b6, b7), 3) == b3,
        byte_bit(byte_of_bits(b0, b1, b2, b3, b4, b5, b6, b7), 4) == b4,
        byte_bit(byte_of_bits(b0, b1, b2, b3, b4, b5, b6, b7), 5) == b5,
        byte_bit(byte_of_bits(b0, b1, b2, b3, b4, b5, b6, b7), 6) == b6,
        byte_bit(byte_of_bits(b0, b1, b2, b3, b4, b5, b6, b7), 7) == b7,
{
}

proof fn lemma_symbol_of_its_bits(v: u8)
    by (bit_vector)
    requires
        v < 64,
    ensures
        symbol_of_bits(
            symbol_bit(v, 0),
            symbol_bit(v, 1),
            symbol_bit(v, 2),
            symbol_bit(v, 3),
            symbol_bit(v, 4),
            symbol_bit(v, 5),
        ) == v,
{
}

/// The packed bytes hold the stream bit for bit.
pub proof fn lemma_packed_bit(symbols: Seq<u8>, k: int)
    requires
        0 <= k < 8 * packed_len(symbols.len()),
    ensures
        packed_bit(pack(symbols), k) == stream_bit(symbols, k),
{
    let j = k / 8;
    lemma_bits_of_byte(
        stream_bit(symbols, 8 * j),
        stream_bit(symbols, 8 * j + 1),
        stream_bit(symbols, 8 * j + 2),
        stream_bit(symbols, 8 * j + 3),
        stream_bit(symbols, 8 * j + 4),
        stream_bit(symbols, 8 * j + 5),
        stream_bit(symbols, 8 * j + 6),
        stream_bit(symbols, 8 * j + 7),
    );
}

/// Unpacking what was packed gives the symbols back.
pub proof fn lemma_unpack_pack(symbols: Seq<u8>)
    requires
        forall|i: int| 0 <= i < symbols.len() ==> symbols[i] < 64,
    ensures
        unpack(pack(symbols), symbols.len()) == symbols,
{
    let bytes = pack(symbols);
    assert forall|i: int| 0 <= i < symbols.len() implies symbol_at(bytes, i) == symbols[i] by {
        assert forall|t: int| 0 <= t < 6 implies packed_bit(bytes, 6 * i + t) == symbol_bit(
            symbols[i],
            t,
        ) by {
            lemma_packed_bit(symbols, 6 * i + t);
        }
        lemma_symbol_of_its_bits(symbols[i]);
    }
}

/// A packed text unpacks to the text in upper case, and its packed bytes
/// hold as many characters as it has.
pub proof fn lemma_unpack_packed_text(text: Seq<char>)
    requires
        all_supported(text),
    ensures
        text.len() <= symbols_in(packed_len(text.len())),
        chars_of(unpack(pack(symbols_of(text)), text.len())) == folded(text),
{
    let symbols = symbols_of(text);
    assert forall|i: int| 0 <= i < symbols.len() implies symbols[i] < 64 by {
        lemma_symbol_of_supported(text[i]);
    }
    lemma_unpack_pack(symbols);
    assert(chars_of(symbols) =~= folded(text)) by {
        assert forall|i: int| 0 <= i < text.len() implies chars_of(symbols)[i] == folded(
            text,
        )[i] by {
            lemma_symbol_of_supported(text[i]);
        }
    }
}

/// Whatever the bytes are, what is unpacked from them are symbols of the
/// alphabet, which are ASCII characters.
pub proof fn lemma_unpacked_chars(bytes: Seq<u8>, n: nat)
    ensures
        forall|i: int| 0 <= i < n ==> #[trigger] unpack(bytes, n)[i] < 64,
        chars_of(unpack(bytes, n)).len() == n,
        is_ascii_chars(chars_of(unpack(bytes, n))),
{
    lemma_alphabet_distinct();
    assert forall|i: int| 0 <= i < n implies #[trigger] unpack(bytes, n)[i] < 64 by {
        lemma_symbol_range(
            packed_bit(bytes, 6 * i),
            packed_bit(bytes, 6 * i + 1),
            packed_bit(bytes, 6 * i + 2),
            packed_bit(bytes, 6 * i + 3),
            packed_bit(bytes, 6 * i + 4),
            packed_bit(bytes, 6 * i + 5),
        );
    }
}

/// Packs a text: each character is mapped to its 6-bit value, lower-case
/// letters as their upper-case forms, and the values are written one after
/// another, most significant bit first; the bits left in the last byte are
/// zero. A text of `n` characters gives `ceil(6n / 8)` bytes. A text with a
/// character outside the alphabet is refused.
pub fn pack_text(text: &str) -> (r: Result<Vec<u8>, CodecError>)
    ensures
        all_supported(text@) ==> r is Ok && r->Ok_0@ == pack(symbols_of(text@)),
        !all_supported(text@) ==> r is Err && r->Err_0 == CodecError::UnsupportedCharacter,
        r is Ok ==> r->Ok_0@.len() == packed_len(text@.len()),
{
    let char_count = text.unicode_len();
    // Six bits a character, rounded up, without a product that could overflow.
    let byte_count = char_count / 4 * 3 + (char_count % 4 * 6 + 7) / 8;
    let mut result = vec![0u8; byte_count];
    let mut byte_idx: usize = 0;
    let mut bit_in_byte: usize = 0;
    proof {
        lemma_bits_zero();
    }
    for ch in it: text.chars()
        invariant
            it.seq() == text@,
            char_count == text@.len(),
            byte_count == packed_len(text@.len()),
            6 * text@.len() <= 8 * byte_count,
            result@.len() == byte_count,
            8 * byte_idx + bit_in_byte == 6 * it.index(),
            bit_in_byte < 8,
            forall|k: int| 0 <= k < it.index() ==> supported(#[trigger] text@[k]),
            forall|j: int|
                0 <= j < byte_count ==> #[trigger] result@[j] == packed_byte(
                    symbols_of(text@.take(it.index() as int)),
                    j,
                ),
    {
        let ghost i = it.index() as int;
        let ghost before = symbols_of(text@.take(i));
        let value = match char_to_6bit(ch) {
            Ok(v) => v,
            Err(e) => {
                return Err(e);
            },
        };
        proof {
            assert(symbols_of(text@.take(i + 1)) =~= before.push(value));
            lemma_pack_push(before, value);
        }
        if bit_in_byte <= 2 {
            // The six bits lie within the current byte.
            result[byte_idx] |= value << (2 - bit_in_byte);
        } else {
            // The six bits cross into the next byte.
            let bits_in_first = 8 - bit_in_byte;
            let bits_in_second = 6 - bits_in_first;
            result[byte_idx] |= value >> bits_in_second;
            if byte_idx + 1 < result.len() {
                result[byte_idx + 1] |= value << (8 - bits_in_second);
            }
        }
        bit_in_byte += 6;
        if bit_in_byte >= 8 {
            bit_in_byte -= 8;
            byte_idx += 1;
        }
    }
    Ok(result)
}

/// Unpacks `char_count` characters from `packed`: reads six bits for each,
/// from the most significant bit of the first byte on, and maps each value
/// back through the alphabet. Fails where the bytes end before the last
/// character; the count is held against the bytes before anything is read.
/// Fails, too, where the bytes are there and the text has no room for as
/// many characters.
pub fn unpack_text(packed: &[u8], char_count: usize) -> (r: Result<Text, CodecError>)
    ensures
        match unpack_failure(packed@.len(), char_count as nat) {
            None => r is Ok && text_chars(r->Ok_0) == chars_of(
                unpack(packed@, char_count as nat),
            ),
            Some(e) => r is Err && r->Err_0 == e,
        },
{
    // Six bits a character, rounded up, without a product that could overflow.
    let needed = char_count / 4 * 3 + (char_count % 4 * 6 + 7) / 8;
    if needed > packed.len() {
        return Err(CodecError::InsufficientPackedData);
    }
    let mut result = text_new();
    let mut bit_offset: usize = 0;
    let mut i: usize = 0;
    while i < char_count
        invariant
            i <= char_count,
            i <= 64,
            bit_offset == 6 * i,
            char_count <= symbols_in(packed@.len()),
            text_chars(result) == chars_of(unpack(packed@, i as nat)),
        decreases char_count - i,
    {
        let byte_idx = bit_offset / 8;
        let bit_in_byte = bit_offset % 8;
        proof {
            lemma_symbol_at(packed@, i as int);
            lemma_low_bits();
        }
        let value = if bit_in_byte <= 2 {
            // The six bits lie within the current byte.
            (packed[byte_idx] >> (2 - bit_in_byte)) & 0x3F
        } else {
            // The six bits cross into the next byte.
            let bits_in_first = 8 - bit_in_byte;
            let bits_in_second = 6 - bits_in_first;
            let first_part = packed[byte_idx] & ((1 << bits_in_first) - 1);
            let second_part = packed[byte_idx + 1] >> (8 - bits_in_second);
            (first_part << bits_in_second) | second_part
        };
        let ch = match sixbit_to_char(value) {
            Ok(c) => c,
            Err(e) => {
                return Err(e);
            },
        };
        proof {
            let held = text_chars(result);
            assert(chars_of(unpack(packed@, (i + 1) as nat)) =~= held.push(ch));
            lemma_unpacked_chars(packed@, (i + 1) as nat);
            is_ascii_chars_encode_utf8(held.push(ch));
        }
        match text_push(&mut result, ch) {
            Ok(()) => {},
            Err(()) => {
                return Err(CodecError::CapacityExceeded);
            },
        }
        bit_offset += 6;
        i += 1;
    }
    Ok(result)
}

} // verus!
