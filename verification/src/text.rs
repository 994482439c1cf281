//! The text of a message: a `heapless::String` of 64 bytes, kept on the stack.
//!
//! Verus does not look inside the string. What it holds goes by the name
//! [`text_chars`], and [`text_new`], [`text_push`] and [`text_str`] say of
//! `heapless` what the rest of the crate relies on.

use vstd::prelude::*;
use vstd::utf8::encode_utf8;

verus! {

/// Bytes that a message's text has room for.
pub const TEXT_CAPACITY: usize = 64;

/// The text of a message.
pub type Text = heapless::String<64>;

/// `heapless::String`: a string of at most `N` bytes. Nothing is said of
/// what is inside; a value of it is carried as it is.
#[verifier::external_type_specification]
#[verifier::external_body]
pub struct ExHeaplessString<const N: usize>(heapless::String<N>);

/// The characters that a `heapless::String` of 64 bytes holds, in order.
pub uninterp spec fn text_chars(s: heapless::String<64>) -> Seq<char>;

/// `heapless::String::new`: a text that holds no character.
#[verifier::external_body]
pub(crate) fn text_new() -> (s: Text)
    ensures
        text_chars(s) == Seq::<char>::empty(),
{
    heapless::String::new()
}

/// `heapless::String::push`: appends `c` where its UTF-8 bytes still fit in
/// the 64 bytes of the text, and otherwise fails and leaves the text as it
/// was.
#[verifier::external_body]
pub(crate) fn text_push(s: &mut Text, c: char) -> (r: Result<(), ()>)
    ensures
        r is Ok <==> encode_utf8(text_chars(*old(s)).push(c)).len() <= 64,
        r is Ok ==> text_chars(*final(s)) == text_chars(*old(s)).push(c),
        r is Err ==> text_chars(*final(s)) == text_chars(*old(s)),
{
    s.push(c)
}

/// `heapless::String::as_str`: the text as a string slice of the same
/// characters, which are at most 64 bytes of UTF-8.
#[verifier::external_body]
pub(crate) fn text_str(s: &Text) -> (r: &str)
    ensures
        r@ == text_chars(*s),
        encode_utf8(r@).len() <= 64,
{
    s.as_str()
}

/// The beginning of a string takes no more bytes than the string.
proof fn lemma_prefix_fits(chars: Seq<char>, k: int)
    requires
        0 <= k <= chars.len(),
    ensures
        encode_utf8(chars.take(k)).len() <= encode_utf8(chars).len(),
    decreases chars.len(),
{
    if k > 0 {
        lemma_prefix_fits(chars.drop_first(), k - 1);
        assert(chars.take(k).drop_first() =~= chars.drop_first().take(k - 1));
    }
}

/// A text of the same characters as `s`.
pub fn text_copy(s: &Text) -> (r: Text)
    ensures
        text_chars(r) == text_chars(*s),
{
    let source = text_str(s);
    let mut copy = text_new();
    for c in it: source.chars()
        invariant
            it.seq() == source@,
            source@ == text_chars(*s),
            encode_utf8(source@).len() <= 64,
            text_chars(copy) == source@.take(it.index() as int),
    {
        proof {
            let i = it.index() as int;
            assert(source@.take(i + 1) =~= source@.take(i).push(c));
            lemma_prefix_fits(source@, i + 1);
        }
        // The characters come out of a text, so each of them fits.
        let _ = text_push(&mut copy, c);
    }
    proof {
        assert(source@.take(source@.len() as int) =~= source@);
    }
    copy
}

} // verus!
