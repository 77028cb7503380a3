//! Facts about the UTF-8 encoding of text that the rest of the library
//! needs: sizes are counted in bytes, contents are stated over characters.

use vstd::prelude::*;
use vstd::utf8::*;

verus! {

/// The byte `\n`.
pub const LINE_FEED: u8 = 10;

/// Encoding a concatenation gives the concatenation of the encodings.
pub proof fn lemma_encode_concat(a: Seq<char>, b: Seq<char>)
    ensures
        encode_utf8(a + b) == encode_utf8(a) + encode_utf8(b),
    decreases a.len(),
{
    if a.len() == 0 {
        assert(a + b =~= b);
        assert(encode_utf8(a) + encode_utf8(b) =~= encode_utf8(b));
    } else {
        assert((a + b).drop_first() =~= a.drop_first() + b);
        lemma_encode_concat(a.drop_first(), b);
        assert(encode_utf8(a + b) =~= encode_utf8(a) + encode_utf8(b));
    }
}

/// Two texts with the same encoding are the same text.
pub proof fn lemma_encode_injective(a: Seq<char>, b: Seq<char>)
    requires
        encode_utf8(a) == encode_utf8(b),
    ensures
        a == b,
{
    encode_utf8_decode_utf8(a);
    encode_utf8_decode_utf8(b);
}

/// In well-formed UTF-8 a character starts right after every ASCII byte.
pub proof fn lemma_boundary_after_ascii(bytes: Seq<u8>, index: int)
    requires
        valid_utf8(bytes),
        0 < index <= bytes.len(),
        bytes[index - 1] <= 0x7f,
    ensures
        is_char_boundary(bytes, index),
    decreases bytes.len(),
{
    let width = length_of_first_scalar(bytes);
    let rest = pop_first_scalar(bytes);
    assert(valid_first_scalar(bytes) && valid_utf8(rest));
    assert(1 <= width <= bytes.len());
    if index < width {
        assert(index - 1 >= 1 ==> is_continuation_byte(bytes[index - 1]));
        assert(false);
    } else if index == width {
        assert(is_char_boundary(rest, 0));
    } else {
        assert(rest[index - width - 1] == bytes[index - 1]);
        lemma_boundary_after_ascii(rest, index - width);
    }
}

} // verus!
