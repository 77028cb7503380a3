//! Paragraph-aware splitting of a message into transport-sized chunks.
//!
//! Sizes are counted in bytes of the UTF-8 encoding, so the model of a
//! message is its encoding, a `Seq<u8>`. A paragraph unit is a maximal run
//! of bytes up to and including the next blank-line separator (two line
//! feeds); the last unit may lack the separator. Chunks are built greedily
//! from consecutive units and never cut a unit.

use vstd::prelude::*;
use vstd::utf8::*;
use vstd::string::*;
use crate::encoding::{
    lemma_boundary_after_ascii, lemma_encode_concat, lemma_encode_injective, LINE_FEED,
};

verus! {

/// Length of the paragraph unit that starts at `from`: up to and including
/// the first pair of line feeds at or after `from`, or up to the end of
/// `bytes` where there is no such pair. Zero only at the end of `bytes`.
pub open spec fn unit_len(bytes: Seq<u8>, from: int) -> nat
    decreases bytes.len() - from,
{
    if from < 0 || from >= bytes.len() {
        0
    } else if from + 1 < bytes.len() && bytes[from] == LINE_FEED && bytes[from + 1] == LINE_FEED {
        2
    } else {
        1 + unit_len(bytes, from + 1)
    }
}

/// The paragraph units of `bytes` from position `from` on, in order.
pub open spec fn units_from(bytes: Seq<u8>, from: int) -> Seq<Seq<u8>>
    decreases bytes.len() - from,
{
    if from < 0 || from >= bytes.len() {
        Seq::empty()
    } else {
        proof {
            lemma_unit_len(bytes, from);
        }
        let end = from + unit_len(bytes, from);
        seq![bytes.subrange(from, end)] + units_from(bytes, end)
    }
}

/// The paragraph units of a whole message.
pub open spec fn paragraph_units(bytes: Seq<u8>) -> Seq<Seq<u8>> {
    units_from(bytes, 0)
}

/// Greedy accumulation: `buffer` holds the units gathered so far. A unit
/// that would push the buffer over `max_len` closes the buffer as a chunk and
/// opens a new one; an empty buffer is never closed. What is left in the
/// buffer after the last unit is the last chunk.
pub open spec fn greedy_chunks(units: Seq<Seq<u8>>, buffer: Seq<u8>, max_len: nat) -> Seq<Seq<u8>>
    decreases units.len(),
{
    if units.len() == 0 {
        if buffer.len() == 0 {
            Seq::empty()
        } else {
            seq![buffer]
        }
    } else if buffer.len() > 0 && buffer.len() + units[0].len() > max_len {
        seq![buffer] + greedy_chunks(units.drop_first(), units[0], max_len)
    } else {
        greedy_chunks(units.drop_first(), buffer + units[0], max_len)
    }
}

/// The chunks of a message that is sent in several parts.
pub open spec fn multipart_chunks(bytes: Seq<u8>, max_len: nat) -> Seq<Seq<u8>> {
    greedy_chunks(paragraph_units(bytes), Seq::empty(), max_len)
}

/// The chunks in which a message is delivered: the message itself where it
/// fits, else its multipart chunks.
pub open spec fn delivery_chunks(bytes: Seq<u8>, max_len: nat) -> Seq<Seq<u8>> {
    if bytes.len() <= max_len {
        seq![bytes]
    } else {
        multipart_chunks(bytes, max_len)
    }
}

/// The texts that a list of encodings stands for, in order.
pub open spec fn decoded(chunks: Seq<Seq<u8>>) -> Seq<Seq<char>> {
    Seq::new(chunks.len(), |i: int| decode_utf8(chunks[i]))
}

/// The chunks of a text that is sent in several parts, as texts.
pub open spec fn multipart_texts(message: Seq<char>, max_len: nat) -> Seq<Seq<char>> {
    decoded(multipart_chunks(encode_utf8(message), max_len))
}

/// The chunks in which a text is delivered, as texts.
pub open spec fn chunk_texts(message: Seq<char>, max_len: nat) -> Seq<Seq<char>> {
    decoded(delivery_chunks(encode_utf8(message), max_len))
}

/// Whether every sequence of bytes in a list is well-formed UTF-8.
pub open spec fn all_valid(chunks: Seq<Seq<u8>>) -> bool {
    forall|i: int| 0 <= i < chunks.len() ==> valid_utf8(#[trigger] chunks[i])
}

/// Whether no paragraph unit of a message is longer than the limit.
pub open spec fn units_fit(bytes: Seq<u8>, max_len: nat) -> bool {
    forall|i: int|
        0 <= i < paragraph_units(bytes).len() ==> (#[trigger] paragraph_units(bytes)[i]).len()
            <= max_len
}

/// The texts of a list of strings, in order.
pub open spec fn texts_of(strings: Seq<String>) -> Seq<Seq<char>> {
    Seq::new(strings.len(), |i: int| strings[i]@)
}

/// The encodings of a list of texts, in order.
pub open spec fn encoded(texts: Seq<Seq<char>>) -> Seq<Seq<u8>> {
    Seq::new(texts.len(), |i: int| encode_utf8(texts[i]))
}

/// A unit that starts inside the message is not empty, stays inside the
/// message, and ends with the separator unless it ends the message.
pub proof fn lemma_unit_len(bytes: Seq<u8>, from: int)
    requires
        0 <= from < bytes.len(),
    ensures
        1 <= unit_len(bytes, from),
        from + unit_len(bytes, from) <= bytes.len(),
        from + unit_len(bytes, from) < bytes.len() ==> {
            &&& unit_len(bytes, from) >= 2
            &&& bytes[from + unit_len(bytes, from) - 2] == LINE_FEED
            &&& bytes[from + unit_len(bytes, from) - 1] == LINE_FEED
        },
    decreases bytes.len() - from,
{
    if from + 1 < bytes.len() && bytes[from] == LINE_FEED && bytes[from + 1] == LINE_FEED {
    } else if from + 1 < bytes.len() {
        lemma_unit_len(bytes, from + 1);
    } else {
        assert(unit_len(bytes, from + 1) == 0);
    }
}

/// A unit is cut at the first separator: no pair of line feeds lies in it
/// before its last two bytes.
pub proof fn lemma_unit_ends_at_first_separator(bytes: Seq<u8>, from: int, i: int)
    requires
        0 <= from <= i,
        i + 2 < from + unit_len(bytes, from),
    ensures
        !(bytes[i] == LINE_FEED && bytes[i + 1] == LINE_FEED),
    decreases i - from,
{
    if from < bytes.len() {
        lemma_unit_len(bytes, from);
        if i > from {
            lemma_unit_ends_at_first_separator(bytes, from + 1, i);
        }
    }
}

/// Finds where the paragraph unit that starts at `from` ends.
pub(crate) fn unit_end(bytes: &[u8], from: usize) -> (end: usize)
    requires
        from < bytes@.len(),
    ensures
        end == from + unit_len(bytes@, from as int),
        from < end <= bytes@.len(),
        end < bytes@.len() ==> bytes@[end - 1] == LINE_FEED,
{
    let len = bytes.len();
    let mut i = from;
    proof {
        lemma_unit_len(bytes@, from as int);
    }
    while i < len
        invariant
            len == bytes@.len(),
            from <= i <= len,
            from + unit_len(bytes@, from as int) == i + unit_len(bytes@, i as int),
        decreases len - i,
    {
        if i + 1 < len && bytes[i] == LINE_FEED && bytes[i + 1] == LINE_FEED {
            return i + 2;
        }
        i += 1;
    }
    i
}

/// The units from any position on make up the rest of the message.
pub proof fn lemma_units_reconstitute(bytes: Seq<u8>, from: int)
    requires
        0 <= from <= bytes.len(),
    ensures
        units_from(bytes, from).flatten() == bytes.subrange(from, bytes.len() as int),
    decreases bytes.len() - from,
{
    if from >= bytes.len() {
        assert(bytes.subrange(from, bytes.len() as int) =~= Seq::<u8>::empty());
    } else {
        lemma_unit_len(bytes, from);
        let end = from + unit_len(bytes, from);
        let first = bytes.subrange(from, end);
        let units = units_from(bytes, from);
        lemma_units_reconstitute(bytes, end);
        assert(units.first() == first);
        assert(units.drop_first() =~= units_from(bytes, end));
        assert(first + bytes.subrange(end, bytes.len() as int) =~= bytes.subrange(
            from,
            bytes.len() as int,
        ));
    }
}

/// No paragraph unit is empty.
pub proof fn lemma_units_not_empty(bytes: Seq<u8>, from: int)
    requires
        0 <= from <= bytes.len(),
    ensures
        forall|i: int|
            0 <= i < units_from(bytes, from).len() ==> (#[trigger] units_from(bytes, from)[i]).len()
                > 0,
    decreases bytes.len() - from,
{
    if from < bytes.len() {
        lemma_unit_len(bytes, from);
        let end = from + unit_len(bytes, from);
        let units = units_from(bytes, from);
        lemma_units_not_empty(bytes, end);
        assert forall|i: int| 0 <= i < units.len() implies (#[trigger] units[i]).len() > 0 by {
            if i > 0 {
                assert(units[i] == units_from(bytes, end)[i - 1]);
            }
        }
    }
}

/// Greedy accumulation loses and adds nothing: the chunks, one after the
/// other, are the buffer followed by the units.
pub proof fn lemma_greedy_reconstitutes(units: Seq<Seq<u8>>, buffer: Seq<u8>, max_len: nat)
    ensures
        greedy_chunks(units, buffer, max_len).flatten() == buffer + units.flatten(),
    decreases units.len(),
{
    let chunks = greedy_chunks(units, buffer, max_len);
    if units.len() == 0 {
        if buffer.len() == 0 {
            assert(chunks.flatten() =~= buffer + units.flatten());
        } else {
            chunks.lemma_flatten_one_element();
            assert(chunks.flatten() =~= buffer + units.flatten());
        }
    } else if buffer.len() > 0 && buffer.len() + units[0].len() > max_len {
        let rest = greedy_chunks(units.drop_first(), units[0], max_len);
        lemma_greedy_reconstitutes(units.drop_first(), units[0], max_len);
        assert(chunks.first() == buffer);
        assert(chunks.drop_first() =~= rest);
    } else {
        lemma_greedy_reconstitutes(units.drop_first(), buffer + units[0], max_len);
        assert((buffer + units[0]) + units.drop_first().flatten() =~= buffer + units.flatten());
    }
}

/// Where neither the buffer nor any unit is longer than the limit, no chunk is.
pub proof fn lemma_greedy_fits(units: Seq<Seq<u8>>, buffer: Seq<u8>, max_len: nat)
    requires
        buffer.len() <= max_len,
        forall|i: int| 0 <= i < units.len() ==> (#[trigger] units[i]).len() <= max_len,
    ensures
        forall|j: int|
            0 <= j < greedy_chunks(units, buffer, max_len).len() ==> (#[trigger] greedy_chunks(
                units,
                buffer,
                max_len,
            )[j]).len() <= max_len,
    decreases units.len(),
{
    if units.len() == 0 {
    } else {
        let rest = units.drop_first();
        assert forall|i: int| 0 <= i < rest.len() implies (#[trigger] rest[i]).len() <= max_len by {
            assert(rest[i] == units[i + 1]);
        }
        let chunks = greedy_chunks(units, buffer, max_len);
        if buffer.len() > 0 && buffer.len() + units[0].len() > max_len {
            let tail = greedy_chunks(rest, units[0], max_len);
            lemma_greedy_fits(rest, units[0], max_len);
            assert forall|j: int| 0 <= j < chunks.len() implies (#[trigger] chunks[j]).len() <= max_len by {
                if j > 0 {
                    assert(chunks[j] == tail[j - 1]);
                }
            }
        } else {
            assert(units[0].len() <= max_len);
            assert((buffer + units[0]).len() <= max_len);
            lemma_greedy_fits(rest, buffer + units[0], max_len);
            assert(chunks == greedy_chunks(rest, buffer + units[0], max_len));
        }
    }
}

/// Where no unit is empty, no chunk is.
pub proof fn lemma_greedy_not_empty(units: Seq<Seq<u8>>, buffer: Seq<u8>, max_len: nat)
    requires
        forall|i: int| 0 <= i < units.len() ==> (#[trigger] units[i]).len() > 0,
    ensures
        forall|j: int|
            0 <= j < greedy_chunks(units, buffer, max_len).len() ==> (#[trigger] greedy_chunks(
                units,
                buffer,
                max_len,
            )[j]).len() > 0,
    decreases units.len(),
{
    if units.len() == 0 {
    } else {
        let rest = units.drop_first();
        assert forall|i: int| 0 <= i < rest.len() implies (#[trigger] rest[i]).len() > 0 by {
            assert(rest[i] == units[i + 1]);
        }
        let chunks = greedy_chunks(units, buffer, max_len);
        if buffer.len() > 0 && buffer.len() + units[0].len() > max_len {
            let tail = greedy_chunks(rest, units[0], max_len);
            lemma_greedy_not_empty(rest, units[0], max_len);
            assert forall|j: int| 0 <= j < chunks.len() implies (#[trigger] chunks[j]).len() > 0 by {
                if j > 0 {
                    assert(chunks[j] == tail[j - 1]);
                }
            }
        } else {
            lemma_greedy_not_empty(rest, buffer + units[0], max_len);
            assert(chunks == greedy_chunks(rest, buffer + units[0], max_len));
        }
    }
}

/// Reconstitution: for every message and every limit, the chunks in which
/// the message is delivered, one after the other, are the message. This
/// holds also where a unit is longer than the limit, since such a unit is
/// kept whole.
pub proof fn lemma_chunks_reconstitute(bytes: Seq<u8>, max_len: nat)
    ensures
        delivery_chunks(bytes, max_len).flatten() == bytes,
        multipart_chunks(bytes, max_len).flatten() == bytes,
{
    lemma_units_reconstitute(bytes, 0);
    lemma_greedy_reconstitutes(paragraph_units(bytes), Seq::empty(), max_len);
    assert(bytes.subrange(0, bytes.len() as int) =~= bytes);
    assert(Seq::<u8>::empty() + bytes =~= bytes);
    seq![bytes].lemma_flatten_one_element();
}

/// A message that fits the limit is delivered as exactly one chunk, the
/// message itself.
pub proof fn lemma_fitting_message_is_one_chunk(bytes: Seq<u8>, max_len: nat)
    requires
        bytes.len() <= max_len,
    ensures
        delivery_chunks(bytes, max_len) == seq![bytes],
        bytes.len() > 0 ==> multipart_chunks(bytes, max_len) == seq![bytes],
{
    if bytes.len() > 0 {
        lemma_units_reconstitute(bytes, 0);
        assert(bytes.subrange(0, bytes.len() as int) =~= bytes);
        lemma_greedy_of_fitting_units(paragraph_units(bytes), Seq::empty(), max_len);
        assert(Seq::<u8>::empty() + bytes =~= bytes);
    }
}

/// Units that fit the limit together with the buffer all end up in one chunk.
proof fn lemma_greedy_of_fitting_units(units: Seq<Seq<u8>>, buffer: Seq<u8>, max_len: nat)
    requires
        buffer.len() + units.flatten().len() <= max_len,
    ensures
        greedy_chunks(units, buffer, max_len) == if (buffer + units.flatten()).len() == 0 {
            Seq::<Seq<u8>>::empty()
        } else {
            seq![buffer + units.flatten()]
        },
    decreases units.len(),
{
    if units.len() == 0 {
        assert(buffer + units.flatten() =~= buffer);
    } else {
        assert(units.flatten() == units[0] + units.drop_first().flatten());
        lemma_greedy_of_fitting_units(units.drop_first(), buffer + units[0], max_len);
        assert((buffer + units[0]) + units.drop_first().flatten() =~= buffer + units.flatten());
    }
}

/// Where no paragraph unit of a message is longer than the limit, no chunk
/// in which the message is delivered is longer than the limit.
pub proof fn lemma_chunks_fit(bytes: Seq<u8>, max_len: nat)
    requires
        units_fit(bytes, max_len),
    ensures
        forall|j: int|
            0 <= j < delivery_chunks(bytes, max_len).len() ==> (#[trigger] delivery_chunks(
                bytes,
                max_len,
            )[j]).len() <= max_len,
        forall|j: int|
            0 <= j < multipart_chunks(bytes, max_len).len() ==> (#[trigger] multipart_chunks(
                bytes,
                max_len,
            )[j]).len() <= max_len,
{
    lemma_greedy_fits(paragraph_units(bytes), Seq::empty(), max_len);
}

/// No chunk of a multipart message is empty.
pub proof fn lemma_multipart_chunks_not_empty(bytes: Seq<u8>, max_len: nat)
    ensures
        forall|j: int|
            0 <= j < multipart_chunks(bytes, max_len).len() ==> (#[trigger] multipart_chunks(
                bytes,
                max_len,
            )[j]).len() > 0,
{
    lemma_units_not_empty(bytes, 0);
    lemma_greedy_not_empty(paragraph_units(bytes), Seq::empty(), max_len);
}

/// The encoding of texts joined is the encodings joined.
pub proof fn lemma_joined_text_encoding(texts: Seq<Seq<char>>)
    ensures
        encode_utf8(texts.flatten()) == encoded(texts).flatten(),
    decreases texts.len(),
{
    if texts.len() == 0 {
        assert(encoded(texts) =~= Seq::<Seq<u8>>::empty());
    } else {
        let front = texts.drop_last();
        lemma_joined_text_encoding(front);
        lemma_encode_concat(front.flatten(), texts.last());
        front.lemma_flatten_push(texts.last());
        encoded(front).lemma_flatten_push(encode_utf8(texts.last()));
        assert(texts =~= front.push(texts.last()));
        assert(encoded(texts) =~= encoded(front).push(encode_utf8(texts.last())));
    }
}

/// Reconstitution over text: texts whose encodings are the chunks of a
/// message read, one after the other, as the message.
pub proof fn lemma_text_reconstitutes(message: Seq<char>, texts: Seq<Seq<char>>, max_len: nat)
    requires
        encoded(texts) == delivery_chunks(encode_utf8(message), max_len) || encoded(texts)
            == multipart_chunks(encode_utf8(message), max_len),
    ensures
        texts.flatten() == message,
{
    lemma_chunks_reconstitute(encode_utf8(message), max_len);
    lemma_joined_text_encoding(texts);
    lemma_encode_injective(texts.flatten(), message);
}

/// Every paragraph unit of well-formed UTF-8 is well-formed UTF-8: a cut
/// right after a line feed never parts a character.
pub proof fn lemma_units_valid(bytes: Seq<u8>, from: int)
    requires
        0 <= from <= bytes.len(),
        valid_utf8(bytes.subrange(from, bytes.len() as int)),
    ensures
        all_valid(units_from(bytes, from)),
    decreases bytes.len() - from,
{
    if from < bytes.len() {
        lemma_unit_len(bytes, from);
        let end = from + unit_len(bytes, from);
        let suffix = bytes.subrange(from, bytes.len() as int);
        let units = units_from(bytes, from);
        if end < bytes.len() {
            assert(suffix[end - from - 1] == bytes[end - 1]);
            lemma_boundary_after_ascii(suffix, end - from);
        } else {
            is_char_boundary_start_end_of_seq(suffix);
        }
        valid_utf8_split(suffix, end - from);
        assert(suffix.subrange(0, end - from) =~= bytes.subrange(from, end));
        assert(suffix.subrange(end - from, suffix.len() as int) =~= bytes.subrange(
            end,
            bytes.len() as int,
        ));
        lemma_units_valid(bytes, end);
        assert forall|i: int| 0 <= i < units.len() implies valid_utf8(#[trigger] units[i]) by {
            if i > 0 {
                assert(units[i] == units_from(bytes, end)[i - 1]);
            }
        }
    }
}

/// Chunks gathered from well-formed units into a well-formed buffer are
/// well formed.
pub proof fn lemma_greedy_valid(units: Seq<Seq<u8>>, buffer: Seq<u8>, max_len: nat)
    requires
        valid_utf8(buffer),
        all_valid(units),
    ensures
        all_valid(greedy_chunks(units, buffer, max_len)),
    decreases units.len(),
{
    if units.len() > 0 {
        let rest = units.drop_first();
        let chunks = greedy_chunks(units, buffer, max_len);
        assert(valid_utf8(units[0]));
        assert forall|i: int| 0 <= i < rest.len() implies valid_utf8(#[trigger] rest[i]) by {
            assert(rest[i] == units[i + 1]);
        }
        if buffer.len() > 0 && buffer.len() + units[0].len() > max_len {
            let tail = greedy_chunks(rest, units[0], max_len);
            lemma_greedy_valid(rest, units[0], max_len);
            assert forall|j: int| 0 <= j < chunks.len() implies valid_utf8(#[trigger] chunks[j]) by {
                if j > 0 {
                    assert(chunks[j] == tail[j - 1]);
                }
            }
        } else {
            valid_utf8_concat(buffer, units[0]);
            lemma_greedy_valid(rest, buffer + units[0], max_len);
            assert(chunks == greedy_chunks(rest, buffer + units[0], max_len));
        }
    }
}

/// The chunks of an encoded text are encoded texts themselves: decoding
/// them and encoding them again gives them back.
pub proof fn lemma_chunks_are_texts(message: Seq<char>, max_len: nat)
    ensures
        encoded(chunk_texts(message, max_len)) == delivery_chunks(encode_utf8(message), max_len),
        encoded(multipart_texts(message, max_len)) == multipart_chunks(
            encode_utf8(message),
            max_len,
        ),
{
    let bytes = encode_utf8(message);
    encode_utf8_valid_utf8(message);
    assert(bytes.subrange(0, bytes.len() as int) =~= bytes);
    lemma_units_valid(bytes, 0);
    assert(valid_utf8(Seq::<u8>::empty()));
    lemma_greedy_valid(paragraph_units(bytes), Seq::empty(), max_len);
    let parts = multipart_chunks(bytes, max_len);
    assert forall|i: int| 0 <= i < parts.len() implies encoded(decoded(parts))[i] == parts[i] by {
        decode_utf8_encode_utf8(parts[i]);
    }
    assert(encoded(decoded(parts)) =~= parts);
    let whole = delivery_chunks(bytes, max_len);
    assert forall|i: int| 0 <= i < whole.len() implies encoded(decoded(whole))[i] == whole[i] by {
        decode_utf8_encode_utf8(whole[i]);
    }
    assert(encoded(decoded(whole)) =~= whole);
}

/// Texts are found again behind their encodings.
pub proof fn lemma_decoded_encoded(texts: Seq<Seq<char>>)
    ensures
        decoded(encoded(texts)) == texts,
{
    assert forall|i: int| 0 <= i < texts.len() implies decoded(encoded(texts))[i] == texts[i] by {
        encode_utf8_decode_utf8(texts[i]);
    }
    assert(decoded(encoded(texts)) =~= texts);
}

/// Reconstitution: for every message and every limit, the chunks in which
/// the message is delivered read, one after the other, as the message.
pub proof fn lemma_message_reconstitutes(message: Seq<char>, max_len: nat)
    ensures
        chunk_texts(message, max_len).flatten() == message,
        multipart_texts(message, max_len).flatten() == message,
{
    lemma_chunks_are_texts(message, max_len);
    lemma_text_reconstitutes(message, chunk_texts(message, max_len), max_len);
    lemma_text_reconstitutes(message, multipart_texts(message, max_len), max_len);
}

/// A message whose encoding fits the limit is delivered as exactly one
/// chunk, the message itself.
pub proof fn lemma_fitting_text_is_one_chunk(message: Seq<char>, max_len: nat)
    requires
        encode_utf8(message).len() <= max_len,
    ensures
        chunk_texts(message, max_len) == seq![message],
{
    encode_utf8_decode_utf8(message);
    assert(chunk_texts(message, max_len) =~= seq![message]);
}

/// Where no paragraph unit of a message is longer than the limit, the
/// encoding of no chunk of the message is.
pub proof fn lemma_chunk_texts_fit(message: Seq<char>, max_len: nat)
    requires
        units_fit(encode_utf8(message), max_len),
    ensures
        forall|j: int|
            0 <= j < chunk_texts(message, max_len).len() ==> encode_utf8(
                #[trigger] chunk_texts(message, max_len)[j],
            ).len() <= max_len,
        forall|j: int|
            0 <= j < multipart_texts(message, max_len).len() ==> encode_utf8(
                #[trigger] multipart_texts(message, max_len)[j],
            ).len() <= max_len,
{
    lemma_chunks_are_texts(message, max_len);
    lemma_chunks_fit(encode_utf8(message), max_len);
    let whole = chunk_texts(message, max_len);
    assert forall|j: int| 0 <= j < whole.len() implies encode_utf8(#[trigger] whole[j]).len()
        <= max_len by {
        assert(encoded(whole)[j] == encode_utf8(whole[j]));
    }
    let parts = multipart_texts(message, max_len);
    assert forall|j: int| 0 <= j < parts.len() implies encode_utf8(#[trigger] parts[j]).len()
        <= max_len by {
        assert(encoded(parts)[j] == encode_utf8(parts[j]));
    }
}

} // verus!
