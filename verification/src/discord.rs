//! Composing the daily message and delivering it to the chat channel.

use vstd::prelude::*;
use vstd::utf8::*;
use vstd::string::*;
use crate::chunking::{
    chunk_texts, delivery_chunks, encoded, greedy_chunks, lemma_chunks_fit,
    lemma_decoded_encoded, lemma_text_reconstitutes, multipart_chunks, multipart_texts, texts_of,
    unit_end, units_fit, units_from,
};
use crate::decimal::{decimal_string, decimal_text};
use crate::delivery::{
    chunks_fit, ChunkedDelivery, DeliveryStateView, SendOutcome, SendOutcomeView,
};
use crate::http::{is_success, status_is_success};
use crate::json::{json_string, json_string_literal};
use crate::encoding::{lemma_boundary_after_ascii, LINE_FEED};
use crate::models::{national_day_views, DailyData, DailyDataView, NationalDayView};

verus! {

/// The link of one observance as it stands in the message: a separator,
/// then the name in square brackets and the address in round brackets.
pub open spec fn link_text(day: NationalDayView, base_url: Seq<char>) -> Seq<char> {
    " | ["@ + day.name + "]("@ + base_url + day.url + ")"@
}

/// The links of the observances, one per observance and in their order.
pub open spec fn link_segments(days: Seq<NationalDayView>, base_url: Seq<char>) -> Seq<Seq<char>> {
    Seq::new(days.len(), |i: int| link_text(days[i], base_url))
}

/// What follows the links: the note behind a separator if there is one, a
/// line break, and the narrative as it came.
pub open spec fn message_tail(note: Option<Seq<char>>, narrative: Seq<char>) -> Seq<char> {
    match note {
        Some(text) => " | "@ + text + "\n"@ + narrative,
        None => "\n"@ + narrative,
    }
}

/// The composed message: the display date, the links, the tail.
pub open spec fn composed_message(
    data: DailyDataView,
    narrative: Seq<char>,
    base_url: Seq<char>,
) -> Seq<char> {
    data.formatted_date + link_segments(data.national_days, base_url).flatten() + message_tail(
        data.birthday,
        narrative,
    )
}

/// Composes the message of the day from the facts and the narrative.
pub fn build_message(daily_data: &DailyData, llm_message: &str, national_day_base_url: &str) -> (message:
    String)
    ensures
        message@ == composed_message(daily_data@, llm_message@, national_day_base_url@),
{
    let ghost days = national_day_views(daily_data.national_days@);
    let ghost base = national_day_base_url@;
    let mut message = String::from_str(daily_data.formatted_date.as_str());
    let count = daily_data.national_days.len();
    let mut i: usize = 0;
    assert(link_segments(days.take(0), base) =~= Seq::<Seq<char>>::empty());
    assert(message@ + Seq::<Seq<char>>::empty().flatten() =~= message@);
    while i < count
        invariant
            i <= count,
            count == daily_data.national_days@.len(),
            days == national_day_views(daily_data.national_days@),
            base == national_day_base_url@,
            message@ == daily_data.formatted_date@ + link_segments(
                days.take(i as int),
                base,
            ).flatten(),
        decreases count - i,
    {
        let day = &daily_data.national_days[i];
        let ghost before = message@;
        message.append(" | [");
        message.append(day.name.as_str());
        message.append("](");
        message.append(national_day_base_url);
        message.append(day.url.as_str());
        message.append(")");
        proof {
            assert(days[i as int] == day@);
            assert(message@ =~= before + link_text(days[i as int], base));
            assert(link_segments(days.take(i + 1), base) =~= link_segments(
                days.take(i as int),
                base,
            ).push(link_text(days[i as int], base)));
            link_segments(days.take(i as int), base).lemma_flatten_push(
                link_text(days[i as int], base),
            );
            assert(message@ =~= daily_data.formatted_date@ + link_segments(
                days.take(i + 1),
                base,
            ).flatten());
        }
        i += 1;
    }
    assert(days.take(count as int) =~= days);
    let ghost head = message@;
    match &daily_data.birthday {
        Some(note) => {
            message.append(" | ");
            message.append(note.as_str());
        },
        None => {},
    }
    message.append("\n");
    message.append(llm_message);
    assert(message@ =~= head + message_tail(daily_data@.birthday, llm_message@));
    message
}

/// With no observance and no note the message is the display date, a line
/// break and the narrative, with no separator anywhere.
pub proof fn lemma_bare_message(data: DailyDataView, narrative: Seq<char>, base_url: Seq<char>)
    requires
        data.national_days.len() == 0,
        data.birthday is None,
    ensures
        composed_message(data, narrative, base_url) == data.formatted_date + "\n"@ + narrative,
{
    assert(link_segments(data.national_days, base_url) =~= Seq::<Seq<char>>::empty());
    assert(composed_message(data, narrative, base_url) =~= data.formatted_date + "\n"@
        + narrative);
}

/// The composer keeps the order of the observances: listing them in another
/// order (`order[i]` is the old place of the observance that comes `i`-th)
/// puts their links in that order and changes nothing else in the message.
pub proof fn lemma_compose_preserves_order(
    data: DailyDataView,
    order: Seq<int>,
    narrative: Seq<char>,
    base_url: Seq<char>,
)
    requires
        forall|i: int| 0 <= i < order.len() ==> 0 <= #[trigger] order[i] < data.national_days.len(),
    ensures
        ({
            let rearranged = DailyDataView {
                national_days: Seq::new(order.len(), |i: int| data.national_days[order[i]]),
                ..data
            };
            let links = link_segments(data.national_days, base_url);
            &&& composed_message(data, narrative, base_url) == data.formatted_date
                + links.flatten() + message_tail(data.birthday, narrative)
            &&& composed_message(rearranged, narrative, base_url) == data.formatted_date
                + Seq::new(order.len(), |i: int| links[order[i]]).flatten() + message_tail(
                data.birthday,
                narrative,
            )
        }),
{
    let rearranged = Seq::new(order.len(), |i: int| data.national_days[order[i]]);
    let links = link_segments(data.national_days, base_url);
    assert(link_segments(rearranged, base_url) =~= Seq::new(order.len(), |i: int| links[order[i]]));
}

/// Splits a message into the chunks of a multipart delivery.
///
/// The message is cut only right after a blank-line separator. Units are
/// gathered greedily: a chunk is closed when the next unit would push it
/// over `max_len` bytes. A unit that is longer than `max_len` on its own is
/// neither cut nor merged: it becomes a chunk of its own, the only kind of
/// chunk that can exceed the limit.
pub fn send_multipart_discord_message(message: &str, max_len: usize) -> (chunks: Vec<String>)
    ensures
        texts_of(chunks@) == multipart_texts(message@, max_len as nat),
        encoded(texts_of(chunks@)) == multipart_chunks(encode_utf8(message@), max_len as nat),
        texts_of(chunks@).flatten() == message@,
{
    let bytes = message.as_bytes();
    let len = bytes.len();
    let mut chunks: Vec<String> = Vec::new();
    let mut rest: &str = message;
    let mut start: usize = 0;
    let mut pos: usize = 0;
    assert(bytes@.subrange(0, len as int) =~= bytes@);
    assert(encoded(texts_of(chunks@)) =~= Seq::<Seq<u8>>::empty());
    assert(bytes@.subrange(0, 0) =~= Seq::<u8>::empty());
    assert(encoded(texts_of(chunks@)) + multipart_chunks(bytes@, max_len as nat) =~= multipart_chunks(
        bytes@,
        max_len as nat,
    ));
    while pos < len
        invariant
            bytes@ == encode_utf8(message@),
            len == bytes@.len(),
            start <= pos <= len,
            rest.spec_bytes() == bytes@.subrange(start as int, len as int),
            0 < pos < len ==> bytes@[pos - 1] == LINE_FEED,
            multipart_chunks(bytes@, max_len as nat) == encoded(texts_of(chunks@)) + greedy_chunks(
                units_from(bytes@, pos as int),
                bytes@.subrange(start as int, pos as int),
                max_len as nat,
            ),
        decreases len - pos,
    {
        let end = unit_end(bytes, pos);
        let ghost units = units_from(bytes@, pos as int);
        let ghost unit = bytes@.subrange(pos as int, end as int);
        let ghost buffer = bytes@.subrange(start as int, pos as int);
        let ghost done = encoded(texts_of(chunks@));
        proof {
            assert(units[0] == unit);
            assert(units.drop_first() =~= units_from(bytes@, end as int));
            assert(buffer + unit =~= bytes@.subrange(start as int, end as int));
        }
        if pos > start && end - start > max_len {
            proof {
                let tail_bytes = rest.spec_bytes();
                encode_utf8_valid_utf8(rest@);
                assert(tail_bytes[pos - start - 1] == bytes@[pos - 1]);
                lemma_boundary_after_ascii(tail_bytes, pos - start);
            }
            let (head, tail) = rest.split_at(pos - start);
            let chunk = head.to_owned();
            chunks.push(chunk);
            rest = tail;
            proof {
                assert(encode_utf8(chunk@) =~= buffer);
                assert(encoded(texts_of(chunks@)) =~= done.push(buffer));
                assert(rest.spec_bytes() =~= bytes@.subrange(pos as int, len as int));
                assert(done.push(buffer) + greedy_chunks(
                    units.drop_first(),
                    unit,
                    max_len as nat,
                ) =~= done + (seq![buffer] + greedy_chunks(units.drop_first(), unit, max_len as nat)));
            }
            start = pos;
        }
        pos = end;
    }
    if start < len {
        let chunk = rest.to_owned();
        let ghost done = encoded(texts_of(chunks@));
        chunks.push(chunk);
        proof {
            assert(encoded(texts_of(chunks@)) =~= done.push(bytes@.subrange(start as int, len as int)));
            assert(done.push(bytes@.subrange(start as int, len as int)) =~= done + seq![
                bytes@.subrange(start as int, len as int),
            ]);
        }
    } else {
        assert(encoded(texts_of(chunks@)) + Seq::<Seq<u8>>::empty() =~= encoded(texts_of(chunks@)));
    }
    proof {
        lemma_text_reconstitutes(message@, texts_of(chunks@), max_len as nat);
        lemma_decoded_encoded(texts_of(chunks@));
    }
    chunks
}

/// Prepares the delivery of a message over a transport that takes at most
/// `max_len` bytes at a time: the message as one chunk where it fits, else
/// its multipart chunks. Nothing is decided yet and nothing is sent: the
/// caller drives the delivery that is returned.
pub fn send_message(message: &str, max_len: usize) -> (delivery: ChunkedDelivery)
    ensures
        delivery.wf(),
        delivery@.state == DeliveryStateView::Pending,
        delivery@.sent == 0,
        delivery@.max_len == max_len,
        delivery@.chunks == chunk_texts(message@, max_len as nat),
        encoded(delivery@.chunks) == delivery_chunks(encode_utf8(message@), max_len as nat),
        delivery@.chunks.flatten() == message@,
        encode_utf8(message@).len() <= max_len ==> delivery@.chunks == seq![message@],
        units_fit(encode_utf8(message@), max_len as nat) ==> chunks_fit(
            delivery@,
            0,
            delivery@.chunks.len() as int,
        ),
{
    let chunks = if message.as_bytes().len() <= max_len {
        let mut single: Vec<String> = Vec::new();
        single.push(message.to_owned());
        assert(texts_of(single@) =~= seq![message@]);
        assert(encoded(texts_of(single@)) =~= seq![encode_utf8(message@)]);
        single
    } else {
        send_multipart_discord_message(message, max_len)
    };
    proof {
        lemma_text_reconstitutes(message@, texts_of(chunks@), max_len as nat);
        lemma_decoded_encoded(texts_of(chunks@));
        if units_fit(encode_utf8(message@), max_len as nat) {
            lemma_chunks_fit(encode_utf8(message@), max_len as nat);
            assert forall|i: int| 0 <= i < chunks@.len() implies encode_utf8(
                #[trigger] texts_of(chunks@)[i],
            ).len() <= max_len by {
                assert(encoded(texts_of(chunks@))[i] == encode_utf8(texts_of(chunks@)[i]));
            }
        }
    }
    ChunkedDelivery::new(chunks, max_len)
}

/// The address to which the messages of a channel are posted.
pub open spec fn channel_messages_url_text(api_url: Seq<char>, channel_id: nat) -> Seq<char> {
    api_url + "/channels/"@ + decimal_text(channel_id) + "/messages"@
}

/// Writes the address to which the messages of a channel are posted.
pub fn channel_messages_url(api_url: &str, channel_id: u64) -> (url: String)
    ensures
        url@ == channel_messages_url_text(api_url@, channel_id as nat),
{
    let mut url = String::from_str(api_url);
    url.append("/channels/");
    url.append(decimal_string(channel_id).as_str());
    url.append("/messages");
    url
}

/// Writes the credential of a bot as the chat service wants it.
pub fn bot_authorization(discord_token: &str) -> (header: String)
    ensures
        header@ == "Bot "@ + discord_token@,
{
    let mut header = String::from_str("Bot ");
    header.append(discord_token);
    header
}

/// The body of the request that posts one chunk, around the chunk as a
/// JSON string literal: a JSON object whose only member is `content`.
pub open spec fn framed_payload(content_literal: Seq<char>) -> Seq<char> {
    "{\"content\":"@ + content_literal + "}"@
}

/// The body of the request that posts one chunk.
pub open spec fn message_payload_text(content: Seq<char>) -> Seq<char> {
    framed_payload(json_string_literal(content))
}

/// Writes the body of the request that posts one chunk, around the chunk
/// given as a JSON string literal.
pub fn frame_message_payload(content_literal: &str) -> (body: String)
    ensures
        body@ == framed_payload(content_literal@),
{
    let mut body = String::from_str("{\"content\":");
    body.append(content_literal);
    body.append("}");
    body
}

/// Writes the body of the request that posts one chunk.
pub fn message_payload(content: &str) -> (body: String)
    ensures
        body@ == message_payload_text(content@),
{
    let literal = json_string(content);
    frame_message_payload(literal.as_str())
}

/// What the answer of the chat service means for the chunk that was
/// posted: taken where the status reports success, else refused, with the
/// body of the answer as the reason.
pub fn send_outcome(status: u16, body: String) -> (outcome: SendOutcome)
    ensures
        outcome@ == if is_success(status as nat) {
            SendOutcomeView::Delivered
        } else {
            SendOutcomeView::Rejected(body@)
        },
{
    if status_is_success(status) {
        SendOutcome::Delivered
    } else {
        SendOutcome::Rejected(body)
    }
}

} // verus!
