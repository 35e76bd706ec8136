//! What a chat request comes to as a whole: from the packets that Ollama sends to the messages
//! that the service gets.

use vstd::prelude::*;

use crate::handler::{
    a_broken_chat_reply_ends_in_an_error, a_chat_reply_is_passed_on, answers_to, chat_events,
    chunk_text, final_stats, token_text, tokens, tokens_spell_the_reply, HandlerEventView,
};
use crate::ndjson::{
    a_break_loses_no_whole_line, complete_lines, joined, lines, packets_do_not_matter, received,
    received_before_break,
};
use crate::ollama::{interpreted, ChatChunkView, ChatRawChunk};
use crate::protocol::{ChatMessageView, InboundView, OutboundView};

verus! {

/// A way to read a line as JSON: what it spells, or the message of an error.
pub type JsonReader = spec_fn(Seq<u8>) -> Result<ChatRawChunk, Seq<char>>;

/// The pieces of a reply that `texts` stand for, up to the first line that stands for none.
pub open spec fn pieces(texts: Seq<Seq<u8>>, json: JsonReader) -> Seq<ChatChunkView>
    decreases texts.len(),
{
    if texts.len() == 0 {
        seq![]
    } else {
        match interpreted(texts[0], json(texts[0])) {
            Ok(chunk) => seq![chunk] + pieces(texts.skip(1), json),
            Err(_) => seq![],
        }
    }
}

/// The words of the error in the first of `texts` that stands for no piece of a reply, if there is
/// one.
pub open spec fn failure(texts: Seq<Seq<u8>>, json: JsonReader) -> Option<Seq<char>>
    decreases texts.len(),
{
    if texts.len() == 0 {
        None
    } else {
        match interpreted(texts[0], json(texts[0])) {
            Ok(_) => failure(texts.skip(1), json),
            Err(words) => Some(words),
        }
    }
}

/// The events of a chat request that Ollama grants and answers with the lines `texts`.
pub open spec fn reply_events(texts: Seq<Seq<u8>>, json: JsonReader) -> Seq<HandlerEventView> {
    chat_events(
        pieces(texts, json),
        match failure(texts, json) {
            None => HandlerEventView::ChatEnded,
            Some(words) => HandlerEventView::Failed(words),
        },
    )
}

/// The message that closes a chat request which Ollama answers with the lines `texts`.
pub open spec fn closing_answer(
    request_id: Seq<char>,
    texts: Seq<Seq<u8>>,
    json: JsonReader,
) -> OutboundView {
    match failure(texts, json) {
        None => OutboundView::Done {
            request_id,
            stats: final_stats(None, pieces(texts, json)),
        },
        Some(message) => OutboundView::Error { request_id, message },
    }
}

/// However Ollama's reply to a chat request is split into packets, the service gets the same
/// messages: the text of the reply as tokens, up to the first line that is an error or no chunk at
/// all, and then one message that says that the reply is done, or what the error is.
pub proof fn a_reply_reaches_the_service(
    request_id: Seq<char>,
    model: Seq<char>,
    messages: Seq<ChatMessageView>,
    options: Option<serde_json::Value>,
    packets: Seq<Seq<u8>>,
    json: JsonReader,
)
    ensures
        ({
            let inbound = InboundView::Generate { request_id, model, messages, options };
            let texts = lines(joined(packets));
            let sent = answers_to(inbound, reply_events(received(seq![], packets), json));
            &&& sent == tokens(request_id, pieces(texts, json)).push(
                closing_answer(request_id, texts, json),
            )
            &&& token_text(sent.drop_last()) == chunk_text(pieces(texts, json))
        }),
{
    let texts = lines(joined(packets));
    packets_do_not_matter(seq![], packets);
    assert(Seq::<u8>::empty() + joined(packets) =~= joined(packets));
    let chunks = pieces(texts, json);
    match failure(texts, json) {
        None => {
            a_chat_reply_is_passed_on(request_id, model, messages, options, chunks);
        },
        Some(words) => {
            a_broken_chat_reply_ends_in_an_error(
                request_id,
                model,
                messages,
                options,
                chunks,
                words,
            );
        },
    }
    tokens_spell_the_reply(request_id, chunks);
    let all = tokens(request_id, chunks).push(closing_answer(request_id, texts, json));
    assert(all.drop_last() =~= tokens(request_id, chunks));
}

/// The words with which a chat request fails that Ollama answers with the lines `texts` before the
/// reply breaks off for `cause`: what comes first counts.
pub open spec fn first_failure(
    texts: Seq<Seq<u8>>,
    json: JsonReader,
    cause: Seq<char>,
) -> Seq<char> {
    match failure(texts, json) {
        Some(words) => words,
        None => cause,
    }
}

/// Where Ollama's reply to a chat request breaks off, the service gets the text of every line that
/// arrived whole, up to the first that is an error or no chunk at all, and then one message that
/// says what went wrong, however the reply is split into packets.
pub proof fn a_reply_that_breaks_off_reaches_the_service(
    request_id: Seq<char>,
    model: Seq<char>,
    messages: Seq<ChatMessageView>,
    options: Option<serde_json::Value>,
    packets: Seq<Seq<u8>>,
    cause: Seq<char>,
    json: JsonReader,
)
    ensures
        ({
            let inbound = InboundView::Generate { request_id, model, messages, options };
            let arrived = received_before_break(seq![], packets);
            let texts = complete_lines(joined(packets));
            let message = first_failure(texts, json, cause);
            let sent = answers_to(
                inbound,
                chat_events(
                    pieces(arrived, json),
                    HandlerEventView::Failed(first_failure(arrived, json, cause)),
                ),
            );
            &&& sent == tokens(request_id, pieces(texts, json)).push(
                OutboundView::Error { request_id, message },
            )
            &&& token_text(sent.drop_last()) == chunk_text(pieces(texts, json))
        }),
{
    let texts = complete_lines(joined(packets));
    a_break_loses_no_whole_line(seq![], packets);
    assert(Seq::<u8>::empty() + joined(packets) =~= joined(packets));
    let chunks = pieces(texts, json);
    let message = first_failure(texts, json, cause);
    a_broken_chat_reply_ends_in_an_error(request_id, model, messages, options, chunks, message);
    tokens_spell_the_reply(request_id, chunks);
    let all = tokens(request_id, chunks).push(OutboundView::Error { request_id, message });
    assert(all.drop_last() =~= tokens(request_id, chunks));
}

} // verus!
