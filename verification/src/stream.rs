//! How a streamed reply travels: from the agent's stream items, through the
//! chunks the server writes, to the text the client delivers.

use vstd::prelude::*;

use crate::protocol::ChatResponseChunk;

verus! {

/// An item of the agent's reply stream, as far as the server tells items
/// apart.
pub enum AgentStreamItem {
    /// A piece of the reply text.
    Text(String),
    /// The end of a turn, carrying the whole response.
    FinalResponse,
    /// Anything else the agent reports (tool calls, reasoning, ...).
    Other,
    /// A failure of the stream, with its description.
    Failed(String),
}

/// Where an error arose; it decides how its message starts.
#[derive(Clone, Copy, Debug, PartialEq, Eq, Structural)]
pub enum ErrorContext {
    CreateClient,
    Agent,
    Stream,
    CreateRuntime,
}

/// How a message of an error from `context` starts.
pub open spec fn error_prefix(context: ErrorContext) -> Seq<char> {
    match context {
        ErrorContext::CreateClient => "Failed to create Ollama client: "@,
        ErrorContext::Agent => "Agent error: "@,
        ErrorContext::Stream => "Stream error: "@,
        ErrorContext::CreateRuntime => "Failed to create runtime: "@,
    }
}

/// The message of an error from `context` described by `detail`.
pub fn error_message(context: ErrorContext, detail: &str) -> (r: String)
    ensures
        r@ == error_prefix(context) + detail@,
{
    let mut r = match context {
        ErrorContext::CreateClient => "Failed to create Ollama client: ".to_owned(),
        ErrorContext::Agent => "Agent error: ".to_owned(),
        ErrorContext::Stream => "Stream error: ".to_owned(),
        ErrorContext::CreateRuntime => "Failed to create runtime: ".to_owned(),
    };
    r.append(detail);
    r
}

/// A reply item as the server sees it: `Some(text)` for text, `None` for an
/// error.
pub open spec fn reply_view(r: Result<String, String>) -> Option<Seq<char>> {
    match r {
        Ok(t) => Some(t@),
        Err(_) => None,
    }
}

/// What the reply stream yields for an agent item: nothing (the item is
/// skipped), a piece of text, or an error.
pub open spec fn item_reply(item: AgentStreamItem) -> Option<Option<Seq<char>>> {
    match item {
        AgentStreamItem::Text(t) => Some(Some(t@)),
        AgentStreamItem::FinalResponse => Some(Some(Seq::empty())),
        AgentStreamItem::Other => None,
        AgentStreamItem::Failed(_) => Some(None),
    }
}

/// Turns an item of the agent's stream into an item of the reply stream:
/// text passes, the end of a turn becomes an empty text, errors are
/// described, and anything else is skipped.
pub fn filter_stream_item(item: AgentStreamItem) -> (r: Option<Result<String, String>>)
    ensures
        match r {
            None => item_reply(item) is None,
            Some(x) => item_reply(item) == Some(reply_view(x)),
        },
        r matches Some(Err(e)) ==> item matches AgentStreamItem::Failed(d) && e@ == error_prefix(
            ErrorContext::Stream,
        ) + d@,
{
    match item {
        AgentStreamItem::Text(text) => Some(Ok(text)),
        AgentStreamItem::FinalResponse => Some(Ok(String::new())),
        AgentStreamItem::Other => None,
        AgentStreamItem::Failed(e) => Some(Err(error_message(ErrorContext::Stream, e.as_str()))),
    }
}

/// The chunk the server writes for the next item of the reply stream, or for
/// its end (`None`): text goes out as is; an error or the end of the stream
/// closes the reply with a final newline.
pub open spec fn chunk_for(next: Option<Option<Seq<char>>>) -> (Seq<char>, bool) {
    match next {
        Some(Some(t)) => (t, false),
        _ => ("\n"@, true),
    }
}

/// The chunk the server writes for `next`, the next item of the reply stream
/// or `None` at its end. The reply is over when the chunk is marked done.
pub fn stream_chunk(next: Option<Result<String, String>>) -> (c: ChatResponseChunk)
    ensures
        (c.content@, c.done) == chunk_for(
            match next {
                Some(r) => Some(reply_view(r)),
                None => None,
            },
        ),
{
    match next {
        Some(Ok(text)) => ChatResponseChunk { content: text, done: false },
        _ => ChatResponseChunk { content: "\n".to_owned(), done: true },
    }
}

/// A line read by the client while a reply streams in.
pub enum Incoming {
    /// The server closed the connection.
    Closed,
    /// A line that is not a chunk.
    Unreadable,
    /// A chunk.
    Chunk(ChatResponseChunk),
}

/// What the client does with a line: the text to show, if any, and whether
/// the reply is over.
pub struct Delivery {
    pub content: Option<String>,
    pub finished: bool,
}

/// The text shown for a chunk: its content unless empty.
pub open spec fn shown(content: Seq<char>) -> Seq<Seq<char>> {
    if content.len() > 0 {
        seq![content]
    } else {
        Seq::empty()
    }
}

/// Handles a line of a streamed reply: a chunk's non-empty content is shown,
/// a chunk marked done or a closed connection ends the reply, and a line
/// that is not a chunk is skipped.
pub fn receive_step(incoming: Incoming) -> (d: Delivery)
    ensures
        match incoming {
            Incoming::Closed => d.content is None && d.finished,
            Incoming::Unreadable => d.content is None && !d.finished,
            Incoming::Chunk(c) => {
                &&& d.finished == c.done
                &&& match d.content {
                    Some(t) => shown(c.content@) == seq![t@],
                    None => shown(c.content@) == Seq::<Seq<char>>::empty(),
                }
            },
        },
{
    match incoming {
        Incoming::Closed => Delivery { content: None, finished: true },
        Incoming::Unreadable => Delivery { content: None, finished: false },
        Incoming::Chunk(chunk) => {
            let finished = chunk.done;
            if chunk.content.as_str().is_empty() {
                Delivery { content: None, finished }
            } else {
                Delivery { content: Some(chunk.content), finished }
            }
        },
    }
}

/// The reply stream of the agent items `items`: the item replies in order,
/// skipped items left out.
pub open spec fn agent_replies(items: Seq<AgentStreamItem>) -> Seq<Option<Seq<char>>>
    decreases items.len(),
{
    if items.len() == 0 {
        Seq::empty()
    } else {
        let rest = agent_replies(items.drop_first());
        match item_reply(items[0]) {
            None => rest,
            Some(r) => seq![r] + rest,
        }
    }
}

/// The chunks the server writes for the reply stream `replies`: one per
/// text until an error or the end of the stream, then the closing chunk.
pub open spec fn server_transcript(replies: Seq<Option<Seq<char>>>) -> Seq<(Seq<char>, bool)>
    decreases replies.len(),
{
    if replies.len() == 0 {
        seq![chunk_for(None)]
    } else {
        let c = chunk_for(Some(replies[0]));
        if c.1 {
            seq![c]
        } else {
            seq![c] + server_transcript(replies.drop_first())
        }
    }
}

/// The texts the client shows for the chunks `chunks`, up to the first one
/// marked done.
pub open spec fn client_receives(chunks: Seq<(Seq<char>, bool)>) -> Seq<Seq<char>>
    decreases chunks.len(),
{
    if chunks.len() == 0 {
        Seq::empty()
    } else if chunks[0].1 {
        shown(chunks[0].0)
    } else {
        shown(chunks[0].0) + client_receives(chunks.drop_first())
    }
}

/// The non-empty texts of the agent items `items` that come before the first
/// failure.
pub open spec fn visible_text(items: Seq<AgentStreamItem>) -> Seq<Seq<char>>
    decreases items.len(),
{
    if items.len() == 0 {
        Seq::empty()
    } else {
        match items[0] {
            AgentStreamItem::Text(t) => shown(t@) + visible_text(items.drop_first()),
            AgentStreamItem::FinalResponse => visible_text(items.drop_first()),
            AgentStreamItem::Other => visible_text(items.drop_first()),
            AgentStreamItem::Failed(_) => Seq::empty(),
        }
    }
}

/// What the client shows of a streamed reply is every non-empty text the
/// agent produced before its stream failed, if it did, followed by one
/// newline that closes the reply.
pub proof fn lemma_stream_delivers_visible_text(items: Seq<AgentStreamItem>)
    ensures
        client_receives(server_transcript(agent_replies(items))) == visible_text(items).push(
            "\n"@,
        ),
    decreases items.len(),
{
    reveal_strlit("\n");
    if items.len() == 0 {
        assert(shown("\n"@) =~= seq!["\n"@]);
        assert(Seq::<Seq<char>>::empty().push("\n"@) =~= seq!["\n"@]);
    } else {
        let rest = items.drop_first();
        lemma_stream_delivers_visible_text(rest);
        let r = agent_replies(rest);
        match items[0] {
            AgentStreamItem::Text(t) => {
                let replies = seq![Some(t@)] + r;
                assert(replies.drop_first() =~= r);
                assert(server_transcript(replies).drop_first() =~= server_transcript(r));
                assert(shown(t@) + visible_text(rest).push("\n"@) =~= (shown(t@) + visible_text(
                    rest,
                )).push("\n"@));
            },
            AgentStreamItem::FinalResponse => {
                let replies = seq![Some(Seq::<char>::empty())] + r;
                assert(replies.drop_first() =~= r);
                assert(server_transcript(replies).drop_first() =~= server_transcript(r));
                assert(shown(Seq::<char>::empty()) =~= Seq::<Seq<char>>::empty());
                assert(Seq::<Seq<char>>::empty() + client_receives(server_transcript(r))
                    =~= client_receives(server_transcript(r)));
            },
            AgentStreamItem::Other => {},
            AgentStreamItem::Failed(_) => {
                let replies = seq![None::<Seq<char>>] + r;
                assert(shown("\n"@) =~= seq!["\n"@]);
                assert(Seq::<Seq<char>>::empty().push("\n"@) =~= seq!["\n"@]);
            },
        }
    }
}

} // verus!
