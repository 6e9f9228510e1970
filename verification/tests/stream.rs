use minerva::protocol::ChatResponseChunk;
use minerva::stream::{
    error_message, filter_stream_item, receive_step, stream_chunk, AgentStreamItem, ErrorContext,
    Incoming,
};

#[test]
fn error_messages_name_their_origin() {
    assert_eq!(error_message(ErrorContext::CreateClient, "no host"), "Failed to create Ollama client: no host");
    assert_eq!(error_message(ErrorContext::Agent, "x"), "Agent error: x");
    assert_eq!(error_message(ErrorContext::Stream, "broken"), "Stream error: broken");
    assert_eq!(error_message(ErrorContext::CreateRuntime, ""), "Failed to create runtime: ");
}

#[test]
fn stream_items_are_filtered() {
    assert_eq!(filter_stream_item(AgentStreamItem::Text("hi".to_string())), Some(Ok("hi".to_string())));
    assert_eq!(filter_stream_item(AgentStreamItem::FinalResponse), Some(Ok(String::new())));
    assert_eq!(filter_stream_item(AgentStreamItem::Other), None);
    assert_eq!(
        filter_stream_item(AgentStreamItem::Failed("timeout".to_string())),
        Some(Err("Stream error: timeout".to_string()))
    );
}

#[test]
fn server_chunks() {
    let c = stream_chunk(Some(Ok("abc".to_string())));
    assert_eq!((c.content.as_str(), c.done), ("abc", false));
    let c = stream_chunk(Some(Err("boom".to_string())));
    assert_eq!((c.content.as_str(), c.done), ("\n", true));
    let c = stream_chunk(None);
    assert_eq!((c.content.as_str(), c.done), ("\n", true));
}

#[test]
fn client_steps() {
    let d = receive_step(Incoming::Closed);
    assert_eq!((d.content, d.finished), (None, true));
    let d = receive_step(Incoming::Unreadable);
    assert_eq!((d.content, d.finished), (None, false));
    let d = receive_step(Incoming::Chunk(ChatResponseChunk { content: String::new(), done: false }));
    assert_eq!((d.content, d.finished), (None, false));
    let d = receive_step(Incoming::Chunk(ChatResponseChunk { content: "x".to_string(), done: true }));
    assert_eq!((d.content, d.finished), (Some("x".to_string()), true));
}

fn run_stream(items: Vec<AgentStreamItem>) -> Vec<String> {
    let mut replies = items.into_iter().filter_map(filter_stream_item);
    let mut chunks = Vec::new();
    loop {
        let chunk = stream_chunk(replies.next());
        let done = chunk.done;
        chunks.push(chunk);
        if done {
            break;
        }
    }
    let mut shown = Vec::new();
    for chunk in chunks {
        let d = receive_step(Incoming::Chunk(chunk));
        if let Some(t) = d.content {
            shown.push(t);
        }
        if d.finished {
            break;
        }
    }
    shown
}

#[test]
fn stream_delivers_visible_text() {
    let shown = run_stream(vec![
        AgentStreamItem::Other,
        AgentStreamItem::Text("Hel".to_string()),
        AgentStreamItem::Text(String::new()),
        AgentStreamItem::Text("lo".to_string()),
        AgentStreamItem::FinalResponse,
    ]);
    assert_eq!(shown, vec!["Hel", "lo", "\n"]);
}

#[test]
fn stream_stops_at_failure() {
    let shown = run_stream(vec![
        AgentStreamItem::Text("a".to_string()),
        AgentStreamItem::Failed("lost".to_string()),
        AgentStreamItem::Text("b".to_string()),
    ]);
    assert_eq!(shown, vec!["a", "\n"]);
    assert_eq!(run_stream(vec![]), vec!["\n"]);
}
