use minerva::stream::{filter_stream_item, receive_step, stream_chunk, AgentStreamItem, Incoming};
use minerva::app::{App, InputMode, KeyCode, KeyEvent, KeyEventKind, MessageKind, StreamEvent};

fn press(code: KeyCode) -> KeyEvent {
    KeyEvent { code, kind: KeyEventKind::Press }
}

fn app(connected: bool) -> App {
    let mut last = 0usize;
    App::new(connected, &mut last)
}

fn type_text(app: &mut App, s: &str) {
    for c in s.chars() {
        assert_eq!(app.run(press(KeyCode::Char(c))), None);
    }
}

#[test]
fn submit_without_server_records_user_message() {
    let mut a = app(false);
    type_text(&mut a, "hello");
    let sent = a.submit_message();
    assert_eq!(sent, None);
    assert_eq!(a.messages.len(), 1);
    assert!(matches!(a.messages[0].kind, MessageKind::User));
    assert_eq!(a.messages[0].content, "hello");
    assert_eq!(a.input, "");
    assert_eq!(a.character_index, 0);
    assert!(!a.streaming);
}

#[test]
fn submit_with_server_opens_agent_reply() {
    let mut a = app(true);
    type_text(&mut a, " hi ");
    let sent = a.run(press(KeyCode::Enter));
    assert_eq!(sent, Some(" hi ".to_string()));
    assert_eq!(a.messages.len(), 2);
    assert!(matches!(a.messages[1].kind, MessageKind::Agent));
    assert_eq!(a.messages[1].content, "");
    assert!(a.streaming);
}

#[test]
fn quit_command_quits_and_keeps_input() {
    let mut a = app(true);
    type_text(&mut a, "  /quit\t");
    let sent = a.run(press(KeyCode::Enter));
    assert_eq!(sent, None);
    assert!(a.should_quit);
    assert_eq!(a.input, "  /quit\t");
    assert!(a.messages.is_empty());
}

#[test]
fn quit_command_must_match_exactly() {
    let mut a = app(false);
    type_text(&mut a, "/quit now");
    a.submit_message();
    assert!(!a.should_quit);
    assert_eq!(a.messages.len(), 1);
}

#[test]
fn keys_in_normal_mode() {
    let mut a = app(false);
    a.input_mode = InputMode::Normal;
    assert_eq!(a.run(press(KeyCode::Char('x'))), None);
    assert_eq!(a.input, "");
    assert!(matches!(a.input_mode, InputMode::Normal));
    a.run(KeyEvent { code: KeyCode::Char('e'), kind: KeyEventKind::Release });
    assert!(matches!(a.input_mode, InputMode::Editing));
    a.input_mode = InputMode::Normal;
    a.run(press(KeyCode::Char('q')));
    assert!(a.should_quit);
}

#[test]
fn esc_stops_editing() {
    let mut a = app(false);
    type_text(&mut a, "ab");
    assert_eq!(a.run(press(KeyCode::Esc)), None);
    assert!(matches!(a.input_mode, InputMode::Normal));
    assert_eq!(a.input, "ab");
    assert_eq!(a.character_index, 2);
    a.run(press(KeyCode::Char('x')));
    assert_eq!(a.input, "ab");
    a.run(press(KeyCode::Char('e')));
    assert!(matches!(a.input_mode, InputMode::Editing));
    let mut b = app(false);
    b.run(KeyEvent { code: KeyCode::Esc, kind: KeyEventKind::Release });
    assert!(matches!(b.input_mode, InputMode::Editing));
}

#[test]
fn only_presses_edit() {
    let mut a = app(false);
    a.run(KeyEvent { code: KeyCode::Char('a'), kind: KeyEventKind::Release });
    a.run(KeyEvent { code: KeyCode::Char('b'), kind: KeyEventKind::Repeat });
    assert_eq!(a.input, "");
    type_text(&mut a, "abc");
    a.run(press(KeyCode::Left));
    a.run(press(KeyCode::Backspace));
    assert_eq!(a.input, "ac");
    a.run(press(KeyCode::Right));
    a.run(press(KeyCode::Other));
    assert_eq!(a.character_index, 2);
}

#[test]
fn stream_events_fill_agent_reply() {
    let mut a = app(true);
    type_text(&mut a, "q");
    a.submit_message();
    a.poll_stream(&vec![StreamEvent::Chunk("Hel".to_string()), StreamEvent::Chunk("lo".to_string())]);
    assert_eq!(a.messages[1].content, "Hello");
    assert!(a.streaming);
    a.poll_stream(&vec![StreamEvent::Chunk("\n".to_string()), StreamEvent::Done]);
    assert_eq!(a.messages[1].content, "Hello\n");
    assert!(!a.streaming);
    assert_eq!(a.messages[0].content, "q");
}

#[test]
fn chunks_without_agent_message_are_dropped() {
    let mut a = app(false);
    a.apply_event(&StreamEvent::Chunk("lost".to_string()));
    assert!(a.messages.is_empty());
    type_text(&mut a, "u");
    a.submit_message();
    a.apply_event(&StreamEvent::Chunk("lost".to_string()));
    assert_eq!(a.messages[0].content, "u");
}

#[test]
fn event_batches_compose() {
    let events = || {
        vec![
            StreamEvent::Chunk("a".to_string()),
            StreamEvent::Chunk("b".to_string()),
            StreamEvent::Done,
            StreamEvent::Chunk("c".to_string()),
        ]
    };
    let mut one = app(true);
    type_text(&mut one, "p");
    one.submit_message();
    let mut two = app(true);
    type_text(&mut two, "p");
    two.submit_message();
    one.poll_stream(&events());
    let all = events();
    let (first, second) = all.split_at(1);
    let first: Vec<StreamEvent> = first.iter().map(clone_event).collect();
    let second: Vec<StreamEvent> = second.iter().map(clone_event).collect();
    two.poll_stream(&first);
    two.poll_stream(&second);
    assert_eq!(one.messages[1].content, "abc");
    assert_eq!(two.messages[1].content, "abc");
    assert_eq!(one.streaming, two.streaming);
}

fn clone_event(e: &StreamEvent) -> StreamEvent {
    match e {
        StreamEvent::Chunk(c) => StreamEvent::Chunk(c.clone()),
        StreamEvent::Done => StreamEvent::Done,
    }
}

#[test]
fn streamed_reply_assembles() {
    let mut a = app(true);
    type_text(&mut a, "why?");
    let sent = a.submit_message();
    assert_eq!(sent.as_deref(), Some("why?"));
    let parts = ["Be", "cause", ".", "\n"];
    let mut events: Vec<StreamEvent> = parts.iter().map(|p| StreamEvent::Chunk(p.to_string())).collect();
    events.push(StreamEvent::Done);
    a.poll_stream(&events);
    assert_eq!(a.messages.len(), 2);
    assert_eq!(a.messages[0].content, "why?");
    assert_eq!(a.messages[1].content, "Because.\n");
    assert!(!a.streaming);
}

#[test]
fn agent_reply_reaches_conversation() {
    let items = vec![
        AgentStreamItem::Text("It ".to_string()),
        AgentStreamItem::Other,
        AgentStreamItem::Text("works".to_string()),
        AgentStreamItem::Failed("gone".to_string()),
        AgentStreamItem::Text("late".to_string()),
    ];
    let mut a = app(true);
    type_text(&mut a, "test");
    a.submit_message();
    let mut replies = items.into_iter().filter_map(filter_stream_item);
    let mut events = Vec::new();
    loop {
        let chunk = stream_chunk(replies.next());
        let done = chunk.done;
        let d = receive_step(Incoming::Chunk(chunk));
        if let Some(t) = d.content {
            events.push(StreamEvent::Chunk(t));
        }
        if d.finished || done {
            break;
        }
    }
    events.push(StreamEvent::Done);
    a.poll_stream(&events);
    assert_eq!(a.messages[1].content, "It works\n");
    assert!(!a.streaming);
}
