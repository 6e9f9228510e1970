use minerva::app::{Message, MessageKind};
use minerva::app::InputMode;
use minerva::ui::{
    conversation_lines, cursor_from_width, cursor_position, cursor_text, help_line, label_text,
    line_span_texts, message_lines, scroll_from_rows, scroll_offset, split_lines_of, LinePlan,
};

fn msg(kind: MessageKind, content: &str) -> Message {
    Message { kind, content: content.to_string() }
}

fn view(lines: &[LinePlan]) -> Vec<(Option<MessageKind>, String, bool)> {
    lines.iter().map(|l| (l.label, l.text.clone(), l.cursor)).collect()
}

#[test]
fn split_keeps_empty_pieces() {
    assert_eq!(split_lines_of(""), vec![""]);
    assert_eq!(split_lines_of("a\n\nb\n"), vec!["a", "", "b", ""]);
    assert_eq!(split_lines_of("one"), vec!["one"]);
}

#[test]
fn split_then_join_gives_text_back() {
    for s in ["", "x", "a\nb", "\n\n", "héllo\nwörld\n"] {
        let parts = split_lines_of(s);
        assert_eq!(parts.join("\n"), s);
        assert!(parts.iter().all(|p| !p.contains('\n')));
        assert_eq!(parts.len(), s.matches('\n').count() + 1);
    }
}

#[test]
fn message_lines_label_first_and_cursor_last() {
    let m = msg(MessageKind::Agent, "a\nb");
    assert_eq!(
        view(&message_lines(&m, true)),
        vec![(Some(MessageKind::Agent), "a".to_string(), false), (None, "b".to_string(), true)]
    );
    assert_eq!(
        view(&message_lines(&msg(MessageKind::User, "hi"), false)),
        vec![(Some(MessageKind::User), "hi".to_string(), false)]
    );
    assert_eq!(label_text(MessageKind::User), "you: ");
    assert_eq!(label_text(MessageKind::Agent), "agent: ");
    assert_eq!(cursor_text(), "\u{258C}");
}

#[test]
fn conversation_cursor_only_on_last_message() {
    let msgs = vec![msg(MessageKind::User, "q"), msg(MessageKind::Agent, "x\ny")];
    assert_eq!(
        view(&conversation_lines(&msgs, true)),
        vec![
            (Some(MessageKind::User), "q".to_string(), false),
            (Some(MessageKind::Agent), "x".to_string(), false),
            (None, "y".to_string(), true),
        ]
    );
    assert!(view(&conversation_lines(&msgs, false)).iter().all(|l| !l.2));
    assert!(conversation_lines(&Vec::new(), true).is_empty());
}

#[test]
fn line_spans_in_order() {
    let l = LinePlan { label: Some(MessageKind::User), text: "你好".to_string(), cursor: true };
    assert_eq!(line_span_texts(&l), vec!["you: ", "你好", "\u{258C}"]);
    let l = LinePlan { label: None, text: String::new(), cursor: false };
    assert_eq!(line_span_texts(&l), vec![""]);
}

#[test]
fn scroll_from_rows_keeps_last_row_in_view() {
    assert_eq!(scroll_from_rows(10, 7), 5);
    assert_eq!(scroll_from_rows(3, 7), 0);
    assert_eq!(scroll_from_rows(70000, 0), (70000u32 - 65536) as u16);
    assert_eq!(scroll_from_rows(70000, 1), (70000u32 - 65536) as u16);
}

#[test]
fn scroll_counts_word_wrapped_rows() {
    let lines = vec![LinePlan { label: None, text: "aaaaaa bbbbbb cccccc".to_string(), cursor: false }];
    // Ten columns inside the border: the words wrap onto three rows, one row is visible.
    assert_eq!(scroll_offset(&lines, 12, 3), 2);
    assert_eq!(scroll_offset(&lines, 12, 5), 0);
    let lines = conversation_lines(&vec![msg(MessageKind::User, "hello world")], false);
    assert_eq!(scroll_offset(&lines, 80, 10), 0);
    assert_eq!(scroll_offset(&Vec::new(), 10, 2), 0);
}

#[test]
fn cursor_after_text_width() {
    assert_eq!(cursor_from_width(3, 20, 5), Some((9, 21)));
    assert_eq!(cursor_from_width(u16::MAX - 2, 0, 1), Some((u16::MAX, 1)));
    assert_eq!(cursor_from_width(u16::MAX - 2, 0, 2), None);
    assert_eq!(cursor_from_width(0, u16::MAX, 0), None);
    assert_eq!(cursor_position("ab", 1, 0, 0), Some((2, 1)));
    assert_eq!(cursor_position("你好", 1, 0, 0), Some((3, 1)));
    assert_eq!(cursor_position("你好", 2, 4, 7), Some((9, 8)));
    assert_eq!(cursor_position("你好", 9, 4, 7), Some((9, 8)));
    assert_eq!(cursor_position("", 0, 0, 0), Some((1, 1)));
}

#[test]
fn help_line_names_the_keys() {
    let normal = help_line(InputMode::Normal);
    let text: Vec<(&str, bool)> = normal.spans.iter().map(|p| (p.text, p.bold)).collect();
    assert_eq!(
        text,
        vec![("Press ", false), ("q", true), (" to exit, ", false), ("e", true), (" to start editing.", true)]
    );
    assert!(normal.blink);
    let editing = help_line(InputMode::Editing);
    let text: String = editing.spans.iter().map(|p| p.text).collect();
    assert_eq!(text, "Press Esc to stop editing, Enter to record the message");
    assert!(!editing.blink);
}
