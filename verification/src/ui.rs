//! The layout of the screen: the help line, how messages break into lines,
//! how far the conversation pane scrolls so that the latest text stays in
//! view, and where the input cursor is drawn.

use vstd::prelude::*;

use crate::app::{history_of, insert_position, InputMode, Message, MessageKind};
use crate::text::{chars_of, push_char};

verus! {

/// The number of terminal columns that `text` takes when shown.
pub uninterp spec fn text_width(text: Seq<char>) -> usize;

/// The display width of `text`.
///
/// Trusted: calls ratatui's `Span::width` on an unstyled span of `text`,
/// which returns the Unicode display width of its content (unicode-width's
/// `UnicodeWidthStr::width`). The contract names that result; it depends on
/// the text alone, and nothing more of it is stated.
#[verifier::external_body]
fn span_width(text: &str) -> (w: usize)
    ensures
        w == text_width(text@),
{
    ratatui::text::Span::raw(text).width()
}

/// One line of the conversation pane: the author label that starts a
/// message, the text, and whether the streaming cursor ends the line.
pub struct LinePlan {
    pub label: Option<MessageKind>,
    pub text: String,
    pub cursor: bool,
}

/// A planned line as a value: label, text, cursor.
pub open spec fn plan_view(l: LinePlan) -> (Option<MessageKind>, Seq<char>, bool) {
    (l.label, l.text@, l.cursor)
}

/// The planned lines `ls` as values.
pub open spec fn plans_view(ls: Seq<LinePlan>) -> Seq<(Option<MessageKind>, Seq<char>, bool)> {
    ls.map_values(|l: LinePlan| plan_view(l))
}

/// The label that starts a message of `kind`.
pub open spec fn label_of(kind: MessageKind) -> Seq<char> {
    match kind {
        MessageKind::User => "you: "@,
        MessageKind::Agent => "agent: "@,
    }
}

/// The label that starts a message of `kind`.
pub fn label_text(kind: MessageKind) -> (r: &'static str)
    ensures
        r@ == label_of(kind),
{
    match kind {
        MessageKind::User => "you: ",
        MessageKind::Agent => "agent: ",
    }
}

/// The mark drawn at the end of a reply that is still streaming in.
pub open spec fn cursor_mark() -> Seq<char> {
    "\u{258C}"@
}

/// The mark drawn at the end of a reply that is still streaming in.
pub fn cursor_text() -> (r: &'static str)
    ensures
        r@ == cursor_mark(),
{
    "\u{258C}"
}

/// The pieces of `s` between its newlines, in order; a text without newline
/// is one piece.
pub open spec fn split_lines(s: Seq<char>) -> Seq<Seq<char>>
    decreases s.len(),
{
    if s.len() == 0 {
        seq![Seq::empty()]
    } else {
        let r = split_lines(s.drop_last());
        if s.last() == '\n' {
            r.push(Seq::empty())
        } else {
            r.update(r.len() - 1, r.last().push(s.last()))
        }
    }
}

/// The pieces `parts` put back together with a newline between each two.
pub open spec fn join_lines(parts: Seq<Seq<char>>) -> Seq<char>
    decreases parts.len(),
{
    if parts.len() <= 1 {
        if parts.len() == 1 {
            parts[0]
        } else {
            Seq::empty()
        }
    } else {
        join_lines(parts.drop_last()) + seq!['\n'] + parts.last()
    }
}

/// The views of the strings `v`.
pub open spec fn strings_view(v: Seq<String>) -> Seq<Seq<char>> {
    v.map_values(|p: String| p@)
}

/// The pieces of `s` between its newlines.
pub fn split_lines_of(s: &str) -> (parts: Vec<String>)
    ensures
        strings_view(parts@) == split_lines(s@),
{
    let v = chars_of(s);
    let n = v.len();
    let mut parts: Vec<String> = Vec::new();
    let mut current = String::new();
    let mut i: usize = 0;
    assert(s@.take(0) =~= Seq::<char>::empty());
    assert(strings_view(parts@).push(current@) =~= seq![Seq::<char>::empty()]);
    while i < n
        invariant
            n == s@.len(),
            v@ == s@,
            i <= n,
            split_lines(s@.take(i as int)) == strings_view(parts@).push(current@),
        decreases n - i,
    {
        let ghost before = strings_view(parts@).push(current@);
        assert(s@.take(i + 1).drop_last() =~= s@.take(i as int));
        assert(s@.take(i + 1).last() == v@[i as int]);
        if v[i] == '\n' {
            parts.push(current);
            current = String::new();
            assert(strings_view(parts@).push(current@) =~= before.push(Seq::<char>::empty()));
        } else {
            push_char(&mut current, v[i]);
            assert(strings_view(parts@).push(current@) =~= before.update(
                before.len() - 1,
                before.last().push(v@[i as int]),
            ));
        }
        i = i + 1;
    }
    assert(s@.take(n as int) =~= s@);
    let ghost before = strings_view(parts@);
    parts.push(current);
    assert(strings_view(parts@) =~= before.push(current@));
    parts
}

/// The lines of a message of `kind` with text `content`: one per piece
/// between newlines, the first labelled, the last carrying the streaming
/// cursor when `cursor` is set.
pub open spec fn message_plan(kind: MessageKind, content: Seq<char>, cursor: bool) -> Seq<
    (Option<MessageKind>, Seq<char>, bool),
> {
    let parts = split_lines(content);
    Seq::new(
        parts.len(),
        |i: int|
            (
                if i == 0 {
                    Some(kind)
                } else {
                    None
                },
                parts[i],
                cursor && i == parts.len() - 1,
            ),
    )
}

/// The lines of the message `msg`, with the streaming cursor at its end when
/// `streaming_cursor` is set.
pub fn message_lines(msg: &Message, streaming_cursor: bool) -> (lines: Vec<LinePlan>)
    ensures
        plans_view(lines@) == message_plan(msg.kind, msg.content@, streaming_cursor),
{
    let segments = split_lines_of(msg.content.as_str());
    let n = segments.len();
    let mut lines: Vec<LinePlan> = Vec::new();
    let mut i: usize = 0;
    let ghost target = message_plan(msg.kind, msg.content@, streaming_cursor);
    while i < n
        invariant
            n == segments@.len(),
            strings_view(segments@) == split_lines(msg.content@),
            target == message_plan(msg.kind, msg.content@, streaming_cursor),
            i <= n,
            plans_view(lines@) == target.take(i as int),
        decreases n - i,
    {
        let label = if i == 0 {
            Some(msg.kind)
        } else {
            None
        };
        let line = LinePlan {
            label,
            text: segments[i].clone(),
            cursor: streaming_cursor && i + 1 == n,
        };
        let ghost before = plans_view(lines@);
        lines.push(line);
        assert(strings_view(segments@)[i as int] == segments@[i as int]@);
        assert(plans_view(lines@) =~= before.push(plan_view(line)));
        assert(target.take(i + 1) =~= target.take(i as int).push(target[i as int]));
        i = i + 1;
    }
    assert(target.take(n as int) =~= target);
    lines
}

/// The lines of the conversation `h`, the streaming cursor ending the last
/// message when `streaming` is set.
pub open spec fn conversation_plan(h: Seq<(MessageKind, Seq<char>)>, streaming: bool) -> Seq<
    (Option<MessageKind>, Seq<char>, bool),
>
    decreases h.len(),
{
    if h.len() == 0 {
        Seq::empty()
    } else {
        conversation_plan(h.drop_last(), false) + message_plan(h.last().0, h.last().1, streaming)
    }
}

/// The lines of the conversation `messages`; while `streaming`, the last
/// message ends with the streaming cursor.
pub fn conversation_lines(messages: &Vec<Message>, streaming: bool) -> (lines: Vec<LinePlan>)
    ensures
        plans_view(lines@) == conversation_plan(history_of(messages@), streaming),
{
    let n = messages.len();
    let ghost h = history_of(messages@);
    let mut lines: Vec<LinePlan> = Vec::new();
    if n == 0 {
        assert(plans_view(lines@) =~= Seq::<(Option<MessageKind>, Seq<char>, bool)>::empty());
        return lines;
    }
    let mut i: usize = 0;
    assert(h.take(0) =~= Seq::<(MessageKind, Seq<char>)>::empty());
    assert(plans_view(lines@) =~= Seq::<(Option<MessageKind>, Seq<char>, bool)>::empty());
    while i + 1 < n
        invariant
            n == messages@.len(),
            n > 0,
            h == history_of(messages@),
            i < n,
            plans_view(lines@) == conversation_plan(h.take(i as int), false),
        decreases n - i,
    {
        let ghost before = plans_view(lines@);
        let mut more = message_lines(&messages[i], false);
        let ghost more_view = plans_view(more@);
        lines.append(&mut more);
        assert(h.take(i + 1).drop_last() =~= h.take(i as int));
        assert(h.take(i + 1).last() == h[i as int]);
        assert(plans_view(lines@) =~= before + more_view);
        i = i + 1;
    }
    let ghost before = plans_view(lines@);
    let mut last = message_lines(&messages[i], streaming);
    let ghost last_view = plans_view(last@);
    lines.append(&mut last);
    assert(h.drop_last() =~= h.take(i as int));
    assert(plans_view(lines@) =~= before + last_view);
    lines
}

/// The texts of the spans a planned line is drawn with: its label, if any,
/// its text, and the streaming cursor, if set.
pub open spec fn line_spans(l: (Option<MessageKind>, Seq<char>, bool)) -> Seq<Seq<char>> {
    (match l.0 {
        Some(k) => seq![label_of(k)],
        None => Seq::empty(),
    }) + seq![l.1] + (if l.2 {
        seq![cursor_mark()]
    } else {
        Seq::empty()
    })
}

/// The span texts of each of the planned lines `ls`.
pub open spec fn spans_of(ls: Seq<(Option<MessageKind>, Seq<char>, bool)>) -> Seq<Seq<Seq<char>>> {
    ls.map_values(|l: (Option<MessageKind>, Seq<char>, bool)| line_spans(l))
}

/// The number of rows that ratatui's paragraph, wrapping words without
/// trimming, takes for the lines `lines` (each given as the texts of its
/// spans) in `width` columns.
pub uninterp spec fn wrapped_line_count(lines: Seq<Seq<Seq<char>>>, width: u16) -> usize;

/// The rows the lines `lines` take when wrapped in `width` columns.
///
/// Trusted: builds an unstyled ratatui `Line` of `Span`s from each list of
/// texts and calls `Paragraph::line_count` on a paragraph of them with
/// `Wrap { trim: false }` and no block; it runs the same word wrapper that
/// rendering uses and counts its rows. Styles do not take part in wrapping.
/// With a width of at least one column every line takes at least one row:
/// `WordWrapper::next_line` (ratatui-widgets `reflow.rs`) processes an input
/// line only when no wrapped row is queued, and `process_input` queues an
/// empty row when a line yields none.
/// The contract names that count; it depends on the texts and the width
/// alone.
#[verifier::external_body]
fn paragraph_rows(lines: &Vec<Vec<String>>, width: u16) -> (r: usize)
    ensures
        r == wrapped_line_count(lines.deep_view(), width),
        width >= 1 ==> r >= lines@.len(),
{
    let text: Vec<ratatui::text::Line> = lines.iter().map(|l| {
        ratatui::text::Line::from(
            l.iter().map(|s| ratatui::text::Span::raw(s.as_str())).collect::<Vec<_>>(),
        )
    }).collect();
    ratatui::widgets::Paragraph::new(text).wrap(ratatui::widgets::Wrap { trim: false }).line_count(
        width,
    )
}

/// The texts of the spans `line` is drawn with.
pub fn line_span_texts(line: &LinePlan) -> (spans: Vec<String>)
    ensures
        spans.deep_view() == line_spans(plan_view(*line)),
{
    let ghost l = plan_view(*line);
    let mut spans: Vec<String> = Vec::new();
    match line.label {
        Some(k) => spans.push(label_text(k).to_owned()),
        None => {},
    }
    spans.push(line.text.clone());
    if line.cursor {
        spans.push(cursor_text().to_owned());
    }
    assert(spans.deep_view() =~= line_spans(l));
    spans
}

/// The width lines wrap at in a bordered pane `area_width` columns wide:
/// the inner width, and at least one column.
pub open spec fn wrap_width(area_width: u16) -> u16 {
    if area_width >= 3 {
        (area_width - 2) as u16
    } else {
        1
    }
}

/// The rows of text a bordered pane `area_height` rows high shows.
pub open spec fn visible_rows(area_height: u16) -> int {
    if area_height >= 2 {
        area_height - 2
    } else {
        0
    }
}

/// How many rows the pane scrolls for `total` rows of text of which
/// `visible` fit: the overflow, kept to its low 16 bits.
pub open spec fn scroll_rows(total: int, visible: int) -> u16 {
    if total > visible {
        ((total - visible) % 0x10000) as u16
    } else {
        0
    }
}

/// How many rows a pane `area_height` rows high with a border scrolls so
/// that the last of `total_rows` rows of text is in view.
pub fn scroll_from_rows(total_rows: usize, area_height: u16) -> (r: u16)
    ensures
        r == scroll_rows(total_rows as int, visible_rows(area_height)),
{
    let visible_height = area_height.saturating_sub(2) as usize;
    let overflow = total_rows.saturating_sub(visible_height);
    assert((#[verifier::truncate] (overflow as u16)) == ((overflow % 0x10000) as u16)) by (bit_vector);
    #[verifier::truncate]
    (overflow as u16)
}

/// How many rows the conversation pane, `area_width` by `area_height` with a
/// border, scrolls so that the last row of the lines `lines`, wrapped at word
/// boundaries to the pane's inner width, is in view.
pub fn scroll_offset(lines: &Vec<LinePlan>, area_width: u16, area_height: u16) -> (r: u16)
    ensures
        r == scroll_rows(
            wrapped_line_count(spans_of(plans_view(lines@)), wrap_width(area_width)) as int,
            visible_rows(area_height),
        ),
        wrapped_line_count(spans_of(plans_view(lines@)), wrap_width(area_width)) >= lines@.len(),
{
    let ghost ls = plans_view(lines@);
    let n = lines.len();
    let mut texts: Vec<Vec<String>> = Vec::new();
    let mut i: usize = 0;
    while i < n
        invariant
            n == lines@.len(),
            ls == plans_view(lines@),
            i <= n,
            texts.deep_view() == spans_of(ls).take(i as int),
        decreases n - i,
    {
        let spans = line_span_texts(&lines[i]);
        let ghost before = texts.deep_view();
        texts.push(spans);
        assert(texts.deep_view() =~= before.push(spans.deep_view()));
        assert(spans_of(ls).take(i + 1) =~= spans_of(ls).take(i as int).push(spans_of(ls)[i as int]));
        i = i + 1;
    }
    assert(spans_of(ls).take(n as int) =~= spans_of(ls));
    let inner_width = area_width.saturating_sub(2);
    let wrap = if inner_width < 1 {
        1
    } else {
        inner_width
    };
    assert(wrap == wrap_width(area_width));
    let total_lines = paragraph_rows(&texts, wrap);
    scroll_from_rows(total_lines, area_height)
}

/// A piece of the help line, bold or plain.
pub struct HelpSpan {
    pub text: &'static str,
    pub bold: bool,
}

/// The help line above the conversation, and whether it blinks.
pub struct HelpLine {
    pub spans: Vec<HelpSpan>,
    pub blink: bool,
}

/// The pieces of the help line in `mode`, with whether each is bold.
pub open spec fn help_spans(mode: InputMode) -> Seq<(Seq<char>, bool)> {
    match mode {
        InputMode::Normal => seq![
            ("Press "@, false),
            ("q"@, true),
            (" to exit, "@, false),
            ("e"@, true),
            (" to start editing."@, true),
        ],
        InputMode::Editing => seq![
            ("Press "@, false),
            ("Esc"@, true),
            (" to stop editing, "@, false),
            ("Enter"@, true),
            (" to record the message"@, false),
        ],
    }
}

/// The help line for `mode`: the keys that act in that mode. It blinks in
/// normal mode.
pub fn help_line(mode: InputMode) -> (h: HelpLine)
    ensures
        h.spans@.map_values(|p: HelpSpan| (p.text@, p.bold)) == help_spans(mode),
        h.blink == (mode == InputMode::Normal),
{
    let h = match mode {
        InputMode::Normal => HelpLine {
            spans: vec![
                HelpSpan { text: "Press ", bold: false },
                HelpSpan { text: "q", bold: true },
                HelpSpan { text: " to exit, ", bold: false },
                HelpSpan { text: "e", bold: true },
                HelpSpan { text: " to start editing.", bold: true },
            ],
            blink: true,
        },
        InputMode::Editing => HelpLine {
            spans: vec![
                HelpSpan { text: "Press ", bold: false },
                HelpSpan { text: "Esc", bold: true },
                HelpSpan { text: " to stop editing, ", bold: false },
                HelpSpan { text: "Enter", bold: true },
                HelpSpan { text: " to record the message", bold: false },
            ],
            blink: false,
        },
    };
    assert(h.spans@.map_values(|p: HelpSpan| (p.text@, p.bold)) =~= help_spans(mode));
    h
}

/// The text before the cursor `k` of the input `s`: all of it when the
/// cursor is past its end.
pub open spec fn text_before_cursor(s: Seq<char>, k: int) -> Seq<char> {
    s.take(insert_position(s, k))
}

/// Where the terminal cursor goes in an input box whose top-left corner is
/// (`area_x`, `area_y`), when the text before the cursor is `prefix_width`
/// columns wide: inside the border, just after that text. `None` when that
/// is past the last row or column a terminal position can hold.
pub fn cursor_from_width(area_x: u16, area_y: u16, prefix_width: usize) -> (r: Option<(u16, u16)>)
    ensures
        match r {
            Some(p) => p.0 == area_x + 1 + prefix_width && p.1 == area_y + 1,
            None => area_x + 1 + prefix_width > u16::MAX || area_y + 1 > u16::MAX,
        },
{
    if area_y == u16::MAX || prefix_width >= (u16::MAX - area_x) as usize {
        None
    } else {
        Some((area_x + 1 + prefix_width as u16, area_y + 1))
    }
}

/// Where the terminal cursor goes for the cursor `character_index` of the
/// input `input`, in an input box whose top-left corner is (`area_x`,
/// `area_y`): inside the border, just after the display width of the text
/// before the cursor. `None` when that is past the last row or column a
/// terminal position can hold.
pub fn cursor_position(input: &str, character_index: usize, area_x: u16, area_y: u16) -> (r: Option<
    (u16, u16),
>)
    ensures
        match r {
            Some(p) => {
                &&& p.0 == area_x + 1 + text_width(
                    text_before_cursor(input@, character_index as int),
                )
                &&& p.1 == area_y + 1
            },
            None => area_x + 1 + text_width(text_before_cursor(input@, character_index as int))
                > u16::MAX || area_y + 1 > u16::MAX,
        },
{
    let count = input.unicode_len();
    let p = if character_index < count {
        character_index
    } else {
        count
    };
    let width = span_width(input.substring_char(0, p));
    cursor_from_width(area_x, area_y, width)
}

/// Splitting a text at its newlines and joining the pieces with newlines
/// gives the text back, and no piece holds a newline.
pub proof fn lemma_split_join(s: Seq<char>)
    ensures
        split_lines(s).len() >= 1,
        join_lines(split_lines(s)) == s,
        forall|i: int, j: int|
            0 <= i < split_lines(s).len() && 0 <= j < split_lines(s)[i].len() ==> split_lines(
                s,
            )[i][j] != '\n',
    decreases s.len(),
{
    if s.len() > 0 {
        let p = s.drop_last();
        lemma_split_join(p);
        let r = split_lines(p);
        if s.last() == '\n' {
            let q = r.push(Seq::<char>::empty());
            assert(q.drop_last() =~= r);
            assert(join_lines(r) + seq!['\n'] + Seq::<char>::empty() =~= s);
        } else {
            let q = r.update(r.len() - 1, r.last().push(s.last()));
            if r.len() == 1 {
                assert(q[0] =~= p.push(s.last()));
                assert(p.push(s.last()) =~= s);
            } else {
                assert(q.drop_last() =~= r.drop_last());
                assert(join_lines(r) == join_lines(r.drop_last()) + seq!['\n'] + r.last());
                assert(join_lines(q.drop_last()) + seq!['\n'] + q.last() =~= join_lines(r).push(
                    s.last(),
                ));
                assert(join_lines(r).push(s.last()) =~= s);
            }
            assert forall|i: int, j: int|
                0 <= i < q.len() && 0 <= j < q[i].len() implies q[i][j] != '\n' by {
                if i == q.len() - 1 && j == q[i].len() - 1 {
                } else if i == q.len() - 1 {
                    assert(q[i][j] == r[i][j]);
                }
            }
        }
    } else {
        assert(split_lines(s) =~= seq![Seq::<char>::empty()]);
    }
}

/// The lines of a message keep its whole text: one line per piece between
/// newlines, empty pieces included, so that their texts joined with newlines
/// give the message back; none holds a newline; the first carries the
/// author's label and no other does; only the last may carry the streaming
/// cursor, and does exactly when asked to.
pub proof fn lemma_message_lines_keep_content(kind: MessageKind, content: Seq<char>, cursor: bool)
    ensures
        message_plan(kind, content, cursor).len() >= 1,
        join_lines(
            message_plan(kind, content, cursor).map_values(
                |l: (Option<MessageKind>, Seq<char>, bool)| l.1,
            ),
        ) == content,
        forall|i: int, j: int|
            0 <= i < message_plan(kind, content, cursor).len() && 0 <= j < message_plan(
                kind,
                content,
                cursor,
            )[i].1.len() ==> message_plan(kind, content, cursor)[i].1[j] != '\n',
        message_plan(kind, content, cursor)[0].0 == Some(kind),
        forall|i: int|
            0 < i < message_plan(kind, content, cursor).len() ==> message_plan(
                kind,
                content,
                cursor,
            )[i].0 is None,
        forall|i: int|
            0 <= i < message_plan(kind, content, cursor).len() ==> message_plan(
                kind,
                content,
                cursor,
            )[i].2 == (cursor && i == message_plan(kind, content, cursor).len() - 1),
{
    lemma_split_join(content);
    let ls = message_plan(kind, content, cursor);
    assert(ls.map_values(|l: (Option<MessageKind>, Seq<char>, bool)| l.1) =~= split_lines(
        content,
    ));
}

/// Every planned line of the pane, blank or not, goes to the wrapper as a
/// line of its own, in order, carrying its text; so each takes at least one
/// row.
pub proof fn lemma_every_line_is_wrapped(ls: Seq<(Option<MessageKind>, Seq<char>, bool)>)
    ensures
        spans_of(ls).len() == ls.len(),
        forall|i: int| 0 <= i < ls.len() ==> #[trigger] spans_of(ls)[i].contains(ls[i].1),
{
    assert forall|i: int| 0 <= i < ls.len() implies #[trigger] spans_of(ls)[i].contains(ls[i].1) by {
        let sp = line_spans(ls[i]);
        let k: int = if ls[i].0 is Some {
            1
        } else {
            0
        };
        assert(sp[k] == ls[i].1);
    }
}

/// When every one of `n` lines takes at least one row, out of `total` rows,
/// the pane scrolls at least past all but the rows it shows, so the last
/// line is in view (as long as the scroll fits in 16 bits).
pub proof fn lemma_scroll_reaches_last_line(n: int, total: int, area_height: u16)
    requires
        total >= n,
        total - visible_rows(area_height) < 0x10000,
    ensures
        scroll_rows(total, visible_rows(area_height)) >= n - visible_rows(area_height),
        scroll_rows(total, visible_rows(area_height)) + visible_rows(area_height) >= total,
{
}

} // verus!
