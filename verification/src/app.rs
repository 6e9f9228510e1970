//! The state of the terminal client: the line being edited, its cursor, the
//! conversation shown on screen, and how key presses and streamed reply
//! chunks change them.

use vstd::prelude::*;
use vstd::utf8::encode_utf8;

use crate::session::Session;
use crate::stream::{
    agent_replies, client_receives, lemma_stream_delivers_visible_text, server_transcript,
    visible_text, AgentStreamItem,
};
use crate::text::{push_char, trim, trimmed};

verus! {

/// Whether keys edit the input line or act as commands.
#[derive(Clone, Copy, Debug, PartialEq, Eq, Structural)]
pub enum InputMode {
    Normal,
    Editing,
}

/// Who wrote a message of the conversation.
#[derive(Clone, Copy, Debug, PartialEq, Eq, Structural)]
pub enum MessageKind {
    User,
    Agent,
}

/// A message of the conversation.
pub struct Message {
    pub kind: MessageKind,
    pub content: String,
}

/// What the streaming worker reports: a piece of the reply, or its end.
pub enum StreamEvent {
    Chunk(String),
    Done,
}

/// The key of a key event, as far as the client tells keys apart.
#[derive(Clone, Copy, Debug, PartialEq, Eq, Structural)]
pub enum KeyCode {
    Char(char),
    Enter,
    Backspace,
    Left,
    Right,
    Esc,
    Other,
}

/// Whether a key went down, repeated, or came up.
#[derive(Clone, Copy, Debug, PartialEq, Eq, Structural)]
pub enum KeyEventKind {
    Press,
    Repeat,
    Release,
}

/// A key event from the terminal.
#[derive(Clone, Copy, Debug, PartialEq, Eq, Structural)]
pub struct KeyEvent {
    pub code: KeyCode,
    pub kind: KeyEventKind,
}

/// The application.
pub struct App {
    /// Current value of the input box.
    pub input: String,
    /// Position of the cursor in the input, counted in characters.
    pub character_index: usize,
    /// Current input mode.
    pub input_mode: InputMode,
    /// The conversation so far.
    pub messages: Vec<Message>,
    /// Whether the application should exit.
    pub should_quit: bool,
    /// The session the conversation belongs to.
    pub session: Session,
    /// Whether an agent server is connected to answer prompts.
    pub connected: bool,
    /// Whether an agent reply is streaming in.
    pub streaming: bool,
}

/// A message as the conversation shows it: its author and its text.
pub open spec fn message_view(m: Message) -> (MessageKind, Seq<char>) {
    (m.kind, m.content@)
}

/// The conversation shown by `msgs`.
pub open spec fn history_of(msgs: Seq<Message>) -> Seq<(MessageKind, Seq<char>)> {
    msgs.map_values(|m: Message| message_view(m))
}

/// `pos` limited to the positions of the text `s`: `0..=s.len()`.
pub open spec fn cursor_clamped(pos: int, s: Seq<char>) -> int {
    if pos <= s.len() {
        pos
    } else {
        s.len() as int
    }
}

/// Where a character typed with the cursor at `k` goes in `s`.
pub open spec fn insert_position(s: Seq<char>, k: int) -> int {
    if k < s.len() {
        k
    } else {
        s.len() as int
    }
}

/// The cursor after moving left from `k` in `s`.
pub open spec fn cursor_after_left(s: Seq<char>, k: int) -> int {
    if k == 0 {
        0
    } else {
        cursor_clamped(k - 1, s)
    }
}

/// The cursor after moving right from `k` in `s`.
pub open spec fn cursor_after_right(s: Seq<char>, k: int) -> int {
    cursor_clamped(k + 1, s)
}

/// The input after typing `c` with the cursor at `k`.
pub open spec fn input_after_enter(s: Seq<char>, k: int, c: char) -> Seq<char> {
    s.insert(insert_position(s, k), c)
}

/// The cursor after typing a character with the cursor at `k`.
pub open spec fn cursor_after_enter(s: Seq<char>, k: int) -> int {
    insert_position(s, k) + 1
}

/// The input after deleting the character before the cursor at `k`.
pub open spec fn input_after_delete(s: Seq<char>, k: int) -> Seq<char> {
    if 0 < k <= s.len() {
        s.remove(k - 1)
    } else {
        s
    }
}

/// The cursor after deleting the character before the cursor at `k`.
pub open spec fn cursor_after_delete(s: Seq<char>, k: int) -> int {
    cursor_after_left(s, k)
}

/// The command that ends the application when submitted.
pub open spec fn is_quit_command(s: Seq<char>) -> bool {
    trimmed(s) == "/quit"@
}

/// The conversation `h` after a reply chunk `c` arrives: it extends the
/// latest message when that message is the agent's, and is dropped otherwise.
pub open spec fn history_after_chunk(
    h: Seq<(MessageKind, Seq<char>)>,
    c: Seq<char>,
) -> Seq<(MessageKind, Seq<char>)> {
    if h.len() > 0 && h.last().0 == MessageKind::Agent {
        h.update(h.len() - 1, (MessageKind::Agent, h.last().1 + c))
    } else {
        h
    }
}

/// The conversation `h` after the event `e`.
pub open spec fn history_after_event(
    h: Seq<(MessageKind, Seq<char>)>,
    e: StreamEvent,
) -> Seq<(MessageKind, Seq<char>)> {
    match e {
        StreamEvent::Chunk(c) => history_after_chunk(h, c@),
        StreamEvent::Done => h,
    }
}

/// The streaming flag after the event `e`: an end of reply clears it.
pub open spec fn streaming_after_event(streaming: bool, e: StreamEvent) -> bool {
    match e {
        StreamEvent::Chunk(_) => streaming,
        StreamEvent::Done => false,
    }
}

/// The conversation `h` after the events `evs`, in order.
pub open spec fn history_after_events(
    h: Seq<(MessageKind, Seq<char>)>,
    evs: Seq<StreamEvent>,
) -> Seq<(MessageKind, Seq<char>)>
    decreases evs.len(),
{
    if evs.len() == 0 {
        h
    } else {
        history_after_event(history_after_events(h, evs.drop_last()), evs.last())
    }
}

/// The streaming flag after the events `evs`.
pub open spec fn streaming_after_events(streaming: bool, evs: Seq<StreamEvent>) -> bool
    decreases evs.len(),
{
    if evs.len() == 0 {
        streaming
    } else {
        streaming_after_event(streaming_after_events(streaming, evs.drop_last()), evs.last())
    }
}

impl App {
    /// The cursor stands within the input.
    pub open spec fn wf(self) -> bool {
        self.character_index <= self.input@.len()
    }

    /// `self` and `other` agree on everything but the input and its cursor.
    pub open spec fn same_but_input(self, other: App) -> bool {
        &&& self.input_mode == other.input_mode
        &&& self.messages@ == other.messages@
        &&& self.should_quit == other.should_quit
        &&& self.session == other.session
        &&& self.connected == other.connected
        &&& self.streaming == other.streaming
    }

    /// `self` and `other` agree on everything but the conversation and the
    /// streaming flag.
    pub open spec fn same_but_conversation(self, other: App) -> bool {
        &&& self.input@ == other.input@
        &&& self.character_index == other.character_index
        &&& self.input_mode == other.input_mode
        &&& self.should_quit == other.should_quit
        &&& self.session == other.session
        &&& self.connected == other.connected
    }

    /// `new` is `old` with input `s` and cursor `k`.
    pub open spec fn edited(old: App, new: App, s: Seq<char>, k: int) -> bool {
        &&& new.input@ == s
        &&& new.character_index == k
        &&& new.same_but_input(old)
    }

    /// `new` is `old` after submitting its input, and `sent` is the prompt
    /// handed to the agent, if any.
    pub open spec fn submitted(old: App, new: App, sent: Option<String>) -> bool {
        &&& new.input_mode == old.input_mode
        &&& new.session == old.session
        &&& new.connected == old.connected
        &&& if is_quit_command(old.input@) {
            &&& new.should_quit
            &&& new.input@ == old.input@
            &&& new.character_index == old.character_index
            &&& new.messages@ == old.messages@
            &&& new.streaming == old.streaming
            &&& sent is None
        } else {
            &&& new.should_quit == old.should_quit
            &&& new.input@ == Seq::<char>::empty()
            &&& new.character_index == 0
            &&& if old.connected {
                &&& history_of(new.messages@) == history_of(old.messages@).push(
                    (MessageKind::User, old.input@),
                ).push((MessageKind::Agent, Seq::<char>::empty()))
                &&& new.streaming
                &&& sent matches Some(p) && p@ == old.input@
            } else {
                &&& history_of(new.messages@) == history_of(old.messages@).push(
                    (MessageKind::User, old.input@),
                )
                &&& new.streaming == old.streaming
                &&& sent is None
            }
        }
    }

    /// `new` is `old` after the key event `key`; `sent` is the prompt handed
    /// to the agent server, if any.
    pub open spec fn after_key(old: App, new: App, key: KeyEvent, sent: Option<String>) -> bool {
        match old.input_mode {
            InputMode::Normal => {
                &&& sent is None
                &&& match key.code {
                    KeyCode::Char('e') => {
                        &&& new.input_mode == InputMode::Editing
                        &&& new.input == old.input
                        &&& new.character_index == old.character_index
                        &&& new.messages == old.messages
                        &&& new.should_quit == old.should_quit
                        &&& new.session == old.session
                        &&& new.connected == old.connected
                        &&& new.streaming == old.streaming
                    },
                    KeyCode::Char('q') => {
                        &&& new.should_quit
                        &&& new.input == old.input
                        &&& new.character_index == old.character_index
                        &&& new.input_mode == old.input_mode
                        &&& new.messages == old.messages
                        &&& new.session == old.session
                        &&& new.connected == old.connected
                        &&& new.streaming == old.streaming
                    },
                    _ => new == old,
                }
            },
            InputMode::Editing => {
                if key.kind == KeyEventKind::Press {
                    match key.code {
                        KeyCode::Enter => App::submitted(old, new, sent),
                        KeyCode::Esc => {
                            &&& sent is None
                            &&& new.input_mode == InputMode::Normal
                            &&& new.input == old.input
                            &&& new.character_index == old.character_index
                            &&& new.messages == old.messages
                            &&& new.should_quit == old.should_quit
                            &&& new.session == old.session
                            &&& new.connected == old.connected
                            &&& new.streaming == old.streaming
                        },
                        KeyCode::Char(c) => {
                            &&& sent is None
                            &&& App::edited(
                                old,
                                new,
                                input_after_enter(old.input@, old.character_index as int, c),
                                cursor_after_enter(old.input@, old.character_index as int),
                            )
                        },
                        KeyCode::Backspace => {
                            &&& sent is None
                            &&& App::edited(
                                old,
                                new,
                                input_after_delete(old.input@, old.character_index as int),
                                cursor_after_delete(old.input@, old.character_index as int),
                            )
                        },
                        KeyCode::Left => {
                            &&& sent is None
                            &&& App::edited(
                                old,
                                new,
                                old.input@,
                                cursor_after_left(old.input@, old.character_index as int),
                            )
                        },
                        KeyCode::Right => {
                            &&& sent is None
                            &&& App::edited(
                                old,
                                new,
                                old.input@,
                                cursor_after_right(old.input@, old.character_index as int),
                            )
                        },
                        KeyCode::Other => sent is None && new == old,
                    }
                } else {
                    sent is None && new == old
                }
            },
        }
    }

    /// Starts the application with an empty input in editing mode, in the
    /// session that follows `*last_session_id`; `connected` tells whether an
    /// agent server answers prompts.
    pub fn new(connected: bool, last_session_id: &mut usize) -> (app: App)
        requires
            *old(last_session_id) < usize::MAX,
        ensures
            app.input@ == Seq::<char>::empty(),
            app.character_index == 0,
            app.input_mode == InputMode::Editing,
            app.messages@.len() == 0,
            !app.should_quit,
            !app.streaming,
            app.connected == connected,
            *final(last_session_id) == *old(last_session_id) + 1,
            app.session.wf(),
            app.session.id_view() == *final(last_session_id),
            app.session.history_view().len() == 0,
            app.wf(),
    {
        App {
            input: String::new(),
            input_mode: InputMode::Editing,
            messages: Vec::new(),
            character_index: 0,
            should_quit: false,
            session: Session::new(last_session_id),
            connected,
            streaming: false,
        }
    }

    /// Handles a tick of the terminal; nothing changes.
    pub fn tick(&self) {
    }

    /// Asks the application to exit.
    pub fn quit(&mut self)
        ensures
            final(self).should_quit,
            final(self).input == old(self).input,
            final(self).character_index == old(self).character_index,
            final(self).input_mode == old(self).input_mode,
            final(self).messages == old(self).messages,
            final(self).session == old(self).session,
            final(self).connected == old(self).connected,
            final(self).streaming == old(self).streaming,
    {
        self.should_quit = true;
    }

    /// `new_cursor_pos` limited to the positions of the input.
    pub fn clamp_cursor(&self, new_cursor_pos: usize) -> (r: usize)
        ensures
            r == cursor_clamped(new_cursor_pos as int, self.input@),
            self.input@.len() <= usize::MAX,
    {
        let count = self.input.as_str().unicode_len();
        if new_cursor_pos <= count {
            new_cursor_pos
        } else {
            count
        }
    }

    /// Moves the cursor one character to the left, if it can.
    pub fn move_cursor_left(&mut self)
        ensures
            App::edited(
                *old(self),
                *final(self),
                old(self).input@,
                cursor_after_left(old(self).input@, old(self).character_index as int),
            ),
    {
        let cursor_moved_left = self.character_index.saturating_sub(1);
        self.character_index = self.clamp_cursor(cursor_moved_left);
    }

    /// Moves the cursor one character to the right, if it can.
    pub fn move_cursor_right(&mut self)
        ensures
            App::edited(
                *old(self),
                *final(self),
                old(self).input@,
                cursor_after_right(old(self).input@, old(self).character_index as int),
            ),
    {
        let cursor_moved_right = self.character_index.saturating_add(1);
        self.character_index = self.clamp_cursor(cursor_moved_right);
    }

    /// The byte offset in the input of the character under the cursor, or
    /// the input's length in bytes when the cursor is past its end.
    pub fn byte_index(&self) -> (r: usize)
        ensures
            r == encode_utf8(
                self.input@.take(insert_position(self.input@, self.character_index as int)),
            ).len() as usize,
    {
        let s = self.input.as_str();
        let count = s.unicode_len();
        let p = if self.character_index < count {
            self.character_index
        } else {
            count
        };
        s.substring_char(0, p).len()
    }

    /// Inserts `new_char` at the cursor and moves the cursor past it.
    pub fn enter_char(&mut self, new_char: char)
        ensures
            App::edited(
                *old(self),
                *final(self),
                input_after_enter(old(self).input@, old(self).character_index as int, new_char),
                cursor_after_enter(old(self).input@, old(self).character_index as int),
            ),
    {
        let ghost s = self.input@;
        let count = self.input.as_str().unicode_len();
        let p = if self.character_index < count {
            self.character_index
        } else {
            count
        };
        let mut updated = self.input.as_str().substring_char(0, p).to_owned();
        push_char(&mut updated, new_char);
        updated.append(self.input.as_str().substring_char(p, count));
        assert(updated@ =~= s.insert(p as int, new_char));
        self.input = updated;
        self.move_cursor_right();
    }

    /// Deletes the character before the cursor, if there is one, and moves
    /// the cursor back over it.
    pub fn delete_char(&mut self)
        ensures
            App::edited(
                *old(self),
                *final(self),
                input_after_delete(old(self).input@, old(self).character_index as int),
                cursor_after_delete(old(self).input@, old(self).character_index as int),
            ),
    {
        let is_not_cursor_leftmost = self.character_index != 0;
        if is_not_cursor_leftmost {
            let ghost s = self.input@;
            let current_index = self.character_index;
            let from_left_to_current_index = current_index - 1;
            let count = self.input.as_str().unicode_len();
            let keep_before = if from_left_to_current_index < count {
                from_left_to_current_index
            } else {
                count
            };
            let keep_after = if current_index < count {
                current_index
            } else {
                count
            };
            let mut updated = self.input.as_str().substring_char(0, keep_before).to_owned();
            updated.append(self.input.as_str().substring_char(keep_after, count));
            assert(updated@ =~= input_after_delete(s, current_index as int));
            self.input = updated;
            self.move_cursor_left();
        }
    }

    /// Puts the cursor at the start of the input.
    pub fn reset_cursor(&mut self)
        ensures
            App::edited(*old(self), *final(self), old(self).input@, 0),
    {
        self.character_index = 0;
    }

    /// Submits the input: the command `/quit` ends the application; any other
    /// text becomes a user message, followed by an empty agent message to be
    /// filled when a server is connected, and the input is cleared. Returns
    /// the prompt to hand to the agent server.
    pub fn submit_message(&mut self) -> (sent: Option<String>)
        ensures
            App::submitted(*old(self), *final(self), sent),
    {
        let prompt = self.input.clone();
        let is_quit = trim(prompt.as_str()).to_owned() == "/quit".to_owned();
        if is_quit {
            self.should_quit = true;
            None
        } else {
            let ghost before = self.messages@;
            self.messages.push(Message { kind: MessageKind::User, content: prompt.clone() });
            let sent = if self.connected {
                self.messages.push(Message { kind: MessageKind::Agent, content: String::new() });
                self.streaming = true;
                Some(prompt)
            } else {
                None
            };
            self.input = String::new();
            self.reset_cursor();
            proof {
                if self.connected {
                    assert(history_of(self.messages@) =~= history_of(before).push(
                        (MessageKind::User, prompt@),
                    ).push((MessageKind::Agent, Seq::<char>::empty())));
                } else {
                    assert(history_of(self.messages@) =~= history_of(before).push(
                        (MessageKind::User, prompt@),
                    ));
                }
            }
            sent
        }
    }

    /// Handles a key event: in normal mode `e` starts editing and `q` quits;
    /// while editing, a key press submits, types, deletes, moves the cursor,
    /// or, for Esc, stops editing. Returns the prompt to hand to the agent
    /// server, if any.
    pub fn run(&mut self, key: KeyEvent) -> (sent: Option<String>)
        ensures
            App::after_key(*old(self), *final(self), key, sent),
    {
        match self.input_mode {
            InputMode::Normal => {
                match key.code {
                    KeyCode::Char('e') => {
                        self.input_mode = InputMode::Editing;
                    },
                    KeyCode::Char('q') => {
                        self.should_quit = true;
                    },
                    _ => {},
                }
                None
            },
            InputMode::Editing => {
                if key.kind == KeyEventKind::Press {
                    match key.code {
                        KeyCode::Enter => self.submit_message(),
                        KeyCode::Esc => {
                            self.input_mode = InputMode::Normal;
                            None
                        },
                        KeyCode::Char(to_insert) => {
                            self.enter_char(to_insert);
                            None
                        },
                        KeyCode::Backspace => {
                            self.delete_char();
                            None
                        },
                        KeyCode::Left => {
                            self.move_cursor_left();
                            None
                        },
                        KeyCode::Right => {
                            self.move_cursor_right();
                            None
                        },
                        KeyCode::Other => None,
                    }
                } else {
                    None
                }
            },
        }
    }

    /// Applies one event of the streaming worker: a chunk extends the latest
    /// message when it is the agent's; the end of the reply stops streaming.
    pub fn apply_event(&mut self, event: &StreamEvent)
        ensures
            final(self).same_but_conversation(*old(self)),
            history_of(final(self).messages@) == history_after_event(
                history_of(old(self).messages@),
                *event,
            ),
            final(self).streaming == streaming_after_event(old(self).streaming, *event),
    {
        let ghost h = history_of(self.messages@);
        match event {
            StreamEvent::Chunk(chunk) => {
                let n = self.messages.len();
                if n > 0 && self.messages[n - 1].kind == MessageKind::Agent {
                    let ghost before = self.messages@;
                    let mut last = self.messages.pop().unwrap();
                    last.content.append(chunk.as_str());
                    self.messages.push(last);
                    assert(self.messages@ =~= before.update(n - 1, last));
                    assert(history_of(self.messages@) =~= history_after_chunk(h, chunk@));
                }
            },
            StreamEvent::Done => {
                self.streaming = false;
            },
        }
    }

    /// Applies the events that arrived since the last poll, in order.
    pub fn poll_stream(&mut self, events: &Vec<StreamEvent>)
        ensures
            final(self).same_but_conversation(*old(self)),
            history_of(final(self).messages@) == history_after_events(
                history_of(old(self).messages@),
                events@,
            ),
            final(self).streaming == streaming_after_events(old(self).streaming, events@),
    {
        let ghost h = history_of(self.messages@);
        let ghost st = self.streaming;
        let ghost start = *self;
        let mut i: usize = 0;
        assert(events@.take(0) =~= Seq::<StreamEvent>::empty());
        while i < events.len()
            invariant
                i <= events@.len(),
                self.same_but_conversation(start),
                history_of(self.messages@) == history_after_events(h, events@.take(i as int)),
                self.streaming == streaming_after_events(st, events@.take(i as int)),
            decreases events@.len() - i,
        {
            self.apply_event(&events[i]);
            assert(events@.take(i + 1).drop_last() =~= events@.take(i as int));
            assert(events@.take(i + 1).last() == events@[i as int]);
            i = i + 1;
        }
        assert(events@.take(events@.len() as int) =~= events@);
    }
}

/// Whatever the cursor was, every edit leaves it within the input.
pub proof fn lemma_edits_keep_cursor_in_input(s: Seq<char>, k: int, c: char)
    requires
        0 <= k,
    ensures
        0 <= cursor_after_left(s, k) <= s.len(),
        0 <= cursor_after_right(s, k) <= s.len(),
        0 <= cursor_after_enter(s, k) <= input_after_enter(s, k, c).len(),
        0 <= cursor_after_delete(s, k) <= input_after_delete(s, k).len(),
{
}

/// Deleting right after typing a character undoes the typing: the input and
/// the cursor are back where they were.
pub proof fn lemma_delete_undoes_enter(s: Seq<char>, k: int, c: char)
    requires
        0 <= k <= s.len(),
    ensures
        input_after_delete(input_after_enter(s, k, c), cursor_after_enter(s, k)) == s,
        cursor_after_delete(input_after_enter(s, k, c), cursor_after_enter(s, k)) == k,
{
    assert(s.insert(k, c).remove(k) =~= s);
}

/// Moving right and then left, or left and then right, returns the cursor
/// to where it was, when the first move could be made.
pub proof fn lemma_moves_cancel(s: Seq<char>, k: int)
    requires
        0 <= k <= s.len(),
    ensures
        k < s.len() ==> cursor_after_left(s, cursor_after_right(s, k)) == k,
        0 < k ==> cursor_after_right(s, cursor_after_left(s, k)) == k,
{
}

/// Every key keeps the cursor within the input.
pub proof fn lemma_cursor_stays_in_input(
    before: App,
    after: App,
    key: KeyEvent,
    sent: Option<String>,
)
    requires
        before.wf(),
        App::after_key(before, after, key, sent),
    ensures
        after.wf(),
{
    lemma_edits_keep_cursor_in_input(
        before.input@,
        before.character_index as int,
        match key.code {
            KeyCode::Char(c) => c,
            _ => ' ',
        },
    );
}

/// Events applied in two batches give the same conversation and streaming
/// flag as applied in one.
pub proof fn lemma_event_batches_compose(
    h: Seq<(MessageKind, Seq<char>)>,
    streaming: bool,
    a: Seq<StreamEvent>,
    b: Seq<StreamEvent>,
)
    ensures
        history_after_events(h, a + b) == history_after_events(history_after_events(h, a), b),
        streaming_after_events(streaming, a + b) == streaming_after_events(
            streaming_after_events(streaming, a),
            b,
        ),
    decreases b.len(),
{
    if b.len() == 0 {
        assert(a + b =~= a);
    } else {
        assert((a + b).drop_last() =~= a + b.drop_last());
        assert((a + b).last() == b.last());
        lemma_event_batches_compose(h, streaming, a, b.drop_last());
    }
}

/// The texts `parts`, one after another.
pub open spec fn concat_all(parts: Seq<Seq<char>>) -> Seq<char>
    decreases parts.len(),
{
    if parts.len() == 0 {
        Seq::empty()
    } else {
        concat_all(parts.drop_last()) + parts.last()
    }
}

/// Whether `e` is a chunk of text `t`.
pub open spec fn carries_chunk(e: StreamEvent, t: Seq<char>) -> bool {
    match e {
        StreamEvent::Chunk(c) => c@ == t,
        StreamEvent::Done => false,
    }
}

/// The events that carry the texts `parts` as chunks and then end the reply.
pub open spec fn carries(events: Seq<StreamEvent>, parts: Seq<Seq<char>>) -> bool {
    &&& events.len() == parts.len() + 1
    &&& forall|i: int| 0 <= i < parts.len() ==> carries_chunk(#[trigger] events[i], parts[i])
    &&& events.last() is Done
}

proof fn lemma_chunks_extend_reply(
    h: Seq<(MessageKind, Seq<char>)>,
    events: Seq<StreamEvent>,
    parts: Seq<Seq<char>>,
    k: int,
)
    requires
        h.len() > 0,
        h.last().0 == MessageKind::Agent,
        0 <= k <= parts.len(),
        k < events.len(),
        forall|i: int| 0 <= i < parts.len() ==> carries_chunk(#[trigger] events[i], parts[i]),
    ensures
        history_after_events(h, events.take(k)) == h.update(
            h.len() - 1,
            (MessageKind::Agent, h.last().1 + concat_all(parts.take(k))),
        ),
    decreases k,
{
    if k == 0 {
        assert(parts.take(0) =~= Seq::<Seq<char>>::empty());
        assert(h.last().1 + Seq::<char>::empty() =~= h.last().1);
        assert(h.update(h.len() - 1, (MessageKind::Agent, h.last().1)) =~= h);
    } else {
        lemma_chunks_extend_reply(h, events, parts, k - 1);
        assert(events.take(k).drop_last() =~= events.take(k - 1));
        assert(parts.take(k).drop_last() =~= parts.take(k - 1));
        assert(events.take(k).last() == events[k - 1]);
        assert(parts.take(k).last() == parts[k - 1]);
        let before = h.update(
            h.len() - 1,
            (MessageKind::Agent, h.last().1 + concat_all(parts.take(k - 1))),
        );
        assert(carries_chunk(events[k - 1], parts[k - 1]));
        assert(h.last().1 + concat_all(parts.take(k - 1)) + parts[k - 1] =~= h.last().1
            + concat_all(parts.take(k)));
        assert(before.update(
            before.len() - 1,
            (MessageKind::Agent, before.last().1 + parts[k - 1]),
        ) =~= h.update(h.len() - 1, (MessageKind::Agent, h.last().1 + concat_all(parts.take(k)))));
    }
}

/// A prompt submitted while a server is connected, followed by the events
/// that carry its reply in pieces and then end it, leaves the prompt as the
/// user's message and the pieces, joined in order, as the agent's reply, and
/// streaming over.
pub proof fn lemma_streamed_reply_assembles(
    before: App,
    after: App,
    sent: Option<String>,
    events: Seq<StreamEvent>,
    parts: Seq<Seq<char>>,
)
    requires
        App::submitted(before, after, sent),
        before.connected,
        !is_quit_command(before.input@),
        carries(events, parts),
    ensures
        history_after_events(history_of(after.messages@), events) == history_of(
            before.messages@,
        ).push((MessageKind::User, before.input@)).push((MessageKind::Agent, concat_all(parts))),
        !streaming_after_events(after.streaming, events),
{
    let h = history_of(after.messages@);
    let n = parts.len() as int;
    lemma_chunks_extend_reply(h, events, parts, n);
    assert(events.drop_last() =~= events.take(n));
    assert(parts.take(n) =~= parts);
    assert(Seq::<char>::empty() + concat_all(parts) =~= concat_all(parts));
    assert(h.update(h.len() - 1, (MessageKind::Agent, concat_all(parts))) =~= history_of(
        before.messages@,
    ).push((MessageKind::User, before.input@)).push((MessageKind::Agent, concat_all(parts))));
}

/// A prompt submitted while a server is connected ends up answered, in the
/// conversation, by the agent's non-empty texts that came before any failure
/// of its stream, joined in order and closed by a newline, once the client
/// has delivered the reply the server streamed and reported its end.
pub proof fn lemma_agent_reply_reaches_conversation(
    before: App,
    after: App,
    sent: Option<String>,
    items: Seq<AgentStreamItem>,
    events: Seq<StreamEvent>,
)
    requires
        App::submitted(before, after, sent),
        before.connected,
        !is_quit_command(before.input@),
        carries(events, client_receives(server_transcript(agent_replies(items)))),
    ensures
        history_after_events(history_of(after.messages@), events) == history_of(
            before.messages@,
        ).push((MessageKind::User, before.input@)).push(
            (MessageKind::Agent, concat_all(visible_text(items)) + "\n"@),
        ),
        !streaming_after_events(after.streaming, events),
{
    let parts = client_receives(server_transcript(agent_replies(items)));
    lemma_stream_delivers_visible_text(items);
    lemma_streamed_reply_assembles(before, after, sent, events, parts);
    assert(parts.drop_last() =~= visible_text(items));
}

/// Submitting any input whose trimmed text is not `/quit` records it as the
/// user's message and clears the input box, with or without a server: the
/// input becomes empty, the cursor goes to its start, and the prompt is sent
/// exactly when a server is connected, unchanged.
pub proof fn lemma_submit_clears_input(before: App, after: App, sent: Option<String>)
    requires
        App::submitted(before, after, sent),
        trimmed(before.input@) != "/quit"@,
    ensures
        after.input@.len() == 0,
        after.character_index == 0,
        !after.should_quit || before.should_quit,
        history_of(after.messages@).len() > history_of(before.messages@).len(),
        history_of(after.messages@)[history_of(before.messages@).len() as int] == (
            MessageKind::User,
            before.input@,
        ),
        sent is Some <==> before.connected,
        sent matches Some(p) ==> p@ == before.input@,
{
}

/// Submitting an input whose trimmed text is `/quit` ends the application,
/// whether or not a server is connected: nothing is recorded, sent, or
/// cleared.
pub proof fn lemma_quit_command_quits(before: App, after: App, sent: Option<String>)
    requires
        App::submitted(before, after, sent),
        trimmed(before.input@) == "/quit"@,
    ensures
        after.should_quit,
        sent is None,
        history_of(after.messages@) == history_of(before.messages@),
        after.input@ == before.input@,
        after.character_index == before.character_index,
{
}

/// In normal mode no key touches the draft: the input and its cursor stay
/// as they are, and `e` returns to editing.
pub proof fn lemma_normal_mode_keeps_draft(
    before: App,
    after: App,
    key: KeyEvent,
    sent: Option<String>,
)
    requires
        App::after_key(before, after, key, sent),
        before.input_mode == InputMode::Normal,
    ensures
        after.input@ == before.input@,
        after.character_index == before.character_index,
        history_of(after.messages@) == history_of(before.messages@),
        sent is None,
        key.code == KeyCode::Char('e') ==> after.input_mode == InputMode::Editing,
{
}

/// Pressing Esc while editing and then `e` comes back to editing with the
/// same draft, cursor and conversation.
pub proof fn lemma_esc_then_e_restores_editing(
    a: App,
    b: App,
    c: App,
    esc_kind: KeyEventKind,
    e_kind: KeyEventKind,
    s1: Option<String>,
    s2: Option<String>,
)
    requires
        a.input_mode == InputMode::Editing,
        esc_kind == KeyEventKind::Press,
        App::after_key(a, b, KeyEvent { code: KeyCode::Esc, kind: esc_kind }, s1),
        App::after_key(b, c, KeyEvent { code: KeyCode::Char('e'), kind: e_kind }, s2),
    ensures
        b.input_mode == InputMode::Normal,
        c.input_mode == InputMode::Editing,
        c.input@ == a.input@,
        c.character_index == a.character_index,
        history_of(c.messages@) == history_of(a.messages@),
        c.should_quit == a.should_quit,
        c.streaming == a.streaming,
        s1 is None && s2 is None,
{
}

} // verus!
