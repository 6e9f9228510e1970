//! The conversation history of one chat session.

use vstd::prelude::*;

use crate::app::concat_all;

verus! {

/// Who wrote a history entry.
#[derive(Clone, Copy, Debug, PartialEq, Eq, Structural)]
pub enum MessageType {
    UserInput,
    AgentOutput,
}

/// One entry of the history.
pub struct Message {
    message_type: MessageType,
    content: String,
}

/// A numbered conversation: the prompts typed by the user and the replies
/// of the agent, in order.
pub struct Session {
    id: usize,
    history: Vec<Message>,
    length: usize,
}

/// An entry as it stands in the session's view: its author and its text.
pub closed spec fn entry_view(m: Message) -> (MessageType, Seq<char>) {
    (m.message_type, m.content@)
}

/// The history `h` with `chunk` appended to the text of its latest entry.
pub open spec fn with_chunk(
    h: Seq<(MessageType, Seq<char>)>,
    chunk: Seq<char>,
) -> Seq<(MessageType, Seq<char>)> {
    h.update(h.len() - 1, (h.last().0, h.last().1 + chunk))
}

/// The history `h` with the chunks `chunks` appended in order.
pub open spec fn with_chunks(
    h: Seq<(MessageType, Seq<char>)>,
    chunks: Seq<Seq<char>>,
) -> Seq<(MessageType, Seq<char>)>
    decreases chunks.len(),
{
    if chunks.len() == 0 {
        h
    } else {
        with_chunk(with_chunks(h, chunks.drop_last()), chunks.last())
    }
}

/// An agent reply opened on the history `h` and then fed the chunks
/// `chunks` holds them joined in order, after the entries of `h`.
pub proof fn lemma_reply_collects_chunks(
    h: Seq<(MessageType, Seq<char>)>,
    chunks: Seq<Seq<char>>,
)
    ensures
        with_chunks(h.push((MessageType::AgentOutput, Seq::empty())), chunks) == h.push(
            (MessageType::AgentOutput, concat_all(chunks)),
        ),
    decreases chunks.len(),
{
    if chunks.len() == 0 {
    } else {
        lemma_reply_collects_chunks(h, chunks.drop_last());
        let before = h.push((MessageType::AgentOutput, concat_all(chunks.drop_last())));
        assert(with_chunk(before, chunks.last()) =~= h.push(
            (MessageType::AgentOutput, concat_all(chunks)),
        ));
    }
}

impl Session {
    /// The session's number.
    pub closed spec fn id_view(self) -> nat {
        self.id as nat
    }

    /// The history, oldest entry first.
    pub closed spec fn history_view(self) -> Seq<(MessageType, Seq<char>)> {
        self.history@.map_values(|m: Message| entry_view(m))
    }

    /// The recorded length agrees with the history.
    pub closed spec fn wf(self) -> bool {
        self.length == self.history@.len()
    }

    /// Opens the session that follows the one numbered `*last_id`, and
    /// records its number there.
    pub fn new(last_id: &mut usize) -> (s: Session)
        requires
            *old(last_id) < usize::MAX,
        ensures
            *final(last_id) == *old(last_id) + 1,
            s.wf(),
            s.id_view() == *final(last_id),
            s.history_view() == Seq::<(MessageType, Seq<char>)>::empty(),
    {
        *last_id = *last_id + 1;
        let s = Session { id: *last_id, history: Vec::new(), length: 0 };
        assert(s.history_view() =~= Seq::<(MessageType, Seq<char>)>::empty());
        s
    }

    /// Records a prompt typed by the user.
    pub fn add_userinput(&mut self, content: String)
        requires
            old(self).wf(),
        ensures
            final(self).wf(),
            final(self).id_view() == old(self).id_view(),
            final(self).history_view() == old(self).history_view().push(
                (MessageType::UserInput, content@),
            ),
    {
        let ghost before = self.history@;
        self.history.push(Message { message_type: MessageType::UserInput, content });
        let len = self.history.len();
        self.length = len;
        assert(self.history_view() =~= before.map_values(|m: Message| entry_view(m)).push(
            (MessageType::UserInput, content@),
        ));
    }

    /// Opens an empty reply of the agent, to be filled chunk by chunk.
    pub fn assign_agentoutput_block(&mut self)
        requires
            old(self).wf(),
        ensures
            final(self).wf(),
            final(self).id_view() == old(self).id_view(),
            final(self).history_view() == old(self).history_view().push(
                (MessageType::AgentOutput, Seq::<char>::empty()),
            ),
    {
        let ghost before = self.history@;
        self.history.push(Message { message_type: MessageType::AgentOutput, content: String::new() });
        let len = self.history.len();
        self.length = len;
        assert(self.history_view() =~= before.map_values(|m: Message| entry_view(m)).push(
            (MessageType::AgentOutput, Seq::<char>::empty()),
        ));
    }

    /// Appends `content` to the latest entry, whoever wrote it.
    pub fn push_agentoutput_chunk(&mut self, content: String)
        requires
            old(self).wf(),
            old(self).history_view().len() > 0,
        ensures
            final(self).wf(),
            final(self).id_view() == old(self).id_view(),
            final(self).history_view() == with_chunk(old(self).history_view(), content@),
    {
        let ghost before = self.history@;
        let mut last = self.history.pop().unwrap();
        last.content.append(content.as_str());
        self.history.push(last);
        assert(self.history@ =~= before.update(before.len() - 1, last));
        assert(self.history_view() =~= before.map_values(|m: Message| entry_view(m)).update(
            before.len() - 1,
            (entry_view(before.last()).0, entry_view(before.last()).1 + content@),
        ));
    }

    /// The session's number.
    pub fn id(&self) -> (r: usize)
        ensures
            r == self.id_view(),
    {
        self.id
    }

    /// The number of entries in the history.
    pub fn len(&self) -> (r: usize)
        requires
            self.wf(),
        ensures
            r == self.history_view().len(),
    {
        self.length
    }

    /// The author and text of entry `i`.
    pub fn entry(&self, i: usize) -> (r: (MessageType, String))
        requires
            i < self.history_view().len(),
        ensures
            r.0 == self.history_view()[i as int].0,
            r.1@ == self.history_view()[i as int].1,
    {
        let m = &self.history[i];
        (m.message_type, m.content.clone())
    }
}

} // verus!
