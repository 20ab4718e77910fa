//! The transcript of a chat: its messages, how the app server's events
//! change it, and how a stored session becomes a transcript.
use vstd::prelude::*;
use crate::chat::opt_view;
use crate::chat_markdown::{lines_view, plain_lines, plain_lines_of, render_markdown_lines, render_markdown_spec, LineView, StyledSpan};
use crate::codex::{HistoryEntry, HistoryEntryKind, ServerEvent, ThreadItem, WorkspaceSession};
use crate::text::push_str;

verus! {

/// Who a message of the transcript comes from.
#[derive(Debug, Clone, Copy, PartialEq, Eq, Structural)]
pub enum MessageRole {
    User,
    Assistant,
    Event,
    System,
    Shell,
}

/// A message of the transcript. Messages of the agent carry the id of the
/// item they stream from. A message keeps the lines it is drawn as: the
/// lines of its Markdown, or, while it streams, its raw lines.
#[derive(Debug)]
pub struct ChatMessage {
    pub role: MessageRole,
    pub text: String,
    pub rendered_lines: Vec<Vec<StyledSpan>>,
    pub item_id: Option<String>,
}

/// A message as plain values: role, text, item id and the lines it is
/// drawn as.
pub type MessageView = (MessageRole, Seq<char>, Option<Seq<char>>, Seq<LineView>);

impl View for ChatMessage {
    type V = MessageView;

    open spec fn view(&self) -> MessageView {
        (self.role, self.text@, opt_view(self.item_id), lines_view(self.rendered_lines@))
    }
}

/// A message whose text is drawn as Markdown.
pub open spec fn fresh_message(role: MessageRole, text: Seq<char>, item_id: Option<Seq<char>>) -> MessageView {
    (role, text, item_id, render_markdown_spec(text))
}

impl ChatMessage {
    /// A message with the given role, text and item id, drawn as Markdown.
    pub fn new(role: MessageRole, text: String, item_id: Option<String>) -> (r: ChatMessage)
        ensures
            r@ == fresh_message(role, text@, opt_view(item_id)),
    {
        let rendered_lines = render_markdown_lines(text.as_str());
        ChatMessage { role, text, rendered_lines, item_id }
    }

    /// Replaces the text, drawn as Markdown again.
    pub fn set_text(&mut self, text: String)
        ensures
            final(self)@ == fresh_message(old(self)@.0, text@, old(self)@.2),
    {
        self.rendered_lines = render_markdown_lines(text.as_str());
        self.text = text;
    }

    /// Appends a streamed piece of text; until the text is set again it is
    /// drawn line by line as it stands.
    pub fn append_text(&mut self, delta: &str)
        ensures
            final(self)@ == (
                old(self)@.0,
                old(self)@.1 + delta@,
                old(self)@.2,
                plain_lines(old(self)@.1 + delta@),
            ),
    {
        push_str(&mut self.text, delta);
        self.rendered_lines = plain_lines_of(self.text.as_str());
    }
}

/// The plain view of a transcript.
pub open spec fn messages_view(v: Seq<ChatMessage>) -> Seq<MessageView> {
    v.map_values(|m: ChatMessage| m@)
}

/// The position of the first message of item `id`, if there is one.
pub open spec fn item_index(msgs: Seq<MessageView>, id: Seq<char>) -> Option<int>
    decreases msgs.len(),
{
    if msgs.len() == 0 {
        None
    } else {
        match item_index(msgs.drop_last(), id) {
            Some(i) => Some(i),
            None => if msgs.last().2 == Some(id) {
                Some(msgs.len() - 1)
            } else {
                None
            },
        }
    }
}

/// `msgs` with the text of the first message of item `id` replaced by
/// `text`, or, when no message has that item, with a new message of `role`
/// for it at the end.
pub open spec fn upsert_spec(msgs: Seq<MessageView>, role: MessageRole, id: Seq<char>, text: Seq<char>) -> Seq<
    MessageView,
> {
    match item_index(msgs, id) {
        Some(i) => msgs.update(i, fresh_message(msgs[i].0, text, msgs[i].2)),
        None => msgs.push(fresh_message(role, text, Some(id))),
    }
}

/// `msgs` with `delta` appended to the first message of item `id`, or,
/// when no message has that item, with a new message of the agent holding
/// `delta`.
pub open spec fn append_delta_spec(msgs: Seq<MessageView>, id: Seq<char>, delta: Seq<char>) -> Seq<MessageView> {
    match item_index(msgs, id) {
        Some(i) => msgs.update(i, (msgs[i].0, msgs[i].1 + delta, msgs[i].2, plain_lines(msgs[i].1 + delta))),
        None => msgs.push(fresh_message(MessageRole::Assistant, delta, Some(id))),
    }
}

/// The first message of item `id` in `msgs` is at `item_index`, and no
/// message before it has that item.
pub proof fn lemma_item_index(msgs: Seq<MessageView>, id: Seq<char>)
    ensures
        match item_index(msgs, id) {
            Some(i) => 0 <= i < msgs.len() && msgs[i].2 == Some(id) && forall|j: int|
                0 <= j < i ==> msgs[j].2 != Some(id),
            None => forall|j: int| 0 <= j < msgs.len() ==> msgs[j].2 != Some(id),
        },
    decreases msgs.len(),
{
    if msgs.len() > 0 {
        lemma_item_index(msgs.drop_last(), id);
        assert forall|j: int| 0 <= j < msgs.len() - 1 implies msgs.drop_last()[j] == msgs[j] by {}
    }
}

proof fn lemma_messages_view_push(v: Seq<ChatMessage>, m: ChatMessage)
    ensures
        messages_view(v.push(m)) =~= messages_view(v).push(m@),
{
    assert forall|k: int| 0 <= k < v.len() + 1 implies #[trigger] messages_view(v.push(m))[k] == messages_view(v).push(m@)[k] by {
        if k < v.len() {
            assert(v.push(m)[k] == v[k]);
        }
    }
}

proof fn lemma_messages_view_update(v: Seq<ChatMessage>, i: int, m: ChatMessage)
    requires
        0 <= i < v.len(),
    ensures
        messages_view(v.update(i, m)) =~= messages_view(v).update(i, m@),
{
    assert forall|k: int| 0 <= k < v.len() implies #[trigger] messages_view(v.update(i, m))[k] == messages_view(v).update(i, m@)[k] by {
        if k != i {
            assert(v.update(i, m)[k] == v[k]);
        }
    }
}

/// A first match found in a prefix is the first match of the whole.
proof fn lemma_item_index_extends(s: Seq<MessageView>, id: Seq<char>, j: int)
    requires
        0 <= j <= s.len(),
        item_index(s.take(j), id) is Some,
    ensures
        item_index(s, id) == item_index(s.take(j), id),
    decreases s.len() - j,
{
    if j == s.len() {
        assert(s.take(j) =~= s);
    } else {
        assert(s.take(j + 1).drop_last() =~= s.take(j));
        lemma_item_index_extends(s, id, j + 1);
    }
}

/// Sequences with the same item ids at the same places have the same first
/// message of each item.
proof fn lemma_item_index_ids(a: Seq<MessageView>, b: Seq<MessageView>, id: Seq<char>)
    requires
        a.len() == b.len(),
        forall|k: int| 0 <= k < a.len() ==> a[k].2 == b[k].2,
    ensures
        item_index(a, id) == item_index(b, id),
    decreases a.len(),
{
    if a.len() > 0 {
        lemma_item_index_ids(a.drop_last(), b.drop_last(), id);
    }
}

/// Writing a message of an item and then looking the item up finds that
/// message with the written text; the other messages are unchanged and
/// the transcript grows by at most one message.
pub proof fn law_upsert_then_lookup(msgs: Seq<MessageView>, role: MessageRole, id: Seq<char>, text: Seq<char>)
    ensures
        ({
            let after = upsert_spec(msgs, role, id, text);
            &&& item_index(after, id) matches Some(k)
            &&& after[k].1 == text
            &&& after.len() == msgs.len() || after.len() == msgs.len() + 1
            &&& forall|j: int| 0 <= j < msgs.len() && Some(j) != item_index(msgs, id) ==> after[j] == msgs[j]
        }),
{
    let after = upsert_spec(msgs, role, id, text);
    lemma_item_index(msgs, id);
    match item_index(msgs, id) {
        Some(i) => {
            lemma_item_index_ids(after, msgs, id);
        },
        None => {
            assert(after.drop_last() =~= msgs);
        },
    }
}

/// Writing the same text for an item twice leaves what writing it once
/// left.
pub proof fn law_upsert_idempotent(msgs: Seq<MessageView>, role: MessageRole, id: Seq<char>, text: Seq<char>)
    ensures
        upsert_spec(upsert_spec(msgs, role, id, text), role, id, text) == upsert_spec(msgs, role, id, text),
{
    let once = upsert_spec(msgs, role, id, text);
    lemma_item_index(msgs, id);
    match item_index(msgs, id) {
        Some(i) => {
            lemma_item_index_ids(once, msgs, id);
            assert(upsert_spec(once, role, id, text) =~= once);
        },
        None => {
            assert(once.drop_last() =~= msgs);
            assert(item_index(once, id) == Some(msgs.len() as int));
            assert(upsert_spec(once, role, id, text) =~= once);
        },
    }
}

/// Finds the first message of item `id`.
fn find_item(messages: &Vec<ChatMessage>, id: &String) -> (r: Option<usize>)
    ensures
        r matches Some(i) ==> i < messages@.len(),
        r == (match item_index(messages_view(messages@), id@) {
            Some(i) => Some(i as usize),
            None => None::<usize>,
        }),
{
    let ghost s = messages_view(messages@);
    let mut i: usize = 0;
    while i < messages.len()
        invariant
            0 <= i <= messages@.len(),
            s == messages_view(messages@),
            item_index(s.take(i as int), id@) is None,
        decreases messages@.len() - i,
    {
        assert(s.take(i + 1).drop_last() =~= s.take(i as int));
        let found = match &messages[i].item_id {
            Some(item) => *item == *id,
            None => false,
        };
        if found {
            assert(item_index(s.take(i + 1), id@) == Some(i as int));
            proof {
                lemma_item_index_extends(s, id@, i + 1);
            }
            return Some(i);
        }
        i += 1;
    }
    assert(s.take(i as int) =~= s);
    None
}

fn clone_opt(o: &Option<String>) -> (r: Option<String>)
    ensures
        opt_view(r) == opt_view(*o),
{
    match o {
        Some(s) => Some(s.clone()),
        None => None,
    }
}

/// The operations on the messages of a transcript.
pub struct MessageStore;

impl MessageStore {
    /// The first message of item `item_id`, if there is one.
    pub fn find(messages: &Vec<ChatMessage>, item_id: &str) -> (r: Option<usize>)
        ensures
            r == (match item_index(messages_view(messages@), item_id@) {
                Some(i) => Some(i as usize),
                None => None::<usize>,
            }),
    {
        let id = item_id.to_owned();
        find_item(messages, &id)
    }

    /// Writes the text of item `item_id`: the first message of that item
    /// gets `text` (keeping its role); with no such message, a message of
    /// `role` is added at the end.
    pub fn upsert(messages: &mut Vec<ChatMessage>, role: MessageRole, item_id: &str, text: String)
        ensures
            messages_view(final(messages)@) == upsert_spec(
                messages_view(old(messages)@),
                role,
                item_id@,
                text@,
            ),
    {
        let id = item_id.to_owned();
        let ghost s = messages_view(messages@);
        let found = find_item(messages, &id);
        let count = messages.len();
        proof {
            lemma_item_index(s, id@);
            assert(s.len() == count);
        }
        match found {
            Some(i) => {
                let message = ChatMessage::new(messages[i].role, text, clone_opt(&messages[i].item_id));
                let ghost old_v = messages@;
                let ghost mv = message@;
                assert(mv == fresh_message(s[i as int].0, mv.1, s[i as int].2));
                messages.set(i, message);
                proof {
                    lemma_messages_view_update(old_v, i as int, messages@[i as int]);
                }
                assert(messages_view(messages@) =~= upsert_spec(s, role, id@, mv.1));
            },
            None => {
                let ghost old_v = messages@;
                messages.push(ChatMessage::new(role, text, Some(id)));
                proof {
                    lemma_messages_view_push(old_v, messages@.last());
                }
            },
        }
    }

    /// Appends a streamed `delta` to the message of item `item_id`, or adds
    /// a message of the agent holding it when the item has none.
    pub fn append_delta(messages: &mut Vec<ChatMessage>, item_id: String, delta: &str)
        ensures
            messages_view(final(messages)@) == append_delta_spec(
                messages_view(old(messages)@),
                item_id@,
                delta@,
            ),
    {
        let ghost s = messages_view(messages@);
        let found = find_item(messages, &item_id);
        let count = messages.len();
        proof {
            lemma_item_index(s, item_id@);
            assert(s.len() == count);
        }
        match found {
            Some(i) => {
                let mut message = ChatMessage {
                    role: messages[i].role,
                    text: messages[i].text.clone(),
                    rendered_lines: Vec::new(),
                    item_id: clone_opt(&messages[i].item_id),
                };
                message.append_text(delta);
                let ghost old_v = messages@;
                let ghost mv = message@;
                assert(mv == (s[i as int].0, s[i as int].1 + delta@, s[i as int].2, plain_lines(s[i as int].1 + delta@)));
                messages.set(i, message);
                proof {
                    lemma_messages_view_update(old_v, i as int, messages@[i as int]);
                }
                assert(messages_view(messages@) =~= append_delta_spec(s, item_id@, delta@));
            },
            None => {
                let ghost id = item_id@;
                let ghost old_v = messages@;
                messages.push(ChatMessage::new(MessageRole::Assistant, delta.to_owned(), Some(item_id)));
                proof {
                    lemma_messages_view_push(old_v, messages@.last());
                }
                assert(messages_view(messages@) =~= append_delta_spec(s, id, delta@));
            },
        }
    }
}

/// The role of a message restored from a history entry.
pub open spec fn role_of_kind(kind: HistoryEntryKind) -> MessageRole {
    match kind {
        HistoryEntryKind::User => MessageRole::User,
        HistoryEntryKind::Assistant => MessageRole::Assistant,
        HistoryEntryKind::Event => MessageRole::Event,
    }
}

/// The transcript restored from a history: one message per entry, in
/// order, with the entry's role and text and no item.
pub open spec fn history_messages(entries: Seq<HistoryEntry>) -> Seq<MessageView> {
    entries.map_values(|e: HistoryEntry| fresh_message(role_of_kind(e.kind), e.text@, None::<Seq<char>>))
}

/// Restores stored sessions.
pub struct SessionLoader;

impl SessionLoader {
    /// The thread id and transcript of a stored session.
    pub fn session_messages(session: WorkspaceSession) -> (r: (String, Vec<ChatMessage>))
        ensures
            r.0@ == session.thread.id@,
            messages_view(r.1@) == history_messages(session.entries@),
    {
        let WorkspaceSession { thread, entries } = session;
        let ghost es = entries@;
        let mut messages: Vec<ChatMessage> = Vec::new();
        let mut i: usize = 0;
        while i < entries.len()
            invariant
                es == entries@,
                0 <= i <= es.len(),
                messages@.len() == i,
                messages_view(messages@) =~= history_messages(es.take(i as int)),
            decreases es.len() - i,
        {
            let entry = &entries[i];
            let role = match entry.kind {
                HistoryEntryKind::User => MessageRole::User,
                HistoryEntryKind::Assistant => MessageRole::Assistant,
                HistoryEntryKind::Event => MessageRole::Event,
            };
            let ghost old_v = messages@;
            messages.push(ChatMessage::new(role, entry.text.clone(), None));
            proof {
                lemma_messages_view_push(old_v, messages@.last());
                assert(es.take(i as int + 1) =~= es.take(i as int).push(es[i as int]));
                assert(history_messages(es.take(i as int + 1)) =~= history_messages(es.take(i as int)).push(
                    fresh_message(role_of_kind(es[i as int].kind), es[i as int].text@, None::<Seq<char>>),
                ));
            }
            i += 1;
        }
        assert(es.take(es.len() as int) =~= es);
        (thread.id, messages)
    }
}

/// Which agent a thread event is for: the first agent whose thread is
/// `thread_id`.
pub fn agent_for_thread(thread_ids: &Vec<Option<String>>, thread_id: &String) -> (r: Option<usize>)
    ensures
        match r {
            Some(i) => i < thread_ids@.len() && opt_view(thread_ids@[i as int]) == Some(thread_id@)
                && forall|j: int| 0 <= j < i ==> opt_view(#[trigger] thread_ids@[j]) != Some(thread_id@),
            None => forall|j: int|
                0 <= j < thread_ids@.len() ==> opt_view(#[trigger] thread_ids@[j]) != Some(thread_id@),
        },
{
    let mut i: usize = 0;
    while i < thread_ids.len()
        invariant
            0 <= i <= thread_ids@.len(),
            forall|j: int| 0 <= j < i ==> opt_view(#[trigger] thread_ids@[j]) != Some(thread_id@),
        decreases thread_ids@.len() - i,
    {
        let found = match &thread_ids[i] {
            Some(t) => *t == *thread_id,
            None => false,
        };
        if found {
            return Some(i);
        }
        i += 1;
    }
    None
}

/// The thread an event is about, if it is about one.
pub open spec fn event_thread_spec(event: ServerEvent) -> Option<Seq<char>> {
    match event {
        ServerEvent::ThreadStatusChanged { thread_id, .. } => Some(thread_id@),
        ServerEvent::TurnStarted { thread_id, .. } => Some(thread_id@),
        ServerEvent::ItemStarted { thread_id, .. } => Some(thread_id@),
        ServerEvent::ItemCompleted { thread_id, .. } => Some(thread_id@),
        ServerEvent::AgentMessageDelta { thread_id, .. } => Some(thread_id@),
        ServerEvent::TurnCompleted { thread_id, .. } => Some(thread_id@),
        _ => None,
    }
}

/// The thread an event is about, if it is about one.
pub fn event_thread(event: &ServerEvent) -> (r: Option<String>)
    ensures
        opt_view(r) == event_thread_spec(*event),
{
    match event {
        ServerEvent::ThreadStatusChanged { thread_id, .. } => Some(thread_id.clone()),
        ServerEvent::TurnStarted { thread_id, .. } => Some(thread_id.clone()),
        ServerEvent::ItemStarted { thread_id, .. } => Some(thread_id.clone()),
        ServerEvent::ItemCompleted { thread_id, .. } => Some(thread_id.clone()),
        ServerEvent::AgentMessageDelta { thread_id, .. } => Some(thread_id.clone()),
        ServerEvent::TurnCompleted { thread_id, .. } => Some(thread_id.clone()),
        _ => None,
    }
}

/// The application's status message after an event: the text of a
/// warning or error, or `Response canceled` after an interrupted turn.
pub open spec fn event_status_spec(event: ServerEvent) -> Option<Seq<char>> {
    match event {
        ServerEvent::Warning(m) => Some(m@),
        ServerEvent::Error(m) => Some(m@),
        ServerEvent::TransportError(m) => Some(m@),
        ServerEvent::TurnCompleted { interrupted, .. } => if interrupted {
            Some("Response canceled"@)
        } else {
            None
        },
        _ => None,
    }
}

/// The application's status message after an event (see
/// `event_status_spec`).
pub fn event_status(event: &ServerEvent) -> (r: Option<String>)
    ensures
        opt_view(r) == event_status_spec(*event),
{
    match event {
        ServerEvent::Warning(m) => Some(m.clone()),
        ServerEvent::Error(m) => Some(m.clone()),
        ServerEvent::TransportError(m) => Some(m.clone()),
        ServerEvent::TurnCompleted { interrupted, .. } => {
            if *interrupted {
                Some("Response canceled".to_owned())
            } else {
                None
            }
        },
        _ => None,
    }
}

/// The transcript of an agent's chat and the state of its running turn.
#[derive(Debug)]
pub struct ChatLog {
    pub messages: Vec<ChatMessage>,
    pub thinking: bool,
    pub shell_running: bool,
    pub active_turn_id: Option<String>,
    pub streaming_item_id: Option<String>,
}

/// A chat log as plain values.
pub type ChatLogView = (Seq<MessageView>, bool, Option<Seq<char>>, Option<Seq<char>>);

impl View for ChatLog {
    type V = ChatLogView;

    open spec fn view(&self) -> ChatLogView {
        (messages_view(self.messages@), self.thinking, opt_view(self.active_turn_id), opt_view(self.streaming_item_id))
    }
}

/// What an event of the agent's thread does to its chat log, and the
/// agent status it sets.
pub open spec fn chat_event_spec(log: ChatLogView, event: ServerEvent) -> (ChatLogView, Option<Seq<char>>) {
    let (msgs, thinking, turn, streaming) = log;
    match event {
        ServerEvent::ThreadStatusChanged { active, .. } => ((msgs, active, turn, streaming), None),
        ServerEvent::TurnStarted { turn_id, .. } => ((msgs, true, Some(turn_id@), streaming), None),
        ServerEvent::ItemStarted { item, .. } => match item {
            ThreadItem::AgentMessage { id, text } => (
                (msgs.push(fresh_message(MessageRole::Assistant, text@, Some(id@))), thinking, turn, Some(id@)),
                None,
            ),
            _ => (log, None),
        },
        ServerEvent::ItemCompleted { item, .. } => match item {
            ThreadItem::AgentMessage { id, text } => (
                (upsert_spec(msgs, MessageRole::Assistant, id@, text@), thinking, turn, None),
                None,
            ),
            _ => (log, None),
        },
        ServerEvent::AgentMessageDelta { item_id, delta, .. } => (
            (append_delta_spec(msgs, item_id@, delta@), thinking, turn, streaming),
            None,
        ),
        ServerEvent::TurnCompleted { turn_id, interrupted, .. } => (
            (msgs, false, if turn == Some(turn_id@) { None } else { turn }, None),
            if interrupted { Some("Response canceled"@) } else { None },
        ),
        _ => (log, None),
    }
}

impl ChatLog {
    /// An empty chat that is not running a turn.
    pub fn new() -> (r: ChatLog)
        ensures
            r@ == (Seq::<MessageView>::empty(), false, None::<Seq<char>>, None::<Seq<char>>),
            !r.shell_running,
    {
        let r = ChatLog {
            messages: Vec::new(),
            thinking: false,
            shell_running: false,
            active_turn_id: None,
            streaming_item_id: None,
        };
        assert(messages_view(r.messages@) =~= Seq::<MessageView>::empty());
        r
    }

    /// Applies an event of this chat's thread (see `chat_event_spec`),
    /// returning the agent status it sets.
    pub fn apply_server_event(&mut self, event: ServerEvent) -> (status: Option<String>)
        ensures
            (final(self)@, opt_view(status)) == chat_event_spec(old(self)@, event),
            final(self).shell_running == old(self).shell_running,
    {
        let ghost msgs = messages_view(self.messages@);
        match event {
            ServerEvent::ThreadStatusChanged { active, .. } => {
                self.thinking = active;
                None
            },
            ServerEvent::TurnStarted { turn_id, .. } => {
                self.active_turn_id = Some(turn_id);
                self.thinking = true;
                None
            },
            ServerEvent::ItemStarted { item, .. } => match item {
                ThreadItem::AgentMessage { id, text } => {
                    let ghost id_view = id@;
                    self.streaming_item_id = Some(id.clone());
                    self.messages.push(ChatMessage::new(MessageRole::Assistant, text, Some(id)));
                    assert(messages_view(self.messages@) =~= msgs.push(
                        fresh_message(MessageRole::Assistant, self.messages@.last().text@, Some(id_view)),
                    ));
                    None
                },
                _ => None,
            },
            ServerEvent::ItemCompleted { item, .. } => match item {
                ThreadItem::AgentMessage { id, text } => {
                    MessageStore::upsert(&mut self.messages, MessageRole::Assistant, id.as_str(), text);
                    self.streaming_item_id = None;
                    None
                },
                _ => None,
            },
            ServerEvent::AgentMessageDelta { item_id, delta, .. } => {
                MessageStore::append_delta(&mut self.messages, item_id, delta.as_str());
                None
            },
            ServerEvent::TurnCompleted { turn_id, interrupted, .. } => {
                let same = match &self.active_turn_id {
                    Some(t) => *t == turn_id,
                    None => false,
                };
                if same {
                    self.active_turn_id = None;
                }
                self.thinking = false;
                self.streaming_item_id = None;
                if interrupted {
                    Some("Response canceled".to_owned())
                } else {
                    None
                }
            },
            _ => None,
        }
    }
}

/// After a completed turn the chat is no longer thinking or streaming, and
/// the completed turn is no longer the active one.
pub proof fn law_turn_completed_settles(log: ChatLogView, thread: String, turn_id: String, interrupted: bool)
    ensures
        ({
            let (after, status) = chat_event_spec(
                log,
                ServerEvent::TurnCompleted { thread_id: thread, turn_id, interrupted },
            );
            &&& !after.1
            &&& after.3 is None
            &&& after.2 != Some(turn_id@)
            &&& after.0 == log.0
            &&& status is Some <==> interrupted
        }),
{
}

/// The view of an optional string reference.
pub open spec fn opt_string_ref(o: Option<&String>) -> Option<Seq<char>> {
    match o {
        Some(s) => Some(s@),
        None => None,
    }
}

impl ChatLog {
    /// A message of the user goes to the agent: it is added to the
    /// transcript and the chat waits for the answer.
    pub fn send_user_message(&mut self, text: String)
        ensures
            final(self)@.0 == old(self)@.0.push(fresh_message(MessageRole::User, text@, None::<Seq<char>>)),
            final(self).thinking,
            final(self).shell_running == old(self).shell_running,
            final(self)@.2 == old(self)@.2,
            final(self)@.3 == old(self)@.3,
    {
        let ghost before = self.messages@;
        self.messages.push(ChatMessage::new(MessageRole::User, text, None));
        proof {
            lemma_messages_view_push(before, self.messages@.last());
        }
        self.thinking = true;
    }

    /// A shell command typed in the chat starts, unless the chat is busy
    /// (thinking or running a command): it is added to the transcript as
    /// `> command` and the chat runs it. The result says whether it started.
    pub fn start_shell_command(&mut self, command: &str) -> (started: bool)
        ensures
            started == !(old(self).thinking || old(self).shell_running),
            started ==> final(self)@.0 == old(self)@.0.push(
                fresh_message(MessageRole::Shell, "> "@ + command@, None::<Seq<char>>),
            ) && final(self).shell_running,
            !started ==> final(self)@ == old(self)@ && final(self).shell_running == old(
                self,
            ).shell_running,
            final(self).thinking == old(self).thinking,
            final(self)@.2 == old(self)@.2,
            final(self)@.3 == old(self)@.3,
    {
        if self.thinking || self.shell_running {
            return false;
        }
        let mut text = String::new();
        push_str(&mut text, "> ");
        push_str(&mut text, command);
        let ghost before = self.messages@;
        self.messages.push(ChatMessage::new(MessageRole::Shell, text, None));
        proof {
            lemma_messages_view_push(before, self.messages@.last());
        }
        self.shell_running = true;
        true
    }

    /// The shell command of the chat finished: its formatted output is
    /// added to the transcript and the chat is free; returns the agent
    /// status that reports it.
    pub fn finish_shell_command(&mut self, output: String, success: bool) -> (status: String)
        ensures
            final(self)@.0 == old(self)@.0.push(fresh_message(MessageRole::Shell, output@, None::<Seq<char>>)),
            !final(self).shell_running,
            final(self).thinking == old(self).thinking,
            final(self)@.2 == old(self)@.2,
            final(self)@.3 == old(self)@.3,
            status@ == (if success {
                "Shell command finished"@
            } else {
                "Shell command failed"@
            }),
    {
        let ghost before = self.messages@;
        self.messages.push(ChatMessage::new(MessageRole::Shell, output, None));
        proof {
            lemma_messages_view_push(before, self.messages@.last());
        }
        self.shell_running = false;
        if success {
            "Shell command finished".to_owned()
        } else {
            "Shell command failed".to_owned()
        }
    }

    /// The turn that `Esc` interrupts: the active turn of the chat's thread,
    /// when the chat is thinking and not running a shell command.
    pub fn interruptible_turn(&self, thread_id: Option<&String>) -> (r: Option<(String, String)>)
        ensures
            match r {
                Some((t, u)) => {
                    &&& self.thinking
                    &&& !self.shell_running
                    &&& opt_string_ref(thread_id) == Some(t@)
                    &&& opt_view(self.active_turn_id) == Some(u@)
                },
                None => !self.thinking || self.shell_running || thread_id is None
                    || self.active_turn_id is None,
            },
    {
        if !self.thinking || self.shell_running {
            return None;
        }
        match (thread_id, &self.active_turn_id) {
            (Some(t), Some(u)) => Some((t.clone(), u.clone())),
            _ => None,
        }
    }
}

impl ChatLog {
    /// A message of the application (a model change, a failure) is added
    /// to the transcript.
    pub fn push_system_message(&mut self, text: String)
        ensures
            final(self)@.0 == old(self)@.0.push(fresh_message(MessageRole::System, text@, None::<Seq<char>>)),
            final(self)@.1 == old(self)@.1,
            final(self)@.2 == old(self)@.2,
            final(self)@.3 == old(self)@.3,
            final(self).shell_running == old(self).shell_running,
    {
        let ghost before = self.messages@;
        self.messages.push(ChatMessage::new(MessageRole::System, text, None));
        proof {
            lemma_messages_view_push(before, self.messages@.last());
        }
    }

    /// Sending to the agent failed: the chat is no longer busy, no turn is
    /// running or streaming, and the failure is added to the transcript.
    pub fn submission_failed(&mut self, message: String)
        ensures
            final(self)@ == (
                old(self)@.0.push(fresh_message(MessageRole::System, message@, None::<Seq<char>>)),
                false,
                None::<Seq<char>>,
                None::<Seq<char>>,
            ),
            !final(self).shell_running,
    {
        self.thinking = false;
        self.shell_running = false;
        self.active_turn_id = None;
        self.streaming_item_id = None;
        self.push_system_message(message);
    }
}

/// The app-server thread of an agent's chat: its id once known, and whether
/// the server has it loaded (a thread restored from a stored session is
/// resumed before the next turn).
#[derive(Debug, Clone)]
pub struct ChatThread {
    pub thread_id: Option<String>,
    pub loaded: bool,
}

impl ChatThread {
    /// A chat without a thread.
    pub fn new() -> (r: ChatThread)
        ensures
            r.thread_id is None,
            !r.loaded,
    {
        ChatThread { thread_id: None, loaded: false }
    }

    /// The server started or resumed the chat's thread.
    pub fn thread_ready(&mut self, thread_id: String)
        ensures
            opt_view(final(self).thread_id) == Some(thread_id@),
            final(self).loaded,
    {
        self.thread_id = Some(thread_id);
        self.loaded = true;
    }

    /// A stored session was found for the agent's workspace: it becomes the
    /// chat's thread and transcript, unless the chat already has a thread
    /// or messages. Returns whether it did.
    pub fn restore_session(&mut self, log: &mut ChatLog, session: Option<WorkspaceSession>) -> (restored: bool)
        ensures
            restored == (session is Some && old(self).thread_id is None && old(log).messages@.len() == 0),
            restored ==> ({
                let s = session->0;
                &&& opt_view(final(self).thread_id) == Some(s.thread.id@)
                &&& !final(self).loaded
                &&& final(log)@.0 == history_messages(s.entries@)
                &&& final(log)@.1 == old(log)@.1
                &&& final(log)@.2 == old(log)@.2
                &&& final(log)@.3 == old(log)@.3
                &&& final(log).shell_running == old(log).shell_running
            }),
            !restored ==> final(self).thread_id == old(self).thread_id && final(self).loaded == old(
                self,
            ).loaded && final(log)@ == old(log)@ && final(log).shell_running == old(log).shell_running,
    {
        match session {
            Some(s) => {
                if self.thread_id.is_some() || log.messages.len() > 0 {
                    return false;
                }
                let (thread_id, messages) = SessionLoader::session_messages(s);
                self.thread_id = Some(thread_id);
                self.loaded = false;
                log.messages = messages;
                true
            },
            None => false,
        }
    }
}

/// Whether a stored session (`session`) is restored into an agent's chat,
/// given as its thread and transcript: only into a chat with no thread and
/// no messages (see `restore_session`).
pub open spec fn restores(thread: ChatThread, log: ChatLog, session: Option<WorkspaceSession>) -> bool {
    session is Some && thread.thread_id is None && log.messages@.len() == 0
}

/// Where the first failed load is among `results`, or their number when
/// none failed.
pub open spec fn first_failure<E>(results: Seq<Result<Option<WorkspaceSession>, E>>) -> int
    decreases results.len(),
{
    if results.len() == 0 {
        0
    } else if first_failure(results.drop_last()) < results.len() - 1 {
        first_failure(results.drop_last())
    } else if results.last() is Err {
        results.len() - 1
    } else {
        results.len() as int
    }
}

proof fn lemma_first_failure<E>(results: Seq<Result<Option<WorkspaceSession>, E>>)
    ensures
        0 <= first_failure(results) <= results.len(),
        forall|j: int| 0 <= j < first_failure(results) ==> #[trigger] results[j] is Ok,
        first_failure(results) < results.len() ==> results[first_failure(results)] is Err,
    decreases results.len(),
{
    if results.len() > 0 {
        lemma_first_failure(results.drop_last());
        assert forall|j: int| 0 <= j < first_failure(results) implies #[trigger] results[j] is Ok by {
            if j < results.len() - 1 {
                assert(results.drop_last()[j] == results[j]);
            }
        }
        if first_failure(results.drop_last()) < results.len() - 1 {
            assert(results.drop_last()[first_failure(results.drop_last())] == results[first_failure(
                results.drop_last(),
            )]);
        }
    }
}

impl ChatThread {
    /// The agent's latest stored session becomes its thread and
    /// transcript, in place of what the chat had; the thread stays to be
    /// resumed as it was.
    pub fn hydrate(&mut self, log: &mut ChatLog, session: WorkspaceSession)
        ensures
            opt_view(final(self).thread_id) == Some(session.thread.id@),
            final(self).loaded == old(self).loaded,
            final(log)@.0 == history_messages(session.entries@),
            final(log)@.1 == old(log)@.1,
            final(log)@.2 == old(log)@.2,
            final(log)@.3 == old(log)@.3,
            final(log).shell_running == old(log).shell_running,
    {
        let (thread_id, messages) = SessionLoader::session_messages(session);
        self.thread_id = Some(thread_id);
        log.messages = messages;
    }
}

/// What a chat becomes after its latest session was loaded as `result`.
pub open spec fn hydrated(t0: ChatThread, l0: ChatLog, t1: ChatThread, l1: ChatLog, result: Option<WorkspaceSession>) -> bool {
    match result {
        Some(s) => {
            &&& opt_view(t1.thread_id) == Some(s.thread.id@)
            &&& t1.loaded == t0.loaded
            &&& l1@.0 == history_messages(s.entries@)
            &&& l1@.1 == l0@.1 && l1@.2 == l0@.2 && l1@.3 == l0@.3
            &&& l1.shell_running == l0.shell_running
        },
        None => t1.thread_id == t0.thread_id && t1.loaded == t0.loaded && l1@ == l0@
            && l1.shell_running == l0.shell_running,
    }
}

/// Loads each agent's latest stored session at start-up, one agent after
/// another in order: `results[k]` is what loading agent `k`'s session gave,
/// the loads stopping at the first that fails (later results, if any, are
/// not used). Each agent before that failure whose load found a session
/// takes it (`ChatThread::hydrate`); the agents from the failure on keep
/// their chat; the first failure is returned.
pub fn hydrate_latest_sessions<E>(
    chats: &mut Vec<(ChatThread, ChatLog)>,
    results: Vec<Result<Option<WorkspaceSession>, E>>,
) -> (r: Result<(), E>)
    requires
        results@.len() <= old(chats)@.len(),
    ensures
        final(chats)@.len() == old(chats)@.len(),
        ({
            let f = first_failure(results@);
            &&& f < results@.len() ==> r == Err::<(), E>(results@[f]->Err_0)
            &&& f == results@.len() ==> r is Ok
            &&& forall|i: int| 0 <= i < old(chats)@.len() ==> {
                let (t0, l0) = old(chats)@[i];
                let (t1, l1) = #[trigger] final(chats)@[i];
                if i < f {
                    hydrated(t0, l0, t1, l1, results@[i]->Ok_0)
                } else {
                    t1.thread_id == t0.thread_id && t1.loaded == t0.loaded && l1@ == l0@
                        && l1.shell_running == l0.shell_running
                }
            }
        }),
{
    proof {
        lemma_first_failure(results@);
    }
    let ghost all = results@;
    let ghost f = first_failure(all);
    let mut rest = results;
    let mut i: usize = 0;
    while i < chats.len() && rest.len() > 0
        invariant
            chats@.len() == old(chats)@.len(),
            all == results@,
            all.len() <= old(chats)@.len(),
            i <= all.len(),
            i <= f,
            f == first_failure(all),
            0 <= f <= all.len(),
            forall|j: int| 0 <= j < f ==> #[trigger] all[j] is Ok,
            f < all.len() ==> all[f] is Err,
            rest@ == all.skip(i as int),
            forall|j: int| i <= j < chats@.len() ==> chats@[j] == old(chats)@[j],
            forall|j: int| 0 <= j < i ==> {
                let (t0, l0) = old(chats)@[j];
                let (t1, l1) = #[trigger] chats@[j];
                hydrated(t0, l0, t1, l1, all[j]->Ok_0)
            },
        decreases chats@.len() - i,
    {
        let result = rest.remove(0);
        assert(result == all[i as int]);
        assert(rest@ =~= all.skip(i + 1));
        match result {
            Err(e) => {
                assert(i as int == f);
                assert(all[f]->Err_0 == e);
                assert forall|j: int| 0 <= j < old(chats)@.len() implies ({
                    let (t0, l0) = old(chats)@[j];
                    let (t1, l1) = #[trigger] chats@[j];
                    if j < f {
                        hydrated(t0, l0, t1, l1, all[j]->Ok_0)
                    } else {
                        t1.thread_id == t0.thread_id && t1.loaded == t0.loaded && l1@ == l0@
                            && l1.shell_running == l0.shell_running
                    }
                }) by {
                    if j >= i {
                        assert(chats@[j] == old(chats)@[j]);
                    }
                }
                return Err(e);
            },
            Ok(found) => {
                let (mut thread, mut log) = chats.remove(i);
                match found {
                    Some(session) => thread.hydrate(&mut log, session),
                    None => {},
                }
                chats.insert(i, (thread, log));
                i += 1;
            },
        }
    }
    assert(i as int == all.len());
    assert(f == all.len());
    Ok(())
}

} // verus!
