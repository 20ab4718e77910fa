//! What the Codex app server reports: threads, history, models and the
//! events of a running conversation.
use vstd::prelude::*;
use crate::text::{push_all, push_str, signed_decimal, signed_decimal_chars};

verus! {

/// A conversation thread and the model settings it runs with.
#[derive(Debug, Clone)]
pub struct ThreadInfo {
    pub id: String,
    pub model: Option<String>,
    pub reasoning_effort: Option<String>,
}

/// The latest thread of a workspace and its history.
#[derive(Debug, Clone)]
pub struct WorkspaceSession {
    pub thread: ThreadInfo,
    pub entries: Vec<HistoryEntry>,
}

/// One entry of a thread's history.
#[derive(Debug, Clone)]
pub struct HistoryEntry {
    pub kind: HistoryEntryKind,
    pub text: String,
}

/// Who an entry of a thread's history comes from.
#[derive(Debug, Clone, Copy, PartialEq, Eq, Structural)]
pub enum HistoryEntryKind {
    User,
    Assistant,
    Event,
}

/// An item of a turn.
#[derive(Debug, Clone)]
pub enum ThreadItem {
    AgentMessage { id: String, text: String },
    UserMessage,
    Other,
}

/// A notification of the app server.
#[derive(Debug, Clone)]
pub enum ServerEvent {
    ThreadStatusChanged { thread_id: String, active: bool },
    TurnStarted { thread_id: String, turn_id: String },
    ItemStarted { thread_id: String, item: ThreadItem },
    ItemCompleted { thread_id: String, item: ThreadItem },
    AgentMessageDelta { thread_id: String, item_id: String, delta: String },
    TurnCompleted { thread_id: String, turn_id: String, interrupted: bool },
    Warning(String),
    Error(String),
    TransportError(String),
}

/// A model the app server offers.
#[derive(Debug, Clone)]
pub struct ModelInfo {
    pub id: String,
    pub model: String,
    pub display_name: String,
    pub is_default: bool,
    pub supported_reasoning_efforts: Vec<ModelReasoningEffort>,
    pub default_reasoning_effort: Option<String>,
}

/// A reasoning effort a model supports.
#[derive(Debug, Clone)]
pub struct ModelReasoningEffort {
    pub reasoning_effort: String,
    pub description: Option<String>,
}

/// The notifications of the app server that the application follows, by
/// their JSON-RPC method.
#[derive(Debug, Clone, Copy, PartialEq, Eq, Structural)]
pub enum NotificationKind {
    ThreadStatusChanged,
    TurnStarted,
    ItemStarted,
    ItemCompleted,
    AgentMessageDelta,
    TurnCompleted,
    Warning,
    Error,
}

/// The notification a JSON-RPC method names, if the application follows it.
pub open spec fn notification_kind_spec(method: Seq<char>) -> Option<NotificationKind> {
    if method == "thread/status/changed"@ {
        Some(NotificationKind::ThreadStatusChanged)
    } else if method == "turn/started"@ {
        Some(NotificationKind::TurnStarted)
    } else if method == "item/started"@ {
        Some(NotificationKind::ItemStarted)
    } else if method == "item/completed"@ {
        Some(NotificationKind::ItemCompleted)
    } else if method == "item/agentMessage/delta"@ {
        Some(NotificationKind::AgentMessageDelta)
    } else if method == "turn/completed"@ {
        Some(NotificationKind::TurnCompleted)
    } else if method == "warning"@ {
        Some(NotificationKind::Warning)
    } else if method == "error"@ {
        Some(NotificationKind::Error)
    } else {
        None
    }
}

/// The notification a JSON-RPC method names (see
/// `notification_kind_spec`); the application parses its parameters
/// accordingly.
pub fn notification_kind(method: &str) -> (r: Option<NotificationKind>)
    ensures
        r == notification_kind_spec(method@),
{
    let m = method.to_owned();
    if m == "thread/status/changed".to_owned() {
        Some(NotificationKind::ThreadStatusChanged)
    } else if m == "turn/started".to_owned() {
        Some(NotificationKind::TurnStarted)
    } else if m == "item/started".to_owned() {
        Some(NotificationKind::ItemStarted)
    } else if m == "item/completed".to_owned() {
        Some(NotificationKind::ItemCompleted)
    } else if m == "item/agentMessage/delta".to_owned() {
        Some(NotificationKind::AgentMessageDelta)
    } else if m == "turn/completed".to_owned() {
        Some(NotificationKind::TurnCompleted)
    } else if m == "warning".to_owned() {
        Some(NotificationKind::Warning)
    } else if m == "error".to_owned() {
        Some(NotificationKind::Error)
    } else {
        None
    }
}

/// A `thread/status/changed` notification: the thread is active when its
/// status type is `active`.
pub fn thread_status_changed(thread_id: String, status_type: &str) -> (r: ServerEvent)
    ensures
        r matches ServerEvent::ThreadStatusChanged { thread_id: t, active } && t@ == thread_id@
            && active == (status_type@ == "active"@),
{
    let active = status_type.to_owned() == "active".to_owned();
    ServerEvent::ThreadStatusChanged { thread_id, active }
}

/// A `turn/completed` notification: the turn was interrupted when its
/// status is `interrupted`.
pub fn turn_completed(thread_id: String, turn_id: String, status: &str) -> (r: ServerEvent)
    ensures
        r matches ServerEvent::TurnCompleted { thread_id: t, turn_id: u, interrupted } && t@
            == thread_id@ && u@ == turn_id@ && interrupted == (status@ == "interrupted"@),
{
    let interrupted = status.to_owned() == "interrupted".to_owned();
    ServerEvent::TurnCompleted { thread_id, turn_id, interrupted }
}

/// The text of a JSON-RPC error: its message (`unknown error` when it has
/// none), then its code in brackets (0 when it has none).
pub open spec fn jsonrpc_error_spec(code: Option<i64>, message: Option<Seq<char>>) -> Seq<char> {
    let m = match message {
        Some(m) => m,
        None => "unknown error"@,
    };
    let c = match code {
        Some(c) => c as int,
        None => 0,
    };
    m + " (code "@ + signed_decimal(c) + ")"@
}

/// The text of a JSON-RPC error (see `jsonrpc_error_spec`).
pub fn format_jsonrpc_error(code: Option<i64>, message: Option<&str>) -> (r: String)
    ensures
        r@ == jsonrpc_error_spec(
            code,
            match message {
                Some(m) => Some(m@),
                None => None,
            },
        ),
{
    let mut r = String::new();
    match message {
        Some(m) => push_str(&mut r, m),
        None => push_str(&mut r, "unknown error"),
    }
    push_str(&mut r, " (code ");
    let digits = match code {
        Some(c) => signed_decimal_chars(c),
        None => signed_decimal_chars(0),
    };
    push_all(&mut r, &digits);
    push_str(&mut r, ")");
    proof {
        let m = match message {
            Some(m) => m@,
            None => "unknown error"@,
        };
        assert(r@ =~= m + " (code "@ + digits@ + ")"@);
    }
    r
}

/// How many models one page of the model list asks for.
pub const MODEL_PAGE_LIMIT: u32 = 100;

/// The model list read page by page: the models so far and the cursor of
/// the next page.
#[derive(Debug)]
pub struct ModelPager {
    pub models: Vec<ModelInfo>,
    pub cursor: Option<String>,
}

impl ModelPager {
    /// Nothing read yet: the first page is asked for without a cursor.
    pub fn new() -> (r: ModelPager)
        ensures
            r.models@.len() == 0,
            r.cursor is None,
    {
        ModelPager { models: Vec::new(), cursor: None }
    }

    /// Adds a page of models, in order. Returns whether another page must
    /// be read: the page named a next cursor, which the next request
    /// carries.
    pub fn add_page(&mut self, page: Vec<ModelInfo>, next_cursor: Option<String>) -> (more: bool)
        ensures
            final(self).models@ == old(self).models@ + page@,
            more == next_cursor is Some,
            more ==> final(self).cursor == next_cursor,
            !more ==> final(self).cursor == old(self).cursor,
    {
        let mut page = page;
        self.models.append(&mut page);
        match next_cursor {
            Some(c) => {
                self.cursor = Some(c);
                true
            },
            None => false,
        }
    }
}

} // verus!
