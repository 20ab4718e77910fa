//! The decisions of a language-server session: where an incoming message
//! goes, which failed requests are tried again, and how errors read.
use vstd::prelude::*;
use crate::chat::opt_view;
use crate::text::{
    chars_of, eq_ignore_ascii_case, push_str, range_eq_ignore_ascii_case, string_of_range, trim,
    trim_range,
};

verus! {

/// The JSON-RPC code for a method that the receiver does not support.
pub const METHOD_NOT_FOUND: i64 = -32601;

/// The JSON-RPC code of a request that the server cancelled because the
/// document changed.
pub const CONTENT_MODIFIED: i64 = -32801;

/// Where an incoming message of the server goes.
#[derive(Debug, Clone, PartialEq, Eq)]
pub enum MessageRoute {
    /// A request from the server: answered with a `METHOD_NOT_FOUND` error.
    RejectRequest { method: String },
    /// A notification: handed to the application.
    Notification { method: String },
    /// A response: kept for the request with this id.
    Response { id: u64 },
    /// Anything else is dropped.
    Ignore,
}

/// Where a message goes: with a method, a request when it has an id and a
/// notification otherwise; without one, a response when it has a numeric
/// id.
pub open spec fn route_spec(method: Option<Seq<char>>, has_id: bool, id: Option<u64>) -> (u8, Seq<char>, u64) {
    match method {
        Some(m) => if has_id {
            (0, m, 0)
        } else {
            (1, m, 0)
        },
        None => match id {
            Some(n) => (2, Seq::empty(), n),
            None => (3, Seq::empty(), 0),
        },
    }
}

impl MessageRoute {
    /// The route as plain values: a tag, the method and the id.
    pub open spec fn tag(&self) -> (u8, Seq<char>, u64) {
        match self {
            MessageRoute::RejectRequest { method } => (0, method@, 0),
            MessageRoute::Notification { method } => (1, method@, 0),
            MessageRoute::Response { id } => (2, Seq::empty(), *id),
            MessageRoute::Ignore => (3, Seq::empty(), 0),
        }
    }
}

/// Where an incoming message goes (see `route_spec`). `method` is its
/// `method` string, `has_id` whether it has an `id`, and `id` that id when
/// it is an integer.
pub fn route_message(method: Option<String>, has_id: bool, id: Option<u64>) -> (r: MessageRoute)
    ensures
        r.tag() == route_spec(opt_view(method), has_id, id),
{
    match method {
        Some(method) => if has_id {
            MessageRoute::RejectRequest { method }
        } else {
            MessageRoute::Notification { method }
        },
        None => match id {
            Some(id) => MessageRoute::Response { id },
            None => MessageRoute::Ignore,
        },
    }
}

/// The message of the error that rejects a server request.
pub fn unsupported_request_message(method: &str) -> (r: String)
    ensures
        r@ == "Unsupported server request: "@ + method@,
{
    let mut r = String::new();
    push_str(&mut r, "Unsupported server request: ");
    push_str(&mut r, method);
    r
}

/// The view of an optional string slice.
pub open spec fn opt_str_view(o: Option<&str>) -> Option<Seq<char>> {
    match o {
        Some(s) => Some(s@),
        None => None,
    }
}

/// A failed request is tried again when the server says the content was
/// modified: by the code `CONTENT_MODIFIED` or by the message `content
/// modified` in any ASCII case.
pub open spec fn retryable_spec(code: Option<i64>, message: Option<Seq<char>>) -> bool {
    ||| code == Some(CONTENT_MODIFIED)
    ||| (message is Some && eq_ignore_ascii_case(message->0, "content modified"@))
}

/// Whether a failed request is tried again (see `retryable_spec`).
pub fn response_error_is_retryable(code: Option<i64>, message: Option<&str>) -> (r: bool)
    ensures
        r == retryable_spec(code, opt_str_view(message)),
{
    if let Some(c) = code {
        if c == CONTENT_MODIFIED {
            return true;
        }
    }
    match message {
        Some(m) => {
            let v = chars_of(m);
            let pat = chars_of("content modified");
            assert(v@.subrange(0, v@.len() as int) =~= v@);
            range_eq_ignore_ascii_case(&v, 0, v.len(), &pat)
        },
        None => false,
    }
}

/// The text of a failed request: the server's message, or `unknown LSP
/// error`.
pub fn response_error_message(message: Option<&str>) -> (r: String)
    ensures
        r@ == (match message {
            Some(m) => m@,
            None => "unknown LSP error"@,
        }),
{
    let mut r = String::new();
    match message {
        Some(m) => push_str(&mut r, m),
        None => push_str(&mut r, "unknown LSP error"),
    }
    r
}

/// What to do with the response to a request.
#[derive(Debug, Clone, PartialEq, Eq)]
pub enum RequestStep {
    /// The response carries a result.
    Succeed,
    /// Send the request again.
    Retry,
    /// The request failed with this message.
    Fail(String),
}

/// A request is sent at most twice: an error on the first attempt that is
/// retryable sends it again; any other error fails it.
pub open spec fn request_step_spec(
    attempt: nat,
    failed: bool,
    code: Option<i64>,
    message: Option<Seq<char>>,
) -> (u8, Seq<char>) {
    if !failed {
        (0, Seq::empty())
    } else if attempt == 0 && retryable_spec(code, message) {
        (1, Seq::empty())
    } else {
        (
            2,
            match message {
                Some(m) => m,
                None => "unknown LSP error"@,
            },
        )
    }
}

impl RequestStep {
    /// The step as plain values: a tag and the failure's message.
    pub open spec fn tag(&self) -> (u8, Seq<char>) {
        match self {
            RequestStep::Succeed => (0, Seq::empty()),
            RequestStep::Retry => (1, Seq::empty()),
            RequestStep::Fail(m) => (2, m@),
        }
    }
}

/// What to do with the response to attempt `attempt` (from 0) of a
/// request; `failed` says whether it carries an error, with this code and
/// message (see `request_step_spec`).
pub fn request_step(attempt: usize, failed: bool, code: Option<i64>, message: Option<&str>) -> (r: RequestStep)
    ensures
        r.tag() == request_step_spec(attempt as nat, failed, code, opt_str_view(message)),
        attempt > 0 ==> r != RequestStep::Retry,
{
    if !failed {
        return RequestStep::Succeed;
    }
    if attempt == 0 && response_error_is_retryable(code, message) {
        return RequestStep::Retry;
    }
    RequestStep::Fail(response_error_message(message))
}

/// Where the command of a language server is: the home directory (`~`), a
/// path under it (`~/rest`), or the command as it is.
#[derive(Debug, Clone, PartialEq, Eq)]
pub enum CommandPath {
    Home,
    UnderHome(String),
    Plain(String),
}

/// Why a language server's command names no program.
#[derive(Debug, Clone, Copy, PartialEq, Eq, Structural)]
pub enum CommandPathError {
    Empty,
}

/// The place a command names, after trimming: `~` is the home directory,
/// `~/rest` is `rest` under it, anything else is a path as it is; a blank
/// command names none.
pub open spec fn command_path_spec(command: Seq<char>) -> Option<(u8, Seq<char>)> {
    let t = trim(command);
    if t.len() == 0 {
        None
    } else if t == "~"@ {
        Some((0, Seq::empty()))
    } else if t.len() >= 2 && t[0] == '~' && t[1] == '/' {
        Some((1, t.skip(2)))
    } else {
        Some((2, t))
    }
}

impl CommandPath {
    /// The place as a tag and a path.
    pub open spec fn tag(&self) -> (u8, Seq<char>) {
        match self {
            CommandPath::Home => (0, Seq::empty()),
            CommandPath::UnderHome(rest) => (1, rest@),
            CommandPath::Plain(path) => (2, path@),
        }
    }
}

/// The place a language server's command names (see `command_path_spec`).
pub fn resolve_command_path(command: &str) -> (r: Result<CommandPath, CommandPathError>)
    ensures
        match r {
            Ok(p) => command_path_spec(command@) == Some(p.tag()),
            Err(_) => command_path_spec(command@) is None,
        },
{
    let v = chars_of(command);
    let (a, b) = trim_range(&v, 0, v.len());
    assert(v@.subrange(0, v@.len() as int) =~= v@);
    let ghost t = v@.subrange(a as int, b as int);
    if a == b {
        return Err(CommandPathError::Empty);
    }
    proof {
        reveal_strlit("~");
    }
    if b - a == 1 && v[a] == '~' {
        assert(t =~= "~"@);
        return Ok(CommandPath::Home);
    }
    if b - a >= 2 && v[a] == '~' && v[a + 1] == '/' {
        assert(t != "~"@);
        assert(t.skip(2) =~= v@.subrange(a + 2, b as int));
        return Ok(CommandPath::UnderHome(string_of_range(&v, a + 2, b)));
    }
    assert(t.len() == 1 ==> t[0] != '~');
    assert(t != "~"@);
    Ok(CommandPath::Plain(string_of_range(&v, a, b)))
}

/// What the editor does with the answer to a go-to-definition request.
#[derive(Debug, Clone, PartialEq, Eq)]
pub enum DefinitionStep {
    /// Show this status and stay.
    Report(String),
    /// Open the file of the definition at its position.
    OpenTarget,
}

/// The answer to a go-to-definition request: an error is shown as it is;
/// no location, or one outside the workspace, is reported; otherwise the
/// definition is opened.
pub fn definition_step(error: Option<String>, found: bool, in_workspace: bool) -> (r: DefinitionStep)
    ensures
        match error {
            Some(e) => r matches DefinitionStep::Report(m) && m@ == e@,
            None => if !found {
                r matches DefinitionStep::Report(m) && m@ == "Definition not found"@
            } else if !in_workspace {
                r matches DefinitionStep::Report(m) && m@ == "Definition is outside the workspace."@
            } else {
                r is OpenTarget
            },
        },
{
    match error {
        Some(e) => DefinitionStep::Report(e),
        None => if !found {
            DefinitionStep::Report("Definition not found".to_owned())
        } else if !in_workspace {
            DefinitionStep::Report("Definition is outside the workspace.".to_owned())
        } else {
            DefinitionStep::OpenTarget
        },
    }
}

/// The status when the definition's file cannot be opened.
pub fn definition_lookup_failed() -> (r: String)
    ensures
        r@ == "Definition lookup failed"@,
{
    "Definition lookup failed".to_owned()
}

/// The editor's status after completion items arrive, and whether the
/// completion is dropped: an error is shown and drops it; no suggestions
/// is reported; otherwise the status is cleared.
pub fn completion_status(error: Option<String>, has_suggestions: bool) -> (r: (Option<String>, bool))
    ensures
        match error {
            Some(e) => opt_view(r.0) == Some(e@) && r.1,
            None => !r.1 && opt_view(r.0) == (if has_suggestions {
                None
            } else {
                Some("No completion suggestions"@)
            }),
        },
{
    match error {
        Some(e) => (Some(e), true),
        None => if has_suggestions {
            (None, false)
        } else {
            (Some("No completion suggestions".to_owned()), false)
        },
    }
}

/// The agent status for a notification of a server: the server's name and
/// the message of `window/showMessage` and `window/logMessage`; nothing for
/// other notifications or without a message.
pub fn notification_status(server_name: &str, method: &str, message: Option<String>) -> (r: Option<String>)
    ensures
        opt_view(r) == (match message {
            Some(m) => if method@ == "window/showMessage"@ || method@ == "window/logMessage"@ {
                Some(server_name@ + ": "@ + m@)
            } else {
                None
            },
            None => None,
        }),
{
    let m = method.to_owned();
    let shown = m == "window/showMessage".to_owned() || m == "window/logMessage".to_owned();
    match message {
        Some(text) => if shown {
            let mut r = server_name.to_owned();
            push_str(&mut r, ": ");
            push_str(&mut r, text.as_str());
            Some(r)
        } else {
            None
        },
        None => None,
    }
}

/// The kind of request sent to a language server.
#[derive(Debug, Clone, Copy, PartialEq, Eq, Structural)]
pub enum LspRequestKind {
    Hover,
    Definition,
    Completion,
}

/// The name of a request kind in messages.
pub open spec fn request_kind_name(kind: LspRequestKind) -> Seq<char> {
    match kind {
        LspRequestKind::Hover => "hover"@,
        LspRequestKind::Definition => "definition"@,
        LspRequestKind::Completion => "completion"@,
    }
}

/// The status when a request cannot be handed to its server.
pub fn send_failure_message(kind: LspRequestKind, server_name: &str) -> (r: String)
    ensures
        r@ == "Failed to send "@ + request_kind_name(kind) + " request to "@ + server_name@,
{
    let mut r = "Failed to send ".to_owned();
    match kind {
        LspRequestKind::Hover => push_str(&mut r, "hover"),
        LspRequestKind::Definition => push_str(&mut r, "definition"),
        LspRequestKind::Completion => push_str(&mut r, "completion"),
    }
    push_str(&mut r, " request to ");
    push_str(&mut r, server_name);
    r
}

} // verus!
