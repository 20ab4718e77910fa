//! The decisions around the app's background work: how a chat turn gets
//! its thread, and what the chat or the status line says when a piece of
//! work comes back.
use vstd::prelude::*;
use std::collections::VecDeque;
use crate::chat::{truncate_shell_spec, truncate_shell_text};
use crate::text::push_str;

verus! {

/// The first step of sending a message to the agent.
#[derive(Debug, Clone, PartialEq, Eq)]
pub enum TurnStart {
    /// Reopen the chat's stored thread before the turn.
    ResumeThread(String),
    /// Start a new thread in the workspace before the turn.
    StartThread,
    /// Start the turn on the thread that is already open.
    StartTurn(String),
}

/// How a turn begins: a thread that is not loaded yet is resumed, a loaded
/// one is used as it is, and without one a thread is started.
pub fn turn_start(existing_thread: Option<String>, thread_loaded: bool) -> (r: TurnStart)
    ensures
        match existing_thread {
            Some(t) => if thread_loaded {
                r matches TurnStart::StartTurn(u) && u@ == t@
            } else {
                r matches TurnStart::ResumeThread(u) && u@ == t@
            },
            None => r is StartThread,
        },
{
    match existing_thread {
        Some(thread_id) => if thread_loaded {
            TurnStart::StartTurn(thread_id)
        } else {
            TurnStart::ResumeThread(thread_id)
        },
        None => TurnStart::StartThread,
    }
}

/// What a chat turn is started with: the message, the chat's thread (and
/// whether the server has it loaded), the chosen model and reasoning
/// effort, and the agent's workspace.
#[derive(Debug, Clone, PartialEq, Eq)]
pub struct TurnRequest {
    pub text: String,
    pub existing_thread: Option<String>,
    pub thread_loaded: bool,
    pub model: Option<String>,
    pub effort: Option<String>,
    pub workspace: String,
}

/// A call to the app server made for a chat turn, with what it is handed.
#[derive(Debug, Clone, PartialEq, Eq)]
pub enum TurnCall {
    /// Resume the stored thread, with the chosen model.
    ResumeThread { thread_id: String, model: Option<String> },
    /// Start a thread in the workspace, with the chosen model.
    StartThread { workspace: String, model: Option<String> },
    /// Start the turn on the thread with the message, model and effort.
    StartTurn { thread_id: String, text: String, model: Option<String>, effort: Option<String> },
}

/// The call that starts the turn on thread `thread_id`.
pub open spec fn start_turn_call(req: TurnRequest, thread_id: String) -> TurnCall {
    TurnCall::StartTurn { thread_id, text: req.text, model: req.model, effort: req.effort }
}

/// The first call of a turn (see `turn_start`): a thread that is not
/// loaded is resumed, without one a thread is started in the workspace,
/// both with the chosen model; a loaded thread gets the turn at once.
pub open spec fn first_call_spec(req: TurnRequest) -> TurnCall {
    match req.existing_thread {
        Some(t) => if req.thread_loaded {
            start_turn_call(req, t)
        } else {
            TurnCall::ResumeThread { thread_id: t, model: req.model }
        },
        None => TurnCall::StartThread { workspace: req.workspace, model: req.model },
    }
}

/// The first call of a chat turn (see `first_call_spec`).
pub fn first_turn_call(req: &TurnRequest) -> (r: TurnCall)
    ensures
        r == first_call_spec(*req),
{
    match &req.existing_thread {
        Some(thread_id) => if req.thread_loaded {
            TurnCall::StartTurn {
                thread_id: thread_id.clone(),
                text: req.text.clone(),
                model: req.model.clone(),
                effort: req.effort.clone(),
            }
        } else {
            TurnCall::ResumeThread { thread_id: thread_id.clone(), model: req.model.clone() }
        },
        None => TurnCall::StartThread { workspace: req.workspace.clone(), model: req.model.clone() },
    }
}

/// The next step of a chat turn after the server answered a call.
#[derive(Debug, Clone, PartialEq, Eq)]
pub enum TurnStep {
    /// The thread is open (the application reports it ready): make this
    /// call next.
    Next(TurnCall),
    /// The turn runs: the application records its id.
    Started(String),
    /// The submission failed with this message (the chat shows it and
    /// stops waiting).
    Failed(String),
}

/// A chat turn's sequence after its first call: when the call opened a
/// thread (resumed or started), its answer (`answer`, the thread's id or
/// the error) leads to starting the turn on that thread with the request's
/// message, model and effort, or to the failure; when the call started the
/// turn, its answer (the turn's id or the error) ends the sequence.
pub fn turn_step(req: &TurnRequest, call: &TurnCall, answer: Result<String, String>) -> (r: TurnStep)
    ensures
        match answer {
            Err(e) => r == TurnStep::Failed(e),
            Ok(id) => match call {
                TurnCall::StartTurn { .. } => r == TurnStep::Started(id),
                _ => r == TurnStep::Next(start_turn_call(*req, id)),
            },
        },
{
    match answer {
        Err(e) => TurnStep::Failed(e),
        Ok(id) => match call {
            TurnCall::StartTurn { .. } => TurnStep::Started(id),
            _ => TurnStep::Next(TurnCall::StartTurn {
                thread_id: id,
                text: req.text.clone(),
                model: req.model.clone(),
                effort: req.effort.clone(),
            }),
        },
    }
}

/// The message of a shell command that could not be run at all.
pub open spec fn shell_failure_spec(error: Seq<char>) -> Seq<char> {
    "```text\n"@ + truncate_shell_spec(error) + "\n```\n\nExit code: unavailable"@
}

/// Formats a shell command that could not be run (see
/// `shell_failure_spec`).
pub fn shell_failure_output(error: &str) -> (r: String)
    ensures
        r@ == shell_failure_spec(error@),
{
    let mut r = "```text\n".to_owned();
    let cut = truncate_shell_text(error);
    push_str(&mut r, cut.as_str());
    push_str(&mut r, "\n```\n\nExit code: unavailable");
    r
}

/// The chat message when the list of models cannot be loaded.
pub fn model_list_failure(error: &str) -> (r: String)
    ensures
        r@ == "Unable to load available models.\n\n"@ + error@,
{
    let mut r = "Unable to load available models.\n\n".to_owned();
    push_str(&mut r, error);
    r
}

/// The chat error when an agent's latest workspace session cannot be
/// loaded.
pub fn session_load_failure(error: &str) -> (r: String)
    ensures
        r@ == "Failed to load the latest workspace session: "@ + error@,
{
    let mut r = "Failed to load the latest workspace session: ".to_owned();
    push_str(&mut r, error);
    r
}

/// The status when a running response cannot be canceled.
pub fn interrupt_failure(error: &str) -> (r: String)
    ensures
        r@ == "Failed to cancel response: "@ + error@,
{
    let mut r = "Failed to cancel response: ".to_owned();
    push_str(&mut r, error);
    r
}

/// The error of a copy to the clipboard, if it failed.
pub fn copy_outcome(result: Result<(), String>) -> (r: Option<String>)
    ensures
        match result {
            Ok(()) => r is None,
            Err(e) => r matches Some(m) && m@ == "Copy failed: "@ + e@,
        },
{
    match result {
        Ok(()) => None,
        Err(error) => {
            let mut m = "Copy failed: ".to_owned();
            push_str(&mut m, error.as_str());
            Some(m)
        },
    }
}

/// The text pasted from the clipboard, or the error: an empty clipboard
/// pastes nothing.
pub fn paste_outcome(result: Result<String, String>) -> (r: (Option<String>, Option<String>))
    ensures
        match result {
            Ok(t) => if t@.len() > 0 {
                r.0 matches Some(p) && p@ == t@ && r.1 is None
            } else {
                r.0 is None && (r.1 matches Some(m) && m@ == "Clipboard is empty"@)
            },
            Err(e) => r.0 is None && (r.1 matches Some(m) && m@ == "Paste failed: "@ + e@),
        },
{
    match result {
        Ok(text) => if !text.as_str().is_empty() {
            (Some(text), None)
        } else {
            (None, Some("Clipboard is empty".to_owned()))
        },
        Err(error) => {
            let mut m = "Paste failed: ".to_owned();
            push_str(&mut m, error.as_str());
            (None, Some(m))
        },
    }
}

/// The effects that input and events asked for, to be run in the order
/// they were asked for.
#[derive(Debug)]
pub struct EffectQueue<E> {
    effects: VecDeque<E>,
}

impl<E> View for EffectQueue<E> {
    type V = Seq<E>;

    closed spec fn view(&self) -> Seq<E> {
        self.effects@
    }
}

impl<E> EffectQueue<E> {
    /// No effect waits.
    pub fn new() -> (r: Self)
        ensures
            r@ == Seq::<E>::empty(),
    {
        EffectQueue { effects: VecDeque::new() }
    }

    /// Asks for an effect after those already asked for.
    pub fn enqueue_effect(&mut self, effect: E)
        ensures
            final(self)@ == old(self)@.push(effect),
    {
        self.effects.push_back(effect);
    }

    /// Takes out every waiting effect, first asked for first.
    pub fn take_effects(&mut self) -> (r: Vec<E>)
        ensures
            r@ == old(self)@,
            final(self)@ == Seq::<E>::empty(),
    {
        let mut taken: Vec<E> = Vec::new();
        loop
            invariant
                taken@ + self.effects@ == old(self)@,
            decreases self.effects@.len(),
        {
            match self.effects.pop_front() {
                Some(effect) => {
                    taken.push(effect);
                },
                None => {
                    assert(taken@ =~= old(self)@);
                    return taken;
                },
            }
        }
    }

    /// How many effects wait.
    pub fn len(&self) -> (r: usize)
        ensures
            r == self@.len(),
    {
        self.effects.len()
    }
}

} // verus!
