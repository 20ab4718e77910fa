//! Short texts of the interface: previews of queued messages, popover
//! labels, the tail of the commit input, and button and list labels.
use vstd::prelude::*;
use crate::codex::{ModelInfo, ModelReasoningEffort};
use crate::geometry::{max_int, min_int, min_usize, sat_sub};
use crate::shell::{spinner_frame, spinner_frames};
use crate::text::{
    chars_of, decimal_chars, join, join_ranges, push_all, push_char, push_str, signed_decimal, string_of_range,
    trim, trim_range, word_ranges, words,
};

verus! {

/// A text on one line: its words joined by single spaces.
pub open spec fn compact(text: Seq<char>) -> Seq<char> {
    join(words(text), " "@)
}

/// The one-line form of a text.
pub fn compact_text(text: &str) -> (r: Vec<char>)
    ensures
        r@ == compact(text@),
{
    let v = chars_of(text);
    let ranges = word_ranges(&v, 0, v.len());
    assert(v@.subrange(0, v@.len() as int) =~= v@);
    let joined = join_ranges(&v, &ranges, &chars_of(" "));
    chars_of(joined.as_str())
}

/// The preview of a queued message in `width` columns: its one-line form,
/// cut with `…` when longer.
pub open spec fn queue_preview_spec(text: Seq<char>, width: int) -> Seq<char> {
    let c = compact(text);
    let limit = max_int(width, 1);
    if c.len() <= limit {
        c
    } else {
        c.take(limit - 1).push('…')
    }
}

/// The preview of a queued message (see `queue_preview_spec`).
pub fn queue_preview(text: &str, width: u16) -> (r: String)
    ensures
        r@ == queue_preview_spec(text@, width as int),
{
    let c = compact_text(text);
    let limit: usize = if width < 1 {
        1
    } else {
        width as usize
    };
    if c.len() <= limit {
        string_of_range(&c, 0, c.len())
    } else {
        let mut r = string_of_range(&c, 0, limit - 1);
        push_char(&mut r, '…');
        r
    }
}

/// A popover label in `width` columns: its one-line form, cut with `...`
/// when longer.
pub open spec fn popover_label_spec(label: Seq<char>, width: int) -> Seq<char> {
    let c = compact(label);
    let limit = max_int(width, 1);
    if c.len() <= limit {
        c
    } else {
        c.take(sat_sub(limit, 3)) + "..."@
    }
}

/// A popover label (see `popover_label_spec`).
pub fn truncate_label(label: &str, width: u16) -> (r: String)
    ensures
        r@ == popover_label_spec(label@, width as int),
{
    let c = compact_text(label);
    let limit: usize = if width < 1 {
        1
    } else {
        width as usize
    };
    if c.len() <= limit {
        string_of_range(&c, 0, c.len())
    } else {
        let mut r = string_of_range(&c, 0, limit.saturating_sub(3));
        push_str(&mut r, "...");
        r
    }
}

/// The visible part of the commit message being typed in `max_width`
/// columns: the whole of it, or its last characters.
pub open spec fn commit_input_spec(input: Seq<char>, max_width: int) -> Seq<char> {
    let w = max_int(max_width, 1);
    if input.len() <= w {
        input
    } else {
        input.skip(input.len() - w)
    }
}

/// The visible part of the commit message (see `commit_input_spec`).
pub fn commit_input_text(input: &str, max_width: u16) -> (r: String)
    ensures
        r@ == commit_input_spec(input@, max_width as int),
{
    let v = chars_of(input);
    let w: usize = if max_width < 1 {
        1
    } else {
        max_width as usize
    };
    if v.len() <= w {
        assert(v@.subrange(0, v@.len() as int) =~= v@);
        string_of_range(&v, 0, v.len())
    } else {
        assert(v@.subrange(v@.len() - w, v@.len() as int) =~= v@.skip(v@.len() - w));
        string_of_range(&v, v.len() - w, v.len())
    }
}

/// The note on the input box's title about queued messages.
pub open spec fn queue_suffix_spec(count: usize) -> Seq<char> {
    if count == 0 {
        Seq::empty()
    } else {
        "  ·  "@ + signed_decimal(count as int) + " queued  ·  Alt+Up/Down browse  Alt+Backspace cancel"@
    }
}

/// The note about queued messages (see `queue_suffix_spec`).
pub fn queue_suffix(count: usize) -> (r: String)
    ensures
        r@ == queue_suffix_spec(count),
{
    let mut r = String::new();
    if count > 0 {
        push_str(&mut r, "  ·  ");
        let digits = crate::text::decimal_chars(count as u64);
        push_all(&mut r, &digits);
        push_str(&mut r, " queued  ·  Alt+Up/Down browse  Alt+Backspace cancel");
    }
    r
}

/// A remote action of the git view.
#[derive(Debug, Clone, Copy, PartialEq, Eq, Structural)]
pub enum GitRemoteAction {
    Push,
    Pull,
}

/// The label of a remote button: with a spinner frame while its action
/// runs.
pub fn remote_button_label(
    label: &str,
    active_action: Option<GitRemoteAction>,
    button_action: GitRemoteAction,
    spinner_index: usize,
) -> (r: String)
    ensures
        r@ == (if active_action == Some(button_action) {
            seq![spinner_frames()[(spinner_index % 8) as int], ' '] + label@
        } else {
            label@
        }),
{
    let mut r = String::new();
    let active = match active_action {
        Some(a) => a == button_action,
        None => false,
    };
    if active {
        push_char(&mut r, spinner_frame(spinner_index));
        push_char(&mut r, ' ');
    }
    push_str(&mut r, label);
    r
}

/// The label of a model in the picker: the model, then ` - ` and its
/// display name when that differs, then ` [id]` when the id differs.
pub open spec fn model_label_of(model: Seq<char>, display: Seq<char>, id: Seq<char>) -> Seq<
    char,
> {
    model + (if display != model {
        " - "@ + display
    } else {
        Seq::empty()
    }) + (if id != model {
        " ["@ + id + "]"@
    } else {
        Seq::empty()
    })
}

/// The label of a model in the picker (see `model_label_of`).
pub fn model_label(model: &ModelInfo) -> (r: String)
    ensures
        r@ == model_label_of(model.model@, model.display_name@, model.id@),
{
    let mut label = model.model.clone();
    if !(model.display_name == model.model) {
        push_str(&mut label, " - ");
        push_str(&mut label, model.display_name.as_str());
    }
    if !(model.id == model.model) {
        push_str(&mut label, " [");
        push_str(&mut label, model.id.as_str());
        push_str(&mut label, "]");
    }
    assert(label@ =~= model_label_of(model.model@, model.display_name@, model.id@));
    label
}

/// The label of a reasoning effort in the picker: the effort, then ` - `
/// and its description when that is not blank.
pub open spec fn effort_label_of(effort: ModelReasoningEffort) -> Seq<char> {
    match effort.description {
        Some(d) => if trim(d@).len() > 0 {
            effort.reasoning_effort@ + " - "@ + d@
        } else {
            effort.reasoning_effort@
        },
        None => effort.reasoning_effort@,
    }
}

/// The label of a reasoning effort in the picker (see `effort_label_of`).
pub fn effort_label(effort: &ModelReasoningEffort) -> (r: String)
    ensures
        r@ == effort_label_of(*effort),
{
    let mut label = effort.reasoning_effort.clone();
    match &effort.description {
        Some(d) => {
            let v = chars_of(d.as_str());
            let (a, b) = trim_range(&v, 0, v.len());
            assert(v@.subrange(0, v@.len() as int) =~= v@);
            if a < b {
                push_str(&mut label, " - ");
                push_str(&mut label, d.as_str());
            }
        },
        None => {},
    }
    label
}

/// How many labels a popover shows from `start`: at most `visible`, and
/// none past the end of the list.
pub open spec fn shown_count(len: int, start: int, visible: int) -> int {
    if start >= len {
        0
    } else {
        min_int(visible, len - start)
    }
}

/// A line of a selectable popover: `› ` before the selected label, two
/// spaces before the others, each label cut to the width less four
/// columns; with whether it is the selected one.
pub open spec fn popover_line_spec(label: Seq<char>, is_selected: bool, width: u16) -> (Seq<char>, bool) {
    (
        (if is_selected {
            "› "@
        } else {
            "  "@
        }) + popover_label_spec(label, sat_sub(width as int, 4)),
        is_selected,
    )
}

/// The lines of a selectable popover showing `visible` labels from
/// `start`.
pub fn popover_label_lines(labels: &Vec<String>, selected: usize, start: usize, visible: usize, width: u16) -> (r: Vec<(String, bool)>)
    ensures
        r@.len() == shown_count(labels@.len() as int, start as int, visible as int),
        forall|k: int|
            0 <= k < r@.len() ==> (#[trigger] r@[k]).0@ == popover_line_spec(
                labels@[start + k]@,
                start + k == selected,
                width,
            ).0 && r@[k].1 == (start + k == selected),
{
    let mut r: Vec<(String, bool)> = Vec::new();
    if start >= labels.len() {
        return r;
    }
    let len = labels.len();
    let count = min_usize(visible, len - start);
    let mut k: usize = 0;
    while k < count
        invariant
            len == labels@.len(),
            start < labels@.len(),
            count == min_int(visible as int, labels@.len() - start),
            count <= labels@.len() - start,
            0 <= k <= count,
            r@.len() == k,
            forall|j: int|
                0 <= j < k ==> (#[trigger] r@[j]).0@ == popover_line_spec(
                    labels@[start + j]@,
                    start + j == selected,
                    width,
                ).0 && r@[j].1 == (start + j == selected),
        decreases count - k,
    {
        let index = start + k;
        let is_selected = index == selected;
        let mut line = if is_selected {
            "› ".to_owned()
        } else {
            "  ".to_owned()
        };
        let cut = truncate_label(labels[index].as_str(), width.saturating_sub(4));
        push_str(&mut line, cut.as_str());
        r.push((line, is_selected));
        k += 1;
    }
    r
}

/// A line of the queue popover: `› ` before the selected message, two
/// spaces before the others, each message previewed in the width less four
/// columns; with whether it is the selected one.
pub open spec fn queue_line_spec(text: Seq<char>, is_selected: bool, width: u16) -> (Seq<char>, bool) {
    (
        (if is_selected {
            "› "@
        } else {
            "  "@
        }) + queue_preview_spec(text, sat_sub(width as int, 4)),
        is_selected,
    )
}

/// The lines of the queue popover showing `visible` messages from `start`.
pub fn queue_popover_lines(texts: &Vec<String>, selected: usize, start: usize, visible: usize, width: u16) -> (r: Vec<(String, bool)>)
    ensures
        r@.len() == shown_count(texts@.len() as int, start as int, visible as int),
        forall|k: int|
            0 <= k < r@.len() ==> (#[trigger] r@[k]).0@ == queue_line_spec(
                texts@[start + k]@,
                start + k == selected,
                width,
            ).0 && r@[k].1 == (start + k == selected),
{
    let mut r: Vec<(String, bool)> = Vec::new();
    if start >= texts.len() {
        return r;
    }
    let len = texts.len();
    let count = min_usize(visible, len - start);
    let mut k: usize = 0;
    while k < count
        invariant
            len == texts@.len(),
            start < texts@.len(),
            count == min_int(visible as int, texts@.len() - start),
            count <= texts@.len() - start,
            0 <= k <= count,
            r@.len() == k,
            forall|j: int|
                0 <= j < k ==> (#[trigger] r@[j]).0@ == queue_line_spec(
                    texts@[start + j]@,
                    start + j == selected,
                    width,
                ).0 && r@[j].1 == (start + j == selected),
        decreases count - k,
    {
        let index = start + k;
        let is_selected = index == selected;
        let mut line = if is_selected {
            "› ".to_owned()
        } else {
            "  ".to_owned()
        };
        let preview = queue_preview(texts[index].as_str(), width.saturating_sub(4));
        push_str(&mut line, preview.as_str());
        r.push((line, is_selected));
        k += 1;
    }
    r
}

/// The title of the queue popover: `Queue (n)`.
pub fn queue_title(count: usize) -> (r: String)
    ensures
        r@ == "Queue ("@ + signed_decimal(count as int) + ")"@,
{
    let mut r = "Queue (".to_owned();
    let digits = decimal_chars(count as u64);
    push_all(&mut r, &digits);
    push_str(&mut r, ")");
    r
}

/// The language-server label of the editor while its server starts: a
/// spinner frame, a space and the server's name; none once it runs.
pub fn lsp_loading_label(starting: bool, spinner_index: usize, server_name: &str) -> (r: Option<String>)
    ensures
        match r {
            Some(l) => starting && l@ == seq![spinner_frames()[(spinner_index % 8) as int], ' ']
                + server_name@,
            None => !starting,
        },
{
    if !starting {
        return None;
    }
    let mut r = String::new();
    push_char(&mut r, spinner_frame(spinner_index));
    push_char(&mut r, ' ');
    push_str(&mut r, server_name);
    Some(r)
}

/// The status after a remote action of git: `Git push finished` or `Git
/// pull finished` when it succeeded, otherwise git's message.
pub fn git_remote_status(action: GitRemoteAction, success: bool, message: String) -> (r: String)
    ensures
        r@ == (if success {
            match action {
                GitRemoteAction::Push => "Git push finished"@,
                GitRemoteAction::Pull => "Git pull finished"@,
            }
        } else {
            message@
        }),
{
    if !success {
        return message;
    }
    match action {
        GitRemoteAction::Push => "Git push finished".to_owned(),
        GitRemoteAction::Pull => "Git pull finished".to_owned(),
    }
}

/// The status after a change of the repository (stage, unstage, discard,
/// commit): `Git operation finished` when it succeeded, otherwise git's
/// message.
pub fn git_mutation_status(success: bool, message: String) -> (r: String)
    ensures
        r@ == (if success {
            "Git operation finished"@
        } else {
            message@
        }),
{
    if success {
        "Git operation finished".to_owned()
    } else {
        message
    }
}

/// The mode of the workspace editor.
#[derive(Debug, Clone, Copy, PartialEq, Eq, Structural)]
pub enum EditorMode {
    Normal,
    Insert,
    Visual,
    Command,
}

/// The status line of the workspace editor: the command being typed in
/// command mode, else the editor's status message, else what has the
/// keys (the sidebar, the completion popover or the editor's mode).
pub open spec fn editor_status_spec(
    mode: EditorMode,
    command: Seq<char>,
    status: Option<Seq<char>>,
    focused: bool,
    completing: bool,
) -> Seq<char> {
    if mode == EditorMode::Command {
        seq![':'] + command
    } else if status is Some {
        status->0
    } else if !focused {
        "SIDEBAR FOCUSED"@
    } else if completing {
        "COMPLETION"@
    } else {
        match mode {
            EditorMode::Visual => "VISUAL"@,
            EditorMode::Insert => "INSERT"@,
            _ => "NORMAL"@,
        }
    }
}

/// The status line of the workspace editor (see `editor_status_spec`).
pub fn editor_status(mode: EditorMode, command: &str, status: Option<&str>, focused: bool, completing: bool) -> (r: String)
    ensures
        r@ == editor_status_spec(
            mode,
            command@,
            match status {
                Some(s) => Some(s@),
                None => None,
            },
            focused,
            completing,
        ),
{
    if matches!(mode, EditorMode::Command) {
        let mut r = String::new();
        push_char(&mut r, ':');
        push_str(&mut r, command);
        return r;
    }
    if let Some(s) = status {
        return s.to_owned();
    }
    if !focused {
        return "SIDEBAR FOCUSED".to_owned();
    }
    if completing {
        return "COMPLETION".to_owned();
    }
    match mode {
        EditorMode::Visual => "VISUAL".to_owned(),
        EditorMode::Insert => "INSERT".to_owned(),
        _ => "NORMAL".to_owned(),
    }
}

} // verus!
