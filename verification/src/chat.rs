//! The chat input and what it turns into: shell commands typed after `>`,
//! `/model` commands, the shell output posted back to the chat, the model
//! label, and the top-level settings of the Codex configuration file.
use vstd::prelude::*;
use crate::text::{
    find, find_in_range, lemma_find_from_found, line_ranges, lines, trim_char, trim_char_range,
    chars_of, is_ws, is_whitespace, join, join_ranges, push_all, push_char, push_str, range_eq_ignore_ascii_case, range_equals,
    range_starts_with, range_texts, ranges_within, signed_decimal, signed_decimal_chars,
    string_of_range, trim, trim_char_end, trim_char_end_range, trim_range, words, word_ranges,
    eq_ignore_ascii_case, trim_char_start,
};

verus! {

/// How much of a command's output is kept, in characters.
pub const SHELL_OUTPUT_LIMIT: usize = 64000;

/// Whether `p` is a prefix of `s`.
pub open spec fn starts_with(s: Seq<char>, p: Seq<char>) -> bool {
    p.len() <= s.len() && s.take(p.len() as int) == p
}

/// Whether the chat input is a shell command: it starts with `>`.
pub fn chat_input_is_shell(input: &str) -> (b: bool)
    ensures
        b == (input@.len() > 0 && input@[0] == '>'),
{
    let v = chars_of(input);
    v.len() > 0 && v[0] == '>'
}

/// The shell command of an input that starts with `>`: the rest, trimmed;
/// `None` when the input is no shell command or the command is empty.
pub open spec fn shell_command_spec(input: Seq<char>) -> Option<Seq<char>> {
    if input.len() > 0 && input[0] == '>' && trim(input.drop_first()).len() > 0 {
        Some(trim(input.drop_first()))
    } else {
        None
    }
}

/// The shell command typed in the chat input, if any (see
/// `shell_command_spec`).
pub fn shell_command_from_input(input: &str) -> (r: Option<String>)
    ensures
        r is Some <==> shell_command_spec(input@) is Some,
        r matches Some(c) ==> c@ == shell_command_spec(input@)->0,
{
    let v = chars_of(input);
    if v.len() == 0 || v[0] != '>' {
        return None;
    }
    assert(input@.drop_first() =~= v@.subrange(1, v@.len() as int));
    let (a, b) = trim_range(&v, 1, v.len());
    if a == b {
        None
    } else {
        Some(string_of_range(&v, a, b))
    }
}

/// A command's output as it is posted: without trailing line breaks, and
/// cut to the limit with a `[truncated]` note when longer.
pub open spec fn truncate_shell_spec(text: Seq<char>) -> Seq<char> {
    if text.len() <= SHELL_OUTPUT_LIMIT {
        trim_char_end(text, '\n')
    } else {
        trim_char_end(text.take(SHELL_OUTPUT_LIMIT as int), '\n') + "\n[truncated]"@
    }
}

/// Cuts a command's output for the chat (see `truncate_shell_spec`).
pub fn truncate_shell_text(text: &str) -> (r: String)
    ensures
        r@ == truncate_shell_spec(text@),
{
    let v = chars_of(text);
    if v.len() <= SHELL_OUTPUT_LIMIT {
        let end = trim_char_end_range(&v, 0, v.len(), '\n');
        assert(v@.subrange(0, v@.len() as int) =~= v@);
        string_of_range(&v, 0, end)
    } else {
        let end = trim_char_end_range(&v, 0, SHELL_OUTPUT_LIMIT, '\n');
        assert(v@.subrange(0, SHELL_OUTPUT_LIMIT as int) =~= v@.take(SHELL_OUTPUT_LIMIT as int));
        let mut r = string_of_range(&v, 0, end);
        push_str(&mut r, "\n[truncated]");
        r
    }
}

/// The body of a posted command output: its standard output, then its
/// standard error under a `[stderr]` mark, or `[no output]`.
pub open spec fn shell_body_spec(stdout: Seq<char>, stderr: Seq<char>) -> Seq<char> {
    let out = truncate_shell_spec(stdout);
    let err = truncate_shell_spec(stderr);
    if out.len() > 0 && err.len() > 0 {
        out + "\n"@ + "[stderr]\n"@ + err
    } else if out.len() > 0 {
        out
    } else if err.len() > 0 {
        err
    } else {
        "[no output]"@
    }
}

/// The chat message that reports a finished shell command.
pub open spec fn shell_output_spec(
    command: Seq<char>,
    stdout: Seq<char>,
    stderr: Seq<char>,
    exit_code: Option<i32>,
    success: bool,
) -> Seq<char> {
    let code = match exit_code {
        Some(c) => signed_decimal(c as int),
        None => "unavailable"@,
    };
    let status = if success {
        "ok"@
    } else {
        "failed"@
    };
    "Command: `"@ + command + "`\n\n```text\n"@ + shell_body_spec(stdout, stderr)
        + "\n```\n\nExit code: "@ + code + " ("@ + status + ")"@
}

/// Formats a finished shell command for the chat (see `shell_output_spec`).
pub fn format_shell_output(
    command: &str,
    stdout: &str,
    stderr: &str,
    exit_code: Option<i32>,
    success: bool,
) -> (r: String)
    ensures
        r@ == shell_output_spec(command@, stdout@, stderr@, exit_code, success),
{
    let out = truncate_shell_text(stdout);
    let err = truncate_shell_text(stderr);
    let out_v = chars_of(out.as_str());
    let err_v = chars_of(err.as_str());
    let mut body = String::new();
    if out_v.len() > 0 {
        push_all(&mut body, &out_v);
    }
    if err_v.len() > 0 {
        if out_v.len() > 0 {
            push_char(&mut body, '\n');
            push_str(&mut body, "[stderr]\n");
        }
        push_all(&mut body, &err_v);
    }
    if out_v.len() == 0 && err_v.len() == 0 {
        push_str(&mut body, "[no output]");
    }
    proof {
        reveal_strlit("\n");
    }
    assert(body@ =~= shell_body_spec(stdout@, stderr@));
    let mut r = String::new();
    push_str(&mut r, "Command: `");
    push_str(&mut r, command);
    push_str(&mut r, "`\n\n```text\n");
    let body_v = chars_of(body.as_str());
    push_all(&mut r, &body_v);
    push_str(&mut r, "\n```\n\nExit code: ");
    match exit_code {
        Some(c) => {
            let digits = signed_decimal_chars(c as i64);
            push_all(&mut r, &digits);
        },
        None => {
            push_str(&mut r, "unavailable");
        },
    }
    push_str(&mut r, " (");
    if success {
        push_str(&mut r, "ok");
    } else {
        push_str(&mut r, "failed");
    }
    push_str(&mut r, ")");
    r
}

/// No output stream is dropped from the posted message: after the
/// `Command: ` line and the opening fence (21 characters besides the
/// command) stands the cut standard output, if any; a non-empty cut
/// standard error follows it on a `[stderr]` line of its own, or stands
/// there alone when the standard output is empty; with neither, the body
/// reads `[no output]`. The message ends with the status, `(ok)` or
/// `(failed)`.
pub proof fn law_shell_output_keeps_both_streams(
    command: Seq<char>,
    stdout: Seq<char>,
    stderr: Seq<char>,
    exit_code: Option<i32>,
    success: bool,
)
    ensures
        ({
            let r = shell_output_spec(command, stdout, stderr, exit_code, success);
            let h = command.len() + 21int;
            let out = truncate_shell_spec(stdout);
            let err = truncate_shell_spec(stderr);
            &&& out.len() > 0 ==> r.subrange(h, h + out.len()) == out
            &&& out.len() > 0 && err.len() > 0 ==> r.subrange(
                h + out.len(),
                h + out.len() + 10 + err.len(),
            ) == "\n[stderr]\n"@ + err
            &&& out.len() == 0 && err.len() > 0 ==> r.subrange(h, h + err.len()) == err
            &&& out.len() == 0 && err.len() == 0 ==> r.subrange(h, h + 11) == "[no output]"@
            &&& success ==> r.subrange(r.len() - 5, r.len() as int) == " (ok)"@
            &&& !success ==> r.subrange(r.len() - 9, r.len() as int) == " (failed)"@
        }),
{
    reveal_strlit("Command: `");
    reveal_strlit("`\n\n```text\n");
    reveal_strlit("\n");
    reveal_strlit("[stderr]\n");
    reveal_strlit("\n[stderr]\n");
    let r = shell_output_spec(command, stdout, stderr, exit_code, success);
    let hd = "Command: `"@ + command + "`\n\n```text\n"@;
    let body = shell_body_spec(stdout, stderr);
    let h = command.len() + 21int;
    assert(hd.len() == h);
    let out = truncate_shell_spec(stdout);
    let err = truncate_shell_spec(stderr);
    assert forall|i: int| 0 <= i < body.len() implies r[h + i] == body[i] by {
        assert((hd + body)[h + i] == body[i]);
    }
    if out.len() > 0 && err.len() > 0 {
        let mark = "\n[stderr]\n"@ + err;
        assert(body =~= out + mark);
        assert(r.subrange(h, h + out.len()) =~= out) by {
            assert forall|i: int| 0 <= i < out.len() implies r[h + i] == out[i] by {
                assert(body[i] == out[i]);
            }
        }
        assert(r.subrange(h + out.len(), h + out.len() + 10 + err.len()) =~= mark) by {
            assert forall|i: int| 0 <= i < mark.len() implies r[h + out.len() + i] == mark[i] by {
                assert(body[out.len() + i] == mark[i]);
            }
        }
    } else if out.len() > 0 {
        assert(body == out);
        assert(r.subrange(h, h + out.len()) =~= out);
    } else if err.len() > 0 {
        assert(body == err);
        assert(r.subrange(h, h + err.len()) =~= err);
    } else {
        reveal_strlit("[no output]");
        assert(r.subrange(h, h + 11) =~= "[no output]"@);
    }
    reveal_strlit(" (");
    reveal_strlit(")");
    reveal_strlit("ok");
    reveal_strlit("failed");
    reveal_strlit(" (ok)");
    reveal_strlit(" (failed)");
    if success {
        assert(r.subrange(r.len() - 5, r.len() as int) =~= " (ok)"@);
    } else {
        assert(r.subrange(r.len() - 9, r.len() as int) =~= " (failed)"@);
    }
}


/// What `/model` asks for.
#[derive(Debug, Clone, PartialEq, Eq)]
pub enum ModelCommand {
    /// List the models.
    List,
    /// Go back to the configured default.
    ResetDefault,
    /// Use this model and/or this reasoning effort.
    Change { model: Option<String>, effort: Option<String> },
}

/// A command typed in the chat input.
#[derive(Debug, Clone, PartialEq, Eq)]
pub enum ChatCommand {
    Model(ModelCommand),
}

/// A model command as plain values: a tag (0 list, 1 reset, 2 set) and
/// the model and effort of a set.
pub type ModelCommandView = (u8, Option<Seq<char>>, Option<Seq<char>>);

/// The plain view of an optional string.
pub open spec fn opt_view(o: Option<String>) -> Option<Seq<char>> {
    match o {
        Some(s) => Some(s@),
        None => None,
    }
}

impl View for ModelCommand {
    type V = ModelCommandView;

    open spec fn view(&self) -> ModelCommandView {
        match self {
            ModelCommand::List => (0u8, None, None),
            ModelCommand::ResetDefault => (1u8, None, None),
            ModelCommand::Change { model, effort } => (2u8, opt_view(*model), opt_view(*effort)),
        }
    }
}

/// Whether a word names a reasoning effort, without regard to ASCII case.
pub open spec fn is_effort_word(w: Seq<char>) -> bool {
    ||| eq_ignore_ascii_case(w, "minimal"@)
    ||| eq_ignore_ascii_case(w, "low"@)
    ||| eq_ignore_ascii_case(w, "medium"@)
    ||| eq_ignore_ascii_case(w, "high"@)
    ||| eq_ignore_ascii_case(w, "xhigh"@)
    ||| eq_ignore_ascii_case(w, "none"@)
}

/// What the arguments of `/model` ask for: nothing lists the models;
/// `default` alone resets; an effort alone sets the effort; otherwise the
/// first word is the model and the other words, joined by single spaces,
/// the effort.
pub open spec fn model_command_spec(input: Seq<char>) -> ModelCommandView {
    let parts = words(trim(input));
    if parts.len() == 0 {
        (0u8, None, None)
    } else if parts.len() == 1 && eq_ignore_ascii_case(parts[0], "default"@) {
        (1u8, None, None)
    } else if parts.len() == 1 && is_effort_word(parts[0]) {
        (2u8, None, Some(parts[0]))
    } else {
        (
            2u8,
            Some(parts[0]),
            if parts.len() > 1 {
                Some(join(parts.skip(1), " "@))
            } else {
                None
            },
        )
    }
}

/// Whether `v[lo..hi]` names a reasoning effort.
pub fn is_reasoning_effort_value(v: &Vec<char>, lo: usize, hi: usize) -> (b: bool)
    requires
        lo <= hi <= v@.len(),
    ensures
        b == is_effort_word(v@.subrange(lo as int, hi as int)),
{
    range_eq_ignore_ascii_case(v, lo, hi, &chars_of("minimal"))
        || range_eq_ignore_ascii_case(v, lo, hi, &chars_of("low"))
        || range_eq_ignore_ascii_case(v, lo, hi, &chars_of("medium"))
        || range_eq_ignore_ascii_case(v, lo, hi, &chars_of("high"))
        || range_eq_ignore_ascii_case(v, lo, hi, &chars_of("xhigh"))
        || range_eq_ignore_ascii_case(v, lo, hi, &chars_of("none"))
}

/// Parses the arguments of `/model` in `v[lo..hi]` (see
/// `model_command_spec`).
pub fn parse_model_command(v: &Vec<char>, lo: usize, hi: usize) -> (r: ModelCommand)
    requires
        lo <= hi <= v@.len(),
    ensures
        r@ == model_command_spec(v@.subrange(lo as int, hi as int)),
{
    let (a, b) = trim_range(v, lo, hi);
    let parts = word_ranges(v, a, b);
    let ghost texts = range_texts(v@, parts@);
    if parts.len() == 0 {
        return ModelCommand::List;
    }
    let (w0, w1) = parts[0];
    assert(a <= parts@[0].0 <= parts@[0].1 <= b);
    assert(texts[0] == v@.subrange(w0 as int, w1 as int));
    if parts.len() == 1 && range_eq_ignore_ascii_case(v, w0, w1, &chars_of("default")) {
        return ModelCommand::ResetDefault;
    }
    if parts.len() == 1 && is_reasoning_effort_value(v, w0, w1) {
        return ModelCommand::Change { model: None, effort: Some(string_of_range(v, w0, w1)) };
    }
    let model = string_of_range(v, w0, w1);
    let effort = if parts.len() > 1 {
        let mut rest: Vec<(usize, usize)> = Vec::new();
        let mut k: usize = 1;
        while k < parts.len()
            invariant
                1 <= k <= parts@.len(),
                ranges_within(parts@, a as int, b as int),
                b <= v@.len(),
                rest@ == parts@.subrange(1, k as int),
            decreases parts@.len() - k,
        {
            rest.push(parts[k]);
            k += 1;
            assert(rest@ =~= parts@.subrange(1, k as int));
        }
        assert(ranges_within(rest@, 0, v@.len() as int));
        assert(range_texts(v@, rest@) =~= texts.skip(1));
        Some(join_ranges(v, &rest, &chars_of(" ")))
    } else {
        None
    };
    ModelCommand::Change { model: Some(model), effort }
}

/// What a chat input means as a command: `/model`, alone or followed by
/// white space and arguments, after trimming.
pub open spec fn chat_command_spec(input: Seq<char>) -> Option<ModelCommandView> {
    let t = trim(input);
    let p = "/model"@;
    if !starts_with(t, p) {
        None
    } else {
        let rem = t.skip(p.len() as int);
        if rem.len() > 0 && !is_ws(rem[0]) {
            None
        } else {
            Some(model_command_spec(trim(rem)))
        }
    }
}

/// The command typed in the chat input, if any (see `chat_command_spec`).
pub fn chat_command_from_input(input: &str) -> (r: Option<ChatCommand>)
    ensures
        r is Some <==> chat_command_spec(input@) is Some,
        r matches Some(ChatCommand::Model(m)) ==> m@ == chat_command_spec(input@)->0,
{
    let v = chars_of(input);
    let (a, b) = trim_range(&v, 0, v.len());
    assert(v@.subrange(0, v@.len() as int) =~= v@);
    let prefix = chars_of("/model");
    let ghost t = v@.subrange(a as int, b as int);
    if prefix.len() <= b - a {
        assert(t.take(prefix@.len() as int) =~= v@.subrange(a as int, a + prefix@.len()));
    }
    if !range_starts_with(&v, a, b, &prefix) {
        return None;
    }
    let start = a + prefix.len();
    assert(t.skip(prefix@.len() as int) =~= v@.subrange(start as int, b as int));
    if start < b && !is_whitespace(v[start]) {
        return None;
    }
    let (c0, c1) = trim_range(&v, start, b);
    let command = parse_model_command(&v, c0, c1);
    Some(ChatCommand::Model(command))
}

/// Whether an optional string is present and not blank.
pub open spec fn present(o: Option<&str>) -> bool {
    o matches Some(e) && trim(e@).len() > 0
}

/// The label of a model and its reasoning effort: `model · effort`, or the
/// model alone when the effort is missing or blank.
pub open spec fn model_label_spec(model: Seq<char>, effort: Option<Seq<char>>) -> Seq<char> {
    match effort {
        Some(e) => if trim(e).len() > 0 {
            model + " · "@ + e
        } else {
            model
        },
        None => model,
    }
}

/// The plain view of an optional string slice.
pub open spec fn opt_str(o: Option<&str>) -> Option<Seq<char>> {
    match o {
        Some(s) => Some(s@),
        None => None,
    }
}

/// Whether `s` is blank.
fn is_blank(s: &str) -> (b: bool)
    ensures
        b == (trim(s@).len() == 0),
{
    let v = chars_of(s);
    let (a, b) = trim_range(&v, 0, v.len());
    assert(v@.subrange(0, v@.len() as int) =~= v@);
    a == b
}

/// The label of a model and its reasoning effort (see `model_label_spec`).
pub fn format_chat_model_label(model: &str, reasoning_effort: Option<&str>) -> (r: String)
    ensures
        r@ == model_label_spec(model@, opt_str(reasoning_effort)),
{
    let mut r = String::new();
    push_str(&mut r, model);
    match reasoning_effort {
        Some(effort) => {
            if !is_blank(effort) {
                push_str(&mut r, " · ");
                push_str(&mut r, effort);
            }
        },
        None => {},
    }
    r
}

/// The label shown for an agent's model: the chosen model (with the chosen
/// effort), or the default model with a chosen effort (`default · effort`
/// when there is no default model), or the default label.
pub open spec fn resolve_label_spec(
    selected_model: Option<Seq<char>>,
    selected_effort: Option<Seq<char>>,
    default_model: Option<Seq<char>>,
    default_label: Seq<char>,
) -> Seq<char> {
    match selected_model {
        Some(m) => model_label_spec(m, selected_effort),
        None => match selected_effort {
            Some(e) => if trim(e).len() > 0 {
                match default_model {
                    Some(d) => d + " · "@ + trim(e),
                    None => "default · "@ + trim(e),
                }
            } else {
                default_label
            },
            None => default_label,
        },
    }
}

/// The label shown for an agent's model (see `resolve_label_spec`).
pub fn resolve_chat_model_label(
    selected_model: Option<&str>,
    selected_effort: Option<&str>,
    default_model: Option<&str>,
    default_label: &str,
) -> (r: String)
    ensures
        r@ == resolve_label_spec(
            opt_str(selected_model),
            opt_str(selected_effort),
            opt_str(default_model),
            default_label@,
        ),
{
    match selected_model {
        Some(model) => format_chat_model_label(model, selected_effort),
        None => {
            let mut r = String::new();
            match selected_effort {
                Some(effort) => {
                    let v = chars_of(effort);
                    let (a, b) = trim_range(&v, 0, v.len());
                    assert(v@.subrange(0, v@.len() as int) =~= v@);
                    if a == b {
                        push_str(&mut r, default_label);
                    } else {
                        match default_model {
                            Some(d) => push_str(&mut r, d),
                            None => push_str(&mut r, "default"),
                        }
                        push_str(&mut r, " · ");
                        let trimmed = string_of_range(&v, a, b);
                        push_str(&mut r, trimmed.as_str());
                        proof {
                            reveal_strlit("default");
                            reveal_strlit(" · ");
                            reveal_strlit("default · ");
                        }
                        assert(r@ =~= resolve_label_spec(
                            opt_str(selected_model),
                            opt_str(selected_effort),
                            opt_str(default_model),
                            default_label@,
                        ));
                    }
                },
                None => push_str(&mut r, default_label),
            }
            r
        },
    }
}


/// The value of a `key = value` line of the configuration: the text after
/// the first `=`, trimmed, stripped of surrounding double quotes, then of
/// single quotes, then trimmed again.
pub open spec fn config_value(t: Seq<char>, eq: int) -> Seq<char> {
    trim(trim_char(trim_char(trim(t.skip(eq + 1)), '"'), '\''))
}

/// Scans the first `n` lines of a configuration for the top-level string
/// `key`: blank lines and `#` comments are skipped, a `[table]` header ends
/// the top level, and the first non-empty value of `key` wins. The result
/// is whether the scan is still at the top level and what it found.
pub open spec fn config_scan(ls: Seq<Seq<char>>, key: Seq<char>, n: int) -> (bool, Option<
    Seq<char>,
>)
    decreases n,
{
    if n <= 0 {
        (true, None)
    } else {
        let prev = config_scan(ls, key, n - 1);
        let t = trim(ls[n - 1]);
        if prev.1 is Some {
            prev
        } else if t.len() == 0 || t[0] == '#' {
            prev
        } else if t[0] == '[' {
            (false, None)
        } else if !prev.0 {
            prev
        } else {
            match find(t, seq!['=']) {
                None => prev,
                Some(eq) => if trim(t.take(eq)) == key && config_value(t, eq).len() > 0 {
                    (true, Some(config_value(t, eq)))
                } else {
                    prev
                },
            }
        }
    }
}

/// A quoted value reads as the text between its quotes, whether they are
/// double quotes or the single quotes of a TOML literal string, and
/// whatever white space stands around them: for a value `v` that neither
/// starts nor ends with white space or a quote, a line whose text after its
/// `=` is `v` in quotes reads as `v`.
pub proof fn law_config_value_unquoted(
    t: Seq<char>,
    eq: int,
    p: Seq<char>,
    quote: char,
    v: Seq<char>,
    q: Seq<char>,
)
    requires
        0 <= eq < t.len(),
        t.skip(eq + 1) == p + seq![quote] + v + seq![quote] + q,
        quote == '"' || quote == '\'',
        forall|i: int| 0 <= i < p.len() ==> is_ws(#[trigger] p[i]),
        forall|i: int| 0 <= i < q.len() ==> is_ws(#[trigger] q[i]),
        v.len() > 0,
        !is_ws(v[0]),
        !is_ws(v.last()),
        v[0] != '"' && v[0] != '\'',
        v.last() != '"' && v.last() != '\'',
    ensures
        config_value(t, eq) == v,
{
    let x = seq![quote] + v + seq![quote];
    assert(t.skip(eq + 1) =~= p + x + q);
    assert(x[0] == quote && x.last() == quote);
    crate::text::lemma_trim_ws_around(p, x, q);
    let e: Seq<char> = Seq::empty();
    assert(e + v + e =~= v);
    crate::text::lemma_trim_ws_around(e, v, e);
    let inner = v + seq![quote];
    assert(x.drop_first() =~= inner);
    assert(inner.drop_last() =~= v);
    assert(inner[0] == v[0] && inner.last() == quote);
    let other = if quote == '"' { '\'' } else { '"' };
    assert(trim_char_start(v, quote) == v);
    assert(trim_char_end(v, quote) == v);
    assert(trim_char_start(inner, quote) == inner);
    assert(trim_char_start(x, quote) == inner);
    assert(trim_char_end(inner, quote) == v);
    assert(trim_char(x, quote) == v);
    assert(trim_char_start(x, other) == x);
    assert(trim_char_end(x, other) == x);
    assert(trim_char(x, other) == x);
    assert(trim_char_start(v, other) == v);
    assert(trim_char_end(v, other) == v);
    assert(trim_char(v, other) == v);
}

/// A configuration whose one line sets `key` to a quoted value `v`, in
/// double quotes or in the single quotes of a TOML literal string, reads
/// exactly `v` for that setting: the quotes are not part of it.
pub proof fn law_config_quoted_setting(key: Seq<char>, quote: char, v: Seq<char>)
    requires
        key.len() > 0,
        !is_ws(key[0]),
        key[0] != '#' && key[0] != '[',
        !is_ws(key.last()),
        forall|i: int| 0 <= i < key.len() ==> key[i] != '=' && key[i] != '\n',
        quote == '"' || quote == '\'',
        v.len() > 0,
        !is_ws(v[0]),
        !is_ws(v.last()),
        v[0] != '"' && v[0] != '\'',
        v.last() != '"' && v.last() != '\'',
        forall|i: int| 0 <= i < v.len() ==> v[i] != '\n',
    ensures
        config_string_spec(key + " = "@ + seq![quote] + v + seq![quote] + "\n"@, key) == Some(v),
{
    reveal_strlit(" = ");
    let line = key + " = "@ + seq![quote] + v + seq![quote];
    let n: int = key.len() as int;
    assert forall|i: int| 0 <= i < line.len() implies line[i] != '\n' by {
        if i < n {
        } else if i < n + 3 {
        } else if i == n + 3 || i == line.len() - 1 {
        } else {
            assert(line[i] == v[i - n - 4]);
        }
    }
    lemma_one_line_contents(line);
    let e: Seq<char> = Seq::empty();
    assert(e + line + e =~= line);
    crate::text::lemma_trim_ws_around(e, line, e);
    let t = trim(line);
    assert(t == line);
    let eq = n + 1;
    assert forall|k: int| 0 <= k <= n implies t[k] != '=' by {
        if k < n {
            assert(t[k] == key[k]);
        }
    }
    lemma_find_first_char(t, '=', eq);
    assert(t.take(eq) =~= e + key + seq![' ']);
    crate::text::lemma_trim_ws_around(e, key, seq![' ']);
    assert(t.skip(eq + 1) =~= seq![' '] + seq![quote] + v + seq![quote] + e);
    law_config_value_unquoted(t, eq, seq![' '], quote, v, e);
    let ls = lines(line + "\n"@);
    assert(config_scan(ls, key, 0) == (true, None::<Seq<char>>));
    assert(config_scan(ls, key, 1) == (true, Some(v)));
}

/// One line without a line break, ended by one, is the only line of the
/// text.
proof fn lemma_one_line_contents(line: Seq<char>)
    requires
        line.len() > 0,
        line.last() != '\r',
        forall|i: int| 0 <= i < line.len() ==> line[i] != '\n',
    ensures
        lines(line + "\n"@) == seq![line],
{
    reveal_strlit("\n");
    let contents = line + "\n"@;
    crate::text::lemma_split_on_without_sep(line, '\n');
    assert(contents.drop_last() =~= line);
    assert(crate::text::split_on(contents, '\n') =~= seq![line, Seq::<char>::empty()]);
    assert(lines(contents) =~= seq![line]);
}

/// `find` of a one-character pattern gives the first place of that
/// character.
proof fn lemma_find_first_char(t: Seq<char>, c: char, j: int)
    requires
        0 <= j < t.len(),
        t[j] == c,
        forall|k: int| 0 <= k < j ==> t[k] != c,
    ensures
        find(t, seq![c]) == Some(j),
{
    assert(crate::text::occurs_at(t, seq![c], j)) by {
        assert(t.subrange(j, j + 1) =~= seq![c]);
    }
    assert forall|k: int| 0 <= k < j implies !crate::text::occurs_at(t, seq![c], k) by {
        assert(t.subrange(k, k + 1)[0] == t[k]);
    }
    crate::text::lemma_find_from_first(t, seq![c], 0, j);
}

/// The top-level string setting `key` of a configuration file's contents.
pub open spec fn config_string_spec(contents: Seq<char>, key: Seq<char>) -> Option<Seq<char>> {
    config_scan(lines(contents), key, lines(contents).len() as int).1
}

/// Reads the top-level string setting `wanted_key` from the contents of the
/// Codex configuration file (see `config_scan`).
pub fn parse_codex_top_level_string(contents: &str, wanted_key: &str) -> (r: Option<String>)
    ensures
        opt_view(r) == config_string_spec(contents@, wanted_key@),
{
    let v = chars_of(contents);
    let key = chars_of(wanted_key);
    let eq_sign = chars_of("=");
    proof {
        reveal_strlit("=");
    }
    assert(eq_sign@ =~= seq!['=']);
    let ranges = line_ranges(&v, 0, v.len());
    assert(v@.subrange(0, v@.len() as int) =~= v@);
    let ghost ls = lines(v@);
    let mut at_top_level = true;
    let mut k: usize = 0;
    while k < ranges.len()
        invariant
            0 <= k <= ranges@.len(),
            ranges_within(ranges@, 0, v@.len() as int),
            range_texts(v@, ranges@) == ls,
            ls == lines(contents@),
            v@ == contents@,
            key@ == wanted_key@,
            eq_sign@ == seq!['='],
            config_scan(ls, key@, k as int) == (at_top_level, None::<Seq<char>>),
        decreases ranges@.len() - k,
    {
        let (l0, l1) = ranges[k];
        assert(0 <= ranges@[k as int].0 <= ranges@[k as int].1 <= v@.len());
        assert(ls[k as int] == v@.subrange(l0 as int, l1 as int));
        let (a, b) = trim_range(&v, l0, l1);
        let ghost t = v@.subrange(a as int, b as int);
        if a == b || v[a] == '#' {
            assert(t.len() == 0 || t[0] == '#');
        } else if v[a] == '[' {
            assert(t[0] == '[');
            at_top_level = false;
        } else if !at_top_level {
        } else {
            match find_in_range(&v, a, b, &eq_sign) {
                None => {},
                Some(eq) => {
                    proof {
                        lemma_find_from_found(t, seq!['='], 0);
                    }
                    let (k0, k1) = trim_range(&v, a, a + eq);
                    assert(t.take(eq as int) =~= v@.subrange(a as int, a + eq));
                    let start = a + eq + 1;
                    assert(t.skip(eq + 1) =~= v@.subrange(start as int, b as int));
                    let (c0, c1) = trim_range(&v, start, b);
                    let (d0, d1) = trim_char_range(&v, c0, c1, '"');
                    let (e0, e1) = trim_char_range(&v, d0, d1, '\'');
                    let (f0, f1) = trim_range(&v, e0, e1);
                    if range_equals(&v, k0, k1, &key) && f0 < f1 {
                        let found = string_of_range(&v, f0, f1);
                        assert(config_scan(ls, key@, k + 1).1 == Some(found@));
                        proof {
                            lemma_config_scan_keeps(ls, key@, k + 1, ls.len() as int);
                        }
                        return Some(found);
                    }
                },
            }
        }
        k += 1;
    }
    None
}

/// Once a value is found, later lines do not change it.
pub proof fn lemma_config_scan_keeps(ls: Seq<Seq<char>>, key: Seq<char>, n: int, m: int)
    requires
        n <= m,
        config_scan(ls, key, n).1 is Some,
    ensures
        config_scan(ls, key, m) == config_scan(ls, key, n),
    decreases m - n,
{
    if m > n {
        lemma_config_scan_keeps(ls, key, n, m - 1);
    }
}

/// The configured model (`model`).
pub fn parse_codex_model_from_config(contents: &str) -> (r: Option<String>)
    ensures
        opt_view(r) == config_string_spec(contents@, "model"@),
{
    parse_codex_top_level_string(contents, "model")
}

/// The configured reasoning effort (`model_reasoning_effort`).
pub fn parse_codex_reasoning_effort_from_config(contents: &str) -> (r: Option<String>)
    ensures
        opt_view(r) == config_string_spec(contents@, "model_reasoning_effort"@),
{
    parse_codex_top_level_string(contents, "model_reasoning_effort")
}

} // verus!
