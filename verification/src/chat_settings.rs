//! The model settings of an agent's chat: the model and reasoning effort it
//! uses, the label shown for them, and how `/model` commands and loaded
//! threads change them.
use vstd::prelude::*;
use crate::chat::{
    config_string_spec, format_chat_model_label, model_label_spec, opt_str, opt_view,
    parse_codex_top_level_string, resolve_chat_model_label, resolve_label_spec,
};
use crate::codex::ModelInfo;
use crate::text::push_str;

verus! {

/// The model settings configured for Codex, which new chats start with.
#[derive(Debug, Clone)]
pub struct ChatDefaults {
    pub model: Option<String>,
    pub reasoning_effort: Option<String>,
    pub label: String,
}

/// The model settings of an agent's chat. `explicit` says that the user
/// chose them with `/model`, so that a loaded thread does not replace them.
#[derive(Debug, Clone)]
pub struct ChatSettings {
    pub model: Option<String>,
    pub reasoning_effort: Option<String>,
    pub label: String,
    pub explicit: bool,
}

/// The label of settings: see `resolve_label_spec`.
pub open spec fn settings_label(model: Option<Seq<char>>, effort: Option<Seq<char>>, defaults: ChatDefaults) -> Seq<
    char,
> {
    resolve_label_spec(model, effort, opt_view(defaults.model), defaults.label@)
}

/// The message that reports a model change.
pub open spec fn model_set_message(label: Seq<char>) -> Seq<char> {
    "Model set to `"@ + label + "`."@
}

fn clone_opt(o: &Option<String>) -> (r: Option<String>)
    ensures
        opt_view(r) == opt_view(*o),
{
    match o {
        Some(s) => Some(s.clone()),
        None => None,
    }
}

fn as_str_opt(o: &Option<String>) -> (r: Option<&str>)
    ensures
        opt_str(r) == opt_view(*o),
{
    match o {
        Some(s) => Some(s.as_str()),
        None => None,
    }
}

fn set_message(label: &String) -> (r: String)
    ensures
        r@ == model_set_message(label@),
{
    let mut r = String::new();
    push_str(&mut r, "Model set to `");
    push_str(&mut r, label.as_str());
    push_str(&mut r, "`.");
    r
}

impl ChatSettings {
    /// The settings a new chat starts with: the defaults, not chosen by the
    /// user.
    pub fn new(defaults: &ChatDefaults) -> (r: ChatSettings)
        ensures
            opt_view(r.model) == opt_view(defaults.model),
            opt_view(r.reasoning_effort) == opt_view(defaults.reasoning_effort),
            r.label@ == defaults.label@,
            !r.explicit,
    {
        ChatSettings {
            model: clone_opt(&defaults.model),
            reasoning_effort: clone_opt(&defaults.reasoning_effort),
            label: defaults.label.clone(),
            explicit: false,
        }
    }

    /// `/model default`: back to the defaults; returns the message that
    /// reports it.
    pub fn reset_to_default(&mut self, defaults: &ChatDefaults) -> (message: String)
        ensures
            opt_view(final(self).model) == opt_view(defaults.model),
            opt_view(final(self).reasoning_effort) == opt_view(defaults.reasoning_effort),
            final(self).label@ == defaults.label@,
            !final(self).explicit,
            message@ == model_set_message(defaults.label@),
    {
        self.model = clone_opt(&defaults.model);
        self.reasoning_effort = clone_opt(&defaults.reasoning_effort);
        self.label = defaults.label.clone();
        self.explicit = false;
        set_message(&self.label)
    }

    /// `/model [model] [effort]`: the given model and effort replace the
    /// current ones (each only when given), the settings count as chosen,
    /// and the label follows; returns the message that reports it.
    pub fn change(&mut self, model: Option<String>, effort: Option<String>, defaults: &ChatDefaults) -> (message:
        String)
        ensures
            opt_view(final(self).model) == (if model is Some {
                opt_view(model)
            } else {
                opt_view(old(self).model)
            }),
            opt_view(final(self).reasoning_effort) == (if effort is Some {
                opt_view(effort)
            } else {
                opt_view(old(self).reasoning_effort)
            }),
            final(self).explicit,
            final(self).label@ == settings_label(
                opt_view(final(self).model),
                opt_view(final(self).reasoning_effort),
                *defaults,
            ),
            message@ == model_set_message(final(self).label@),
    {
        if model.is_some() {
            self.model = model;
        }
        if effort.is_some() {
            self.reasoning_effort = effort;
        }
        self.explicit = true;
        self.label = resolve_chat_model_label(
            as_str_opt(&self.model),
            as_str_opt(&self.reasoning_effort),
            as_str_opt(&defaults.model),
            defaults.label.as_str(),
        );
        set_message(&self.label)
    }

    /// A thread was started or resumed with this model and effort: unless
    /// the user chose the settings, they become the thread's; the label
    /// follows.
    pub fn thread_ready(&mut self, thread_model: Option<String>, thread_effort: Option<String>, defaults: &ChatDefaults)
        ensures
            final(self).explicit == old(self).explicit,
            old(self).explicit ==> opt_view(final(self).model) == opt_view(old(self).model)
                && opt_view(final(self).reasoning_effort) == opt_view(old(self).reasoning_effort),
            !old(self).explicit ==> opt_view(final(self).model) == opt_view(thread_model)
                && opt_view(final(self).reasoning_effort) == opt_view(thread_effort),
            final(self).label@ == settings_label(
                opt_view(final(self).model),
                opt_view(final(self).reasoning_effort),
                *defaults,
            ),
            old(self).explicit && old(self).label@ == settings_label(
                opt_view(old(self).model),
                opt_view(old(self).reasoning_effort),
                *defaults,
            ) ==> final(self).label@ == old(self).label@,
    {
        if !self.explicit {
            self.model = thread_model;
            self.reasoning_effort = thread_effort;
        }
        self.label = resolve_chat_model_label(
            as_str_opt(&self.model),
            as_str_opt(&self.reasoning_effort),
            as_str_opt(&defaults.model),
            defaults.label.as_str(),
        );
    }
}

/// One line of the model list: the model, its id when that differs, its
/// display name when that differs, and whether it is the default.
pub open spec fn model_list_line(m: ModelInfo) -> Seq<char> {
    "- `"@ + m.model@ + "`"@ + (if m.id@ != m.model@ {
        " ["@ + m.id@ + "]"@
    } else {
        Seq::empty()
    }) + (if m.display_name@ != m.model@ {
        " - "@ + m.display_name@
    } else {
        Seq::empty()
    }) + (if m.is_default {
        " (default)"@
    } else {
        Seq::empty()
    })
}

/// The lines of the model list, each after a line break.
pub open spec fn model_list_lines(models: Seq<ModelInfo>) -> Seq<char>
    decreases models.len(),
{
    if models.len() == 0 {
        Seq::empty()
    } else {
        model_list_lines(models.drop_last()) + "\n"@ + model_list_line(models.last())
    }
}

/// The help after the model list.
pub open spec fn model_list_help() -> Seq<char> {
    "\n\nUse `/model <id>` to switch models.\nUse `/model <id> <effort>` to switch model and effort together.\nUse `/model <effort>` to change only the effort.\nUse `/model default` to go back to the configured default."@
}

/// The message that answers `/model`: the current model, then the
/// available models and how to switch, or a note that there are none.
pub open spec fn model_list_message_spec(current_label: Seq<char>, models: Seq<ModelInfo>) -> Seq<char> {
    if models.len() == 0 {
        "Current model: `"@ + current_label + "`\n\nNo visible models were returned by the app server."@
    } else {
        "Current model: `"@ + current_label + "`\n\nAvailable models:"@ + model_list_lines(models)
            + model_list_help()
    }
}

fn push_model_line(r: &mut String, m: &ModelInfo)
    ensures
        final(r)@ == old(r)@ + model_list_line(*m),
{
    push_str(r, "- `");
    push_str(r, m.model.as_str());
    push_str(r, "`");
    let ghost head = r@;
    if !(m.id == m.model) {
        push_str(r, " [");
        push_str(r, m.id.as_str());
        push_str(r, "]");
    }
    let ghost with_id = r@;
    if !(m.display_name == m.model) {
        push_str(r, " - ");
        push_str(r, m.display_name.as_str());
    }
    let ghost with_name = r@;
    if m.is_default {
        push_str(r, " (default)");
    }
    assert(r@ =~= old(r)@ + model_list_line(*m));
}

/// The message that answers `/model` (see `model_list_message_spec`).
pub fn format_model_list_message(current_label: &str, models: &Vec<ModelInfo>) -> (r: String)
    ensures
        r@ == model_list_message_spec(current_label@, models@),
{
    let mut r = String::new();
    push_str(&mut r, "Current model: `");
    push_str(&mut r, current_label);
    if models.len() == 0 {
        push_str(&mut r, "`\n\nNo visible models were returned by the app server.");
        return r;
    }
    push_str(&mut r, "`\n\nAvailable models:");
    let ghost head = r@;
    let mut i: usize = 0;
    while i < models.len()
        invariant
            0 <= i <= models@.len(),
            r@ == head + model_list_lines(models@.take(i as int)),
        decreases models@.len() - i,
    {
        push_str(&mut r, "\n");
        push_model_line(&mut r, &models[i]);
        assert(models@.take(i + 1).drop_last() =~= models@.take(i as int));
        i += 1;
    }
    assert(models@.take(i as int) =~= models@);
    push_str(
        &mut r,
        "\n\nUse `/model <id>` to switch models.\nUse `/model <id> <effort>` to switch model and effort together.\nUse `/model <effort>` to change only the effort.\nUse `/model default` to go back to the configured default.",
    );
    r
}

/// The defaults that the Codex configuration file gives: its top-level
/// `model` and, with it, its `model_reasoning_effort`, labelled as
/// `model · effort`; without a model (or without the file) no model, no
/// effort and the label `default`.
pub open spec fn defaults_spec(contents: Option<Seq<char>>) -> (Option<Seq<char>>, Option<Seq<char>>, Seq<char>) {
    match contents {
        None => (None, None, "default"@),
        Some(c) => match config_string_spec(c, "model"@) {
            None => (None, None, "default"@),
            Some(m) => {
                let e = config_string_spec(c, "model_reasoning_effort"@);
                (Some(m), e, model_label_spec(m, e))
            },
        },
    }
}

/// The chat defaults from the contents of the Codex configuration file, if
/// it could be read (see `defaults_spec`).
pub fn chat_defaults_from_config(contents: Option<&str>) -> (r: ChatDefaults)
    ensures
        (opt_view(r.model), opt_view(r.reasoning_effort), r.label@) == defaults_spec(opt_str(contents)),
{
    let none = ChatDefaults { model: None, reasoning_effort: None, label: "default".to_owned() };
    let c = match contents {
        Some(c) => c,
        None => return none,
    };
    let model = match parse_codex_top_level_string(c, "model") {
        Some(m) => m,
        None => return none,
    };
    let effort = parse_codex_top_level_string(c, "model_reasoning_effort");
    let label = format_chat_model_label(
        model.as_str(),
        match &effort {
            Some(e) => Some(e.as_str()),
            None => None,
        },
    );
    ChatDefaults { model: Some(model), reasoning_effort: effort, label }
}

} // verus!
