//! The model picker of the chat tab: a list of models, then, for a model
//! with reasoning efforts, a list of its efforts. Keys move the selection,
//! Enter applies and Esc steps back.
use vstd::prelude::*;
use crate::chat::opt_view;
use crate::codex::{ModelInfo, ModelReasoningEffort};
use crate::labels::{effort_label, effort_label_of, model_label, model_label_of};

verus! {

/// Which list the picker shows.
#[derive(Debug, Clone, Copy, PartialEq, Eq, Structural)]
pub enum ModelPickerView {
    Models,
    Efforts { model_index: usize, selected: usize },
}

/// An open model picker for one agent.
#[derive(Debug)]
pub struct ModelPickerState {
    pub agent_index: usize,
    pub models: Vec<ModelInfo>,
    pub selected: usize,
    pub view: ModelPickerView,
}

/// The keys the picker reacts to; every other key is `Other`.
#[derive(Debug, Clone, Copy, PartialEq, Eq, Structural)]
pub enum PickerKey {
    Up,
    Down,
    Enter,
    Esc,
    Other,
}

/// What a key did to the picker.
#[derive(Debug, PartialEq, Eq)]
pub enum ModelPickerAction {
    /// No picker is open: the key goes on to the rest of the application.
    NotOpen,
    /// The picker took the key.
    Handled,
    /// The user chose a model (and an effort) for an agent.
    Apply { agent_index: usize, model: String, effort: Option<String> },
}

/// The status line that a key of the picker asks for.
#[derive(Debug, Clone, Copy, PartialEq, Eq, Structural)]
pub enum PickerNotice {
    Unchanged,
    /// The picker was closed without a choice.
    Canceled,
    /// The effort list was opened.
    SelectEffort,
    /// The effort list was left for the model list.
    SelectModel,
}

impl PickerNotice {
    /// The application's status message for this notice, if it sets one.
    pub fn status_message(self) -> (r: Option<String>)
        ensures
            opt_view(r) == (match self {
                PickerNotice::Unchanged => None,
                PickerNotice::Canceled => Some("Model selection canceled"@),
                PickerNotice::SelectEffort => Some(
                    "Use Up/Down to select an effort, Enter to apply, or Esc to return"@,
                ),
                PickerNotice::SelectModel => Some("Select a model"@),
            }),
    {
        match self {
            PickerNotice::Unchanged => None,
            PickerNotice::Canceled => Some("Model selection canceled".to_owned()),
            PickerNotice::SelectEffort => Some(
                "Use Up/Down to select an effort, Enter to apply, or Esc to return".to_owned(),
            ),
            PickerNotice::SelectModel => Some("Select a model".to_owned()),
        }
    }

    /// The agent's status for this notice, if it sets one.
    pub fn agent_status(self) -> (r: Option<String>)
        ensures
            opt_view(r) == (match self {
                PickerNotice::SelectEffort => Some("Select an effort"@),
                PickerNotice::SelectModel => Some("Select a model"@),
                _ => None,
            }),
    {
        match self {
            PickerNotice::SelectEffort => Some("Select an effort".to_owned()),
            PickerNotice::SelectModel => Some("Select a model".to_owned()),
            _ => None,
        }
    }
}

/// The efforts a model supports.
pub open spec fn efforts_of(m: ModelInfo) -> Seq<ModelReasoningEffort> {
    m.supported_reasoning_efforts@
}

/// `i` is the first position of `efforts` whose name is `name`.
pub open spec fn is_first_effort(efforts: Seq<ModelReasoningEffort>, name: Seq<char>, i: int) -> bool {
    &&& 0 <= i < efforts.len()
    &&& efforts[i].reasoning_effort@ == name
    &&& forall|j: int| 0 <= j < i ==> efforts[j].reasoning_effort@ != name
}

/// Some effort of `efforts` is named `name`.
pub open spec fn has_effort(efforts: Seq<ModelReasoningEffort>, name: Seq<char>) -> bool {
    exists|i: int| 0 <= i < efforts.len() && efforts[i].reasoning_effort@ == name
}

/// The effort selected when the effort list of `m` opens: the agent's
/// current effort if the model has it, else the model's default effort if
/// it has that, else the first.
pub open spec fn initial_effort_index(m: ModelInfo, current: Option<Seq<char>>, i: int) -> bool {
    let efforts = efforts_of(m);
    if current is Some && has_effort(efforts, current->0) {
        is_first_effort(efforts, current->0, i)
    } else if m.default_reasoning_effort is Some && has_effort(
        efforts,
        m.default_reasoning_effort->0@,
    ) {
        is_first_effort(efforts, m.default_reasoning_effort->0@, i)
    } else {
        i == 0
    }
}

/// The models whose id or model name is `name`.
pub open spec fn names_model(m: ModelInfo, name: Seq<char>) -> bool {
    m.id@ == name || m.model@ == name
}

/// The model selected when the picker opens: the first model named as the
/// agent's current model, else the first default model, else the first.
pub open spec fn initial_model_index(models: Seq<ModelInfo>, current: Option<Seq<char>>, i: int) -> bool {
    let named = exists|k: int| 0 <= k < models.len() && #[trigger] names_model(models[k], current->0);
    let default = exists|k: int| 0 <= k < models.len() && #[trigger] models[k].is_default;
    if current is Some && named {
        &&& 0 <= i < models.len()
        &&& names_model(models[i], current->0)
        &&& forall|j: int| 0 <= j < i ==> !names_model(#[trigger] models[j], current->0)
    } else if default {
        &&& 0 <= i < models.len()
        &&& models[i].is_default
        &&& forall|j: int| 0 <= j < i ==> !(#[trigger] models[j]).is_default
    } else {
        i == 0
    }
}

impl ModelPickerState {
    /// The view points into the model and effort lists.
    pub open spec fn wf(&self) -> bool {
        match self.view {
            ModelPickerView::Models => true,
            ModelPickerView::Efforts { model_index, selected } => {
                &&& model_index < self.models@.len()
                &&& selected < efforts_of(self.models@[model_index as int]).len()
            },
        }
    }
}

/// The option string view of an optional string.
pub open spec fn opt_string(o: Option<&String>) -> Option<Seq<char>> {
    match o {
        Some(s) => Some(s@),
        None => None,
    }
}

/// The first position of an effort named `name`, if there is one.
pub fn effort_position(efforts: &Vec<ModelReasoningEffort>, name: &String) -> (r: Option<usize>)
    ensures
        match r {
            Some(i) => is_first_effort(efforts@, name@, i as int),
            None => !has_effort(efforts@, name@),
        },
{
    let mut i: usize = 0;
    while i < efforts.len()
        invariant
            0 <= i <= efforts@.len(),
            forall|j: int| 0 <= j < i ==> efforts@[j].reasoning_effort@ != name@,
        decreases efforts@.len() - i,
    {
        if efforts[i].reasoning_effort == *name {
            return Some(i);
        }
        i += 1;
    }
    None
}

/// The effort selected when the effort list of `model` opens.
pub fn initial_effort_selection(model: &ModelInfo, current_effort: Option<&String>) -> (r: usize)
    ensures
        initial_effort_index(*model, opt_string(current_effort), r as int),
{
    let efforts = &model.supported_reasoning_efforts;
    if let Some(current) = current_effort {
        if let Some(i) = effort_position(efforts, current) {
            return i;
        }
    }
    if let Some(default) = &model.default_reasoning_effort {
        if let Some(i) = effort_position(efforts, default) {
            return i;
        }
    }
    0
}

/// The model selected when the picker opens on `models`.
pub fn initial_model_selection(models: &Vec<ModelInfo>, current_model: Option<&String>) -> (r: usize)
    ensures
        initial_model_index(models@, opt_string(current_model), r as int),
{
    if let Some(current) = current_model {
        let mut i: usize = 0;
        while i < models.len()
            invariant
                0 <= i <= models@.len(),
                current_model == Some(current),
                forall|j: int| 0 <= j < i ==> !names_model(#[trigger] models@[j], current@),
            decreases models@.len() - i,
        {
            if models[i].id == *current || models[i].model == *current {
                assert(names_model(models@[i as int], current@));
                return i;
            }
            i += 1;
        }
    }
    let mut i: usize = 0;
    while i < models.len()
        invariant
            0 <= i <= models@.len(),
            forall|j: int| 0 <= j < i ==> !(#[trigger] models@[j]).is_default,
            current_model is Some ==> forall|j: int|
                0 <= j < models@.len() ==> !names_model(#[trigger] models@[j], current_model->0@),
        decreases models@.len() - i,
    {
        if models[i].is_default {
            return i;
        }
        i += 1;
    }
    0
}

/// The picker that a loaded model list opens for an agent, with the
/// agent's current model selected; none when the list is empty.
pub fn open_model_picker(agent_index: usize, models: Vec<ModelInfo>, current_model: Option<&String>) -> (r:
    Option<ModelPickerState>)
    ensures
        models@.len() == 0 <==> r is None,
        r matches Some(p) ==> {
            &&& p.agent_index == agent_index
            &&& p.models@ == models@
            &&& initial_model_index(models@, opt_string(current_model), p.selected as int)
            &&& p.view == ModelPickerView::Models
            &&& p.wf()
        },
{
    if models.len() == 0 {
        return None;
    }
    let selected = initial_model_selection(&models, current_model);
    Some(ModelPickerState { agent_index, models, selected, view: ModelPickerView::Models })
}

/// `i - 1`, or 0.
pub open spec fn step_up(i: int) -> int {
    if i > 0 { i - 1 } else { 0 }
}

/// `i + 1`, but at most the last position of a list of length `len`.
pub open spec fn step_down(i: int, len: int) -> int {
    let last = if len > 0 { len - 1 } else { 0 };
    if i + 1 < last { i + 1 } else { last }
}

fn move_up(i: usize) -> (r: usize)
    ensures
        r == step_up(i as int),
{
    if i > 0 { i - 1 } else { 0 }
}

fn move_down(i: usize, len: usize) -> (r: usize)
    ensures
        r == step_down(i as int, len as int),
{
    let last = if len > 0 { len - 1 } else { 0 };
    if i < last { i + 1 } else { last }
}

/// The picker after a key that keeps it open: the same agent and models,
/// with the given selection and view.
pub open spec fn kept(p: ModelPickerState, next: Option<ModelPickerState>, selected: int, view: ModelPickerView) -> bool {
    match next {
        Some(q) => {
            &&& q.agent_index == p.agent_index
            &&& q.models == p.models
            &&& q.selected == selected
            &&& q.view == view
        },
        None => false,
    }
}

/// The picker took the key and asks for `n`.
pub open spec fn handled(action: ModelPickerAction, notice: PickerNotice, n: PickerNotice) -> bool {
    action == ModelPickerAction::Handled && notice == n
}

/// The picker closed and applies `model` with an effort named `effort`.
pub open spec fn applied(
    p: ModelPickerState,
    next: Option<ModelPickerState>,
    action: ModelPickerAction,
    notice: PickerNotice,
    model: Seq<char>,
    effort: Option<Seq<char>>,
) -> bool {
    &&& next is None
    &&& notice == PickerNotice::Unchanged
    &&& match action {
        ModelPickerAction::Apply { agent_index, model: m, effort: e } => {
            &&& agent_index == p.agent_index
            &&& m@ == model
            &&& opt_view(e) == effort
        },
        _ => false,
    }
}

/// What a key does to an open picker: the picker afterwards (none when it
/// closed), what the key did, and the status it asks for.
pub open spec fn picker_step(
    p: ModelPickerState,
    key: PickerKey,
    current_effort: Option<Seq<char>>,
    next: Option<ModelPickerState>,
    action: ModelPickerAction,
    notice: PickerNotice,
) -> bool {
    let unchanged = handled(action, notice, PickerNotice::Unchanged);
    match p.view {
        ModelPickerView::Models => match key {
            PickerKey::Up => unchanged && kept(p, next, step_up(p.selected as int), p.view),
            PickerKey::Down => unchanged && kept(
                p,
                next,
                step_down(p.selected as int, p.models@.len() as int),
                p.view,
            ),
            PickerKey::Esc => handled(action, notice, PickerNotice::Canceled) && next is None,
            PickerKey::Enter => if p.selected >= p.models@.len() {
                unchanged && next == Some(p)
            } else {
                let m = p.models@[p.selected as int];
                if efforts_of(m).len() == 0 {
                    applied(p, next, action, notice, m.id@, opt_view(m.default_reasoning_effort))
                } else {
                    &&& handled(action, notice, PickerNotice::SelectEffort)
                    &&& exists|i: int|
                        #[trigger] initial_effort_index(m, current_effort, i) && kept(
                            p,
                            next,
                            p.selected as int,
                            ModelPickerView::Efforts { model_index: p.selected, selected: i as usize },
                        )
                }
            },
            PickerKey::Other => unchanged && next == Some(p),
        },
        ModelPickerView::Efforts { model_index, selected } => {
            let m = p.models@[model_index as int];
            let efforts = efforts_of(m);
            match key {
                PickerKey::Up => unchanged && kept(
                    p,
                    next,
                    p.selected as int,
                    ModelPickerView::Efforts { model_index, selected: step_up(selected as int) as usize },
                ),
                PickerKey::Down => unchanged && kept(
                    p,
                    next,
                    p.selected as int,
                    ModelPickerView::Efforts {
                        model_index,
                        selected: step_down(selected as int, efforts.len() as int) as usize,
                    },
                ),
                PickerKey::Esc => handled(action, notice, PickerNotice::SelectModel) && kept(
                    p,
                    next,
                    p.selected as int,
                    ModelPickerView::Models,
                ),
                PickerKey::Enter => applied(
                    p,
                    next,
                    action,
                    notice,
                    m.id@,
                    Some(efforts[selected as int].reasoning_effort@),
                ),
                PickerKey::Other => unchanged && next == Some(p),
            }
        },
    }
}

/// The choice an `Apply` makes is one the picker listed: a listed model,
/// with one of its efforts, or with its default when it lists none.
pub open spec fn applies_listed_choice(p: ModelPickerState, action: ModelPickerAction) -> bool {
    match action {
        ModelPickerAction::Apply { agent_index, model, effort } => {
            &&& agent_index == p.agent_index
            &&& exists|i: int|
                #![trigger p.models@[i]]
                {
                    &&& 0 <= i < p.models@.len()
                    &&& model@ == p.models@[i].id@
                    &&& if efforts_of(p.models@[i]).len() == 0 {
                        opt_view(effort) == opt_view(p.models@[i].default_reasoning_effort)
                    } else {
                        match effort {
                            Some(e) => has_effort(efforts_of(p.models@[i]), e@),
                            None => false,
                        }
                    }
                }
        },
        _ => true,
    }
}

fn clone_opt(o: &Option<String>) -> (r: Option<String>)
    ensures
        opt_view(r) == opt_view(*o),
{
    match o {
        Some(s) => Some(s.clone()),
        None => None,
    }
}

/// Handles one key of an open picker (see `picker_step`). The picker stays
/// well formed, and an applied choice is one the picker listed.
pub fn model_picker_step(picker: ModelPickerState, key: PickerKey, current_effort: Option<&String>) -> (r: (
    Option<ModelPickerState>,
    ModelPickerAction,
    PickerNotice,
))
    requires
        picker.wf(),
    ensures
        picker_step(picker, key, opt_string(current_effort), r.0, r.1, r.2),
        r.0 matches Some(q) ==> q.wf(),
        applies_listed_choice(picker, r.1),
        r.1 != ModelPickerAction::NotOpen,
{
    let mut picker = picker;
    let ghost p = picker;
    match picker.view {
        ModelPickerView::Models => match key {
            PickerKey::Up => {
                picker.selected = move_up(picker.selected);
                (Some(picker), ModelPickerAction::Handled, PickerNotice::Unchanged)
            },
            PickerKey::Down => {
                picker.selected = move_down(picker.selected, picker.models.len());
                (Some(picker), ModelPickerAction::Handled, PickerNotice::Unchanged)
            },
            PickerKey::Esc => (None, ModelPickerAction::Handled, PickerNotice::Canceled),
            PickerKey::Enter => {
                let model_index = picker.selected;
                if model_index >= picker.models.len() {
                    return (Some(picker), ModelPickerAction::Handled, PickerNotice::Unchanged);
                }
                let model = &picker.models[model_index];
                if model.supported_reasoning_efforts.len() == 0 {
                    let action = ModelPickerAction::Apply {
                        agent_index: picker.agent_index,
                        model: model.id.clone(),
                        effort: clone_opt(&model.default_reasoning_effort),
                    };
                    assert(p.models@[model_index as int] == *model);
                    (None, action, PickerNotice::Unchanged)
                } else {
                    let selected = initial_effort_selection(model, current_effort);
                    picker.view = ModelPickerView::Efforts { model_index, selected };
                    (Some(picker), ModelPickerAction::Handled, PickerNotice::SelectEffort)
                }
            },
            PickerKey::Other => (Some(picker), ModelPickerAction::Handled, PickerNotice::Unchanged),
        },
        ModelPickerView::Efforts { model_index, selected } => {
            let count = picker.models[model_index].supported_reasoning_efforts.len();
            match key {
                PickerKey::Up => {
                    picker.view = ModelPickerView::Efforts { model_index, selected: move_up(selected) };
                    (Some(picker), ModelPickerAction::Handled, PickerNotice::Unchanged)
                },
                PickerKey::Down => {
                    picker.view = ModelPickerView::Efforts {
                        model_index,
                        selected: move_down(selected, count),
                    };
                    (Some(picker), ModelPickerAction::Handled, PickerNotice::Unchanged)
                },
                PickerKey::Esc => {
                    picker.view = ModelPickerView::Models;
                    (Some(picker), ModelPickerAction::Handled, PickerNotice::SelectModel)
                },
                PickerKey::Enter => {
                    let model = &picker.models[model_index];
                    let effort = model.supported_reasoning_efforts[selected].reasoning_effort.clone();
                    let action = ModelPickerAction::Apply {
                        agent_index: picker.agent_index,
                        model: model.id.clone(),
                        effort: Some(effort),
                    };
                    assert(p.models@[model_index as int] == *model);
                    assert(efforts_of(*model)[selected as int].reasoning_effort@ == effort@);
                    (None, action, PickerNotice::Unchanged)
                },
                PickerKey::Other => (
                    Some(picker),
                    ModelPickerAction::Handled,
                    PickerNotice::Unchanged,
                ),
            }
        },
    }
}

/// What an open picker shows: its title, the selected row and the labels
/// of its rows.
#[derive(Debug)]
pub struct PickerDisplay {
    pub title: String,
    pub selected: usize,
    pub labels: Vec<String>,
}

/// The labels of the models of a picker.
fn model_labels(models: &Vec<ModelInfo>) -> (r: Vec<String>)
    ensures
        r@.len() == models@.len(),
        forall|k: int|
            0 <= k < r@.len() ==> (#[trigger] r@[k])@ == model_label_of(
                models@[k].model@,
                models@[k].display_name@,
                models@[k].id@,
            ),
{
    let mut r: Vec<String> = Vec::new();
    let mut k: usize = 0;
    while k < models.len()
        invariant
            0 <= k <= models@.len(),
            r@.len() == k,
            forall|j: int|
                0 <= j < k ==> (#[trigger] r@[j])@ == model_label_of(
                    models@[j].model@,
                    models@[j].display_name@,
                    models@[j].id@,
                ),
        decreases models@.len() - k,
    {
        r.push(model_label(&models[k]));
        k += 1;
    }
    r
}

/// The labels of the efforts of a model.
fn effort_labels(efforts: &Vec<ModelReasoningEffort>) -> (r: Vec<String>)
    ensures
        r@.len() == efforts@.len(),
        forall|k: int| 0 <= k < r@.len() ==> (#[trigger] r@[k])@ == effort_label_of(efforts@[k]),
{
    let mut r: Vec<String> = Vec::new();
    let mut k: usize = 0;
    while k < efforts.len()
        invariant
            0 <= k <= efforts@.len(),
            r@.len() == k,
            forall|j: int| 0 <= j < k ==> (#[trigger] r@[j])@ == effort_label_of(efforts@[j]),
        decreases efforts@.len() - k,
    {
        r.push(effort_label(&efforts[k]));
        k += 1;
    }
    r
}

impl ModelPickerState {
    /// What the picker shows; nothing when it has no models. The model list
    /// is titled `Select model` and its selection is kept inside the list;
    /// the effort list is titled `Select effort` and lists the efforts of
    /// its model.
    pub fn display(&self) -> (r: Option<PickerDisplay>)
        requires
            self.wf(),
        ensures
            r is None <==> self.models@.len() == 0,
            r matches Some(d) ==> match self.view {
                ModelPickerView::Models => {
                    &&& d.title@ == "Select model"@
                    &&& d.selected == (if self.selected < self.models@.len() {
                        self.selected as int
                    } else {
                        self.models@.len() - 1
                    })
                    &&& d.labels@.len() == self.models@.len()
                    &&& forall|k: int|
                        0 <= k < d.labels@.len() ==> (#[trigger] d.labels@[k])@ == model_label_of(
                            self.models@[k].model@,
                            self.models@[k].display_name@,
                            self.models@[k].id@,
                        )
                },
                ModelPickerView::Efforts { model_index, selected } => {
                    let efforts = efforts_of(self.models@[model_index as int]);
                    &&& d.title@ == "Select effort"@
                    &&& d.selected == selected
                    &&& d.labels@.len() == efforts.len()
                    &&& forall|k: int|
                        0 <= k < d.labels@.len() ==> (#[trigger] d.labels@[k])@ == effort_label_of(
                            efforts[k],
                        )
                },
            },
    {
        if self.models.len() == 0 {
            return None;
        }
        match self.view {
            ModelPickerView::Models => {
                let last = self.models.len() - 1;
                let selected = if self.selected < last {
                    self.selected
                } else {
                    last
                };
                Some(
                    PickerDisplay {
                        title: "Select model".to_owned(),
                        selected,
                        labels: model_labels(&self.models),
                    },
                )
            },
            ModelPickerView::Efforts { model_index, selected } => {
                let efforts = &self.models[model_index].supported_reasoning_efforts;
                Some(
                    PickerDisplay {
                        title: "Select effort".to_owned(),
                        selected,
                        labels: effort_labels(efforts),
                    },
                )
            },
        }
    }
}

} // verus!
