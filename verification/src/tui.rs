//! What a terminal interface shows and does, key by key.
use crate::api::{
    AdapterError, AdapterErrorModel, AppState, AppStateModel, ExecutionFailureModel, ToolCallModel,
    ToolResultModel,
};
use crate::copy::Dup;
use crate::feature::{
    Choice, ChoiceModel, Feature, FeatureModel, Parameter, ParameterKind, ParameterKindModel,
    ParameterModel,
};
use crate::json::{prettied, printed, Json, JsonModel};
use crate::kernel::{Decision, DecisionModel, Event, EventModel, Outcome, OutcomeModel, Status};
use crate::report::{
    available_names, batch_word, find_available_names, find_batch_word, lemma_shows, shows,
};
use crate::task_runtime::{TaskSnapshot, TaskSnapshotModel, TaskStatus};
use crate::text;
use crate::text::Text;
use vstd::prelude::*;

verus! {

/// How many lines of the log are kept.
pub const LOG_LINES: usize = 400;

/// What is shown.
#[derive(Debug, Clone, Copy, PartialEq, Eq, Structural)]
pub enum Screen {
    Adapters,
    Tasks,
    Configure,
    Running,
}

impl DeepView for Screen {
    type V = Screen;

    open spec fn deep_view(&self) -> Screen {
        *self
    }
}

impl Dup for Screen {
    fn dup(&self) -> (r: Self) {
        *self
    }
}

/// A key.
#[derive(Debug, Clone, Copy, PartialEq, Eq, Structural)]
pub enum Key {
    Up,
    Down,
    Left,
    Right,
    Enter,
    Esc,
    Tab,
    BackTab,
    Backspace,
    Char(char),
    Other,
}

/// What the host does for a key.
#[derive(Debug, Clone, Copy, PartialEq, Eq, Structural)]
pub enum Effect {
    Nothing,
    /// Leave the interface.
    Quit,
    /// Make the selected adapter.
    ChooseAdapter,
    /// Start the task.
    Start,
    Pause,
    Resume,
    Cancel,
}

/// A field to be filled in.
#[derive(Debug)]
pub struct Input {
    pub name: String,
    pub value: String,
    pub kind: ParameterKind,
}

#[verifier::ext_equal]
pub struct InputModel {
    pub name: Text,
    pub value: Text,
    pub kind: ParameterKindModel,
}

impl View for Input {
    type V = InputModel;

    open spec fn view(&self) -> InputModel {
        InputModel {
            name: self.name@,
            value: self.value@,
            kind: self.kind@,
        }
    }
}

impl DeepView for Input {
    type V = InputModel;

    open spec fn deep_view(&self) -> InputModel {
        self@
    }
}

impl Dup for Input {
    fn dup(&self) -> (r: Self) {
        Input {
            name: self.name.dup(),
            value: self.value.dup(),
            kind: self.kind.dup(),
        }
    }
}

/// The first choice, from an index on, that has a value.
pub open spec fn choice_index(choices: Seq<ChoiceModel>, value: Text, i: int) -> Option<int>
    decreases choices.len() - i,
{
    if i < 0 || i >= choices.len() {
        None
    } else if choices[i].value == value {
        Some(i)
    } else {
        choice_index(choices, value, i + 1)
    }
}

/// The choice beside the current one, round in a circle.
pub open spec fn beside(choices: Seq<ChoiceModel>, value: Text, forward: bool) -> Text {
    let current = match choice_index(choices, value, 0) {
        Some(i) => i,
        None => 0,
    };
    choices[if forward {
        (current + 1) % (choices.len() as int)
    } else {
        (current + choices.len() - 1) % (choices.len() as int)
    }].value
}

impl InputModel {
    /// Whether the value is chosen, not typed.
    pub open spec fn chosen(self) -> bool {
        self.kind is Boolean || self.kind is Enum
    }

    /// The value beside the current one.
    pub open spec fn cycled(self, forward: bool) -> Self {
        match self.kind {
            ParameterKindModel::Boolean => InputModel {
                value: if self.value == "true"@ {
                    "false"@
                } else {
                    "true"@
                },
                ..self
            },
            ParameterKindModel::Enum { choices } => if choices.len() > 0 {
                InputModel { value: beside(choices, self.value, forward), ..self }
            } else {
                self
            },
            _ => self,
        }
    }

    /// One character is taken away.
    pub open spec fn shortened(self) -> Self {
        if self.chosen() || self.value.len() == 0 {
            self
        } else {
            InputModel { value: self.value.drop_last(), ..self }
        }
    }

    /// One character is typed; a number takes digits and a sign.
    pub open spec fn typed(self, c: char) -> Self {
        if self.kind is String || (self.kind is Integer && (text::is_digit(c) || c == '-')) {
            InputModel { value: self.value.push(c), ..self }
        } else {
            self
        }
    }
}

fn find_choice(choices: &Vec<Choice>, value: &str) -> (r: Option<usize>)
    ensures
        match r {
            Some(i) => choice_index(choices.deep_view(), value@, 0) == Some(i as int) && i
                < choices@.len(),
            None => choice_index(choices.deep_view(), value@, 0) is None,
        },
{
    let ghost all = choices.deep_view();
    let mut i: usize = 0;
    while i < choices.len()
        invariant
            i <= choices@.len(),
            all == choices.deep_view(),
            choice_index(all, value@, 0) == choice_index(all, value@, i as int),
        decreases choices@.len() - i,
    {
        assert(all[i as int] == choices@[i as int]@);
        if text::same(choices[i].value.as_str(), value) {
            return Some(i);
        }
        i += 1;
    }
    None
}

impl Input {
    fn is_chosen(&self) -> (r: bool)
        ensures
            r == self@.chosen(),
    {
        match self.kind {
            ParameterKind::Boolean => true,
            ParameterKind::Enum { .. } => true,
            _ => false,
        }
    }

    /// Goes to the value beside the current one.
    pub fn cycle(&mut self, forward: bool)
        ensures
            final(self)@ == old(self)@.cycled(forward),
    {
        let next: String = match &self.kind {
            ParameterKind::Boolean => if text::same(self.value.as_str(), "true") {
                "false".to_owned()
            } else {
                "true".to_owned()
            },
            ParameterKind::Enum { choices } => {
                let count: usize = choices.len();
                if count == 0 {
                    return;
                }
                let current: usize = match find_choice(choices, self.value.as_str()) {
                    Some(i) => i,
                    None => 0,
                };
                let index: usize = if forward {
                    if current == count - 1 {
                        0
                    } else {
                        current + 1
                    }
                } else if current == 0 {
                    count - 1
                } else {
                    current - 1
                };
                proof {
                    let n = count as int;
                    let c = current as int;
                    assert(choices.deep_view().len() == n);
                    assert(choices.deep_view()[index as int] == choices@[index as int]@);
                    if forward {
                        assert(index == (c + 1) % n) by (nonlinear_arith)
                            requires
                                0 <= c < n,
                                index == (if c == n - 1 {
                                    0
                                } else {
                                    c + 1
                                }),
                        ;
                    } else {
                        assert(index == (c + n - 1) % n) by (nonlinear_arith)
                            requires
                                0 <= c < n,
                                index == (if c == 0 {
                                    n - 1
                                } else {
                                    c - 1
                                }),
                        ;
                    }
                }
                choices[index].value.dup()
            },
            _ => {
                return;
            },
        };
        self.value = next;
    }

    fn shorten(&mut self)
        ensures
            final(self)@ == old(self)@.shortened(),
    {
        if self.is_chosen() {
            return;
        }
        let count: usize = self.value.as_str().unicode_len();
        if count == 0 {
            return;
        }
        let shorter = self.value.as_str().substring_char(0, count - 1).to_owned();
        assert(shorter@ =~= self.value@.drop_last());
        self.value = shorter;
    }

    fn take(&mut self, c: char)
        ensures
            final(self)@ == old(self)@.typed(c),
    {
        let fits = match self.kind {
            ParameterKind::String => true,
            ParameterKind::Integer { .. } => ('0' <= c && c <= '9') || c == '-',
            _ => false,
        };
        if fits {
            self.value.push(c);
        }
    }
}

/// The text that a field begins with.
pub open spec fn initial(default: Option<JsonModel>) -> Text {
    match default {
        Some(JsonModel::Text(s)) => s,
        Some(value) => printed(value),
        None => Seq::empty(),
    }
}

fn find_initial(default: &Option<Json>) -> (r: String)
    ensures
        r@ == initial(default.deep_view()),
{
    match default {
        Some(Json::Text(s)) => s.dup(),
        Some(value) => value.to_text(),
        None => String::new(),
    }
}

/// The fields of parameters.
pub open spec fn fields(parameters: Seq<ParameterModel>) -> Seq<InputModel> {
    Seq::new(
        parameters.len(),
        |i: int|
            InputModel {
                name: parameters[i].name,
                value: initial(parameters[i].default),
                kind: parameters[i].kind,
            },
    )
}

fn make_fields(parameters: &Vec<Parameter>) -> (r: Vec<Input>)
    ensures
        r.deep_view() == fields(parameters.deep_view()),
{
    let ghost all = parameters.deep_view();
    let mut inputs: Vec<Input> = Vec::new();
    let mut i: usize = 0;
    while i < parameters.len()
        invariant
            i == inputs@.len(),
            i <= parameters@.len(),
            all == parameters.deep_view(),
            forall|j: int| 0 <= j < i ==> (#[trigger] inputs@[j])@ == fields(all)[j],
        decreases parameters@.len() - i,
    {
        assert(all[i as int] == parameters@[i as int]@);
        inputs.push(
            Input {
                name: parameters[i].name.dup(),
                value: find_initial(&parameters[i].default),
                kind: parameters[i].kind.dup(),
            },
        );
        i += 1;
    }
    assert(inputs.deep_view() =~= fields(all));
    inputs
}

/// The field of a free task.
pub open spec fn goal_field() -> InputModel {
    InputModel { name: "任务目标"@, value: Seq::empty(), kind: ParameterKindModel::String }
}

/// Arguments as they are typed: a name, an equals sign, a value.
pub open spec fn pairs(parameters: Seq<ParameterModel>, inputs: Seq<InputModel>) -> Seq<Text> {
    Seq::new(
        if parameters.len() < inputs.len() {
            parameters.len()
        } else {
            inputs.len()
        },
        |i: int| parameters[i].id + "="@ + inputs[i].value,
    )
}

fn make_pairs(parameters: &Vec<Parameter>, inputs: &Vec<Input>) -> (r: Vec<String>)
    ensures
        r.deep_view() == pairs(parameters.deep_view(), inputs.deep_view()),
{
    let ghost (p, q) = (parameters.deep_view(), inputs.deep_view());
    let mut out: Vec<String> = Vec::new();
    let mut i: usize = 0;
    while i < parameters.len() && i < inputs.len()
        invariant
            i == out@.len(),
            i <= parameters@.len(),
            i <= inputs@.len(),
            p == parameters.deep_view(),
            q == inputs.deep_view(),
            forall|j: int|
                0 <= j < i ==> (#[trigger] out@[j])@ == p[j].id + "="@ + q[j].value,
        decreases parameters@.len() - i,
    {
        assert(p[i as int] == parameters@[i as int]@);
        assert(q[i as int] == inputs@[i as int]@);
        out.push(text::cat3(parameters[i].id.as_str(), "=", inputs[i].value.as_str()));
        i += 1;
    }
    assert(out.deep_view() =~= pairs(p, q));
    out
}

/// What is to be started.
#[derive(Debug)]
pub enum Plan {
    /// A feature, without a decision provider.
    Feature { id: String, name: String, arguments: Json },
    /// A free task.
    Goal(String),
}

#[verifier::ext_equal]
pub enum PlanModel {
    Feature { id: Text, name: Text, arguments: JsonModel },
    Goal(Text),
}

impl View for Plan {
    type V = PlanModel;

    open spec fn view(&self) -> PlanModel {
        match self {
            Plan::Feature { id, name, arguments } => PlanModel::Feature { id: id@, name: name@, arguments: arguments@ },
            Plan::Goal(a) => PlanModel::Goal(a@),
        }
    }
}

impl DeepView for Plan {
    type V = PlanModel;

    open spec fn deep_view(&self) -> PlanModel {
        self@
    }
}

impl Dup for Plan {
    fn dup(&self) -> (r: Self) {
        match self {
            Plan::Feature { id, name, arguments } => Plan::Feature { id: id.dup(), name: name.dup(), arguments: arguments.dup() },
            Plan::Goal(a) => Plan::Goal(a.dup()),
        }
    }
}

/// The interface.
#[derive(Debug)]
pub struct App {
    pub adapters: Vec<String>,
    pub selected_adapter: usize,
    pub adapter_name: String,
    /// Whether there is an adapter to start a task with.
    pub instance: bool,
    pub features: Vec<Feature>,
    pub selected_task: usize,
    pub feature_index: Option<usize>,
    pub inputs: Vec<Input>,
    pub focused: usize,
    pub screen: Screen,
    pub state: Option<AppState>,
    pub logs: Vec<String>,
    pub log_scroll: usize,
    pub done: bool,
    pub notice: String,
}

#[verifier::ext_equal]
pub struct AppModel {
    pub adapters: Seq<Text>,
    pub selected_adapter: usize,
    pub adapter_name: Text,
    pub instance: bool,
    pub features: Seq<FeatureModel>,
    pub selected_task: usize,
    pub feature_index: Option<usize>,
    pub inputs: Seq<InputModel>,
    pub focused: usize,
    pub screen: Screen,
    pub state: Option<AppStateModel>,
    pub logs: Seq<Text>,
    pub log_scroll: usize,
    pub done: bool,
    pub notice: Text,
}

impl View for App {
    type V = AppModel;

    open spec fn view(&self) -> AppModel {
        AppModel {
            adapters: self.adapters.deep_view(),
            selected_adapter: self.selected_adapter,
            adapter_name: self.adapter_name@,
            instance: self.instance,
            features: self.features.deep_view(),
            selected_task: self.selected_task,
            feature_index: self.feature_index,
            inputs: self.inputs.deep_view(),
            focused: self.focused,
            screen: self.screen,
            state: self.state.deep_view(),
            logs: self.logs.deep_view(),
            log_scroll: self.log_scroll,
            done: self.done,
            notice: self.notice@,
        }
    }
}

/// The next of so many places, no further than the last.
pub open spec fn stepped(at: usize, last: int) -> usize {
    if at < last {
        (at + 1) as usize
    } else {
        last as usize
    }
}

fn step_down(at: usize, last: usize) -> (r: usize)
    ensures
        r == stepped(at, last as int),
{
    if at < last {
        at + 1
    } else {
        last
    }
}

/// The place before, no further than the first.
pub open spec fn stepped_back(at: usize) -> usize {
    if at > 0 {
        (at - 1) as usize
    } else {
        0
    }
}

fn step_up(at: usize) -> (r: usize)
    ensures
        r == stepped_back(at),
{
    if at > 0 {
        at - 1
    } else {
        0
    }
}

impl AppModel {
    /// What the focus is on exists: a field, or the button behind them.
    pub open spec fn wf(self) -> bool {
        &&& self.focused <= self.inputs.len()
        &&& self.selected_task <= self.features.len()
        &&& self.logs.len() <= LOG_LINES
    }

    /// The index of the last of so many.
    pub open spec fn last(count: nat) -> int {
        if count > 0 {
            count - 1
        } else {
            0
        }
    }

    /// One more line of the log.
    pub open spec fn logged(self, line: Text) -> Self {
        AppModel {
            logs: if self.logs.len() >= LOG_LINES {
                self.logs.skip(1).push(line)
            } else {
                self.logs.push(line)
            },
            ..self
        }
    }

    /// The fields of the selected task are shown.
    pub open spec fn task_chosen(self) -> Self {
        let index = if self.selected_task > 0 {
            Some((self.selected_task - 1) as usize)
        } else {
            None
        };
        AppModel {
            feature_index: index,
            inputs: match index {
                Some(i) => if i < self.features.len() {
                    fields(self.features[i as int].parameters)
                } else {
                    Seq::empty()
                },
                None => seq![goal_field()],
            },
            focused: 0,
            notice: Seq::empty(),
            screen: Screen::Configure,
            ..self
        }
    }

    /// The focus goes on to the next field or the button, round in a circle.
    pub open spec fn focused_next(self) -> Self {
        AppModel {
            focused: if self.focused == self.inputs.len() {
                0
            } else {
                (self.focused + 1) as usize
            },
            ..self
        }
    }

    /// The focus goes back to the field before or the button, round in a circle.
    pub open spec fn focused_before(self) -> Self {
        AppModel {
            focused: if self.focused == 0 {
                self.inputs.len() as usize
            } else {
                (self.focused - 1) as usize
            },
            ..self
        }
    }

    /// The field that the focus is on is changed.
    pub open spec fn with_field(self, input: InputModel) -> Self {
        AppModel { inputs: self.inputs.update(self.focused as int, input), ..self }
    }

    /// Whether the focus is on a field, and not on the button.
    pub open spec fn on_field(self) -> bool {
        self.focused < self.inputs.len()
    }

    /// The field that the focus is on.
    pub open spec fn field(self) -> InputModel {
        self.inputs[self.focused as int]
    }

    /// A key while adapters are shown.
    pub open spec fn adapters_key(self, key: Key) -> (Self, Effect) {
        match key {
            Key::Esc => (self, Effect::Quit),
            Key::Char(c) => (self, if c == 'q' {
                Effect::Quit
            } else {
                Effect::Nothing
            }),
            Key::Up => (
                AppModel { selected_adapter: stepped_back(self.selected_adapter), ..self },
                Effect::Nothing,
            ),
            Key::Down => (
                AppModel {
                    selected_adapter: stepped(
                        self.selected_adapter,
                        Self::last(self.adapters.len()),
                    ),
                    ..self
                },
                Effect::Nothing,
            ),
            Key::Enter => (self, Effect::ChooseAdapter),
            _ => (self, Effect::Nothing),
        }
    }

    /// A key while tasks are shown.
    pub open spec fn tasks_key(self, key: Key) -> Self {
        match key {
            Key::Esc => AppModel { screen: Screen::Adapters, ..self },
            Key::Up => AppModel { selected_task: stepped_back(self.selected_task), ..self },
            Key::Down => AppModel {
                selected_task: stepped(self.selected_task, self.features.len() as int),
                ..self
            },
            Key::Enter => self.task_chosen(),
            _ => self,
        }
    }

    /// A character while fields are shown.
    pub open spec fn character(self, c: char) -> Self {
        if !self.on_field() {
            self
        } else if c == ' ' && self.field().chosen() {
            self.with_field(self.field().cycled(true))
        } else {
            self.with_field(self.field().typed(c))
        }
    }

    /// A key while fields are shown.
    pub open spec fn configure_key(self, key: Key) -> (Self, Effect) {
        match key {
            Key::Esc => (AppModel { screen: Screen::Tasks, ..self }, Effect::Nothing),
            Key::Tab => (self.focused_next(), Effect::Nothing),
            Key::Down => (self.focused_next(), Effect::Nothing),
            Key::BackTab => (self.focused_before(), Effect::Nothing),
            Key::Up => (self.focused_before(), Effect::Nothing),
            Key::Enter => if self.focused == self.inputs.len() {
                (self, Effect::Start)
            } else {
                (self.focused_next(), Effect::Nothing)
            },
            Key::Left => (if self.on_field() && self.field().chosen() {
                self.with_field(self.field().cycled(false))
            } else {
                self
            }, Effect::Nothing),
            Key::Right => (if self.on_field() && self.field().chosen() {
                self.with_field(self.field().cycled(true))
            } else {
                self
            }, Effect::Nothing),
            Key::Backspace => (if self.on_field() {
                self.with_field(self.field().shortened())
            } else {
                self
            }, Effect::Nothing),
            Key::Char(c) => (self.character(c), Effect::Nothing),
            Key::Other => (self, Effect::Nothing),
        }
    }

    /// A key while a task runs.
    pub open spec fn running_key(self, key: Key) -> (Self, Effect) {
        match key {
            Key::Up => (
                AppModel {
                    log_scroll: stepped(self.log_scroll, Self::last(self.logs.len())),
                    ..self
                },
                Effect::Nothing,
            ),
            Key::Down => (
                AppModel { log_scroll: stepped_back(self.log_scroll), ..self },
                Effect::Nothing,
            ),
            Key::Esc => (self, if self.done {
                Effect::Quit
            } else {
                Effect::Nothing
            }),
            Key::Char(c) => (self, if !self.done && c == 'p' {
                Effect::Pause
            } else if !self.done && c == 'r' {
                Effect::Resume
            } else if !self.done && c == 'c' {
                Effect::Cancel
            } else if self.done && c == 'q' {
                Effect::Quit
            } else {
                Effect::Nothing
            }),
            _ => (self, Effect::Nothing),
        }
    }

    /// A key.
    pub open spec fn on_key(self, key: Key) -> (Self, Effect) {
        match self.screen {
            Screen::Adapters => self.adapters_key(key),
            Screen::Tasks => (self.tasks_key(key), Effect::Nothing),
            Screen::Configure => self.configure_key(key),
            Screen::Running => self.running_key(key),
        }
    }

    /// What is to be started, or why nothing can be.
    pub open spec fn plan(self, has_key: bool) -> Result<PlanModel, Text> {
        if !self.instance {
            Err("适配器实例不可用"@)
        } else {
            match self.feature_index {
                Some(i) => if i >= self.features.len() {
                    Err("未知功能"@)
                } else {
                    let feature = self.features[i as int];
                    match feature.parsing(pairs(feature.parameters, self.inputs)) {
                        Err(error) => Err(error.message()),
                        Ok(arguments) => Ok(
                            PlanModel::Feature {
                                id: feature.id,
                                name: feature.name,
                                arguments,
                            },
                        ),
                    }
                },
                None => {
                    let goal = if self.inputs.len() > 0 {
                        text::trimmed(self.inputs[0].value)
                    } else {
                        Seq::empty()
                    };
                    if goal.len() == 0 {
                        Err("请输入任务目标"@)
                    } else if !has_key {
                        Err("请先设置 JEVKEY"@)
                    } else {
                        Ok(PlanModel::Goal(goal))
                    }
                },
            }
        }
    }

    /// A task was started; the adapter is the task's now.
    pub open spec fn started(self, state: Option<AppStateModel>) -> Self {
        AppModel {
            instance: false,
            logs: seq!["适配器："@ + self.adapter_name],
            log_scroll: 0,
            state,
            done: false,
            notice: Seq::empty(),
            screen: Screen::Running,
            ..self
        }
    }
}

/// The first flaw of a feature, from an index on.
pub open spec fn features_flaw(features: Seq<FeatureModel>, i: int) -> Option<AdapterErrorModel>
    decreases features.len() - i,
{
    if i < 0 || i >= features.len() {
        None
    } else {
        match features[i].flaw_error() {
            Some(error) => Some(error),
            None => features_flaw(features, i + 1),
        }
    }
}

/// The word for a decision.
pub open spec fn decision_word(decision: DecisionModel) -> Text {
    match decision {
        DecisionModel::Execute { .. } => "执行"@,
        DecisionModel::ReplaceRemaining { .. } => "调整计划"@,
        DecisionModel::LoadSkills(_) => "加载 Skill"@,
        DecisionModel::Resume => "继续执行"@,
        DecisionModel::Completed(_) => "完成"@,
        DecisionModel::Failed(_) => "失败"@,
    }
}

fn find_decision_word(decision: &Decision) -> (r: &'static str)
    ensures
        r@ == decision_word(decision@),
{
    match decision {
        Decision::Execute { .. } => "执行",
        Decision::ReplaceRemaining { .. } => "调整计划",
        Decision::LoadSkills(_) => "加载 Skill",
        Decision::Resume => "继续执行",
        Decision::Completed(_) => "完成",
        Decision::Failed(_) => "失败",
    }
}

/// A call begins.
pub open spec fn started_line(index: usize, total: usize, call: ToolCallModel) -> Text {
    "动作 "@ + text::decimal((index + 1) as nat) + "/"@ + text::decimal(total as nat) + "："@ + call.name + " "@ + printed(call.arguments)
}

fn write_started_line(index: usize, total: usize, call: &crate::api::ToolCall) -> (r: String)
    requires
        index < usize::MAX,
    ensures
        r@ == started_line(index, total, call@),
{
    let mut line = text::cat2("动作 ", text::numeral((index + 1) as u64).as_str());
    line.append("/");
    line.append(text::numeral(total as u64).as_str());
    line.append("：");
    line.append(call.name.as_str());
    line.append(" ");
    line.append(call.arguments.to_text().as_str());
    line
}

/// A repetition goes on.
pub open spec fn progress_line(progress: crate::batch::BatchProgressModel) -> Text {
    "批次：完成 "@ + text::decimal(progress.completed as nat) + "，尝试 "@ + text::decimal(progress.attempts as nat) + "，状态 "@ + batch_word(progress.status)
}

fn write_progress_line(progress: &crate::batch::BatchProgress) -> (r: String)
    ensures
        r@ == progress_line(progress@),
{
    let mut line = text::cat2("批次：完成 ", text::numeral(progress.completed as u64).as_str());
    line.append("，尝试 ");
    line.append(text::numeral(progress.attempts as u64).as_str());
    line.append("，状态 ");
    line.append(find_batch_word(progress.status));
    line
}

/// What a task took.
pub open spec fn usage_line(outcome: OutcomeModel, seconds: Text) -> Text {
    "模型请求 "@ + text::decimal(outcome.summary.model_requests.total as nat) + " 次，动作调用 "@ + text::decimal(outcome.summary.actions.total as nat) + " 次，耗时 "@ + seconds + " 秒"@
}

fn write_usage_line(outcome: &Outcome, seconds: &str) -> (r: String)
    ensures
        r@ == usage_line(outcome@, seconds@),
{
    let mut line = text::cat2("模型请求 ", text::numeral(outcome.summary.model_requests.total as u64).as_str());
    line.append(" 次，动作调用 ");
    line.append(text::numeral(outcome.summary.actions.total as u64).as_str());
    line.append(" 次，耗时 ");
    line.append(seconds);
    line.append(" 秒");
    line
}

/// The word for the end of a task.
pub open spec fn status_word(status: Status) -> Text {
    match status {
        Status::Completed => "完成"@,
        Status::Cancelled => "取消"@,
        Status::Failed => "失败"@,
    }
}

fn find_status_word(status: Status) -> (r: &'static str)
    ensures
        r@ == status_word(status),
{
    match status {
        Status::Completed => "完成",
        Status::Cancelled => "取消",
        Status::Failed => "失败",
    }
}

/// The line of an event, where it has one.
pub open spec fn event_line(event: EventModel) -> Option<Text> {
    match event {
        EventModel::Observed(state) => Some("已观察："@ + state.scene),
        EventModel::SkillsResolved { skills, .. } => Some(
            "可用 Skills："@ + text::joined(available_names(skills), ", "@),
        ),
        EventModel::ActionStarted { index, total, call } => Some(
            started_line(index, total, call),
        ),
        EventModel::Executed(result) => Some(
            (if result.success {
                "完成"@
            } else {
                "失败"@
            }) + "："@ + result.message,
        ),
        EventModel::BatchProgress(progress) => Some(progress_line(progress)),
        EventModel::ExecutionFailed(failure) => Some("执行失败："@ + failure.message),
        EventModel::ExecutionRejected(reason) => Some("拒绝执行："@ + reason),
        EventModel::Decided(decision) => Some("决策："@ + decision_word(decision)),
        _ => None,
    }
}

fn write_event_line(event: &Event) -> (r: Option<String>)
    requires
        event@ matches EventModel::ActionStarted { index, .. } ==> index < usize::MAX,
    ensures
        r.deep_view() == event_line(event@),
{
    match event {
        Event::Observed(state) => Some(text::cat2("已观察：", state.scene.as_str())),
        Event::SkillsResolved { skills, .. } => Some(
            text::cat2(
                "可用 Skills：",
                text::join(&find_available_names(skills), ", ").as_str(),
            ),
        ),
        Event::ActionStarted { index, total, call } => Some(
            write_started_line(*index, *total, call),
        ),
        Event::Executed(result) => Some(
            text::cat3(
                if result.success {
                    "完成"
                } else {
                    "失败"
                },
                "：",
                result.message.as_str(),
            ),
        ),
        Event::BatchProgress(progress) => Some(write_progress_line(progress)),
        Event::ExecutionFailed(failure) => Some(
            text::cat2("执行失败：", failure.message.as_str()),
        ),
        Event::ExecutionRejected(reason) => Some(text::cat2("拒绝执行：", reason.as_str())),
        Event::Decided(decision) => Some(text::cat2("决策：", find_decision_word(decision))),
        _ => None,
    }
}

impl AppModel {
    /// An event of the task.
    pub open spec fn on_event(self, event: EventModel) -> Self {
        let told = match event_line(event) {
            Some(line) => self.logged(line),
            None => self,
        };
        match event {
            EventModel::Observed(state) => AppModel { state: Some(state), ..told },
            _ => told,
        }
    }

    /// The end of the task.
    pub open spec fn on_finished(self, result: Result<OutcomeModel, Text>, seconds: Text) -> Self {
        let done = AppModel { done: true, ..self };
        match result {
            Ok(outcome) => AppModel { state: Some(outcome.state), ..done }.logged(
                "任务"@ + status_word(outcome.status) + "："@ + outcome.reason,
            ).logged(usage_line(outcome, seconds)),
            Err(error) => done.logged("任务失败："@ + error),
        }
    }

    /// An adapter was made, or could not be.
    pub open spec fn on_adapter(self, features: Result<Seq<FeatureModel>, Text>) -> Self {
        if self.selected_adapter >= self.adapters.len() {
            AppModel { notice: "没有可用适配器"@, ..self }
        } else {
            match features {
                Err(error) => AppModel { notice: error, ..self },
                Ok(features) => match features_flaw(features, 0) {
                    Some(error) => AppModel { notice: error.message(), ..self },
                    None => AppModel {
                        adapter_name: self.adapters[self.selected_adapter as int],
                        instance: true,
                        features,
                        selected_task: 0,
                        screen: Screen::Tasks,
                        notice: Seq::empty(),
                        ..self
                    },
                },
            }
        }
    }
}

fn find_features_flaw(features: &Vec<Feature>) -> (r: Option<AdapterError>)
    ensures
        r.deep_view() == features_flaw(features.deep_view(), 0),
{
    let ghost all = features.deep_view();
    let mut i: usize = 0;
    while i < features.len()
        invariant
            i <= features@.len(),
            all == features.deep_view(),
            features_flaw(all, 0) == features_flaw(all, i as int),
        decreases features@.len() - i,
    {
        assert(all[i as int] == features@[i as int]@);
        match features[i].validate() {
            Ok(()) => {},
            Err(error) => {
                return Some(error);
            },
        }
        i += 1;
    }
    None
}

/// What the host says of the features of an adapter.
pub open spec fn offered(features: Result<Vec<Feature>, String>) -> Result<
    Seq<FeatureModel>,
    Text,
> {
    match features {
        Ok(features) => Ok(features.deep_view()),
        Err(error) => Err(error@),
    }
}

/// What the host says of the end of a task.
pub open spec fn ended(result: Result<Outcome, String>) -> Result<OutcomeModel, Text> {
    match result {
        Ok(outcome) => Ok(outcome@),
        Err(error) => Err(error@),
    }
}

impl App {
    /// The interface, with the adapters that can be made.
    pub fn new(adapters: Vec<String>) -> (r: Self)
        ensures
            r@ == (AppModel {
                adapters: adapters.deep_view(),
                selected_adapter: 0,
                adapter_name: Seq::empty(),
                instance: false,
                features: Seq::empty(),
                selected_task: 0,
                feature_index: None,
                inputs: Seq::empty(),
                focused: 0,
                screen: Screen::Adapters,
                state: None,
                logs: Seq::empty(),
                log_scroll: 0,
                done: false,
                notice: Seq::empty(),
            }),
            r@.wf(),
    {
        let r = App {
            adapters,
            selected_adapter: 0,
            adapter_name: String::new(),
            instance: false,
            features: Vec::new(),
            selected_task: 0,
            feature_index: None,
            inputs: Vec::new(),
            focused: 0,
            screen: Screen::Adapters,
            state: None,
            logs: Vec::new(),
            log_scroll: 0,
            done: false,
            notice: String::new(),
        };
        assert(r@.features =~= Seq::<FeatureModel>::empty());
        assert(r@.inputs =~= Seq::<InputModel>::empty());
        assert(r@.logs =~= Seq::<Text>::empty());
        r
    }

    fn log(&mut self, line: String)
        ensures
            final(self)@ == old(self)@.logged(line@),
    {
        let ghost before = self.logs.deep_view();
        let ghost added = line@;
        if self.logs.len() >= LOG_LINES {
            let _ = self.logs.remove(0);
            assert(self.logs.deep_view() =~= before.skip(1));
        }
        let ghost rest = self.logs.deep_view();
        self.logs.push(line);
        assert(self.logs.deep_view() =~= rest.push(added));
    }

    /// Shows the tasks of an adapter that was made, or why it could not be.
    pub fn choose_adapter(&mut self, features: Result<Vec<Feature>, String>)
        requires
            old(self)@.wf(),
        ensures
            final(self)@ == old(self)@.on_adapter(offered(features)),
            final(self)@.wf(),
    {
        if self.selected_adapter >= self.adapters.len() {
            self.notice = "没有可用适配器".to_owned();
            return;
        }
        match features {
            Err(error) => {
                self.notice = error;
            },
            Ok(features) => {
                match find_features_flaw(&features) {
                    Some(error) => {
                        self.notice = error.message();
                    },
                    None => {
                        let name = self.adapters[self.selected_adapter].dup();
                        assert(self@.adapters[self.selected_adapter as int] == name@);
                        self.adapter_name = name;
                        self.instance = true;
                        self.features = features;
                        self.selected_task = 0;
                        self.screen = Screen::Tasks;
                        self.notice = String::new();
                    },
                }
            },
        }
    }

    /// Shows the fields of the selected task.
    pub fn choose_task(&mut self)
        requires
            old(self)@.wf(),
        ensures
            final(self)@ == old(self)@.task_chosen(),
            final(self)@.wf(),
    {
        let mut inputs: Vec<Input> = Vec::new();
        assert(inputs.deep_view() =~= Seq::<InputModel>::empty());
        if self.selected_task > 0 {
            let index: usize = self.selected_task - 1;
            self.feature_index = Some(index);
            if index < self.features.len() {
                assert(self@.features[index as int] == self.features@[index as int]@);
                inputs = make_fields(&self.features[index].parameters);
            }
        } else {
            self.feature_index = None;
            inputs.push(
                Input {
                    name: "任务目标".to_owned(),
                    value: String::new(),
                    kind: ParameterKind::String,
                },
            );
            assert(inputs.deep_view() =~= seq![goal_field()]);
        }
        self.inputs = inputs;
        self.focused = 0;
        self.notice = String::new();
        self.screen = Screen::Configure;
    }

    fn focus_next(&mut self)
        requires
            old(self)@.wf(),
        ensures
            final(self)@ == old(self)@.focused_next(),
            final(self)@.wf(),
    {
        let count: usize = self.inputs.len();
        self.focused = if self.focused == count {
            0
        } else {
            self.focused + 1
        };
    }

    fn focus_before(&mut self)
        requires
            old(self)@.wf(),
        ensures
            final(self)@ == old(self)@.focused_before(),
            final(self)@.wf(),
    {
        let count: usize = self.inputs.len();
        self.focused = if self.focused == 0 {
            count
        } else {
            self.focused - 1
        };
    }

    fn has_chosen(&self) -> (r: bool)
        requires
            self@.wf(),
        ensures
            r == (self@.on_field() && self@.field().chosen()),
    {
        if self.focused < self.inputs.len() {
            assert(self@.inputs[self.focused as int] == self.inputs@[self.focused as int]@);
            self.inputs[self.focused].is_chosen()
        } else {
            false
        }
    }

    fn change(&mut self, change: Change)
        requires
            old(self)@.wf(),
        ensures
            final(self)@.wf(),
            final(self)@ == (if old(self)@.on_field() {
                old(self)@.with_field(changed(old(self)@.field(), change))
            } else {
                old(self)@
            }),
    {
        let at: usize = self.focused;
        if at < self.inputs.len() {
            let ghost before = self.inputs.deep_view();
            assert(before[at as int] == self.inputs@[at as int]@);
            let input: &mut Input = &mut self.inputs[at];
            match change {
                Change::Cycle(forward) => input.cycle(forward),
                Change::Shorten => input.shorten(),
                Change::Take(c) => input.take(c),
            }
            assert(self.inputs.deep_view() =~= before.update(
                at as int,
                changed(before[at as int], change),
            ));
        }
    }

    /// Takes a key, and says what the host does for it.
    pub fn key(&mut self, key: Key) -> (r: Effect)
        requires
            old(self)@.wf(),
        ensures
            (final(self)@, r) == old(self)@.on_key(key),
            final(self)@.wf(),
    {
        match self.screen {
            Screen::Adapters => self.take_adapters_key(key),
            Screen::Tasks => {
                self.take_tasks_key(key);
                Effect::Nothing
            },
            Screen::Configure => self.take_configure_key(key),
            Screen::Running => self.take_running_key(key),
        }
    }

    fn take_adapters_key(&mut self, key: Key) -> (r: Effect)
        requires
            old(self)@.wf(),
        ensures
            (final(self)@, r) == old(self)@.adapters_key(key),
            final(self)@.wf(),
    {
        match key {
            Key::Esc => Effect::Quit,
            Key::Char(c) => if c == 'q' {
                Effect::Quit
            } else {
                Effect::Nothing
            },
            Key::Up => {
                self.selected_adapter = step_up(self.selected_adapter);
                Effect::Nothing
            },
            Key::Down => {
                let count: usize = self.adapters.len();
                self.selected_adapter = step_down(
                    self.selected_adapter,
                    if count > 0 {
                        count - 1
                    } else {
                        0
                    },
                );
                Effect::Nothing
            },
            Key::Enter => Effect::ChooseAdapter,
            _ => Effect::Nothing,
        }
    }

    fn take_tasks_key(&mut self, key: Key)
        requires
            old(self)@.wf(),
        ensures
            final(self)@ == old(self)@.tasks_key(key),
            final(self)@.wf(),
    {
        match key {
            Key::Esc => {
                self.screen = Screen::Adapters;
            },
            Key::Up => {
                self.selected_task = step_up(self.selected_task);
            },
            Key::Down => {
                let count: usize = self.features.len();
                self.selected_task = step_down(self.selected_task, count);
            },
            Key::Enter => self.choose_task(),
            _ => {},
        }
    }

    fn take_configure_key(&mut self, key: Key) -> (r: Effect)
        requires
            old(self)@.wf(),
        ensures
            (final(self)@, r) == old(self)@.configure_key(key),
            final(self)@.wf(),
    {
        match key {
            Key::Esc => {
                self.screen = Screen::Tasks;
            },
            Key::Tab | Key::Down => self.focus_next(),
            Key::BackTab | Key::Up => self.focus_before(),
            Key::Enter => {
                if self.focused == self.inputs.len() {
                    return Effect::Start;
                }
                self.focus_next();
            },
            Key::Left => {
                if self.has_chosen() {
                    self.change(Change::Cycle(false));
                }
            },
            Key::Right => {
                if self.has_chosen() {
                    self.change(Change::Cycle(true));
                }
            },
            Key::Backspace => self.change(Change::Shorten),
            Key::Char(c) => {
                if c == ' ' && self.has_chosen() {
                    self.change(Change::Cycle(true));
                } else {
                    self.change(Change::Take(c));
                }
            },
            Key::Other => {},
        }
        Effect::Nothing
    }

    fn take_running_key(&mut self, key: Key) -> (r: Effect)
        requires
            old(self)@.wf(),
        ensures
            (final(self)@, r) == old(self)@.running_key(key),
            final(self)@.wf(),
    {
        match key {
            Key::Up => {
                let count: usize = self.logs.len();
                self.log_scroll = step_down(
                    self.log_scroll,
                    if count > 0 {
                        count - 1
                    } else {
                        0
                    },
                );
                Effect::Nothing
            },
            Key::Down => {
                self.log_scroll = step_up(self.log_scroll);
                Effect::Nothing
            },
            Key::Esc => if self.done {
                Effect::Quit
            } else {
                Effect::Nothing
            },
            Key::Char(c) => if !self.done && c == 'p' {
                Effect::Pause
            } else if !self.done && c == 'r' {
                Effect::Resume
            } else if !self.done && c == 'c' {
                Effect::Cancel
            } else if self.done && c == 'q' {
                Effect::Quit
            } else {
                Effect::Nothing
            },
            _ => Effect::Nothing,
        }
    }

    /// What is to be started, or why nothing can be. The interface stays as it is, so that what
    /// was typed can be corrected.
    pub fn plan(&self, has_key: bool) -> (r: Result<Plan, String>)
        ensures
            match r {
                Ok(plan) => self@.plan(has_key) == Ok::<PlanModel, Text>(plan@),
                Err(error) => self@.plan(has_key) == Err::<PlanModel, Text>(error@),
            },
    {
        if !self.instance {
            return Err("适配器实例不可用".to_owned());
        }
        match self.feature_index {
            Some(i) => {
                if i >= self.features.len() {
                    return Err("未知功能".to_owned());
                }
                let feature = &self.features[i];
                assert(self@.features[i as int] == feature@);
                let arguments = make_pairs(&feature.parameters, &self.inputs);
                match feature.parse_arguments(&arguments) {
                    Err(error) => Err(error.message()),
                    Ok(arguments) => Ok(
                        Plan::Feature {
                            id: feature.id.dup(),
                            name: feature.name.dup(),
                            arguments,
                        },
                    ),
                }
            },
            None => {
                let goal: &str = if self.inputs.len() > 0 {
                    assert(self@.inputs[0] == self.inputs@[0]@);
                    text::trim(self.inputs[0].value.as_str())
                } else {
                    ""
                };
                proof {
                    reveal_strlit("");
                    assert(""@ =~= Seq::<char>::empty());
                    assert(goal@.len() == 0 ==> goal@ =~= ""@);
                }
                if text::same(goal, "") {
                    return Err("请输入任务目标".to_owned());
                }
                if !has_key {
                    return Err("请先设置 JEVKEY".to_owned());
                }
                Ok(Plan::Goal(goal.to_owned()))
            },
        }
    }

    /// Shows why nothing was started.
    pub fn refuse(&mut self, notice: String)
        ensures
            final(self)@ == (AppModel { notice: notice@, ..old(self)@ }),
            old(self)@.wf() ==> final(self)@.wf(),
    {
        self.notice = notice;
    }

    /// Shows a task that was started.
    pub fn start(&mut self, state: Option<AppState>)
        requires
            old(self)@.wf(),
        ensures
            final(self)@ == old(self)@.started(state.deep_view()),
            final(self)@.wf(),
    {
        self.instance = false;
        let mut logs: Vec<String> = Vec::new();
        logs.push(text::cat2("适配器：", self.adapter_name.as_str()));
        assert(logs.deep_view() =~= seq!["适配器："@ + self@.adapter_name]);
        self.logs = logs;
        self.log_scroll = 0;
        self.state = state;
        self.done = false;
        self.notice = String::new();
        self.screen = Screen::Running;
    }

    /// Shows an event of the task.
    pub fn event(&mut self, event: &Event)
        requires
            old(self)@.wf(),
            event@ matches EventModel::ActionStarted { index, .. } ==> index < usize::MAX,
        ensures
            final(self)@ == old(self)@.on_event(event@),
            final(self)@.wf(),
    {
        if let Some(line) = write_event_line(event) {
            self.log(line);
        }
        if let Event::Observed(state) = event {
            self.state = Some(state.dup());
        }
    }

    /// Shows the end of the task. The host writes its seconds with one decimal.
    pub fn finished(&mut self, result: Result<Outcome, String>, seconds: &str)
        requires
            old(self)@.wf(),
        ensures
            final(self)@ == old(self)@.on_finished(ended(result), seconds@),
            final(self)@.wf(),
    {
        self.done = true;
        match result {
            Ok(outcome) => {
                self.state = Some(outcome.state.dup());
                let mut line = text::cat3("任务", find_status_word(outcome.status), "：");
                line.append(outcome.reason.as_str());
                self.log(line);
                self.log(write_usage_line(&outcome, seconds));
            },
            Err(error) => self.log(text::cat2("任务失败：", error.as_str())),
        }
    }
}

/// A row of a list, and whether it is the selected one.
#[derive(Debug)]
pub struct Row {
    pub text: String,
    pub selected: bool,
}

#[verifier::ext_equal]
pub struct RowModel {
    pub text: Text,
    pub selected: bool,
}

impl View for Row {
    type V = RowModel;

    open spec fn view(&self) -> RowModel {
        RowModel { text: self.text@, selected: self.selected }
    }
}

impl DeepView for Row {
    type V = RowModel;

    open spec fn deep_view(&self) -> RowModel {
        self@
    }
}

/// A row with its mark.
pub open spec fn row(text: Text, selected: bool) -> RowModel {
    RowModel {
        text: (if selected {
            "› "@
        } else {
            "  "@
        }) + text,
        selected,
    }
}

fn make_row(text: &str, selected: bool) -> (r: Row)
    ensures
        r@ == row(text@, selected),
{
    Row {
        text: text::cat2(
            if selected {
                "› "
            } else {
                "  "
            },
            text,
        ),
        selected,
    }
}

/// The title of a screen.
pub open spec fn title(screen: Screen) -> Text {
    match screen {
        Screen::Adapters => "选择适配器"@,
        Screen::Tasks => "选择任务"@,
        Screen::Configure => "设置任务"@,
        Screen::Running => "任务运行"@,
    }
}

/// The word for what a field takes.
pub open spec fn kind_word(kind: ParameterKindModel) -> Text {
    match kind {
        ParameterKindModel::String => "文本"@,
        ParameterKindModel::Integer { .. } => "整数"@,
        ParameterKindModel::Boolean => "布尔"@,
        ParameterKindModel::Enum { .. } => "选项"@,
    }
}

fn find_kind_word(kind: &ParameterKind) -> (r: &'static str)
    ensures
        r@ == kind_word(kind@),
{
    match kind {
        ParameterKind::String => "文本",
        ParameterKind::Integer { .. } => "整数",
        ParameterKind::Boolean => "布尔",
        ParameterKind::Enum { .. } => "选项",
    }
}

/// Where a task stands, as the log is titled.
pub open spec fn task_word(status: TaskStatus) -> Text {
    match status {
        TaskStatus::Created => "Created"@,
        TaskStatus::Running => "Running"@,
        TaskStatus::PauseRequested => "PauseRequested"@,
        TaskStatus::Paused => "Paused"@,
        TaskStatus::CancelRequested => "CancelRequested"@,
        TaskStatus::Completed => "Completed"@,
        TaskStatus::Failed => "Failed"@,
        TaskStatus::Cancelled => "Cancelled"@,
    }
}

fn find_task_word(status: TaskStatus) -> (r: &'static str)
    ensures
        r@ == task_word(status),
{
    match status {
        TaskStatus::Created => "Created",
        TaskStatus::Running => "Running",
        TaskStatus::PauseRequested => "PauseRequested",
        TaskStatus::Paused => "Paused",
        TaskStatus::CancelRequested => "CancelRequested",
        TaskStatus::Completed => "Completed",
        TaskStatus::Failed => "Failed",
        TaskStatus::Cancelled => "Cancelled",
    }
}

/// The title of the log.
pub open spec fn log_title(snapshot: Option<TaskSnapshotModel>) -> Text {
    match snapshot {
        Some(snapshot) => "日志 · "@ + snapshot.goal + " · "@ + task_word(snapshot.status),
        None => "日志"@,
    }
}

/// The title of the log.
pub fn write_log_title(snapshot: Option<&TaskSnapshot>) -> (r: String)
    ensures
        r@ == log_title(snapshot.deep_view()),
{
    match snapshot {
        Some(snapshot) => {
            let mut title = text::cat3("日志 · ", snapshot.goal.as_str(), " · ");
            title.append(find_task_word(snapshot.status));
            title
        },
        None => "日志".to_owned(),
    }
}

impl AppModel {
    /// The rows of the adapters.
    pub open spec fn adapter_rows(self) -> Seq<RowModel> {
        Seq::new(
            self.adapters.len(),
            |i: int| row(self.adapters[i], i == self.selected_adapter),
        )
    }

    /// The rows of the tasks: a free one, then the features.
    pub open spec fn task_rows(self) -> Seq<RowModel> {
        Seq::new(
            self.features.len() + 1,
            |i: int|
                if i == 0 {
                    row("自然语言任务 · JEV"@, self.selected_task == 0)
                } else {
                    row(
                        self.features[i - 1].name + " · "@ + self.features[i - 1].description,
                        self.selected_task == i,
                    )
                },
        )
    }

    /// The rows of the fields.
    pub open spec fn field_rows(self) -> Seq<RowModel> {
        Seq::new(
            self.inputs.len(),
            |i: int|
                row(
                    self.inputs[i].name + " ("@ + kind_word(self.inputs[i].kind) + "): "@
                        + self.inputs[i].value,
                    i == self.focused,
                ),
        )
    }

    /// The lines of the log that fit a height: the last, or those above them that were scrolled
    /// to.
    pub open spec fn visible_logs(self, height: usize) -> Seq<Text> {
        let end = if self.log_scroll < self.logs.len() {
            self.logs.len() - self.log_scroll
        } else {
            0
        };
        let start = if height < end {
            end - height
        } else {
            0
        };
        self.logs.subrange(start, end)
    }

    /// What is shown of the state of the application.
    pub open spec fn state_text(self) -> Text {
        match self.state {
            Some(state) => "场景："@ + state.scene + "

"@ + prettied(state.facts),
            None => "等待状态…"@,
        }
    }

    /// The keys that can be used.
    pub open spec fn keys(self) -> Text {
        match self.screen {
            Screen::Configure => "Tab 切换   Enter 下一项/开始   Esc 返回"@,
            Screen::Running => if self.done {
                "任务已结束   Esc 退出"@
            } else {
                "P 暂停   R 继续   C 取消（在安全边界生效）"@
            },
            _ => "↑↓ 选择   Enter 确认   Esc 返回/退出"@,
        }
    }

    /// The keys that can be used, and what went wrong.
    pub open spec fn help(self) -> Text {
        if self.notice.len() == 0 {
            self.keys()
        } else {
            self.keys() + "  ·  "@ + self.notice
        }
    }
}

impl App {
    /// The title of the screen.
    pub fn header(&self) -> (r: &'static str)
        ensures
            r@ == title(self@.screen),
    {
        match self.screen {
            Screen::Adapters => "选择适配器",
            Screen::Tasks => "选择任务",
            Screen::Configure => "设置任务",
            Screen::Running => "任务运行",
        }
    }

    /// The rows of the adapters.
    pub fn adapter_rows(&self) -> (r: Vec<Row>)
        ensures
            r.deep_view() == self@.adapter_rows(),
    {
        let ghost owed = self@.adapter_rows();
        let mut rows: Vec<Row> = Vec::new();
        let mut i: usize = 0;
        while i < self.adapters.len()
            invariant
                i == rows@.len(),
                i <= self.adapters@.len(),
                owed == self@.adapter_rows(),
                forall|j: int| 0 <= j < i ==> (#[trigger] rows@[j])@ == owed[j],
            decreases self.adapters@.len() - i,
        {
            assert(self@.adapters[i as int] == self.adapters@[i as int]@);
            rows.push(make_row(self.adapters[i].as_str(), i == self.selected_adapter));
            i += 1;
        }
        assert(rows.deep_view() =~= owed);
        rows
    }

    /// The rows of the tasks.
    pub fn task_rows(&self) -> (r: Vec<Row>)
        requires
            self@.wf(),
        ensures
            r.deep_view() == self@.task_rows(),
    {
        let ghost owed = self@.task_rows();
        let mut rows: Vec<Row> = Vec::new();
        rows.push(make_row("自然语言任务 · JEV", self.selected_task == 0));
        let mut i: usize = 0;
        while i < self.features.len()
            invariant
                i + 1 == rows@.len(),
                i <= self.features@.len(),
                self@.wf(),
                owed == self@.task_rows(),
                forall|j: int| 0 <= j < i + 1 ==> (#[trigger] rows@[j])@ == owed[j],
            decreases self.features@.len() - i,
        {
            assert(self@.features[i as int] == self.features@[i as int]@);
            let line = text::cat3(
                self.features[i].name.as_str(),
                " · ",
                self.features[i].description.as_str(),
            );
            let selected = self.selected_task > 0 && self.selected_task - 1 == i;
            rows.push(make_row(line.as_str(), selected));
            i += 1;
        }
        assert(rows.deep_view() =~= owed);
        rows
    }

    /// The title over the tasks.
    pub fn task_title(&self) -> (r: String)
        ensures
            r@ == self@.adapter_name + " / 任务"@,
    {
        text::cat2(self.adapter_name.as_str(), " / 任务")
    }

    /// The rows of the fields.
    pub fn field_rows(&self) -> (r: Vec<Row>)
        ensures
            r.deep_view() == self@.field_rows(),
    {
        let ghost owed = self@.field_rows();
        let mut rows: Vec<Row> = Vec::new();
        let mut i: usize = 0;
        while i < self.inputs.len()
            invariant
                i == rows@.len(),
                i <= self.inputs@.len(),
                owed == self@.field_rows(),
                forall|j: int| 0 <= j < i ==> (#[trigger] rows@[j])@ == owed[j],
            decreases self.inputs@.len() - i,
        {
            let input = &self.inputs[i];
            assert(self@.inputs[i as int] == input@);
            let mut line = text::cat3(input.name.as_str(), " (", find_kind_word(&input.kind));
            line.append("): ");
            line.append(input.value.as_str());
            rows.push(make_row(line.as_str(), i == self.focused));
            i += 1;
        }
        assert(rows.deep_view() =~= owed);
        rows
    }

    /// The button behind the fields.
    pub fn button(&self) -> (r: Row)
        ensures
            r@ == row("开始任务"@, self@.focused == self@.inputs.len()),
    {
        make_row("开始任务", self.focused == self.inputs.len())
    }

    /// The lines of the log that fit a height.
    pub fn visible_logs(&self, height: usize) -> (r: Vec<String>)
        ensures
            r.deep_view() == self@.visible_logs(height),
    {
        let count: usize = self.logs.len();
        let end: usize = if self.log_scroll < count {
            count - self.log_scroll
        } else {
            0
        };
        let start: usize = if height < end {
            end - height
        } else {
            0
        };
        let ghost logs = self.logs.deep_view();
        let mut lines: Vec<String> = Vec::new();
        let mut i: usize = start;
        while i < end
            invariant
                start <= i <= end <= self.logs@.len(),
                logs == self.logs.deep_view(),
                i - start == lines@.len(),
                forall|j: int| 0 <= j < i - start ==> (#[trigger] lines@[j])@ == logs[start + j],
            decreases end - i,
        {
            assert(logs[i as int] == self.logs@[i as int]@);
            lines.push(self.logs[i].dup());
            i += 1;
        }
        assert(lines.deep_view() =~= logs.subrange(start as int, end as int));
        lines
    }

    /// What is shown of the state of the application.
    pub fn state_text(&self) -> (r: String)
        ensures
            r@ == self@.state_text(),
    {
        match &self.state {
            Some(state) => {
                let mut shown = text::cat3("场景：", state.scene.as_str(), "

");
                shown.append(state.facts.to_pretty_text().as_str());
                shown
            },
            None => "等待状态…".to_owned(),
        }
    }

    /// The keys that can be used, and what went wrong.
    pub fn help(&self) -> (r: String)
        ensures
            r@ == self@.help(),
    {
        let keys: &str = match self.screen {
            Screen::Configure => "Tab 切换   Enter 下一项/开始   Esc 返回",
            Screen::Running => if self.done {
                "任务已结束   Esc 退出"
            } else {
                "P 暂停   R 继续   C 取消（在安全边界生效）"
            },
            _ => "↑↓ 选择   Enter 确认   Esc 返回/退出",
        };
        proof {
            reveal_strlit("");
            assert(self@.notice.len() == 0 ==> self@.notice =~= ""@);
        }
        if text::same(self.notice.as_str(), "") {
            keys.to_owned()
        } else {
            text::cat3(keys, "  ·  ", self.notice.as_str())
        }
    }
}

/// A change of a field.
#[derive(Debug, Clone, Copy, PartialEq, Eq, Structural)]
enum Change {
    Cycle(bool),
    Shorten,
    Take(char),
}

spec fn changed(input: InputModel, change: Change) -> InputModel {
    match change {
        Change::Cycle(forward) => input.cycled(forward),
        Change::Shorten => input.shortened(),
        Change::Take(c) => input.typed(c),
    }
}

/// A task is started only from the button behind the fields, and commands go only to a task that
/// has not ended.
pub proof fn effects_have_their_screens(app: AppModel, key: Key)
    ensures
        app.on_key(key).1 == Effect::Start ==> app.screen == Screen::Configure && app.focused
            == app.inputs.len(),
        app.on_key(key).1 == Effect::ChooseAdapter ==> app.screen == Screen::Adapters,
        app.on_key(key).1 is Pause || app.on_key(key).1 is Resume || app.on_key(key).1 is Cancel
            ==> app.screen == Screen::Running && !app.done,
        app.on_key(key).1 == Effect::Quit ==> app.screen == Screen::Adapters || (app.screen
            == Screen::Running && app.done),
{
}

/// A step forward and one back, or the other way round, leave the focus where it was.
pub proof fn the_focus_goes_round(app: AppModel)
    requires
        app.wf(),
        app.inputs.len() <= usize::MAX,
    ensures
        app.focused_next().focused_before() == app,
        app.focused_before().focused_next() == app,
{
}

proof fn lemma_choice_index(choices: Seq<ChoiceModel>, k: int, i: int)
    requires
        0 <= i <= k < choices.len(),
        forall|j: int| i <= j < k ==> (#[trigger] choices[j]).value != choices[k].value,
    ensures
        choice_index(choices, choices[k].value, i) == Some(k),
    decreases k - i,
{
    if i < k {
        lemma_choice_index(choices, k, i + 1);
    }
}

/// Choices are gone through in their order, in a circle: forward to the next, and from the last to
/// the first; backward the other way round. A truth value goes to the other.
pub proof fn choices_are_gone_through(input: InputModel, choices: Seq<ChoiceModel>, k: int)
    requires
        0 <= k < choices.len(),
        forall|i: int, j: int|
            0 <= i < j < choices.len() ==> (#[trigger] choices[i]).value != (
            #[trigger] choices[j]).value,
    ensures
        ({
            let field = InputModel {
                kind: ParameterKindModel::Enum { choices },
                value: choices[k].value,
                ..input
            };
            let last = choices.len() - 1;
            &&& field.cycled(true).value == choices[if k < last {
                k + 1
            } else {
                0
            }].value
            &&& field.cycled(false).value == choices[if k > 0 {
                k - 1
            } else {
                last
            }].value
            &&& field.cycled(true).name == input.name
        }),
        ({
            let flag = InputModel { kind: ParameterKindModel::Boolean, ..input };
            &&& input.value == "true"@ ==> flag.cycled(true).value == "false"@
                && flag.cycled(false).value == "false"@
            &&& input.value == "false"@ ==> flag.cycled(true).value == "true"@
                && flag.cycled(false).value == "true"@
        }),
{
    lemma_choice_index(choices, k, 0);
    let n = choices.len() as int;
    if k < n - 1 {
        vstd::arithmetic::div_mod::lemma_small_mod((k + 1) as nat, n as nat);
    } else {
        assert((k + 1) % n == 0) by (nonlinear_arith)
            requires
                k + 1 == n,
                n > 0,
        ;
    }
    if k > 0 {
        assert((k + n - 1) % n == k - 1) by (nonlinear_arith)
            requires
                0 < k < n,
        ;
    } else {
        vstd::arithmetic::div_mod::lemma_small_mod((n - 1) as nat, n as nat);
    }
    reveal_strlit("true");
    reveal_strlit("false");
    assert("true"@.len() == 4 && "false"@.len() == 5);
}

/// What is typed is put behind what is there, and a backspace takes it away again. A text takes
/// every character, a number digits and a minus; what is chosen is not typed.
pub proof fn typing_is_undone_by_backspace(input: InputModel, c: char)
    ensures
        ({
            let takes = input.kind is String || (input.kind is Integer && (('0' <= c <= '9') || c
                == '-'));
            let typed = input.typed(c);
            &&& takes ==> typed.value == input.value.push(c) && typed.shortened() == input
            &&& !takes ==> typed == input
            &&& input.kind is Boolean || input.kind is Enum ==> input.shortened() == input
        }),
{
    assert(input.value.push(c).drop_last() =~= input.value);
}

/// On the screens of adapters and tasks the arrows go one row up or down and no further than the
/// first or the last, and enter goes on with the row that is selected.
pub proof fn rows_are_selected_with_the_arrows(app: AppModel)
    requires
        app.wf(),
        app.screen == Screen::Adapters || app.screen == Screen::Tasks,
        app.screen == Screen::Adapters ==> app.selected_adapter < app.adapters.len(),
        app.adapters.len() <= usize::MAX,
        app.features.len() <= usize::MAX,
    ensures
        ({
            let up = app.on_key(Key::Up).0;
            let down = app.on_key(Key::Down).0;
            if app.screen == Screen::Adapters {
                &&& up.selected_adapter == if app.selected_adapter > 0 {
                    app.selected_adapter - 1
                } else {
                    0
                }
                &&& down.selected_adapter == if app.selected_adapter + 1 < app.adapters.len() {
                    app.selected_adapter + 1
                } else {
                    app.selected_adapter as int
                }
                &&& app.on_key(Key::Enter) == (app, Effect::ChooseAdapter)
                &&& app.on_key(Key::Esc) == (app, Effect::Quit)
            } else {
                &&& up.selected_task == if app.selected_task > 0 {
                    app.selected_task - 1
                } else {
                    0
                }
                &&& down.selected_task == if app.selected_task < app.features.len() {
                    app.selected_task + 1
                } else {
                    app.selected_task as int
                }
                &&& app.on_key(Key::Esc).0.screen == Screen::Adapters
                &&& app.on_key(Key::Enter).0.screen == Screen::Configure
                &&& app.on_key(Key::Enter).0.focused == 0
                &&& app.on_key(Key::Enter).0.inputs.len() == if app.selected_task == 0 {
                    1nat
                } else {
                    app.features[app.selected_task - 1].parameters.len()
                }
                &&& app.on_key(Key::Enter).0.feature_index == if app.selected_task == 0 {
                    None
                } else {
                    Some((app.selected_task - 1) as usize)
                }
            }
        }),
{
}

/// A field begins with the default of its parameter, and has its name and kind.
pub proof fn fields_begin_with_their_defaults(app: AppModel, i: int)
    requires
        app.wf(),
        app.screen == Screen::Tasks,
        app.selected_task > 0,
        0 <= i < app.features[app.selected_task - 1].parameters.len(),
    ensures
        ({
            let field = app.on_key(Key::Enter).0.inputs[i];
            let parameter = app.features[app.selected_task - 1].parameters[i];
            &&& field.name == parameter.name
            &&& field.kind == parameter.kind
            &&& parameter.default is None ==> field.value.len() == 0
            &&& parameter.default matches Some(JsonModel::Text(s)) ==> field.value == s
            &&& parameter.default is Some && !(parameter.default->0 is Text) ==> field.value
                == printed(parameter.default->0)
        }),
{
}

/// On the screen of fields enter goes to the next field and starts the task from the button behind
/// them; what is typed or chosen changes the field in focus and no other.
pub proof fn fields_are_filled_one_by_one(app: AppModel, key: Key, i: int)
    requires
        app.wf(),
        app.inputs.len() < usize::MAX,
        app.screen == Screen::Configure,
        0 <= i < app.inputs.len(),
    ensures
        app.on_key(Key::Enter).1 == Effect::Start <==> app.focused == app.inputs.len(),
        app.focused < app.inputs.len() ==> app.on_key(Key::Enter).0.focused == app.focused + 1,
        app.on_key(key).0.inputs.len() == app.inputs.len(),
        i != app.focused ==> app.on_key(key).0.inputs[i] == app.inputs[i],
        app.focused < app.inputs.len() && app.field().kind is String ==> (key matches Key::Char(c)
            ==> app.on_key(key).0.field().value == app.field().value.push(c)),
        app.focused < app.inputs.len() && app.field().kind is Enum ==> app.on_key(
            Key::Char(' '),
        ).0.field() == app.field().cycled(true) && app.on_key(Key::Right).0.field()
            == app.field().cycled(true) && app.on_key(Key::Left).0.field() == app.field().cycled(
            false,
        ),
        app.on_key(Key::Esc).0.screen == Screen::Tasks,
{
}

/// A running task is paused, resumed and cancelled with its keys until it is done, and left only
/// then.
pub proof fn running_tasks_are_commanded(app: AppModel)
    requires
        app.screen == Screen::Running,
    ensures
        app.on_key(Key::Char('p')).1 == if app.done {
            Effect::Nothing
        } else {
            Effect::Pause
        },
        app.on_key(Key::Char('r')).1 == if app.done {
            Effect::Nothing
        } else {
            Effect::Resume
        },
        app.on_key(Key::Char('c')).1 == if app.done {
            Effect::Nothing
        } else {
            Effect::Cancel
        },
        app.on_key(Key::Esc).1 == if app.done {
            Effect::Quit
        } else {
            Effect::Nothing
        },
{
}

/// The log keeps its last four hundred lines, the newest last.
pub proof fn the_log_keeps_its_last_lines(app: AppModel, line: Text)
    requires
        app.wf(),
    ensures
        ({
            let after = app.logged(line).logs;
            let before = app.logs;
            &&& after.len() == if before.len() < 400 {
                before.len() + 1
            } else {
                400
            }
            &&& after.last() == line
            &&& forall|i: int|
                0 <= i < after.len() - 1 ==> #[trigger] after[i] == before[i + before.len() + 1
                    - after.len()]
        }),
{
}

/// As many lines of the log are shown as fit, the last ones unless it is scrolled up, and then as
/// many lines further up.
pub proof fn the_last_lines_are_shown(app: AppModel, height: usize, i: int)
    requires
        app.log_scroll <= app.logs.len(),
    ensures
        ({
            let shown = app.visible_logs(height);
            let end = app.logs.len() - app.log_scroll;
            &&& shown.len() == if height < end {
                height as int
            } else {
                end
            }
            &&& 0 <= i < shown.len() ==> shown[i] == app.logs[end - shown.len() + i]
        }),
{
}

/// A free task needs a goal that is not blank and a key for the model, and is started with the goal
/// as it was typed, without white space around it. A feature is started with what its fields say.
pub proof fn tasks_are_started_from_the_fields(app: AppModel, has_key: bool)
    ensures
        app.instance && app.feature_index is None && app.inputs.len() > 0 ==> {
            let typed = app.inputs[0].value;
            let blank = forall|i: int| 0 <= i < typed.len() ==> text::white(#[trigger] typed[i]);
            &&& app.plan(has_key) is Ok <==> !blank && has_key
            &&& app.plan(has_key) matches Ok(PlanModel::Goal(goal)) ==> goal == text::trimmed(typed)
            &&& app.plan(has_key) is Ok ==> app.plan(has_key)->Ok_0 is Goal
        },
        app.instance && (app.feature_index matches Some(i) && i < app.features.len()) ==> {
            let feature = app.features[app.feature_index->0 as int];
            match feature.parsing(pairs(feature.parameters, app.inputs)) {
                Ok(given) => app.plan(has_key) matches Ok(
                    PlanModel::Feature { id, name, arguments },
                ) && id == feature.id && name == feature.name && arguments == given,
                Err(error) => app.plan(has_key) == Err::<PlanModel, Text>(error.message()),
            }
        },
        !app.instance ==> app.plan(has_key) is Err,
{
    if app.inputs.len() > 0 {
        text::blank_texts_are_trimmed_away(app.inputs[0].value);
    }
}

/// Each field is handed on under the id of its parameter.
pub proof fn fields_are_handed_on_by_id(
    parameters: Seq<ParameterModel>,
    inputs: Seq<InputModel>,
    i: int,
)
    requires
        parameters.len() == inputs.len(),
        0 <= i < inputs.len(),
    ensures
        pairs(parameters, inputs).len() == inputs.len(),
        pairs(parameters, inputs)[i] == parameters[i].id + seq!['='] + inputs[i].value,
{
    reveal_strlit("=");
    assert("="@ =~= seq!['=']);
}

/// What is observed is shown, and the end of a task too.
pub proof fn the_latest_state_is_shown(
    app: AppModel,
    state: AppStateModel,
    outcome: OutcomeModel,
    seconds: Text,
    error: Text,
)
    requires
        app.wf(),
    ensures
        app.on_event(EventModel::Observed(state)).state == Some(state),
        app.on_finished(Ok(outcome), seconds).state == Some(outcome.state),
        app.on_finished(Ok(outcome), seconds).done,
        app.on_finished(Err(error), seconds).done,
        app.on_finished(Err(error), seconds).state == app.state,
        app.on_finished(Err(error), seconds).logs.last() == "任务失败："@ + error,
{
}

/// An adapter is taken up with its features if nothing is wrong with them; otherwise the screen
/// stays and says what is wrong.
pub proof fn adapters_are_taken_up_with_their_features(app: AppModel, features: Seq<FeatureModel>)
    requires
        app.selected_adapter < app.adapters.len(),
    ensures
        ({
            let after = app.on_adapter(Ok(features));
            if forall|i: int| 0 <= i < features.len() ==> (#[trigger] features[i]).flaw() is None {
                &&& after.screen == Screen::Tasks
                &&& after.instance
                &&& after.features == features
                &&& after.selected_task == 0
                &&& after.adapter_name == app.adapters[app.selected_adapter as int]
            } else {
                after.screen == app.screen && after.features == app.features
            }
        }),
{
    lemma_features_flaw(features, 0);
}

proof fn lemma_features_flaw(features: Seq<FeatureModel>, i: int)
    requires
        0 <= i,
    ensures
        features_flaw(features, i) is None <==> forall|j: int|
            i <= j < features.len() ==> (#[trigger] features[j]).flaw() is None,
    decreases features.len() - i,
{
    if i < features.len() {
        lemma_features_flaw(features, i + 1);
        if features_flaw(features, i) is None {
            assert forall|j: int| i <= j < features.len() implies (#[trigger] features[j]).flaw()
                is None by {
                if j > i {
                    assert(i + 1 <= j);
                }
            }
        }
    }
}

/// A line ends with a text.
pub open spec fn ends_with(line: Text, end: Text) -> bool {
    line.len() >= end.len() && line.skip(line.len() - end.len()) == end
}

proof fn lemma_ends_with(head: Text, end: Text)
    ensures
        ends_with(head + end, end),
{
    assert((head + end).skip((head + end).len() - end.len()) =~= end);
}

/// What is observed, what a call answered, and why something failed or was refused is told in full;
/// a call that succeeded reads otherwise than one that failed.
pub proof fn what_happens_is_logged(
    state: AppStateModel,
    result: ToolResultModel,
    other: ToolResultModel,
    failure: ExecutionFailureModel,
    reason: Text,
)
    ensures
        event_line(EventModel::Observed(state)) is Some,
        ends_with(event_line(EventModel::Observed(state))->0, state.scene),
        event_line(EventModel::Executed(result)) is Some,
        ends_with(event_line(EventModel::Executed(result))->0, result.message),
        event_line(EventModel::Executed(result)) == event_line(EventModel::Executed(other))
            ==> result.success == other.success && result.message == other.message,
        event_line(EventModel::ExecutionFailed(failure)) is Some,
        ends_with(event_line(EventModel::ExecutionFailed(failure))->0, failure.message),
        event_line(EventModel::ExecutionRejected(reason)) is Some,
        ends_with(event_line(EventModel::ExecutionRejected(reason))->0, reason),
{
    lemma_ends_with("已观察："@, state.scene);
    lemma_ends_with("完成"@ + "："@, result.message);
    lemma_ends_with("失败"@ + "："@, result.message);
    lemma_ends_with("执行失败："@, failure.message);
    lemma_ends_with("拒绝执行："@, reason);
    reveal_strlit("完成");
    reveal_strlit("失败");
    assert("完成"@.len() == 2);
    assert("失败"@.len() == 2);
    assert("完成"@[0] == '完' && "失败"@[0] == '失');
    reveal_strlit("：");
    if event_line(EventModel::Executed(result)) == event_line(EventModel::Executed(other)) {
        let line = event_line(EventModel::Executed(result))->0;
        let same = event_line(EventModel::Executed(other))->0;
        assert(line[0] == if result.success { '完' } else { '失' });
        assert(same[0] == if other.success { '完' } else { '失' });
        assert(line.skip(3) =~= result.message);
        assert(same.skip(3) =~= other.message);
    }
}

/// Decisions of two kinds are told apart, and so are the ways in which a task ends.
pub proof fn decisions_and_ends_are_told_apart(
    a: DecisionModel,
    b: DecisionModel,
    end: Status,
    other: Status,
)
    ensures
        decision_word(a) == decision_word(b) <==> (a is Execute && b is Execute || a
            is ReplaceRemaining && b is ReplaceRemaining || a is LoadSkills && b is LoadSkills || a
            is Resume && b is Resume || a is Completed && b is Completed || a is Failed && b
            is Failed),
        status_word(end) == status_word(other) ==> end == other,
        event_line(EventModel::Decided(a)) is Some,
        ends_with(event_line(EventModel::Decided(a))->0, decision_word(a)),
{
    reveal_strlit("执行");
    reveal_strlit("调整计划");
    reveal_strlit("加载 Skill");
    reveal_strlit("继续执行");
    reveal_strlit("完成");
    reveal_strlit("失败");
    reveal_strlit("取消");
    assert("执行"@.len() == 2);
    assert("调整计划"@.len() == 4);
    assert("加载 Skill"@.len() == 8);
    assert("继续执行"@.len() == 4);
    assert("完成"@.len() == 2);
    assert("失败"@.len() == 2);
    assert("取消"@.len() == 2);
    assert("执行"@[0] == '执' && "完成"@[0] == '完');
    assert("执行"@[0] == '执' && "失败"@[0] == '失');
    assert("执行"@[0] == '执' && "取消"@[0] == '取');
    assert("调整计划"@[0] == '调' && "继续执行"@[0] == '继');
    assert("完成"@[0] == '完' && "失败"@[0] == '失');
    assert("完成"@[0] == '完' && "取消"@[0] == '取');
    assert("失败"@[0] == '失' && "取消"@[0] == '取');
    lemma_ends_with("决策："@, decision_word(a));
}

/// An action is announced with its place, counted from one, out of how many, its name and its
/// arguments; a repetition with what is confirmed and what was tried; and the end with what it took.
pub proof fn progress_is_logged(
    index: usize,
    total: usize,
    call: ToolCallModel,
    progress: crate::batch::BatchProgressModel,
    outcome: OutcomeModel,
    seconds: Text,
)
    ensures
        ends_with(started_line(index, total, call), call.name + " "@ + printed(call.arguments)),
        event_line(EventModel::ActionStarted { index, total, call }) == Some(
            started_line(index, total, call),
        ),
        shows(
            started_line(index, total, call),
            text::decimal((index + 1) as nat) + "/"@ + text::decimal(total as nat),
        ),
        event_line(EventModel::BatchProgress(progress)) == Some(progress_line(progress)),
        shows(progress_line(progress), "完成 "@ + text::decimal(progress.completed as nat)),
        shows(progress_line(progress), "尝试 "@ + text::decimal(progress.attempts as nat)),
        ends_with(progress_line(progress), batch_word(progress.status)),
        shows(
            usage_line(outcome, seconds),
            "模型请求 "@ + text::decimal(outcome.summary.model_requests.total as nat),
        ),
        shows(
            usage_line(outcome, seconds),
            "动作调用 "@ + text::decimal(outcome.summary.actions.total as nat),
        ),
        ends_with(usage_line(outcome, seconds), seconds + " 秒"@),
{
    let place = text::decimal((index + 1) as nat) + "/"@ + text::decimal(total as nat);
    let named = call.name + " "@ + printed(call.arguments);
    assert(started_line(index, total, call) =~= ("动作 "@ + place + "："@) + named);
    lemma_ends_with("动作 "@ + place + "："@, named);
    assert(started_line(index, total, call) =~= "动作 "@ + place + ("："@ + named));
    lemma_shows("动作 "@, place, "："@ + named);
    lemma_labels();
    let completed = text::decimal(progress.completed as nat);
    let attempts = text::decimal(progress.attempts as nat);
    let line = progress_line(progress);
    let rest = "，状态 "@ + batch_word(progress.status);
    assert(line =~= "批次："@ + ("完成 "@ + completed) + ("，尝试 "@ + attempts + rest));
    lemma_shows("批次："@, "完成 "@ + completed, "，尝试 "@ + attempts + rest);
    assert(line =~= ("批次：完成 "@ + completed + "，"@) + ("尝试 "@ + attempts) + rest);
    lemma_shows("批次：完成 "@ + completed + "，"@, "尝试 "@ + attempts, rest);
    lemma_ends_with("批次：完成 "@ + completed + "，尝试 "@ + attempts + "，状态 "@, batch_word(
        progress.status,
    ));
    let requests = text::decimal(outcome.summary.model_requests.total as nat);
    let actions = text::decimal(outcome.summary.actions.total as nat);
    let used = usage_line(outcome, seconds);
    let took = " 次，耗时 "@ + seconds + " 秒"@;
    assert(used =~= Seq::<char>::empty() + ("模型请求 "@ + requests) + (" 次，动作调用 "@ + actions
        + took));
    lemma_shows(Seq::empty(), "模型请求 "@ + requests, " 次，动作调用 "@ + actions + took);
    assert(used =~= ("模型请求 "@ + requests + " 次，"@) + ("动作调用 "@ + actions) + took);
    lemma_shows("模型请求 "@ + requests + " 次，"@, "动作调用 "@ + actions, took);
    assert(used =~= ("模型请求 "@ + requests + " 次，动作调用 "@ + actions + " 次，耗时 "@) + (
    seconds + " 秒"@));
    lemma_ends_with(
        "模型请求 "@ + requests + " 次，动作调用 "@ + actions + " 次，耗时 "@,
        seconds + " 秒"@,
    );
}

proof fn lemma_labels()
    ensures
        "批次：完成 "@ == "批次："@ + "完成 "@,
        "，尝试 "@ == "，"@ + "尝试 "@,
        " 次，动作调用 "@ == " 次，"@ + "动作调用 "@,
{
    reveal_strlit("批次：完成 ");
    reveal_strlit("批次：");
    reveal_strlit("完成 ");
    reveal_strlit("，尝试 ");
    reveal_strlit("，");
    reveal_strlit("尝试 ");
    reveal_strlit(" 次，动作调用 ");
    reveal_strlit(" 次，");
    reveal_strlit("动作调用 ");
    assert("批次：完成 "@ =~= "批次："@ + "完成 "@);
    assert("，尝试 "@ =~= "，"@ + "尝试 "@);
    assert(" 次，动作调用 "@ =~= " 次，"@ + "动作调用 "@);
}

/// Every adapter has its row, every task one behind the free one, and every field one with its name
/// and what was typed; exactly the row at hand is marked.
pub proof fn rows_show_what_can_be_chosen(app: AppModel, i: int)
    ensures
        app.adapter_rows().len() == app.adapters.len(),
        0 <= i < app.adapters.len() ==> ends_with(app.adapter_rows()[i].text, app.adapters[i])
            && app.adapter_rows()[i].selected == (i == app.selected_adapter),
        app.task_rows().len() == app.features.len() + 1,
        0 <= i < app.features.len() ==> ends_with(
            app.task_rows()[i + 1].text,
            app.features[i].description,
        ) && shows(app.task_rows()[i + 1].text, app.features[i].name),
        0 <= i <= app.features.len() ==> app.task_rows()[i].selected == (i == app.selected_task),
        app.field_rows().len() == app.inputs.len(),
        0 <= i < app.inputs.len() ==> ends_with(app.field_rows()[i].text, app.inputs[i].value)
            && shows(app.field_rows()[i].text, app.inputs[i].name) && app.field_rows()[i].selected
            == (i == app.focused),
{
    if 0 <= i < app.adapters.len() {
        lemma_ends_with(
            if i == app.selected_adapter {
                "› "@
            } else {
                "  "@
            },
            app.adapters[i],
        );
    }
    if 0 <= i < app.features.len() {
        let feature = app.features[i];
        let mark = if app.selected_task == i + 1 {
            "› "@
        } else {
            "  "@
        };
        let text = app.task_rows()[i + 1].text;
        assert(text =~= (mark + feature.name + " · "@) + feature.description);
        lemma_ends_with(mark + feature.name + " · "@, feature.description);
        assert(text =~= mark + feature.name + (" · "@ + feature.description));
        lemma_shows(mark, feature.name, " · "@ + feature.description);
    }
    if 0 <= i < app.inputs.len() {
        let input = app.inputs[i];
        let mark = if i == app.focused {
            "› "@
        } else {
            "  "@
        };
        let kind = " ("@ + kind_word(input.kind) + "): "@;
        let text = app.field_rows()[i].text;
        assert(text =~= (mark + input.name + kind) + input.value);
        lemma_ends_with(mark + input.name + kind, input.value);
        assert(text =~= mark + input.name + (kind + input.value));
        lemma_shows(mark, input.name, kind + input.value);
    }
}

/// No two screens have the same title, no two kinds of fields the same word, and no two states of a
/// task either.
pub proof fn screens_kinds_and_states_are_told_apart(
    screen: Screen,
    other: Screen,
    kind: ParameterKindModel,
    another: ParameterKindModel,
    status: TaskStatus,
    later: TaskStatus,
)
    ensures
        title(screen) == title(other) ==> screen == other,
        kind_word(kind) == kind_word(another) <==> (kind is String && another is String || kind
            is Integer && another is Integer || kind is Boolean && another is Boolean || kind is Enum
            && another is Enum),
        task_word(status) == task_word(later) ==> status == later,
{
    reveal_strlit("选择适配器");
    reveal_strlit("选择任务");
    reveal_strlit("设置任务");
    reveal_strlit("任务运行");
    assert("选择适配器"@.len() == 5);
    assert("选择任务"@.len() == 4);
    assert("设置任务"@.len() == 4);
    assert("任务运行"@.len() == 4);
    assert("选择任务"@[0] == '选' && "设置任务"@[0] == '设');
    assert("选择任务"@[0] == '选' && "任务运行"@[0] == '任');
    assert("设置任务"@[0] == '设' && "任务运行"@[0] == '任');
    reveal_strlit("文本");
    reveal_strlit("整数");
    reveal_strlit("布尔");
    reveal_strlit("选项");
    assert("文本"@.len() == 2);
    assert("整数"@.len() == 2);
    assert("布尔"@.len() == 2);
    assert("选项"@.len() == 2);
    assert("文本"@[0] == '文' && "整数"@[0] == '整');
    assert("文本"@[0] == '文' && "布尔"@[0] == '布');
    assert("文本"@[0] == '文' && "选项"@[0] == '选');
    assert("整数"@[0] == '整' && "布尔"@[0] == '布');
    assert("整数"@[0] == '整' && "选项"@[0] == '选');
    assert("布尔"@[0] == '布' && "选项"@[0] == '选');
    reveal_strlit("Created");
    reveal_strlit("Running");
    reveal_strlit("PauseRequested");
    reveal_strlit("Paused");
    reveal_strlit("CancelRequested");
    reveal_strlit("Completed");
    reveal_strlit("Failed");
    reveal_strlit("Cancelled");
    assert("Created"@.len() == 7);
    assert("Running"@.len() == 7);
    assert("PauseRequested"@.len() == 14);
    assert("Paused"@.len() == 6);
    assert("CancelRequested"@.len() == 15);
    assert("Completed"@.len() == 9);
    assert("Failed"@.len() == 6);
    assert("Cancelled"@.len() == 9);
    assert("Created"@[0] == 'C' && "Running"@[0] == 'R');
    assert("Paused"@[0] == 'P' && "Failed"@[0] == 'F');
    assert("Completed"@[1] == 'o' && "Cancelled"@[1] == 'a');
}

/// The log is titled with the goal and the state of its task, and what went wrong is shown behind
/// the keys that can be used.
pub proof fn goals_and_notices_are_shown(snapshot: TaskSnapshotModel, app: AppModel)
    ensures
        ends_with(log_title(Some(snapshot)), task_word(snapshot.status)),
        shows(log_title(Some(snapshot)), snapshot.goal),
        ends_with(app.help(), app.notice),
        app.help().len() >= app.keys().len() && app.help().take(app.keys().len() as int)
            == app.keys(),
        app.state matches Some(state) ==> shows(app.state_text(), state.scene) && ends_with(
            app.state_text(),
            prettied(state.facts),
        ),
{
    let word = task_word(snapshot.status);
    lemma_ends_with("日志 · "@ + snapshot.goal + " · "@, word);
    assert(log_title(Some(snapshot)) =~= "日志 · "@ + snapshot.goal + (" · "@ + word));
    lemma_shows("日志 · "@, snapshot.goal, " · "@ + word);
    lemma_ends_with(app.keys() + "  ·  "@, app.notice);
    assert(app.notice.len() == 0 ==> app.help().skip(app.help().len() as int) =~= app.notice);
    assert(app.help().take(app.keys().len() as int) =~= app.keys());
    if app.state is Some {
        let state = app.state->0;
        let facts = prettied(state.facts);
        lemma_ends_with("场景："@ + state.scene + "\n\n"@, facts);
        assert(app.state_text() =~= "场景："@ + state.scene + ("\n\n"@ + facts));
        lemma_shows("场景："@, state.scene, "\n\n"@ + facts);
    }
}

} // verus!
