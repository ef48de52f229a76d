//! Actions describe intent. Platform backends own input injection and the release of held input.
use crate::automation::{Error, ErrorModel};
use crate::copy::Dup;
use crate::json::{Json, JsonModel};
use crate::recognition::{
    flawless_detections_lie_in_the_frame, matches_flaw, FrameModel, RecognitionResult,
    RecognitionResultModel,
};
use crate::text;
use crate::text::Text;
use vstd::prelude::*;

verus! {

/// A pixel of the target's client area.
#[derive(Debug, Clone, Copy, PartialEq, Eq, Structural)]
pub struct Point {
    pub x: i32,
    pub y: i32,
}

impl DeepView for Point {
    type V = Point;

    open spec fn deep_view(&self) -> Point {
        *self
    }
}

impl Dup for Point {
    fn dup(&self) -> (r: Self) {
        *self
    }
}

/// A pixel, or the center of a detection from the node's recognition.
#[derive(Debug, Clone, Copy, PartialEq, Eq, Structural)]
pub enum Target {
    Point { point: Point },
    Match { index: usize },
}

impl DeepView for Target {
    type V = Target;

    open spec fn deep_view(&self) -> Target {
        *self
    }
}

impl Dup for Target {
    fn dup(&self) -> (r: Self) {
        *self
    }
}

impl RecognitionResultModel {
    /// The centers of the detections are pixels.
    pub open spec fn centered(self) -> bool {
        forall|i: int|
            0 <= i < self.matches.len() ==> (#[trigger] self.matches[i].bounds matches Some(bounds)
                ==> bounds.center_x() <= i32::MAX && bounds.center_y() <= i32::MAX)
    }
}

/// Detections that lie in a frame have pixels for centers.
pub proof fn flawless_results_are_centered(frame: FrameModel, result: RecognitionResultModel)
    requires
        matches_flaw(frame, result.matches, 0) is None,
    ensures
        result.centered(),
{
    flawless_detections_lie_in_the_frame(frame, result.matches, 0);
}

/// The pixel that a target names in a result.
pub open spec fn resolved(target: Target, result: RecognitionResultModel) -> Result<
    Point,
    ErrorModel,
> {
    match target {
        Target::Point { point } => Ok(point),
        Target::Match { index } => if index < result.matches.len()
            && result.matches[index as int].bounds is Some {
            let bounds = result.matches[index as int].bounds->0;
            Ok(Point { x: bounds.center_x() as i32, y: bounds.center_y() as i32 })
        } else {
            Err(
                ErrorModel::Invalid("missing match bounds at index "@ + text::decimal(
                    index as nat,
                )),
            )
        },
    }
}

impl Target {
    /// The center of the detection that the target names, if it names one, is a pixel.
    pub open spec fn centered_in(self, result: RecognitionResultModel) -> bool {
        self matches Target::Match { index } ==> (index < result.matches.len()
            ==> (result.matches[index as int].bounds matches Some(bounds) ==> bounds.center_x()
            <= i32::MAX && bounds.center_y() <= i32::MAX))
    }

    /// The pixel that the target names in a result.
    pub fn resolve(&self, result: &RecognitionResult) -> (r: Result<Point, Error>)
        requires
            self.centered_in(result@),
        ensures
            match r {
                Ok(point) => resolved(*self, result@) == Ok::<Point, ErrorModel>(point),
                Err(error) => resolved(*self, result@) == Err::<Point, ErrorModel>(error@),
            },
    {
        match self {
            Target::Point { point } => Ok(*point),
            Target::Match { index } => {
                let at: usize = *index;
                if at < result.matches.len() {
                    assert(result@.matches[at as int] == result.matches@[at as int]@);
                    match result.matches[at].bounds {
                        Some(bounds) => {
                            return Ok(
                                Point {
                                    x: bounds.x + (bounds.width / 2) as i32,
                                    y: bounds.y + (bounds.height / 2) as i32,
                                },
                            );
                        },
                        None => {},
                    }
                }
                Err(
                    Error::Invalid(
                        text::cat2(
                            "missing match bounds at index ",
                            text::numeral(at as u64).as_str(),
                        ),
                    ),
                )
            },
        }
    }
}

/// What a node does.
#[derive(Debug)]
pub enum Action {
    Click { target: Target },
    LongPress { target: Target, duration_ms: u64 },
    Swipe { from: Target, to: Target, duration_ms: u64 },
    KeyDown { key: String },
    KeyUp { key: String },
    Wait { duration_ms: u64 },
    Custom { name: String, parameters: Json },
}

#[verifier::ext_equal]
pub enum ActionModel {
    Click { target: Target },
    LongPress { target: Target, duration_ms: u64 },
    Swipe { from: Target, to: Target, duration_ms: u64 },
    KeyDown { key: Text },
    KeyUp { key: Text },
    Wait { duration_ms: u64 },
    Custom { name: Text, parameters: JsonModel },
}

impl View for Action {
    type V = ActionModel;

    open spec fn view(&self) -> ActionModel {
        match self {
            Action::Click { target } => ActionModel::Click { target: *target },
            Action::LongPress { target, duration_ms } => ActionModel::LongPress { target: *target, duration_ms: *duration_ms },
            Action::Swipe { from, to, duration_ms } => ActionModel::Swipe { from: *from, to: *to, duration_ms: *duration_ms },
            Action::KeyDown { key } => ActionModel::KeyDown { key: key@ },
            Action::KeyUp { key } => ActionModel::KeyUp { key: key@ },
            Action::Wait { duration_ms } => ActionModel::Wait { duration_ms: *duration_ms },
            Action::Custom { name, parameters } => ActionModel::Custom { name: name@, parameters: parameters@ },
        }
    }
}

impl DeepView for Action {
    type V = ActionModel;

    open spec fn deep_view(&self) -> ActionModel {
        self@
    }
}

impl Dup for Action {
    fn dup(&self) -> (r: Self) {
        match self {
            Action::Click { target } => Action::Click { target: *target },
            Action::LongPress { target, duration_ms } => Action::LongPress { target: *target, duration_ms: *duration_ms },
            Action::Swipe { from, to, duration_ms } => Action::Swipe { from: *from, to: *to, duration_ms: *duration_ms },
            Action::KeyDown { key } => Action::KeyDown { key: key.dup() },
            Action::KeyUp { key } => Action::KeyUp { key: key.dup() },
            Action::Wait { duration_ms } => Action::Wait { duration_ms: *duration_ms },
            Action::Custom { name, parameters } => Action::Custom { name: name.dup(), parameters: parameters.dup() },
        }
    }
}

/// Resolved input; the platform needs no knowledge of flows.
#[derive(Debug)]
pub enum Input {
    Click(Point),
    LongPress { point: Point, duration_ms: u64 },
    Swipe { from: Point, to: Point, duration_ms: u64 },
    RelativeMove { dx: i32, dy: i32 },
    KeyDown(String),
    KeyUp(String),
}

#[verifier::ext_equal]
pub enum InputModel {
    Click(Point),
    LongPress { point: Point, duration_ms: u64 },
    Swipe { from: Point, to: Point, duration_ms: u64 },
    RelativeMove { dx: i32, dy: i32 },
    KeyDown(Text),
    KeyUp(Text),
}

impl View for Input {
    type V = InputModel;

    open spec fn view(&self) -> InputModel {
        match self {
            Input::Click(a) => InputModel::Click(*a),
            Input::LongPress { point, duration_ms } => InputModel::LongPress { point: *point, duration_ms: *duration_ms },
            Input::Swipe { from, to, duration_ms } => InputModel::Swipe { from: *from, to: *to, duration_ms: *duration_ms },
            Input::RelativeMove { dx, dy } => InputModel::RelativeMove { dx: *dx, dy: *dy },
            Input::KeyDown(a) => InputModel::KeyDown(a@),
            Input::KeyUp(a) => InputModel::KeyUp(a@),
        }
    }
}

impl DeepView for Input {
    type V = InputModel;

    open spec fn deep_view(&self) -> InputModel {
        self@
    }
}

impl Dup for Input {
    fn dup(&self) -> (r: Self) {
        match self {
            Input::Click(a) => Input::Click(*a),
            Input::LongPress { point, duration_ms } => Input::LongPress { point: *point, duration_ms: *duration_ms },
            Input::Swipe { from, to, duration_ms } => Input::Swipe { from: *from, to: *to, duration_ms: *duration_ms },
            Input::RelativeMove { dx, dy } => Input::RelativeMove { dx: *dx, dy: *dy },
            Input::KeyDown(a) => Input::KeyDown(a.dup()),
            Input::KeyUp(a) => Input::KeyUp(a.dup()),
        }
    }
}

/// What an action says of how the flow goes on.
#[derive(Debug)]
pub enum ActionResult {
    /// The next action of the node follows.
    Continue(Json),
    /// The node is looked for again.
    Reobserve(Json),
    /// One of the next candidates follows.
    Route { node: String, output: Json },
    /// The flow is done.
    Complete(Json),
    /// The flow cannot go on, for this reason.
    Blocked(String),
}

#[verifier::ext_equal]
pub enum ActionResultModel {
    Continue(JsonModel),
    Reobserve(JsonModel),
    Route { node: Text, output: JsonModel },
    Complete(JsonModel),
    Blocked(Text),
}

impl View for ActionResult {
    type V = ActionResultModel;

    open spec fn view(&self) -> ActionResultModel {
        match self {
            ActionResult::Continue(a) => ActionResultModel::Continue(a@),
            ActionResult::Reobserve(a) => ActionResultModel::Reobserve(a@),
            ActionResult::Route { node, output } => ActionResultModel::Route { node: node@, output: output@ },
            ActionResult::Complete(a) => ActionResultModel::Complete(a@),
            ActionResult::Blocked(a) => ActionResultModel::Blocked(a@),
        }
    }
}

impl DeepView for ActionResult {
    type V = ActionResultModel;

    open spec fn deep_view(&self) -> ActionResultModel {
        self@
    }
}

impl Dup for ActionResult {
    fn dup(&self) -> (r: Self) {
        match self {
            ActionResult::Continue(a) => ActionResult::Continue(a.dup()),
            ActionResult::Reobserve(a) => ActionResult::Reobserve(a.dup()),
            ActionResult::Route { node, output } => ActionResult::Route { node: node.dup(), output: output.dup() },
            ActionResult::Complete(a) => ActionResult::Complete(a.dup()),
            ActionResult::Blocked(a) => ActionResult::Blocked(a.dup()),
        }
    }
}

/// What the host does for an action.
#[derive(Debug)]
pub enum Command {
    /// Give this input to the platform.
    Input(Input),
    /// Let this many milliseconds pass.
    Wait(u64),
    /// Call the handler of the action.
    Custom,
}

#[verifier::ext_equal]
pub enum CommandModel {
    Input(InputModel),
    Wait(u64),
    Custom,
}

impl View for Command {
    type V = CommandModel;

    open spec fn view(&self) -> CommandModel {
        match self {
            Command::Input(a) => CommandModel::Input(a@),
            Command::Wait(a) => CommandModel::Wait(*a),
            Command::Custom => CommandModel::Custom,
        }
    }
}

impl DeepView for Command {
    type V = CommandModel;

    open spec fn deep_view(&self) -> CommandModel {
        self@
    }
}

impl Dup for Command {
    fn dup(&self) -> (r: Self) {
        match self {
            Command::Input(a) => Command::Input(a.dup()),
            Command::Wait(a) => Command::Wait(*a),
            Command::Custom => Command::Custom,
        }
    }
}

impl ActionModel {
    /// The centers of the detections that the action needs are pixels.
    pub open spec fn centered_in(self, recognition: RecognitionResultModel) -> bool {
        match self {
            ActionModel::Click { target } => target.centered_in(recognition),
            ActionModel::LongPress { target, .. } => target.centered_in(recognition),
            ActionModel::Swipe { from, to, .. } => from.centered_in(recognition) && (resolved(
                from,
                recognition,
            ) is Ok ==> to.centered_in(recognition)),
            _ => true,
        }
    }

    /// What the host does for an action, with the custom handlers that it has.
    pub open spec fn command(
        self,
        recognition: RecognitionResultModel,
        custom: Seq<Text>,
    ) -> Result<CommandModel, ErrorModel> {
        match self {
            ActionModel::Click { target } => match resolved(target, recognition) {
                Ok(point) => Ok(CommandModel::Input(InputModel::Click(point))),
                Err(error) => Err(error),
            },
            ActionModel::LongPress { target, duration_ms } => match resolved(target, recognition) {
                Ok(point) => Ok(CommandModel::Input(InputModel::LongPress { point, duration_ms })),
                Err(error) => Err(error),
            },
            ActionModel::Swipe { from, to, duration_ms } => match resolved(from, recognition) {
                Err(error) => Err(error),
                Ok(from) => match resolved(to, recognition) {
                    Err(error) => Err(error),
                    Ok(to) => Ok(CommandModel::Input(InputModel::Swipe { from, to, duration_ms })),
                },
            },
            ActionModel::KeyDown { key } => Ok(CommandModel::Input(InputModel::KeyDown(key))),
            ActionModel::KeyUp { key } => Ok(CommandModel::Input(InputModel::KeyUp(key))),
            ActionModel::Wait { duration_ms } => Ok(CommandModel::Wait(duration_ms)),
            ActionModel::Custom { name, .. } => if custom.contains(name) {
                Ok(CommandModel::Custom)
            } else {
                Err(ErrorModel::Unsupported(name))
            },
        }
    }
}

/// The custom actions that a host has handlers for.
#[derive(Debug)]
pub struct Actions {
    pub custom: Vec<String>,
}

impl View for Actions {
    type V = Seq<Text>;

    open spec fn view(&self) -> Seq<Text> {
        self.custom.deep_view()
    }
}

/// Whether the host can perform an action, with the custom handlers that it has.
pub open spec fn performable(action: ActionModel, custom: Seq<Text>) -> bool {
    match action {
        ActionModel::Custom { name, .. } => custom.contains(name),
        _ => true,
    }
}

impl Actions {
    /// No handlers.
    pub fn new() -> (r: Self)
        ensures
            r@ == Seq::<Text>::empty(),
    {
        let r = Actions { custom: Vec::new() };
        assert(r@ =~= Seq::<Text>::empty());
        r
    }

    /// Adds a handler under a name that is not blank and has none yet.
    pub fn register(&mut self, name: String) -> (r: Result<(), Error>)
        ensures
            match r {
                Ok(()) => !text::blank(name@) && !old(self)@.contains(name@) && final(self)@
                    == old(self)@.push(name@),
                Err(error) => (text::blank(name@) || old(self)@.contains(name@)) && final(self)@
                    == old(self)@ && error@ == ErrorModel::Invalid(
                    "duplicate or empty action: "@ + name@,
                ),
            },
    {
        if text::is_blank(name.as_str()) || text::holds(&self.custom, name.as_str()) {
            return Err(Error::Invalid(text::cat2("duplicate or empty action: ", name.as_str())));
        }
        let ghost before = self.custom.deep_view();
        let ghost added = name@;
        self.custom.push(name);
        assert(self.custom.deep_view() =~= before.push(added));
        Ok(())
    }

    /// Whether the host can perform an action.
    pub fn supports(&self, action: &Action) -> (r: bool)
        ensures
            r == performable(action@, self@),
    {
        match action {
            Action::Custom { name, .. } => text::holds(&self.custom, name.as_str()),
            _ => true,
        }
    }

    /// What the host does for an action, once it is not cancelled.
    pub fn execute(&self, action: &Action, recognition: &RecognitionResult) -> (r: Result<
        Command,
        Error,
    >)
        requires
            action@.centered_in(recognition@),
        ensures
            match r {
                Ok(command) => action@.command(recognition@, self@) == Ok::<
                    CommandModel,
                    ErrorModel,
                >(command@),
                Err(error) => action@.command(recognition@, self@) == Err::<
                    CommandModel,
                    ErrorModel,
                >(error@),
            },
    {
        match action {
            Action::Click { target } => match target.resolve(recognition) {
                Ok(point) => Ok(Command::Input(Input::Click(point))),
                Err(error) => Err(error),
            },
            Action::LongPress { target, duration_ms } => match target.resolve(recognition) {
                Ok(point) => Ok(
                    Command::Input(Input::LongPress { point, duration_ms: *duration_ms }),
                ),
                Err(error) => Err(error),
            },
            Action::Swipe { from, to, duration_ms } => match from.resolve(recognition) {
                Err(error) => Err(error),
                Ok(from) => match to.resolve(recognition) {
                    Err(error) => Err(error),
                    Ok(to) => Ok(
                        Command::Input(Input::Swipe { from, to, duration_ms: *duration_ms }),
                    ),
                },
            },
            Action::KeyDown { key } => Ok(Command::Input(Input::KeyDown(key.dup()))),
            Action::KeyUp { key } => Ok(Command::Input(Input::KeyUp(key.dup()))),
            Action::Wait { duration_ms } => Ok(Command::Wait(*duration_ms)),
            Action::Custom { name, .. } => if text::holds(&self.custom, name.as_str()) {
                Ok(Command::Custom)
            } else {
                Err(Error::Unsupported(name.dup()))
            },
        }
    }
}

/// A target is a pixel, or the middle of a detection: as many pixels lie before it as behind it,
/// or one more before it. A detection without a place, or one that is not there, is no target.
pub proof fn targets_are_pixels_or_middles(
    point: Point,
    index: usize,
    result: RecognitionResultModel,
)
    requires
        (Target::Match { index }).centered_in(result),
    ensures
        resolved(Target::Point { point }, result) == Ok::<Point, ErrorModel>(point),
        if index < result.matches.len() && result.matches[index as int].bounds is Some {
            let bounds = result.matches[index as int].bounds->0;
            &&& resolved(Target::Match { index }, result) matches Ok(middle)
            &&& 0 <= bounds.width - 2 * (middle.x - bounds.x) <= 1
            &&& 0 <= bounds.height - 2 * (middle.y - bounds.y) <= 1
        } else {
            resolved(Target::Match { index }, result) is Err
        },
{
}

/// An action is given to the platform with its own targets, keys and times: a click and a long
/// press go to their target, a swipe goes from the first of its targets to the second. Waiting
/// is left to the host, and a custom action to its handler, which must be there.
pub proof fn actions_are_given_to_the_platform(
    action: ActionModel,
    recognition: RecognitionResultModel,
    custom: Seq<Text>,
)
    ensures
        match action {
            ActionModel::Click { target } => match resolved(target, recognition) {
                Ok(point) => action.command(recognition, custom) == Ok::<CommandModel, ErrorModel>(
                    CommandModel::Input(InputModel::Click(point)),
                ),
                Err(error) => action.command(recognition, custom) == Err::<
                    CommandModel,
                    ErrorModel,
                >(error),
            },
            ActionModel::LongPress { target, duration_ms } => match resolved(
                target,
                recognition,
            ) {
                Ok(point) => action.command(recognition, custom) == Ok::<CommandModel, ErrorModel>(
                    CommandModel::Input(InputModel::LongPress { point, duration_ms }),
                ),
                Err(error) => action.command(recognition, custom) == Err::<
                    CommandModel,
                    ErrorModel,
                >(error),
            },
            ActionModel::Swipe { from, to, duration_ms } => {
                if resolved(from, recognition) is Ok && resolved(to, recognition) is Ok {
                    action.command(recognition, custom) == Ok::<CommandModel, ErrorModel>(
                        CommandModel::Input(
                            InputModel::Swipe {
                                from: resolved(from, recognition)->Ok_0,
                                to: resolved(to, recognition)->Ok_0,
                                duration_ms,
                            },
                        ),
                    )
                } else {
                    action.command(recognition, custom) is Err
                }
            },
            ActionModel::KeyDown { key } => action.command(recognition, custom) == Ok::<
                CommandModel,
                ErrorModel,
            >(CommandModel::Input(InputModel::KeyDown(key))),
            ActionModel::KeyUp { key } => action.command(recognition, custom) == Ok::<
                CommandModel,
                ErrorModel,
            >(CommandModel::Input(InputModel::KeyUp(key))),
            ActionModel::Wait { duration_ms } => action.command(recognition, custom) == Ok::<
                CommandModel,
                ErrorModel,
            >(CommandModel::Wait(duration_ms)),
            ActionModel::Custom { name, .. } => if custom.contains(name) {
                action.command(recognition, custom) == Ok::<CommandModel, ErrorModel>(
                    CommandModel::Custom,
                )
            } else {
                action.command(recognition, custom) == Err::<CommandModel, ErrorModel>(
                    ErrorModel::Unsupported(name),
                )
            },
        },
{
}

} // verus!
