//! What the command line decides before and after a run.
use crate::api::{AdapterError, AdapterErrorModel};
use crate::clock::Nanos;
use crate::feature::{Feature, FeatureModel};
use crate::kernel::{Outcome, RunOptions, Status};
use crate::skills::SkillMode;
use crate::text;
use crate::text::Text;
use vstd::prelude::*;

verus! {

/// The nanoseconds in a second.
pub const SECOND: Nanos = 1_000_000_000;

/// Where the records of a decision provider go.
#[derive(Debug, Clone, Copy, PartialEq, Eq, Structural)]
pub enum Sink {
    /// To the end of a file that was named.
    File,
    /// To a file of the task, and to the terminal.
    TaskFile,
    /// To the terminal.
    Terminal,
    Nowhere,
}

/// Where the records go: a file that was named goes before anything else, and without one they
/// are kept only where they are asked for.
pub open spec fn sink(named: bool, debug: bool, task_directory: bool) -> Sink {
    if named {
        Sink::File
    } else if !debug {
        Sink::Nowhere
    } else if task_directory {
        Sink::TaskFile
    } else {
        Sink::Terminal
    }
}

/// Where the records go.
pub fn choose_sink(named: bool, debug: bool, task_directory: bool) -> (r: Sink)
    ensures
        r == sink(named, debug, task_directory),
{
    if named {
        Sink::File
    } else if !debug {
        Sink::Nowhere
    } else if task_directory {
        Sink::TaskFile
    } else {
        Sink::Terminal
    }
}

/// Where the directories of the tasks are: as it was given, else in `logs/tasks`.
pub open spec fn log_directory(given: Option<Text>) -> Text {
    match given {
        Some(directory) => directory,
        None => "logs/tasks"@,
    }
}

/// Where the directories of the tasks are.
pub fn choose_log_directory(given: Option<String>) -> (r: String)
    ensures
        r@ == log_directory(given.deep_view()),
{
    match given {
        Some(directory) => directory,
        None => "logs/tasks".to_owned(),
    }
}

/// A setting: as it was given, else as the environment says, else as it is by default.
pub open spec fn setting(given: Option<Text>, environment: Option<Text>, default: Text) -> Text {
    match given {
        Some(value) => value,
        None => match environment {
            Some(value) => value,
            None => default,
        },
    }
}

/// A setting: as it was given, else as the environment says, else as it is by default.
pub fn choose_setting(
    given: Option<String>,
    environment: Option<String>,
    default: &str,
) -> (r: String)
    ensures
        r@ == setting(given.deep_view(), environment.deep_view(), default@),
{
    match given {
        Some(value) => value,
        None => match environment {
            Some(value) => value,
            None => default.to_owned(),
        },
    }
}

/// Refuses settings of a model where a person decides.
pub fn check_provider(manual: bool, endpoint: bool, model: bool) -> (r: Result<(), String>)
    ensures
        match r {
            Ok(()) => !(manual && (endpoint || model)),
            Err(message) => manual && (endpoint || model) && message@
                == "manual 决策器不使用 --endpoint 或 --model"@,
        },
{
    if manual && (endpoint || model) {
        return Err("manual 决策器不使用 --endpoint 或 --model".to_owned());
    }
    Ok(())
}

/// What a process says when it ends: that the task was completed, that it was not, or that it
/// could not be run.
pub open spec fn exit_code(result: Result<bool, ()>) -> u8 {
    match result {
        Ok(true) => 0,
        Ok(false) => 1,
        Err(()) => 2,
    }
}

/// What a process says when it ends.
pub fn find_exit_code(result: Result<bool, ()>) -> (r: u8)
    ensures
        r == exit_code(result),
{
    match result {
        Ok(true) => 0,
        Ok(false) => 1,
        Err(()) => 2,
    }
}

/// Whether the task was completed.
pub fn is_completed(outcome: &Outcome) -> (r: bool)
    ensures
        r == (outcome@.status == Status::Completed),
{
    outcome.status == Status::Completed
}

/// The limits that a command line sets; the time of a repetition is given in seconds.
pub fn limits(
    max_decisions: usize,
    max_repeated_failures: u32,
    max_actions: usize,
    max_repeat: u32,
    max_batch_attempts: u32,
    batch_timeout_seconds: u64,
    on_demand: bool,
) -> (r: RunOptions)
    ensures
        r.max_decisions == max_decisions,
        r.max_repeated_failures == max_repeated_failures,
        r.max_actions == max_actions,
        r.max_repeat == max_repeat,
        r.max_batch_attempts == max_batch_attempts,
        r.batch_timeout == batch_timeout_seconds * SECOND,
        r.skill_mode == (if on_demand {
            SkillMode::OnDemand
        } else {
            SkillMode::All
        }),
{
    let mut options = RunOptions::default();
    options.max_decisions = max_decisions;
    options.max_repeated_failures = max_repeated_failures;
    options.max_actions = max_actions;
    options.max_repeat = max_repeat;
    options.max_batch_attempts = max_batch_attempts;
    options.batch_timeout = batch_timeout_seconds as Nanos * SECOND;
    options.skill_mode = if on_demand {
        SkillMode::OnDemand
    } else {
        SkillMode::All
    };
    options
}

/// Whether a feature is the first of its id.
pub open spec fn first_with_id(features: Seq<FeatureModel>, id: Text, i: int) -> bool {
    &&& 0 <= i < features.len()
    &&& features[i].id == id
    &&& forall|j: int| 0 <= j < i ==> (#[trigger] features[j]).id != id
}

/// The feature that a command line names by its id.
pub fn choose_feature<'a>(features: &'a Vec<Feature>, id: &str) -> (r: Result<
    &'a Feature,
    AdapterError,
>)
    ensures
        match r {
            Ok(feature) => exists|i: int|
                #[trigger] first_with_id(features.deep_view(), id@, i) && features.deep_view()[i]
                    == feature@,
            Err(error) => error@ == AdapterErrorModel::Invalid("unknown feature: "@ + id@)
                && forall|i: int|
                0 <= i < features@.len() ==> (#[trigger] features.deep_view()[i]).id != id@,
        },
{
    let ghost all = features.deep_view();
    let mut i: usize = 0;
    while i < features.len()
        invariant
            i <= features@.len(),
            all == features.deep_view(),
            forall|j: int| 0 <= j < i ==> (#[trigger] all[j]).id != id@,
        decreases features@.len() - i,
    {
        assert(all[i as int] == features@[i as int]@);
        if text::same(features[i].id.as_str(), id) {
            assert(first_with_id(all, id@, i as int));
            return Ok(&features[i]);
        }
        i += 1;
    }
    Err(AdapterError::Invalid(text::cat2("unknown feature: ", id)))
}

/// Records go to a named file whenever there is one, and else nowhere unless they are asked for;
/// then to the directory of the task where there is one.
pub proof fn records_go_where_they_are_asked_for(named: bool, debug: bool, directory: bool)
    ensures
        sink(named, debug, directory) == Sink::File <==> named,
        sink(named, debug, directory) == Sink::Nowhere <==> !named && !debug,
        sink(named, debug, directory) == Sink::TaskFile <==> !named && debug && directory,
{
}

/// A setting that is given goes before the environment, and that before the default.
pub proof fn given_settings_go_first(given: Text, environment: Text, default: Text)
    ensures
        setting(Some(given), Some(environment), default) == given,
        setting(Some(given), None, default) == given,
        setting(None, Some(environment), default) == environment,
        setting(None, None, default) == default,
        log_directory(Some(given)) == given,
{
}

/// A process succeeds exactly if the task was completed, and tells a task that was not from one
/// that could not be run.
pub proof fn only_completed_tasks_succeed(result: Result<bool, ()>)
    ensures
        exit_code(result) == 0 <==> result == Ok::<bool, ()>(true),
        exit_code(Ok(false)) != exit_code(Err(())),
{
}

} // verus!
