#![allow(dead_code, unused_imports)]
use actweave::api::{
    Action, ActionOutcome, ActionReport, AdapterError, AppState, Availability, DecisionContext,
    ExecutionControl, ExecutionFailure, FailureStage, PauseState, RepeatRequest, SkillContext,
    ToolCall, ToolResult,
};
use actweave::batch::{BatchProgress, BatchStatus};
use actweave::copy::Dup;
use actweave::demo::{DemoAdapter, Execution};
use actweave::demo_runtime::Scenario;
use actweave::execution::{ExecutionProgress, ExecutionStatus};
use actweave::json::Json;
use actweave::kernel::{
    Continuation, Decision, Error, Event, Outcome, RunOptions, Signal, Status, Task,
};
use actweave::metrics::{CallCounts, CallKind};
use actweave::run::{DecisionReply, Request, Run};
use actweave::skills::{LoadSkills, SkillMode};
use actweave::task_runtime::{Boundary, TaskHandle, TaskStatus};
use std::collections::VecDeque;

const MS: u128 = 1_000_000;

fn json(text: &str) -> Json {
    Json::parse(text).unwrap()
}

fn fact(state: &AppState, path: &[&str]) -> String {
    let mut at = &state.facts;
    for key in path {
        at = at.get(key).unwrap();
    }
    at.to_text()
}

fn tool(name: &str, arguments: &str) -> ToolCall {
    ToolCall { name: name.to_owned(), arguments: json(arguments) }
}

fn call(name: &str, arguments: &str) -> Action {
    Action::Call(tool(name, arguments))
}

fn trial(times: u32) -> Action {
    Action::Repeat(RepeatRequest { call: tool("perform_trial", "{}"), times })
}

fn explore() -> Action {
    Action::UntilDone(tool("explore_step", "{}"))
}

fn execute(actions: Vec<Action>, then: Continuation) -> Decision {
    Decision::Execute { actions, then }
}

fn load(names: &[&str], tags: &[&str]) -> Decision {
    Decision::LoadSkills(LoadSkills {
        names: names.iter().map(|s| s.to_string()).collect(),
        tags: tags.iter().map(|s| s.to_string()).collect(),
    })
}

/// The application behind a run.
trait Env {
    fn observe(&mut self, now: u128) -> Result<AppState, AdapterError>;
    fn context(&mut self, context: &SkillContext) -> Result<DecisionContext, AdapterError>;
    fn execute(
        &mut self,
        call: &ToolCall,
        deadline: Option<u128>,
        host: &mut Host,
    ) -> Result<ActionReport, AdapterError>;
}

fn demo_execute(
    adapter: &mut DemoAdapter,
    call: &ToolCall,
    deadline: Option<u128>,
    host: &mut Host,
) -> Result<ActionReport, AdapterError> {
    let mut control = ExecutionControl { deadline, ..ExecutionControl::default() };
    if host.handle.is_cancelled() {
        control.cancellation.cancel();
    }
    match adapter.execute(call, &control, "", host.now)? {
        Execution::Report(report) => Ok(report),
        Execution::Trial => {
            let mut pause = PauseState::Running;
            let mut trial = adapter.begin_trial(&control, pause, host.now)?;
            loop {
                let report = adapter.step_trial(&mut trial, &control, &mut pause, host.now);
                if let Some(report) = report {
                    return report;
                }
            }
        }
    }
}

impl Env for DemoAdapter {
    fn observe(&mut self, now: u128) -> Result<AppState, AdapterError> {
        Ok(DemoAdapter::observe(self, now))
    }
    fn context(&mut self, context: &SkillContext) -> Result<DecisionContext, AdapterError> {
        self.decision_context(context, "")
    }
    fn execute(
        &mut self,
        call: &ToolCall,
        deadline: Option<u128>,
        host: &mut Host,
    ) -> Result<ActionReport, AdapterError> {
        demo_execute(self, call, deadline, host)
    }
}

/// What an agent does when it is asked.
enum Turn {
    Decide(Decision),
    Fail(Error),
    Cancel,
}

struct Host {
    now: u128,
    handle: TaskHandle,
}

impl Host {
    fn new(task: &Task) -> Self {
        Host { now: 1000 * MS, handle: TaskHandle::new("task-1".to_owned(), task) }
    }

    fn signal(&self) -> Signal {
        Signal { cancelled: self.handle.is_cancelled(), now: self.now }
    }

    /// Performs what the run asks for until it is done.
    fn drive(
        &mut self,
        run: Result<Run, Error>,
        env: &mut dyn Env,
        agent: &mut dyn FnMut(&Run, &mut Host) -> Turn,
        on_event: &mut dyn FnMut(Event, &mut Host),
        on_hold: &mut dyn FnMut(&mut Host),
    ) -> Result<Outcome, Error> {
        self.handle.start(self.now);
        let mut run = match run {
            Ok(run) => run,
            Err(error) => {
                let result = Err(error);
                self.handle.finish(&result, self.now);
                return result;
            }
        };
        loop {
            for event in run.take_events() {
                self.handle.event(&event);
                on_event(event, self);
            }
            match run.request() {
                Request::Checkpoint { deadline } => {
                    match self.handle.checkpoint(deadline, self.now) {
                        Ok(Boundary::Go) => run.checkpoint(Ok(())),
                        Ok(Boundary::Hold) => on_hold(self),
                        Err(error) => run.checkpoint(Err(error)),
                    }
                }
                Request::Signal => run.signal(self.signal()),
                Request::Observe => run.observed(env.observe(self.now)),
                Request::Context { step } => {
                    let reply = env.context(&SkillContext {
                        state: run.state(),
                        task_goal: run.goal(),
                        decision_step: step,
                        previous_result: run.previous().as_ref(),
                        failure: run.failure().as_ref(),
                        interruption: run.interruption().as_ref(),
                    });
                    run.context(reply);
                }
                Request::Decide { .. } => {
                    let reply = match agent(&run, self) {
                        Turn::Decide(decision) => DecisionReply::Decided(decision),
                        Turn::Fail(error) => DecisionReply::Failed(error),
                        Turn::Cancel => {
                            self.handle.cancel();
                            DecisionReply::Cancelled(self.signal())
                        }
                    };
                    run.decided(reply);
                }
                Request::CheckLog => run.logged(self.handle.check_log(), self.now),
                Request::Execute { call, deadline } => {
                    let guard = self.handle.metrics().begin(CallKind::Action);
                    let report = env.execute(&call, deadline, self);
                    guard.settle(&report, self.handle.metrics());
                    run.executed(report);
                }
                Request::Done => break,
            }
        }
        let result = self.handle.checked(run.conclude());
        self.handle.finish(&result, self.now);
        self.handle.summed(result, self.now)
    }
}

/// What an agent saw each time it was asked.
#[derive(Default)]
struct Script {
    decisions: VecDeque<Decision>,
    batches: Vec<Option<BatchProgress>>,
    progress: Vec<Option<ExecutionProgress>>,
    previous: Vec<Option<ToolResult>>,
    failures: Vec<Option<ExecutionFailure>>,
    guidance: Vec<String>,
    loaded: Vec<Vec<String>>,
}

impl Script {
    fn new(decisions: Vec<Decision>) -> Self {
        Script { decisions: decisions.into(), ..Script::default() }
    }

    fn decide(&mut self, run: &Run) -> Turn {
        let view = run.skill_view().as_ref().unwrap();
        assert!(view
            .directory
            .iter()
            .all(|summary| !view.loaded.iter().any(|s| s.name == summary.name)));
        self.batches.push(view.batch.dup());
        self.progress.push(view.execution.dup());
        self.previous.push(run.previous().dup());
        self.failures.push(view.failure.dup());
        self.guidance.push(view.guidance.dup());
        self.loaded.push(view.loaded.iter().map(|s| s.name.dup()).collect());
        match self.decisions.pop_front() {
            Some(decision) => Turn::Decide(decision),
            None => Turn::Fail(Error::Model("script exhausted".to_owned())),
        }
    }
}

fn task() -> Task {
    Task::new("generic task".to_owned()).unwrap()
}

fn run_with(
    script: &mut Script,
    env: &mut dyn Env,
    options: RunOptions,
    on_event: &mut dyn FnMut(Event, &mut Host),
) -> Outcome {
    let task = task();
    let mut host = Host::new(&task);
    let run = Run::new(&task, options, host.now);
    host.drive(
        run,
        env,
        &mut |run, _| script.decide(run),
        on_event,
        &mut |_| panic!("unexpected pause"),
    )
    .unwrap()
}

fn run(script: &mut Script, env: &mut dyn Env, max_decisions: usize) -> Outcome {
    let options = RunOptions { max_decisions, ..RunOptions::default() };
    run_with(script, env, options, &mut |_, _| {})
}

fn training() -> Vec<Action> {
    vec![
        call("set_mode", r#"{"mode":"training"}"#),
        call("start_training", "{}"),
        call("get_training_status", "{}"),
    ]
}

fn finish(actions: Vec<Action>) -> Decision {
    execute(actions, Continuation::Finish)
}

fn replace(actions: Vec<Action>) -> Decision {
    Decision::ReplaceRemaining { actions, then: Continuation::Finish }
}

fn starts(script: &mut Script, env: &mut dyn Env, max_decisions: usize) -> (Outcome, Vec<String>) {
    let mut started = vec![];
    let outcome = run_with(
        script,
        env,
        RunOptions { max_decisions, ..RunOptions::default() },
        &mut |event, _| {
            if let Event::ActionStarted { call, .. } = event {
                started.push(call.name);
            }
        },
    );
    (outcome, started)
}

#[test]
fn replacement_preserves_prefix_and_rejects_invalid_suffix_atomically() {
    let mut script = Script::new(vec![
        finish(training()),
        replace(vec![call("missing", "{}")]),
        replace(vec![call("get_state", "{}")]),
    ]);
    let (outcome, started) =
        starts(&mut script, &mut DemoAdapter::new(Scenario::TransientFailure), 3);
    assert_eq!(outcome.status, Status::Completed);
    assert_eq!(started, ["set_mode", "start_training", "get_state"]);
    assert_eq!(script.progress[2].as_ref().unwrap().completed, 1);
    assert_eq!(script.progress[2].as_ref().unwrap().actions.len(), 3);
    assert_eq!(outcome.execution.unwrap().completed, 2);
}

#[test]
fn replacement_carries_partial_batch_without_resetting_counts_or_attempts() {
    let mut script = Script::new(vec![
        finish(vec![trial(10)]),
        replace(vec![trial(10)]),
        execute(vec![call("reset_trial", "{}")], Continuation::Decide),
        replace(vec![trial(7)]),
    ]);
    let outcome = run(&mut script, &mut DemoAdapter::new(Scenario::BatchInterrupted), 4);
    assert_eq!(outcome.status, Status::Completed);
    assert_eq!(fact(&outcome.state, &["trial", "completed"]), "10");
    assert_eq!(script.batches[2].as_ref().unwrap().remaining, Some(7));
    let batch = outcome.batch.unwrap();
    assert_eq!(batch.completed, 10);
    assert_eq!(batch.attempts, 11);
}

#[test]
fn replacement_without_pending_execution_has_no_effect() {
    let mut script =
        Script::new(vec![replace(training()), Decision::Failed("no pending plan".to_owned())]);
    let outcome = run(&mut script, &mut DemoAdapter::new(Scenario::Normal), 2);
    assert_eq!(fact(&outcome.state, &["mode"]), "\"idle\"");
}

#[test]
fn three_skills_execute_in_order_with_one_decision_and_fresh_availability() {
    let mut script = Script::new(vec![finish(training())]);
    let (outcome, started) = starts(&mut script, &mut DemoAdapter::new(Scenario::Normal), 1);
    assert_eq!(outcome.status, Status::Completed);
    assert_eq!(outcome.decisions, 1);
    assert_eq!(started, ["set_mode", "start_training", "get_training_status"]);
    assert_eq!(outcome.execution.unwrap().completed, 3);
}

#[test]
fn failure_stops_tail_and_resume_does_not_replay_completed_prefix() {
    let mut script = Script::new(vec![finish(training()), Decision::Resume]);
    let (outcome, started) =
        starts(&mut script, &mut DemoAdapter::new(Scenario::TransientFailure), 2);
    assert_eq!(outcome.status, Status::Completed);
    assert_eq!(script.progress[1].as_ref().unwrap().completed, 1);
    assert_eq!(
        started,
        ["set_mode", "start_training", "start_training", "get_training_status"]
    );
}

#[test]
fn repeat_inside_sequence_preserves_count_then_executes_tail_after_repair() {
    let mut script = Script::new(vec![
        finish(vec![
            call("set_mode", r#"{"mode":"training"}"#),
            trial(10),
            call("get_state", "{}"),
        ]),
        execute(vec![call("reset_trial", "{}")], Continuation::Decide),
        Decision::Resume,
    ]);
    let outcome = run(&mut script, &mut DemoAdapter::new(Scenario::BatchInterrupted), 3);
    assert_eq!(outcome.status, Status::Completed);
    assert_eq!(script.progress[1].as_ref().unwrap().completed, 1);
    assert_eq!(script.batches[1].as_ref().unwrap().completed, 3);
    assert_eq!(fact(&outcome.state, &["trial", "completed"]), "10");
    assert_eq!(outcome.execution.unwrap().completed, 3);
}

#[test]
fn availability_revoked_by_earlier_step_blocks_later_call() {
    let mut actions = training();
    actions[2] = call("set_mode", r#"{"mode":"idle"}"#);
    let mut script = Script::new(vec![
        finish(actions),
        Decision::Failed("cannot change mode while running".to_owned()),
    ]);
    let outcome = run(&mut script, &mut DemoAdapter::new(Scenario::Normal), 2);
    assert_eq!(outcome.status, Status::Failed);
    assert_eq!(script.progress[1].as_ref().unwrap().completed, 2);
    assert_eq!(fact(&outcome.state, &["mode"]), "\"training\"");
}

fn on_demand() -> RunOptions {
    RunOptions { skill_mode: SkillMode::OnDemand, ..RunOptions::default() }
}

#[test]
fn on_demand_requires_selection_for_every_action_before_any_effect() {
    let mut script = Script::new(vec![
        load(&["set_mode"], &[]),
        finish(training()),
        Decision::Failed("not loaded".to_owned()),
    ]);
    let outcome = run_with(
        &mut script,
        &mut DemoAdapter::new(Scenario::Normal),
        on_demand(),
        &mut |_, _| {},
    );
    assert_eq!(fact(&outcome.state, &["mode"]), "\"idle\"");
}

#[test]
fn on_demand_can_select_initially_unavailable_steps_and_execute_after_prerequisite() {
    let mut script = Script::new(vec![
        load(&["set_mode", "start_training", "get_training_status"], &[]),
        finish(training()),
    ]);
    let outcome = run_with(
        &mut script,
        &mut DemoAdapter::new(Scenario::Normal),
        on_demand(),
        &mut |_, _| {},
    );
    assert_eq!(outcome.status, Status::Completed);
    assert_eq!(outcome.decisions, 2);
}

#[test]
fn invalid_lists_are_rejected_before_executing_prefix() {
    for actions in [
        vec![],
        (0..5).map(|_| call("get_state", "{}")).collect(),
        vec![call("set_mode", r#"{"mode":"training"}"#), call("missing", "{}")],
    ] {
        let mut script =
            Script::new(vec![finish(actions), Decision::Failed("invalid plan".to_owned())]);
        let outcome = run(&mut script, &mut DemoAdapter::new(Scenario::Normal), 2);
        assert_eq!(fact(&outcome.state, &["mode"]), "\"idle\"");
    }
}

#[test]
fn cancellation_after_first_action_prevents_tail() {
    let mut script = Script::new(vec![finish(training())]);
    let outcome = run_with(
        &mut script,
        &mut DemoAdapter::new(Scenario::Normal),
        RunOptions::default(),
        &mut |event, host| {
            if matches!(event, Event::Executed(_)) {
                host.handle.cancel();
            }
        },
    );
    assert_eq!(outcome.status, Status::Cancelled);
    assert_eq!(outcome.execution.unwrap().completed, 1);
    assert_eq!(fact(&outcome.state, &["training", "status"]), "\"not_started\"");
}

#[test]
fn pause_and_resume_preserve_sequence_position_without_model_calls() {
    let task = task();
    let mut host = Host::new(&task);
    let started = Run::new(&task, RunOptions::default(), host.now);
    let mut script = Script::new(vec![finish(training())]);
    let mut holds = 0;
    let outcome = host
        .drive(
            started,
            &mut DemoAdapter::new(Scenario::Normal),
            &mut |run, _| script.decide(run),
            &mut |event, host| {
                if let Event::Executed(result) = event {
                    if result.call.name == "set_mode" {
                        assert!(host.handle.pause());
                    }
                }
            },
            &mut |host| {
                assert_eq!(host.handle.status(), TaskStatus::Paused);
                holds += 1;
                assert!(host.handle.resume());
            },
        )
        .unwrap();
    assert_eq!(outcome.decisions, 1);
    assert_eq!(outcome.status, Status::Completed);
    assert_eq!(holds, 1);
}

/// Cannot be observed right after some calls.
struct ObservationFailure {
    demo: DemoAdapter,
    fail_next: bool,
    changes: usize,
}
impl Env for ObservationFailure {
    fn observe(&mut self, now: u128) -> Result<AppState, AdapterError> {
        if self.fail_next {
            self.fail_next = false;
            Err(AdapterError::Runtime("observation lost".to_owned()))
        } else {
            Ok(self.demo.observe(now))
        }
    }
    fn context(&mut self, context: &SkillContext) -> Result<DecisionContext, AdapterError> {
        self.demo.decision_context(context, "")
    }
    fn execute(
        &mut self,
        call: &ToolCall,
        deadline: Option<u128>,
        host: &mut Host,
    ) -> Result<ActionReport, AdapterError> {
        let report = demo_execute(&mut self.demo, call, deadline, host)?;
        if call.name == "set_mode" {
            self.changes += 1;
            self.fail_next = true;
        }
        Ok(report)
    }
}

#[test]
fn post_action_observation_failure_does_not_replay_confirmed_action() {
    let mut adapter = ObservationFailure {
        demo: DemoAdapter::new(Scenario::Normal),
        fail_next: false,
        changes: 0,
    };
    let mut script = Script::new(vec![
        finish(vec![call("set_mode", r#"{"mode":"training"}"#), call("get_state", "{}")]),
        Decision::Resume,
    ]);
    let outcome = run(&mut script, &mut adapter, 2);
    assert_eq!(outcome.status, Status::Completed);
    assert_eq!(adapter.changes, 1);
    assert_eq!(script.progress[1].as_ref().unwrap().completed, 1);
}

fn one(name: &str, arguments: &str, then: Continuation) -> Decision {
    execute(vec![call(name, arguments)], then)
}

#[test]
fn finish_returns_fresh_state_without_confirmation_decision() {
    let mut script =
        Script::new(vec![one("set_mode", r#"{"mode":"training"}"#, Continuation::Finish)]);
    let outcome = run(&mut script, &mut DemoAdapter::new(Scenario::Normal), 8);
    assert_eq!(outcome.status, Status::Completed);
    assert_eq!(outcome.decisions, 1);
    assert_eq!(fact(&outcome.state, &["mode"]), "\"training\"");
}

#[test]
fn failed_finish_returns_feedback_and_requires_a_new_decision() {
    let mut script = Script::new(vec![
        one("set_mode", r#"{"mode":"invalid"}"#, Continuation::Finish),
        one("set_mode", r#"{"mode":"training"}"#, Continuation::Finish),
    ]);
    let outcome = run(&mut script, &mut DemoAdapter::new(Scenario::Normal), 8);
    assert_eq!(outcome.status, Status::Completed);
    assert_eq!(outcome.decisions, 2);
    assert!(!script.previous[1].as_ref().unwrap().success);
}

/// Every call is interrupted.
struct Interrupted(DemoAdapter);
impl Env for Interrupted {
    fn observe(&mut self, now: u128) -> Result<AppState, AdapterError> {
        Ok(self.0.observe(now))
    }
    fn context(&mut self, context: &SkillContext) -> Result<DecisionContext, AdapterError> {
        self.0.decision_context(context, "")
    }
    fn execute(
        &mut self,
        _: &ToolCall,
        _: Option<u128>,
        _: &mut Host,
    ) -> Result<ActionReport, AdapterError> {
        Ok(ActionReport {
            outcome: ActionOutcome::Interrupted,
            message: "needs new decision".to_owned(),
        })
    }
}

#[test]
fn interrupted_finish_never_marks_task_complete() {
    let mut script = Script::new(vec![
        one("get_state", "{}", Continuation::Finish),
        Decision::Failed("cannot proceed".to_owned()),
    ]);
    let outcome = run(&mut script, &mut Interrupted(DemoAdapter::new(Scenario::Normal)), 8);
    assert_eq!(outcome.status, Status::Failed);
    assert_eq!(outcome.decisions, 2);
    assert!(matches!(
        script.previous[1].as_ref().unwrap().outcome,
        Some(ActionOutcome::Interrupted)
    ));
}

#[test]
fn normal_miss_is_completed_action_not_interruption() {
    let mut script = Script::new(vec![
        one("perform_trial", "{}", Continuation::Decide),
        one("perform_trial", "{}", Continuation::Decide),
        one("perform_trial", "{}", Continuation::Finish),
    ]);
    let outcome = run(&mut script, &mut DemoAdapter::new(Scenario::Normal), 8);
    assert_eq!(outcome.status, Status::Completed);
    assert_eq!(fact(&outcome.state, &["trial", "completed"]), "3");
    assert_eq!(fact(&outcome.state, &["trial", "successful"]), "2");
}

#[test]
fn completed_decide_batch_clears_pending_and_allows_another_batch() {
    let mut script = Script::new(vec![
        execute(vec![trial(2)], Continuation::Decide),
        execute(vec![trial(3)], Continuation::Finish),
    ]);
    let outcome = run(&mut script, &mut DemoAdapter::new(Scenario::Normal), 8);
    assert_eq!(outcome.status, Status::Completed);
    assert_eq!(outcome.decisions, 2);
    assert!(script.batches[1].is_none());
    assert!(script.previous[1].as_ref().unwrap().success);
    assert_eq!(fact(&outcome.state, &["trial", "completed"]), "5");
}

#[test]
fn resumed_batch_preserves_decide_and_executes_following_action() {
    let mut script = Script::new(vec![
        execute(vec![trial(5)], Continuation::Decide),
        one("reset_trial", "{}", Continuation::Decide),
        Decision::Resume,
        one("set_mode", r#"{"mode":"training"}"#, Continuation::Finish),
    ]);
    let outcome = run(&mut script, &mut DemoAdapter::new(Scenario::BatchInterrupted), 8);
    assert_eq!(outcome.status, Status::Completed);
    assert!(matches!(
        script.batches[2].as_ref().unwrap().continuation,
        Continuation::Decide
    ));
    assert!(script.batches[3].is_none());
    assert_eq!(fact(&outcome.state, &["trial", "completed"]), "5");
    assert_eq!(fact(&outcome.state, &["mode"]), "\"training\"");
}

#[test]
fn recovery_cannot_finish_while_batch_is_pending() {
    let mut script = Script::new(vec![
        execute(vec![trial(5)], Continuation::Finish),
        one("reset_trial", "{}", Continuation::Finish),
        one("reset_trial", "{}", Continuation::Decide),
        Decision::Resume,
    ]);
    let outcome = run(&mut script, &mut DemoAdapter::new(Scenario::BatchInterrupted), 8);
    assert!(!script.previous[2].as_ref().unwrap().success);
    assert_eq!(outcome.status, Status::Completed);
    assert!(matches!(outcome.batch.unwrap().continuation, Continuation::Finish));
    assert_eq!(fact(&outcome.state, &["trial", "completed"]), "5");
}
