#![allow(dead_code, unused_imports)]
use actweave::api::{
    Action, ActionOutcome, ActionReport, AdapterError, AppState, Availability, DecisionContext,
    ExecutionControl, ExecutionFailure, FailureStage, PauseState, RepeatRequest, SkillContext,
    ToolCall, ToolResult,
};
use actweave::batch::{BatchProgress, BatchStatus};
use actweave::copy::Dup;
use actweave::demo::{DemoAdapter, Execution};
use actweave::demo_runtime::Scenario;
use actweave::execution::{ExecutionProgress, ExecutionStatus};
use actweave::json::Json;
use actweave::kernel::{
    Continuation, Decision, Error, Event, Outcome, RunOptions, Signal, Status, Task,
};
use actweave::metrics::{CallCounts, CallKind};
use actweave::run::{DecisionReply, Request, Run};
use actweave::skills::{LoadSkills, SkillMode};
use actweave::task_runtime::{Boundary, TaskHandle, TaskStatus};
use std::collections::VecDeque;

const MS: u128 = 1_000_000;

fn json(text: &str) -> Json {
    Json::parse(text).unwrap()
}

fn fact(state: &AppState, path: &[&str]) -> String {
    let mut at = &state.facts;
    for key in path {
        at = at.get(key).unwrap();
    }
    at.to_text()
}

fn tool(name: &str, arguments: &str) -> ToolCall {
    ToolCall { name: name.to_owned(), arguments: json(arguments) }
}

fn call(name: &str, arguments: &str) -> Action {
    Action::Call(tool(name, arguments))
}

fn trial(times: u32) -> Action {
    Action::Repeat(RepeatRequest { call: tool("perform_trial", "{}"), times })
}

fn explore() -> Action {
    Action::UntilDone(tool("explore_step", "{}"))
}

fn execute(actions: Vec<Action>, then: Continuation) -> Decision {
    Decision::Execute { actions, then }
}

fn load(names: &[&str], tags: &[&str]) -> Decision {
    Decision::LoadSkills(LoadSkills {
        names: names.iter().map(|s| s.to_string()).collect(),
        tags: tags.iter().map(|s| s.to_string()).collect(),
    })
}

/// The application behind a run.
trait Env {
    fn observe(&mut self, now: u128) -> Result<AppState, AdapterError>;
    fn context(&mut self, context: &SkillContext) -> Result<DecisionContext, AdapterError>;
    fn execute(
        &mut self,
        call: &ToolCall,
        deadline: Option<u128>,
        host: &mut Host,
    ) -> Result<ActionReport, AdapterError>;
}

fn demo_execute(
    adapter: &mut DemoAdapter,
    call: &ToolCall,
    deadline: Option<u128>,
    host: &mut Host,
) -> Result<ActionReport, AdapterError> {
    let mut control = ExecutionControl { deadline, ..ExecutionControl::default() };
    if host.handle.is_cancelled() {
        control.cancellation.cancel();
    }
    match adapter.execute(call, &control, "", host.now)? {
        Execution::Report(report) => Ok(report),
        Execution::Trial => {
            let mut pause = PauseState::Running;
            let mut trial = adapter.begin_trial(&control, pause, host.now)?;
            loop {
                let report = adapter.step_trial(&mut trial, &control, &mut pause, host.now);
                if let Some(report) = report {
                    return report;
                }
            }
        }
    }
}

impl Env for DemoAdapter {
    fn observe(&mut self, now: u128) -> Result<AppState, AdapterError> {
        Ok(DemoAdapter::observe(self, now))
    }
    fn context(&mut self, context: &SkillContext) -> Result<DecisionContext, AdapterError> {
        self.decision_context(context, "")
    }
    fn execute(
        &mut self,
        call: &ToolCall,
        deadline: Option<u128>,
        host: &mut Host,
    ) -> Result<ActionReport, AdapterError> {
        demo_execute(self, call, deadline, host)
    }
}

/// What an agent does when it is asked.
enum Turn {
    Decide(Decision),
    Fail(Error),
    Cancel,
}

struct Host {
    now: u128,
    handle: TaskHandle,
}

impl Host {
    fn new(task: &Task) -> Self {
        Host { now: 1000 * MS, handle: TaskHandle::new("task-1".to_owned(), task) }
    }

    fn signal(&self) -> Signal {
        Signal { cancelled: self.handle.is_cancelled(), now: self.now }
    }

    /// Performs what the run asks for until it is done.
    fn drive(
        &mut self,
        run: Result<Run, Error>,
        env: &mut dyn Env,
        agent: &mut dyn FnMut(&Run, &mut Host) -> Turn,
        on_event: &mut dyn FnMut(Event, &mut Host),
        on_hold: &mut dyn FnMut(&mut Host),
    ) -> Result<Outcome, Error> {
        self.handle.start(self.now);
        let mut run = match run {
            Ok(run) => run,
            Err(error) => {
                let result = Err(error);
                self.handle.finish(&result, self.now);
                return result;
            }
        };
        loop {
            for event in run.take_events() {
                self.handle.event(&event);
                on_event(event, self);
            }
            match run.request() {
                Request::Checkpoint { deadline } => {
                    match self.handle.checkpoint(deadline, self.now) {
                        Ok(Boundary::Go) => run.checkpoint(Ok(())),
                        Ok(Boundary::Hold) => on_hold(self),
                        Err(error) => run.checkpoint(Err(error)),
                    }
                }
                Request::Signal => run.signal(self.signal()),
                Request::Observe => run.observed(env.observe(self.now)),
                Request::Context { step } => {
                    let reply = env.context(&SkillContext {
                        state: run.state(),
                        task_goal: run.goal(),
                        decision_step: step,
                        previous_result: run.previous().as_ref(),
                        failure: run.failure().as_ref(),
                        interruption: run.interruption().as_ref(),
                    });
                    run.context(reply);
                }
                Request::Decide { .. } => {
                    let reply = match agent(&run, self) {
                        Turn::Decide(decision) => DecisionReply::Decided(decision),
                        Turn::Fail(error) => DecisionReply::Failed(error),
                        Turn::Cancel => {
                            self.handle.cancel();
                            DecisionReply::Cancelled(self.signal())
                        }
                    };
                    run.decided(reply);
                }
                Request::CheckLog => run.logged(self.handle.check_log(), self.now),
                Request::Execute { call, deadline } => {
                    let guard = self.handle.metrics().begin(CallKind::Action);
                    let report = env.execute(&call, deadline, self);
                    guard.settle(&report, self.handle.metrics());
                    run.executed(report);
                }
                Request::Done => break,
            }
        }
        let result = self.handle.checked(run.conclude());
        self.handle.finish(&result, self.now);
        self.handle.summed(result, self.now)
    }
}

/// What an agent saw each time it was asked.
#[derive(Default)]
struct Script {
    decisions: VecDeque<Decision>,
    batches: Vec<Option<BatchProgress>>,
    progress: Vec<Option<ExecutionProgress>>,
    previous: Vec<Option<ToolResult>>,
    failures: Vec<Option<ExecutionFailure>>,
    guidance: Vec<String>,
    loaded: Vec<Vec<String>>,
}

impl Script {
    fn new(decisions: Vec<Decision>) -> Self {
        Script { decisions: decisions.into(), ..Script::default() }
    }

    fn decide(&mut self, run: &Run) -> Turn {
        let view = run.skill_view().as_ref().unwrap();
        assert!(view
            .directory
            .iter()
            .all(|summary| !view.loaded.iter().any(|s| s.name == summary.name)));
        self.batches.push(view.batch.dup());
        self.progress.push(view.execution.dup());
        self.previous.push(run.previous().dup());
        self.failures.push(view.failure.dup());
        self.guidance.push(view.guidance.dup());
        self.loaded.push(view.loaded.iter().map(|s| s.name.dup()).collect());
        match self.decisions.pop_front() {
            Some(decision) => Turn::Decide(decision),
            None => Turn::Fail(Error::Model("script exhausted".to_owned())),
        }
    }
}

fn task() -> Task {
    Task::new("generic task".to_owned()).unwrap()
}

fn run_with(
    script: &mut Script,
    env: &mut dyn Env,
    options: RunOptions,
    on_event: &mut dyn FnMut(Event, &mut Host),
) -> Outcome {
    let task = task();
    let mut host = Host::new(&task);
    let run = Run::new(&task, options, host.now);
    host.drive(
        run,
        env,
        &mut |run, _| script.decide(run),
        on_event,
        &mut |_| panic!("unexpected pause"),
    )
    .unwrap()
}

fn run(script: &mut Script, env: &mut dyn Env, max_decisions: usize) -> Outcome {
    let options = RunOptions { max_decisions, ..RunOptions::default() };
    run_with(script, env, options, &mut |_, _| {})
}

fn finish(times: u32) -> Decision {
    execute(vec![trial(times)], Continuation::Finish)
}

fn decide(name: &str) -> Decision {
    execute(vec![call(name, "{}")], Continuation::Decide)
}

#[test]
fn one_decision_executes_ten_actions_and_counts_normal_misses() {
    let mut script = Script::new(vec![finish(10)]);
    let mut progresses = vec![];
    let outcome = run_with(
        &mut script,
        &mut DemoAdapter::new(Scenario::Normal),
        RunOptions { max_decisions: 1, ..RunOptions::default() },
        &mut |event, _| {
            if let Event::BatchProgress(progress) = event {
                progresses.push(progress);
            }
        },
    );
    assert_eq!(outcome.status, Status::Completed);
    assert_eq!(outcome.decisions, 1);
    assert_eq!(script.batches.len(), 1);
    let batch = outcome.batch.unwrap();
    assert_eq!(
        (batch.completed, batch.successful, batch.attempts, batch.remaining),
        (10, 7, 10, Some(0))
    );
    assert_eq!(fact(&outcome.state, &["trial", "completed"]), "10");
    assert!(progresses.iter().any(|p| p.completed == 3 && p.successful == 2));
}

#[test]
fn preparation_is_outside_batch_and_requires_its_own_decision() {
    let mut script = Script::new(vec![
        execute(vec![call("set_mode", r#"{"mode":"training"}"#)], Continuation::Decide),
        finish(10),
    ]);
    let outcome = run(&mut script, &mut DemoAdapter::new(Scenario::Normal), 2);
    assert_eq!(outcome.decisions, 2);
    assert_eq!(outcome.batch.unwrap().completed, 10);
    assert_eq!(fact(&outcome.state, &["mode"]), "\"training\"");
}

#[test]
fn interruption_preserves_progress_and_resume_only_executes_remaining_actions() {
    let mut script = Script::new(vec![finish(10), decide("reset_trial"), Decision::Resume]);
    let outcome = run(&mut script, &mut DemoAdapter::new(Scenario::BatchInterrupted), 3);
    assert_eq!(outcome.status, Status::Completed);
    assert_eq!(script.batches[1].as_ref().unwrap().completed, 3);
    assert_eq!(script.batches[2].as_ref().unwrap().remaining, Some(7));
    let batch = outcome.batch.unwrap();
    assert_eq!((batch.completed, batch.successful, batch.attempts), (10, 7, 11));
    assert_eq!(fact(&outcome.state, &["trial", "completed"]), "10");
}

#[test]
fn cannot_restart_or_bypass_an_interrupted_batch() {
    let mut script = Script::new(vec![
        finish(10),
        finish(10),
        decide("perform_trial"),
        decide("reset_trial"),
        Decision::Resume,
    ]);
    let mut errors = vec![];
    let outcome = run_with(
        &mut script,
        &mut DemoAdapter::new(Scenario::BatchInterrupted),
        RunOptions { max_decisions: 5, ..RunOptions::default() },
        &mut |event, _| {
            if let Event::ExecutionFailed(failure) = event {
                if failure.stage == FailureStage::Validation {
                    errors.push(failure.message);
                }
            }
        },
    );
    assert_eq!(outcome.batch.unwrap().completed, 10);
    assert!(errors[0].contains("execution pending"));
    assert!(errors[1].contains("Resume"));
}

#[test]
fn invalid_repeat_counts_and_nonrepeatable_skills_never_execute() {
    for decision in [
        finish(0),
        finish(101),
        execute(
            vec![Action::Repeat(RepeatRequest { call: tool("get_state", "{}"), times: 10 })],
            Continuation::Finish,
        ),
    ] {
        let mut script = Script::new(vec![decision, Decision::Failed("invalid".to_owned())]);
        let outcome = run(&mut script, &mut DemoAdapter::new(Scenario::Normal), 2);
        assert!(outcome.batch.is_none());
        assert_eq!(fact(&outcome.state, &["trial", "completed"]), "0");
    }
}

#[test]
fn cancellation_stops_between_actions_without_another_decision() {
    let mut script = Script::new(vec![finish(10)]);
    let outcome = run_with(
        &mut script,
        &mut DemoAdapter::new(Scenario::Normal),
        RunOptions::default(),
        &mut |event, host| {
            if let Event::BatchProgress(progress) = event {
                if progress.completed == 3 {
                    host.handle.cancel();
                }
            }
        },
    );
    assert_eq!(outcome.status, Status::Cancelled);
    assert_eq!(outcome.batch.unwrap().completed, 3);
    assert_eq!(script.batches.len(), 1);
}

#[test]
fn attempt_budget_includes_failed_attempts_across_resumption() {
    let mut script = Script::new(vec![finish(10), decide("reset_trial"), Decision::Resume]);
    let outcome = run_with(
        &mut script,
        &mut DemoAdapter::new(Scenario::BatchInterrupted),
        RunOptions { max_batch_attempts: 10, ..RunOptions::default() },
        &mut |_, _| {},
    );
    assert_eq!(outcome.status, Status::Failed);
    let batch = outcome.batch.unwrap();
    assert_eq!(batch.status, BatchStatus::AttemptLimit);
    assert_eq!((batch.completed, batch.attempts), (9, 10));
}

/// Works until its control stops it.
struct Cooperative(DemoAdapter);
impl Env for Cooperative {
    fn observe(&mut self, now: u128) -> Result<AppState, AdapterError> {
        Ok(self.0.observe(now))
    }
    fn context(&mut self, context: &SkillContext) -> Result<DecisionContext, AdapterError> {
        self.0.decision_context(context, "")
    }
    fn execute(
        &mut self,
        _: &ToolCall,
        deadline: Option<u128>,
        host: &mut Host,
    ) -> Result<ActionReport, AdapterError> {
        let control = ExecutionControl { deadline, ..ExecutionControl::default() };
        loop {
            control.check(host.now)?;
            host.now += MS;
        }
    }
}

#[test]
fn cooperative_action_times_out_without_counting_an_interrupted_action() {
    let mut script = Script::new(vec![finish(10)]);
    let outcome = run_with(
        &mut script,
        &mut Cooperative(DemoAdapter::new(Scenario::Normal)),
        RunOptions { batch_timeout: 10 * MS, ..RunOptions::default() },
        &mut |_, _| {},
    );
    assert_eq!(outcome.status, Status::Failed);
    let batch = outcome.batch.unwrap();
    assert_eq!(batch.status, BatchStatus::TimedOut);
    assert_eq!(batch.completed, 0);
}

#[test]
fn false_completion_cannot_hide_an_interrupted_batch() {
    let mut script = Script::new(vec![finish(10), Decision::Completed("done".to_owned())]);
    let outcome = run(&mut script, &mut DemoAdapter::new(Scenario::BatchInterrupted), 2);
    assert_eq!(outcome.status, Status::Failed);
    assert_eq!(outcome.batch.unwrap().remaining, Some(7));
}
