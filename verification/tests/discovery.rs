#![allow(dead_code, unused_imports)]
use actweave::api::{
    Action, ActionOutcome, ActionReport, AdapterError, AppState, Availability, DecisionContext,
    ExecutionControl, ExecutionFailure, FailureStage, PauseState, RepeatRequest, SkillContext,
    ToolCall, ToolResult,
};
use actweave::batch::{BatchProgress, BatchStatus};
use actweave::copy::Dup;
use actweave::demo::{DemoAdapter, Execution};
use actweave::demo_runtime::Scenario;
use actweave::execution::{ExecutionProgress, ExecutionStatus};
use actweave::json::Json;
use actweave::kernel::{
    Continuation, Decision, Error, Event, Outcome, RunOptions, Signal, Status, Task,
};
use actweave::metrics::{CallCounts, CallKind};
use actweave::run::{DecisionReply, Request, Run};
use actweave::skills::{LoadSkills, SkillMode};
use actweave::task_runtime::{Boundary, TaskHandle, TaskStatus};
use std::collections::VecDeque;

const MS: u128 = 1_000_000;

fn json(text: &str) -> Json {
    Json::parse(text).unwrap()
}

fn fact(state: &AppState, path: &[&str]) -> String {
    let mut at = &state.facts;
    for key in path {
        at = at.get(key).unwrap();
    }
    at.to_text()
}

fn tool(name: &str, arguments: &str) -> ToolCall {
    ToolCall { name: name.to_owned(), arguments: json(arguments) }
}

fn call(name: &str, arguments: &str) -> Action {
    Action::Call(tool(name, arguments))
}

fn trial(times: u32) -> Action {
    Action::Repeat(RepeatRequest { call: tool("perform_trial", "{}"), times })
}

fn explore() -> Action {
    Action::UntilDone(tool("explore_step", "{}"))
}

fn execute(actions: Vec<Action>, then: Continuation) -> Decision {
    Decision::Execute { actions, then }
}

fn load(names: &[&str], tags: &[&str]) -> Decision {
    Decision::LoadSkills(LoadSkills {
        names: names.iter().map(|s| s.to_string()).collect(),
        tags: tags.iter().map(|s| s.to_string()).collect(),
    })
}

/// The application behind a run.
trait Env {
    fn observe(&mut self, now: u128) -> Result<AppState, AdapterError>;
    fn context(&mut self, context: &SkillContext) -> Result<DecisionContext, AdapterError>;
    fn execute(
        &mut self,
        call: &ToolCall,
        deadline: Option<u128>,
        host: &mut Host,
    ) -> Result<ActionReport, AdapterError>;
}

fn demo_execute(
    adapter: &mut DemoAdapter,
    call: &ToolCall,
    deadline: Option<u128>,
    host: &mut Host,
) -> Result<ActionReport, AdapterError> {
    let mut control = ExecutionControl { deadline, ..ExecutionControl::default() };
    if host.handle.is_cancelled() {
        control.cancellation.cancel();
    }
    match adapter.execute(call, &control, "", host.now)? {
        Execution::Report(report) => Ok(report),
        Execution::Trial => {
            let mut pause = PauseState::Running;
            let mut trial = adapter.begin_trial(&control, pause, host.now)?;
            loop {
                let report = adapter.step_trial(&mut trial, &control, &mut pause, host.now);
                if let Some(report) = report {
                    return report;
                }
            }
        }
    }
}

impl Env for DemoAdapter {
    fn observe(&mut self, now: u128) -> Result<AppState, AdapterError> {
        Ok(DemoAdapter::observe(self, now))
    }
    fn context(&mut self, context: &SkillContext) -> Result<DecisionContext, AdapterError> {
        self.decision_context(context, "")
    }
    fn execute(
        &mut self,
        call: &ToolCall,
        deadline: Option<u128>,
        host: &mut Host,
    ) -> Result<ActionReport, AdapterError> {
        demo_execute(self, call, deadline, host)
    }
}

/// What an agent does when it is asked.
enum Turn {
    Decide(Decision),
    Fail(Error),
    Cancel,
}

struct Host {
    now: u128,
    handle: TaskHandle,
}

impl Host {
    fn new(task: &Task) -> Self {
        Host { now: 1000 * MS, handle: TaskHandle::new("task-1".to_owned(), task) }
    }

    fn signal(&self) -> Signal {
        Signal { cancelled: self.handle.is_cancelled(), now: self.now }
    }

    /// Performs what the run asks for until it is done.
    fn drive(
        &mut self,
        run: Result<Run, Error>,
        env: &mut dyn Env,
        agent: &mut dyn FnMut(&Run, &mut Host) -> Turn,
        on_event: &mut dyn FnMut(Event, &mut Host),
        on_hold: &mut dyn FnMut(&mut Host),
    ) -> Result<Outcome, Error> {
        self.handle.start(self.now);
        let mut run = match run {
            Ok(run) => run,
            Err(error) => {
                let result = Err(error);
                self.handle.finish(&result, self.now);
                return result;
            }
        };
        loop {
            for event in run.take_events() {
                self.handle.event(&event);
                on_event(event, self);
            }
            match run.request() {
                Request::Checkpoint { deadline } => {
                    match self.handle.checkpoint(deadline, self.now) {
                        Ok(Boundary::Go) => run.checkpoint(Ok(())),
                        Ok(Boundary::Hold) => on_hold(self),
                        Err(error) => run.checkpoint(Err(error)),
                    }
                }
                Request::Signal => run.signal(self.signal()),
                Request::Observe => run.observed(env.observe(self.now)),
                Request::Context { step } => {
                    let reply = env.context(&SkillContext {
                        state: run.state(),
                        task_goal: run.goal(),
                        decision_step: step,
                        previous_result: run.previous().as_ref(),
                        failure: run.failure().as_ref(),
                        interruption: run.interruption().as_ref(),
                    });
                    run.context(reply);
                }
                Request::Decide { .. } => {
                    let reply = match agent(&run, self) {
                        Turn::Decide(decision) => DecisionReply::Decided(decision),
                        Turn::Fail(error) => DecisionReply::Failed(error),
                        Turn::Cancel => {
                            self.handle.cancel();
                            DecisionReply::Cancelled(self.signal())
                        }
                    };
                    run.decided(reply);
                }
                Request::CheckLog => run.logged(self.handle.check_log(), self.now),
                Request::Execute { call, deadline } => {
                    let guard = self.handle.metrics().begin(CallKind::Action);
                    let report = env.execute(&call, deadline, self);
                    guard.settle(&report, self.handle.metrics());
                    run.executed(report);
                }
                Request::Done => break,
            }
        }
        let result = self.handle.checked(run.conclude());
        self.handle.finish(&result, self.now);
        self.handle.summed(result, self.now)
    }
}

/// What an agent saw each time it was asked.
#[derive(Default)]
struct Script {
    decisions: VecDeque<Decision>,
    batches: Vec<Option<BatchProgress>>,
    progress: Vec<Option<ExecutionProgress>>,
    previous: Vec<Option<ToolResult>>,
    failures: Vec<Option<ExecutionFailure>>,
    guidance: Vec<String>,
    loaded: Vec<Vec<String>>,
}

impl Script {
    fn new(decisions: Vec<Decision>) -> Self {
        Script { decisions: decisions.into(), ..Script::default() }
    }

    fn decide(&mut self, run: &Run) -> Turn {
        let view = run.skill_view().as_ref().unwrap();
        assert!(view
            .directory
            .iter()
            .all(|summary| !view.loaded.iter().any(|s| s.name == summary.name)));
        self.batches.push(view.batch.dup());
        self.progress.push(view.execution.dup());
        self.previous.push(run.previous().dup());
        self.failures.push(view.failure.dup());
        self.guidance.push(view.guidance.dup());
        self.loaded.push(view.loaded.iter().map(|s| s.name.dup()).collect());
        match self.decisions.pop_front() {
            Some(decision) => Turn::Decide(decision),
            None => Turn::Fail(Error::Model("script exhausted".to_owned())),
        }
    }
}

fn task() -> Task {
    Task::new("generic task".to_owned()).unwrap()
}

fn run_with(
    script: &mut Script,
    env: &mut dyn Env,
    options: RunOptions,
    on_event: &mut dyn FnMut(Event, &mut Host),
) -> Outcome {
    let task = task();
    let mut host = Host::new(&task);
    let run = Run::new(&task, options, host.now);
    host.drive(
        run,
        env,
        &mut |run, _| script.decide(run),
        on_event,
        &mut |_| panic!("unexpected pause"),
    )
    .unwrap()
}

fn run(script: &mut Script, env: &mut dyn Env, max_decisions: usize) -> Outcome {
    let options = RunOptions { max_decisions, ..RunOptions::default() };
    run_with(script, env, options, &mut |_, _| {})
}

fn one(name: &str, arguments: &str, then: Continuation) -> Decision {
    execute(vec![call(name, arguments)], then)
}

fn on_demand(max_decisions: usize) -> RunOptions {
    RunOptions { max_decisions, skill_mode: SkillMode::OnDemand, ..RunOptions::default() }
}

#[test]
fn names_and_tags_replace_selection_and_invalid_load_preserves_it() {
    let mut script = Script::new(vec![
        load(&["set_mode"], &[]),
        load(&[], &["missing"]),
        one("set_mode", r#"{"mode":"training"}"#, Continuation::Decide),
        load(&[], &["training"]),
        one("set_mode", r#"{"mode":"idle"}"#, Continuation::Decide),
        Decision::Completed("mode ready".to_owned()),
    ]);
    let mut loads = vec![];
    let mut results = vec![];
    let outcome = run_with(
        &mut script,
        &mut DemoAdapter::new(Scenario::Normal),
        on_demand(8),
        &mut |event, _| match event {
            Event::SkillsLoaded(result) => loads.push(result),
            Event::Executed(result) => results.push(result),
            _ => {}
        },
    );
    assert_eq!(outcome.status, Status::Completed);
    assert_eq!(fact(&outcome.state, &["mode"]), "\"training\"");
    let expected: Vec<Vec<&str>> = vec![
        vec![],
        vec!["set_mode"],
        vec!["set_mode"],
        vec!["set_mode"],
        vec!["start_training", "get_training_status"],
        vec!["start_training", "get_training_status"],
    ];
    assert_eq!(script.loaded, expected);
    assert_eq!(loads.iter().map(|r| r.success).collect::<Vec<_>>(), vec![true, false, true]);
    assert_eq!(loads[1].selected, vec!["set_mode"]);
    assert!(results[1].message.contains("not loaded"));
}

/// Becomes unavailable after the first look.
struct Revoke {
    demo: DemoAdapter,
    observations: usize,
    executions: usize,
}
impl Env for Revoke {
    fn observe(&mut self, now: u128) -> Result<AppState, AdapterError> {
        let mut state = self.demo.observe(now);
        if self.observations > 0 {
            let mut training = Json::object();
            training.set("status", Json::text("not_started"));
            training.set("available", Json::Bool(false));
            state.facts.set("training", training);
        }
        self.observations += 1;
        Ok(state)
    }
    fn context(&mut self, context: &SkillContext) -> Result<DecisionContext, AdapterError> {
        self.demo.decision_context(context, "")
    }
    fn execute(
        &mut self,
        call: &ToolCall,
        deadline: Option<u128>,
        host: &mut Host,
    ) -> Result<ActionReport, AdapterError> {
        self.executions += 1;
        demo_execute(&mut self.demo, call, deadline, host)
    }
}

#[test]
fn loaded_skill_is_rechecked_and_cannot_bypass_revoked_availability() {
    let mut demo = DemoAdapter::new(Scenario::Normal);
    demo.execute(
        &tool("set_mode", r#"{"mode":"training"}"#),
        &ExecutionControl::default(),
        "",
        0,
    )
    .unwrap();
    let mut adapter = Revoke { demo, observations: 0, executions: 0 };
    let mut script = Script::new(vec![
        load(&["start_training"], &[]),
        one("start_training", "{}", Continuation::Decide),
        Decision::Failed("unavailable".to_owned()),
    ]);
    let mut failure = None;
    let outcome = run_with(&mut script, &mut adapter, on_demand(4), &mut |event, _| {
        if let Event::Executed(result) = event {
            failure = Some(result);
        }
    });
    assert_eq!(outcome.status, Status::Failed);
    assert_eq!(adapter.executions, 0);
    assert!(failure.unwrap().message.contains("unavailable"));
    assert!(script.loaded.iter().all(|names| names.is_empty()));
}

#[test]
fn repeated_loading_is_bounded_by_shared_decision_limit() {
    let mut script = Script::new(vec![load(&["set_mode"], &[]), load(&["set_mode"], &[])]);
    let outcome = run_with(
        &mut script,
        &mut DemoAdapter::new(Scenario::Normal),
        on_demand(2),
        &mut |_, _| {},
    );
    assert_eq!(outcome.reason, "decision limit reached");
    assert_eq!(outcome.decisions, 2);
    assert_eq!(fact(&outcome.state, &["mode"]), "\"idle\"");
}

/// Cannot be observed right after one call; remembers what it was told.
struct Recording {
    demo: DemoAdapter,
    fail_after: Option<&'static str>,
    fail_next: bool,
    calls: Vec<String>,
    feedback: Vec<(Option<ToolResult>, Option<ExecutionFailure>, Option<ExecutionFailure>)>,
}
impl Recording {
    fn new(scenario: Scenario, fail_after: Option<&'static str>) -> Self {
        Recording {
            demo: DemoAdapter::new(scenario),
            fail_after,
            fail_next: false,
            calls: vec![],
            feedback: vec![],
        }
    }
}
impl Env for Recording {
    fn observe(&mut self, now: u128) -> Result<AppState, AdapterError> {
        if self.fail_next {
            self.fail_next = false;
            Err(AdapterError::Runtime("observation lost".to_owned()))
        } else {
            Ok(self.demo.observe(now))
        }
    }
    fn context(&mut self, context: &SkillContext) -> Result<DecisionContext, AdapterError> {
        self.feedback.push((
            context.previous_result.map(|r| r.dup()),
            context.failure.map(|f| f.dup()),
            context.interruption.map(|f| f.dup()),
        ));
        self.demo.decision_context(context, "")
    }
    fn execute(
        &mut self,
        call: &ToolCall,
        deadline: Option<u128>,
        host: &mut Host,
    ) -> Result<ActionReport, AdapterError> {
        self.calls.push(call.name.dup());
        let report = demo_execute(&mut self.demo, call, deadline, host)?;
        if self.fail_after == Some(call.name.as_str()) {
            self.fail_after = None;
            self.fail_next = true;
        }
        Ok(report)
    }
}

fn training_mode() -> Action {
    call("set_mode", r#"{"mode":"training"}"#)
}

#[test]
fn guidance_uses_supplied_state_and_replaces_previous_stage() {
    let mut adapter = DemoAdapter::new(Scenario::Normal);
    let initial = adapter.observe(0);
    let resolve = |adapter: &DemoAdapter, state: &AppState| {
        adapter
            .decision_context(&SkillContext {
                state,
                task_goal: "start training",
                decision_step: 1,
                previous_result: None,
                failure: None,
                interruption: None,
            }, "")
            .unwrap()
            .guidance
    };
    let idle = resolve(&adapter, &initial);
    let mode = training_mode();
    adapter.execute(mode.call(), &ExecutionControl::default(), "", 0).unwrap();
    let ready = resolve(&adapter, &adapter.observe(0));
    assert_ne!(idle, ready);
    assert!(ready.contains("前置条件已满足"));
    assert!(!ready.contains(&idle));
    assert_eq!(resolve(&adapter, &initial), idle);
}

#[test]
fn successful_repair_preserves_original_interruption_for_adapter_and_model() {
    let mut adapter = Recording::new(Scenario::ExplorationInterrupted, None);
    let mut script = Script::new(vec![
        execute(vec![explore()], Continuation::Decide),
        one("reset_exploration", "{}", Continuation::Decide),
        Decision::Resume,
        Decision::Completed("exploration finished".to_owned()),
    ]);
    let outcome = run(&mut script, &mut adapter, 4);
    assert_eq!(outcome.status, Status::Completed);
    assert!(script.guidance[1].contains("reset_exploration"));
    assert!(script.guidance[2].contains("继续原先中断"));
    assert!(!script.guidance[2].contains("reset_exploration"));
    assert!(script.failures[2].is_none());
    let interruption = script.progress[2].as_ref().unwrap().failure.as_ref().unwrap();
    assert_eq!(interruption.stage, FailureStage::Execution);
    assert!(adapter.feedback.iter().any(|(previous, failure, interruption)| {
        failure.is_none()
            && previous
                .as_ref()
                .is_some_and(|r| r.success && r.call.name == "reset_exploration")
            && interruption
                .as_ref()
                .is_some_and(|i| i.call.as_ref().unwrap().name == "explore_step")
    }));
    assert!(script.failures[3].is_none());
    assert!(script.progress[3].is_none());
    assert!(script.guidance[3].contains("已确认探索完成"));
    assert!(!script.guidance[3].contains("继续原先中断"));
}

#[test]
fn successful_single_action_with_observation_failure_is_not_replayed() {
    let mut adapter = Recording::new(Scenario::Normal, Some("set_mode"));
    let mut script = Script::new(vec![
        execute(vec![training_mode()], Continuation::Finish),
        Decision::Resume,
    ]);
    let mut failures = vec![];
    let outcome = run_with(
        &mut script,
        &mut adapter,
        RunOptions { max_decisions: 2, ..RunOptions::default() },
        &mut |event, _| {
            if let Event::ExecutionFailed(failure) = event {
                failures.push(failure);
            }
        },
    );
    assert_eq!(outcome.status, Status::Completed);
    assert_eq!(adapter.calls, ["set_mode"]);
    assert!(script.previous[1].as_ref().unwrap().success);
    let failure = script.failures[1].as_ref().unwrap();
    assert_eq!(failure.stage, FailureStage::Observation);
    assert_eq!(
        failure.call.as_ref().unwrap().arguments.to_text(),
        "{\"mode\":\"training\"}"
    );
    assert_eq!(script.progress[1].as_ref().unwrap().completed, 1);
    assert!(script.guidance[1].contains("不能重做"));
    assert_eq!(failures.len(), 1);
    assert_eq!(failures[0].stage, FailureStage::Observation);
}

#[test]
fn repair_observation_failure_does_not_replace_original_pending_work() {
    let mut adapter =
        Recording::new(Scenario::ExplorationInterrupted, Some("reset_exploration"));
    let mut script = Script::new(vec![
        execute(vec![explore()], Continuation::Finish),
        one("reset_exploration", "{}", Continuation::Decide),
        Decision::Resume,
    ]);
    let outcome = run(&mut script, &mut adapter, 3);
    assert_eq!(outcome.status, Status::Completed);
    assert_eq!(script.failures[2].as_ref().unwrap().stage, FailureStage::Observation);
    let execution = script.progress[2].as_ref().unwrap();
    assert_eq!(execution.failure.as_ref().unwrap().stage, FailureStage::Execution);
    assert_eq!(execution.actions[0].call().name, "explore_step");
    assert!(script.previous[2].as_ref().unwrap().success);
    assert_eq!(adapter.calls.iter().filter(|n| *n == "reset_exploration").count(), 1);
    assert_eq!(outcome.batch.unwrap().attempts, 5);
}

#[test]
fn actual_execution_failure_drives_retry_guidance_without_inventing_completion() {
    let mut adapter = Recording::new(Scenario::TransientFailure, None);
    let mut script = Script::new(vec![
        execute(vec![training_mode()], Continuation::Decide),
        one("start_training", "{}", Continuation::Decide),
        one("start_training", "{}", Continuation::Finish),
    ]);
    let outcome = run(&mut script, &mut adapter, 3);
    assert_eq!(outcome.status, Status::Completed);
    assert!(!script.previous[2].as_ref().unwrap().success);
    assert_eq!(script.failures[2].as_ref().unwrap().stage, FailureStage::Execution);
    assert!(script.guidance[2].contains("上次启动未成功"));
    assert!(adapter
        .feedback
        .iter()
        .any(|(_, failure, _)| failure
            .as_ref()
            .is_some_and(|f| f.stage == FailureStage::Execution)));
}

#[test]
fn validation_identifies_the_bad_action_and_availability_is_distinct() {
    let mut adapter = Recording::new(Scenario::Normal, None);
    let mut script = Script::new(vec![
        execute(vec![training_mode(), call("missing", "{}")], Continuation::Finish),
        one("start_training", "{}", Continuation::Finish),
        Decision::Failed("unavailable".to_owned()),
    ]);
    run(&mut script, &mut adapter, 3);
    assert!(adapter.calls.is_empty());
    let invalid = script.failures[1].as_ref().unwrap();
    assert_eq!(invalid.stage, FailureStage::Validation);
    assert_eq!(invalid.call.as_ref().unwrap().name, "missing");
    let unavailable = script.failures[2].as_ref().unwrap();
    assert_eq!(unavailable.stage, FailureStage::Availability);
    assert_eq!(unavailable.call.as_ref().unwrap().name, "start_training");
}
