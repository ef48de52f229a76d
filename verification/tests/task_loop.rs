#![allow(dead_code, unused_imports)]
use actweave::api::{
    Action, ActionOutcome, ActionReport, AdapterError, AppState, Availability, DecisionContext,
    ExecutionControl, ExecutionFailure, FailureStage, PauseState, RepeatRequest, SkillContext,
    ToolCall, ToolResult,
};
use actweave::batch::{BatchProgress, BatchStatus};
use actweave::copy::Dup;
use actweave::demo::{DemoAdapter, Execution};
use actweave::demo_runtime::Scenario;
use actweave::execution::{ExecutionProgress, ExecutionStatus};
use actweave::json::Json;
use actweave::kernel::{
    Continuation, Decision, Error, Event, Outcome, RunOptions, Signal, Status, Task,
};
use actweave::metrics::{CallCounts, CallKind};
use actweave::run::{DecisionReply, Request, Run};
use actweave::skills::{LoadSkills, SkillMode};
use actweave::task_runtime::{Boundary, TaskHandle, TaskStatus};
use std::collections::VecDeque;

const MS: u128 = 1_000_000;

fn json(text: &str) -> Json {
    Json::parse(text).unwrap()
}

fn fact(state: &AppState, path: &[&str]) -> String {
    let mut at = &state.facts;
    for key in path {
        at = at.get(key).unwrap();
    }
    at.to_text()
}

fn tool(name: &str, arguments: &str) -> ToolCall {
    ToolCall { name: name.to_owned(), arguments: json(arguments) }
}

fn call(name: &str, arguments: &str) -> Action {
    Action::Call(tool(name, arguments))
}

fn trial(times: u32) -> Action {
    Action::Repeat(RepeatRequest { call: tool("perform_trial", "{}"), times })
}

fn explore() -> Action {
    Action::UntilDone(tool("explore_step", "{}"))
}

fn execute(actions: Vec<Action>, then: Continuation) -> Decision {
    Decision::Execute { actions, then }
}

fn load(names: &[&str], tags: &[&str]) -> Decision {
    Decision::LoadSkills(LoadSkills {
        names: names.iter().map(|s| s.to_string()).collect(),
        tags: tags.iter().map(|s| s.to_string()).collect(),
    })
}

/// The application behind a run.
trait Env {
    fn observe(&mut self, now: u128) -> Result<AppState, AdapterError>;
    fn context(&mut self, context: &SkillContext) -> Result<DecisionContext, AdapterError>;
    fn execute(
        &mut self,
        call: &ToolCall,
        deadline: Option<u128>,
        host: &mut Host,
    ) -> Result<ActionReport, AdapterError>;
}

fn demo_execute(
    adapter: &mut DemoAdapter,
    call: &ToolCall,
    deadline: Option<u128>,
    host: &mut Host,
) -> Result<ActionReport, AdapterError> {
    let mut control = ExecutionControl { deadline, ..ExecutionControl::default() };
    if host.handle.is_cancelled() {
        control.cancellation.cancel();
    }
    match adapter.execute(call, &control, "", host.now)? {
        Execution::Report(report) => Ok(report),
        Execution::Trial => {
            let mut pause = PauseState::Running;
            let mut trial = adapter.begin_trial(&control, pause, host.now)?;
            loop {
                let report = adapter.step_trial(&mut trial, &control, &mut pause, host.now);
                if let Some(report) = report {
                    return report;
                }
            }
        }
    }
}

impl Env for DemoAdapter {
    fn observe(&mut self, now: u128) -> Result<AppState, AdapterError> {
        Ok(DemoAdapter::observe(self, now))
    }
    fn context(&mut self, context: &SkillContext) -> Result<DecisionContext, AdapterError> {
        self.decision_context(context, "")
    }
    fn execute(
        &mut self,
        call: &ToolCall,
        deadline: Option<u128>,
        host: &mut Host,
    ) -> Result<ActionReport, AdapterError> {
        demo_execute(self, call, deadline, host)
    }
}

/// What an agent does when it is asked.
enum Turn {
    Decide(Decision),
    Fail(Error),
    Cancel,
}

struct Host {
    now: u128,
    handle: TaskHandle,
}

impl Host {
    fn new(task: &Task) -> Self {
        Host { now: 1000 * MS, handle: TaskHandle::new("task-1".to_owned(), task) }
    }

    fn signal(&self) -> Signal {
        Signal { cancelled: self.handle.is_cancelled(), now: self.now }
    }

    /// Performs what the run asks for until it is done.
    fn drive(
        &mut self,
        run: Result<Run, Error>,
        env: &mut dyn Env,
        agent: &mut dyn FnMut(&Run, &mut Host) -> Turn,
        on_event: &mut dyn FnMut(Event, &mut Host),
        on_hold: &mut dyn FnMut(&mut Host),
    ) -> Result<Outcome, Error> {
        self.handle.start(self.now);
        let mut run = match run {
            Ok(run) => run,
            Err(error) => {
                let result = Err(error);
                self.handle.finish(&result, self.now);
                return result;
            }
        };
        loop {
            for event in run.take_events() {
                self.handle.event(&event);
                on_event(event, self);
            }
            match run.request() {
                Request::Checkpoint { deadline } => {
                    match self.handle.checkpoint(deadline, self.now) {
                        Ok(Boundary::Go) => run.checkpoint(Ok(())),
                        Ok(Boundary::Hold) => on_hold(self),
                        Err(error) => run.checkpoint(Err(error)),
                    }
                }
                Request::Signal => run.signal(self.signal()),
                Request::Observe => run.observed(env.observe(self.now)),
                Request::Context { step } => {
                    let reply = env.context(&SkillContext {
                        state: run.state(),
                        task_goal: run.goal(),
                        decision_step: step,
                        previous_result: run.previous().as_ref(),
                        failure: run.failure().as_ref(),
                        interruption: run.interruption().as_ref(),
                    });
                    run.context(reply);
                }
                Request::Decide { .. } => {
                    let reply = match agent(&run, self) {
                        Turn::Decide(decision) => DecisionReply::Decided(decision),
                        Turn::Fail(error) => DecisionReply::Failed(error),
                        Turn::Cancel => {
                            self.handle.cancel();
                            DecisionReply::Cancelled(self.signal())
                        }
                    };
                    run.decided(reply);
                }
                Request::CheckLog => run.logged(self.handle.check_log(), self.now),
                Request::Execute { call, deadline } => {
                    let guard = self.handle.metrics().begin(CallKind::Action);
                    let report = env.execute(&call, deadline, self);
                    guard.settle(&report, self.handle.metrics());
                    run.executed(report);
                }
                Request::Done => break,
            }
        }
        let result = self.handle.checked(run.conclude());
        self.handle.finish(&result, self.now);
        self.handle.summed(result, self.now)
    }
}

/// What an agent saw each time it was asked.
#[derive(Default)]
struct Script {
    decisions: VecDeque<Decision>,
    batches: Vec<Option<BatchProgress>>,
    progress: Vec<Option<ExecutionProgress>>,
    previous: Vec<Option<ToolResult>>,
    failures: Vec<Option<ExecutionFailure>>,
    guidance: Vec<String>,
    loaded: Vec<Vec<String>>,
}

impl Script {
    fn new(decisions: Vec<Decision>) -> Self {
        Script { decisions: decisions.into(), ..Script::default() }
    }

    fn decide(&mut self, run: &Run) -> Turn {
        let view = run.skill_view().as_ref().unwrap();
        assert!(view
            .directory
            .iter()
            .all(|summary| !view.loaded.iter().any(|s| s.name == summary.name)));
        self.batches.push(view.batch.dup());
        self.progress.push(view.execution.dup());
        self.previous.push(run.previous().dup());
        self.failures.push(view.failure.dup());
        self.guidance.push(view.guidance.dup());
        self.loaded.push(view.loaded.iter().map(|s| s.name.dup()).collect());
        match self.decisions.pop_front() {
            Some(decision) => Turn::Decide(decision),
            None => Turn::Fail(Error::Model("script exhausted".to_owned())),
        }
    }
}

fn task() -> Task {
    Task::new("generic task".to_owned()).unwrap()
}

fn run_with(
    script: &mut Script,
    env: &mut dyn Env,
    options: RunOptions,
    on_event: &mut dyn FnMut(Event, &mut Host),
) -> Outcome {
    let task = task();
    let mut host = Host::new(&task);
    let run = Run::new(&task, options, host.now);
    host.drive(
        run,
        env,
        &mut |run, _| script.decide(run),
        on_event,
        &mut |_| panic!("unexpected pause"),
    )
    .unwrap()
}

fn run(script: &mut Script, env: &mut dyn Env, max_decisions: usize) -> Outcome {
    let options = RunOptions { max_decisions, ..RunOptions::default() };
    run_with(script, env, options, &mut |_, _| {})
}

#[test]
fn observes_actual_runtime_change_before_completion() {
    let mut script = Script::new(vec![
        execute(vec![call("set_mode", r#"{"mode":"training"}"#)], Continuation::Decide),
        Decision::Completed("done".to_owned()),
    ]);
    let mut observations = vec![];
    let outcome = run_with(
        &mut script,
        &mut DemoAdapter::new(Scenario::Normal),
        RunOptions { max_decisions: 3, ..RunOptions::default() },
        &mut |event, _| {
            if let Event::Observed(state) = event {
                observations.push(fact(&state, &["mode"]));
            }
        },
    );
    assert_eq!(outcome.status, Status::Completed);
    assert_eq!(observations, vec!["\"idle\"", "\"idle\"", "\"training\""]);
}

#[test]
fn failed_tool_is_returned_to_agent_for_replanning() {
    let mut script = Script::new(vec![
        execute(vec![call("set_mode", r#"{"mode":"invalid"}"#)], Continuation::Decide),
        execute(vec![call("set_mode", r#"{"mode":"training"}"#)], Continuation::Decide),
        Decision::Completed("done".to_owned()),
    ]);
    let outcome = run(&mut script, &mut DemoAdapter::new(Scenario::Normal), 3);
    assert_eq!(outcome.status, Status::Completed);
    assert!(script.previous[0].is_none());
    assert!(!script.previous[1].as_ref().unwrap().success);
    assert!(script.previous[2].as_ref().unwrap().success);
    assert_eq!(fact(&outcome.state, &["mode"]), "\"training\"");
}

#[test]
fn repeated_actions_stop_at_budget() {
    let mut script =
        Script::new(vec![execute(vec![call("get_state", "{}")], Continuation::Decide)]);
    let outcome = run(&mut script, &mut DemoAdapter::new(Scenario::Normal), 1);
    assert_eq!(outcome.status, Status::Failed);
    assert_eq!(outcome.reason, "decision limit reached");
}

#[test]
fn explicit_model_failure_is_terminal() {
    let mut script = Script::new(vec![Decision::Failed("unsupported task".to_owned())]);
    let outcome = run(&mut script, &mut DemoAdapter::new(Scenario::Normal), 2);
    assert_eq!(outcome.status, Status::Failed);
    assert_eq!(outcome.decisions, 1);
}

#[test]
fn invalid_tools_do_not_mutate_runtime() {
    let mut adapter = DemoAdapter::new(Scenario::Normal);
    for (name, arguments) in [
        ("press_key", "{}"),
        ("set_mode", r#"{"mode":"training","extra":true}"#),
        ("set_mode", r#"{"mode":"unknown"}"#),
        ("get_state", r#"{"extra":1}"#),
    ] {
        assert!(adapter
            .execute(&tool(name, arguments), &ExecutionControl::default(), "", 0)
            .is_err());
        assert_eq!(fact(&adapter.observe(0), &["mode"]), "\"idle\"");
    }
}

fn train(run: &Run, host: &mut Host) -> Turn {
    let state = run.state();
    if fact(state, &["training", "available"]) == "false" {
        return Turn::Decide(Decision::Failed("training unavailable".to_owned()));
    }
    let status = fact(state, &["training", "status"]);
    let action = if fact(state, &["mode"]) == "\"idle\"" {
        call("set_mode", r#"{"mode":"training"}"#)
    } else if status == "\"not_started\"" {
        if let Some(result) = run.previous() {
            assert!(result.success || result.message.contains("现在可以重试"));
        }
        call("start_training", "{}")
    } else if status == "\"running\"" {
        host.now += 550 * MS;
        call("get_training_status", "{}")
    } else {
        assert_eq!(status, "\"completed\"");
        return Turn::Decide(Decision::Completed("training finished".to_owned()));
    };
    Turn::Decide(execute(vec![action], Continuation::Decide))
}

#[test]
fn normal_and_transient_runs_finish_only_after_observed_completion() {
    for (scenario, expected_failures) in [(Scenario::Normal, 0), (Scenario::TransientFailure, 1)] {
        let task = Task::new("完成一次训练".to_owned()).unwrap();
        let mut host = Host::new(&task);
        let options = RunOptions { max_decisions: 8, ..RunOptions::default() };
        let started = Run::new(&task, options, host.now);
        let mut results = vec![];
        let outcome = host
            .drive(
                started,
                &mut DemoAdapter::new(scenario),
                &mut train,
                &mut |event, _| {
                    if let Event::Executed(result) = event {
                        results.push(result);
                    }
                },
                &mut |_| panic!("unexpected pause"),
            )
            .unwrap();
        assert_eq!(outcome.status, Status::Completed);
        assert_eq!(fact(&outcome.state, &["training", "status"]), "\"completed\"");
        assert_eq!(results.iter().filter(|r| !r.success).count(), expected_failures);
        assert_eq!(
            results.iter().filter(|r| r.call.name == "start_training" && r.success).count(),
            1
        );
        assert!(results.iter().any(|r| r.call.name == "get_training_status" && r.success));
    }
}

#[test]
fn blocked_environment_is_reported_to_agent_and_terminates() {
    let task = Task::new("完成一次训练".to_owned()).unwrap();
    let mut host = Host::new(&task);
    let options = RunOptions { max_decisions: 8, ..RunOptions::default() };
    let started = Run::new(&task, options, host.now);
    let outcome = host
        .drive(
            started,
            &mut DemoAdapter::new(Scenario::Blocked),
            &mut train,
            &mut |_, _| {},
            &mut |_| panic!("unexpected pause"),
        )
        .unwrap();
    assert_eq!(outcome.status, Status::Failed);
    assert_eq!(outcome.decisions, 1);
    assert_eq!(fact(&outcome.state, &["training", "status"]), "\"not_started\"");
}

#[test]
fn adapter_rejects_training_preconditions_and_extra_arguments_without_starting() {
    let mut adapter = DemoAdapter::new(Scenario::Normal);
    let control = ExecutionControl::default();
    assert!(adapter
        .execute(&tool("start_training", "{}"), &control, "", 0)
        .unwrap_err()
        .message()
        .contains("需要先"));
    adapter.execute(&tool("set_mode", r#"{"mode":"training"}"#), &control, "", 0).unwrap();
    for name in ["start_training", "get_training_status"] {
        assert!(adapter.execute(&tool(name, r#"{"unexpected":true}"#), &control, "", 0).is_err());
    }
    for _ in 0..3 {
        match adapter.execute(&tool("get_training_status", "{}"), &control, "", 0).unwrap() {
            Execution::Report(report) => {
                let answer = json(&report.message);
                assert_eq!(answer.get("training_status").unwrap().to_text(), "\"not_started\"");
            }
            Execution::Trial => panic!("no trial was asked for"),
        }
    }
    assert_eq!(fact(&adapter.observe(0), &["training", "status"]), "\"not_started\"");
}

fn resolve(adapter: &DemoAdapter, state: &AppState) -> DecisionContext {
    adapter
        .decision_context(&SkillContext {
            state,
            task_goal: "完成训练",
            decision_step: 1,
            previous_result: None,
            failure: None,
            interruption: None,
        }, "")
        .unwrap()
}

fn available(context: &DecisionContext, name: &str) -> bool {
    context.skills.iter().find(|s| s.name == name).unwrap().availability.is_available()
}

fn reason(context: &DecisionContext, name: &str) -> String {
    match &context.skills.iter().find(|s| s.name == name).unwrap().availability {
        Availability::Unavailable { reason } => reason.dup(),
        Availability::Available => String::new(),
    }
}

#[test]
fn adapter_uses_supplied_context_and_execution_rechecks_runtime() {
    let mut adapter = DemoAdapter::new(Scenario::Normal);
    let control = ExecutionControl::default();
    let initial = adapter.observe(0);
    let skills = resolve(&adapter, &initial);
    assert!(reason(&skills, "start_training").contains("set_mode"));
    let start = skills.skills.iter().find(|s| s.name == "start_training").unwrap();
    assert_eq!(start.tags, vec!["training", "write"]);
    adapter.execute(&tool("set_mode", r#"{"mode":"training"}"#), &control, "", 0).unwrap();
    assert!(!available(&resolve(&adapter, &initial), "start_training"));
    let ready = adapter.observe(0);
    assert!(available(&resolve(&adapter, &ready), "start_training"));
    adapter.execute(&tool("set_mode", r#"{"mode":"idle"}"#), &control, "", 0).unwrap();
    assert!(adapter.execute(&tool("start_training", "{}"), &control, "", 0).is_err());
    assert_eq!(fact(&adapter.observe(0), &["training", "status"]), "\"not_started\"");
}

fn with_facts(mode: &str, status: &str) -> AppState {
    let mut training = Json::object();
    training.set("status", Json::text(status));
    training.set("available", Json::Bool(true));
    let mut facts = DemoAdapter::new(Scenario::Normal).observe(0).facts;
    facts.set("mode", Json::text(mode));
    facts.set("training", training);
    AppState { scene: "demo program".to_owned(), facts }
}

#[test]
fn unavailable_reasons_and_candidates_follow_training_state() {
    let adapter = DemoAdapter::new(Scenario::Normal);
    let running = resolve(&adapter, &with_facts("training", "running"));
    for name in ["set_mode", "start_training"] {
        assert!(!available(&running, name));
        assert!(!running.skills.iter().find(|s| s.name == name).unwrap().calls.is_empty());
    }
    assert!(available(&running, "get_training_status"));
    let completed = resolve(&adapter, &with_facts("training", "completed"));
    assert!(available(&completed, "set_mode"));
    assert!(!available(&completed, "start_training"));
    let blocked = DemoAdapter::new(Scenario::Blocked);
    let skills = resolve(&blocked, &blocked.observe(0));
    assert!(reason(&skills, "start_training").contains("永久不可用"));
}

#[test]
fn malformed_context_is_an_error_instead_of_assumed_availability() {
    let adapter = DemoAdapter::new(Scenario::Normal);
    let state = AppState { scene: "demo".to_owned(), facts: Json::object() };
    let error = adapter
        .decision_context(&SkillContext {
            state: &state,
            task_goal: "grant permission",
            decision_step: 1,
            previous_result: None,
            failure: None,
            interruption: None,
        }, "")
        .unwrap_err();
    assert!(error.message().contains("invalid demo state in skill context"));
}

#[test]
fn facts_may_be_given_in_order_and_variants_as_objects() {
    let adapter = DemoAdapter::new(Scenario::Normal);
    let facts = json(r#"[{"training":null},["not_started",true],[true,false],[2,false,true]]"#);
    let state = AppState { scene: "demo".to_owned(), facts };
    let context = resolve(&adapter, &state);
    assert!(available(&context, "start_training"));
    assert!(available(&context, "reset_exploration"));
    assert!(!available(&context, "explore_step"));
    for malformed in [
        r#"[{"training":null},["not_started",true],[true,false],[2,false,true],1]"#,
        r#"{"mode":"training","training":{"status":"unknown","available":true}}"#,
        r#"{"mode":"training","training":{"status":"running"}}"#,
        r#"{"mode":"idle","training":["running",true],"exploration":{"collected":-1,"finished":false,"needs_reset":false}}"#,
        "7",
    ] {
        let state = AppState { scene: "demo".to_owned(), facts: json(malformed) };
        assert!(adapter
            .decision_context(&SkillContext {
                state: &state,
                task_goal: "train",
                decision_step: 1,
                previous_result: None,
                failure: None,
                interruption: None,
            }, "")
            .is_err());
    }
}

#[test]
fn core_passes_current_context_and_honors_adapter_unavailability() {
    let mut script = Script::new(vec![
        execute(vec![call("start_training", "{}")], Continuation::Decide),
        execute(vec![call("set_mode", r#"{"mode":"training"}"#)], Continuation::Decide),
        Decision::Completed("mode ready".to_owned()),
    ]);
    let mut published = vec![];
    let mut failures = vec![];
    let outcome = run_with(
        &mut script,
        &mut DemoAdapter::new(Scenario::Normal),
        RunOptions { max_decisions: 4, ..RunOptions::default() },
        &mut |event, _| match event {
            Event::SkillsResolved { step, skills, .. } => published.push((
                step,
                skills
                    .iter()
                    .find(|s| s.name == "start_training")
                    .unwrap()
                    .availability
                    .is_available(),
            )),
            Event::Executed(result) if !result.success => failures.push(result.message),
            _ => {}
        },
    );
    assert_eq!(outcome.status, Status::Completed);
    assert_eq!(published, vec![(1, false), (2, false), (3, true)]);
    assert!(failures[0].contains("set_mode"));
}
