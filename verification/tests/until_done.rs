#![allow(dead_code, unused_imports)]
use actweave::api::{
    Action, ActionOutcome, ActionReport, AdapterError, AppState, Availability, DecisionContext,
    ExecutionControl, ExecutionFailure, FailureStage, PauseState, RepeatRequest, SkillContext,
    ToolCall, ToolResult,
};
use actweave::batch::{BatchProgress, BatchStatus};
use actweave::copy::Dup;
use actweave::demo::{DemoAdapter, Execution};
use actweave::demo_runtime::Scenario;
use actweave::execution::{ExecutionProgress, ExecutionStatus};
use actweave::json::Json;
use actweave::kernel::{
    Continuation, Decision, Error, Event, Outcome, RunOptions, Signal, Status, Task,
};
use actweave::metrics::{CallCounts, CallKind};
use actweave::run::{DecisionReply, Request, Run};
use actweave::skills::{LoadSkills, SkillMode};
use actweave::task_runtime::{Boundary, TaskHandle, TaskStatus};
use std::collections::VecDeque;

const MS: u128 = 1_000_000;

fn json(text: &str) -> Json {
    Json::parse(text).unwrap()
}

fn fact(state: &AppState, path: &[&str]) -> String {
    let mut at = &state.facts;
    for key in path {
        at = at.get(key).unwrap();
    }
    at.to_text()
}

fn tool(name: &str, arguments: &str) -> ToolCall {
    ToolCall { name: name.to_owned(), arguments: json(arguments) }
}

fn call(name: &str, arguments: &str) -> Action {
    Action::Call(tool(name, arguments))
}

fn trial(times: u32) -> Action {
    Action::Repeat(RepeatRequest { call: tool("perform_trial", "{}"), times })
}

fn explore() -> Action {
    Action::UntilDone(tool("explore_step", "{}"))
}

fn execute(actions: Vec<Action>, then: Continuation) -> Decision {
    Decision::Execute { actions, then }
}

fn load(names: &[&str], tags: &[&str]) -> Decision {
    Decision::LoadSkills(LoadSkills {
        names: names.iter().map(|s| s.to_string()).collect(),
        tags: tags.iter().map(|s| s.to_string()).collect(),
    })
}

/// The application behind a run.
trait Env {
    fn observe(&mut self, now: u128) -> Result<AppState, AdapterError>;
    fn context(&mut self, context: &SkillContext) -> Result<DecisionContext, AdapterError>;
    fn execute(
        &mut self,
        call: &ToolCall,
        deadline: Option<u128>,
        host: &mut Host,
    ) -> Result<ActionReport, AdapterError>;
}

fn demo_execute(
    adapter: &mut DemoAdapter,
    call: &ToolCall,
    deadline: Option<u128>,
    host: &mut Host,
) -> Result<ActionReport, AdapterError> {
    let mut control = ExecutionControl { deadline, ..ExecutionControl::default() };
    if host.handle.is_cancelled() {
        control.cancellation.cancel();
    }
    match adapter.execute(call, &control, "", host.now)? {
        Execution::Report(report) => Ok(report),
        Execution::Trial => {
            let mut pause = PauseState::Running;
            let mut trial = adapter.begin_trial(&control, pause, host.now)?;
            loop {
                let report = adapter.step_trial(&mut trial, &control, &mut pause, host.now);
                if let Some(report) = report {
                    return report;
                }
            }
        }
    }
}

impl Env for DemoAdapter {
    fn observe(&mut self, now: u128) -> Result<AppState, AdapterError> {
        Ok(DemoAdapter::observe(self, now))
    }
    fn context(&mut self, context: &SkillContext) -> Result<DecisionContext, AdapterError> {
        self.decision_context(context, "")
    }
    fn execute(
        &mut self,
        call: &ToolCall,
        deadline: Option<u128>,
        host: &mut Host,
    ) -> Result<ActionReport, AdapterError> {
        demo_execute(self, call, deadline, host)
    }
}

/// What an agent does when it is asked.
enum Turn {
    Decide(Decision),
    Fail(Error),
    Cancel,
}

struct Host {
    now: u128,
    handle: TaskHandle,
}

impl Host {
    fn new(task: &Task) -> Self {
        Host { now: 1000 * MS, handle: TaskHandle::new("task-1".to_owned(), task) }
    }

    fn signal(&self) -> Signal {
        Signal { cancelled: self.handle.is_cancelled(), now: self.now }
    }

    /// Performs what the run asks for until it is done.
    fn drive(
        &mut self,
        run: Result<Run, Error>,
        env: &mut dyn Env,
        agent: &mut dyn FnMut(&Run, &mut Host) -> Turn,
        on_event: &mut dyn FnMut(Event, &mut Host),
        on_hold: &mut dyn FnMut(&mut Host),
    ) -> Result<Outcome, Error> {
        self.handle.start(self.now);
        let mut run = match run {
            Ok(run) => run,
            Err(error) => {
                let result = Err(error);
                self.handle.finish(&result, self.now);
                return result;
            }
        };
        loop {
            for event in run.take_events() {
                self.handle.event(&event);
                on_event(event, self);
            }
            match run.request() {
                Request::Checkpoint { deadline } => {
                    match self.handle.checkpoint(deadline, self.now) {
                        Ok(Boundary::Go) => run.checkpoint(Ok(())),
                        Ok(Boundary::Hold) => on_hold(self),
                        Err(error) => run.checkpoint(Err(error)),
                    }
                }
                Request::Signal => run.signal(self.signal()),
                Request::Observe => run.observed(env.observe(self.now)),
                Request::Context { step } => {
                    let reply = env.context(&SkillContext {
                        state: run.state(),
                        task_goal: run.goal(),
                        decision_step: step,
                        previous_result: run.previous().as_ref(),
                        failure: run.failure().as_ref(),
                        interruption: run.interruption().as_ref(),
                    });
                    run.context(reply);
                }
                Request::Decide { .. } => {
                    let reply = match agent(&run, self) {
                        Turn::Decide(decision) => DecisionReply::Decided(decision),
                        Turn::Fail(error) => DecisionReply::Failed(error),
                        Turn::Cancel => {
                            self.handle.cancel();
                            DecisionReply::Cancelled(self.signal())
                        }
                    };
                    run.decided(reply);
                }
                Request::CheckLog => run.logged(self.handle.check_log(), self.now),
                Request::Execute { call, deadline } => {
                    let guard = self.handle.metrics().begin(CallKind::Action);
                    let report = env.execute(&call, deadline, self);
                    guard.settle(&report, self.handle.metrics());
                    run.executed(report);
                }
                Request::Done => break,
            }
        }
        let result = self.handle.checked(run.conclude());
        self.handle.finish(&result, self.now);
        self.handle.summed(result, self.now)
    }
}

/// What an agent saw each time it was asked.
#[derive(Default)]
struct Script {
    decisions: VecDeque<Decision>,
    batches: Vec<Option<BatchProgress>>,
    progress: Vec<Option<ExecutionProgress>>,
    previous: Vec<Option<ToolResult>>,
    failures: Vec<Option<ExecutionFailure>>,
    guidance: Vec<String>,
    loaded: Vec<Vec<String>>,
}

impl Script {
    fn new(decisions: Vec<Decision>) -> Self {
        Script { decisions: decisions.into(), ..Script::default() }
    }

    fn decide(&mut self, run: &Run) -> Turn {
        let view = run.skill_view().as_ref().unwrap();
        assert!(view
            .directory
            .iter()
            .all(|summary| !view.loaded.iter().any(|s| s.name == summary.name)));
        self.batches.push(view.batch.dup());
        self.progress.push(view.execution.dup());
        self.previous.push(run.previous().dup());
        self.failures.push(view.failure.dup());
        self.guidance.push(view.guidance.dup());
        self.loaded.push(view.loaded.iter().map(|s| s.name.dup()).collect());
        match self.decisions.pop_front() {
            Some(decision) => Turn::Decide(decision),
            None => Turn::Fail(Error::Model("script exhausted".to_owned())),
        }
    }
}

fn task() -> Task {
    Task::new("generic task".to_owned()).unwrap()
}

fn run_with(
    script: &mut Script,
    env: &mut dyn Env,
    options: RunOptions,
    on_event: &mut dyn FnMut(Event, &mut Host),
) -> Outcome {
    let task = task();
    let mut host = Host::new(&task);
    let run = Run::new(&task, options, host.now);
    host.drive(
        run,
        env,
        &mut |run, _| script.decide(run),
        on_event,
        &mut |_| panic!("unexpected pause"),
    )
    .unwrap()
}

fn run(script: &mut Script, env: &mut dyn Env, max_decisions: usize) -> Outcome {
    let options = RunOptions { max_decisions, ..RunOptions::default() };
    run_with(script, env, options, &mut |_, _| {})
}

fn until_done(then: Continuation) -> Decision {
    execute(vec![explore()], then)
}

fn repair() -> Decision {
    execute(vec![call("reset_exploration", "{}")], Continuation::Decide)
}

#[test]
fn unknown_work_count_finishes_locally_with_one_decision() {
    let mut script = Script::new(vec![until_done(Continuation::Finish)]);
    let outcome = run(&mut script, &mut DemoAdapter::new(Scenario::Exploration), 1);
    assert_eq!(outcome.status, Status::Completed);
    assert_eq!(outcome.decisions, 1);
    assert_eq!(fact(&outcome.state, &["exploration", "collected"]), "3");
    assert_eq!(fact(&outcome.state, &["exploration", "finished"]), "true");
    let batch = outcome.batch.unwrap();
    assert_eq!(batch.remaining, None);
    assert_eq!((batch.completed, batch.successful, batch.attempts), (4, 3, 4));
    assert!(batch.finished);
}

#[test]
fn loop_inside_sequence_runs_tail_then_obeys_decide() {
    let mut script = Script::new(vec![
        execute(
            vec![call("get_state", "{}"), explore(), call("get_state", "{}")],
            Continuation::Decide,
        ),
        Decision::Completed("done".to_owned()),
    ]);
    let mut started = vec![];
    let outcome = run_with(
        &mut script,
        &mut DemoAdapter::new(Scenario::Exploration),
        RunOptions { max_decisions: 2, ..RunOptions::default() },
        &mut |event, _| {
            if let Event::ActionStarted { call, .. } = event {
                started.push(call.name);
            }
        },
    );
    assert_eq!(outcome.status, Status::Completed);
    assert_eq!(started, ["get_state", "explore_step", "get_state"]);
    assert_eq!(script.batches.len(), 2);
    assert!(script.batches[1].is_none());
}

#[test]
fn interruption_repairs_and_resumes_with_original_progress() {
    let mut script =
        Script::new(vec![until_done(Continuation::Finish), repair(), Decision::Resume]);
    let outcome = run(&mut script, &mut DemoAdapter::new(Scenario::ExplorationInterrupted), 3);
    assert_eq!(outcome.status, Status::Completed);
    assert_eq!(script.batches[1].as_ref().unwrap().completed, 1);
    assert_eq!(script.batches[2].as_ref().unwrap().attempts, 2);
    assert_eq!(outcome.batch.unwrap().attempts, 5);
    assert_eq!(fact(&outcome.state, &["exploration", "collected"]), "3");
}

#[test]
fn budget_exhaustion_is_not_completion_even_after_last_item_is_collected() {
    let mut script = Script::new(vec![until_done(Continuation::Finish)]);
    let outcome = run_with(
        &mut script,
        &mut DemoAdapter::new(Scenario::Exploration),
        RunOptions { max_batch_attempts: 3, ..RunOptions::default() },
        &mut |_, _| {},
    );
    assert_eq!(outcome.status, Status::Failed);
    assert_eq!(fact(&outcome.state, &["exploration", "collected"]), "3");
    let batch = outcome.batch.unwrap();
    assert_eq!(batch.status, BatchStatus::AttemptLimit);
    assert!(!batch.finished);
    assert_eq!(script.batches.len(), 1);
}

#[test]
fn replacement_cannot_discard_loop_or_reset_its_budget() {
    let mut script = Script::new(vec![
        until_done(Continuation::Finish),
        Decision::ReplaceRemaining {
            actions: vec![call("get_state", "{}")],
            then: Continuation::Finish,
        },
        repair(),
        Decision::ReplaceRemaining {
            actions: vec![explore(), call("get_state", "{}")],
            then: Continuation::Finish,
        },
    ]);
    let outcome = run_with(
        &mut script,
        &mut DemoAdapter::new(Scenario::ExplorationInterrupted),
        RunOptions { max_batch_attempts: 4, ..RunOptions::default() },
        &mut |_, _| {},
    );
    assert_eq!(outcome.status, Status::Failed);
    assert_eq!(script.batches[2].as_ref().unwrap().attempts, 2);
    assert_eq!(outcome.batch.unwrap().attempts, 4);
    assert_eq!(outcome.execution.unwrap().completed, 0);
}

#[test]
fn loop_requires_capability_and_on_demand_selection_before_effects() {
    let mut script = Script::new(vec![
        load(&["get_state"], &[]),
        execute(vec![Action::UntilDone(tool("get_state", "{}"))], Continuation::Finish),
        until_done(Continuation::Finish),
        load(&["explore_step"], &[]),
        until_done(Continuation::Finish),
    ]);
    let outcome = run_with(
        &mut script,
        &mut DemoAdapter::new(Scenario::Exploration),
        RunOptions { skill_mode: SkillMode::OnDemand, ..RunOptions::default() },
        &mut |_, _| {},
    );
    assert_eq!(outcome.status, Status::Completed);
    assert_eq!(outcome.batch.unwrap().attempts, 4);
    assert!(script.batches.iter().all(Option::is_none));
}

/// Observations can fail after an effect, and the capability can be revoked.
struct ObservationFault {
    demo: DemoAdapter,
    fail_after: usize,
    calls: usize,
    fail_next: bool,
    revoke_after: usize,
    deadlines: Vec<Option<u128>>,
}
impl Env for ObservationFault {
    fn observe(&mut self, now: u128) -> Result<AppState, AdapterError> {
        if self.fail_next {
            self.fail_next = false;
            Err(AdapterError::Runtime("observation unavailable".to_owned()))
        } else {
            Ok(self.demo.observe(now))
        }
    }
    fn context(&mut self, context: &SkillContext) -> Result<DecisionContext, AdapterError> {
        let mut given = self.demo.decision_context(context, "")?;
        if self.calls >= self.revoke_after {
            for skill in &mut given.skills {
                if skill.name == "explore_step" {
                    skill.availability =
                        Availability::Unavailable { reason: "revoked".to_owned() };
                }
            }
        }
        Ok(given)
    }
    fn execute(
        &mut self,
        call: &ToolCall,
        deadline: Option<u128>,
        host: &mut Host,
    ) -> Result<ActionReport, AdapterError> {
        self.calls += 1;
        self.deadlines.push(deadline);
        host.now += MS;
        let report = demo_execute(&mut self.demo, call, deadline, host)?;
        if self.calls == self.fail_after {
            self.fail_next = true;
        }
        Ok(report)
    }
}

fn faulty(fail_after: usize, revoke_after: usize) -> ObservationFault {
    ObservationFault {
        demo: DemoAdapter::new(Scenario::Exploration),
        fail_after,
        calls: 0,
        fail_next: false,
        revoke_after,
        deadlines: vec![],
    }
}

#[test]
fn observation_failures_preserve_steps_terminal_signal_and_original_deadline() {
    for fail_after in [1, 4] {
        let mut adapter = faulty(fail_after, 4);
        let mut script = Script::new(vec![until_done(Continuation::Finish), Decision::Resume]);
        let outcome = run(&mut script, &mut adapter, 2);
        assert_eq!(outcome.status, Status::Completed);
        assert_eq!(adapter.calls, 4);
        assert_eq!(script.batches[1].as_ref().unwrap().completed, fail_after as u32);
        assert_eq!(script.batches[1].as_ref().unwrap().finished, fail_after == 4);
        assert!(adapter.deadlines[0].is_some());
        assert!(adapter.deadlines.iter().all(|d| *d == adapter.deadlines[0]));
    }
}

#[test]
fn revoked_availability_interrupts_instead_of_finishing() {
    let mut adapter = faulty(usize::MAX, 1);
    let mut script = Script::new(vec![
        until_done(Continuation::Finish),
        Decision::Failed("capability revoked".to_owned()),
    ]);
    let outcome = run(&mut script, &mut adapter, 2);
    assert_eq!(outcome.status, Status::Failed);
    assert_eq!(adapter.calls, 1);
    let pending = script.batches[1].as_ref().unwrap();
    assert_eq!(pending.status, BatchStatus::Interrupted);
    assert!(!pending.finished);
}

#[test]
fn pause_resume_and_cancel_control_unknown_length_loop_without_model_calls() {
    for cancel in [false, true] {
        let task = task();
        let mut host = Host::new(&task);
        let started = Run::new(&task, RunOptions::default(), host.now);
        let mut script = Script::new(vec![until_done(Continuation::Finish)]);
        let outcome = host
            .drive(
                started,
                &mut DemoAdapter::new(Scenario::Exploration),
                &mut |run, _| script.decide(run),
                &mut |event, host| {
                    if let Event::BatchProgress(progress) = event {
                        if progress.completed == 1 {
                            host.handle.pause();
                        }
                    }
                },
                &mut |host| {
                    assert_eq!(host.handle.status(), TaskStatus::Paused);
                    let skill = host.handle.snapshot().current_skill;
                    assert_eq!(skill.as_deref(), Some("explore_step"));
                    if cancel {
                        host.handle.cancel();
                    } else {
                        host.handle.resume();
                    }
                },
            )
            .unwrap();
        assert_eq!(outcome.decisions, 1);
        let (status, completed) = if cancel {
            (Status::Cancelled, 1)
        } else {
            (Status::Completed, 4)
        };
        assert_eq!(outcome.status, status);
        assert_eq!(outcome.batch.unwrap().completed, completed);
    }
}

/// Answers one call as it is told to.
struct Mock {
    demo: DemoAdapter,
    outcomes: VecDeque<Option<ActionOutcome>>,
    calls: usize,
}
impl Mock {
    fn new(outcomes: Vec<Option<ActionOutcome>>) -> Self {
        Mock { demo: DemoAdapter::new(Scenario::Normal), outcomes: outcomes.into(), calls: 0 }
    }
}
impl Env for Mock {
    fn observe(&mut self, now: u128) -> Result<AppState, AdapterError> {
        Ok(self.demo.observe(now))
    }
    fn context(&mut self, context: &SkillContext) -> Result<DecisionContext, AdapterError> {
        let mut given = self.demo.decision_context(context, "")?;
        for skill in &mut given.skills {
            if skill.name == "get_state" {
                skill.repeatable = true;
                skill.loopable = true;
            }
        }
        Ok(given)
    }
    fn execute(
        &mut self,
        call: &ToolCall,
        deadline: Option<u128>,
        host: &mut Host,
    ) -> Result<ActionReport, AdapterError> {
        if call.name != "get_state" {
            return demo_execute(&mut self.demo, call, deadline, host);
        }
        self.calls += 1;
        match self.outcomes.pop_front().unwrap() {
            Some(outcome) => Ok(ActionReport { outcome, message: "reported".to_owned() }),
            None => Err(AdapterError::Runtime(format!("changing error {}", self.calls))),
        }
    }
}

fn state_call() -> ToolCall {
    tool("get_state", r#"{"a":1,"b":2}"#)
}

fn decide(action: Action) -> Decision {
    execute(vec![action], Continuation::Decide)
}

fn guarded(decisions: Vec<Decision>, mock: &mut Mock, limit: u32) -> Outcome {
    run_with(
        &mut Script::new(decisions),
        mock,
        RunOptions { max_repeated_failures: limit, ..RunOptions::default() },
        &mut |_, _| {},
    )
}

#[test]
fn repeated_errors_stop_without_another_decision_and_ignore_json_key_order() {
    let mut mock = Mock::new(vec![None, None, None]);
    let outcome = guarded(
        vec![
            decide(Action::Call(state_call())),
            decide(call("get_state", r#"{"b":2,"a":1}"#)),
            decide(Action::Call(state_call())),
        ],
        &mut mock,
        3,
    );
    assert_eq!(outcome.status, Status::Failed);
    assert!(outcome.reason.contains("重复失败保护"));
    assert_eq!(outcome.decisions, 3);
    assert_eq!(outcome.summary.actions.total, 3);
    assert_eq!(outcome.summary.actions.failed, 3);
    assert_eq!(outcome.execution.unwrap().status, ExecutionStatus::Failed);
}

#[test]
fn resume_replacement_and_unrelated_repair_preserve_failure_counts_and_progress() {
    let repeat = |times: u32| Action::Repeat(RepeatRequest { call: state_call(), times });
    let mut mock = Mock::new(vec![
        Some(ActionOutcome::Completed { successful: true }),
        None,
        None,
        None,
    ]);
    let outcome = guarded(
        vec![
            decide(repeat(10)),
            decide(call("set_mode", r#"{"mode":"training"}"#)),
            Decision::Resume,
            Decision::ReplaceRemaining { actions: vec![repeat(9)], then: Continuation::Finish },
        ],
        &mut mock,
        3,
    );
    assert!(outcome.reason.contains("重复失败保护"));
    let batch = outcome.batch.unwrap();
    assert_eq!(batch.completed, 1);
    assert_eq!(batch.remaining, Some(9));
    assert_eq!(batch.attempts, 4);
    assert_eq!(batch.status, BatchStatus::Failed);
    assert_eq!(outcome.decisions, 4);
}

#[test]
fn normal_returns_reset_only_the_same_call_even_without_reward() {
    let normal = Some(ActionOutcome::Completed { successful: false });
    let mut mock = Mock::new(vec![None, normal, None, normal]);
    let mut decisions: Vec<Decision> =
        (0..4).map(|_| decide(Action::Call(state_call()))).collect();
    decisions.push(Decision::Completed("done".to_owned()));
    let outcome = guarded(decisions, &mut mock, 2);
    assert_eq!(outcome.status, Status::Completed);
    assert_eq!(outcome.summary.actions.succeeded, 2);
}

#[test]
fn continue_is_normal_and_until_done_interruption_is_counted() {
    let mut mock = Mock::new(vec![
        Some(ActionOutcome::Continue { successful: false }),
        Some(ActionOutcome::Interrupted),
        Some(ActionOutcome::Interrupted),
    ]);
    let outcome = guarded(
        vec![decide(Action::UntilDone(state_call())), Decision::Resume],
        &mut mock,
        2,
    );
    assert!(outcome.reason.contains("重复失败保护"));
    assert_eq!(outcome.batch.unwrap().completed, 1);
    assert_eq!(outcome.summary.actions.total, 3);
}

#[test]
fn rejected_plans_stop_without_calling_adapter() {
    for replacement in [false, true] {
        let plan = || {
            let actions = vec![call("missing", "{}")];
            if replacement {
                Decision::ReplaceRemaining { actions, then: Continuation::Finish }
            } else {
                Decision::Execute { actions, then: Continuation::Finish }
            }
        };
        let outcome = guarded(vec![plan(), plan(), plan()], &mut Mock::new(vec![]), 3);
        assert!(outcome.reason.contains("相同计划"));
        assert_eq!(outcome.summary.actions.total, 0);
        assert_eq!(outcome.decisions, 3);
    }
}

#[test]
fn counts_are_task_local_and_threshold_is_configurable() {
    let mut mock = Mock::new(vec![None, None, None, None]);
    for _ in 0..2 {
        let decisions = (0..2).map(|_| decide(Action::Call(state_call()))).collect();
        let outcome = guarded(decisions, &mut mock, 2);
        assert_eq!(outcome.decisions, 2);
        assert!(outcome.reason.contains("重复失败保护"));
    }
}

#[test]
fn zero_threshold_is_invalid() {
    let options = RunOptions { max_repeated_failures: 0, ..RunOptions::default() };
    assert!(matches!(Run::new(&task(), options, 0), Err(Error::Invalid(_))));
}

#[test]
fn skill_loading_does_not_reset_action_failures() {
    let outcome = run_with(
        &mut Script::new(vec![
            load(&["get_state"], &[]),
            decide(Action::Call(state_call())),
            load(&["get_state"], &[]),
            decide(Action::Call(state_call())),
        ]),
        &mut Mock::new(vec![None, None]),
        RunOptions {
            skill_mode: SkillMode::OnDemand,
            max_repeated_failures: 2,
            ..RunOptions::default()
        },
        &mut |_, _| {},
    );
    assert!(outcome.reason.contains("重复失败保护"));
    assert_eq!(outcome.decisions, 4);
}

#[test]
fn cancellation_takes_precedence_at_failure_threshold() {
    let outcome = run_with(
        &mut Script::new(vec![decide(Action::Call(state_call()))]),
        &mut Mock::new(vec![None]),
        RunOptions { max_repeated_failures: 1, ..RunOptions::default() },
        &mut |event, host| {
            if matches!(event, Event::Executed(_)) {
                host.handle.cancel();
            }
        },
    );
    assert_eq!(outcome.status, Status::Cancelled);
}

#[test]
fn different_parameters_have_separate_failure_counts() {
    let outcome = guarded(
        vec![
            decide(Action::Call(state_call())),
            decide(call("get_state", r#"{"a":2,"b":2}"#)),
            Decision::Completed("done".to_owned()),
        ],
        &mut Mock::new(vec![None, None]),
        2,
    );
    assert_eq!(outcome.status, Status::Completed);
}
