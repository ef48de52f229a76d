#![allow(dead_code, unused_imports)]
use actweave::api::{
    Action, ActionOutcome, ActionReport, AdapterError, AppState, Availability, DecisionContext,
    ExecutionControl, ExecutionFailure, FailureStage, PauseState, RepeatRequest, SkillContext,
    ToolCall, ToolResult,
};
use actweave::batch::{BatchProgress, BatchStatus};
use actweave::copy::Dup;
use actweave::demo::{DemoAdapter, Execution};
use actweave::demo_runtime::Scenario;
use actweave::execution::{ExecutionProgress, ExecutionStatus};
use actweave::json::Json;
use actweave::kernel::{
    Continuation, Decision, Error, Event, Outcome, RunOptions, Signal, Status, Task,
};
use actweave::manual::{ManualAgent, Typed};
use actweave::metrics::{CallCounts, CallKind};
use actweave::run::{DecisionReply, Request, Run};
use actweave::skills::{LoadSkills, SkillMode};
use actweave::task_runtime::{Boundary, TaskHandle, TaskStatus};
use std::collections::VecDeque;

const MS: u128 = 1_000_000;

fn json(text: &str) -> Json {
    Json::parse(text).unwrap()
}

fn fact(state: &AppState, path: &[&str]) -> String {
    let mut at = &state.facts;
    for key in path {
        at = at.get(key).unwrap();
    }
    at.to_text()
}

fn tool(name: &str, arguments: &str) -> ToolCall {
    ToolCall { name: name.to_owned(), arguments: json(arguments) }
}

fn call(name: &str, arguments: &str) -> Action {
    Action::Call(tool(name, arguments))
}

fn trial(times: u32) -> Action {
    Action::Repeat(RepeatRequest { call: tool("perform_trial", "{}"), times })
}

fn explore() -> Action {
    Action::UntilDone(tool("explore_step", "{}"))
}

fn execute(actions: Vec<Action>, then: Continuation) -> Decision {
    Decision::Execute { actions, then }
}

fn load(names: &[&str], tags: &[&str]) -> Decision {
    Decision::LoadSkills(LoadSkills {
        names: names.iter().map(|s| s.to_string()).collect(),
        tags: tags.iter().map(|s| s.to_string()).collect(),
    })
}

/// The application behind a run.
trait Env {
    fn observe(&mut self, now: u128) -> Result<AppState, AdapterError>;
    fn context(&mut self, context: &SkillContext) -> Result<DecisionContext, AdapterError>;
    fn execute(
        &mut self,
        call: &ToolCall,
        deadline: Option<u128>,
        host: &mut Host,
    ) -> Result<ActionReport, AdapterError>;
}

fn demo_execute(
    adapter: &mut DemoAdapter,
    call: &ToolCall,
    deadline: Option<u128>,
    host: &mut Host,
) -> Result<ActionReport, AdapterError> {
    let mut control = ExecutionControl { deadline, ..ExecutionControl::default() };
    if host.handle.is_cancelled() {
        control.cancellation.cancel();
    }
    match adapter.execute(call, &control, "", host.now)? {
        Execution::Report(report) => Ok(report),
        Execution::Trial => {
            let mut pause = PauseState::Running;
            let mut trial = adapter.begin_trial(&control, pause, host.now)?;
            loop {
                let report = adapter.step_trial(&mut trial, &control, &mut pause, host.now);
                if let Some(report) = report {
                    return report;
                }
            }
        }
    }
}

impl Env for DemoAdapter {
    fn observe(&mut self, now: u128) -> Result<AppState, AdapterError> {
        Ok(DemoAdapter::observe(self, now))
    }
    fn context(&mut self, context: &SkillContext) -> Result<DecisionContext, AdapterError> {
        self.decision_context(context, "")
    }
    fn execute(
        &mut self,
        call: &ToolCall,
        deadline: Option<u128>,
        host: &mut Host,
    ) -> Result<ActionReport, AdapterError> {
        demo_execute(self, call, deadline, host)
    }
}

/// What an agent does when it is asked.
enum Turn {
    Decide(Decision),
    Fail(Error),
    Cancel,
}

struct Host {
    now: u128,
    handle: TaskHandle,
}

impl Host {
    fn new(task: &Task) -> Self {
        Host { now: 1000 * MS, handle: TaskHandle::new("task-1".to_owned(), task) }
    }

    fn signal(&self) -> Signal {
        Signal { cancelled: self.handle.is_cancelled(), now: self.now }
    }

    /// Performs what the run asks for until it is done.
    fn drive(
        &mut self,
        run: Result<Run, Error>,
        env: &mut dyn Env,
        agent: &mut dyn FnMut(&Run, &mut Host) -> Turn,
        on_event: &mut dyn FnMut(Event, &mut Host),
        on_hold: &mut dyn FnMut(&mut Host),
    ) -> Result<Outcome, Error> {
        self.handle.start(self.now);
        let mut run = match run {
            Ok(run) => run,
            Err(error) => {
                let result = Err(error);
                self.handle.finish(&result, self.now);
                return result;
            }
        };
        loop {
            for event in run.take_events() {
                self.handle.event(&event);
                on_event(event, self);
            }
            match run.request() {
                Request::Checkpoint { deadline } => {
                    match self.handle.checkpoint(deadline, self.now) {
                        Ok(Boundary::Go) => run.checkpoint(Ok(())),
                        Ok(Boundary::Hold) => on_hold(self),
                        Err(error) => run.checkpoint(Err(error)),
                    }
                }
                Request::Signal => run.signal(self.signal()),
                Request::Observe => run.observed(env.observe(self.now)),
                Request::Context { step } => {
                    let reply = env.context(&SkillContext {
                        state: run.state(),
                        task_goal: run.goal(),
                        decision_step: step,
                        previous_result: run.previous().as_ref(),
                        failure: run.failure().as_ref(),
                        interruption: run.interruption().as_ref(),
                    });
                    run.context(reply);
                }
                Request::Decide { .. } => {
                    let reply = match agent(&run, self) {
                        Turn::Decide(decision) => DecisionReply::Decided(decision),
                        Turn::Fail(error) => DecisionReply::Failed(error),
                        Turn::Cancel => {
                            self.handle.cancel();
                            DecisionReply::Cancelled(self.signal())
                        }
                    };
                    run.decided(reply);
                }
                Request::CheckLog => run.logged(self.handle.check_log(), self.now),
                Request::Execute { call, deadline } => {
                    let guard = self.handle.metrics().begin(CallKind::Action);
                    let report = env.execute(&call, deadline, self);
                    guard.settle(&report, self.handle.metrics());
                    run.executed(report);
                }
                Request::Done => break,
            }
        }
        let result = self.handle.checked(run.conclude());
        self.handle.finish(&result, self.now);
        self.handle.summed(result, self.now)
    }
}

/// What an agent saw each time it was asked.
#[derive(Default)]
struct Script {
    decisions: VecDeque<Decision>,
    batches: Vec<Option<BatchProgress>>,
    progress: Vec<Option<ExecutionProgress>>,
    previous: Vec<Option<ToolResult>>,
    failures: Vec<Option<ExecutionFailure>>,
    guidance: Vec<String>,
    loaded: Vec<Vec<String>>,
}

impl Script {
    fn new(decisions: Vec<Decision>) -> Self {
        Script { decisions: decisions.into(), ..Script::default() }
    }

    fn decide(&mut self, run: &Run) -> Turn {
        let view = run.skill_view().as_ref().unwrap();
        assert!(view
            .directory
            .iter()
            .all(|summary| !view.loaded.iter().any(|s| s.name == summary.name)));
        self.batches.push(view.batch.dup());
        self.progress.push(view.execution.dup());
        self.previous.push(run.previous().dup());
        self.failures.push(view.failure.dup());
        self.guidance.push(view.guidance.dup());
        self.loaded.push(view.loaded.iter().map(|s| s.name.dup()).collect());
        match self.decisions.pop_front() {
            Some(decision) => Turn::Decide(decision),
            None => Turn::Fail(Error::Model("script exhausted".to_owned())),
        }
    }
}

fn task() -> Task {
    Task::new("generic task".to_owned()).unwrap()
}

fn run_with(
    script: &mut Script,
    env: &mut dyn Env,
    options: RunOptions,
    on_event: &mut dyn FnMut(Event, &mut Host),
) -> Outcome {
    let task = task();
    let mut host = Host::new(&task);
    let run = Run::new(&task, options, host.now);
    host.drive(
        run,
        env,
        &mut |run, _| script.decide(run),
        on_event,
        &mut |_| panic!("unexpected pause"),
    )
    .unwrap()
}

fn run(script: &mut Script, env: &mut dyn Env, max_decisions: usize) -> Outcome {
    let options = RunOptions { max_decisions, ..RunOptions::default() };
    run_with(script, env, options, &mut |_, _| {})
}

fn counts(total: u64, succeeded: u64, failed: u64) -> CallCounts {
    CallCounts { total, succeeded, failed }
}

fn ten() -> Script {
    Script::new(vec![execute(vec![trial(10)], Continuation::Finish)])
}

#[test]
fn pause_keeps_batch_and_resume_does_not_ask_model_again() {
    let task = Task::new("ten trials".to_owned()).unwrap();
    let mut host = Host::new(&task);
    let started = Run::new(&task, RunOptions::default(), host.now);
    let mut script = ten();
    let mut holds = 0;
    let mut paused = false;
    let outcome = host
        .drive(
            started,
            &mut DemoAdapter::new(Scenario::Normal),
            &mut |run, _| script.decide(run),
            &mut |event, host| {
                if let Event::BatchProgress(progress) = event {
                    if progress.completed == 3 && !paused {
                        paused = true;
                        assert!(host.handle.pause());
                    }
                }
            },
            &mut |host| {
                holds += 1;
                host.now += 25 * MS;
                assert_eq!(host.handle.status(), TaskStatus::Paused);
                let skill = host.handle.snapshot().current_skill;
                assert_eq!(skill.as_deref(), Some("perform_trial"));
                if holds == 2 {
                    assert!(host.handle.resume());
                }
            },
        )
        .unwrap();
    assert_eq!(outcome.batch.unwrap().completed, 10);
    assert_eq!(outcome.decisions, 1);
    assert_eq!(outcome.summary.elapsed_ms, 50);
    assert_eq!(host.handle.status(), TaskStatus::Completed);
    assert!(!host.handle.pause());
    assert!(!host.handle.cancel());
    assert!(!host.handle.resume());
}

#[test]
fn cancel_wakes_paused_task_without_executing_remaining_actions() {
    let task = task();
    let mut host = Host::new(&task);
    let started = Run::new(&task, RunOptions::default(), host.now);
    let mut script = ten();
    let outcome = host
        .drive(
            started,
            &mut DemoAdapter::new(Scenario::Normal),
            &mut |run, _| script.decide(run),
            &mut |event, host| {
                if let Event::BatchProgress(progress) = event {
                    if progress.completed == 3 {
                        host.handle.pause();
                    }
                }
            },
            &mut |host| assert!(host.handle.cancel()),
        )
        .unwrap();
    assert_eq!(outcome.status, Status::Cancelled);
    assert_eq!(outcome.batch.unwrap().completed, 3);
    assert_eq!(host.handle.status(), TaskStatus::Cancelled);
}

#[test]
fn pause_before_start_and_model_error_have_managed_states() {
    let task = task();
    let mut host = Host::new(&task);
    assert!(host.handle.pause());
    let started = Run::new(&task, RunOptions::default(), host.now);
    let mut agent = ManualAgent::new("session".to_owned());
    let mut holds = 0;
    let result = host.drive(
        started,
        &mut DemoAdapter::new(Scenario::Normal),
        &mut |run, _| {
            let words = serde_json::from_str::<serde_json::Value>("invalid\n").unwrap_err();
            let goal = Task { goal: run.goal().to_owned() };
            let view = run.skill_view().as_ref().unwrap();
            agent.ask(&goal, run.state(), view, run.previous().as_ref());
            match agent.answer(Typed::Malformed(words.to_string())).0 {
                Ok(decision) => Turn::Decide(decision),
                Err(error) => Turn::Fail(error),
            }
        },
        &mut |_, _| {},
        &mut |host| {
            holds += 1;
            host.handle.resume();
        },
    );
    assert!(result.is_err());
    assert_eq!(holds, 1);
    assert_eq!(host.handle.status(), TaskStatus::Failed);
    assert!(host.handle.snapshot().reason.unwrap().contains("invalid manual"));
}

#[test]
fn batch_deadline_still_applies_while_paused() {
    let task = task();
    let mut host = Host::new(&task);
    let options = RunOptions { batch_timeout: 50 * MS, ..RunOptions::default() };
    let started = Run::new(&task, options, host.now);
    let mut script = ten();
    let outcome = host
        .drive(
            started,
            &mut DemoAdapter::new(Scenario::Normal),
            &mut |run, _| script.decide(run),
            &mut |event, host| {
                if let Event::BatchProgress(progress) = event {
                    if progress.completed == 1 {
                        host.handle.pause();
                    }
                }
            },
            &mut |host| host.now += 25 * MS,
        )
        .unwrap();
    assert_eq!(outcome.status, Status::Failed);
    assert_eq!(outcome.batch.unwrap().status, BatchStatus::TimedOut);
    assert_eq!(host.handle.status(), TaskStatus::Failed);
}

#[test]
fn dropped_execution_does_not_leave_a_running_handle() {
    let mut host = Host::new(&task());
    host.handle.start(host.now);
    host.handle.pause();
    assert!(host.handle.abandon(host.now));
    assert_eq!(host.handle.status(), TaskStatus::Failed);
    assert!(host.handle.is_cancelled());
    assert!(host.handle.snapshot().reason.unwrap().contains("dropped"));
    assert!(!host.handle.abandon(host.now));
}

#[test]
fn pause_after_decision_preserves_it_without_executing_the_action() {
    let task = task();
    let mut host = Host::new(&task);
    let started = Run::new(&task, RunOptions::default(), host.now);
    let mut script = ten();
    let mut adapter = DemoAdapter::new(Scenario::Normal);
    let outcome = host
        .drive(
            started,
            &mut adapter,
            &mut |run, _| script.decide(run),
            &mut |event, host| {
                if matches!(event, Event::Decided(_)) {
                    host.handle.pause();
                }
            },
            &mut |host| {
                host.handle.cancel();
            },
        )
        .unwrap();
    assert_eq!(outcome.status, Status::Cancelled);
    assert_eq!(fact(&adapter.observe(0), &["trial", "completed"]), "0");
}

#[test]
fn cancellation_after_last_ordinary_action_reports_fresh_state() {
    let outcome = run_with(
        &mut Script::new(vec![execute(
            vec![call("set_mode", r#"{"mode":"training"}"#)],
            Continuation::Decide,
        )]),
        &mut DemoAdapter::new(Scenario::Normal),
        RunOptions { max_decisions: 1, ..RunOptions::default() },
        &mut |event, host| {
            if matches!(event, Event::Executed(_)) {
                host.handle.cancel();
            }
        },
    );
    assert_eq!(outcome.status, Status::Cancelled);
    assert_eq!(fact(&outcome.state, &["mode"]), "\"training\"");
}

#[test]
fn cancel_interrupts_an_async_model_wait() {
    let task = task();
    let mut host = Host::new(&task);
    let started = Run::new(&task, RunOptions::default(), host.now);
    let outcome = host
        .drive(
            started,
            &mut DemoAdapter::new(Scenario::Normal),
            &mut |_, _| Turn::Cancel,
            &mut |_, _| {},
            &mut |_| panic!("unexpected pause"),
        )
        .unwrap();
    assert_eq!(outcome.status, Status::Cancelled);
    assert_eq!(outcome.decisions, 0);
    assert_eq!(host.handle.status(), TaskStatus::Cancelled);
}

#[test]
fn journal_failure_is_visible_and_prevents_execution() {
    let task = task();
    let mut host = Host::new(&task);
    host.handle.log_lost("disk full".to_owned());
    host.handle.log_lost("later".to_owned());
    let started = Run::new(&task, RunOptions::default(), host.now);
    let mut script = ten();
    let mut adapter = DemoAdapter::new(Scenario::Normal);
    let result = host.drive(
        started,
        &mut adapter,
        &mut |run, _| script.decide(run),
        &mut |_, _| {},
        &mut |_| panic!("unexpected pause"),
    );
    match result {
        Err(Error::Logging(message)) => assert_eq!(message, "disk full"),
        _ => panic!("the journal is lost"),
    }
    assert_eq!(host.handle.status(), TaskStatus::Failed);
    assert_eq!(fact(&adapter.observe(0), &["trial", "completed"]), "0");
}

#[test]
fn repeat_counts_every_call_and_normal_misses_are_not_failures() {
    let task = task();
    let mut host = Host::new(&task);
    let started = Run::new(&task, RunOptions::default(), host.now);
    let mut script = ten();
    let outcome = host
        .drive(
            started,
            &mut DemoAdapter::new(Scenario::Normal),
            &mut |run, _| script.decide(run),
            &mut |_, _| {},
            &mut |_| panic!("unexpected pause"),
        )
        .unwrap();
    assert_eq!(outcome.summary.model_requests, counts(0, 0, 0));
    assert_eq!(outcome.summary.actions, counts(10, 10, 0));
    assert_eq!(outcome.summary.interruptions, 0);
    assert_eq!(outcome.batch.unwrap().successful, 7);
    assert_eq!(host.handle.snapshot().summary, Some(outcome.summary));
}

#[test]
fn until_done_and_repair_count_actual_calls_with_one_interruption() {
    let mut script = Script::new(vec![
        execute(vec![explore()], Continuation::Finish),
        execute(vec![call("reset_exploration", "{}")], Continuation::Decide),
        Decision::Resume,
    ]);
    let outcome = run(&mut script, &mut DemoAdapter::new(Scenario::ExplorationInterrupted), 12);
    assert_eq!(outcome.summary.actions, counts(6, 5, 1));
    assert_eq!(outcome.summary.interruptions, 1);
    assert_eq!(outcome.decisions, 3);
    assert_eq!(outcome.summary.model_requests.total, 0);
}

#[test]
fn rejected_plans_and_unavailable_skills_are_not_actual_calls() {
    let mut script = Script::new(vec![
        execute(vec![call("missing", "{}")], Continuation::Finish),
        execute(vec![call("start_training", "{}")], Continuation::Finish),
        Decision::Failed("unavailable".to_owned()),
    ]);
    let outcome = run(&mut script, &mut DemoAdapter::new(Scenario::Normal), 12);
    assert_eq!(outcome.summary.actions, counts(0, 0, 0));
    assert_eq!(outcome.summary.interruptions, 1);
}

#[test]
fn adapter_argument_errors_count_as_calls_and_failures() {
    let mut script = Script::new(vec![
        execute(vec![call("set_mode", r#"{"mode":"unknown"}"#)], Continuation::Finish),
        Decision::Failed("invalid arguments".to_owned()),
    ]);
    let outcome = run(&mut script, &mut DemoAdapter::new(Scenario::Normal), 12);
    assert_eq!(outcome.summary.actions, counts(1, 0, 1));
    assert_eq!(outcome.summary.interruptions, 1);
}

#[test]
fn cancellation_before_start_and_input_errors_still_have_summaries() {
    let task = task();
    let mut host = Host::new(&task);
    host.handle.cancel();
    let started = Run::new(&task, RunOptions::default(), host.now);
    let outcome = host
        .drive(
            started,
            &mut DemoAdapter::new(Scenario::Normal),
            &mut |_, _| panic!("a cancelled task asks nobody"),
            &mut |_, _| {},
            &mut |_| panic!("unexpected pause"),
        )
        .unwrap();
    assert_eq!(outcome.status, Status::Cancelled);
    assert_eq!(outcome.summary.actions.total, 0);
    let mut host = Host::new(&task);
    let started = Run::new(&task, RunOptions::default(), host.now);
    let result = host.drive(
        started,
        &mut DemoAdapter::new(Scenario::Normal),
        &mut |_, _| Turn::Fail(Error::Invalid("manual input ended".to_owned())),
        &mut |_, _| {},
        &mut |_| panic!("unexpected pause"),
    );
    assert!(result.is_err());
    assert_eq!(host.handle.status(), TaskStatus::Failed);
    assert_eq!(host.handle.snapshot().summary.unwrap().model_requests.total, 0);
}

#[test]
fn model_requests_are_not_decision_rounds_and_reused_provider_is_task_scoped() {
    for _ in 0..2 {
        let task = task();
        let mut host = Host::new(&task);
        let started = Run::new(&task, RunOptions::default(), host.now);
        let outcome = host
            .drive(
                started,
                &mut DemoAdapter::new(Scenario::Normal),
                &mut |_, host| {
                    let lost = host.handle.metrics().model_request();
                    lost.failure(host.handle.metrics());
                    let answered = host.handle.metrics().model_request();
                    answered.success(host.handle.metrics());
                    Turn::Decide(Decision::Completed("done".to_owned()))
                },
                &mut |_, _| {},
                &mut |_| panic!("unexpected pause"),
            )
            .unwrap();
        assert_eq!(outcome.decisions, 1);
        assert_eq!(outcome.summary.model_requests, counts(2, 1, 1));
    }
}

fn prepared(adapter: &DemoAdapter, times: u32) -> actweave::api::ExecutionRequest {
    adapter.prepare_feature("repeat_trial", &json(&format!("{{\"times\":{times}}}"))).unwrap()
}

fn drive_feature(
    adapter: &mut DemoAdapter,
    times: u32,
    on_event: &mut dyn FnMut(Event, &mut Host),
    on_hold: &mut dyn FnMut(&mut Host),
) -> (Outcome, Host) {
    let task = Task::new("trial".to_owned()).unwrap();
    let mut host = Host::new(&task);
    let request = prepared(adapter, times);
    let started = Run::prepared(&task, request, RunOptions::default(), host.now);
    let outcome = host
        .drive(
            started,
            adapter,
            &mut |_, _| panic!("a prepared run asks nobody"),
            on_event,
            on_hold,
        )
        .unwrap();
    (outcome, host)
}

#[test]
fn local_feature_has_zero_decisions_and_model_requests() {
    let mut adapter = DemoAdapter::new(Scenario::Normal);
    let (outcome, host) = drive_feature(
        &mut adapter,
        10,
        &mut |event, _| assert!(!matches!(event, Event::Decided(_))),
        &mut |_| panic!("unexpected pause"),
    );
    assert_eq!(outcome.status, Status::Completed);
    assert_eq!(outcome.decisions, 0);
    assert_eq!(outcome.summary.model_requests.total, 0);
    assert_eq!(outcome.summary.actions.total, 10);
    assert_eq!(host.handle.status(), TaskStatus::Completed);
    assert_eq!(fact(&outcome.state, &["trial", "completed"]), "10");
}

#[test]
fn local_failure_stops_without_retry_or_model() {
    let mut adapter = DemoAdapter::new(Scenario::BatchInterrupted);
    let (outcome, _) = drive_feature(&mut adapter, 10, &mut |_, _| {}, &mut |_| panic!("paused"));
    assert_eq!(outcome.status, Status::Failed);
    assert_eq!(outcome.summary.actions.total, 4);
    assert_eq!(fact(&outcome.state, &["trial", "completed"]), "3");
    assert_eq!(outcome.summary.model_requests.total, 0);
}

#[test]
fn local_cancel_preserves_confirmed_progress() {
    let mut adapter = DemoAdapter::new(Scenario::Normal);
    let (outcome, _) = drive_feature(
        &mut adapter,
        10,
        &mut |event, host| {
            if let Event::BatchProgress(progress) = event {
                if progress.completed == 2 {
                    host.handle.cancel();
                }
            }
        },
        &mut |_| panic!("unexpected pause"),
    );
    assert_eq!(outcome.status, Status::Cancelled);
    assert_eq!(outcome.summary.actions.total, 2);
}

#[test]
fn local_pause_resumes_existing_batch() {
    let mut adapter = DemoAdapter::new(Scenario::Normal);
    let mut paused = false;
    let (outcome, _) = drive_feature(
        &mut adapter,
        3,
        &mut |event, host| {
            if let Event::BatchProgress(progress) = event {
                if progress.completed == 1 && !paused {
                    paused = true;
                    host.handle.pause();
                }
            }
        },
        &mut |host| {
            host.handle.resume();
        },
    );
    assert_eq!(outcome.summary.actions.total, 3);
}

/// Takes a while, and looks at its control every few milliseconds.
struct Delay {
    completed: u32,
    during: Option<fn(&mut Host)>,
}
impl Env for Delay {
    fn observe(&mut self, _: u128) -> Result<AppState, AdapterError> {
        let mut facts = Json::object();
        facts.set("completed", Json::Unsigned(self.completed as u64));
        Ok(AppState { scene: "delay mock".to_owned(), facts })
    }
    fn context(&mut self, _: &SkillContext) -> Result<DecisionContext, AdapterError> {
        Ok(DecisionContext {
            skills: vec![actweave::api::Skill {
                name: "delay".to_owned(),
                description: "Wait for 100 ms.".to_owned(),
                repeatable: true,
                loopable: true,
                tags: vec!["mock".to_owned()],
                availability: Availability::Available,
                parameters: json("{}"),
                calls: vec![tool("delay", "{}")],
            }],
            guidance: String::new(),
        })
    }
    fn execute(
        &mut self,
        _: &ToolCall,
        deadline: Option<u128>,
        host: &mut Host,
    ) -> Result<ActionReport, AdapterError> {
        let mut control = ExecutionControl { deadline, ..ExecutionControl::default() };
        let end = host.now + 100 * MS;
        if let Some(during) = self.during.take() {
            during(host);
        }
        loop {
            if host.handle.is_cancelled() {
                control.cancellation.cancel();
            }
            control.check(host.now)?;
            if host.now >= end {
                break;
            }
            host.now += 5 * MS;
        }
        self.completed += 1;
        Ok(ActionReport::completed("delay finished".to_owned(), true))
    }
}

fn delayed(
    action: Action,
    options: RunOptions,
    during: Option<fn(&mut Host)>,
    on_hold: &mut dyn FnMut(&mut Host),
) -> (Outcome, Host, u32) {
    let task = Task::new("mock delay".to_owned()).unwrap();
    let mut host = Host::new(&task);
    let started = Run::new(&task, options, host.now);
    let mut script = Script::new(vec![execute(vec![action], Continuation::Finish)]);
    let mut adapter = Delay { completed: 0, during };
    let outcome = host
        .drive(
            started,
            &mut adapter,
            &mut |run, _| script.decide(run),
            &mut |_, _| {},
            on_hold,
        )
        .unwrap();
    (outcome, host, adapter.completed)
}

fn cancel_during(action: Action) {
    let (outcome, host, completed) = delayed(
        action,
        RunOptions::default(),
        Some(|host| {
            assert_eq!(host.handle.status(), TaskStatus::Running);
            let skill = host.handle.snapshot().current_skill;
            assert_eq!(skill.as_deref(), Some("delay"));
            assert!(host.handle.cancel());
        }),
        &mut |_| panic!("unexpected pause"),
    );
    assert_eq!(outcome.status, Status::Cancelled);
    assert_eq!(outcome.summary.actions, counts(1, 0, 1));
    assert_eq!(host.handle.snapshot().summary, Some(outcome.summary));
    assert_eq!(completed, 0);
    if let Some(batch) = outcome.batch {
        assert_eq!(batch.completed, 0);
        assert_eq!(batch.status, BatchStatus::Cancelled);
    }
    assert_eq!(host.handle.status(), TaskStatus::Cancelled);
}

fn twice() -> Action {
    Action::Repeat(RepeatRequest { call: tool("delay", "{}"), times: 2 })
}

#[test]
fn ordinary_delay_keeps_query_and_cancel_responsive() {
    cancel_during(call("delay", "{}"));
}

#[test]
fn repeated_delay_keeps_query_and_cancel_responsive() {
    cancel_during(twice());
}

#[test]
fn until_done_delay_keeps_query_and_cancel_responsive() {
    cancel_during(Action::UntilDone(tool("delay", "{}")));
}

#[test]
fn until_done_deadline_expires_without_becoming_completion() {
    let (outcome, _, _) = delayed(
        Action::UntilDone(tool("delay", "{}")),
        RunOptions { batch_timeout: 20 * MS, ..RunOptions::default() },
        None,
        &mut |_| panic!("unexpected pause"),
    );
    assert_eq!(outcome.status, Status::Failed);
    let batch = outcome.batch.unwrap();
    assert_eq!(batch.status, BatchStatus::TimedOut);
    assert!(!batch.finished);
}

#[test]
fn pause_is_accepted_during_delay_and_resumes_at_action_boundary() {
    let mut holds = 0;
    let (outcome, _, completed) = delayed(
        twice(),
        RunOptions::default(),
        Some(|host| {
            assert!(host.handle.pause());
            assert_eq!(host.handle.status(), TaskStatus::PauseRequested);
        }),
        &mut |host| {
            assert_eq!(host.handle.status(), TaskStatus::Paused);
            assert_eq!(host.handle.summary().actions.succeeded, 1);
            host.now += 20 * MS;
            holds += 1;
            if holds == 2 {
                assert!(host.handle.resume());
            }
        },
    );
    assert_eq!(outcome.status, Status::Completed);
    assert_eq!(outcome.decisions, 1);
    assert!(outcome.summary.elapsed_ms >= 220);
    assert_eq!(outcome.summary.actions, counts(2, 2, 0));
    assert_eq!(completed, 2);
}

#[test]
fn delay_honors_batch_deadline_without_counting_completion() {
    let (outcome, _, completed) = delayed(
        twice(),
        RunOptions { batch_timeout: 20 * MS, ..RunOptions::default() },
        None,
        &mut |_| panic!("unexpected pause"),
    );
    assert_eq!(outcome.status, Status::Failed);
    let batch = outcome.batch.unwrap();
    assert_eq!(batch.status, BatchStatus::TimedOut);
    assert_eq!(batch.completed, 0);
    assert_eq!(completed, 0);
}
