#![allow(dead_code, unused_imports)]
use actweave::api::{
    Action, ActionOutcome, ActionReport, AdapterError, AppState, Availability, DecisionContext,
    ExecutionControl, ExecutionFailure, FailureStage, PauseState, RepeatRequest, SkillContext,
    ToolCall, ToolResult,
};
use actweave::batch::{BatchProgress, BatchStatus};
use actweave::copy::Dup;
use actweave::demo::{DemoAdapter, Execution};
use actweave::demo_runtime::Scenario;
use actweave::execution::{ExecutionProgress, ExecutionStatus};
use actweave::json::Json;
use actweave::kernel::{
    Continuation, Decision, Error, Event, Outcome, RunOptions, Signal, Status, Task,
};
use actweave::metrics::{CallCounts, CallKind};
use actweave::run::{DecisionReply, Request, Run};
use actweave::skills::{LoadSkills, SkillMode};
use actweave::task_runtime::{Boundary, TaskHandle, TaskStatus};
use std::collections::VecDeque;

const MS: u128 = 1_000_000;

fn json(text: &str) -> Json {
    Json::parse(text).unwrap()
}

fn fact(state: &AppState, path: &[&str]) -> String {
    let mut at = &state.facts;
    for key in path {
        at = at.get(key).unwrap();
    }
    at.to_text()
}

fn tool(name: &str, arguments: &str) -> ToolCall {
    ToolCall { name: name.to_owned(), arguments: json(arguments) }
}

fn call(name: &str, arguments: &str) -> Action {
    Action::Call(tool(name, arguments))
}

fn trial(times: u32) -> Action {
    Action::Repeat(RepeatRequest { call: tool("perform_trial", "{}"), times })
}

fn explore() -> Action {
    Action::UntilDone(tool("explore_step", "{}"))
}

fn execute(actions: Vec<Action>, then: Continuation) -> Decision {
    Decision::Execute { actions, then }
}

fn load(names: &[&str], tags: &[&str]) -> Decision {
    Decision::LoadSkills(LoadSkills {
        names: names.iter().map(|s| s.to_string()).collect(),
        tags: tags.iter().map(|s| s.to_string()).collect(),
    })
}

/// The application behind a run.
trait Env {
    fn observe(&mut self, now: u128) -> Result<AppState, AdapterError>;
    fn context(&mut self, context: &SkillContext) -> Result<DecisionContext, AdapterError>;
    fn execute(
        &mut self,
        call: &ToolCall,
        deadline: Option<u128>,
        host: &mut Host,
    ) -> Result<ActionReport, AdapterError>;
}

fn demo_execute(
    adapter: &mut DemoAdapter,
    call: &ToolCall,
    deadline: Option<u128>,
    host: &mut Host,
) -> Result<ActionReport, AdapterError> {
    let mut control = ExecutionControl { deadline, ..ExecutionControl::default() };
    if host.handle.is_cancelled() {
        control.cancellation.cancel();
    }
    match adapter.execute(call, &control, "", host.now)? {
        Execution::Report(report) => Ok(report),
        Execution::Trial => {
            let mut pause = PauseState::Running;
            let mut trial = adapter.begin_trial(&control, pause, host.now)?;
            loop {
                let report = adapter.step_trial(&mut trial, &control, &mut pause, host.now);
                if let Some(report) = report {
                    return report;
                }
            }
        }
    }
}

impl Env for DemoAdapter {
    fn observe(&mut self, now: u128) -> Result<AppState, AdapterError> {
        Ok(DemoAdapter::observe(self, now))
    }
    fn context(&mut self, context: &SkillContext) -> Result<DecisionContext, AdapterError> {
        self.decision_context(context, "")
    }
    fn execute(
        &mut self,
        call: &ToolCall,
        deadline: Option<u128>,
        host: &mut Host,
    ) -> Result<ActionReport, AdapterError> {
        demo_execute(self, call, deadline, host)
    }
}

/// What an agent does when it is asked.
enum Turn {
    Decide(Decision),
    Fail(Error),
    Cancel,
}

struct Host {
    now: u128,
    handle: TaskHandle,
}

impl Host {
    fn new(task: &Task) -> Self {
        Host { now: 1000 * MS, handle: TaskHandle::new("task-1".to_owned(), task) }
    }

    fn signal(&self) -> Signal {
        Signal { cancelled: self.handle.is_cancelled(), now: self.now }
    }

    /// Performs what the run asks for until it is done.
    fn drive(
        &mut self,
        run: Result<Run, Error>,
        env: &mut dyn Env,
        agent: &mut dyn FnMut(&Run, &mut Host) -> Turn,
        on_event: &mut dyn FnMut(Event, &mut Host),
        on_hold: &mut dyn FnMut(&mut Host),
    ) -> Result<Outcome, Error> {
        self.handle.start(self.now);
        let mut run = match run {
            Ok(run) => run,
            Err(error) => {
                let result = Err(error);
                self.handle.finish(&result, self.now);
                return result;
            }
        };
        loop {
            for event in run.take_events() {
                self.handle.event(&event);
                on_event(event, self);
            }
            match run.request() {
                Request::Checkpoint { deadline } => {
                    match self.handle.checkpoint(deadline, self.now) {
                        Ok(Boundary::Go) => run.checkpoint(Ok(())),
                        Ok(Boundary::Hold) => on_hold(self),
                        Err(error) => run.checkpoint(Err(error)),
                    }
                }
                Request::Signal => run.signal(self.signal()),
                Request::Observe => run.observed(env.observe(self.now)),
                Request::Context { step } => {
                    let reply = env.context(&SkillContext {
                        state: run.state(),
                        task_goal: run.goal(),
                        decision_step: step,
                        previous_result: run.previous().as_ref(),
                        failure: run.failure().as_ref(),
                        interruption: run.interruption().as_ref(),
                    });
                    run.context(reply);
                }
                Request::Decide { .. } => {
                    let reply = match agent(&run, self) {
                        Turn::Decide(decision) => DecisionReply::Decided(decision),
                        Turn::Fail(error) => DecisionReply::Failed(error),
                        Turn::Cancel => {
                            self.handle.cancel();
                            DecisionReply::Cancelled(self.signal())
                        }
                    };
                    run.decided(reply);
                }
                Request::CheckLog => run.logged(self.handle.check_log(), self.now),
                Request::Execute { call, deadline } => {
                    let guard = self.handle.metrics().begin(CallKind::Action);
                    let report = env.execute(&call, deadline, self);
                    guard.settle(&report, self.handle.metrics());
                    run.executed(report);
                }
                Request::Done => break,
            }
        }
        let result = self.handle.checked(run.conclude());
        self.handle.finish(&result, self.now);
        self.handle.summed(result, self.now)
    }
}

/// What an agent saw each time it was asked.
#[derive(Default)]
struct Script {
    decisions: VecDeque<Decision>,
    batches: Vec<Option<BatchProgress>>,
    progress: Vec<Option<ExecutionProgress>>,
    previous: Vec<Option<ToolResult>>,
    failures: Vec<Option<ExecutionFailure>>,
    guidance: Vec<String>,
    loaded: Vec<Vec<String>>,
}

impl Script {
    fn new(decisions: Vec<Decision>) -> Self {
        Script { decisions: decisions.into(), ..Script::default() }
    }

    fn decide(&mut self, run: &Run) -> Turn {
        let view = run.skill_view().as_ref().unwrap();
        assert!(view
            .directory
            .iter()
            .all(|summary| !view.loaded.iter().any(|s| s.name == summary.name)));
        self.batches.push(view.batch.dup());
        self.progress.push(view.execution.dup());
        self.previous.push(run.previous().dup());
        self.failures.push(view.failure.dup());
        self.guidance.push(view.guidance.dup());
        self.loaded.push(view.loaded.iter().map(|s| s.name.dup()).collect());
        match self.decisions.pop_front() {
            Some(decision) => Turn::Decide(decision),
            None => Turn::Fail(Error::Model("script exhausted".to_owned())),
        }
    }
}

fn task() -> Task {
    Task::new("generic task".to_owned()).unwrap()
}

fn run_with(
    script: &mut Script,
    env: &mut dyn Env,
    options: RunOptions,
    on_event: &mut dyn FnMut(Event, &mut Host),
) -> Outcome {
    let task = task();
    let mut host = Host::new(&task);
    let run = Run::new(&task, options, host.now);
    host.drive(
        run,
        env,
        &mut |run, _| script.decide(run),
        on_event,
        &mut |_| panic!("unexpected pause"),
    )
    .unwrap()
}

fn run(script: &mut Script, env: &mut dyn Env, max_decisions: usize) -> Outcome {
    let options = RunOptions { max_decisions, ..RunOptions::default() };
    run_with(script, env, options, &mut |_, _| {})
}

use actweave::diagnostics::{DecisionLog, LogEvent};
use actweave::inquiry::{receive, Inquiry, Want};
use actweave::jev::{request, Transfer};
use actweave::manual::{ManualAgent, Typed};
use actweave::tui::{App, Effect, Key, Plan, Screen};
use actweave::wire::{execution_entry, lifecycle_entry};

/// A person who types what was prepared; what is recorded of it is kept.
struct Person {
    agent: ManualAgent,
    typed: VecDeque<Typed>,
    records: Vec<Json>,
}

impl Person {
    fn new(typed: Vec<Typed>) -> Self {
        Person { agent: ManualAgent::new("session".to_owned()), typed: typed.into(), records: vec![] }
    }

    fn turn(&mut self, run: &Run) -> Turn {
        let view = run.skill_view().as_ref().unwrap();
        let task = Task { goal: run.goal().to_owned() };
        let input = self.agent.ask(&task, run.state(), view, run.previous().as_ref());
        self.records.push(self.agent.log.record(1, &LogEvent::ManualInput(input)));
        let typed = self.typed.pop_front().unwrap_or(Typed::Ended);
        let (result, event) = self.agent.answer(typed);
        self.records.push(self.agent.log.record(2, &event));
        match result {
            Ok(decision) => Turn::Decide(decision),
            Err(error) => Turn::Fail(error),
        }
    }

    fn run(
        &mut self,
        goal: &str,
        env: &mut dyn Env,
        options: RunOptions,
        on_event: &mut dyn FnMut(Event, &mut Host),
    ) -> Result<Outcome, Error> {
        let task = Task::new(goal.to_owned()).unwrap();
        let mut host = Host::new(&task);
        let run = Run::new(&task, options, host.now);
        host.drive(run, env, &mut |run, _| self.turn(run), on_event, &mut |_| {
            panic!("unexpected pause")
        })
    }
}

fn limit(max_decisions: usize) -> RunOptions {
    RunOptions { max_decisions, ..RunOptions::default() }
}

fn typed(decision: Decision) -> Typed {
    Typed::Decision(decision)
}

fn completed(reason: &str) -> Typed {
    typed(Decision::Completed(reason.to_owned()))
}

fn decides(action: Action) -> Typed {
    typed(execute(vec![action], Continuation::Decide))
}

fn at(json: &Json, path: &[&str]) -> String {
    let mut found = json;
    for key in path {
        found = found.get(key).unwrap();
    }
    match found.as_text() {
        Some(text) => text.to_owned(),
        None => found.to_text(),
    }
}

/// An adapter whose skills offer no calls.
struct SchemaOnly(DemoAdapter);

impl Env for SchemaOnly {
    fn observe(&mut self, now: u128) -> Result<AppState, AdapterError> {
        Ok(self.0.observe(now))
    }
    fn context(&mut self, context: &SkillContext) -> Result<DecisionContext, AdapterError> {
        let mut context = self.0.decision_context(context, "")?;
        for skill in &mut context.skills {
            skill.calls.clear();
        }
        Ok(context)
    }
    fn execute(
        &mut self,
        call: &ToolCall,
        deadline: Option<u128>,
        host: &mut Host,
    ) -> Result<ActionReport, AdapterError> {
        demo_execute(&mut self.0, call, deadline, host)
    }
}

#[test]
fn manual_agent_uses_schema_only_tools_and_adapter_still_rejects_invalid_arguments() {
    let mut person = Person::new(vec![
        decides(call("set_mode", r#"{"mode":"invalid"}"#)),
        decides(call("set_mode", r#"{"mode":"training"}"#)),
        completed("observed training mode"),
    ]);
    let mut results = vec![];
    let outcome = person
        .run(
            "training mode",
            &mut SchemaOnly(DemoAdapter::new(Scenario::Normal)),
            limit(4),
            &mut |event, _| {
                if let Event::Executed(result) = event {
                    results.push(result);
                }
            },
        )
        .unwrap();
    assert_eq!(outcome.status, Status::Completed);
    assert_eq!(fact(&outcome.state, &["mode"]), "\"training\"");
    assert!(!results[0].success);
    assert!(results[1].success);
}

#[test]
fn manual_eof_and_malformed_decisions_are_errors_not_completion() {
    for typed in [
        Typed::Ended,
        Typed::Malformed("expected value".to_owned()),
        Typed::Malformed("unknown variant `Unknown`".to_owned()),
    ] {
        let result = Person::new(vec![typed]).run(
            "training",
            &mut DemoAdapter::new(Scenario::Normal),
            limit(2),
            &mut |_, _| {},
        );
        assert!(matches!(result, Err(Error::Invalid(_))));
    }
}

#[test]
fn manual_repeat_is_one_input_line_with_no_completion_confirmation() {
    let mut person = Person::new(vec![typed(execute(vec![trial(10)], Continuation::Finish))]);
    let mut demo = DemoAdapter::new(Scenario::Normal);
    let outcome = person.run("generic task", &mut demo, limit(1), &mut |_, _| {}).unwrap();
    assert_eq!(outcome.status, Status::Completed);
    assert_eq!(outcome.batch.unwrap().completed, 10);
}

#[test]
fn selection_does_not_leak_between_tasks_even_with_same_agent() {
    let mut person = Person::new(vec![
        typed(load(&["set_mode"], &[])),
        completed("first task"),
        decides(call("set_mode", r#"{"mode":"training"}"#)),
        typed(Decision::Failed("not loaded".to_owned())),
    ]);
    let options = RunOptions { skill_mode: SkillMode::OnDemand, ..limit(3) };
    let mut first = DemoAdapter::new(Scenario::Normal);
    person.run("task", &mut first, options, &mut |_, _| {}).unwrap();
    let options = RunOptions { skill_mode: SkillMode::OnDemand, ..limit(3) };
    let mut second = DemoAdapter::new(Scenario::Normal);
    let result = person.run("task", &mut second, options, &mut |_, _| {}).unwrap();
    assert_eq!(fact(&result.state, &["mode"]), "\"idle\"");
}

#[test]
fn manual_diagnostics_receive_current_guidance_and_unresolved_interruption() {
    let mut person = Person::new(vec![
        typed(execute(vec![explore()], Continuation::Finish)),
        decides(call("reset_exploration", "{}")),
        typed(Decision::Resume),
    ]);
    let mut demo = DemoAdapter::new(Scenario::ExplorationInterrupted);
    let outcome = person.run("explore", &mut demo, limit(3), &mut |_, _| {}).unwrap();
    assert_eq!(outcome.status, Status::Completed);
    let inputs: Vec<&Json> =
        person.records.iter().filter(|r| at(r, &["event"]) == "manual_input").collect();
    assert_eq!(inputs.len(), 3);
    assert!(at(inputs[1], &["body", "skills", "guidance"]).contains("reset_exploration"));
    assert_eq!(at(inputs[1], &["body", "skills", "failure", "stage"]), "execution");
    let repaired = inputs[2].get("body").unwrap().get("skills").unwrap();
    assert!(repaired.get("failure").is_none());
    assert!(at(repaired, &["guidance"]).contains("继续原先中断"));
    assert_eq!(at(repaired, &["execution", "failure", "call", "name"]), "explore_step");
}

#[test]
fn reused_provider_logs_distinct_tasks_and_independent_event_streams() {
    let mut person = Person::new(vec![completed("first"), completed("second")]);
    for id in ["1", "2"] {
        let task = task();
        let mut host =
            Host { now: 1000 * MS, handle: TaskHandle::new(id.to_owned(), &task) };
        person.agent.bind_task(id);
        let run = Run::new(&task, RunOptions::default(), host.now);
        let mut records = vec![];
        host.drive(
            run,
            &mut DemoAdapter::new(Scenario::Normal),
            &mut |run, _| person.turn(run),
            &mut |event, host| {
                records.push(execution_entry(&host.handle.snapshot().task_id, &event, 1));
            },
            &mut |_| panic!("unexpected pause"),
        )
        .unwrap();
        records.push(lifecycle_entry(&host.handle.snapshot(), 2));
        assert!(records.iter().all(|r| at(r, &["task_id"]) == id));
        let last = records.last().unwrap();
        assert_eq!(at(last, &["data", "status"]), "completed");
        assert_eq!(at(last, &["data", "summary", "model_requests", "total"]), "0");
    }
    assert_eq!(person.records.len(), 4);
    assert_eq!(at(&person.records[0], &["task_id"]), "1");
    assert_eq!(at(&person.records[2], &["task_id"]), "2");
    assert_eq!(at(&person.records[2], &["request_id"]), "1");
}

#[test]
fn cancelling_in_flight_model_request_counts_it_without_a_decision() {
    let task = task();
    let mut host = Host::new(&task);
    let run = Run::new(&task, RunOptions::default(), host.now);
    let result = host
        .drive(
            run,
            &mut DemoAdapter::new(Scenario::Normal),
            &mut |_, host| {
                let guard = host.handle.metrics().model_request();
                guard.failure(host.handle.metrics());
                Turn::Cancel
            },
            &mut |_, _| {},
            &mut |_| panic!("unexpected pause"),
        )
        .unwrap();
    assert_eq!(result.status, Status::Cancelled);
    assert_eq!(result.decisions, 0);
    let counts = result.summary.model_requests;
    assert_eq!((counts.total, counts.succeeded, counts.failed), (1, 0, 1));
    assert_eq!(result.summary.actions.total, 0);
}

#[test]
fn dropped_in_flight_action_is_counted_as_interrupted_not_normal() {
    let task = task();
    let mut handle = TaskHandle::new("task".to_owned(), &task);
    handle.start(0);
    let guard = handle.metrics().begin(CallKind::Action);
    guard.failure(handle.metrics());
    assert!(handle.abandon(20 * MS));
    assert!(!handle.abandon(21 * MS));
    let summary = handle.snapshot().summary.unwrap();
    assert_eq!(summary.actions.total, 1);
    assert_eq!(summary.actions.succeeded, 0);
    assert_eq!(summary.actions.failed, 1);
    assert_eq!(handle.status(), TaskStatus::Failed);
    assert!(handle.is_cancelled());
}

#[test]
fn local_feature_runs_from_guided_screens_without_a_model() {
    let mut app = App::new(vec!["demo".to_owned()]);
    assert_eq!(app.key(Key::Enter), Effect::ChooseAdapter);
    let mut demo = DemoAdapter::new(Scenario::Normal);
    app.choose_adapter(Ok(demo.features()));
    assert_eq!(app.screen, Screen::Tasks);
    app.key(Key::Down);
    app.key(Key::Enter);
    assert_eq!(app.screen, Screen::Configure);
    app.inputs[0].value = "2".to_owned();
    let (goal, prepared) = match app.plan(false).unwrap() {
        Plan::Feature { id, name, arguments } => {
            (name, demo.prepare_feature(&id, &arguments).unwrap())
        }
        Plan::Goal(_) => panic!("a feature was chosen"),
    };
    app.start(Some(demo.observe(0)));
    let task = Task::new(goal).unwrap();
    let mut host = Host::new(&task);
    let run = Run::prepared(&task, prepared, RunOptions::default(), host.now);
    let result = host.drive(
        run,
        &mut demo,
        &mut |_, _| panic!("no model is asked"),
        &mut |event, _| app.event(&event),
        &mut |_| panic!("unexpected pause"),
    );
    app.finished(result.map_err(|e| e.message()), "0.0");
    assert!(app.done);
    assert_eq!(host.handle.snapshot().status, TaskStatus::Completed);
    assert_eq!(host.handle.snapshot().summary.unwrap().model_requests.total, 0);
    assert!(app.state.is_some());
    assert_eq!(app.logs[app.logs.len() - 1], "模型请求 0 次，动作调用 2 次，耗时 0.0 秒");
}

/// A model whose service answers once; what is recorded of it is kept.
struct Service {
    log: DecisionLog,
    transfers: VecDeque<Transfer>,
    requests: Vec<Json>,
    records: Vec<Json>,
    /// Why no record can be written, if none can.
    lost: Option<String>,
}

impl Service {
    fn new(transfers: Vec<Transfer>) -> Self {
        Service {
            log: DecisionLog::new("jev", "session".to_owned()),
            transfers: transfers.into(),
            requests: vec![],
            records: vec![],
            lost: None,
        }
    }

    fn turn(&mut self, run: &Run, host: &mut Host) -> Turn {
        let view = run.skill_view().as_ref().unwrap();
        let task = Task { goal: run.goal().to_owned() };
        let (body, candidates) =
            request("test-model", &task, run.state(), view, run.previous()).unwrap();
        self.log.next_request();
        let mut inquiry = Inquiry::new(body, candidates);
        let mut guard = None;
        loop {
            match inquiry.want() {
                Want::Record(event) => {
                    if self.lost.is_none() {
                        self.records.push(self.log.record(1, &event));
                    }
                    inquiry.recorded(self.lost.clone());
                }
                Want::Send => {
                    self.requests.push(inquiry.request().dup());
                    guard = Some(host.handle.metrics().model_request());
                    inquiry.transferred(self.transfers.pop_front().unwrap());
                }
                Want::Nothing => break,
            }
        }
        if let Some(guard) = guard {
            if inquiry.is_answered() {
                guard.success(host.handle.metrics());
            } else {
                guard.failure(host.handle.metrics());
            }
        }
        match inquiry.conclude().unwrap() {
            Ok(decision) => Turn::Decide(decision),
            Err(error) => Turn::Fail(error),
        }
    }

    fn run(
        &mut self,
        goal: &str,
        env: &mut dyn Env,
        options: RunOptions,
        host: &mut Host,
    ) -> Result<Outcome, Error> {
        let task = Task::new(goal.to_owned()).unwrap();
        let run = Run::new(&task, options, host.now);
        host.drive(
            run,
            env,
            &mut |run, host| self.turn(run, host),
            &mut |_, _| {},
            &mut |_| panic!("unexpected pause"),
        )
    }
}

fn chosen(choice: &str, then: &str) -> Transfer {
    Transfer::Body(json(&format!(
        r#"{{"answers":{{"next_action":{{"type":"choice","choice":"{choice}"}},"continuation":{{"type":"choice","choice":"{then}"}}}}}}"#
    )))
}

/// An adapter that cannot be observed right after a call.
struct ObservationFailure {
    demo: DemoAdapter,
    fail_next: bool,
    calls: usize,
}

impl Env for ObservationFailure {
    fn observe(&mut self, now: u128) -> Result<AppState, AdapterError> {
        if self.fail_next {
            self.fail_next = false;
            return Err(AdapterError::Runtime("observation lost".to_owned()));
        }
        Ok(self.demo.observe(now))
    }
    fn context(&mut self, context: &SkillContext) -> Result<DecisionContext, AdapterError> {
        self.demo.decision_context(context, "")
    }
    fn execute(
        &mut self,
        call: &ToolCall,
        deadline: Option<u128>,
        host: &mut Host,
    ) -> Result<ActionReport, AdapterError> {
        self.calls += 1;
        let report = demo_execute(&mut self.demo, call, deadline, host)?;
        self.fail_next = true;
        Ok(report)
    }
}

#[test]
fn jev_receives_observation_failure_separately_from_confirmed_success() {
    let mut service = Service::new(vec![chosen("call_1", "finish"), chosen("resume_4", "decide")]);
    let mut env = ObservationFailure {
        demo: DemoAdapter::new(Scenario::Normal),
        fail_next: false,
        calls: 0,
    };
    let mut host = Host::new(&task());
    let outcome = service.run("switch mode", &mut env, limit(2), &mut host).unwrap();
    assert_eq!(outcome.status, Status::Completed);
    assert_eq!(outcome.summary.model_requests.total, 2);
    assert_eq!(outcome.summary.model_requests.succeeded, 2);
    assert_eq!(outcome.summary.actions.total, 1);
    assert_eq!(outcome.summary.actions.failed, 0);
    assert_eq!(outcome.summary.interruptions, 1);
    assert_eq!(env.calls, 1);
    let context = service.requests[1].get("state").unwrap();
    assert_eq!(at(context, &["latest_failure", "stage"]), "observation");
    assert_eq!(at(context, &["latest_failure", "call", "arguments"]), r#"{"mode":"training"}"#);
    assert_eq!(at(context, &["previous_tool_result", "success"]), "true");
    assert_eq!(at(context, &["previous_tool_result", "outcome", "status"]), "completed");
    assert_eq!(at(context, &["pending_execution", "completed"]), "1");
    assert!(at(context, &["adapter_guidance"]).contains("不能重做"));
    let logged: Vec<&Json> =
        service.records.iter().filter(|r| at(r, &["event"]) == "model_request").collect();
    assert!(logged[1].get("body").unwrap().same(&service.requests[1]));
}

#[test]
fn logs_exact_model_input_response_and_tool_selection_across_rounds() {
    let mut service =
        Service::new(vec![chosen("call_1", "decide"), chosen("completed", "decide")]);
    let mut host = Host::new(&task());
    let mut demo = DemoAdapter::new(Scenario::Normal);
    let outcome = service.run("切换到训练模式", &mut demo, limit(3), &mut host).unwrap();
    let (requests, logs) = (&service.requests, &service.records);
    assert_eq!(outcome.status, Status::Completed);
    assert_eq!(fact(&outcome.state, &["mode"]), "\"training\"");
    assert_eq!(logs.len(), 6);
    for (round, request) in requests.iter().enumerate() {
        let offset = round * 3;
        assert_eq!(at(&logs[offset], &["event"]), "model_request");
        assert!(logs[offset].get("body").unwrap().same(request));
        assert_eq!(at(&logs[offset + 1], &["event"]), "model_response");
        assert_eq!(at(&logs[offset + 2], &["event"]), "model_decision");
        for record in &logs[offset..offset + 3] {
            assert_eq!(at(record, &["request_id"]), (round + 1).to_string());
            assert_eq!(at(record, &["session_id"]), "session");
            assert_eq!(at(record, &["timestamp_ms"]), "1");
        }
    }
    assert_eq!(at(&requests[0], &["state", "task", "goal"]), "切换到训练模式");
    assert_eq!(at(&requests[1], &["state", "app_state", "facts", "mode"]), "training");
    assert_eq!(at(&requests[1], &["state", "previous_tool_result", "success"]), "true");
    assert_eq!(at(&logs[1], &["body", "answers", "next_action", "choice"]), "call_1");
    assert_eq!(
        at(&logs[2], &["decision", "Execute", "actions"]),
        r#"[{"Call":{"arguments":{"mode":"training"},"name":"set_mode"}}]"#
    );
    assert!(logs[5].get("decision").unwrap().get("Completed").is_some());
    let named = |list: &str, request: &Json| -> Vec<String> {
        match request.get("state").unwrap().get(list) {
            Some(Json::Array(items)) => items.iter().map(|s| at(s, &["name"])).collect(),
            _ => panic!("a list was expected"),
        }
    };
    let start = "start_training".to_owned();
    assert!(!named("available_skills", &requests[0]).contains(&start));
    assert!(named("skill_directory", &requests[0]).contains(&start));
    let unavailable = match requests[0].get("state").unwrap().get("skill_directory") {
        Some(Json::Array(items)) => items.iter().find(|s| at(s, &["name"]) == start).unwrap(),
        _ => panic!("a list was expected"),
    };
    assert_eq!(at(unavailable, &["tags"]), r#"["training","write"]"#);
    assert_eq!(at(unavailable, &["availability", "status"]), "unavailable");
    assert!(unavailable.get("parameters").is_none());
    assert!(unavailable.get("calls").is_none());
    let criteria = at(&requests[0], &["questions", "next_action", "criteria"]);
    assert!(!criteria.contains("\"name\":\"start_training\""));
    assert!(named("available_skills", &requests[1]).contains(&start));
}

fn answered(choice: &str) -> String {
    match chosen(choice, "decide") {
        Transfer::Body(body) => body.to_text(),
        _ => panic!("an answer was expected"),
    }
}

#[test]
fn logs_service_and_protocol_errors_without_authentication_data() {
    for (code, status, body) in [
        (401, "401 Unauthorized", "private service message".to_owned()),
        (200, "200 OK", "not json".to_owned()),
        (200, "200 OK", answered("unknown")),
    ] {
        let transfer = receive(code, status.to_owned(), Some(&body));
        let mut service = Service::new(vec![transfer]);
        let mut host = Host::new(&task());
        let mut demo = DemoAdapter::new(Scenario::Normal);
        let result = service.run("training", &mut demo, limit(1), &mut host);
        assert!(matches!(result, Err(Error::Model(_))));
        let logs = &service.records;
        assert_eq!(at(&logs[0], &["event"]), "model_request");
        assert_eq!(at(logs.last().unwrap(), &["event"]), "model_error");
        assert!(logs.iter().all(|log| at(log, &["event"]) != "model_decision"));
        assert!(logs.iter().all(|log| !log.to_text().contains("private service message")));
    }
}

#[test]
fn http_and_protocol_errors_are_counted_even_without_an_outcome() {
    for (code, status, body) in [
        (500, "500 Internal Server Error", "{}".to_owned()),
        (200, "200 OK", "invalid JSON".to_owned()),
        (200, "200 OK", answered("not_offered")),
    ] {
        let transfer = receive(code, status.to_owned(), Some(&body));
        let mut service = Service::new(vec![transfer]);
        let mut host = Host::new(&task());
        let mut demo = DemoAdapter::new(Scenario::Normal);
        assert!(service.run("training", &mut demo, RunOptions::default(), &mut host).is_err());
        assert_eq!(service.requests.len(), 1);
        let summary = host.handle.snapshot().summary.unwrap();
        assert_eq!(summary.model_requests, CallCounts { total: 1, succeeded: 0, failed: 1 });
        assert_eq!(summary.actions.total, 0);
    }
}

#[test]
fn replies_are_refused_by_status_and_read_as_json() {
    for (code, success) in [(199, false), (200, true), (299, true), (300, false), (404, false)] {
        match receive(code, code.to_string(), Some("[1]")) {
            Transfer::Body(body) => assert!(success && body.same(&json("[1]"))),
            Transfer::Refused(status) => assert!(!success && status == code.to_string()),
            _ => panic!("another transfer was expected"),
        }
    }
    assert!(matches!(receive(200, "200 OK".to_owned(), None), Transfer::Malformed));
    assert!(matches!(receive(200, "200 OK".to_owned(), Some("")), Transfer::Malformed));
}

#[test]
fn an_inquiry_fails_where_a_record_is_lost() {
    for lost_at in 0..3 {
        let mut inquiry = Inquiry::new(json("{}"), vec![]);
        let mut seen = vec![];
        loop {
            let lost = if seen.len() == lost_at { Some("disk full".to_owned()) } else { None };
            match inquiry.want() {
                Want::Record(event) => {
                    seen.push(match event {
                        LogEvent::Request(_) => "request",
                        LogEvent::Response(_) => "response",
                        LogEvent::Error(_) => "error",
                        _ => panic!("another record was expected"),
                    });
                    inquiry.recorded(lost);
                }
                Want::Send => {
                    inquiry.recorded(None);
                    inquiry.transferred(Transfer::Body(json("{}")));
                    inquiry.transferred(Transfer::Malformed);
                }
                Want::Nothing => break,
            }
        }
        let records: &[&str] =
            if lost_at == 0 { &["request", "error"] } else { &["request", "response", "error"] };
        assert_eq!(seen, records);
        assert!(!inquiry.is_answered());
        assert!(matches!(inquiry.conclude(), Some(Err(Error::Logging(_)))));
    }
}

#[test]
fn log_write_failure_is_reported_before_sending_request() {
    let mut service = Service::new(vec![]);
    service.lost = Some("disk full".to_owned());
    let mut host = Host::new(&task());
    let mut demo = DemoAdapter::new(Scenario::Normal);
    let result = service.run("training", &mut demo, RunOptions::default(), &mut host);
    assert!(matches!(result, Err(Error::Logging(_))));
    assert!(service.requests.is_empty());
    assert_eq!(host.handle.snapshot().summary.unwrap().model_requests.total, 0);
}
