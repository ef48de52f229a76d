#![allow(dead_code, unused_imports)]
use actweave::api::{
    Action, ActionOutcome, ActionReport, AdapterError, AppState, Availability, DecisionContext,
    ExecutionControl, ExecutionFailure, FailureStage, PauseState, RepeatRequest, SkillContext,
    ToolCall, ToolResult,
};
use actweave::batch::{BatchProgress, BatchStatus};
use actweave::copy::Dup;
use actweave::demo::{DemoAdapter, Execution};
use actweave::demo_runtime::Scenario;
use actweave::execution::{ExecutionProgress, ExecutionStatus};
use actweave::json::Json;
use actweave::kernel::{
    Continuation, Decision, Error, Event, Outcome, RunOptions, Signal, Status, Task,
};
use actweave::metrics::{CallCounts, CallKind};
use actweave::run::{DecisionReply, Request, Run};
use actweave::skills::{LoadSkills, SkillMode};
use actweave::task_runtime::{Boundary, TaskHandle, TaskStatus};
use std::collections::VecDeque;

const MS: u128 = 1_000_000;

fn json(text: &str) -> Json {
    Json::parse(text).unwrap()
}

fn fact(state: &AppState, path: &[&str]) -> String {
    let mut at = &state.facts;
    for key in path {
        at = at.get(key).unwrap();
    }
    at.to_text()
}

fn tool(name: &str, arguments: &str) -> ToolCall {
    ToolCall { name: name.to_owned(), arguments: json(arguments) }
}

fn call(name: &str, arguments: &str) -> Action {
    Action::Call(tool(name, arguments))
}

fn trial(times: u32) -> Action {
    Action::Repeat(RepeatRequest { call: tool("perform_trial", "{}"), times })
}

fn explore() -> Action {
    Action::UntilDone(tool("explore_step", "{}"))
}

fn execute(actions: Vec<Action>, then: Continuation) -> Decision {
    Decision::Execute { actions, then }
}

fn load(names: &[&str], tags: &[&str]) -> Decision {
    Decision::LoadSkills(LoadSkills {
        names: names.iter().map(|s| s.to_string()).collect(),
        tags: tags.iter().map(|s| s.to_string()).collect(),
    })
}

/// The application behind a run.
trait Env {
    fn observe(&mut self, now: u128) -> Result<AppState, AdapterError>;
    fn context(&mut self, context: &SkillContext) -> Result<DecisionContext, AdapterError>;
    fn execute(
        &mut self,
        call: &ToolCall,
        deadline: Option<u128>,
        host: &mut Host,
    ) -> Result<ActionReport, AdapterError>;
}

fn demo_execute(
    adapter: &mut DemoAdapter,
    call: &ToolCall,
    deadline: Option<u128>,
    host: &mut Host,
) -> Result<ActionReport, AdapterError> {
    let mut control = ExecutionControl { deadline, ..ExecutionControl::default() };
    if host.handle.is_cancelled() {
        control.cancellation.cancel();
    }
    match adapter.execute(call, &control, "", host.now)? {
        Execution::Report(report) => Ok(report),
        Execution::Trial => {
            let mut pause = PauseState::Running;
            let mut trial = adapter.begin_trial(&control, pause, host.now)?;
            loop {
                let report = adapter.step_trial(&mut trial, &control, &mut pause, host.now);
                if let Some(report) = report {
                    return report;
                }
            }
        }
    }
}

impl Env for DemoAdapter {
    fn observe(&mut self, now: u128) -> Result<AppState, AdapterError> {
        Ok(DemoAdapter::observe(self, now))
    }
    fn context(&mut self, context: &SkillContext) -> Result<DecisionContext, AdapterError> {
        self.decision_context(context, "")
    }
    fn execute(
        &mut self,
        call: &ToolCall,
        deadline: Option<u128>,
        host: &mut Host,
    ) -> Result<ActionReport, AdapterError> {
        demo_execute(self, call, deadline, host)
    }
}

/// What an agent does when it is asked.
enum Turn {
    Decide(Decision),
    Fail(Error),
    Cancel,
}

struct Host {
    now: u128,
    handle: TaskHandle,
}

impl Host {
    fn new(task: &Task) -> Self {
        Host { now: 1000 * MS, handle: TaskHandle::new("task-1".to_owned(), task) }
    }

    fn signal(&self) -> Signal {
        Signal { cancelled: self.handle.is_cancelled(), now: self.now }
    }

    /// Performs what the run asks for until it is done.
    fn drive(
        &mut self,
        run: Result<Run, Error>,
        env: &mut dyn Env,
        agent: &mut dyn FnMut(&Run, &mut Host) -> Turn,
        on_event: &mut dyn FnMut(Event, &mut Host),
        on_hold: &mut dyn FnMut(&mut Host),
    ) -> Result<Outcome, Error> {
        self.handle.start(self.now);
        let mut run = match run {
            Ok(run) => run,
            Err(error) => {
                let result = Err(error);
                self.handle.finish(&result, self.now);
                return result;
            }
        };
        loop {
            for event in run.take_events() {
                self.handle.event(&event);
                on_event(event, self);
            }
            match run.request() {
                Request::Checkpoint { deadline } => {
                    match self.handle.checkpoint(deadline, self.now) {
                        Ok(Boundary::Go) => run.checkpoint(Ok(())),
                        Ok(Boundary::Hold) => on_hold(self),
                        Err(error) => run.checkpoint(Err(error)),
                    }
                }
                Request::Signal => run.signal(self.signal()),
                Request::Observe => run.observed(env.observe(self.now)),
                Request::Context { step } => {
                    let reply = env.context(&SkillContext {
                        state: run.state(),
                        task_goal: run.goal(),
                        decision_step: step,
                        previous_result: run.previous().as_ref(),
                        failure: run.failure().as_ref(),
                        interruption: run.interruption().as_ref(),
                    });
                    run.context(reply);
                }
                Request::Decide { .. } => {
                    let reply = match agent(&run, self) {
                        Turn::Decide(decision) => DecisionReply::Decided(decision),
                        Turn::Fail(error) => DecisionReply::Failed(error),
                        Turn::Cancel => {
                            self.handle.cancel();
                            DecisionReply::Cancelled(self.signal())
                        }
                    };
                    run.decided(reply);
                }
                Request::CheckLog => run.logged(self.handle.check_log(), self.now),
                Request::Execute { call, deadline } => {
                    let guard = self.handle.metrics().begin(CallKind::Action);
                    let report = env.execute(&call, deadline, self);
                    guard.settle(&report, self.handle.metrics());
                    run.executed(report);
                }
                Request::Done => break,
            }
        }
        let result = self.handle.checked(run.conclude());
        self.handle.finish(&result, self.now);
        self.handle.summed(result, self.now)
    }
}

/// What an agent saw each time it was asked.
#[derive(Default)]
struct Script {
    decisions: VecDeque<Decision>,
    batches: Vec<Option<BatchProgress>>,
    progress: Vec<Option<ExecutionProgress>>,
    previous: Vec<Option<ToolResult>>,
    failures: Vec<Option<ExecutionFailure>>,
    guidance: Vec<String>,
    loaded: Vec<Vec<String>>,
}

impl Script {
    fn new(decisions: Vec<Decision>) -> Self {
        Script { decisions: decisions.into(), ..Script::default() }
    }

    fn decide(&mut self, run: &Run) -> Turn {
        let view = run.skill_view().as_ref().unwrap();
        assert!(view
            .directory
            .iter()
            .all(|summary| !view.loaded.iter().any(|s| s.name == summary.name)));
        self.batches.push(view.batch.dup());
        self.progress.push(view.execution.dup());
        self.previous.push(run.previous().dup());
        self.failures.push(view.failure.dup());
        self.guidance.push(view.guidance.dup());
        self.loaded.push(view.loaded.iter().map(|s| s.name.dup()).collect());
        match self.decisions.pop_front() {
            Some(decision) => Turn::Decide(decision),
            None => Turn::Fail(Error::Model("script exhausted".to_owned())),
        }
    }
}

fn task() -> Task {
    Task::new("generic task".to_owned()).unwrap()
}

fn run_with(
    script: &mut Script,
    env: &mut dyn Env,
    options: RunOptions,
    on_event: &mut dyn FnMut(Event, &mut Host),
) -> Outcome {
    let task = task();
    let mut host = Host::new(&task);
    let run = Run::new(&task, options, host.now);
    host.drive(
        run,
        env,
        &mut |run, _| script.decide(run),
        on_event,
        &mut |_| panic!("unexpected pause"),
    )
    .unwrap()
}

fn run(script: &mut Script, env: &mut dyn Env, max_decisions: usize) -> Outcome {
    let options = RunOptions { max_decisions, ..RunOptions::default() };
    run_with(script, env, options, &mut |_, _| {})
}

use actweave::api::Skill;
use actweave::jev::{decode, evaluate, judge, options, request, JevAgent, Transfer};

fn executes(action: Action) -> Decision {
    execute(vec![action], Continuation::Decide)
}

/// A JSON text with one of its answers set.
fn answers(pairs: &[(&str, &str)]) -> Json {
    let mut all = Json::object();
    for (name, choice) in pairs {
        let mut answer = Json::object();
        answer.set("type", Json::text("choice"));
        answer.set("choice", Json::text(choice));
        all.set(name, answer);
    }
    let mut body = Json::object();
    body.set("answers", all);
    body
}

#[test]
fn malformed_sequences_are_rejected_before_any_execution() {
    let candidates = vec![executes(call("get_state", "{}")), load(&["get_state"], &[])];
    for choices in [
        ["end", "end", "end"],
        ["call_0", "end", "end"],
        ["call_0", "end", "call_0"],
        ["call_0", "load_1", "end"],
        ["call_0", "call_999", "end"],
    ] {
        let body = answers(&[
            ("next_action", "sequence"),
            ("continuation", "finish"),
            ("sequence_action_1", choices[0]),
            ("sequence_action_2", choices[1]),
            ("sequence_action_3", choices[2]),
        ]);
        assert!(decode(&body, &candidates, 3).is_err());
    }
    assert!(decode(&answers(&[("next_action", "sequence")]), &candidates, 3).is_err());
}

#[test]
fn execution_requires_valid_continuation_in_same_response() {
    let candidates = vec![executes(call("get_state", "{}"))];
    for value in [
        "null",
        r#"{"type":"choice","choice":"unknown"}"#,
        r#"{"type":"text","choice":"finish"}"#,
    ] {
        let body = json(&format!(
            r#"{{"answers":{{"next_action":{{"type":"choice","choice":"call_0"}},"continuation":{value}}}}}"#
        ));
        assert!(decode(&body, &candidates, 4).is_err());
    }
}

#[test]
fn choice_reports_unsupported_schema_only_skill_instead_of_hiding_it() {
    let skill = Skill {
        name: "say".to_owned(),
        repeatable: false,
        loopable: false,
        description: "say text".to_owned(),
        tags: vec![],
        availability: Availability::Available,
        parameters: json(r#"{"type":"object"}"#),
        calls: vec![],
    };
    let error = options(&vec![skill]).unwrap_err().message();
    assert!(error.contains("requires call candidates for skill 'say'"));
}

#[test]
fn repeat_requires_a_bounded_integer_answer_in_same_response() {
    let candidates = vec![executes(Action::Repeat(RepeatRequest {
        call: tool("trial", "{}"),
        times: 100,
    }))];
    for count in ["null", "\"0\"", "\"101\"", "\"ten\"", "\"1.5\""] {
        let body = json(&format!(
            r#"{{"answers":{{"next_action":{{"type":"choice","choice":"repeat_0"}},"repeat_count":{{"type":"choice","choice":{count}}},"continuation":{{"type":"choice","choice":"finish"}}}}}}"#
        ));
        assert!(decode(&body, &candidates, 4).is_err());
    }
}

#[test]
fn rejects_unknown_or_malformed_choices() {
    for body in [
        "{}",
        r#"{"answers":{"next_action":{"type":"choice","choice":"call_999"}}}"#,
        r#"{"answers":{"next_action":{"type":"noul","choice":"completed"}}}"#,
    ] {
        assert!(decode(&json(body), &vec![], 4).is_err());
    }
}

#[test]
fn maps_choice_to_exact_adapter_arguments() {
    let result = decode(
        &answers(&[("next_action", "call_0"), ("continuation", "decide")]),
        &vec![executes(call("talk", r#"{"target":"npc"}"#))],
        4,
    )
    .unwrap();
    match result {
        Decision::Execute { actions, then: Continuation::Decide } => match actions.as_slice() {
            [Action::Call(c)] => {
                assert_eq!(c.name, "talk");
                assert_eq!(c.arguments.to_text(), r#"{"target":"npc"}"#);
            }
            _ => panic!("one call was chosen"),
        },
        _ => panic!("a call was chosen"),
    }
}

/// A model that answers from a list; what it was asked is kept.
struct Model {
    replies: VecDeque<Json>,
    requests: Vec<Json>,
}

impl Model {
    fn new(replies: Vec<Json>) -> Self {
        Model { replies: replies.into(), requests: vec![] }
    }

    fn turn(&mut self, run: &Run, host: &mut Host) -> Turn {
        let view = run.skill_view().as_ref().unwrap();
        let task = Task { goal: run.goal().to_owned() };
        let asked = request("test-model", &task, run.state(), view, run.previous());
        let (body, candidates) = match asked {
            Ok(asked) => asked,
            Err(error) => return Turn::Fail(error),
        };
        self.requests.push(body.dup());
        let guard = host.handle.metrics().model_request();
        let transfer = Transfer::Body(self.replies.pop_front().unwrap());
        match evaluate(&body, &transfer, &candidates) {
            Ok(decision) => {
                guard.success(host.handle.metrics());
                Turn::Decide(decision)
            }
            Err(error) => {
                guard.failure(host.handle.metrics());
                Turn::Fail(error)
            }
        }
    }

    fn run(
        &mut self,
        goal: &str,
        env: &mut dyn Env,
        options: RunOptions,
    ) -> Result<Outcome, Error> {
        let task = Task::new(goal.to_owned()).unwrap();
        let mut host = Host::new(&task);
        let started = Run::new(&task, options, host.now);
        host.drive(
            started,
            env,
            &mut |run, host| self.turn(run, host),
            &mut |_, _| {},
            &mut |_| panic!("unexpected pause"),
        )
    }
}

fn limit(max_decisions: usize) -> RunOptions {
    RunOptions { max_decisions, ..RunOptions::default() }
}

fn response(choice: &str, then: &str) -> Json {
    answers(&[("next_action", choice), ("continuation", then)])
}

fn sequence(actions: &[&str]) -> Json {
    let slot = |i: usize| actions.get(i).copied().unwrap_or("end");
    answers(&[
        ("next_action", "sequence"),
        ("continuation", "finish"),
        ("sequence_action_1", slot(0)),
        ("sequence_action_2", slot(1)),
        ("sequence_action_3", slot(2)),
        ("sequence_action_4", slot(3)),
        ("sequence_count_2", "10"),
    ])
}

fn replacement(actions: &[&str]) -> Json {
    let slot = |i: usize| actions.get(i).copied().unwrap_or("end");
    answers(&[
        ("next_action", "replace_remaining"),
        ("replacement_continuation", "finish"),
        ("replacement_action_1", slot(0)),
        ("replacement_action_2", slot(1)),
        ("replacement_action_3", slot(2)),
        ("replacement_action_4", slot(3)),
    ])
}

fn repeat(times: &str, then: &str) -> Json {
    answers(&[("next_action", "repeat_4"), ("repeat_count", times), ("continuation", then)])
}

fn find<'a>(json: &'a Json, path: &[&str]) -> Option<&'a Json> {
    let mut at = json;
    for key in path {
        at = at.get(key)?;
    }
    Some(at)
}

fn text(json: &Json, path: &[&str]) -> String {
    match find(json, path) {
        Some(value) => match value.as_text() {
            Some(text) => text.to_owned(),
            None => value.to_text(),
        },
        None => "nothing".to_owned(),
    }
}

fn items(json: &Json) -> &Vec<Json> {
    match json {
        Json::Array(items) => items,
        _ => panic!("no array"),
    }
}

fn members(json: &Json) -> &Vec<(String, Json)> {
    match json {
        Json::Object(members) => members,
        _ => panic!("no object"),
    }
}

#[test]
fn jev_until_done_completes_unknown_work_with_one_http_request() {
    let mut model = Model::new(vec![response("until_done_5", "finish")]);
    let outcome = model
        .run("探索全部物品", &mut DemoAdapter::new(Scenario::Exploration), limit(1))
        .unwrap();
    assert_eq!(outcome.status, Status::Completed);
    assert_eq!(outcome.batch.unwrap().attempts, 4);
    assert_eq!(model.requests.len(), 1);
    let asked = &model.requests[0];
    let path = ["questions", "next_action", "criteria", "until_done_5", "until_done", "name"];
    assert_eq!(text(asked, &path), "explore_step");
    let path = ["state", "app_state", "facts", "exploration", "collected"];
    assert_eq!(text(asked, &path), "0");
}

#[test]
fn jev_until_done_sequence_runs_tail_without_an_extra_request() {
    let mut model = Model::new(vec![sequence(&["call_1", "until_done_5", "call_2"])]);
    let outcome = model
        .run("准备、探索并观察", &mut DemoAdapter::new(Scenario::Exploration), limit(1))
        .unwrap();
    assert_eq!(outcome.status, Status::Completed);
    assert_eq!(outcome.execution.unwrap().completed, 3);
    assert_eq!(fact(&outcome.state, &["exploration", "finished"]), "true");
    assert_eq!(model.requests.len(), 1);
}

#[test]
fn jev_loop_exception_exposes_progress_and_supports_replacement_after_repair() {
    let mut model = Model::new(vec![
        response("until_done_5", "finish"),
        response("call_4", "decide"),
        replacement(&["until_done_12", "call_7"]),
    ]);
    let outcome = model
        .run(
            "探索全部物品并观察",
            &mut DemoAdapter::new(Scenario::ExplorationInterrupted),
            limit(3),
        )
        .unwrap();
    assert_eq!(outcome.status, Status::Completed);
    assert_eq!(fact(&outcome.state, &["exploration", "collected"]), "3");
    assert_eq!(outcome.execution.unwrap().completed, 2);
    let asked = &model.requests;
    assert_eq!(asked.len(), 3);
    assert_eq!(text(&asked[1], &["state", "pending_batch", "completed"]), "1");
    let guidance = |i: usize| text(&asked[i], &["state", "adapter_guidance"]);
    assert!(guidance(0).contains("数量未知"));
    assert!(guidance(1).contains("reset_exploration"));
    assert!(guidance(2).contains("继续原先中断"));
    assert!(!guidance(2).contains("reset_exploration"));
    assert_eq!(text(&asked[1], &["state", "latest_failure", "stage"]), "execution");
    assert!(find(&asked[2], &["state", "latest_failure"]).is_none());
    assert_eq!(text(&asked[2], &["state", "previous_tool_result", "success"]), "true");
    let path = ["state", "pending_execution", "failure", "call", "name"];
    assert_eq!(text(&asked[2], &path), "explore_step");
    let path = ["state", "previous_tool_result", "outcome", "status"];
    assert_eq!(text(&asked[1], &path), "interrupted");
    assert_eq!(text(&asked[1], &["state", "pending_batch", "remaining"]), "null");
    assert_eq!(text(&asked[2], &["state", "pending_batch", "attempts"]), "2");
    let path = ["state", "replacement_actions", "until_done_12", "until_done", "name"];
    assert_eq!(text(&asked[2], &path), "explore_step");
}

#[test]
fn sequence_selects_repeat_count_in_same_http_request() {
    let mut model = Model::new(vec![sequence(&["call_1", "repeat_4", "call_2"])]);
    let outcome = model
        .run(
            "prepare, ten trials, inspect",
            &mut DemoAdapter::new(Scenario::Normal),
            limit(1),
        )
        .unwrap();
    assert_eq!(outcome.status, Status::Completed);
    assert_eq!(fact(&outcome.state, &["trial", "completed"]), "10");
    assert_eq!(outcome.execution.unwrap().completed, 3);
    assert_eq!(model.requests.len(), 1);
    assert!(find(&model.requests[0], &["questions", "sequence_count_2"]).is_some());
}

#[test]
fn max_actions_one_omits_sequence_questions_and_future_candidates() {
    let mut model = Model::new(vec![response("call_1", "finish")]);
    let options = RunOptions { max_actions: 1, ..RunOptions::default() };
    let outcome = model
        .run("training mode", &mut DemoAdapter::new(Scenario::Normal), options)
        .unwrap();
    assert_eq!(outcome.status, Status::Completed);
    let asked = &model.requests[0];
    assert!(find(asked, &["questions", "sequence_action_1"]).is_none());
    assert!(find(asked, &["questions", "next_action", "criteria", "sequence"]).is_none());
    assert!(find(asked, &["state", "future_actions"]).is_none());
}

#[test]
fn one_http_request_selects_three_ordered_skills_with_future_prerequisites() {
    let mut model = Model::new(vec![sequence(&["call_1", "call_5", "call_3"])]);
    let outcome = model
        .run(
            "切换模式、启动训练并读取状态",
            &mut DemoAdapter::new(Scenario::Normal),
            limit(1),
        )
        .unwrap();
    assert_eq!(outcome.status, Status::Completed);
    assert_eq!(outcome.execution.unwrap().completed, 3);
    assert_eq!(fact(&outcome.state, &["mode"]), "\"training\"");
    let asked = &model.requests[0];
    assert!(find(asked, &["questions", "sequence_action_1", "criteria", "call_5"]).is_none());
    let slot = find(asked, &["questions", "sequence_action_2", "criteria", "call_5"]).unwrap();
    assert_eq!(slot.to_text(), "null");
    let path = ["state", "future_actions", "call_5", "action", "tool_call", "name"];
    assert_eq!(text(asked, &path), "start_training");
}

#[test]
fn exception_replacement_is_selected_in_one_request_and_keeps_completed_prefix() {
    let mut model = Model::new(vec![
        sequence(&["call_1", "call_5", "call_3"]),
        replacement(&["call_7"]),
    ]);
    let outcome = model
        .run(
            "inspect after interruption",
            &mut DemoAdapter::new(Scenario::TransientFailure),
            limit(2),
        )
        .unwrap();
    assert_eq!(outcome.status, Status::Completed);
    assert_eq!(outcome.execution.unwrap().completed, 2);
    assert_eq!(model.requests.len(), 2);
    assert!(find(&model.requests[0], &["questions", "replacement_action_1"]).is_none());
    let path = ["state", "replacement_actions", "call_7", "tool_call", "name"];
    assert_eq!(text(&model.requests[1], &path), "get_state");
}

#[test]
fn sequence_exception_returns_cursor_and_resumes_without_replaying_prefix() {
    let mut model = Model::new(vec![
        sequence(&["call_1", "call_5", "call_3"]),
        response("resume_4", "decide"),
    ]);
    let outcome = model
        .run("启动训练并读取状态", &mut DemoAdapter::new(Scenario::TransientFailure), limit(2))
        .unwrap();
    assert_eq!(outcome.status, Status::Completed);
    assert_eq!(outcome.summary.actions.total, 4);
    assert_eq!(model.requests.len(), 2);
    let asked = &model.requests[1];
    assert_eq!(text(asked, &["state", "pending_execution", "completed"]), "1");
    assert!(find(asked, &["questions", "sequence_action_1"]).is_none());
}

#[test]
fn sequence_rejects_future_only_action_in_first_slot_without_effects() {
    let mut model = Model::new(vec![sequence(&["call_5", "call_1"])]);
    let mut adapter = DemoAdapter::new(Scenario::Normal);
    let result = model.run("invalid sequence", &mut adapter, limit(1));
    assert!(matches!(result, Err(Error::Model(_))));
    assert_eq!(fact(&adapter.observe(0), &["mode"]), "\"idle\"");
}

#[test]
fn single_action_finish_uses_one_http_request_and_no_confirmation() {
    let mut model = Model::new(vec![response("call_1", "finish")]);
    let outcome = model
        .run("training mode", &mut DemoAdapter::new(Scenario::Normal), limit(1))
        .unwrap();
    assert_eq!(outcome.status, Status::Completed);
    assert_eq!(fact(&outcome.state, &["mode"]), "\"training\"");
    assert_eq!(model.requests.len(), 1);
    let path = ["questions", "continuation", "criteria", "finish"];
    assert!(find(&model.requests[0], &path).is_some());
}

#[test]
fn repeat_decide_returns_for_next_action_instead_of_finishing_task() {
    let mut model = Model::new(vec![repeat("2", "decide"), response("call_1", "finish")]);
    let outcome = model
        .run(
            "two trials then training mode",
            &mut DemoAdapter::new(Scenario::Normal),
            limit(2),
        )
        .unwrap();
    assert_eq!(outcome.status, Status::Completed);
    assert_eq!(fact(&outcome.state, &["mode"]), "\"training\"");
    assert_eq!(fact(&outcome.state, &["trial", "completed"]), "2");
    assert_eq!(model.requests.len(), 2);
    assert!(find(&model.requests[1], &["state", "pending_batch"]).is_none());
}

#[test]
fn requests_show_the_task_its_state_and_what_can_be_done() {
    let mut model =
        Model::new(vec![response("call_1", "decide"), response("completed", "decide")]);
    let outcome = model
        .run("切换到训练模式", &mut DemoAdapter::new(Scenario::Normal), limit(3))
        .unwrap();
    assert_eq!(outcome.status, Status::Completed);
    let asked = &model.requests;
    assert_eq!(text(&asked[0], &["model"]), "test-model");
    assert_eq!(text(&asked[0], &["state", "task", "goal"]), "切换到训练模式");
    assert_eq!(text(&asked[1], &["state", "app_state", "facts", "mode"]), "training");
    assert_eq!(text(&asked[1], &["state", "previous_tool_result", "success"]), "true");
    let names = |json: &Json| -> Vec<String> {
        items(json).iter().map(|s| text(s, &["name"])).collect()
    };
    let first = names(find(&asked[0], &["state", "available_skills"]).unwrap());
    assert!(!first.contains(&"start_training".to_owned()));
    let directory = find(&asked[0], &["state", "skill_directory"]).unwrap();
    let unavailable =
        items(directory).iter().find(|s| text(s, &["name"]) == "start_training").unwrap();
    assert_eq!(text(unavailable, &["tags"]), "[\"training\",\"write\"]");
    assert_eq!(text(unavailable, &["availability", "status"]), "unavailable");
    assert!(unavailable.get("parameters").is_none());
    assert!(unavailable.get("calls").is_none());
    let offered = find(&asked[0], &["questions", "next_action", "criteria"]).unwrap();
    assert!(members(offered)
        .iter()
        .all(|(_, option)| text(option, &["tool_call", "name"]) != "start_training"));
    let second = names(find(&asked[1], &["state", "available_skills"]).unwrap());
    assert!(second.contains(&"start_training".to_owned()));
}

#[test]
fn discovery_requests_omit_unloaded_definitions_and_duplicate_candidates() {
    let mut model = Model::new(vec![
        response("load_0", "decide"),
        response("call_1", "decide"),
        response("completed", "decide"),
    ]);
    let options = RunOptions {
        max_decisions: 4,
        skill_mode: SkillMode::OnDemand,
        ..RunOptions::default()
    };
    let outcome = model
        .run("training mode", &mut DemoAdapter::new(Scenario::Normal), options)
        .unwrap();
    assert_eq!(outcome.status, Status::Completed);
    let asked = &model.requests;
    assert_eq!(text(&asked[0], &["state", "available_skills"]), "[]");
    assert_eq!(items(find(&asked[0], &["state", "skill_directory"]).unwrap()).len(), 6);
    let criteria = members(find(&asked[0], &["questions", "next_action", "criteria"]).unwrap());
    assert!(criteria.iter().any(|(_, v)| v.get("load_tag").is_some()));
    assert!(criteria.iter().all(|(_, v)| v.get("tool_call").is_none()));
    let loaded = items(find(&asked[1], &["state", "available_skills"]).unwrap());
    assert_eq!(loaded.len(), 1);
    assert_eq!(text(&loaded[0], &["name"]), "set_mode");
    assert_eq!(text(&asked[1], &["state", "last_load", "selected"]), "[\"set_mode\"]");
    assert!(find(&asked[1], &["state", "previous_tool_result"]).is_none());
    for request in asked {
        for field in ["available_skills", "skill_directory"] {
            if let Some(skills) = find(request, &["state", field]) {
                assert!(items(skills)
                    .iter()
                    .all(|s| s.get("calls").is_none() && s.get("parameters").is_none()));
            }
        }
        let options = find(request, &["questions", "next_action", "criteria"]).unwrap();
        assert!(members(options).iter().all(|(_, option)| option.get("description").is_none()));
    }
    let path = ["state", "previous_tool_result", "call", "name"];
    assert_eq!(text(&asked[2], &path), "set_mode");
}

#[test]
fn one_http_request_drives_ten_completed_actions_without_final_model_confirmation() {
    let mut model = Model::new(vec![repeat("10", "finish")]);
    let outcome = model
        .run("完成10次试验动作", &mut DemoAdapter::new(Scenario::Normal), limit(1))
        .unwrap();
    assert_eq!(model.requests.len(), 1);
    let asked = &model.requests[0];
    for question in ["next_action", "repeat_count", "continuation"] {
        assert!(find(asked, &["questions", question]).is_some());
    }
    let offered = find(asked, &["questions", "next_action", "criteria"]).unwrap();
    assert!(members(offered)
        .iter()
        .all(|(_, v)| text(v, &["tool_call", "name"]) != "perform_trial"));
    assert_eq!(outcome.status, Status::Completed);
    assert_eq!(outcome.batch.unwrap().completed, 10);
    assert_eq!(fact(&outcome.state, &["trial", "completed"]), "10");
    assert_eq!(outcome.summary.model_requests.total, 1);
    assert_eq!(outcome.summary.model_requests.succeeded, 1);
    assert_eq!(outcome.summary.actions.total, 10);
    assert_eq!(outcome.summary.actions.succeeded, 10);
}

#[test]
fn model_only_returns_for_exception_and_resumption_preserves_count() {
    let mut model = Model::new(vec![
        repeat("10", "finish"),
        response("call_4", "decide"),
        response("resume_4", "decide"),
    ]);
    let outcome = model
        .run("完成10次试验动作", &mut DemoAdapter::new(Scenario::BatchInterrupted), limit(3))
        .unwrap();
    let asked = &model.requests;
    assert_eq!(asked.len(), 3);
    assert_eq!(text(&asked[1], &["state", "pending_batch", "completed"]), "3");
    assert_eq!(text(&asked[1], &["state", "pending_batch", "remaining"]), "7");
    assert_eq!(text(&asked[1], &["state", "pending_batch", "then"]), "Finish");
    let path = ["questions", "continuation", "criteria", "finish"];
    assert!(find(&asked[1], &path).is_none());
    assert_eq!(text(&asked[2], &["state", "pending_batch", "completed"]), "3");
    assert!(find(&asked[1], &["questions", "repeat_count"]).is_none());
    assert_eq!(outcome.batch.unwrap().completed, 10);
    assert_eq!(fact(&outcome.state, &["trial", "completed"]), "10");
}

#[test]
fn http_and_protocol_errors_have_their_messages() {
    let request = json(r#"{"questions":{"next_action":{"criteria":{"completed":"done"}}}}"#);
    let message =
        |transfer: Transfer| evaluate(&request, &transfer, &vec![]).unwrap_err().message();
    assert!(message(Transfer::Unbuilt).contains("cannot build model request"));
    assert!(message(Transfer::Unanswered).contains("request failed or timed out"));
    assert!(message(Transfer::Refused("500".to_owned())).contains("HTTP 500"));
    assert!(message(Transfer::Malformed).contains("invalid JSON response"));
    let wild = answers(&[("next_action", "failed")]);
    assert!(message(Transfer::Body(wild)).contains("action was not offered"));
    let fine = answers(&[("next_action", "completed")]);
    assert!(matches!(judge(&request, &fine, &vec![]), Ok(Decision::Completed(_))));
}

#[test]
fn clients_need_a_key_a_model_and_a_safe_endpoint() {
    let client = |key: &str, endpoint: &str, model: &str| {
        JevAgent::new(key.to_owned(), endpoint.to_owned(), model.to_owned())
    };
    let remote = client("k", "https://example.com/v1", "m");
    match remote {
        Ok(agent) => {
            assert!(!agent.is_local());
            assert_eq!(agent.endpoint(), "https://example.com/v1");
            assert_eq!((agent.key(), agent.model()), ("k", "m"));
        }
        Err(_) => panic!("an endpoint over HTTPS is safe"),
    }
    for endpoint in ["http://localhost:1/x", "http://127.0.0.1/", "http://[::1]:8/"] {
        match client("k", endpoint, "m") {
            Ok(agent) => assert!(agent.is_local()),
            Err(_) => panic!("this machine is safe"),
        }
    }
    for (key, endpoint, model, flaw) in [
        ("k", "http://example.com", "m", "must use HTTPS"),
        ("k", "ftp://localhost", "m", "must use HTTPS"),
        ("k", "not a url", "m", "invalid endpoint URL"),
        (" ", "https://example.com", "m", "missing JEVKEY or model"),
        ("k", "https://example.com", "", "missing JEVKEY or model"),
    ] {
        match client(key, endpoint, model) {
            Ok(_) => panic!("{flaw}"),
            Err(error) => assert!(error.message().contains(flaw)),
        }
    }
}
