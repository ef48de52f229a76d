use actweave::api::{
    ActionOutcome, ActionReport, AdapterError, AppState, CancellationToken, ExecutionControl,
    FailureStage, PauseState, SkillContext, ToolCall,
};
use actweave::automation::Error as FlowError;
use actweave::cli::{
    check_provider, choose_feature, choose_log_directory, choose_setting, choose_sink,
    find_exit_code, limits, Sink,
};
use actweave::clock::CLOCK_END;
use actweave::debug::Runtime;
use actweave::demo::{register, DemoAdapter, Execution};
use actweave::demo_runtime::Scenario;
use actweave::diagnostics::{DecisionLog, LogEvent};
use actweave::failure_guard::FailureGuard;
use actweave::json::Json;
use actweave::kernel::{Continuation, Decision, Error, Event, Task};
use actweave::manual::{prompt, ManualAgent, Typed};
use actweave::report::{find_seconds, write_opening, write_summary_lines, Reporter};
use actweave::sdk::{Host, Registry};
use actweave::skills::{view, LoadSkills, SkillMode};
use actweave::task_runtime::{TaskHandle, TaskStatus};
use actweave::text;
use actweave::trial::{definition, flow_error, TrialDevice};
use actweave::wire::{decision_to_json, execution_entry, lifecycle_entry};

fn json(text: &str) -> Json {
    Json::parse(text).unwrap()
}

fn tool(name: &str, arguments: &str) -> ToolCall {
    ToolCall { name: name.to_owned(), arguments: json(arguments) }
}

fn make_trial(
    adapter: &mut DemoAdapter,
    control: &ExecutionControl,
    now: u128,
) -> Result<ActionReport, AdapterError> {
    let mut pause = PauseState::Running;
    let mut trial = adapter.begin_trial(control, pause, now)?;
    loop {
        if let Some(report) = adapter.step_trial(&mut trial, control, &mut pause, now) {
            assert_eq!(pause, PauseState::Running);
            return report;
        }
    }
}

fn invoke(
    runtime: &mut Runtime,
    adapter: &mut DemoAdapter,
    call: &ToolCall,
    control: &ExecutionControl,
) -> Result<ActionReport, AdapterError> {
    let state = adapter.observe(0);
    let context = adapter.decision_context(&runtime.context(&state), "")?;
    runtime.accept(&context.skills, call, control, 0)?;
    let report = match adapter.execute(call, control, "", 0) {
        Ok(Execution::Report(report)) => Ok(report),
        Ok(Execution::Trial) => make_trial(adapter, control, 0),
        Err(error) => Err(error),
    };
    runtime.record(call, &report);
    report
}

#[test]
fn registered_instances_are_isolated_and_debug_host_logs_calls() {
    let mut registry = Registry::new();
    register(&mut registry).unwrap();
    assert!(register(&mut registry).is_err());
    assert!(registry.create("missing").is_err());
    assert_eq!(registry.names(), vec!["demo"]);
    let mut first = Runtime::new(&registry, "demo", "trial".to_owned(), Host::new()).unwrap();
    let mut adapter = DemoAdapter::load(Scenario::Normal, &mut first.host);
    let other = DemoAdapter::new(Scenario::Normal);
    let call = tool("perform_trial", "{}");
    invoke(&mut first, &mut adapter, &call, &ExecutionControl::default()).unwrap();
    assert_eq!(adapter.runtime.trial_snapshot(), (1, 1, true, false));
    assert_eq!(other.runtime.trial_snapshot(), (0, 0, true, false));
    assert_eq!(
        first.host.messages,
        vec![
            "Demo Adapter 已加载",
            "步骤 1：调用 perform_trial，参数 {}",
            "正常返回：试验动作完成，获得结果。",
        ]
    );
    let mut control = ExecutionControl::default();
    control.cancellation.cancel();
    assert!(matches!(
        invoke(&mut first, &mut adapter, &call, &control),
        Err(AdapterError::Cancelled)
    ));
    assert_eq!(adapter.runtime.trial_completed, 1);
    assert_eq!(first.step, 1);
}

#[test]
fn debug_host_rejects_unavailable_skills_before_effects() {
    let mut registry = Registry::new();
    register(&mut registry).unwrap();
    assert!(Runtime::new(&registry, "x", String::new(), Host::new()).is_err());
    let mut runtime =
        Runtime::new(&registry, "demo", "train".to_owned(), Host::new()).unwrap();
    let mut adapter = DemoAdapter::new(Scenario::Normal);
    let control = ExecutionControl::default();
    let refused = invoke(&mut runtime, &mut adapter, &tool("start_training", "{}"), &control);
    assert!(refused.unwrap_err().message().contains("skill unavailable: start_training"));
    let unknown = invoke(&mut runtime, &mut adapter, &tool("fly", "{}"), &control);
    assert!(unknown.unwrap_err().message().contains("unknown skill: fly"));
    assert!(runtime.host.messages.is_empty());
    assert!(adapter.runtime.started_at.is_none());
    let failed =
        invoke(&mut runtime, &mut adapter, &tool("set_mode", r#"{"mode":"up"}"#), &control);
    assert!(failed.is_err());
    let failure = runtime.failure.as_ref().unwrap();
    assert_eq!(failure.stage, FailureStage::Execution);
    assert!(!runtime.previous.as_ref().unwrap().success);
}

#[test]
fn trials_make_one_trial_each() {
    let mut adapter = DemoAdapter::new(Scenario::BatchInterrupted);
    let control = ExecutionControl::default();
    for successful in [true, true, false] {
        let report = make_trial(&mut adapter, &control, 0).unwrap();
        assert_eq!(report.outcome, ActionOutcome::Completed { successful });
    }
    let broken = make_trial(&mut adapter, &control, 0).unwrap_err();
    assert!(broken.message().contains("reset_trial"));
    assert_eq!(adapter.runtime.trial_snapshot(), (3, 2, false, true));
    assert!(make_trial(&mut adapter, &control, 0).unwrap_err().message().contains("reset_trial"));
    adapter.runtime.reset_trial();
    assert!(make_trial(&mut adapter, &control, 0).is_ok());
    let late = ExecutionControl { deadline: Some(5), ..ExecutionControl::default() };
    assert!(matches!(make_trial(&mut adapter, &late, 5), Err(AdapterError::TimedOut)));
    assert_eq!(adapter.runtime.trial_completed, 4);
    let mut blocked = DemoAdapter::new(Scenario::BatchBlocked);
    assert!(make_trial(&mut blocked, &control, 0).unwrap_err().message().contains("永久不可用"));
}

#[test]
fn a_paused_trial_holds_until_it_is_resumed() {
    let mut adapter = DemoAdapter::new(Scenario::Normal);
    let control = ExecutionControl::default();
    let mut pause = PauseState::Requested;
    let mut trial = adapter.begin_trial(&control, pause, 0).unwrap();
    for now in 0..50 {
        assert!(adapter.step_trial(&mut trial, &control, &mut pause, now).is_none());
    }
    assert_eq!(pause, PauseState::Acknowledged);
    assert_eq!(adapter.runtime.trial_completed, 0);
    pause.resume();
    let mut now: u128 = 5_000_000_000;
    let report = loop {
        if let Some(report) = adapter.step_trial(&mut trial, &control, &mut pause, now) {
            break report;
        }
        now += 1;
    };
    assert_eq!(report.unwrap().outcome, ActionOutcome::Completed { successful: true });
    assert_eq!(pause, PauseState::Running);
    assert_eq!(adapter.runtime.trial_completed, 1);
    let again = adapter.step_trial(&mut trial, &control, &mut pause, now);
    assert!(again.unwrap().is_ok());
    assert_eq!(adapter.runtime.trial_completed, 1);
}

#[test]
fn a_trial_that_is_cancelled_while_it_holds_is_not_made() {
    let mut adapter = DemoAdapter::new(Scenario::Normal);
    let mut control = ExecutionControl::default();
    let mut pause = PauseState::Requested;
    let mut trial = adapter.begin_trial(&control, pause, 0).unwrap();
    while pause != PauseState::Acknowledged {
        assert!(adapter.step_trial(&mut trial, &control, &mut pause, 0).is_none());
    }
    control.cancellation.cancel();
    let report = loop {
        if let Some(report) = adapter.step_trial(&mut trial, &control, &mut pause, 0) {
            break report;
        }
    };
    assert!(matches!(report, Err(AdapterError::Cancelled)));
    assert_eq!(adapter.runtime.trial_completed, 0);
    assert_eq!(adapter.runtime.trial_snapshot(), (0, 0, true, false));
}

#[test]
fn a_pause_after_the_click_repeats_no_trial() {
    let mut adapter = DemoAdapter::new(Scenario::Normal);
    let control = ExecutionControl::default();
    let mut pause = PauseState::Running;
    let mut trial = adapter.begin_trial(&control, pause, 0).unwrap();
    while adapter.runtime.trial_completed == 0 {
        assert!(adapter.step_trial(&mut trial, &control, &mut pause, 0).is_none());
    }
    pause.request();
    for _ in 0..20 {
        assert!(adapter.step_trial(&mut trial, &control, &mut pause, 0).is_none());
    }
    assert_eq!(pause, PauseState::Acknowledged);
    pause.resume();
    let mut now: u128 = 0;
    let report = loop {
        if let Some(report) = adapter.step_trial(&mut trial, &control, &mut pause, now) {
            break report;
        }
        now += 1_000_000;
    };
    assert_eq!(report.unwrap().outcome, ActionOutcome::Completed { successful: true });
    assert_eq!(adapter.runtime.trial_completed, 1);
}

#[test]
fn a_trial_whose_device_does_not_answer_in_time_is_not_made() {
    let mut adapter = DemoAdapter::new(Scenario::Normal);
    let control = ExecutionControl::default();
    let mut pause = PauseState::Running;
    let mut trial = adapter.begin_trial(&control, pause, 0).unwrap();
    let report = loop {
        if let Some(report) = adapter.step_trial(&mut trial, &control, &mut pause, 1_000_000_000) {
            break report;
        }
    };
    assert!(report.is_err());
    assert_eq!(adapter.runtime.trial_completed, 0);
    assert!(adapter.begin_trial(&control, pause, CLOCK_END).is_err());
}

#[test]
fn unreadable_input_is_answered_with_the_readers_words() {
    let mut adapter = DemoAdapter::new(Scenario::Normal);
    let control = ExecutionControl::default();
    let words = "unknown variant `up`, expected `idle` or `training`";
    let call = tool("set_mode", r#"{"mode":"up"}"#);
    let error = adapter.execute(&call, &control, words, 0).unwrap_err();
    assert_eq!(error.message(), format!("invalid input: {words}"));
    let words = "missing field `training`";
    let state = AppState { scene: String::new(), facts: json(r#"{"mode":"idle"}"#) };
    let context = SkillContext {
        state: &state,
        task_goal: "goal",
        decision_step: 1,
        previous_result: None,
        failure: None,
        interruption: None,
    };
    let error = adapter.decision_context(&context, words).unwrap_err();
    assert_eq!(
        error.message(),
        format!("invalid input: invalid demo state in skill context: {words}")
    );
}

#[test]
fn the_trial_device_takes_one_click() {
    let control = ExecutionControl::default();
    let mut device = TrialDevice::new();
    let mut runtime = actweave::demo_runtime::DemoRuntime::new(Scenario::Normal);
    assert_eq!(device.capture(&control, 0).unwrap().rgb().to_vec(), vec![0, 255, 0]);
    let key = actweave::action::Input::KeyDown("W".to_owned());
    assert!(device.input(&mut runtime, &key, &control, 0).is_err());
    let click = actweave::action::Input::Click(actweave::action::Point { x: 0, y: 0 });
    device.input(&mut runtime, &click, &control, 0).unwrap();
    assert_eq!(device.capture(&control, 0).unwrap().rgb().to_vec(), vec![0, 0, 0]);
    assert!(device.input(&mut runtime, &click, &control, 0).is_err());
    assert_eq!(runtime.trial_completed, 1);
    assert!(definition().validate(0).is_ok());
    assert!(definition().validate(CLOCK_END - 1_000_000_000).is_ok());
    assert!(definition().validate(CLOCK_END - 999_999_999).is_err());
    assert!(matches!(flow_error(&FlowError::TimedOut), AdapterError::TimedOut));
    let cleanup = flow_error(&FlowError::Cleanup("x".to_owned()));
    assert!(cleanup.message().contains("input cleanup failed: x"));
}

#[test]
fn typed_decisions_are_asked_for_and_recorded() {
    let mut agent = ManualAgent::new("s".to_owned());
    agent.bind_task("t");
    let task = Task::new("goal".to_owned()).unwrap();
    let adapter = DemoAdapter::new(Scenario::Normal);
    let state = adapter.observe(0);
    let skills = adapter
        .decision_context(&actweave::api::SkillContext {
            state: &state,
            task_goal: "goal",
            decision_step: 1,
            previous_result: None,
            failure: None,
            interruption: None,
        }, "")
        .unwrap()
        .skills;
    let seen = view(&skills, SkillMode::All, &vec![], None).unwrap();
    let input = agent.ask(&task, &state, &seen, None);
    assert_eq!(input.get("task").unwrap().to_text(), r#"{"goal":"goal"}"#);
    assert_eq!(input.get("previous_tool_result").unwrap().to_text(), "null");
    let loaded = input.get("skills").unwrap().get("loaded").unwrap();
    assert!(loaded.to_text().contains("\"name\":\"get_state\""));
    assert!(prompt(&input).starts_with("[MANUAL] 当前决策上下文：{"));
    let cases = [
        (Typed::PromptFailed("p".to_owned()), "manual prompt: p"),
        (Typed::InputFailed("i".to_owned()), "manual input: i"),
        (Typed::Ended, "manual input ended before a decision was provided"),
        (Typed::Malformed("m".to_owned()), "invalid manual Decision JSON: m"),
    ];
    for (typed, message) in cases {
        let (result, event) = agent.answer(typed);
        assert!(result.unwrap_err().message().contains(message));
        assert!(matches!(event, LogEvent::ManualError(text) if text.contains(message)));
    }
    let (result, event) = agent.answer(Typed::Decision(Decision::Resume));
    assert!(matches!(result, Ok(Decision::Resume)));
    let record = agent.log.record(7, &event);
    assert_eq!(
        record.to_text(),
        r#"{"decision":"Resume","event":"manual_decision","provider":"manual","request_id":1,"session_id":"s","task_id":"t","timestamp_ms":7}"#
    );
    agent.bind_task("u");
    agent.ask(&task, &state, &seen, None);
    assert_eq!(agent.log.request_id, 1);
}

#[test]
fn every_record_has_its_event() {
    let log = DecisionLog::new("jev", "s".to_owned());
    for (event, name, key) in [
        (LogEvent::Request(Json::Null), "model_request", "body"),
        (LogEvent::Response(Json::Null), "model_response", "body"),
        (LogEvent::Decision(Decision::Resume), "model_decision", "decision"),
        (LogEvent::Error("x".to_owned()), "model_error", "message"),
        (LogEvent::ManualInput(Json::Null), "manual_input", "body"),
    ] {
        let record = log.record(1, &event);
        assert_eq!(record.get("event").unwrap().as_text(), Some(name));
        assert!(record.get(key).is_some());
        assert_eq!(record.get("task_id").unwrap().to_text(), "null");
    }
}

#[test]
fn journals_hold_changes_and_events() {
    let task = Task::new("g".to_owned()).unwrap();
    let mut handle = TaskHandle::new("id".to_owned(), &task);
    assert_eq!(
        lifecycle_entry(&handle.snapshot(), 3).to_text(),
        r#"{"data":{"current_skill":null,"goal":"g","reason":null,"status":"created","task_id":"id"},"kind":"lifecycle","task_id":"id","timestamp_ms":3}"#
    );
    handle.start(0);
    assert_eq!(handle.status(), TaskStatus::Running);
    handle.finish(&Err(Error::Invalid("no".to_owned())), 2_500_000);
    let entry = lifecycle_entry(&handle.snapshot(), 4);
    let data = entry.get("data").unwrap();
    assert_eq!(data.get("status").unwrap().as_text(), Some("failed"));
    assert_eq!(data.get("summary").unwrap().get("elapsed_ms").unwrap().to_text(), "2");
    let entry = execution_entry("id", &Event::ExecutionRejected("r".to_owned()), 5);
    assert_eq!(
        entry.to_text(),
        r#"{"data":{"ExecutionRejected":"r"},"kind":"execution","task_id":"id","timestamp_ms":5}"#
    );
}

#[test]
fn decisions_are_written_by_their_names() {
    let plan = Decision::Execute {
        actions: vec![actweave::api::Action::Call(tool("a", "{}"))],
        then: Continuation::Finish,
    };
    assert_eq!(
        decision_to_json(&plan).to_text(),
        r#"{"Execute":{"actions":[{"Call":{"arguments":{},"name":"a"}}],"then":"Finish"}}"#
    );
    let load = Decision::LoadSkills(LoadSkills { names: vec!["a".to_owned()], tags: vec![] });
    assert_eq!(decision_to_json(&load).to_text(), r#"{"LoadSkills":{"names":["a"]}}"#);
    assert_eq!(decision_to_json(&Decision::Resume).to_text(), "\"Resume\"");
    let done = Decision::Completed("x".to_owned());
    assert_eq!(decision_to_json(&done).to_text(), r#"{"Completed":"x"}"#);
}

#[test]
fn terminals_are_told_what_happens() {
    assert_eq!(
        write_opening("JEV", "demo", "g", 12),
        vec![
            "[INFO] 决策器：JEV",
            "[INFO] 适配器：demo",
            "[INFO] 开始任务：g",
            "[INFO] 最多执行 12 轮决策"
        ]
    );
    let mut reporter = Reporter::new(1);
    let state = DemoAdapter::new(Scenario::Normal).observe(0);
    assert_eq!(reporter.report(&Event::Observed(state)), vec!["[INFO] 已读取当前状态"]);
    let load = Decision::LoadSkills(LoadSkills {
        names: vec!["a\"b".to_owned()],
        tags: vec!["x".to_owned(), "y".to_owned()],
    });
    assert_eq!(
        reporter.report(&Event::Decided(load)),
        vec!["[INFO] 第 1 步：请求加载 Skills，名称：[\"a\\\"b\"]，tags：[\"x\", \"y\"]"]
    );
    assert_eq!(reporter.step, 1);
    let plan = Decision::Execute {
        actions: vec![
            actweave::api::Action::UntilDone(tool("e", "{}")),
            actweave::api::Action::Repeat(actweave::api::RepeatRequest {
                call: tool("r", "{}"),
                times: 3,
            }),
        ],
        then: Continuation::Decide,
    };
    assert_eq!(
        reporter.report(&Event::Decided(plan)),
        vec![
            "[INFO] 动作完成后：继续决策",
            "[INFO] 第 2 步：下达 2 个有序动作",
            "[INFO] 循环 `e`：由 Adapter 确认完成，正常步骤无需模型决策",
            "[INFO] 批次 `r`：目标 3 次动作"
        ]
    );
    let started = Event::ActionStarted { index: 0, total: 2, call: tool("s", r#"{"a":1}"#) };
    assert_eq!(
        reporter.report(&started),
        vec!["[INFO] 动作 1/2：选择 Skill `s`，参数：{\"a\":1}；开始调用"]
    );
    let summary = actweave::metrics::TaskSummary::default();
    let lines = write_summary_lines(TaskStatus::Cancelled, summary);
    assert_eq!(lines[0], "[INFO] 任务结束：已取消");
    assert_eq!(lines[4], "[INFO] 总耗时：0.000 秒");
    for (ms, seconds) in [(7, "0.007"), (1234, "1.234"), (60_050, "60.050"), (500, "0.500")] {
        assert_eq!(find_seconds(ms), seconds);
    }
}

#[test]
fn command_lines_decide_as_documented() {
    assert_eq!(choose_sink(true, false, true), Sink::File);
    assert_eq!(choose_sink(false, true, true), Sink::TaskFile);
    assert_eq!(choose_sink(false, true, false), Sink::Terminal);
    assert_eq!(choose_sink(false, false, true), Sink::Nowhere);
    let some = |s: &str| Some(s.to_owned());
    assert_eq!(choose_setting(some("a"), some("b"), "c"), "a");
    assert_eq!(choose_setting(None, some("b"), "c"), "b");
    assert_eq!(choose_setting(None, None, "c"), "c");
    assert!(check_provider(true, true, false).is_err());
    assert!(check_provider(true, false, false).is_ok());
    assert!(check_provider(false, true, true).is_ok());
    assert_eq!(
        [find_exit_code(Ok(true)), find_exit_code(Ok(false)), find_exit_code(Err(()))],
        [0, 1, 2]
    );
    let features = DemoAdapter::new(Scenario::Normal).features();
    assert_eq!(choose_feature(&features, "repeat_trial").unwrap().name, "重复试验");
    let unknown = choose_feature(&features, "fly").unwrap_err().message();
    assert_eq!(unknown, "invalid input: unknown feature: fly");
    let options = limits(12, 3, 4, 100, 200, 120, true);
    assert_eq!(options.batch_timeout, 120_000_000_000);
    assert_eq!(options.skill_mode, SkillMode::OnDemand);
    assert_eq!(
        limits(1, 1, 1, 1, 1, u64::MAX, false).batch_timeout,
        u64::MAX as u128 * 1_000_000_000
    );
    assert_eq!(choose_log_directory(None), "logs/tasks");
    assert_eq!(choose_log_directory(some("elsewhere")), "elsewhere");
}

#[test]
fn texts_are_compared_cut_and_joined() {
    assert!(text::is_blank(" \t\u{3000}"));
    assert!(!text::is_blank(" x "));
    assert_eq!(text::trim("\u{2003} a b\n"), "a b");
    assert!(text::has_part("继续游戏", "游戏"));
    assert!(!text::has_part("a", "ab"));
    assert!(text::has_part("a", ""));
    assert!(text::is_before("a", "b") && text::is_before("a", "aa"));
    assert_eq!(text::numeral(18446744073709551615), "18446744073709551615");
    assert_eq!(text::read_u32("4294967295"), Some(4294967295));
    for wrong in ["", "4294967296", "-1", "1.5", " 1"] {
        assert_eq!(text::read_u32(wrong), None);
    }
    let items = vec!["a".to_owned(), "b".to_owned(), "c".to_owned()];
    assert_eq!(text::join(&items, ", "), "a, b, c");
    assert_eq!(text::join(&vec![], ", "), "");
}

#[test]
fn json_is_read_written_and_compared() {
    for (given, written) in [
        (r#" {"b":[1,-2,2.50],"a":"x\n"} "#, r#"{"a":"x\n","b":[1,-2,2.5]}"#),
        ("18446744073709551615", "18446744073709551615"),
        ("true", "true"),
        ("null", "null"),
        (r#"{"a":1,"a":2}"#, r#"{"a":2}"#),
    ] {
        assert_eq!(json(given).to_text(), written);
    }
    for decimal in ["0.1", "-2.5e-7", "1e300", "123456789.12345678", "5e-324", "-0.0"] {
        assert_eq!(json(json(decimal).to_text().as_str()).to_text(), json(decimal).to_text());
        assert_eq!(json(decimal).dup().to_text(), json(decimal).to_text());
    }
    assert_eq!(json("1.7976931348623157e308").to_text(), "1.7976931348623157e+308");
    assert!(Json::Negative(5).same(&Json::Unsigned(5)) && json("5").same(&Json::Negative(5)));
    assert_eq!(Json::Negative(5).to_text(), "5");
    assert_eq!((json("7").as_u64(), json("-7").as_u64(), json("7.0").as_u64()), (Some(7), None, None));
    for wrong in ["", "{", "[1,]", "nul", "1 2"] {
        assert!(Json::parse(wrong).is_none());
    }
    assert!(json(r#"{"a":1,"b":2}"#).same(&json(r#"{"b":2,"a":1}"#)));
    assert!(!json("1").same(&json("1.0")));
    assert!(json("0.0").same(&json("-0.0")) && json("[-0.0]").same(&json("[0.0]")));
    assert!(!json("0.5").same(&json("-0.5")) && !json("0").same(&json("0.0")));
    assert_eq!(json(r#"{"a":[1]}"#).to_pretty_text(), "{\n  \"a\": [\n    1\n  ]\n}");
    let mut object = json(r#"{"a":1}"#);
    object.set("a", Json::Bool(true));
    object.set("b", Json::text("x"));
    assert_eq!(object.to_text(), r#"{"a":true,"b":"x"}"#);
    assert_eq!(object.size(), 2);
}

#[test]
fn calls_that_differ_in_the_sign_of_a_zero_fail_together() {
    let mut guard = FailureGuard::new();
    let failed = || Err(AdapterError::Runtime("lost".to_owned()));
    let turn = |angle: &str| tool("turn", &format!(r#"{{"angle":{angle}}}"#));
    assert!(guard.action(&turn("0.0"), &failed(), 2).is_none());
    assert!(guard.action(&turn("0.5"), &failed(), 2).is_none());
    assert!(guard.action(&turn("-0.5"), &failed(), 2).is_none());
    assert!(guard.action(&turn("-0.0"), &failed(), 2).is_some());
}

#[test]
fn cancelled_tokens_stay_cancelled_and_touch_no_others() {
    let mut token = CancellationToken::default();
    let other = CancellationToken::default();
    assert!(!token.is_cancelled());
    for _ in 0..2 {
        token.cancel();
        assert!(token.is_cancelled() && !other.is_cancelled());
    }
    let control = ExecutionControl { cancellation: token, deadline: Some(5) };
    assert!(matches!(control.check(9), Err(AdapterError::Cancelled)));
    let late = ExecutionControl { cancellation: other, deadline: Some(5) };
    assert!(late.check(4).is_ok());
    assert!(matches!(late.check(5), Err(AdapterError::TimedOut)));
}
