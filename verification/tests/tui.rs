use actweave::api::AppState;
use actweave::batch::BatchStatus;
use actweave::demo::{register, DemoAdapter};
use actweave::demo_runtime::Scenario;
use actweave::feature::{Choice, Feature, Parameter, ParameterKind};
use actweave::json::Json;
use actweave::kernel::{Decision, Event};
use actweave::report::find_batch_word;
use actweave::sdk::Registry;
use actweave::task_runtime::TaskHandle;
use actweave::tui::{write_log_title, App, Effect, Input, Key, Plan, Screen, LOG_LINES};

fn app() -> App {
    let mut registry = Registry::new();
    register(&mut registry).unwrap();
    App::new(registry.names())
}

fn demo() -> App {
    let mut app = app();
    assert_eq!(app.key(Key::Enter), Effect::ChooseAdapter);
    app.choose_adapter(Ok(DemoAdapter::new(Scenario::Normal).features()));
    app
}

fn texts(rows: Vec<actweave::tui::Row>) -> Vec<String> {
    rows.into_iter().map(|row| row.text).collect()
}

#[test]
fn invalid_feature_input_keeps_the_adapter_for_correction() {
    let mut app = demo();
    app.key(Key::Down);
    app.key(Key::Enter);
    app.inputs[0].value = "not a number".to_owned();
    let error = app.plan(true).unwrap_err();
    app.refuse(error);
    assert!(app.instance);
    assert_eq!(app.screen, Screen::Configure);
    assert!(app.help().starts_with("Tab 切换   Enter 下一项/开始   Esc 返回  ·  "));
}

#[test]
fn local_feature_starts_from_guided_screens_without_a_model() {
    let mut app = demo();
    assert_eq!(app.screen, Screen::Tasks);
    assert_eq!(
        texts(app.task_rows()),
        vec![
            "› 自然语言任务 · JEV",
            "  重复试验 · 执行指定次数的试验；没有收益也算完成一次。"
        ]
    );
    assert_eq!(app.task_title(), "demo / 任务");
    app.key(Key::Down);
    app.key(Key::Down);
    app.key(Key::Enter);
    assert_eq!(app.screen, Screen::Configure);
    assert_eq!(texts(app.field_rows()), vec!["› 次数 (整数): 10"]);
    assert_eq!(app.key(Key::Backspace), Effect::Nothing);
    app.key(Key::Char('x'));
    app.key(Key::Char('2'));
    assert_eq!(app.inputs[0].value, "12");
    assert_eq!(app.button().text, "  开始任务");
    assert_eq!(app.key(Key::Enter), Effect::Nothing);
    assert_eq!(app.button().text, "› 开始任务");
    assert_eq!(app.key(Key::Enter), Effect::Start);
    match app.plan(false).unwrap() {
        Plan::Feature { id, name, arguments } => {
            assert_eq!((id.as_str(), name.as_str()), ("repeat_trial", "重复试验"));
            assert_eq!(arguments.to_text(), r#"{"times":12}"#);
        }
        Plan::Goal(_) => panic!("a feature was chosen"),
    }
    app.start(None);
    assert_eq!(app.screen, Screen::Running);
    assert!(!app.instance);
    assert_eq!(app.logs, vec!["适配器：demo"]);
    assert_eq!(app.state_text(), "等待状态…");
    assert!(app.plan(true).is_err());
}

#[test]
fn free_tasks_need_a_goal_and_a_key() {
    let mut app = demo();
    app.key(Key::Enter);
    assert_eq!(app.plan(true).unwrap_err(), "请输入任务目标");
    for c in "  做 事 ".chars() {
        app.key(Key::Char(c));
    }
    assert_eq!(app.plan(false).unwrap_err(), "请先设置 JEVKEY");
    match app.plan(true).unwrap() {
        Plan::Goal(goal) => assert_eq!(goal, "做 事"),
        Plan::Feature { .. } => panic!("a free task was chosen"),
    }
}

#[test]
fn screens_are_left_and_lists_have_ends() {
    let mut app = app();
    app.key(Key::Down);
    app.key(Key::Up);
    assert_eq!(app.selected_adapter, 0);
    assert_eq!(app.key(Key::Char('q')), Effect::Quit);
    assert_eq!(app.key(Key::Esc), Effect::Quit);
    assert_eq!(app.header(), "选择适配器");
    assert_eq!(texts(app.adapter_rows()), vec!["› demo"]);
    app.choose_adapter(Err("broken".to_owned()));
    assert_eq!((app.screen, app.notice.as_str()), (Screen::Adapters, "broken"));
    let mut none = App::new(vec![]);
    none.choose_adapter(Ok(vec![]));
    assert_eq!(none.notice, "没有可用适配器");
    let mut app = demo();
    app.key(Key::Enter);
    app.key(Key::Up);
    assert_eq!(app.focused, 1);
    app.key(Key::Tab);
    assert_eq!(app.focused, 0);
    app.key(Key::Esc);
    assert_eq!(app.screen, Screen::Tasks);
    app.key(Key::Esc);
    assert_eq!(app.screen, Screen::Adapters);
}

#[test]
fn choices_go_round_in_a_circle() {
    let choice = |value: &str| Choice { value: value.to_owned(), label: value.to_owned() };
    let mut input = Input {
        name: "mode".to_owned(),
        value: "c".to_owned(),
        kind: ParameterKind::Enum { choices: vec![choice("a"), choice("b"), choice("c")] },
    };
    input.cycle(true);
    assert_eq!(input.value, "a");
    input.cycle(false);
    assert_eq!(input.value, "c");
    input.value = "other".to_owned();
    input.cycle(true);
    assert_eq!(input.value, "b");
    let mut flag = Input {
        name: "flag".to_owned(),
        value: "true".to_owned(),
        kind: ParameterKind::Boolean,
    };
    flag.cycle(false);
    assert_eq!(flag.value, "false");
    flag.cycle(false);
    assert_eq!(flag.value, "true");
    let mut empty = Input {
        name: "none".to_owned(),
        value: "x".to_owned(),
        kind: ParameterKind::Enum { choices: vec![] },
    };
    empty.cycle(true);
    assert_eq!(empty.value, "x");
}

#[test]
fn chosen_fields_take_no_characters() {
    let mut app = app();
    let flag = Parameter {
        id: "flag".to_owned(),
        name: "Flag".to_owned(),
        kind: ParameterKind::Boolean,
        default: Some(Json::Bool(false)),
    };
    app.choose_adapter(Ok(vec![Feature {
        id: "f".to_owned(),
        name: "F".to_owned(),
        description: String::new(),
        parameters: vec![flag],
    }]));
    app.key(Key::Down);
    app.key(Key::Enter);
    assert_eq!(app.inputs[0].value, "false");
    app.key(Key::Char('x'));
    app.key(Key::Backspace);
    assert_eq!(app.inputs[0].value, "false");
    for key in [Key::Char(' '), Key::Left, Key::Right] {
        let before = app.inputs[0].value == "true";
        app.key(key);
        assert_eq!(app.inputs[0].value == "true", !before);
    }
}

#[test]
fn commands_reach_only_a_running_task() {
    let mut app = demo();
    app.key(Key::Enter);
    app.start(Some(AppState { scene: "s".to_owned(), facts: Json::object() }));
    assert_eq!(app.state_text(), "场景：s\n\n{}");
    assert_eq!(app.key(Key::Char('p')), Effect::Pause);
    assert_eq!(app.key(Key::Char('r')), Effect::Resume);
    assert_eq!(app.key(Key::Char('c')), Effect::Cancel);
    assert_eq!(app.key(Key::Esc), Effect::Nothing);
    app.finished(Err("lost".to_owned()), "0.0");
    assert_eq!(app.logs[1], "任务失败：lost");
    assert_eq!(app.key(Key::Char('p')), Effect::Nothing);
    assert_eq!(app.key(Key::Esc), Effect::Quit);
    assert_eq!(app.help(), "任务已结束   Esc 退出");
}

#[test]
fn logs_are_kept_to_a_limit_and_scrolled() {
    let mut app = demo();
    app.key(Key::Enter);
    app.start(None);
    for i in 0..LOG_LINES {
        app.event(&Event::ExecutionRejected(i.to_string()));
    }
    assert_eq!(app.logs.len(), LOG_LINES);
    assert_eq!(app.logs[0], "拒绝执行：0");
    assert_eq!(app.visible_logs(2), vec!["拒绝执行：398", "拒绝执行：399"]);
    app.key(Key::Up);
    assert_eq!(app.visible_logs(2), vec!["拒绝执行：397", "拒绝执行：398"]);
    app.key(Key::Down);
    app.key(Key::Down);
    assert_eq!(app.visible_logs(1), vec!["拒绝执行：399"]);
    app.event(&Event::Decided(Decision::Resume));
    assert_eq!(app.visible_logs(1), vec!["决策：继续执行"]);
    assert!(app.visible_logs(0).is_empty());
}

#[test]
fn the_log_is_titled_by_its_task() {
    assert_eq!(write_log_title(None), "日志");
    let task = actweave::kernel::Task::new("g".to_owned()).unwrap();
    let handle = TaskHandle::new("1".to_owned(), &task);
    assert_eq!(write_log_title(Some(&handle.snapshot())), "日志 · g · Created");
    assert_eq!(find_batch_word(BatchStatus::TimedOut), "TimedOut");
}
