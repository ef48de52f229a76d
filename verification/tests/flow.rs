use actweave::action::{Action, ActionResult, Actions, Command, Input, Point, Target};
use actweave::api::{AdapterError, ExecutionControl, PauseState};
use actweave::automation::{Control, Error};
use actweave::clock::CLOCK_END;
use actweave::copy::Dup;
use actweave::flow::{Flow, Node};
use actweave::flow_runtime::{finish, map_error, Bridge};
use actweave::json::Json;
use actweave::recognition::{
    check_result, color_result, find_region, Algorithm, Detection, Evaluation, Frame, Look, Real,
    Recognition, RecognitionResult, Recognizers, Rect, Roi,
};
use actweave::runner::{Interruption, Phase, Runner, Status};

const MS: u128 = 1_000_000;
const START: u128 = 1000 * MS;

fn double(x: f64) -> Real {
    Real { bits: x.to_bits() }
}

/// What fractions come to in pixels, rounded outward.
fn pixels(roi: Option<Roi>, frame: &Frame) -> Rect {
    let (w, h) = (frame.width() as f64, frame.height() as f64);
    match roi {
        Some(Roi::Relative { x, y, width, height }) => {
            let value = |r: Real| f64::from_bits(r.bits);
            let left = (value(x) * w).floor();
            let top = (value(y) * h).floor();
            Rect {
                x: left as i32,
                y: top as i32,
                width: (((value(x) + value(width)) * w).ceil() - left) as u32,
                height: (((value(y) + value(height)) * h).ceil() - top) as u32,
            }
        }
        _ => Rect { x: 0, y: 0, width: frame.width(), height: frame.height() },
    }
}

type Backend<'a> = &'a mut dyn FnMut(&Recognition, Rect) -> Result<RecognitionResult, Error>;

/// Recognizes on a frame, asking a backend where the library does not look itself.
fn recognize(
    recognizers: &Recognizers,
    recognition: &Recognition,
    frame: &Frame,
    backend: Backend,
) -> Result<RecognitionResult, Error> {
    recognition.validate()?;
    let mut answers = vec![];
    loop {
        match recognition.evaluate(&answers, 0) {
            Evaluation::Done(result, _) => return check_result(frame, result),
            Evaluation::Ask(leaf) => {
                let answer = match leaf.look(frame, pixels(leaf.roi(), frame), recognizers)? {
                    Look::Hit(rect) => RecognitionResult::region(rect, double(1.0)),
                    Look::Color { rect, count } => {
                        let area = rect.width as u64 * rect.height as u64;
                        let min = match leaf {
                            Recognition::ColorMatch { min_ratio, .. } => *min_ratio,
                            _ => double(1.0),
                        };
                        color_result(rect, double(count as f64 / area as f64), min)
                    }
                    Look::Backend(rect) => backend(leaf, rect)?,
                };
                answers.push(check_result(frame, answer)?);
            }
        }
    }
}

fn no_backend(_: &Recognition, _: Rect) -> Result<RecognitionResult, Error> {
    Err(Error::Backend("no backend".to_owned()))
}

/// A device and the clock that it is watched by.
struct Mock {
    now: u128,
    control: Control,
    recognizers: Recognizers,
    actions: Actions,
    inputs: Vec<Input>,
    captures: usize,
    released: usize,
    reported: usize,
    fail_input: bool,
    fail_release: bool,
    /// What cuts the next wait short.
    interrupt: Option<Interruption>,
    custom: Option<fn(&Json, &RecognitionResult) -> Result<ActionResult, Error>>,
    on_pause: Option<fn(&mut Mock, &mut Runner)>,
    frame: (u32, u32, Vec<u8>),
}

impl Mock {
    fn new() -> Self {
        Mock {
            now: START,
            control: Control::new(),
            recognizers: Recognizers::new(),
            actions: Actions::new(),
            inputs: vec![],
            captures: 0,
            released: 0,
            reported: 0,
            fail_input: false,
            fail_release: false,
            interrupt: None,
            custom: None,
            on_pause: None,
            frame: (2, 1, vec![255, 0, 0, 0, 0, 0]),
        }
    }

    /// Performs one step of a flow.
    fn step(&mut self, runner: &mut Runner) {
        runner.step(&self.control, self.now);
        let mut frame = None;
        loop {
            match runner.phase() {
                Phase::Ready => return,
                Phase::Capturing => {
                    let wait = runner.next_poll().max(self.now);
                    if wait >= runner.deadline() {
                        self.now = runner.deadline();
                        runner.interrupted(Interruption::TimedOut);
                        continue;
                    }
                    self.now = wait;
                    self.captures += 1;
                    let (w, h, rgb) = &self.frame;
                    frame = Some(Frame::new(*w, *h, rgb.clone()).unwrap());
                    runner.captured(Ok(()), self.now);
                }
                Phase::Recognizing { .. } => {
                    let frame = frame.as_ref().unwrap();
                    let reply = recognize(
                        &self.recognizers,
                        runner.recognition(),
                        frame,
                        &mut text_backend,
                    );
                    runner.recognized(frame, reply, self.now);
                }
                Phase::Acting => {
                    let reply = match runner.command(&self.actions) {
                        Err(error) => Err(error),
                        Ok(Command::Wait(ms)) => {
                            if let Some(interruption) = self.interrupt.take() {
                                self.now += 5 * MS;
                                runner.interrupted(interruption);
                                continue;
                            }
                            self.now += ms as u128 * MS;
                            Ok(ActionResult::Continue(Json::Null))
                        }
                        Ok(Command::Custom) => {
                            let Action::Custom { parameters, .. } = runner.action() else {
                                panic!("another action is performed");
                            };
                            (self.custom.unwrap())(parameters, &runner.progress().recognition)
                        }
                        Ok(Command::Input(input)) => {
                            if self.fail_input {
                                self.fail_input = false;
                                Err(Error::Backend("lost window".to_owned()))
                            } else {
                                self.inputs.push(input);
                                Ok(ActionResult::Continue(Json::Null))
                            }
                        }
                    };
                    runner.acted(reply, self.now);
                }
                Phase::ReportingFailed | Phase::ReportingPaused { .. } => {
                    let _ = runner.action();
                    self.reported += 1;
                    runner.reported(self.now);
                }
                Phase::Paused { .. } => {
                    self.control.acknowledge_pause();
                    let on_pause = self.on_pause.unwrap();
                    on_pause(self, runner);
                }
                _ => {
                    self.released += 1;
                    let reply = if self.fail_release {
                        Err(Error::Backend("release failed".to_owned()))
                    } else {
                        Ok(())
                    };
                    runner.released(reply, self.now);
                }
            }
        }
    }

    fn finish(&mut self, runner: &mut Runner) {
        for _ in 0..30 {
            if runner.progress().status != Status::Running {
                return;
            }
            self.step(runner);
        }
        panic!("unbounded runner");
    }
}

fn text_backend(leaf: &Recognition, rect: Rect) -> Result<RecognitionResult, Error> {
    let parameters = match leaf {
        Recognition::Custom { parameters, .. } => parameters,
        Recognition::Algorithm { parameters, .. } => parameters,
        _ => return Err(Error::Unsupported("no backend".to_owned())),
    };
    let mut detail = Json::object();
    detail.set("source", Json::text("mock"));
    Ok(RecognitionResult {
        matches: vec![Detection {
            bounds: Some(rect),
            score: Some(double(0.9)),
            text: parameters.get("text").and_then(|t| t.as_text()).map(|t| t.to_owned()),
            label: None,
            detail,
        }],
        children: vec![],
    })
}

fn node(actions: Vec<Action>, next: &[&str]) -> Node {
    Node {
        recognition: Recognition::DirectHit { roi: None },
        actions,
        next: next.iter().map(|s| s.to_string()).collect(),
        on_error: vec![],
        on_interrupted: vec![],
        timeout_ms: 100,
    }
}

fn flow(nodes: Vec<(&str, Node)>) -> Flow {
    let mut flow = Flow::new("entry", 10, 20);
    for (name, node) in nodes {
        flow.insert(name.to_owned(), node);
    }
    flow
}

fn click() -> Action {
    Action::Click { target: Target::Match { index: 0 } }
}

fn color(rgb: [u8; 3], min_ratio: f64) -> Recognition {
    Recognition::ColorMatch { roi: None, lower: rgb, upper: rgb, min_ratio: double(min_ratio) }
}

fn runner(flow: Flow, mock: &Mock) -> Runner {
    Runner::new(flow, &mock.recognizers, &mock.actions, mock.now).unwrap()
}

#[test]
fn chooses_first_matching_branch_and_clicks_recognition_center() {
    let mut miss = node(vec![Action::KeyDown { key: "wrong".to_owned() }], &[]);
    miss.recognition = color([0, 255, 0], 1.0);
    let mut hit = node(vec![click()], &[]);
    hit.recognition = color([255, 0, 0], 0.5);
    let mut mock = Mock::new();
    let mut runner = runner(
        flow(vec![
            ("entry", node(vec![], &["miss", "hit", "later"])),
            ("miss", miss),
            ("hit", hit),
            ("later", node(vec![], &[])),
        ]),
        &mock,
    );
    mock.finish(&mut runner);
    assert_eq!(runner.progress().status, Status::Completed);
    assert_eq!(runner.progress().node, "hit");
    assert!(matches!(mock.inputs.as_slice(), [Input::Click(Point { x: 1, y: 0 })]));
    assert_eq!(mock.captures, 2);
    assert_eq!(mock.released, 1);
}

#[test]
fn failed_action_enters_recovery_without_executing_tail() {
    let mut entry = node(vec![click(), Action::KeyDown { key: "tail".to_owned() }], &[]);
    entry.on_error = vec!["recover".to_owned()];
    let mut mock = Mock::new();
    mock.fail_input = true;
    let mut runner =
        runner(flow(vec![("entry", entry), ("recover", node(vec![click()], &[]))]), &mock);
    mock.finish(&mut runner);
    assert_eq!(runner.progress().status, Status::Completed);
    assert_eq!(runner.progress().failure.as_ref().unwrap().action_index, Some(0));
    assert_eq!(mock.inputs.len(), 1);
    assert_eq!(mock.released, 2);
    assert_eq!(mock.reported, 1);
}

#[test]
fn recognition_timeout_routes_to_recovery_and_cycles_remain_bounded() {
    let mut entry = node(vec![], &[]);
    entry.recognition = color([0, 255, 0], 1.0);
    entry.on_error = vec!["entry".to_owned()];
    let mut pipeline = flow(vec![("entry", entry)]);
    pipeline.poll_interval_ms = 200;
    pipeline.max_operations = 5;
    let mut mock = Mock::new();
    let mut runner = runner(pipeline, &mock);
    mock.finish(&mut runner);
    assert_eq!(runner.progress().status, Status::Failed);
    assert_eq!(runner.progress().operations, 5);
    assert!(runner.progress().message.contains("budget"));
}

#[test]
fn cancellation_interrupts_wait_and_releases_held_keys() {
    let mut mock = Mock::new();
    let mut runner = runner(
        flow(vec![(
            "entry",
            node(
                vec![
                    Action::KeyDown { key: "F".to_owned() },
                    Action::Wait { duration_ms: 90 },
                    Action::KeyUp { key: "F".to_owned() },
                ],
                &[],
            ),
        )]),
        &mock,
    );
    mock.step(&mut runner);
    mock.step(&mut runner);
    mock.interrupt = Some(Interruption::Cancelled);
    mock.step(&mut runner);
    assert_eq!(runner.progress().status, Status::Cancelled);
    assert_eq!(mock.inputs.len(), 1);
    assert_eq!(mock.released, 1);
}

#[test]
fn custom_step_routes_only_to_a_declared_next_node() {
    let jump = || Action::Custom { name: "jump".to_owned(), parameters: Json::Null };
    let prepare = || {
        let mut mock = Mock::new();
        mock.actions.register("jump".to_owned()).unwrap();
        mock.custom = Some(|_, _| {
            Ok(ActionResult::Route { node: "target".to_owned(), output: Json::Null })
        });
        mock
    };
    let mut mock = prepare();
    let entry = node(vec![jump()], &["target"]);
    let mut declared =
        runner(flow(vec![("entry", entry), ("target", node(vec![click()], &[]))]), &mock);
    mock.finish(&mut declared);
    assert_eq!(declared.progress().status, Status::Completed);
    assert_eq!(declared.progress().node, "target");
    assert_eq!(mock.inputs.len(), 1);

    let mut mock = prepare();
    let entry = node(vec![jump()], &[]);
    let mut undeclared =
        runner(flow(vec![("entry", entry), ("target", node(vec![click()], &[]))]), &mock);
    mock.finish(&mut undeclared);
    assert_eq!(undeclared.progress().status, Status::Failed);
    assert!(mock.inputs.is_empty());
}

#[test]
fn custom_recognition_and_action_share_structured_results() {
    let mut mock = Mock::new();
    mock.recognizers.register_custom("text".to_owned()).unwrap();
    mock.actions.register("inspect".to_owned()).unwrap();
    mock.custom = Some(|parameters, recognition| {
        let mut output = Json::object();
        output.set("text", Json::text(recognition.matches[0].text.as_ref().unwrap()));
        output.set("parameters", parameters.dup());
        Ok(ActionResult::Continue(output))
    });
    let mut parameters = Json::object();
    parameters.set("text", Json::text("继续"));
    let mut choice = Json::object();
    choice.set("choice", Json::Unsigned(1));
    let mut entry = node(
        vec![Action::Custom { name: "inspect".to_owned(), parameters: choice }],
        &[],
    );
    entry.recognition =
        Recognition::Custom { name: "text".to_owned(), roi: None, parameters };
    let mut runner = runner(flow(vec![("entry", entry)]), &mock);
    mock.finish(&mut runner);
    assert_eq!(
        runner.progress().action_result.get("text").unwrap().as_text(),
        Some("继续")
    );
    let handed = runner.progress().action_result.get("parameters").unwrap();
    assert_eq!(handed.get("choice").unwrap().as_u64(), Some(1));
}

#[test]
fn unsupported_recognizer_is_rejected_before_any_effect() {
    let mut entry = node(vec![click()], &[]);
    entry.recognition = Recognition::Algorithm {
        algorithm: Algorithm::Ocr,
        roi: None,
        parameters: Json::object(),
    };
    let mock = Mock::new();
    assert!(matches!(
        Runner::new(flow(vec![("entry", entry)]), &mock.recognizers, &mock.actions, mock.now),
        Err(Error::Unsupported(_))
    ));
}

#[test]
fn composites_retain_evidence_and_short_circuit() {
    let recognizers = Recognizers::new();
    let frame = Frame::new(1, 1, vec![255, 0, 0]).unwrap();
    let yes = || Recognition::DirectHit { roi: None };
    let no = || color([0, 0, 0], 1.0);
    let both = Recognition::And { conditions: vec![yes(), no()] };
    let result = recognize(&recognizers, &both, &frame, &mut no_backend).unwrap();
    assert!(!result.matched());
    assert_eq!(result.children.len(), 2);
    let either = Recognition::Or {
        conditions: vec![
            no(),
            yes(),
            Recognition::Custom {
                name: "not registered".to_owned(),
                roi: None,
                parameters: Json::Null,
            },
        ],
    };
    let result = recognize(&recognizers, &either, &frame, &mut no_backend).unwrap();
    assert!(result.matched());
    assert_eq!(result.children.len(), 2);
    assert!(!recognizers.supports(&either));
}

#[test]
fn configuration_roundtrips_and_invalid_edges_are_rejected() {
    flow(vec![("entry", node(vec![click()], &[]))]).validate(START).unwrap();
    assert!(flow(vec![("entry", node(vec![], &["missing"]))]).validate(START).is_err());
    assert!(Frame::new(2, 2, vec![0; 3]).is_err());
    assert!(Flow {
        nodes: vec![],
        entry: "missing".to_owned(),
        poll_interval_ms: 0,
        max_operations: 0
    }
    .validate(START)
    .is_err());
}

#[test]
fn nodes_are_kept_once_and_by_name() {
    let mut pipeline = flow(vec![
        ("entry", node(vec![], &[])),
        ("b", node(vec![], &[])),
        ("é", node(vec![], &[])),
        ("a", node(vec![], &[])),
        ("ab", node(vec![], &[])),
    ]);
    let names = |flow: &Flow| flow.nodes.iter().map(|n| n.name.clone()).collect::<Vec<_>>();
    assert_eq!(names(&pipeline), vec!["a", "ab", "b", "entry", "é"]);
    pipeline.insert("b".to_owned(), node(vec![click()], &["a"]));
    assert_eq!(names(&pipeline), vec!["a", "ab", "b", "entry", "é"]);
    let at = pipeline.find("b").unwrap();
    assert_eq!((at, pipeline.nodes[at].node.actions.len()), (2, 1));
    assert_eq!(pipeline.nodes[at].node.next, vec!["a"]);
    assert_eq!(pipeline.find("c"), None);
    let trial = actweave::trial::definition();
    assert_eq!(names(&trial), vec!["confirmed", "ready"]);
}

#[test]
fn every_flaw_of_a_flow_has_its_message() {
    let message = |flow: Flow| flow.validate(START).unwrap_err().message();
    let prefix = "invalid automation configuration: ";
    assert_eq!(
        message(Flow { max_operations: 0, ..flow(vec![("entry", node(vec![], &[]))]) }),
        format!("{prefix}entry and positive budgets required")
    );
    let mut soon = node(vec![], &[]);
    soon.timeout_ms = 0;
    assert_eq!(
        message(flow(vec![("entry", soon)])),
        format!("{prefix}invalid node or timeout: entry")
    );
    let mut late = node(vec![], &[]);
    late.timeout_ms = u64::MAX;
    let late = flow(vec![("entry", late)]);
    assert!(late.validate(START).is_ok());
    let most = u64::MAX as u128 * MS;
    assert!(late.validate(CLOCK_END - most).is_ok());
    assert_eq!(
        late.validate(CLOCK_END - most + 1).unwrap_err().message(),
        format!("{prefix}invalid node or timeout: entry")
    );
    assert_eq!(
        message(flow(vec![("entry", node(vec![], &["gone"]))])),
        format!("{prefix}unknown target gone in entry")
    );
    assert_eq!(
        message(flow(vec![("entry", node(vec![Action::KeyUp { key: " ".to_owned() }], &[]))])),
        format!("{prefix}empty key")
    );
    assert_eq!(
        message(flow(vec![(
            "entry",
            node(
                vec![Action::Custom { name: String::new(), parameters: Json::Null }],
                &[]
            )
        )])),
        format!("{prefix}empty custom action")
    );
    assert_eq!(
        message(flow(vec![("entry", node(vec![Action::Wait { duration_ms: 101 }], &[]))])),
        format!("{prefix}action duration exceeds node timeout: entry")
    );
    let mut empty = node(vec![], &[]);
    empty.recognition = Recognition::Or { conditions: vec![] };
    assert_eq!(
        message(flow(vec![("entry", empty)])),
        format!("{prefix}empty composite recognition")
    );
    let mut ratio = node(vec![], &[]);
    ratio.recognition = color([0, 0, 0], 1.5);
    assert_eq!(
        message(flow(vec![("entry", ratio)])),
        format!("{prefix}invalid color range or ratio")
    );
}

#[test]
fn pause_preserves_position_and_excludes_paused_time() {
    let mut entry = node(vec![click(), click()], &[]);
    entry.on_interrupted = vec!["remaining".to_owned()];
    let mut mock = Mock::new();
    let mut runner =
        runner(flow(vec![("entry", entry), ("remaining", node(vec![click()], &[]))]), &mock);
    mock.step(&mut runner);
    mock.step(&mut runner);
    let before = runner.deadline();
    mock.control.pause();
    mock.on_pause = Some(|mock, runner| {
        assert_eq!(mock.control.pause, PauseState::Acknowledged);
        mock.now += 10_000 * MS;
        mock.control.resume();
        runner.resumed(mock.now);
    });
    mock.step(&mut runner);
    assert_eq!(runner.deadline(), before + 10_000 * MS);
    assert_eq!(mock.inputs.len(), 1);
    mock.finish(&mut runner);
    assert_eq!(runner.progress().status, Status::Completed);
    assert_eq!(mock.inputs.len(), 2);
}

#[test]
fn an_interrupted_action_without_a_way_to_look_again_blocks_the_flow() {
    let mut mock = Mock::new();
    let mut runner = runner(
        flow(vec![("entry", node(vec![Action::Wait { duration_ms: 50 }], &[]))]),
        &mock,
    );
    mock.step(&mut runner);
    mock.interrupt = Some(Interruption::Paused);
    mock.on_pause = Some(|mock, runner| runner.resumed(mock.now));
    mock.step(&mut runner);
    assert_eq!(runner.progress().status, Status::Blocked);
    assert_eq!(runner.progress().message, "action outcome unknown after pause");
    assert_eq!((mock.released, mock.reported), (1, 1));
}

#[test]
fn a_pause_before_the_first_action_looks_at_the_node_again() {
    let mut mock = Mock::new();
    let mut runner = runner(flow(vec![("entry", node(vec![click()], &[]))]), &mock);
    mock.step(&mut runner);
    assert_eq!(runner.progress().action_index, Some(0));
    mock.control.pause();
    mock.on_pause = Some(|mock, runner| {
        mock.control.resume();
        runner.resumed(mock.now);
    });
    mock.step(&mut runner);
    assert_eq!(runner.progress().message, "re-observe after pause");
    assert_eq!(runner.progress().action_index, None);
    mock.finish(&mut runner);
    assert_eq!((mock.captures, mock.inputs.len()), (2, 1));
}

#[test]
fn a_paused_flow_can_be_cancelled() {
    let mut mock = Mock::new();
    let mut runner = runner(flow(vec![("entry", node(vec![click()], &[]))]), &mock);
    mock.control.pause();
    mock.on_pause = Some(|_, runner| runner.cancel());
    mock.step(&mut runner);
    assert_eq!(runner.progress().status, Status::Cancelled);
    assert_eq!(mock.released, 2);
}

#[test]
fn outcomes_of_actions_steer_the_flow() {
    type Custom = fn(&Json, &RecognitionResult) -> Result<ActionResult, Error>;
    let cases: [(Custom, usize, Status, &str); 4] = [
        (|_, _| Ok(ActionResult::Complete(Json::Unsigned(7))), 2, Status::Completed, "flow completed"),
        (|_, _| Ok(ActionResult::Blocked("stuck".to_owned())), 1, Status::Blocked, "stuck"),
        (
            |_, _| Ok(ActionResult::Reobserve(Json::Null)),
            2,
            Status::Failed,
            "invalid automation configuration: reobserve requires a single-action node",
        ),
        (
            |_, _| Err(Error::Unsupported("hands".to_owned())),
            1,
            Status::Failed,
            "unsupported capability: hands",
        ),
    ];
    for (custom, count, status, message) in cases {
        let mut mock = Mock::new();
        mock.actions.register("act".to_owned()).unwrap();
        mock.custom = Some(custom);
        let act = || Action::Custom { name: "act".to_owned(), parameters: Json::Null };
        let mut entry = node((0..count).map(|_| act()).collect(), &[]);
        entry.on_error = vec!["entry".to_owned()];
        let mut runner = runner(flow(vec![("entry", entry)]), &mock);
        mock.step(&mut runner);
        mock.step(&mut runner);
        assert_eq!(runner.progress().status, status);
        assert_eq!(runner.progress().message, message);
    }
}

#[test]
fn a_reobserved_node_is_looked_for_again() {
    let mut mock = Mock::new();
    mock.actions.register("act".to_owned()).unwrap();
    mock.custom = Some(|_, _| Ok(ActionResult::Reobserve(Json::Bool(true))));
    let act = Action::Custom { name: "act".to_owned(), parameters: Json::Null };
    let mut runner = runner(flow(vec![("entry", node(vec![act], &[]))]), &mock);
    mock.step(&mut runner);
    mock.step(&mut runner);
    assert_eq!(runner.progress().message, "re-observe");
    assert_eq!(runner.progress().action_index, None);
    mock.step(&mut runner);
    assert_eq!(runner.progress().message, "node matched");
    assert_eq!(mock.captures, 2);
}

#[test]
fn failed_release_never_acknowledges_pause() {
    let mut mock = Mock::new();
    mock.fail_release = true;
    let mut runner = runner(flow(vec![("entry", node(vec![click()], &[]))]), &mock);
    mock.control.pause();
    mock.step(&mut runner);
    assert_eq!(mock.control.pause, PauseState::Requested);
    assert_eq!(runner.progress().status, Status::Failed);
    let fault = runner.fault().as_ref().unwrap();
    assert!(fault.message().contains("release failed"));
    let control = ExecutionControl::default();
    assert!(matches!(
        finish(&runner, &control, mock.now),
        Err(AdapterError::CleanupFailed(_))
    ));
}

#[test]
fn a_failed_release_after_an_error_tells_both() {
    let mut mock = Mock::new();
    mock.fail_input = true;
    mock.fail_release = true;
    let mut runner = runner(flow(vec![("entry", node(vec![click()], &[]))]), &mock);
    mock.step(&mut runner);
    mock.step(&mut runner);
    assert_eq!(
        runner.progress().message,
        "backend failed: lost window; input cleanup failed: backend failed: release failed"
    );
}

#[test]
fn flow_errors_keep_their_meaning_for_adapters() {
    let cases = [
        (Error::Cancelled, "cancelled"),
        (Error::Backend("x".to_owned()), "backend failed: x"),
        (Error::Unsupported("x".to_owned()), "unsupported capability: x"),
    ];
    for (error, detail) in cases {
        assert!(map_error(&error).message().contains(detail) || matches!(error, Error::Cancelled));
    }
    assert!(matches!(map_error(&Error::TimedOut), AdapterError::TimedOut));
    assert!(matches!(map_error(&Error::Invalid("x".to_owned())), AdapterError::Invalid(_)));
    assert!(matches!(
        map_error(&Error::Cleanup("x".to_owned())),
        AdapterError::CleanupFailed(_)
    ));
}

#[test]
fn a_bridge_hands_a_pause_over_and_back() {
    let mut bridge = Bridge::Watching;
    let mut task = PauseState::Running;
    let mut flow = Control::new();
    bridge.relay(false, &mut task, &mut flow);
    assert_eq!(bridge, Bridge::Watching);
    task.request();
    bridge.relay(false, &mut task, &mut flow);
    assert_eq!((bridge, task), (Bridge::Holding, PauseState::Requested));
    assert!(flow.is_pause_requested());
    bridge.relay(false, &mut task, &mut flow);
    assert_eq!(task, PauseState::Requested);
    flow.acknowledge_pause();
    bridge.relay(false, &mut task, &mut flow);
    assert_eq!((bridge, task), (Bridge::Held, PauseState::Acknowledged));
    task.resume();
    bridge.relay(false, &mut task, &mut flow);
    assert_eq!(bridge, Bridge::Watching);
    assert!(!flow.is_pause_requested());
    bridge.relay(true, &mut task, &mut flow);
    assert!(flow.check().is_err());
    assert_eq!(bridge, Bridge::Closed);
}

#[test]
fn relative_roi_tracks_frame_size_and_action_target() {
    let recognizers = Recognizers::new();
    let half = double(0.5);
    let recognition = Recognition::ColorMatch {
        roi: Some(Roi::Relative { x: half, y: half, width: half, height: half }),
        lower: [255, 0, 0],
        upper: [255, 0, 0],
        min_ratio: double(1.0),
    };
    for (width, height) in [(8u32, 4u32), (16, 8)] {
        let mut rgb = vec![0; (width * height * 3) as usize];
        for y in height / 2..height {
            for x in width / 2..width {
                rgb[((y * width + x) * 3) as usize] = 255;
            }
        }
        let frame = Frame::new(width, height, rgb).unwrap();
        let result = recognize(&recognizers, &recognition, &frame, &mut no_backend).unwrap();
        assert!(result.matched());
        let point = Target::Match { index: 0 }.resolve(&result).unwrap();
        assert_eq!((point.x, point.y), ((width * 3 / 4) as i32, (height * 3 / 4) as i32));
        let missing = Target::Match { index: 1 }.resolve(&result).unwrap_err();
        assert!(missing.message().contains("missing match bounds at index 1"));
    }
}

#[test]
fn ocr_extension_receives_resolved_roi_without_needing_real_ocr_backend() {
    let mut recognizers = Recognizers::new();
    recognizers.register_algorithm(Algorithm::Ocr).unwrap();
    assert!(recognizers.register_algorithm(Algorithm::Ocr).is_err());
    let mut parameters = Json::object();
    parameters.set("text", Json::text("继续"));
    let recognition = Recognition::Algorithm {
        algorithm: Algorithm::Ocr,
        roi: Some(Roi::Relative {
            x: double(0.0),
            y: double(0.5),
            width: double(1.0),
            height: double(0.5),
        }),
        parameters,
    };
    let frame = Frame::new(10, 8, vec![0; 240]).unwrap();
    let result = recognize(&recognizers, &recognition, &frame, &mut text_backend).unwrap();
    let detection = &result.matches[0];
    let bounds = detection.bounds.unwrap();
    assert_eq!((bounds.x, bounds.y, bounds.width, bounds.height), (0, 4, 10, 4));
    assert_eq!(detection.text.as_deref(), Some("继续"));
    assert_eq!(detection.score, Some(double(0.9)));
}

#[test]
fn roi_rejects_invalid_geometry_and_rounds_outward() {
    let frame = Frame::new(3, 3, vec![0; 27]).unwrap();
    let resolve = |roi: Roi| find_region(&frame, Some(roi), pixels(Some(roi), &frame));
    let relative = |x: f64, y: f64, width: f64, height: f64| Roi::Relative {
        x: double(x),
        y: double(y),
        width: double(width),
        height: double(height),
    };
    let region = resolve(relative(0.5, 0.5, 0.5, 0.5)).unwrap();
    assert_eq!((region.x, region.y, region.width, region.height), (1, 1, 2, 2));
    for roi in [
        relative(f64::NAN, 0.0, 1.0, 1.0),
        relative(0.0, 0.0, 0.0, 1.0),
        relative(0.5, 0.0, 0.6, 1.0),
        Roi::Fixed { rect: Rect { x: 2, y: 0, width: 2, height: 1 } },
    ] {
        assert!(resolve(roi).is_err());
    }
}

#[test]
fn detections_outside_the_frame_or_without_a_number_are_errors() {
    let frame = Frame::new(2, 2, vec![0; 12]).unwrap();
    let outside = Rect { x: 1, y: 0, width: 2, height: 1 };
    let found = RecognitionResult::region(outside, double(1.0));
    assert_eq!(
        check_result(&frame, found).unwrap_err().message(),
        "invalid automation configuration: ROI outside frame"
    );
    let inside = Rect { x: 0, y: 0, width: 2, height: 2 };
    for score in [f64::NAN, f64::INFINITY] {
        let found = RecognitionResult::region(inside, double(score));
        assert_eq!(
            check_result(&frame, found).unwrap_err().message(),
            "backend failed: non-finite recognition score"
        );
    }
    let found = RecognitionResult::region(inside, double(-1.0));
    assert!(check_result(&frame, found.dup()).unwrap().matched());
}

#[test]
fn color_counts_and_ratios_are_exact() {
    let rgb = vec![10, 20, 30, 11, 20, 30, 10, 20, 31, 10, 20, 30];
    let frame = Frame::new(2, 2, rgb).unwrap();
    let whole = frame.region(None).unwrap();
    assert_eq!(frame.count_color(whole, [10, 20, 30], [10, 20, 30]), 2);
    assert_eq!(frame.count_color(whole, [10, 20, 30], [11, 20, 30]), 3);
    let left = Rect { x: 0, y: 0, width: 1, height: 2 };
    assert_eq!(frame.count_color(left, [10, 20, 30], [10, 20, 30]), 1);
    assert!(color_result(whole, double(0.5), double(0.5)).matched());
    assert!(color_result(whole, double(0.5), double(-0.0)).matched());
    assert!(!color_result(whole, double(0.5), double(0.500000001)).matched());
    let numbers = [-1.5, -0.0, 0.0, 0.3, 1.0, f64::INFINITY, f64::NEG_INFINITY, f64::NAN];
    for a in numbers {
        for b in numbers {
            assert_eq!(color_result(whole, double(a), double(b)).matched(), a >= b);
            assert_eq!(double(a).is_below(double(b)), a < b);
        }
    }
}

#[test]
fn names_of_backends_and_handlers_are_taken_once() {
    let mut recognizers = Recognizers::new();
    recognizers.register_custom("a".to_owned()).unwrap();
    for name in ["a", " "] {
        assert!(recognizers
            .register_custom(name.to_owned())
            .unwrap_err()
            .message()
            .ends_with(&format!("duplicate or empty recognizer: {name}")));
    }
    let mut actions = Actions::new();
    actions.register("b".to_owned()).unwrap();
    assert!(actions
        .register("b".to_owned())
        .unwrap_err()
        .message()
        .ends_with("duplicate or empty action: b"));
}

/// A device that holds a key, in a task that can be paused and stopped.
struct Held {
    now: u128,
    held: bool,
    presses: u32,
    stalled: bool,
    control: ExecutionControl,
    pause: PauseState,
    flow: Control,
    bridge: Bridge,
}

impl Held {
    fn new() -> Self {
        Held {
            now: START,
            held: false,
            presses: 0,
            stalled: false,
            control: ExecutionControl::default(),
            pause: PauseState::Running,
            flow: Control::new(),
            bridge: Bridge::Watching,
        }
    }

    fn relay(&mut self) {
        let stop = self.control.check(self.now).is_err();
        self.bridge.relay(stop, &mut self.pause, &mut self.flow);
    }

    /// Runs a flow; `on_press` is what the task is told while the key is held.
    fn run(
        &mut self,
        runner: &mut Runner,
        on_press: fn(&mut Held),
    ) -> Result<actweave::runner::Progress, AdapterError> {
        let mut steered = false;
        while runner.progress().status == Status::Running && runner.fault().is_none() {
            self.relay();
            runner.step(&self.flow, self.now);
            let mut frame = None;
            while runner.phase() != Phase::Ready {
                match runner.phase() {
                    Phase::Capturing => {
                        self.now = self.now.max(runner.next_poll());
                        let color = if self.presses == 0 { 255 } else { 0 };
                        frame = Some(Frame::new(1, 1, vec![color, 0, 0]).unwrap());
                        runner.captured(Ok(()), self.now);
                    }
                    Phase::Recognizing { .. } => {
                        let frame = frame.as_ref().unwrap();
                        let found = recognize(
                            &Recognizers::new(),
                            runner.recognition(),
                            frame,
                            &mut no_backend,
                        );
                        runner.recognized(frame, found, self.now);
                    }
                    Phase::Acting => match runner.command(&Actions::new()).unwrap() {
                        Command::Wait(ms) => {
                            if !steered {
                                steered = true;
                                on_press(self);
                                self.relay();
                            }
                            if self.flow.check().is_err() {
                                runner.interrupted(Interruption::Cancelled);
                            } else if self.flow.is_pause_requested() {
                                runner.interrupted(Interruption::Paused);
                            } else {
                                self.now += ms as u128 * MS;
                                runner.acted(Ok(ActionResult::Continue(Json::Null)), self.now);
                            }
                        }
                        Command::Input(Input::KeyDown(_)) => {
                            self.held = true;
                            self.presses += 1;
                            runner.acted(Ok(ActionResult::Continue(Json::Null)), self.now);
                        }
                        _ => {
                            self.held = false;
                            runner.acted(Ok(ActionResult::Continue(Json::Null)), self.now);
                        }
                    },
                    Phase::ReportingFailed | Phase::ReportingPaused { .. } => {
                        runner.reported(self.now);
                    }
                    Phase::Paused { .. } => {
                        self.flow.acknowledge_pause();
                        self.relay();
                        assert_eq!(self.pause, PauseState::Acknowledged);
                        assert!(!self.held);
                        self.pause.resume();
                        self.relay();
                        runner.resumed(self.now);
                    }
                    _ => {
                        let reply = if self.stalled {
                            Err(Error::Backend("input cleanup timed out".to_owned()))
                        } else {
                            self.held = false;
                            Ok(())
                        };
                        runner.released(reply, self.now);
                    }
                }
            }
        }
        finish(runner, &self.control, self.now)
    }
}

fn key_runner() -> Runner {
    let key = || "W".to_owned();
    let mut entry = node(
        vec![
            Action::KeyDown { key: key() },
            Action::Wait { duration_ms: 200 },
            Action::KeyUp { key: key() },
        ],
        &["confirmed"],
    );
    entry.on_interrupted = vec!["confirmed".to_owned(), "entry".to_owned()];
    entry.timeout_ms = 1000;
    let mut confirmed = node(vec![], &[]);
    confirmed.recognition = color([0, 0, 0], 1.0);
    confirmed.timeout_ms = 1000;
    let mut pipeline = flow(vec![("entry", entry), ("confirmed", confirmed)]);
    pipeline.poll_interval_ms = 1;
    Runner::new(pipeline, &Recognizers::new(), &Actions::new(), START).unwrap()
}

#[test]
fn pause_releases_held_input_before_ack_and_resumes_from_new_observation() {
    let mut device = Held::new();
    let mut runner = key_runner();
    let result = device.run(&mut runner, |device| device.pause.request());
    assert_eq!(result.unwrap().status, Status::Completed);
    assert_eq!(device.presses, 1);
    assert!(!device.held);
}

#[test]
fn cancellation_releases_input_without_replaying_the_command() {
    let mut device = Held::new();
    let mut runner = key_runner();
    let result = device.run(&mut runner, |device| device.control.cancellation.cancel());
    assert!(matches!(result, Err(AdapterError::Cancelled)));
    assert_eq!(device.presses, 1);
    assert!(!device.held);
}

#[test]
fn stalled_release_fails_instead_of_leaving_pause_pending_forever() {
    let mut device = Held::new();
    device.stalled = true;
    let mut runner = key_runner();
    let result = device.run(&mut runner, |device| device.pause.request());
    assert!(matches!(result, Err(AdapterError::CleanupFailed(_))));
    assert_ne!(device.pause, PauseState::Acknowledged);
    assert_eq!(runner.progress().status, Status::Failed);
}

#[test]
fn targets_need_only_the_detection_that_they_name() {
    let far = Rect { x: i32::MAX, y: 0, width: 4, height: 1 };
    let near = Rect { x: 2, y: 3, width: 4, height: 6 };
    let mut result = RecognitionResult::region(far, double(1.0));
    result.matches.extend(RecognitionResult::region(near, double(1.0)).matches);
    let point = Target::Point { point: Point { x: 7, y: 8 } };
    assert!(matches!(point.resolve(&result), Ok(Point { x: 7, y: 8 })));
    let named = Target::Match { index: 1 };
    assert!(matches!(named.resolve(&result), Ok(Point { x: 4, y: 6 })));
    assert!(Target::Match { index: 2 }.resolve(&result).is_err());
    let click = Action::Click { target: named };
    assert!(matches!(
        Actions::new().execute(&click, &result),
        Ok(Command::Input(Input::Click(Point { x: 4, y: 6 })))
    ));
}
