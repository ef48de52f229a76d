use actweave::demo::DemoAdapter;
use actweave::demo_runtime::Scenario;
use actweave::feature::{Choice, Feature, Parameter, ParameterKind};
use actweave::json::Json;

fn json(text: &str) -> Json {
    Json::parse(text).unwrap()
}

fn parameter(id: &str, name: &str, kind: ParameterKind, default: &str) -> Parameter {
    Parameter { id: id.to_owned(), name: name.to_owned(), kind, default: Some(json(default)) }
}

fn feature() -> Feature {
    Feature {
        id: "test".to_owned(),
        name: "Test".to_owned(),
        description: String::new(),
        parameters: vec![
            parameter("times", "次数", ParameterKind::Integer { min: 1, max: 100 }, "10"),
            parameter("text", "文字", ParameterKind::String, "\"\""),
            parameter("enabled", "启用", ParameterKind::Boolean, "true"),
            parameter(
                "mode",
                "模式",
                ParameterKind::Enum {
                    choices: vec![Choice {
                        value: "safe".to_owned(),
                        label: "安全".to_owned(),
                    }],
                },
                "\"safe\"",
            ),
        ],
    }
}

#[test]
fn validates_types_defaults_and_cli_values() {
    let f = feature();
    assert_eq!(f.resolve(&json("{}")).unwrap().get("times").unwrap().to_text(), "10");
    let input = f
        .parse_arguments(&vec![
            "text=123".to_owned(),
            "enabled=false".to_owned(),
            "times=2".to_owned(),
        ])
        .unwrap();
    assert_eq!(input.get("text").unwrap().as_text(), Some("123"));
    assert_eq!(input.get("enabled").unwrap().to_text(), "false");
    for bad in [
        r#"{"times":0}"#,
        r#"{"times":1.5}"#,
        r#"{"times":"2"}"#,
        r#"{"mode":"bad"}"#,
        r#"{"extra":1}"#,
    ] {
        assert!(f.resolve(&json(bad)).is_err());
    }
    assert!(f.parse_arguments(&vec!["times=1".to_owned(), "times=2".to_owned()]).is_err());
}

#[test]
fn resolving_what_was_resolved_changes_nothing() {
    let f = feature();
    let once = f.resolve(&json(r#"{"mode":"safe","times":7}"#)).unwrap();
    let twice = f.resolve(&once).unwrap();
    assert!(once.same(&twice));
    assert_eq!(once.to_text(), r#"{"enabled":true,"mode":"safe","text":"","times":7}"#);
}

#[test]
fn features_that_contradict_themselves_are_rejected() {
    let broken = |change: fn(&mut Feature)| {
        let mut f = feature();
        change(&mut f);
        f.validate().unwrap_err().message()
    };
    broken(|f| f.id = " ".to_owned());
    broken(|f| f.parameters[1].id = "times".to_owned());
    broken(|f| f.parameters[0].default = Some(Json::Unsigned(0)));
    broken(|f| f.parameters[0].kind = ParameterKind::Integer { min: 2, max: 1 });
    broken(|f| f.parameters[3].kind = ParameterKind::Enum { choices: vec![] });
    assert!(feature().validate().is_ok());
}

#[test]
fn the_demo_prepares_its_only_feature() {
    let adapter = DemoAdapter::new(Scenario::Normal);
    assert_eq!(adapter.features().len(), 1);
    let request = adapter.prepare_feature("repeat_trial", &json("{}")).unwrap();
    match request.actions.as_slice() {
        [actweave::api::Action::Repeat(repeat)] => {
            assert_eq!(repeat.times, 10);
            assert_eq!(repeat.call.name, "perform_trial");
        }
        _ => panic!("a repetition was asked for"),
    }
    let unknown = adapter.prepare_feature("fly", &json("{}")).unwrap_err();
    assert!(unknown.message().contains("unknown feature: fly"));
    for bad in [r#"{"times":101}"#, r#"{"times":-1}"#, "[]", r#"{"more":1}"#] {
        assert!(adapter.prepare_feature("repeat_trial", &json(bad)).is_err());
    }
}
