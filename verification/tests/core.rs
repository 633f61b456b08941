use lai::catalog::Model;
use lai::catalog::Models;
use lai::catalog::Parameter;
use lai::dispatch::Route;
use lai::dispatch::route;
use lai::validate::LaunchError;
use lai::validate::pair_args;
use lai::validate::validate_pairs;

fn param(switch: &str, explanation: &str) -> Parameter {
    Parameter { switch: String::from(switch), explanation: String::from(explanation) }
}

fn model(name: &str, url: &str) -> Model {
    Model {
        name: String::from(name),
        version: String::from("1.0"),
        url: String::from(url),
        server_url: String::from(url),
        parameters: vec![param("temp", "sampling temperature"), param("p", "prompt")],
    }
}

fn catalog() -> Models {
    Models {
        available: vec![
            model("Mistral", "https://example.org/files/mistral.bin"),
            model("Llava", "https://example.org/files/llava.bin"),
        ],
    }
}

fn args(xs: &[&str]) -> Vec<String> {
    xs.iter().map(|x| String::from(*x)).collect()
}

#[test]
fn listing_names_in_order_each_once() {
    let c = catalog();
    let names = c.names();
    assert_eq!(names, vec![String::from("Mistral"), String::from("Llava")]);
    assert!(c.check_names_unique());
}

#[test]
fn duplicate_names_detected() {
    let c = Models { available: vec![model("A", "u"), model("A", "u")] };
    assert!(!c.check_names_unique());
}

#[test]
fn contains_and_find() {
    let c = catalog();
    assert!(c.contains_name(&String::from("Llava")));
    assert!(!c.contains_name(&String::from("GPT")));
    let found = c.find(&String::from("Mistral")).expect("model is present");
    assert_eq!(found.name, String::from("Mistral"));
    assert!(c.find(&String::from("GPT")).is_none());
}

#[test]
fn add_model_appends() {
    let mut c = Models::default();
    assert_eq!(c.len(), 0);
    c.add_model(&model("New", "https://example.org/new.bin"));
    assert_eq!(c.len(), 1);
    assert_eq!(c.available[0].name, String::from("New"));
}

#[test]
fn clone_preserves_catalog() {
    let c = catalog();
    let d = c.clone();
    assert_eq!(c, d);
}

#[test]
fn empty_value_rejected() {
    let m = model("Mistral", "u");
    let pairs = vec![(String::from("p"), String::from(""))];
    let r = validate_pairs(&m, &pairs);
    assert_eq!(r, Err(LaunchError::EmptyValue(String::from("p"))));
}

#[test]
fn unknown_switch_rejected() {
    let m = model("Mistral", "u");
    let pairs = vec![(String::from("bogus"), String::from("x"))];
    let r = validate_pairs(&m, &pairs);
    assert_eq!(r, Err(LaunchError::UnknownSwitch(String::from("bogus"))));
}

#[test]
fn validation_short_circuits_on_first_fault() {
    let m = model("Mistral", "u");
    let pairs = vec![
        (String::from("p"), String::from("fine")),
        (String::from("bogus"), String::from("")),
        (String::from("also-bogus"), String::from("x")),
    ];
    let r = validate_pairs(&m, &pairs);
    assert_eq!(r, Err(LaunchError::UnknownSwitch(String::from("bogus"))));
}

#[test]
fn valid_pairs_accepted() {
    let m = model("Mistral", "u");
    let pairs = vec![
        (String::from("temp"), String::from("0.7")),
        (String::from("p"), String::from("hello")),
    ];
    assert_eq!(validate_pairs(&m, &pairs), Ok(()));
}

#[test]
fn odd_argument_count_is_malformed() {
    let r = pair_args(&args(&["p", "hi", "dangling"]));
    assert_eq!(r, Err(LaunchError::MalformedArguments));
}

#[test]
fn even_arguments_pair_up() {
    let r = pair_args(&args(&["p", "hi", "temp", "0.7"])).expect("even count pairs up");
    assert_eq!(
        r,
        vec![
            (String::from("p"), String::from("hi")),
            (String::from("temp"), String::from("0.7")),
        ]
    );
    let empty = pair_args(&args(&[])).expect("no arguments pair up to nothing");
    assert_eq!(empty, Vec::<(String, String)>::new());
}

#[test]
fn exit_codes_distinct_and_nonzero() {
    let errors = vec![
        LaunchError::ConfigMissing,
        LaunchError::ConfigMalformed,
        LaunchError::UnknownSwitch(String::from("x")),
        LaunchError::EmptyValue(String::from("x")),
        LaunchError::MalformedArguments,
        LaunchError::DownloadFailed,
        LaunchError::InvalidOutputEncoding,
        LaunchError::SpawnFailed,
    ];
    let codes: Vec<u8> = errors.iter().map(|e| e.exit_code()).collect();
    for (i, a) in codes.iter().enumerate() {
        assert_ne!(*a, 0);
        for b in codes.iter().skip(i + 1) {
            assert_ne!(*a, *b);
        }
    }
}

#[test]
fn error_message_names_switch_and_model() {
    let e = LaunchError::UnknownSwitch(String::from("bogus"));
    assert_eq!(
        e.message(&String::from("Mistral")),
        String::from("bogus invalid model parameter, to view valid parameters use ./lai Mistral params")
    );
    let e2 = LaunchError::EmptyValue(String::from("p"));
    assert_eq!(
        e2.message(&String::from("Llava")),
        String::from("p invalid model parameter value, to view valid parameters use ./lai Llava params")
    );
}

#[test]
fn route_no_arguments() {
    let c = catalog();
    assert!(matches!(route(&args(&["lai"]), &c), Route::Usage));
    assert!(matches!(route(&args(&[]), &c), Route::Usage));
}

#[test]
fn route_builtin_commands() {
    let c = catalog();
    assert!(matches!(route(&args(&["lai", "help"]), &c), Route::Help));
    assert!(matches!(route(&args(&["lai", "test"]), &c), Route::Test));
    assert!(matches!(route(&args(&["lai", "list"]), &c), Route::List { cached: false }));
    assert!(matches!(route(&args(&["lai", "list", "all"]), &c), Route::List { cached: true }));
    assert!(matches!(route(&args(&["lai", "nonsense"]), &c), Route::Unknown));
}

#[test]
fn route_model_commands() {
    let c = catalog();
    match route(&args(&["lai", "Mistral", "params"]), &c) {
        Route::Params { name } => assert_eq!(name, String::from("Mistral")),
        other => panic!("expected the params route, got {:?}", other),
    }
    match route(&args(&["lai", "Mistral", "run", "p", "hi"]), &c) {
        Route::Invoke { name, mode, trailing } => {
            assert_eq!(name, String::from("Mistral"));
            assert_eq!(mode, lai::command::ModelType::CLI);
            assert_eq!(trailing, args(&["p", "hi"]));
        },
        other => panic!("expected the run route, got {:?}", other),
    }
    match route(&args(&["lai", "Llava", "serve"]), &c) {
        Route::Invoke { name, mode, trailing } => {
            assert_eq!(name, String::from("Llava"));
            assert_eq!(mode, lai::command::ModelType::Server);
            assert!(trailing.is_empty());
        },
        other => panic!("expected the serve route, got {:?}", other),
    }
    assert!(matches!(
        route(&args(&["lai", "Mistral"]), &c),
        Route::MissingModelCommand { name: _ }
    ));
    assert!(matches!(
        route(&args(&["lai", "Mistral", "bogus"]), &c),
        Route::BadModelCommand { name: _ }
    ));
}
