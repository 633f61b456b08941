use lai::catalog::Model;
use lai::catalog::Models;
use lai::catalog::Parameter;
use lai::command::ModelType;
use lai::command::build_command;
use lai::command::file_name_of;
use lai::pipeline::plan_invocation;
use lai::validate::LaunchError;

fn param(switch: &str, explanation: &str) -> Parameter {
    Parameter { switch: String::from(switch), explanation: String::from(explanation) }
}

fn mistral() -> Model {
    Model {
        name: String::from("Mistral"),
        version: String::from("0.1"),
        url: String::from("https://example.org/files/mistral-7b.llamafile"),
        server_url: String::from("https://example.org/files/mistral-7b-server.llamafile"),
        parameters: vec![param("temp", "sampling temperature"), param("p", "prompt")],
    }
}

fn llava() -> Model {
    Model {
        name: String::from("Llava"),
        version: String::from("1.5"),
        url: String::from(
            "https://huggingface.co/jartine/llava-v1.5-7B-GGUF/resolve/main/llava-v1.5-7b-q4-main.llamafile",
        ),
        server_url: String::from(
            "https://huggingface.co/jartine/llava-v1.5-7B-GGUF/resolve/main/llava-v1.5-7b-q4-server.llamafile",
        ),
        parameters: vec![param("p", "prompt")],
    }
}

fn pairs(xs: &[(&str, &str)]) -> Vec<(String, String)> {
    xs.iter().map(|(a, b)| (String::from(*a), String::from(*b))).collect()
}

#[test]
fn file_name_is_last_path_segment() {
    assert_eq!(
        file_name_of(&String::from("https://example.org/files/mistral-7b.llamafile")),
        String::from("mistral-7b.llamafile")
    );
    assert_eq!(file_name_of(&String::from("bare-name")), String::from("bare-name"));
    assert_eq!(file_name_of(&String::from("dir/")), String::from(""));
}

#[test]
fn temp_switch_goes_unquoted() {
    let cmd = build_command(&mistral(), &pairs(&[("temp", "0.7")]), ModelType::CLI);
    assert_eq!(cmd, String::from("./mistral-7b.llamafile --temp 0.7"));
    assert!(cmd.contains("--temp 0.7"));
}

#[test]
fn ordinary_switch_goes_dashed_and_quoted() {
    let cmd = build_command(&mistral(), &pairs(&[("p", "hello world")]), ModelType::CLI);
    assert_eq!(cmd, String::from("./mistral-7b.llamafile -p \"hello world\""));
    assert!(cmd.contains("-p \"hello world\""));
}

#[test]
fn server_mode_uses_server_url() {
    let cmd = build_command(&mistral(), &pairs(&[]), ModelType::Server);
    assert_eq!(cmd, String::from("./mistral-7b-server.llamafile"));
}

#[test]
fn llava_always_gets_silent_prompt_tail() {
    let with_params = build_command(&llava(), &pairs(&[("p", "hi")]), ModelType::CLI);
    assert!(with_params.ends_with(" --silent-prompt 2>/dev/null"));
    let without_params = build_command(&llava(), &pairs(&[]), ModelType::CLI);
    assert_eq!(
        without_params,
        String::from("./llava-v1.5-7b-q4-main.llamafile --silent-prompt 2>/dev/null")
    );
    let serve = build_command(&llava(), &pairs(&[]), ModelType::Server);
    assert!(serve.ends_with(" --silent-prompt 2>/dev/null"));
}

#[test]
fn non_llava_gets_no_tail() {
    let cmd = build_command(&mistral(), &pairs(&[]), ModelType::CLI);
    assert_eq!(cmd, String::from("./mistral-7b.llamafile"));
}

#[test]
fn run_on_empty_cache_downloads_then_invokes() {
    let model = llava();
    let cached = Models::default();
    let trailing = vec![String::from("p"), String::from("hi")];
    let plan = plan_invocation(&model, &cached, &trailing, ModelType::CLI)
        .expect("valid pairs plan an invocation");
    let fetch = plan.fetch.expect("an uncached model is fetched");
    assert_eq!(
        fetch.download_cmd,
        String::from(
            "wget https://huggingface.co/jartine/llava-v1.5-7B-GGUF/resolve/main/llava-v1.5-7b-q4-main.llamafile"
        )
    );
    assert_eq!(fetch.chmod_cmd, String::from("chmod +x llava-v1.5-7b-q4-main.llamafile"));
    assert_eq!(
        plan.command,
        String::from("./llava-v1.5-7b-q4-main.llamafile -p \"hi\" --silent-prompt 2>/dev/null")
    );
}

#[test]
fn cached_model_is_not_fetched_again() {
    let model = llava();
    let mut cached = Models::default();
    let trailing = vec![String::from("p"), String::from("hi")];
    let first = plan_invocation(&model, &cached, &trailing, ModelType::CLI)
        .expect("valid pairs plan an invocation");
    assert!(first.fetch.is_some());
    cached.add_model(&model);
    let second = plan_invocation(&model, &cached, &trailing, ModelType::CLI)
        .expect("valid pairs plan an invocation");
    assert!(second.fetch.is_none());
    let third = plan_invocation(&model, &cached, &trailing, ModelType::Server)
        .expect("valid pairs plan an invocation");
    assert!(third.fetch.is_none());
}

#[test]
fn invalid_pairs_abort_before_any_fetch() {
    let model = llava();
    let cached = Models::default();
    let odd = vec![String::from("p")];
    assert!(matches!(
        plan_invocation(&model, &cached, &odd, ModelType::CLI),
        Err(LaunchError::MalformedArguments)
    ));
    let bogus = vec![String::from("bogus"), String::from("x")];
    match plan_invocation(&model, &cached, &bogus, ModelType::CLI) {
        Err(LaunchError::UnknownSwitch(s)) => assert_eq!(s, String::from("bogus")),
        other => panic!("expected an unknown-switch failure, got {:?}", other.is_ok()),
    }
    let empty = vec![String::from("p"), String::from("")];
    match plan_invocation(&model, &cached, &empty, ModelType::CLI) {
        Err(LaunchError::EmptyValue(s)) => assert_eq!(s, String::from("p")),
        other => panic!("expected an empty-value failure, got {:?}", other.is_ok()),
    }
}
