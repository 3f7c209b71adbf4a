use task_sh::classify::CommandConfidence;
use task_sh::errors::GenerationError;
use task_sh::generator::{
    complete_generation, plan_generation, resolve_reply_content, EnvSnapshot, GenerationPlan,
};
use task_sh::request::HostContext;

fn offline_env() -> EnvSnapshot {
    EnvSnapshot { fake_response: None, api_key: None, host: None }
}

#[test]
fn returns_hint_on_empty_description() {
    let result = match plan_generation("", "bash", None, None, &offline_env()) {
        GenerationPlan::Finished(r) => r.expect("empty descriptions should succeed"),
        GenerationPlan::Dispatch(_) => panic!("no network path for an empty description"),
    };

    assert!(result.cmd.contains("Please provide more details"));
    assert!(result.raw_response.is_none());
    assert_eq!(result.confidence, CommandConfidence::Certain);
    assert!(result.alternatives.is_empty());
}

#[test]
fn uses_fake_response_environment() {
    let env = EnvSnapshot {
        fake_response: Some("Command: ls\nExplanation: List files".to_string()),
        api_key: None,
        host: None,
    };
    let result = match plan_generation("list files recursively", "bash", None, None, &env) {
        GenerationPlan::Finished(r) => r.expect("fake response should succeed"),
        GenerationPlan::Dispatch(_) => panic!("fixture path must not dispatch"),
    };

    assert_eq!(result.cmd, "ls");
    assert_eq!(result.explanation, "List files");
    assert!(result.raw_response.is_some());
    assert_eq!(result.confidence, CommandConfidence::Certain);
    assert!(result
        .alternatives
        .iter()
        .all(|alt| !alt.to_lowercase().contains("command")));
}

#[test]
fn fake_response_respects_safety_filters() {
    let env = EnvSnapshot {
        fake_response: Some("Command: rm -rf /\nExplanation: wipe".to_string()),
        api_key: None,
        host: None,
    };
    let result = match plan_generation("delete everything", "bash", None, None, &env) {
        GenerationPlan::Finished(r) => r.expect_err("should block unsafe command"),
        GenerationPlan::Dispatch(_) => panic!("fixture path must not dispatch"),
    };

    assert!(result.message().contains("blocked"));
}

#[test]
fn ambiguous_description_returns_guidance() {
    let result = match plan_generation("status", "bash", None, None, &offline_env()) {
        GenerationPlan::Finished(r) => r.expect("ambiguous prompts return guidance"),
        GenerationPlan::Dispatch(_) => panic!("no network path for a one-word description"),
    };

    assert!(result.cmd.starts_with('#'));
    assert_eq!(result.confidence, CommandConfidence::Certain);
}

#[test]
fn missing_credential_fails_fast() {
    let err = match plan_generation("list all files", "bash", None, None, &offline_env()) {
        GenerationPlan::Finished(r) => r.expect_err("no credential, no network"),
        GenerationPlan::Dispatch(_) => panic!("must not dispatch without a credential"),
    };
    assert_eq!(err, GenerationError::MissingApiKey);
    assert!(err.message().contains("OPENAI_API_KEY missing"));
}

#[test]
fn blank_credential_fails_fast() {
    let env = EnvSnapshot {
        fake_response: None,
        api_key: Some("   ".to_string()),
        host: None,
    };
    let err = match plan_generation("list all files", "bash", None, None, &env) {
        GenerationPlan::Finished(r) => r.expect_err("blank credential is refused"),
        GenerationPlan::Dispatch(_) => panic!("must not dispatch with a blank credential"),
    };
    assert_eq!(err, GenerationError::EmptyApiKey);
}

#[test]
fn usable_credential_dispatches_a_request() {
    let env = EnvSnapshot {
        fake_response: None,
        api_key: Some("sk-test-placeholder".to_string()),
        host: Some(HostContext {
            os: "linux".to_string(),
            arch: "x86_64".to_string(),
            shell: "zsh".to_string(),
        }),
    };
    let req = match plan_generation("list all files", "bash", None, Some("gpt-4o-mini"), &env) {
        GenerationPlan::Dispatch(req) => req,
        GenerationPlan::Finished(_) => panic!("a usable credential reaches the network path"),
    };
    assert_eq!(req.model, "gpt-4o-mini");
    assert_eq!(req.user_prompt, "Description: list all files");
    assert!(req.system_prompt.contains("You are an expert bash assistant."));
    assert!(req
        .system_prompt
        .contains("Host context: os=linux, arch=x86_64, shell=zsh."));
    assert_eq!(req.temperature_milli, 200);
}

#[test]
fn custom_system_prompt_overrides_the_template() {
    let env = EnvSnapshot {
        fake_response: None,
        api_key: Some("sk-test-placeholder".to_string()),
        host: None,
    };
    let req = match plan_generation("list all files", "bash", Some("be terse"), None, &env) {
        GenerationPlan::Dispatch(req) => req,
        GenerationPlan::Finished(_) => panic!("a usable credential reaches the network path"),
    };
    assert_eq!(req.system_prompt, "be terse");
    assert_eq!(req.model, "gpt-3.5-turbo");
}

#[test]
fn completing_a_reply_keeps_the_raw_text() {
    let reply = "Command: du -sh *\nExplanation: summarize disk usage";
    let done = complete_generation(reply).expect("parses and passes safety");
    assert_eq!(done.cmd, "du -sh *");
    assert_eq!(done.raw_response.as_deref(), Some(reply));
}

#[test]
fn blank_content_falls_back_to_tool_call_arguments() {
    let args = vec!["{\"cmd\":\"ls\"}".to_string(), "{\"cwd\":\".\"}".to_string()];
    let content = resolve_reply_content(Some("  ".to_string()), Some(args));
    assert_eq!(content, "{\"cmd\":\"ls\"}\n{\"cwd\":\".\"}");

    let kept = resolve_reply_content(Some("Command: ls".to_string()), None);
    assert_eq!(kept, "Command: ls");

    let blank = resolve_reply_content(Some("  ".to_string()), Some(vec![" ".to_string()]));
    assert_eq!(blank, "  ");
}
