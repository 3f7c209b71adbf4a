use task_sh::config::{updated_env_contents, AppConfig, FileConfig};
use task_sh::errors::GenerationError;
use task_sh::options::{command_options, executable_command, format_size};
use task_sh::retry::{compute_backoff_delay, retry_decision, timeout_failure_text, RetryDecision};
use task_sh::shell::Shell;

#[test]
fn backoff_grows_and_respects_rate_limits() {
    assert_eq!(compute_backoff_delay("Rate limit exceeded", 0), 1000);
    assert_eq!(compute_backoff_delay("Rate limit exceeded", 1), 2000);
    assert_eq!(compute_backoff_delay("connection reset", 0), 300);
    assert_eq!(compute_backoff_delay("connection reset", 1), 600);
}

#[test]
fn final_attempt_gives_up_without_sleeping() {
    assert_eq!(retry_decision(2, "boom"), RetryDecision::GiveUp);
    assert_eq!(retry_decision(0, "boom"), RetryDecision::RetryAfterMs(300));
    assert_eq!(
        retry_decision(1, "rate limit hit"),
        RetryDecision::RetryAfterMs(2000)
    );
}

#[test]
fn timeout_failure_reads_like_the_backend_error() {
    assert_eq!(timeout_failure_text(), "Request timed out");
}

#[test]
fn choiceless_reply_has_its_own_message() {
    assert!(GenerationError::NoChoices
        .message()
        .contains("did not contain any choices"));
}

#[test]
fn exhaustion_error_wraps_the_last_cause() {
    let err = GenerationError::BackendExhausted { last_error: "Request timed out".to_string() };
    let msg = err.message();
    assert!(msg.contains("Failed to generate command after multiple attempts"));
    assert!(msg.contains("Request timed out"));
}

#[test]
fn apply_fills_only_unset_fields() {
    let mut cfg = AppConfig {
        default_shell: Some("zsh".to_string()),
        model: None,
        system_prompt: None,
        verbose: Some(false),
        spinner: None,
    };
    cfg.apply(FileConfig {
        default_shell: Some("bash".to_string()),
        model: Some("gpt-4o-mini".to_string()),
        system_prompt: None,
        verbose: Some(true),
        spinner: Some(false),
    });
    assert_eq!(cfg.default_shell.as_deref(), Some("zsh"));
    assert_eq!(cfg.model.as_deref(), Some("gpt-4o-mini"));
    assert_eq!(cfg.system_prompt, None);
    assert_eq!(cfg.verbose, Some(false));
    assert_eq!(cfg.spinner, Some(false));
}

#[test]
fn default_config_path_ends_with_the_dotfile() {
    if let Some(path) = AppConfig::default_path() {
        assert!(path.ends_with("/.task.toml"));
    }
}

#[test]
fn storing_a_new_key_appends_it() {
    let out = updated_env_contents("OTHER=\"1\"\n", "OPENAI_API_KEY", "sk-test-placeholder");
    assert_eq!(out, "OTHER=\"1\"\nOPENAI_API_KEY=\"sk-test-placeholder\"\n");
}

#[test]
fn storing_an_existing_key_replaces_its_line() {
    let contents = "OPENAI_API_KEY=\"old\"\nOTHER=\"1\"\n";
    let out = updated_env_contents(contents, "OPENAI_API_KEY", "new");
    assert_eq!(out, "OTHER=\"1\"\nOPENAI_API_KEY=\"new\"\n");
}

#[test]
fn shell_names_round_trip() {
    assert_eq!(Shell::Bash.as_str(), "bash");
    assert_eq!(Shell::Zsh.as_str(), "zsh");
    assert_eq!(Shell::from_str_case_insensitive("BASH"), Some(Shell::Bash));
    assert_eq!(Shell::from_str_case_insensitive("Zsh"), Some(Shell::Zsh));
    assert_eq!(Shell::from_str_case_insensitive("fish"), None);
}

#[test]
fn executable_command_skips_guidance() {
    assert_eq!(executable_command("  ls -la  "), Some("ls -la".to_string()));
    assert_eq!(executable_command("# guidance only"), None);
    assert_eq!(executable_command("   "), None);
}

#[test]
fn command_options_keep_first_occurrences() {
    let alts = vec!["du -sh".to_string(), "ls".to_string(), "# hint".to_string()];
    let opts = command_options("ls", &alts);
    assert_eq!(opts, vec!["ls".to_string(), "du -sh".to_string()]);
}

#[test]
fn guidance_primary_yields_only_real_alternatives() {
    let alts = vec!["du -sh".to_string()];
    let opts = command_options("# think first", &alts);
    assert_eq!(opts, vec!["du -sh".to_string()]);
}

#[test]
fn sizes_use_metric_units() {
    assert_eq!(format_size(0), "0 B");
    assert_eq!(format_size(999), "999 B");
    assert_eq!(format_size(1000), "1 KB");
    assert_eq!(format_size(2500000), "2 MB");
    assert_eq!(format_size(3000000000), "3 GB");
    assert_eq!(format_size(123456), "123 KB");
    assert_eq!(format_size(u64::MAX), "18446744073 GB");
}
