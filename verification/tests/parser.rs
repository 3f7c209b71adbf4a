use task_sh::classify::CommandConfidence;
use task_sh::parse::{dedup_alternatives, extract_after_prefix, parse_completion_content, parse_list_command};

#[test]
fn parses_command_and_explanation() {
    let raw = "Command: echo hello\nExplanation: Prints a greeting";
    let parsed = parse_completion_content(raw).expect("should parse");

    assert_eq!(parsed.command, "echo hello");
    assert_eq!(parsed.explanation, "Prints a greeting");
    assert!(parsed
        .alternatives
        .iter()
        .all(|alt| !alt.to_lowercase().contains("command")));
    assert_eq!(parsed.confidence, CommandConfidence::Certain);
}

#[test]
fn missing_command_line_errors() {
    let parsed = parse_completion_content("Explanation: hi").expect("fallback should handle");
    assert_eq!(parsed.command, "Explanation: hi");
    assert_eq!(parsed.explanation, "hi");
    assert!(parsed.alternatives.is_empty());
    assert_eq!(parsed.confidence, CommandConfidence::Certain);
}

#[test]
fn empty_reply_is_a_parse_error() {
    let err = parse_completion_content("").expect_err("nothing to extract");
    assert!(err.message().contains("missing 'Command:' line"));
}

#[test]
fn code_block_supplies_the_command() {
    let raw = "```\nls -la\n```\nLists everything";
    let parsed = parse_completion_content(raw).expect("should parse");
    assert_eq!(parsed.command, "ls -la");
    assert_eq!(parsed.explanation, "Lists everything");
}

#[test]
fn unclosed_code_block_still_supplies_the_command() {
    let raw = "```\ndu -sh *";
    let parsed = parse_completion_content(raw).expect("should parse");
    assert_eq!(parsed.command, "du -sh *");
}

#[test]
fn second_code_block_becomes_body_text() {
    let raw = "```\nls\n```\n```\npwd\n```";
    let parsed = parse_completion_content(raw).expect("should parse");
    assert_eq!(parsed.command, "ls");
    assert_eq!(parsed.explanation, "pwd");
}

#[test]
fn commands_list_collects_alternatives() {
    let raw = "Command: ls\nCommands:\n- ls -la\n- du -sh .\nExplanation: pick one";
    let parsed = parse_completion_content(raw).expect("should parse");
    assert_eq!(parsed.command, "ls");
    assert_eq!(parsed.alternatives, vec!["ls -la".to_string(), "du -sh .".to_string()]);
    assert_eq!(parsed.explanation, "pick one");
}

#[test]
fn numbered_list_lines_are_accepted() {
    assert_eq!(parse_list_command("1. ls -la"), Some("ls -la".to_string()));
    assert_eq!(parse_list_command("2) du -sh"), Some("du -sh".to_string()));
    assert_eq!(parse_list_command("- pwd"), Some("pwd".to_string()));
}

#[test]
fn filler_list_lines_are_rejected() {
    assert_eq!(parse_list_command("- the best option"), None);
    assert_eq!(parse_list_command("1. # just a comment"), None);
    assert_eq!(parse_list_command("plain text"), None);
    assert_eq!(parse_list_command("3."), None);
}

#[test]
fn blank_line_ends_list_mode() {
    let raw = "Command: ls\nCommands:\n- ls -la\n\n- du -sh";
    let parsed = parse_completion_content(raw).expect("should parse");
    assert_eq!(parsed.alternatives, vec!["ls -la".to_string()]);
}

#[test]
fn alternatives_dedup_collapses_case_insensitively() {
    let alts = vec![
        "ls -la".to_string(),
        "LS -LA".to_string(),
        "ls -la".to_string(),
    ];
    let kept = dedup_alternatives(&alts, "ls");
    assert_eq!(kept, vec!["ls -la".to_string()]);
}

#[test]
fn alternatives_equal_to_the_command_are_dropped() {
    let alts = vec!["LS".to_string(), "du -sh".to_string()];
    let kept = dedup_alternatives(&alts, "ls");
    assert_eq!(kept, vec!["du -sh".to_string()]);
}

#[test]
fn first_body_line_is_promoted_to_command() {
    let raw = "du -sh *\nShows disk usage";
    let parsed = parse_completion_content(raw).expect("should parse");
    assert_eq!(parsed.command, "du -sh *");
    assert_eq!(parsed.explanation, "Shows disk usage");
}

#[test]
fn marker_values_are_extracted_after_the_colon() {
    assert_eq!(
        extract_after_prefix("command: echo hi", "Command: echo hi", "command:"),
        Some("echo hi".to_string())
    );
    assert_eq!(
        extract_after_prefix("command:", "Command:", "command:"),
        None
    );
    assert_eq!(
        extract_after_prefix("explanation: x", "Explanation: x", "command:"),
        None
    );
}

#[test]
fn marker_without_a_value_falls_through_to_body() {
    let raw = "Command:\nls -la";
    let parsed = parse_completion_content(raw).expect("should parse");
    assert_eq!(parsed.command, "Command:");
    assert_eq!(parsed.confidence, CommandConfidence::NeedsConfirmation);
    assert_eq!(parsed.explanation, "ls -la");
}

#[test]
fn markers_are_recognised_in_any_case() {
    let parsed = parse_completion_content("COMMAND: ls -la\nEXPLANATION: lists").expect("parses");
    assert_eq!(parsed.command, "ls -la");
    assert_eq!(parsed.explanation, "lists");
}

#[test]
fn carriage_returns_are_stripped_with_their_newlines() {
    let parsed =
        parse_completion_content("Command: ls\r\nExplanation: lists\r\n").expect("parses");
    assert_eq!(parsed.command, "ls");
    assert_eq!(parsed.explanation, "lists");
}
