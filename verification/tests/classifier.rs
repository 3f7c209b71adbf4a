use task_sh::classify::{
    coerce_command, extract_inline_code, looks_like_command, looks_like_sentence,
    CommandConfidence,
};

#[test]
fn guidance_coercion_is_idempotent() {
    let no_alts: Vec<String> = Vec::new();
    let (cmd, confidence) = coerce_command("# already guidance", "# already guidance", &no_alts);
    assert_eq!(cmd, "# already guidance");
    assert_eq!(confidence, CommandConfidence::Certain);
}

#[test]
fn empty_candidate_needs_confirmation() {
    let no_alts: Vec<String> = Vec::new();
    let (cmd, confidence) = coerce_command("   ", "raw", &no_alts);
    assert_eq!(cmd, "");
    assert_eq!(confidence, CommandConfidence::NeedsConfirmation);
}

#[test]
fn inline_code_in_the_candidate_wins() {
    let no_alts: Vec<String> = Vec::new();
    let (cmd, confidence) = coerce_command("run `ls -la` now", "irrelevant", &no_alts);
    assert_eq!(cmd, "ls -la");
    assert_eq!(confidence, CommandConfidence::Certain);
}

#[test]
fn sentence_falls_back_to_inline_code_from_the_reply() {
    let no_alts: Vec<String> = Vec::new();
    let raw = "The tool to use is `du -sh` here.";
    let (cmd, confidence) = coerce_command("This shows disk usage.", raw, &no_alts);
    assert_eq!(cmd, "du -sh");
    assert_eq!(confidence, CommandConfidence::Certain);
}

#[test]
fn sentence_without_code_becomes_guidance() {
    let no_alts: Vec<String> = Vec::new();
    let (cmd, confidence) = coerce_command("This lists files", "This lists files", &no_alts);
    assert_eq!(cmd, "# This lists files");
    assert_eq!(confidence, CommandConfidence::NeedsConfirmation);
}

#[test]
fn incomplete_reference_keeps_text_but_needs_confirmation() {
    let no_alts: Vec<String> = Vec::new();
    let (cmd, confidence) = coerce_command("run the script", "run the script", &no_alts);
    assert_eq!(cmd, "run the script");
    assert_eq!(confidence, CommandConfidence::NeedsConfirmation);
}

#[test]
fn plain_command_is_certain() {
    let no_alts: Vec<String> = Vec::new();
    let (cmd, confidence) = coerce_command("ls -la", "ls -la", &no_alts);
    assert_eq!(cmd, "ls -la");
    assert_eq!(confidence, CommandConfidence::Certain);
}

#[test]
fn sentence_detection_checks_head_and_period() {
    assert!(looks_like_sentence("This lists files"));
    assert!(looks_like_sentence("it works"));
    assert!(looks_like_sentence("ls -la."));
    assert!(!looks_like_sentence("ls -la"));
    assert!(!looks_like_sentence("line one\nline two."));
    assert!(!looks_like_sentence("   "));
}

#[test]
fn command_likelihood_rejects_fillers_and_comments() {
    assert!(looks_like_command("ls -la"));
    assert!(!looks_like_command("# note"));
    assert!(!looks_like_command("the answer"));
    assert!(!looks_like_command("use caution"));
    assert!(!looks_like_command(""));
}

#[test]
fn inline_code_extraction_pairs_backticks() {
    assert_eq!(extract_inline_code("say `pwd` now"), Some("pwd".to_string()));
    assert_eq!(extract_inline_code("no code here"), None);
    assert_eq!(extract_inline_code("empty `` pair then `ls`"), Some("ls".to_string()));
    assert_eq!(extract_inline_code("unterminated `ls"), None);
    assert_eq!(extract_inline_code("blank ` ` span"), None);
}
