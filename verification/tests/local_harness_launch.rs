use heddle::launch::{
    build_local_codex_child_command, build_local_opencode_child_command,
    local_claude_child_prompt, normalize_orchestrator_agent_name, shell_quote,
    validate_local_harness_shell, ShellType,
};

#[test]
fn local_claude_child_prompt_does_not_instruct_a_command_that_always_fails() {
    let prompt = local_claude_child_prompt("List files");

    assert!(!prompt.contains("--sender-run-id"));
    assert!(!prompt.contains("--to \"$OZ_PARENT_RUN_ID\""));
    assert!(!prompt.contains("mark-delivered"));
    assert!(!prompt.contains("\"$OZ_CLI\" run message"));
    assert!(!prompt.contains("--limit 25"));
}

#[test]
fn local_claude_child_prompt_names_the_channel_that_works() {
    let prompt = local_claude_child_prompt("List files");

    assert!(prompt.contains("final response"));
    assert!(prompt.contains("no run mailbox"));
    assert!(prompt.to_lowercase().contains("do not stand by"));
    assert!(prompt.ends_with("Task:\nList files"));
}

#[test]
fn validate_local_harness_shell_accepts_supported_shells() {
    assert_eq!(validate_local_harness_shell(Some(ShellType::Bash)), Ok(()));
    assert_eq!(validate_local_harness_shell(Some(ShellType::Zsh)), Ok(()));
    assert_eq!(validate_local_harness_shell(Some(ShellType::Fish)), Ok(()));
}

#[test]
fn validate_local_harness_shell_rejects_unsupported_shells() {
    assert_eq!(
        validate_local_harness_shell(Some(ShellType::PowerShell)),
        Err(
            "Local child harnesses currently require bash, zsh, or fish; PowerShell is not supported."
                .to_string()
        )
    );
    assert_eq!(
        validate_local_harness_shell(None),
        Err(
            "Local child harnesses currently require a detected bash, zsh, or fish session."
                .to_string()
        )
    );
}

#[test]
fn build_local_opencode_child_command_quotes_the_prompt() {
    assert_eq!(
        build_local_opencode_child_command("hello world"),
        "opencode --prompt 'hello world'"
    );
}

#[test]
fn build_local_codex_child_command_quotes_the_prompt() {
    assert_eq!(
        build_local_codex_child_command("hello world"),
        "codex --dangerously-bypass-approvals-and-sandbox 'hello world'"
    );
}

#[test]
fn normalize_orchestrator_agent_name_trims_and_drops_empty() {
    assert_eq!(
        normalize_orchestrator_agent_name("frontend-tests"),
        Some("frontend-tests".to_string())
    );
    assert_eq!(
        normalize_orchestrator_agent_name("  frontend-tests  "),
        Some("frontend-tests".to_string())
    );
    assert_eq!(normalize_orchestrator_agent_name(""), None);
    assert_eq!(normalize_orchestrator_agent_name("   "), None);
    assert_eq!(normalize_orchestrator_agent_name("\t\n  "), None);
}

#[test]
fn a_quote_in_the_prompt_cannot_end_the_shell_word() {
    assert_eq!(shell_quote("it's"), "'it'\\''s'");
    assert_eq!(shell_quote(""), "''");
    assert_eq!(shell_quote("$(rm -rf /)"), "'$(rm -rf /)'");
    assert_eq!(
        build_local_opencode_child_command("don't stop"),
        "opencode --prompt 'don'\\''t stop'"
    );
}

#[test]
fn the_prompt_is_the_instructions_followed_by_the_task() {
    let empty = local_claude_child_prompt("");
    let prompt = local_claude_child_prompt("Fix the build");
    assert_eq!(prompt, format!("{empty}Fix the build"));
    assert!(empty.ends_with("Task:\n"));
}
