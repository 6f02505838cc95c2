use commit_core::cli::{run_mode, Cli, Command, RunMode};

#[test]
fn runs_interactively_only_in_a_terminal() {
    let cli = Cli { command: None };
    assert_eq!(run_mode(&cli, true, true), Ok(RunMode::Interactive));
    assert_eq!(
        run_mode(&cli, true, false),
        Err("non-interactive use is not supported; use `commit mcp` for Agent integration".to_string())
    );
    assert_eq!(
        run_mode(&cli, false, true),
        Err("non-interactive use is not supported; use `commit mcp` for Agent integration".to_string())
    );
}

#[test]
fn mcp_runs_without_a_terminal() {
    let cli = Cli { command: Some(Command::Mcp) };
    assert_eq!(run_mode(&cli, false, false), Ok(RunMode::Mcp));
}
