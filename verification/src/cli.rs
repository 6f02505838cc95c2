//! The command line: what it asks for and how the program runs for it.
use vstd::prelude::*;

verus! {

/// The parsed command line.
#[derive(Debug, PartialEq, Eq)]
pub struct Cli {
    pub command: Option<Command>,
}

/// A subcommand.
#[derive(Debug, Clone, Copy, PartialEq, Eq, Structural)]
pub enum Command {
    /// Serve MCP over standard input and output.
    Mcp,
}

/// How the program runs.
#[derive(Debug, Clone, Copy, PartialEq, Eq, Structural)]
pub enum RunMode {
    /// The interactive commit flow in a terminal.
    Interactive,
    /// The MCP server.
    Mcp,
}

/// The mode for a command line: `mcp` serves MCP; with no subcommand the interactive
/// flow runs, and only when both standard input and output are terminals.
pub fn run_mode(cli: &Cli, stdin_is_terminal: bool, stdout_is_terminal: bool) -> (r: Result<RunMode, String>)
    ensures
        cli.command == Some(Command::Mcp) ==> r == Ok::<RunMode, String>(RunMode::Mcp),
        cli.command is None ==> (r is Ok <==> stdin_is_terminal && stdout_is_terminal),
        cli.command is None && r is Ok ==> r == Ok::<RunMode, String>(RunMode::Interactive),
        r matches Err(e) ==> e@
            == "non-interactive use is not supported; use `commit mcp` for Agent integration"@,
{
    match cli.command {
        None => {
            if stdin_is_terminal && stdout_is_terminal {
                Ok(RunMode::Interactive)
            } else {
                Err("non-interactive use is not supported; use `commit mcp` for Agent integration".to_owned())
            }
        },
        Some(Command::Mcp) => Ok(RunMode::Mcp),
    }
}

} // verus!
