pub mod cli;
pub mod confidence;
pub mod config;
pub mod git;
pub mod history;
pub mod json;
pub mod llm;
pub mod mcp;
pub mod message;
pub mod planner;
pub mod runtime;
pub mod semantic;
pub mod syntax;
pub mod text;
pub mod tty;
mod types;

pub use planner::FileGroup;
pub use runtime::{
    execute_commit_message, generate_tty_candidate, prepare_commit_context, ExecuteOptions,
    ExecuteOutput, MessagePolicy, PrepareOutput, TtyGenerateOptions, TtyGenerateOutput,
};

pub use semantic::{
    ChangeKind, FileSemantic, Language, SemanticAnalysis, SymbolChange, SymbolKind, Visibility,
};
pub use types::{CommitType, GitContext, PriorAttempt};
