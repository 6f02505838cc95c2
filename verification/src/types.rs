use vstd::prelude::*;

use crate::history::HistoryEntry;
use crate::semantic::SemanticAnalysis;

verus! {

/// What is known of the staged changes of a repository.
#[derive(Debug, PartialEq, Eq)]
pub struct GitContext {
    pub branch: String,
    pub status_short: String,
    pub staged_diff: String,
    pub staged_stat: String,
    pub staged_name_status: String,
    pub recent_subjects: Vec<String>,
    pub inferred_type: Option<CommitType>,
    pub history: Vec<HistoryEntry>,
    pub semantic: Option<SemanticAnalysis>,
}

/// A candidate shown earlier in a session, with what the user said of it.
#[derive(Clone, Debug, Default, PartialEq, Eq)]
pub struct PriorAttempt {
    pub message: String,
    pub feedback: String,
}

/// A commit type guessed from the staged changes.
#[derive(Debug, Clone, Copy, PartialEq, Eq, Structural)]
pub enum CommitType {
    Docs,
    Ci,
    Test,
    Build,
    Chore,
    Feat,
}

/// The Conventional Commits name of a type.
pub open spec fn commit_type_name(t: CommitType) -> Seq<char> {
    match t {
        CommitType::Docs => "docs"@,
        CommitType::Ci => "ci"@,
        CommitType::Test => "test"@,
        CommitType::Build => "build"@,
        CommitType::Chore => "chore"@,
        CommitType::Feat => "feat"@,
    }
}

impl CommitType {
    pub fn as_str(self) -> (r: &'static str)
        ensures
            r@ == commit_type_name(self),
    {
        match self {
            CommitType::Docs => "docs",
            CommitType::Ci => "ci",
            CommitType::Test => "test",
            CommitType::Build => "build",
            CommitType::Chore => "chore",
            CommitType::Feat => "feat",
        }
    }
}

} // verus!
