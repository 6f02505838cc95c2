use commit_core::git::ChangedFile;
use commit_core::{git, CommitType};

#[test]
fn infers_type_from_changed_files() {
    assert_eq!(
        git::infer_type(&[ChangedFile {
            status: "M".to_string(),
            path: "docs/design.md".to_string(),
        }]),
        Some(CommitType::Docs)
    );
    assert_eq!(
        git::infer_type(&[ChangedFile {
            status: "M".to_string(),
            path: ".github/workflows/ci.yml".to_string(),
        }]),
        Some(CommitType::Ci)
    );
    assert_eq!(
        git::infer_type(&[ChangedFile {
            status: "A".to_string(),
            path: "tests/cli.rs".to_string(),
        }]),
        Some(CommitType::Test)
    );
    assert_eq!(
        git::infer_type(&[ChangedFile {
            status: "M".to_string(),
            path: "Cargo.toml".to_string(),
        }]),
        Some(CommitType::Build)
    );
    assert_eq!(
        git::infer_type(&[ChangedFile {
            status: "D".to_string(),
            path: "old.txt".to_string(),
        }]),
        Some(CommitType::Chore)
    );
}

#[test]
fn stage_and_unstage_name_exactly_the_paths() {
    let paths = vec!["a b.txt".to_string(), "src/lib.rs".to_string()];
    assert_eq!(
        git::stage_exact(&paths),
        Some(vec!["add".to_string(), "--".to_string(), "a b.txt".to_string(), "src/lib.rs".to_string()])
    );
    assert_eq!(
        git::unstage_exact(&paths),
        Some(vec!["reset".to_string(), "HEAD".to_string(), "--".to_string(), "a b.txt".to_string(), "src/lib.rs".to_string()])
    );
    assert_eq!(git::stage_exact(&[]), None);
    assert_eq!(git::unstage_exact(&[]), None);
}

#[test]
fn head_sha_is_trimmed() {
    assert_eq!(git::head_sha(Ok("abc123\n".to_string())), Ok("abc123".to_string()));
    assert_eq!(git::head_sha(Err("fatal".to_string())), Err("fatal".to_string()));
}

#[test]
fn repository_check_and_empty_diff_are_reported() {
    assert_eq!(git::ensure_repo(Ok("true\n".to_string())), Ok(()));
    assert_eq!(git::ensure_repo(Ok("false\n".to_string())), Err("not inside a Git repository".to_string()));
    assert_eq!(git::ensure_repo(Err("fatal: not a git repository".to_string())), Err("not inside a Git repository".to_string()));
    let outputs = git::GitOutputs {
        branch: Ok("main\n".to_string()),
        status_short: Ok(String::new()),
        staged_diff: " \n".to_string(),
        staged_name_status: Ok(String::new()),
        staged_stat: Ok(String::new()),
        recent_log: Ok(String::new()),
    };
    assert_eq!(
        git::collect_context(outputs, Vec::new()).err(),
        Some("no staged changes; stage changes with git add or git add -p".to_string())
    );
}

#[test]
fn collects_context_from_git_outputs() {
    let outputs = git::GitOutputs {
        branch: Ok("main\n".to_string()),
        status_short: Err("failed".to_string()),
        staged_diff: "diff --git a/docs/usage.md b/docs/usage.md\n+hello\n".to_string(),
        staged_name_status: Ok("A\tdocs/usage.md\n".to_string()),
        staged_stat: Ok(" docs/usage.md | 1 +\n".to_string()),
        recent_log: Ok("feat: one\r\nfix: two".to_string()),
    };
    let context = git::collect_context(outputs, Vec::new()).expect("staged changes");
    assert_eq!(context.branch, "main\n");
    assert_eq!(context.status_short, "");
    assert_eq!(context.inferred_type, Some(CommitType::Docs));
    assert_eq!(context.recent_subjects, vec!["feat: one".to_string(), "fix: two".to_string()]);
    assert_eq!(git::changed_files(&context), vec![git::ChangedFile { status: "A".to_string(), path: "docs/usage.md".to_string() }]);
}
