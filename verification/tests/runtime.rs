use commit_core::config::Config;
use commit_core::llm::{Coverage, GeneratedMessage, LlmJudgement, Risk};
use commit_core::runtime::{
    build_semantic_analysis, execute_output, infer_type_from_semantic, validate_generated_message,
    with_semantic, FileSources,
};
use commit_core::{
    execute_commit_message, generate_tty_candidate, prepare_commit_context, ChangeKind, CommitType,
    ExecuteOptions, FileSemantic, GitContext, Language, SemanticAnalysis, SymbolChange, SymbolKind,
    TtyGenerateOptions, Visibility,
};
use std::path::PathBuf;

fn config() -> Config {
    Config::default_with_home(PathBuf::from("/tmp/commit-home"))
}

fn context(name_status: &str) -> GitContext {
    GitContext {
        branch: "main".to_string(),
        status_short: "A  example.txt".to_string(),
        staged_diff: "diff --git a/example.txt b/example.txt\n+hello\n".to_string(),
        staged_stat: " example.txt | 1 +".to_string(),
        staged_name_status: name_status.to_string(),
        recent_subjects: vec!["feat: earlier".to_string()],
        inferred_type: None,
        history: Vec::new(),
        semantic: None,
    }
}

fn change(kind: ChangeKind, visibility: Visibility) -> SymbolChange {
    SymbolChange { kind: SymbolKind::Function, name: "f".to_string(), visibility, change: kind }
}

fn semantic(changes: Vec<SymbolChange>) -> SemanticAnalysis {
    SemanticAnalysis {
        files: vec![FileSemantic { path: "src/lib.rs".to_string(), language: Language::Rust, symbols: changes }],
        unsupported: Vec::new(),
    }
}

#[test]
fn prepare_reports_policy_and_groups() {
    let output = prepare_commit_context(context("A\tsrc/main.rs\nA\tdocs/usage.md\n"), &config());
    assert_eq!(output.warnings, vec!["multiple logical commits".to_string()]);
    let labels: Vec<&str> = output.groups.iter().map(|g| g.label).collect();
    assert_eq!(labels, vec!["docs", "src"]);
    assert_eq!(output.message_policy.format, "Conventional Commits");
    assert_eq!(output.message_policy.max_subject_chars, 80);
    assert!(output.message_policy.allowed_types.contains(&"feat".to_string()));
    assert_eq!(output.message_policy.scope_examples, vec!["cli", "core", "mcp", "message", "config"]);
    assert_eq!(output.inferred_type, None);
    assert_eq!(output.staged_diff, "diff --git a/example.txt b/example.txt\n+hello\n");
}

#[test]
fn prepare_has_no_warning_for_one_group() {
    let mut ctx = context("A\tdocs/usage.md\n");
    ctx.inferred_type = Some(CommitType::Docs);
    let output = prepare_commit_context(ctx, &config());
    assert!(output.warnings.is_empty());
    assert_eq!(output.inferred_type, Some("docs".to_string()));
}

#[test]
fn execute_trims_validates_and_records_the_draft() {
    let ctx = context("A\texample.txt\n");
    let planned = execute_commit_message(
        &ctx,
        &config(),
        ExecuteOptions { message: "  feat: add example file\n".to_string(), generated_message: None },
    )
    .expect("valid message");
    assert_eq!(planned.message, "feat: add example file");
    assert_eq!(planned.generated_message, "feat: add example file");
    assert!(planned.confidence.score >= 1 && planned.confidence.score <= 5);

    let planned = execute_commit_message(
        &ctx,
        &config(),
        ExecuteOptions {
            message: "feat: add example file".to_string(),
            generated_message: Some("feat(cli): 添加示例文件".to_string()),
        },
    )
    .expect("valid message");
    assert_eq!(planned.generated_message, "feat(cli): 添加示例文件");

    let output = execute_output(planned, Ok("abc123".to_string()), Err("failed".to_string()));
    assert!(output.committed);
    assert_eq!(output.message, "feat: add example file");
    assert_eq!(output.sha, Some("abc123".to_string()));
    assert_eq!(output.post_status_short, "");
}

#[test]
fn execute_invalid_message_is_refused_with_the_message() {
    let error = execute_commit_message(
        &context("A\texample.txt\n"),
        &config(),
        ExecuteOptions { message: "add example file".to_string(), generated_message: None },
    )
    .expect_err("invalid message");
    assert!(error.starts_with("generated commit message failed validation: "));
    assert!(error.ends_with("\n\nGenerated message:\nadd example file"));
}

#[test]
fn tty_candidate_is_validated_and_scored() {
    let ctx = context("A\texample.txt\n");
    let generated = GeneratedMessage {
        message: "feat: add example file".to_string(),
        judgement: LlmJudgement::ok(),
        rewritten: false,
    };
    let output = generate_tty_candidate(&ctx, &config(), generated).expect("valid");
    assert_eq!(output.message, "feat: add example file");

    let mut cfg = config();
    cfg.allowed_types = vec!["fix".to_string()];
    let generated = GeneratedMessage {
        message: "feat: forbidden".to_string(),
        judgement: LlmJudgement {
            coverage: Coverage::Partial,
            risk: Risk::High,
            needs_feedback: true,
            reason: "x".to_string(),
        },
        rewritten: false,
    };
    let error = generate_tty_candidate(&ctx, &cfg, generated).expect_err("type not allowed");
    assert!(error.contains("Generated message:\nfeat: forbidden"));
    assert_eq!(validate_generated_message("feat: ok", &config()), Ok(()));
}

#[test]
fn infers_feat_only_from_public_additions() {
    assert_eq!(
        infer_type_from_semantic(&semantic(vec![
            change(ChangeKind::Added, Visibility::Private),
            change(ChangeKind::Added, Visibility::PubCrate),
        ])),
        Some(CommitType::Feat)
    );
    assert_eq!(
        infer_type_from_semantic(&semantic(vec![change(ChangeKind::Added, Visibility::Private)])),
        None
    );
    assert_eq!(
        infer_type_from_semantic(&semantic(vec![
            change(ChangeKind::Added, Visibility::Public),
            change(ChangeKind::BodyModified, Visibility::Public),
        ])),
        None
    );
    assert_eq!(infer_type_from_semantic(&semantic(Vec::new())), None);
}

#[test]
fn semantic_type_only_fills_a_missing_type() {
    let with = with_semantic(context("A\tsrc/lib.rs\n"), semantic(vec![change(ChangeKind::Added, Visibility::Public)]));
    assert_eq!(with.inferred_type, Some(CommitType::Feat));
    assert!(with.semantic.is_some());
    let mut ctx = context("A\tdocs/a.md\n");
    ctx.inferred_type = Some(CommitType::Docs);
    let with = with_semantic(ctx, semantic(vec![change(ChangeKind::Added, Visibility::Public)]));
    assert_eq!(with.inferred_type, Some(CommitType::Docs));
}

#[test]
fn semantic_analysis_lists_unsupported_and_oversized_files() {
    let files = vec![
        FileSources { path: "README.md".to_string(), old_source: None, new_source: Some("hello\n".to_string()) },
        FileSources {
            path: "src/big.rs".to_string(),
            old_source: None,
            new_source: Some("pub fn one() {}\npub fn two() {}\npub fn three() {}\n".to_string()),
        },
        FileSources {
            path: "src/lib.rs".to_string(),
            old_source: Some("pub fn keep() {}\n".to_string()),
            new_source: Some("pub fn keep() {}\npub fn fresh() {}\n".to_string()),
        },
        FileSources {
            path: "src/same.rs".to_string(),
            old_source: Some("fn same() {}\n".to_string()),
            new_source: Some("fn same() {}\n".to_string()),
        },
    ];
    let analysis = build_semantic_analysis(files, 40);
    assert_eq!(analysis.unsupported, vec!["README.md".to_string(), "src/big.rs".to_string()]);
    assert_eq!(analysis.files.len(), 1);
    assert_eq!(analysis.files[0].path, "src/lib.rs");
    assert_eq!(analysis.files[0].symbols[0].name, "fresh");
}

#[test]
fn default_tty_options_are_empty() {
    let options = TtyGenerateOptions::default();
    assert!(options.feedback.is_none());
    assert!(options.prior_attempts.is_empty());
}
