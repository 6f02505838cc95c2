use commit_core::llm::{
    self, begin_generation, continue_generation, judgement_from_critique, Coverage,
    ExternalMessageBackend, GenerateOptions, GenerationState, GenerationStep, JsonJudgement,
    LlmBackend, PromptKind, Risk, CRITIQUE_PROMPT, SYSTEM_PROMPT,
};
use commit_core::{history, CommitType, GitContext, PriorAttempt};
use commit_core::{ChangeKind, FileSemantic, Language, SemanticAnalysis, SymbolChange, SymbolKind, Visibility};

fn sample_context() -> GitContext {
    GitContext {
        branch: "main\n".to_string(),
        status_short: "A  example.txt\n".to_string(),
        staged_diff: "diff --git a/example.txt b/example.txt\n+hello\n".to_string(),
        staged_stat: " example.txt | 1 +\n".to_string(),
        staged_name_status: "A\texample.txt\n".to_string(),
        recent_subjects: vec!["feat: previous".to_string()],
        inferred_type: Some(CommitType::Docs),
        history: vec![history::HistoryEntry {
            repo: "/tmp/repo".to_string(),
            generated: "feat: old draft".to_string(),
            final_message: "feat: old final".to_string(),
        }],
        semantic: None,
    }
}

#[test]
fn builds_prompt_with_staged_context() {
    let context = GitContext {
        branch: "main\n".to_string(),
        status_short: "A  example.txt\n".to_string(),
        staged_diff: "diff --git a/example.txt b/example.txt\n+hello\n".to_string(),
        staged_stat: " example.txt | 1 +\n".to_string(),
        staged_name_status: "A\texample.txt\n".to_string(),
        recent_subjects: vec!["feat: previous".to_string()],
        inferred_type: Some(CommitType::Docs),
        history: vec![history::HistoryEntry {
            repo: "/tmp/repo".to_string(),
            generated: "feat: old draft".to_string(),
            final_message: "feat: old final".to_string(),
        }],
        semantic: None,
    };

    let prompt = llm::build_prompt(&context);

    assert!(prompt.contains("Branch:\nmain"));
    assert!(prompt.contains("Status:\nA  example.txt"));
    assert!(prompt.contains("Staged name-status:\nA\texample.txt"));
    assert!(prompt.contains("Inferred type:\ndocs"));
    assert!(prompt.contains("Recent commits:\nfeat: previous"));
    assert!(prompt.contains("AI draft: feat: old draft"));
    assert!(prompt.contains("User final: feat: old final"));
    assert!(prompt.contains("+hello"));
}

#[test]
fn strips_thinking_blocks_from_llm_output() {
    let raw =
        "<think>reasoning that should not enter git history</think>\n\nfeat(cli): 新增生成命令";

    assert_eq!(
        llm::strip_thinking_blocks(raw).trim(),
        "feat(cli): 新增生成命令"
    );
}

#[test]
fn strips_multiple_thinking_blocks() {
    let raw = "<think>first</think>\nfix: 修复问题\n<think>second</think>";

    assert_eq!(llm::strip_thinking_blocks(raw).trim(), "fix: 修复问题");
}

#[test]
fn drops_unclosed_thinking_block() {
    let raw = "feat: 有效消息\n<think>unfinished reasoning";

    assert_eq!(llm::strip_thinking_blocks(raw).trim(), "feat: 有效消息");
}

#[test]
fn text_without_thinking_tags_is_kept_whole() {
    let raw = "  fix: 保留原文 <thin> </think>\n";
    assert_eq!(llm::strip_thinking_blocks(raw), raw);
}

#[test]
fn prompt_starts_with_the_rule_and_trims_the_repository_fields() {
    let prompt = llm::build_prompt(&sample_context());
    assert!(prompt.starts_with("Commit message rule:\nFollow the system prompt's Conventional Commits format."));
    assert!(prompt.contains("Branch:\nmain\n\nStatus:\nA  example.txt\n\nStaged stat:\nexample.txt | 1 +\n\n"));
    assert!(prompt.contains("Staged diff:\ndiff --git a/example.txt b/example.txt\n+hello\n\n"));
    assert!(prompt.ends_with("\nRecent generated/final pairs:\nAI draft: feat: old draft\nUser final: feat: old final\n"));
}

#[test]
fn prompt_names_unknown_type_when_none_was_inferred() {
    let mut context = sample_context();
    context.inferred_type = None;
    context.history = Vec::new();
    let prompt = llm::build_prompt(&context);
    assert!(prompt.contains("Inferred type:\nunknown\n"));
    assert!(!prompt.contains("Recent generated/final pairs"));
}

#[test]
fn prompt_lists_semantic_changes_attempts_feedback_and_critique() {
    let mut context = sample_context();
    context.semantic = Some(SemanticAnalysis {
        files: vec![FileSemantic {
            path: "src/lib.rs".to_string(),
            language: Language::Rust,
            symbols: vec![
                SymbolChange {
                    kind: SymbolKind::Function,
                    name: "fresh".to_string(),
                    visibility: Visibility::Public,
                    change: ChangeKind::Added,
                },
                SymbolChange {
                    kind: SymbolKind::Struct,
                    name: "Config".to_string(),
                    visibility: Visibility::PubCrate,
                    change: ChangeKind::BodyModified,
                },
            ],
        }],
        unsupported: Vec::new(),
    });
    let prior = vec![
        PriorAttempt { message: " feat: first \n".to_string(), feedback: "简短一点".to_string() },
        PriorAttempt { message: "feat: second".to_string(), feedback: String::new() },
    ];
    let prompt = llm::build_prompt_with_options(&context, Some("再短一点"), Some("missing scope"), &prior);
    assert!(prompt.contains(
        "\nSemantic changes (top-level symbols):\n\nsrc/lib.rs:\n  + pub fn fresh (added)\n  M pub(crate) struct Config (body modified)\n"
    ));
    assert!(prompt.contains("\nAttempt 1:\nfeat: first\nUser feedback after attempt 1: 简短一点\n"));
    assert!(prompt.contains(
        "\nAttempt 2:\nfeat: second\nUser feedback after attempt 2: (no specific feedback, just regenerate)\n"
    ));
    assert!(prompt.contains("\nUser feedback:\n再短一点\n\nCritique to address:\nmissing scope\n"));
}

#[test]
fn renders_each_kind_of_symbol_change() {
    let change = SymbolChange {
        kind: SymbolKind::TypeAlias,
        name: "Alias".to_string(),
        visibility: Visibility::Private,
        change: ChangeKind::SignatureChanged,
    };
    assert_eq!(llm::render_symbol_change(&change), "~ type Alias (signature changed)");
    let removed = SymbolChange {
        kind: SymbolKind::Macro,
        name: "gone".to_string(),
        visibility: Visibility::Public,
        change: ChangeKind::Removed,
    };
    assert_eq!(llm::render_symbol_change(&removed), "- pub macro gone (removed)");
}

#[test]
fn reads_structured_judgement_fields() {
    let decoded = JsonJudgement {
        coverage: Some("partial".to_string()),
        risk: Some("medium".to_string()),
        needs_feedback: Some(true),
        reason: Some("missing why".to_string()),
    };
    let raw = "{\"coverage\":\"partial\",\"risk\":\"medium\",\"needs_feedback\":true,\"reason\":\"missing why\"}";
    let judgement = judgement_from_critique(raw, Some(decoded));
    assert_eq!(judgement.coverage, Coverage::Partial);
    assert_eq!(judgement.risk, Risk::Medium);
    assert!(judgement.needs_feedback);
    assert_eq!(judgement.reason, "missing why");
}

#[test]
fn structured_judgement_fills_missing_fields() {
    let decoded = JsonJudgement { coverage: Some("nope".to_string()), risk: Some("high".to_string()), needs_feedback: None, reason: None };
    let judgement = judgement_from_critique("{}", Some(decoded));
    assert_eq!(judgement.coverage, Coverage::Unclear);
    assert_eq!(judgement.risk, Risk::High);
    assert!(!judgement.needs_feedback);
    assert_eq!(judgement.reason, "structured critique");
}

#[test]
fn ok_critique_passes_and_free_text_asks_for_feedback() {
    let ok = judgement_from_critique("  OK\n", None);
    assert_eq!(ok, llm::LlmJudgement::ok());
    let free = judgement_from_critique(" subject too long \n", None);
    assert_eq!(free.coverage, Coverage::Unclear);
    assert_eq!(free.risk, Risk::Medium);
    assert!(free.needs_feedback);
    assert_eq!(free.reason, "subject too long");
}

#[test]
fn external_backend_hands_out_its_message_once() {
    let mut backend = ExternalMessageBackend::new("feat: given".to_string());
    assert_eq!(backend.invoke(CRITIQUE_PROMPT, "anything"), Ok("OK".to_string()));
    assert_eq!(backend.invoke(SYSTEM_PROMPT, "prompt"), Ok("feat: given".to_string()));
    assert_eq!(
        backend.invoke(SYSTEM_PROMPT, "prompt"),
        Err("external message already consumed".to_string())
    );
}

#[test]
fn generation_without_critique_takes_the_first_reply() {
    let context = sample_context();
    let first = begin_generation(&context, Some("shorter"), &[]);
    match first {
        GenerationStep::Ask { kind, prompt, next } => {
            assert_eq!(kind, PromptKind::Write);
            assert!(prompt.contains("\nUser feedback:\nshorter\n"));
            assert_eq!(next, GenerationState::Drafting);
        }
        GenerationStep::Done(_) => panic!("a generation starts by asking"),
    }
    let step = continue_generation(
        &context,
        Some("shorter"),
        &[],
        GenerateOptions { critique: false },
        GenerationState::Drafting,
        "feat: add example".to_string(),
        None,
    );
    match step {
        GenerationStep::Done(generated) => {
            assert_eq!(generated.message, "feat: add example");
            assert_eq!(generated.judgement, llm::LlmJudgement::ok());
            assert!(!generated.rewritten);
        }
        GenerationStep::Ask { .. } => panic!("no critique was asked for"),
    }
}

#[test]
fn generation_with_critique_rewrites_on_request() {
    let context = sample_context();
    let options = GenerateOptions::default();
    assert!(options.critique);
    let step = continue_generation(&context, None, &[], options, GenerationState::Drafting, " feat: draft ".to_string(), None);
    let next = match step {
        GenerationStep::Ask { kind, prompt, next } => {
            assert_eq!(kind, PromptKind::Critique);
            assert!(prompt.ends_with("\n\nCandidate message:\nfeat: draft"));
            next
        }
        GenerationStep::Done(_) => panic!("a critique was asked for"),
    };
    let step = continue_generation(&context, None, &[], options, next, "REWRITE:  add a scope ".to_string(), None);
    let next = match step {
        GenerationStep::Ask { kind, prompt, next } => {
            assert_eq!(kind, PromptKind::Write);
            assert!(prompt.contains("\nCritique to address:\nadd a scope\n"));
            next
        }
        GenerationStep::Done(_) => panic!("a rewrite was asked for"),
    };
    let step = continue_generation(&context, None, &[], options, next, "feat(cli): draft".to_string(), None);
    match step {
        GenerationStep::Done(generated) => {
            assert_eq!(generated.message, "feat(cli): draft");
            assert_eq!(generated.judgement.coverage, Coverage::Partial);
            assert_eq!(generated.judgement.risk, Risk::Medium);
            assert!(!generated.judgement.needs_feedback);
            assert_eq!(generated.judgement.reason, "add a scope");
            assert!(generated.rewritten);
        }
        GenerationStep::Ask { .. } => panic!("the rewrite ends the generation"),
    }
}

#[test]
fn generation_with_passing_critique_keeps_the_draft() {
    let context = sample_context();
    let step = continue_generation(
        &context,
        None,
        &[],
        GenerateOptions { critique: true },
        GenerationState::Critiquing { message: "feat: draft".to_string() },
        "OK".to_string(),
        None,
    );
    match step {
        GenerationStep::Done(generated) => {
            assert_eq!(generated.message, "feat: draft");
            assert_eq!(generated.judgement, llm::LlmJudgement::ok());
            assert!(!generated.rewritten);
        }
        GenerationStep::Ask { .. } => panic!("a passing critique ends the generation"),
    }
}

#[test]
fn system_prompt_names_the_two_instructions() {
    assert_eq!(llm::system_prompt(PromptKind::Write), SYSTEM_PROMPT);
    assert_eq!(llm::system_prompt(PromptKind::Critique), CRITIQUE_PROMPT);
    assert!(SYSTEM_PROMPT.starts_with("你是一位精通 Git 提交规范的专家"));
}
