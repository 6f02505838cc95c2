use commit_core::config::Config;
use commit_core::json::Json;
use commit_core::message;
use std::path::PathBuf;

#[test]
fn written_subject_parses_back_to_its_parts() {
    let parsed = message::parse("fix(core:io)!: 修复 (读取) 错误").expect("parse");
    assert_eq!(parsed.header.ty, "fix");
    assert_eq!(parsed.header.scope, Some("core:io"));
    assert!(parsed.header.breaking);
    assert_eq!(parsed.header.description, "修复 (读取) 错误");
    assert_eq!(parsed.body, None);
    assert!(parsed.footers.is_empty());
    assert!(parsed.breaking);
    assert_eq!(parsed.breaking_description, Some("修复 (读取) 错误"));

    let plain = message::parse("docs: x").expect("parse");
    assert_eq!(plain.header.scope, None);
    assert!(!plain.breaking);
    assert_eq!(plain.breaking_description, None);
}

#[test]
fn valid_messages_always_parse() {
    let config = Config::default_with_home(PathBuf::from("/tmp/commit-home"));
    for candidate in ["feat: add example file", "fix(parser): handle empty input", "FEAT: upper case type"] {
        assert_eq!(message::validate(candidate, &config), Ok(()));
        assert!(message::parse(candidate).is_ok());
    }
}

#[test]
fn parsed_header_rebuilds_from_its_parts() {
    let line = "feat(api)!:   add x";
    let parsed = message::parse(line).expect("parse");
    let h = parsed.header;
    let scope = h.scope.map(|s| format!("({s})")).unwrap_or_default();
    let bang = if h.breaking { "!" } else { "" };
    assert_eq!(format!("{}{}{}:{}{}", h.ty, scope, bang, "   ", h.description), line);
    assert_eq!(h.description, "add x");
}

#[test]
fn parsed_footers_are_well_formed() {
    let parsed = message::parse("fix: x\n\nbody\n\nRefs #12\nBREAKING CHANGE: gone\n").expect("parse");
    assert_eq!(parsed.footers.len(), 2);
    assert_eq!(parsed.footers[0].token, "Refs");
    assert_eq!(parsed.footers[0].separator, message::FooterSeparator::Hash);
    assert_eq!(parsed.footers[0].value, "#12");
    assert_eq!(parsed.footers[1].token, "BREAKING CHANGE");
    assert_eq!(parsed.footers[1].value, "gone");
    for f in &parsed.footers {
        assert!(!f.value.starts_with('\n') && !f.value.ends_with('\n'));
        assert_eq!(f.token.trim(), f.token);
    }
}

#[test]
fn error_answers_write_any_code() {
    let low = commit_core::mcp::jsonrpc_error(Json::Null, i64::MIN, "m", None);
    let high = commit_core::mcp::jsonrpc_error(Json::Null, i64::MAX, "m", None);
    let code = |j: &Json| -> String {
        match j {
            Json::Object(members) => match &members[2].1 {
                Json::Object(error) => match &error[0].1 {
                    Json::Number(text) => text.clone(),
                    _ => panic!("code"),
                },
                _ => panic!("error object"),
            },
            _ => panic!("object"),
        }
    };
    assert_eq!(code(&low), "-9223372036854775808");
    assert_eq!(code(&high), "9223372036854775807");
}

#[test]
fn appended_history_line_reads_back() {
    let before = "{\"n\":1}\n{\"n\":2}\n";
    let after = format!("{before}{}\n", "{\"n\":3}");
    assert_eq!(commit_core::history::recent_lines(&after, 1), vec!["{\"n\":3}".to_string()]);
    assert_eq!(commit_core::history::recent_lines(&after, 5).len(), 3);
    assert_eq!(commit_core::history::recent_lines(&after, 5)[2], "{\"n\":3}");
    assert!(commit_core::history::recent_lines("", 3).is_empty());
}

#[test]
fn stripping_reasoning_never_lengthens() {
    assert_eq!(commit_core::llm::strip_thinking_blocks("a<think>b"), "a");
    assert_eq!(commit_core::llm::strip_thinking_blocks("a<think>b</think>c"), "ac");
}
