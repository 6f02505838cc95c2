use commit_core::tty::{
    classify_key, commit_options, feedback_key, format_card, Action, CandidateSource,
    FeedbackResult, FeedbackStep, InteractiveSession, Key,
};

#[test]
fn format_card_renders_single_line_subject() {
    let card = format_card("feat(cli): 添加 commit message 校验");

    assert_eq!(
        card,
        "\nfeat(cli): 添加 commit message 校验\n\n\
         [Enter] 提交  [e] 编辑  [r] 换一条  [Ctrl-C] 取消\n",
    );
}

#[test]
fn format_card_preserves_body_lines() {
    let message = "docs: 完善文档合规和使用说明\n\n\
                   - 增加 slim 和 bundled 版本差异说明\n\
                   - 更新 FAQ 中依赖查找和 Firefox 登录注意事项";
    let card = format_card(message);

    assert!(card.contains("docs: 完善文档合规和使用说明\n"));
    assert!(card.contains("- 增加 slim 和 bundled 版本差异说明\n"));
    assert!(card.contains("- 更新 FAQ 中依赖查找和 Firefox 登录注意事项\n"));
    assert!(card.ends_with("[Enter] 提交  [e] 编辑  [r] 换一条  [Ctrl-C] 取消\n"));
}

#[test]
fn format_card_preserves_breaking_change_footer() {
    let message = "feat(config)!: 调整配置文件格式\n\n\
                   - 将 message 配置移动到 [message] 表\n\n\
                   BREAKING CHANGE: 旧版 .commit.toml 配置需要迁移到新的分组格式。";
    let card = format_card(message);

    assert!(card.contains("feat(config)!: 调整配置文件格式\n"));
    assert!(card.contains("BREAKING CHANGE: 旧版 .commit.toml 配置需要迁移到新的分组格式。\n"));
}

#[test]
fn classify_key_maps_enter_to_commit() {
    assert_eq!(classify_key(Key::Enter, false), Some(Action::Commit));
}

#[test]
fn classify_key_maps_e_to_edit_case_insensitively() {
    assert_eq!(classify_key(Key::Char('e'), false), Some(Action::Edit));
    assert_eq!(classify_key(Key::Char('E'), false), Some(Action::Edit));
}

#[test]
fn classify_key_maps_r_to_regenerate() {
    assert_eq!(classify_key(Key::Char('r'), false), Some(Action::Regenerate));
}

#[test]
fn classify_key_maps_ctrl_c_to_cancel() {
    assert_eq!(classify_key(Key::Char('c'), true), Some(Action::Cancel));
}

#[test]
fn classify_key_ignores_unrelated_keys() {
    assert_eq!(classify_key(Key::Char('q'), false), None);
    assert_eq!(classify_key(Key::Other, false), None);
    assert_eq!(classify_key(Key::Char('e'), true), None);
}

#[test]
fn format_card_strips_carriage_returns_and_keeps_blank_lines() {
    assert_eq!(format_card("a\r\n\r\nb\n"), "\na\n\nb\n\n[Enter] 提交  [e] 编辑  [r] 换一条  [Ctrl-C] 取消\n");
    assert_eq!(format_card(""), "\n\n[Enter] 提交  [e] 编辑  [r] 换一条  [Ctrl-C] 取消\n");
}

#[test]
fn feedback_line_edits_and_submits() {
    let mut buffer = String::new();
    assert_eq!(feedback_key(&mut buffer, Key::Char('短'), false), FeedbackStep::Echo('短'));
    assert_eq!(feedback_key(&mut buffer, Key::Char('x'), false), FeedbackStep::Echo('x'));
    assert_eq!(feedback_key(&mut buffer, Key::Backspace, false), FeedbackStep::Erase(1));
    assert_eq!(feedback_key(&mut buffer, Key::Backspace, false), FeedbackStep::Erase(2));
    assert_eq!(feedback_key(&mut buffer, Key::Backspace, false), FeedbackStep::Ignore);
    assert_eq!(feedback_key(&mut buffer, Key::Char('a'), true), FeedbackStep::Ignore);
    for c in "  再短一点 ".chars() {
        feedback_key(&mut buffer, Key::Char(c), false);
    }
    assert_eq!(
        feedback_key(&mut buffer, Key::Enter, false),
        FeedbackStep::Done(FeedbackResult::Submitted(Some("再短一点".to_string())))
    );
    assert_eq!(buffer, "  再短一点 ");
}

#[test]
fn feedback_line_ends_blank_aborted_or_cancelled() {
    let mut buffer = " ".to_string();
    assert_eq!(feedback_key(&mut buffer, Key::Enter, false), FeedbackStep::Done(FeedbackResult::Submitted(None)));
    assert_eq!(feedback_key(&mut buffer, Key::Esc, false), FeedbackStep::Done(FeedbackResult::Aborted));
    assert_eq!(feedback_key(&mut buffer, Key::Char('c'), true), FeedbackStep::Done(FeedbackResult::Cancel));
    assert_eq!(feedback_key(&mut buffer, Key::Char('C'), true), FeedbackStep::Ignore);
}

#[test]
fn session_records_attempts_and_preserves_messages() {
    let mut session = InteractiveSession::new();
    let options = session.generate_options().expect("fresh candidate");
    assert!(options.feedback.is_none());
    assert!(options.prior_attempts.is_empty());

    assert!(session.after_feedback("feat: one".to_string(), FeedbackResult::Submitted(Some("简短一点".to_string()))));
    assert!(session.after_feedback("feat: two".to_string(), FeedbackResult::Submitted(None)));
    let options = session.generate_options().expect("fresh candidate");
    assert_eq!(options.feedback, None);
    assert_eq!(options.prior_attempts.len(), 2);
    assert_eq!(options.prior_attempts[0].message, "feat: one");
    assert_eq!(options.prior_attempts[0].feedback, "简短一点");
    assert_eq!(options.prior_attempts[1].feedback, "");

    assert!(session.after_feedback("feat: three".to_string(), FeedbackResult::Aborted));
    assert_eq!(session.source, CandidateSource::PreservedEdit("feat: three".to_string()));
    assert!(session.generate_options().is_none());
    assert!(!session.after_feedback("feat: three".to_string(), FeedbackResult::Cancel));

    session.after_rejected_edit("bad edit".to_string());
    assert_eq!(session.source, CandidateSource::PreservedEdit("bad edit".to_string()));
    assert_eq!(session.prior_attempts.len(), 2);

    let options = commit_options("feat: shown".to_string(), "feat: edited".to_string());
    assert_eq!(options.message, "feat: edited");
    assert_eq!(options.generated_message, Some("feat: shown".to_string()));
}
