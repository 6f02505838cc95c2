use commit_core::config::{Config, FileConfig, LlmConfig, MessageConfig, ValidationConfig};
use std::path::PathBuf;

fn defaults() -> Config {
    Config::default_with_home(PathBuf::from("/tmp/commit-home"))
}

fn same(a: &Config, b: &Config) -> bool {
    a.home == b.home
        && a.llm_command == b.llm_command
        && a.llm_profile == b.llm_profile
        && a.max_subject_chars == b.max_subject_chars
        && a.direct_commit_threshold == b.direct_commit_threshold
        && a.editor_threshold == b.editor_threshold
        && a.banned_phrases == b.banned_phrases
        && a.allowed_types == b.allowed_types
        && a.ast_enabled == b.ast_enabled
        && a.ast_max_file_bytes == b.ast_max_file_bytes
}

#[test]
fn defaults_follow_the_documented_settings() {
    let config = defaults();
    assert_eq!(config.llm_command, "llm");
    assert_eq!(config.llm_profile, None);
    assert_eq!(config.max_subject_chars, 80);
    assert_eq!(config.direct_commit_threshold, 5);
    assert_eq!(config.editor_threshold, 3);
    assert_eq!(config.allowed_types.len(), 11);
    assert_eq!(config.banned_phrases[2], "提升用户体验");
    assert!(!config.ast_enabled);
    assert_eq!(config.ast_max_file_bytes, 200_000);
}

#[test]
fn empty_file_keeps_every_setting() {
    let mut config = defaults();
    config.apply(FileConfig::default());
    assert!(same(&config, &defaults()));
}

#[test]
fn file_overrides_settings_it_names() {
    let file = || FileConfig {
        llm: Some(LlmConfig { command: None, profile: Some("deepseek".to_string()) }),
        message: Some(MessageConfig {
            max_subject_chars: Some(50),
            confidence_auto_threshold: Some(2),
            direct_commit_threshold: None,
            editor_threshold: None,
        }),
        validation: Some(ValidationConfig { banned_phrases: Some(Vec::new()), allowed_types: None }),
        ast: None,
    };
    let mut config = defaults();
    config.apply(file());
    assert_eq!(config.llm_command, "llm");
    assert_eq!(config.llm_profile, Some("deepseek".to_string()));
    assert_eq!(config.max_subject_chars, 50);
    assert_eq!(config.direct_commit_threshold, 2);
    assert!(config.banned_phrases.is_empty());
    assert_eq!(config.allowed_types, defaults().allowed_types);
    let once = {
        let mut c = defaults();
        c.apply(file());
        c
    };
    config.apply(file());
    assert!(same(&config, &once));
}
