use std::path::PathBuf;
use vstd::prelude::*;

verus! {

/// The standard library's owned path, carried through unread.
#[verifier::external_type_specification]
#[verifier::external_body]
pub struct ExPathBuf(PathBuf);

/// Settings that shape generation and validation.
#[derive(Debug)]
pub struct Config {
    pub home: PathBuf,
    pub llm_command: String,
    pub llm_profile: Option<String>,
    pub max_subject_chars: usize,
    pub direct_commit_threshold: u8,
    pub editor_threshold: u8,
    pub banned_phrases: Vec<String>,
    pub allowed_types: Vec<String>,
    pub ast_enabled: bool,
    pub ast_max_file_bytes: usize,
}

/// The contents of a configuration file; every setting is optional.
#[derive(Debug, Default)]
pub struct FileConfig {
    pub llm: Option<LlmConfig>,
    pub message: Option<MessageConfig>,
    pub validation: Option<ValidationConfig>,
    pub ast: Option<AstConfig>,
}

#[derive(Debug, Default)]
pub struct AstConfig {
    pub enabled: Option<bool>,
    pub max_file_bytes: Option<usize>,
}

#[derive(Debug, Default)]
pub struct LlmConfig {
    pub command: Option<String>,
    pub profile: Option<String>,
}

#[derive(Debug, Default)]
pub struct MessageConfig {
    pub max_subject_chars: Option<usize>,
    pub confidence_auto_threshold: Option<u8>,
    pub direct_commit_threshold: Option<u8>,
    pub editor_threshold: Option<u8>,
}

#[derive(Debug, Default)]
pub struct ValidationConfig {
    pub banned_phrases: Option<Vec<String>>,
    pub allowed_types: Option<Vec<String>>,
}

/// The views of a list of strings.
pub open spec fn strings_view(v: Seq<String>) -> Seq<Seq<char>> {
    v.map_values(|s: String| s@)
}

pub open spec fn default_banned_phrases() -> Seq<Seq<char>> {
    seq!["增强灵活性"@, "优化代码结构"@, "提升用户体验"@, "更新文档以反映"@]
}

pub open spec fn default_allowed_types() -> Seq<Seq<char>> {
    seq![
        "feat"@, "fix"@, "docs"@, "test"@, "ci"@, "build"@, "deps"@, "chore"@, "refactor"@,
        "perf"@, "style"@,
    ]
}

/// Builds a list of owned strings from string slices.
fn owned_strings(items: &[&str]) -> (r: Vec<String>)
    ensures
        strings_view(r@) == items@.map_values(|s: &str| s@),
{
    let mut r: Vec<String> = Vec::new();
    let mut i: usize = 0;
    while i < items.len()
        invariant
            i <= items@.len(),
            r@.len() == i,
            forall|k: int| 0 <= k < i ==> (#[trigger] r@[k])@ == items@[k]@,
        decreases items@.len() - i,
    {
        r.push(items[i].to_owned());
        i += 1;
    }
    assert(strings_view(r@) =~= items@.map_values(|s: &str| s@));
    r
}

impl Config {
    /// The built-in settings, rooted at `home`.
    pub fn default_with_home(home: PathBuf) -> (r: Config)
        ensures
            r.home == home,
            r.llm_command@ == "llm"@,
            r.llm_profile is None,
            r.max_subject_chars == 80,
            r.direct_commit_threshold == 5,
            r.editor_threshold == 3,
            strings_view(r.banned_phrases@) == default_banned_phrases(),
            strings_view(r.allowed_types@) == default_allowed_types(),
            !r.ast_enabled,
            r.ast_max_file_bytes == 200_000,
    {
        let banned = ["增强灵活性", "优化代码结构", "提升用户体验", "更新文档以反映"];
        let allowed = [
            "feat",
            "fix",
            "docs",
            "test",
            "ci",
            "build",
            "deps",
            "chore",
            "refactor",
            "perf",
            "style",
        ];
        let banned_phrases = owned_strings(&banned);
        let allowed_types = owned_strings(&allowed);
        assert(banned@.map_values(|s: &str| s@) =~= default_banned_phrases());
        assert(allowed@.map_values(|s: &str| s@) =~= default_allowed_types());
        Config {
            home,
            llm_command: "llm".to_owned(),
            llm_profile: None,
            max_subject_chars: 80,
            direct_commit_threshold: 5,
            editor_threshold: 3,
            banned_phrases,
            allowed_types,
            ast_enabled: false,
            ast_max_file_bytes: 200_000,
        }
    }
}

/// The settings after a file's overrides.
pub open spec fn applied(c: Config, f: FileConfig) -> Config {
    Config {
        home: c.home,
        llm_command: match f.llm {
            Some(l) => or_else_keep(l.command, c.llm_command),
            None => c.llm_command,
        },
        llm_profile: match f.llm {
            Some(l) => l.profile,
            None => c.llm_profile,
        },
        max_subject_chars: match f.message {
            Some(m) => or_else_keep(m.max_subject_chars, c.max_subject_chars),
            None => c.max_subject_chars,
        },
        direct_commit_threshold: match f.message {
            Some(m) => or_else_keep(
                m.direct_commit_threshold,
                or_else_keep(m.confidence_auto_threshold, c.direct_commit_threshold),
            ),
            None => c.direct_commit_threshold,
        },
        editor_threshold: match f.message {
            Some(m) => or_else_keep(m.editor_threshold, c.editor_threshold),
            None => c.editor_threshold,
        },
        banned_phrases: match f.validation {
            Some(v) => or_else_keep(v.banned_phrases, c.banned_phrases),
            None => c.banned_phrases,
        },
        allowed_types: match f.validation {
            Some(v) => or_else_keep(v.allowed_types, c.allowed_types),
            None => c.allowed_types,
        },
        ast_enabled: match f.ast {
            Some(a) => or_else_keep(a.enabled, c.ast_enabled),
            None => c.ast_enabled,
        },
        ast_max_file_bytes: match f.ast {
            Some(a) => or_else_keep(a.max_file_bytes, c.ast_max_file_bytes),
            None => c.ast_max_file_bytes,
        },
    }
}

/// A file without tables leaves every setting as it was.
pub proof fn law_empty_file_keeps_settings(c: Config)
    ensures
        applied(c, FileConfig { llm: None, message: None, validation: None, ast: None }) == c,
{
}

/// Applying the same file twice gives what applying it once gives.
pub proof fn law_apply_is_idempotent(c: Config, f: FileConfig)
    ensures
        applied(applied(c, f), f) == applied(c, f),
{
}

/// `o`'s value, or `d` when there is none.
pub open spec fn or_else_keep<T>(o: Option<T>, d: T) -> T {
    match o {
        Some(v) => v,
        None => d,
    }
}

impl Config {
    /// Overrides the settings that the file gives; a `[llm]` table replaces the profile
    /// whether or not it names one, and `direct_commit_threshold` wins over its older
    /// name `confidence_auto_threshold`.
    pub fn apply(&mut self, file_config: FileConfig)
        ensures
            *final(self) == applied(*old(self), file_config),
            final(self).home == old(self).home,
            final(self).llm_command == (match file_config.llm {
                Some(l) => or_else_keep(l.command, old(self).llm_command),
                None => old(self).llm_command,
            }),
            final(self).llm_profile == (match file_config.llm {
                Some(l) => l.profile,
                None => old(self).llm_profile,
            }),
            final(self).max_subject_chars == (match file_config.message {
                Some(m) => or_else_keep(m.max_subject_chars, old(self).max_subject_chars),
                None => old(self).max_subject_chars,
            }),
            final(self).direct_commit_threshold == (match file_config.message {
                Some(m) => or_else_keep(
                    m.direct_commit_threshold,
                    or_else_keep(m.confidence_auto_threshold, old(self).direct_commit_threshold),
                ),
                None => old(self).direct_commit_threshold,
            }),
            final(self).editor_threshold == (match file_config.message {
                Some(m) => or_else_keep(m.editor_threshold, old(self).editor_threshold),
                None => old(self).editor_threshold,
            }),
            final(self).banned_phrases == (match file_config.validation {
                Some(v) => or_else_keep(v.banned_phrases, old(self).banned_phrases),
                None => old(self).banned_phrases,
            }),
            final(self).allowed_types == (match file_config.validation {
                Some(v) => or_else_keep(v.allowed_types, old(self).allowed_types),
                None => old(self).allowed_types,
            }),
            final(self).ast_enabled == (match file_config.ast {
                Some(a) => or_else_keep(a.enabled, old(self).ast_enabled),
                None => old(self).ast_enabled,
            }),
            final(self).ast_max_file_bytes == (match file_config.ast {
                Some(a) => or_else_keep(a.max_file_bytes, old(self).ast_max_file_bytes),
                None => old(self).ast_max_file_bytes,
            }),
    {
        if let Some(llm) = file_config.llm {
            if let Some(command) = llm.command {
                self.llm_command = command;
            }
            self.llm_profile = llm.profile;
        }
        if let Some(message) = file_config.message {
            if let Some(max_subject_chars) = message.max_subject_chars {
                self.max_subject_chars = max_subject_chars;
            }
            if let Some(confidence_auto_threshold) = message.confidence_auto_threshold {
                self.direct_commit_threshold = confidence_auto_threshold;
            }
            if let Some(direct_commit_threshold) = message.direct_commit_threshold {
                self.direct_commit_threshold = direct_commit_threshold;
            }
            if let Some(editor_threshold) = message.editor_threshold {
                self.editor_threshold = editor_threshold;
            }
        }
        if let Some(validation) = file_config.validation {
            if let Some(banned_phrases) = validation.banned_phrases {
                self.banned_phrases = banned_phrases;
            }
            if let Some(allowed_types) = validation.allowed_types {
                self.allowed_types = allowed_types;
            }
        }
        if let Some(ast) = file_config.ast {
            if let Some(enabled) = ast.enabled {
                self.ast_enabled = enabled;
            }
            if let Some(max_file_bytes) = ast.max_file_bytes {
                self.ast_max_file_bytes = max_file_bytes;
            }
        }
    }
}

} // verus!
