use vstd::prelude::*;
use vstd::slice::slice_subrange;
use vstd::string::StringExecFns;

use crate::config::{strings_view, Config};
use crate::text::{
    chars_eq_ignore_ascii_case, chars_of, contains_chars, contains_seq, decimal,
    eq_ignore_ascii_case, find_char, find_char_from, join, push_decimal, push_joined,
    skip_backward, trim_end_of, CharClass,
};
use super::ast::{CommitMessage, SpecHeader};
use super::error::{LintError, LintErrorKind};

verus! {

/// The policy violations that the linter reports.
pub enum SpecLintError {
    SubjectTooLong { max: nat, actual: nat },
    SubjectEndsWithPunctuation,
    BannedPhrase(Seq<char>),
    DisallowedType(Seq<char>),
}

pub open spec fn lint_kind_view(k: LintErrorKind) -> SpecLintError {
    match k {
        LintErrorKind::SubjectTooLong { max, actual } => SpecLintError::SubjectTooLong {
            max: max as nat,
            actual: actual as nat,
        },
        LintErrorKind::SubjectEndsWithPunctuation => SpecLintError::SubjectEndsWithPunctuation,
        LintErrorKind::BannedPhrase { phrase } => SpecLintError::BannedPhrase(phrase@),
        LintErrorKind::DisallowedType { ty } => SpecLintError::DisallowedType(ty@),
    }
}

/// The subject: the first line of the raw message, without trailing carriage returns.
pub open spec fn subject_of(raw: Seq<char>) -> Seq<char> {
    trim_end_of(raw.subrange(0, find_char(raw, '\n', 0)), CharClass::CarriageReturn)
}

/// Sentence-closing punctuation, ASCII and full-width.
pub open spec fn is_closing_punct(c: char) -> bool {
    c == '.' || c == '。' || c == '!' || c == '！' || c == '?' || c == '？'
}

/// The index of the first phrase at or after `i` that occurs in `raw`.
pub open spec fn first_banned(raw: Seq<char>, phrases: Seq<Seq<char>>, i: int) -> Option<int>
    decreases phrases.len() - i,
{
    if i < 0 || i >= phrases.len() {
        None
    } else if contains_seq(raw, phrases[i]) {
        Some(i)
    } else {
        first_banned(raw, phrases, i + 1)
    }
}

/// Some allowed type equals `ty` up to ASCII case.
pub open spec fn type_allowed(ty: Seq<char>, allowed: Seq<Seq<char>>) -> bool {
    exists|i: int| 0 <= i < allowed.len() && eq_ignore_ascii_case(#[trigger] allowed[i], ty)
}

/// The first policy violation of a parsed message, checked in this order: subject
/// length, closing punctuation, banned phrases, allowed types.
pub open spec fn spec_lint(
    header: SpecHeader,
    raw: Seq<char>,
    max: nat,
    banned: Seq<Seq<char>>,
    allowed: Seq<Seq<char>>,
) -> Option<SpecLintError> {
    let actual = subject_of(raw).len();
    if actual > max {
        Some(SpecLintError::SubjectTooLong { max, actual })
    } else if header.description.len() > 0 && is_closing_punct(header.description.last()) {
        Some(SpecLintError::SubjectEndsWithPunctuation)
    } else if let Some(i) = first_banned(raw, banned, 0) {
        Some(SpecLintError::BannedPhrase(banned[i]))
    } else if !type_allowed(header.ty, allowed) {
        Some(SpecLintError::DisallowedType(header.ty))
    } else {
        None
    }
}

/// The text that goes with each violation.
pub open spec fn lint_error_text(e: SpecLintError, allowed: Seq<Seq<char>>) -> Seq<char> {
    match e {
        SpecLintError::SubjectTooLong { max, .. } => "commit subject is longer than "@ + decimal(max)
            + " characters"@,
        SpecLintError::SubjectEndsWithPunctuation => "commit subject must not end with punctuation"@,
        SpecLintError::BannedPhrase(p) => "commit message contains banned phrase: "@ + p,
        SpecLintError::DisallowedType(ty) => "commit type '"@ + ty + "' is not allowed; allowed types: "@
            + join(allowed, ", "@),
    }
}

/// Checks a parsed message against the configured policy.
pub fn lint(commit: &CommitMessage<'_>, raw: &str, config: &Config) -> (r: Result<(), LintError>)
    ensures
        r is Ok <==> spec_lint(
            commit.header@,
            raw@,
            config.max_subject_chars as nat,
            strings_view(config.banned_phrases@),
            strings_view(config.allowed_types@),
        ) is None,
        r matches Err(e) ==> Some(lint_kind_view(e.kind)) == spec_lint(
            commit.header@,
            raw@,
            config.max_subject_chars as nat,
            strings_view(config.banned_phrases@),
            strings_view(config.allowed_types@),
        ) && e.message@ == lint_error_text(lint_kind_view(e.kind), strings_view(config.allowed_types@)),
{
    let ghost banned = strings_view(config.banned_phrases@);
    let ghost allowed = strings_view(config.allowed_types@);
    let raw_chars = chars_of(raw);
    let line_end = find_char_from(raw_chars.as_slice(), '\n', 0);
    let first_line = slice_subrange(raw_chars.as_slice(), 0, line_end);
    let actual = skip_backward(first_line, line_end, CharClass::CarriageReturn);
    assert(actual == subject_of(raw@).len());
    if actual > config.max_subject_chars {
        let mut message = String::from_str("commit subject is longer than ");
        push_decimal(&mut message, config.max_subject_chars);
        message.append(" characters");
        return Err(LintError::new(
            LintErrorKind::SubjectTooLong { max: config.max_subject_chars, actual },
            message,
        ));
    }
    let description = chars_of(commit.header.description);
    let dl = description.len();
    assert(description@ == commit.header@.description);
    if dl > 0 {
        let c = description[dl - 1];
        if c == '.' || c == '。' || c == '!' || c == '！' || c == '?' || c == '？' {
            return Err(LintError::new(
                LintErrorKind::SubjectEndsWithPunctuation,
                String::from_str("commit subject must not end with punctuation"),
            ));
        }
    }
    let mut i: usize = 0;
    while i < config.banned_phrases.len()
        invariant
            i <= config.banned_phrases@.len(),
            banned == strings_view(config.banned_phrases@),
            raw_chars@ == raw@,
            first_banned(raw@, banned, i as int) == first_banned(raw@, banned, 0),
            subject_of(raw@).len() <= config.max_subject_chars,
            !(commit.header.description@.len() > 0 && is_closing_punct(commit.header.description@.last())),
        decreases config.banned_phrases@.len() - i,
    {
        let phrase = chars_of(config.banned_phrases[i].as_str());
        assert(banned[i as int] == config.banned_phrases@[i as int]@);
        if contains_chars(raw_chars.as_slice(), phrase.as_slice()) {
            let mut message = String::from_str("commit message contains banned phrase: ");
            message.append(config.banned_phrases[i].as_str());
            return Err(LintError::new(
                LintErrorKind::BannedPhrase { phrase: config.banned_phrases[i].clone() },
                message,
            ));
        }
        i += 1;
    }
    let ty = chars_of(commit.header.ty);
    let mut j: usize = 0;
    while j < config.allowed_types.len()
        invariant
            j <= config.allowed_types@.len(),
            allowed == strings_view(config.allowed_types@),
            ty@ == commit.header.ty@,
            first_banned(raw@, banned, 0) is None,
            banned == strings_view(config.banned_phrases@),
            subject_of(raw@).len() <= config.max_subject_chars,
            !(commit.header.description@.len() > 0 && is_closing_punct(commit.header.description@.last())),
            forall|k: int| 0 <= k < j ==> !eq_ignore_ascii_case(#[trigger] allowed[k], ty@),
        decreases config.allowed_types@.len() - j,
    {
        let candidate = chars_of(config.allowed_types[j].as_str());
        if chars_eq_ignore_ascii_case(candidate.as_slice(), ty.as_slice()) {
            assert(eq_ignore_ascii_case(allowed[j as int], ty@));
            assert(commit.header@.ty == ty@);
            assert(type_allowed(commit.header@.ty, allowed));
            return Ok(());
        }
        j += 1;
    }
    let mut message = String::from_str("commit type '");
    message.append(commit.header.ty);
    message.append("' is not allowed; allowed types: ");
    push_joined(&mut message, &config.allowed_types, ", ");
    Err(LintError::new(LintErrorKind::DisallowedType { ty: commit.header.ty.to_owned() }, message))
}

} // verus!
