pub mod ast;
pub mod error;
pub mod lint;
pub mod parser;

pub use ast::{CommitMessage, Footer, FooterSeparator, Header};
pub use error::{LintError, LintErrorKind, MessageError, ParseError, ParseErrorKind};
pub use lint::lint;
pub use parser::parse;

use vstd::prelude::*;

use crate::config::{strings_view, Config};
use error::{message_error_text, parse_error_text};
use lint::{
    first_banned, is_closing_punct, lint_error_text, lint_kind_view, spec_lint, subject_of,
    type_allowed, SpecLintError,
};
use parser::spec_parse;
use crate::text::{
    contains_seq, eq_ignore_ascii_case, find_char, lemma_find_char, lemma_skip_bwd, skip_bwd, CharClass,
};

verus! {

/// The outcome of validating a message: accepted, or rejected with a text.
pub open spec fn spec_validate(msg: Seq<char>, config: Config) -> Result<(), Seq<char>> {
    match spec_parse(msg) {
        Err(k) => Err(parse_error_text(k)),
        Ok(m) => match spec_lint(
            m.header,
            msg,
            config.max_subject_chars as nat,
            strings_view(config.banned_phrases@),
            strings_view(config.allowed_types@),
        ) {
            None => Ok(()),
            Some(e) => Err(lint_error_text(e, strings_view(config.allowed_types@))),
        },
    }
}

/// Parses a message and checks it against the policy.
pub fn validate_structured<'a>(message: &'a str, config: &Config) -> (r: Result<CommitMessage<'a>, MessageError>)
    ensures
        match r {
            Ok(m) => spec_parse(message@) == Ok::<_, error::ParseErrorKind>(m@) && spec_validate(message@, *config) is Ok,
            Err(MessageError::Parse(e)) => spec_parse(message@) == Err::<ast::SpecCommitMessage, _>(e.kind)
                && e.message@ == parse_error_text(e.kind),
            Err(MessageError::Lint(e)) => spec_parse(message@) matches Ok(m) && spec_lint(
                m.header,
                message@,
                config.max_subject_chars as nat,
                strings_view(config.banned_phrases@),
                strings_view(config.allowed_types@),
            ) == Some(lint_kind_view(e.kind)) && e.message@ == lint_error_text(
                lint_kind_view(e.kind),
                strings_view(config.allowed_types@),
            ),
        },
        r is Ok <==> spec_validate(message@, *config) is Ok,
        r matches Err(e) ==> spec_validate(message@, *config) == Err::<(), Seq<char>>(message_error_text(e)),
{
    let parsed = match parse(message) {
        Ok(p) => p,
        Err(e) => {
            return Err(MessageError::Parse(e));
        },
    };
    match lint(&parsed, message, config) {
        Ok(()) => Ok(parsed),
        Err(e) => Err(MessageError::Lint(e)),
    }
}

/// Validates a message; a rejection carries the error's text.
pub fn validate(message: &str, config: &Config) -> (r: Result<(), String>)
    ensures
        match (r, spec_validate(message@, *config)) {
            (Ok(_), Ok(_)) => true,
            (Err(s), Err(t)) => s@ == t,
            _ => false,
        },
{
    match validate_structured(message, config) {
        Ok(_) => Ok(()),
        Err(error) => Err(error.to_string()),
    }
}

} // verus!

verus! {

/// The policy is stricter than the grammar: a message that passes validation parses,
/// its type is among the allowed ones up to ASCII case, its subject fits the limit,
/// its description does not end in closing punctuation, and it holds no banned phrase.
pub proof fn law_valid_messages_parse_and_follow_policy(msg: Seq<char>, config: Config)
    requires
        spec_validate(msg, config) is Ok,
    ensures
        spec_parse(msg) is Ok,
        spec_parse(msg) matches Ok(m) && {
            &&& type_allowed(m.header.ty, strings_view(config.allowed_types@))
            &&& subject_of(msg).len() <= config.max_subject_chars
            &&& !(m.header.description.len() > 0 && is_closing_punct(m.header.description.last()))
            &&& first_banned(msg, strings_view(config.banned_phrases@), 0) is None
        },
{
}

proof fn lemma_no_banned_phrase(raw: Seq<char>, phrases: Seq<Seq<char>>, i: int)
    requires
        0 <= i,
        forall|k: int| 0 <= k < phrases.len() ==> !contains_seq(raw, #[trigger] phrases[k]),
    ensures
        first_banned(raw, phrases, i) is None,
    decreases phrases.len() - i,
{
    if i < phrases.len() {
        lemma_no_banned_phrase(raw, phrases, i + 1);
    }
}

/// The policy accepts what it does not forbid: a message that parses is valid when
/// its first line, up to the first line feed, holds at most `max_subject_chars`
/// characters, its description does not end in `.`, `!`, `?` or their full-width
/// forms, it contains none of the banned phrases, and its type equals an allowed type
/// up to ASCII case. Only the first line is measured: a body of any length is allowed.
pub proof fn law_policy_conforming_messages_are_valid(msg: Seq<char>, config: Config, first_line_end: int)
    requires
        spec_parse(msg) is Ok,
        0 <= first_line_end <= msg.len(),
        forall|k: int| 0 <= k < first_line_end ==> msg[k] != '\n',
        first_line_end < msg.len() ==> msg[first_line_end] == '\n',
        first_line_end <= config.max_subject_chars,
        spec_parse(msg) matches Ok(m) && (m.header.description.len() == 0 || {
            let c = m.header.description.last();
            c != '.' && c != '。' && c != '!' && c != '！' && c != '?' && c != '？'
        }),
        forall|k: int|
            0 <= k < config.banned_phrases@.len() ==> !contains_seq(msg, #[trigger] config.banned_phrases@[k]@),
        spec_parse(msg) matches Ok(m) && exists|k: int|
            0 <= k < config.allowed_types@.len() && eq_ignore_ascii_case(
                #[trigger] config.allowed_types@[k]@,
                m.header.ty,
            ),
    ensures
        spec_validate(msg, config) is Ok,
{
    let m = spec_parse(msg)->Ok_0;
    lemma_find_char(msg, '\n', 0);
    let e = find_char(msg, '\n', 0);
    if e < first_line_end {
        assert(msg[e] == '\n');
    }
    if e > first_line_end {
        assert(msg[first_line_end] == '\n');
    }
    let line = msg.subrange(0, e);
    lemma_skip_bwd(line, line.len() as int, CharClass::CarriageReturn);
    assert(subject_of(msg).len() <= config.max_subject_chars);
    let banned = strings_view(config.banned_phrases@);
    assert forall|k: int| 0 <= k < banned.len() implies !contains_seq(msg, #[trigger] banned[k]) by {
        assert(banned[k] == config.banned_phrases@[k]@);
    }
    lemma_no_banned_phrase(msg, banned, 0);
    let allowed = strings_view(config.allowed_types@);
    let k = choose|k: int|
        0 <= k < config.allowed_types@.len() && eq_ignore_ascii_case(
            #[trigger] config.allowed_types@[k]@,
            m.header.ty,
        );
    assert(allowed[k] == config.allowed_types@[k]@);
    assert(type_allowed(m.header.ty, allowed));
}

} // verus!
