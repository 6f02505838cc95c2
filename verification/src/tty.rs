//! The decisions of the interactive terminal flow: the card shown for a candidate, the
//! keys that answer it, the line of feedback typed before a new candidate, and what the
//! session does after each answer.
use vstd::prelude::*;
use vstd::string::StringExecFns;

use crate::runtime::{ExecuteOptions, TtyGenerateOptions};
use crate::text::{lines_of, std_lines, trim_of, trimmed, CharClass};
use crate::types::PriorAttempt;

verus! {

broadcast use vstd::string::group_string_axioms;

/// The keys that answer a card.
pub const HOTKEY_LINE: &'static str = "[Enter] 提交  [e] 编辑  [r] 换一条  [Ctrl-C] 取消";

/// The answer to a card.
#[derive(Debug, Clone, Copy, PartialEq, Eq, Structural)]
pub enum Action {
    Commit,
    Edit,
    Regenerate,
    Cancel,
}

/// A key as the terminal reports it; keys the flow does not read are `Other`.
#[derive(Debug, Clone, Copy, PartialEq, Eq, Structural)]
pub enum Key {
    Enter,
    Esc,
    Backspace,
    Char(char),
    Other,
}

/// The lines of a message, each followed by a line feed.
pub open spec fn lines_block(lines: Seq<Seq<char>>) -> Seq<char>
    decreases lines.len(),
{
    if lines.len() == 0 {
        seq![]
    } else {
        lines_block(lines.drop_last()) + lines.last() + "\n"@
    }
}

/// The card for a candidate: a blank line, the message's lines, a blank line and the
/// keys that answer it.
pub open spec fn card_text(message: Seq<char>) -> Seq<char> {
    "\n"@ + lines_block(std_lines(message)) + "\n"@ + HOTKEY_LINE@ + "\n"@
}

/// Shows a candidate message as a card.
pub fn format_card(message: &str) -> (r: String)
    ensures
        r@ == card_text(message@),
{
    let lines = lines_of(message);
    let ghost views = lines@.map_values(|x: String| x@);
    let mut output = String::new();
    output.append("\n");
    let mut i: usize = 0;
    while i < lines.len()
        invariant
            i <= lines@.len(),
            views == lines@.map_values(|x: String| x@),
            output@ == "\n"@ + lines_block(views.take(i as int)),
        decreases lines@.len() - i,
    {
        output.append(lines[i].as_str());
        output.append("\n");
        assert(views.take(i + 1).drop_last() =~= views.take(i as int));
        i += 1;
        assert(output@ =~= "\n"@ + lines_block(views.take(i as int)));
    }
    assert(views.take(i as int) =~= views);
    output.append("\n");
    output.append(HOTKEY_LINE);
    output.append("\n");
    assert(output@ =~= card_text(message@));
    output
}

/// The answer a key gives to a card: Enter commits, Ctrl-C cancels, and `e` or `r`,
/// in either case and without Ctrl, edit or ask for another candidate.
pub open spec fn spec_classify_key(code: Key, control: bool) -> Option<Action> {
    match code {
        Key::Enter => Some(Action::Commit),
        Key::Char(c) => if (c == 'c' || c == 'C') && control {
            Some(Action::Cancel)
        } else if control {
            None
        } else if c == 'e' || c == 'E' {
            Some(Action::Edit)
        } else if c == 'r' || c == 'R' {
            Some(Action::Regenerate)
        } else {
            None
        },
        _ => None,
    }
}

/// The answer a key press gives to a card; `control` is whether Ctrl was held.
pub fn classify_key(code: Key, control: bool) -> (r: Option<Action>)
    ensures
        r == spec_classify_key(code, control),
{
    match code {
        Key::Enter => Some(Action::Commit),
        Key::Char(c) => {
            if (c == 'c' || c == 'C') && control {
                Some(Action::Cancel)
            } else if control {
                None
            } else if c == 'e' || c == 'E' {
                Some(Action::Edit)
            } else if c == 'r' || c == 'R' {
                Some(Action::Regenerate)
            } else {
                None
            }
        },
        _ => None,
    }
}

/// How the line of feedback ended.
#[derive(Debug, Clone, PartialEq, Eq)]
pub enum FeedbackResult {
    /// Enter: the trimmed line, or nothing when it is blank.
    Submitted(Option<String>),
    /// Esc: back to the same candidate.
    Aborted,
    /// Ctrl-C: the session ends.
    Cancel,
}

/// What the terminal does after a key of the feedback line.
#[derive(Debug, Clone, PartialEq, Eq)]
pub enum FeedbackStep {
    /// Nothing changes.
    Ignore,
    /// The character joins the line and is shown.
    Echo(char),
    /// The last character left the line; it took this many columns.
    Erase(usize),
    /// The line is over.
    Done(FeedbackResult),
}

/// The number of columns `char` takes in a terminal, as `unicode_width` gives it.
pub uninterp spec fn unicode_char_width(c: char) -> Option<usize>;

/// `unicode_width::UnicodeWidthChar::width`: the columns a character takes, `None` for
/// control characters.
#[verifier::external_body]
fn char_width(c: char) -> (r: Option<usize>)
    ensures
        r == unicode_char_width(c),
{
    unicode_width::UnicodeWidthChar::width(c)
}

/// The columns to erase for a character taken off the line: its width, or one where
/// it has none.
pub open spec fn erase_width(c: char) -> usize {
    match unicode_char_width(c) {
        Some(w) => w,
        None => 1,
    }
}

/// The result of Enter on a line.
pub open spec fn submitted(line: Seq<char>) -> Option<Seq<char>> {
    let t = trim_of(line, CharClass::Whitespace);
    if t.len() == 0 {
        None
    } else {
        Some(t)
    }
}

pub open spec fn opt_string_view(o: Option<String>) -> Option<Seq<char>> {
    match o {
        Some(s) => Some(s@),
        None => None,
    }
}

/// Reads one key of the feedback line held in `buffer`: Ctrl-C cancels, Enter submits
/// the trimmed line, Esc aborts, Backspace takes off the last character, and any other
/// character without Ctrl joins the line.
pub fn feedback_key(buffer: &mut String, code: Key, control: bool) -> (r: FeedbackStep)
    ensures
        control && code == Key::Char('c') ==> r == FeedbackStep::Done(FeedbackResult::Cancel)
            && final(buffer)@ == old(buffer)@,
        !(control && code == Key::Char('c')) ==> match code {
            Key::Enter => final(buffer)@ == old(buffer)@ && (r matches FeedbackStep::Done(
                FeedbackResult::Submitted(s),
            ) && opt_string_view(s) == submitted(old(buffer)@)),
            Key::Esc => final(buffer)@ == old(buffer)@ && r == FeedbackStep::Done(
                FeedbackResult::Aborted,
            ),
            Key::Backspace => if old(buffer)@.len() == 0 {
                final(buffer)@ == old(buffer)@ && r == FeedbackStep::Ignore
            } else {
                final(buffer)@ == old(buffer)@.drop_last() && r == FeedbackStep::Erase(
                    erase_width(old(buffer)@.last()),
                )
            },
            Key::Char(c) => if control {
                final(buffer)@ == old(buffer)@ && r == FeedbackStep::Ignore
            } else {
                final(buffer)@ == old(buffer)@.push(c) && r == FeedbackStep::Echo(c)
            },
            Key::Other => final(buffer)@ == old(buffer)@ && r == FeedbackStep::Ignore,
        },
{
    if control && code == Key::Char('c') {
        return FeedbackStep::Done(FeedbackResult::Cancel);
    }
    match code {
        Key::Enter => {
            let t = trimmed(buffer.as_str());
            if t.as_str().is_empty() {
                FeedbackStep::Done(FeedbackResult::Submitted(None))
            } else {
                FeedbackStep::Done(FeedbackResult::Submitted(Some(t)))
            }
        },
        Key::Esc => FeedbackStep::Done(FeedbackResult::Aborted),
        Key::Backspace => {
            let mut cs = crate::text::chars_of(buffer.as_str());
            match cs.pop() {
                Some(c) => {
                    *buffer = crate::text::string_of(cs.as_slice());
                    let w = match char_width(c) {
                        Some(w) => w,
                        None => 1,
                    };
                    FeedbackStep::Erase(w)
                },
                None => FeedbackStep::Ignore,
            }
        },
        Key::Char(c) => {
            if control {
                FeedbackStep::Ignore
            } else {
                buffer.push(c);
                FeedbackStep::Echo(c)
            }
        },
        Key::Other => FeedbackStep::Ignore,
    }
}

} // verus!

verus! {

/// Where the next candidate of a session comes from.
#[derive(Debug, Clone, PartialEq, Eq)]
pub enum CandidateSource {
    /// A new candidate from the model, with the user's latest feedback.
    Fresh { feedback: Option<String> },
    /// A message shown again as it is: an edit that failed validation, or the last
    /// candidate after an aborted feedback line.
    PreservedEdit(String),
}

/// An interactive session: where the next candidate comes from and the candidates
/// shown so far with the feedback on each.
#[derive(Debug)]
pub struct InteractiveSession {
    pub source: CandidateSource,
    pub prior_attempts: Vec<PriorAttempt>,
}

fn clone_attempts(v: &Vec<PriorAttempt>) -> (r: Vec<PriorAttempt>)
    ensures
        r@ == v@,
{
    let mut r: Vec<PriorAttempt> = Vec::new();
    let mut i: usize = 0;
    while i < v.len()
        invariant
            i <= v@.len(),
            r@ == v@.take(i as int),
        decreases v@.len() - i,
    {
        let a = &v[i];
        r.push(PriorAttempt { message: a.message.clone(), feedback: a.feedback.clone() });
        i += 1;
        assert(r@ =~= v@.take(i as int));
    }
    assert(v@.take(i as int) =~= v@);
    r
}

fn clone_opt(o: &Option<String>) -> (r: Option<String>)
    ensures
        r == *o,
{
    match o {
        Some(s) => Some(s.clone()),
        None => None,
    }
}

impl InteractiveSession {
    /// A session that starts with a fresh candidate and no feedback.
    pub fn new() -> (r: Self)
        ensures
            r.source == (CandidateSource::Fresh { feedback: None }),
            r.prior_attempts@.len() == 0,
    {
        InteractiveSession {
            source: CandidateSource::Fresh { feedback: None },
            prior_attempts: Vec::new(),
        }
    }

    /// What to ask the model for the next candidate; `None` when the preserved message
    /// is shown again instead.
    pub fn generate_options(&self) -> (r: Option<TtyGenerateOptions>)
        ensures
            match self.source {
                CandidateSource::Fresh { feedback } => r matches Some(o) && o.feedback == feedback
                    && o.prior_attempts@ == self.prior_attempts@,
                CandidateSource::PreservedEdit(_) => r is None,
            },
    {
        match &self.source {
            CandidateSource::Fresh { feedback } => Some(
                TtyGenerateOptions {
                    feedback: clone_opt(feedback),
                    prior_attempts: clone_attempts(&self.prior_attempts),
                },
            ),
            CandidateSource::PreservedEdit(_) => None,
        }
    }

    /// Takes the end of a feedback line typed after `message` was shown. Submitted
    /// feedback, or none, records the candidate as an attempt and asks for a fresh one;
    /// an aborted line shows the candidate again; a cancelled line ends the session,
    /// and `false` comes back.
    pub fn after_feedback(&mut self, message: String, result: FeedbackResult) -> (go_on: bool)
        ensures
            match result {
                FeedbackResult::Submitted(feedback) => {
                    &&& go_on
                    &&& final(self).prior_attempts@.drop_last() == old(self).prior_attempts@
                    &&& final(self).prior_attempts@.len() == old(self).prior_attempts@.len() + 1
                    &&& final(self).prior_attempts@.last().message == message
                    &&& final(self).prior_attempts@.last().feedback@ == match feedback {
                        Some(f) => f@,
                        None => Seq::<char>::empty(),
                    }
                    &&& final(self).source == (CandidateSource::Fresh { feedback })
                },
                FeedbackResult::Aborted => go_on && final(self).prior_attempts@
                    == old(self).prior_attempts@ && final(self).source
                    == CandidateSource::PreservedEdit(message),
                FeedbackResult::Cancel => !go_on && final(self).prior_attempts@
                    == old(self).prior_attempts@ && final(self).source == old(self).source,
            },
    {
        match result {
            FeedbackResult::Submitted(feedback) => {
                let text = match &feedback {
                    Some(f) => f.clone(),
                    None => String::new(),
                };
                self.prior_attempts.push(PriorAttempt { message, feedback: text });
                self.source = CandidateSource::Fresh { feedback };
                true
            },
            FeedbackResult::Aborted => {
                self.source = CandidateSource::PreservedEdit(message);
                true
            },
            FeedbackResult::Cancel => false,
        }
    }

    /// An edited message failed validation: it is shown again as it is.
    pub fn after_rejected_edit(&mut self, edited: String)
        ensures
            final(self).source == CandidateSource::PreservedEdit(edited),
            final(self).prior_attempts@ == old(self).prior_attempts@,
    {
        self.source = CandidateSource::PreservedEdit(edited);
    }
}

/// The commit of `final_message` for a shown candidate, which is recorded as its draft.
pub fn commit_options(candidate: String, final_message: String) -> (r: ExecuteOptions)
    ensures
        r.message == final_message,
        r.generated_message == Some(candidate),
{
    ExecuteOptions { message: final_message, generated_message: Some(candidate) }
}

} // verus!

verus! {

/// The answer keys read `e` and `r` in either case, and not while Ctrl is held; Ctrl-C
/// cancels in either case.
pub proof fn law_answer_keys_ignore_case(control: bool)
    ensures
        spec_classify_key(Key::Char('e'), control) == spec_classify_key(Key::Char('E'), control),
        spec_classify_key(Key::Char('r'), control) == spec_classify_key(Key::Char('R'), control),
        control ==> spec_classify_key(Key::Char('e'), control) is None && spec_classify_key(
            Key::Char('r'),
            control,
        ) is None,
        control ==> spec_classify_key(Key::Char('c'), control) == Some(Action::Cancel)
            && spec_classify_key(Key::Char('C'), control) == Some(Action::Cancel),
{
}

} // verus!

verus! {

proof fn lemma_block_holds_line(lines: Seq<Seq<char>>, i: int)
    requires
        0 <= i < lines.len(),
    ensures
        crate::text::contains_seq(lines_block(lines), lines[i] + "\n"@),
    decreases lines.len(),
{
    let part = lines[i] + "\n"@;
    let rest = lines_block(lines.drop_last());
    if i == lines.len() - 1 {
        assert(lines_block(lines) =~= rest + part);
        assert(lines_block(lines).subrange(rest.len() as int, (rest.len() + part.len()) as int) =~= part);
        assert(crate::text::occurs_at(lines_block(lines), part, rest.len() as int));
    } else {
        lemma_block_holds_line(lines.drop_last(), i);
        assert(lines.drop_last()[i] == lines[i]);
        let k = choose|k: int| crate::text::occurs_at(rest, part, k);
        assert(lines_block(lines) =~= rest + lines.last() + "\n"@);
        assert(lines_block(lines).subrange(k, k + part.len()) =~= rest.subrange(k, k + part.len()));
        assert(crate::text::occurs_at(lines_block(lines), part, k));
    }
}

/// Every line of a candidate shows on its card, on a line of its own.
pub proof fn law_card_shows_every_line(message: Seq<char>, i: int)
    requires
        0 <= i < std_lines(message).len(),
    ensures
        crate::text::contains_seq(card_text(message), std_lines(message)[i] + "\n"@),
{
    let lines = std_lines(message);
    let part = lines[i] + "\n"@;
    lemma_block_holds_line(lines, i);
    let b = lines_block(lines);
    let k = choose|k: int| crate::text::occurs_at(b, part, k);
    let card = card_text(message);
    let pre = "\n"@;
    assert(card =~= pre + b + ("\n"@ + HOTKEY_LINE@ + "\n"@));
    assert(card.subrange(pre.len() + k, pre.len() + k + part.len()) =~= b.subrange(k, k + part.len()));
    assert(crate::text::occurs_at(card, part, pre.len() + k));
}

} // verus!
