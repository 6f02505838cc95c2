use vstd::prelude::*;
use vstd::string::StringExecFns;

use crate::git::{changed_files, spec_parse_name_status};
use crate::llm::{Coverage, LlmJudgement, Risk};
use crate::text::{lines_of, std_lines};
use crate::types::{commit_type_name, CommitType, GitContext};

verus! {

/// A score from 1 to 5 with the reasons for and against it.
#[derive(Debug, Clone, PartialEq, Eq)]
pub struct ConfidenceReport {
    pub score: u8,
    pub reasons: Vec<String>,
    pub warnings: Vec<String>,
}

pub struct SpecReport {
    pub score: int,
    pub reasons: Seq<Seq<char>>,
    pub warnings: Seq<Seq<char>>,
}

pub open spec fn clamp_score(s: int) -> int {
    if s < 1 {
        1
    } else if s > 5 {
        5
    } else {
        s
    }
}

/// A report under construction: the raw score and the two lists.
pub open spec fn step(r: SpecReport, delta: int, reason: Option<Seq<char>>, warning: Option<Seq<char>>) -> SpecReport {
    SpecReport {
        score: r.score + delta,
        reasons: match reason {
            Some(x) => r.reasons.push(x),
            None => r.reasons,
        },
        warnings: match warning {
            Some(x) => r.warnings.push(x),
            None => r.warnings,
        },
    }
}

/// The report before clamping. From 3: one file adds 1 and more than three take 1;
/// an inferred type adds 1, none takes 1; more than 80 diff lines take 1; a failed
/// validation sets the score to 1; complete coverage adds 1, partial takes 1, unclear
/// takes 2; medium risk takes 1, high takes 2; needing feedback takes 2.
pub open spec fn raw_report(
    n_files: nat,
    inferred: Option<CommitType>,
    diff_lines: nat,
    validation_passed: bool,
    coverage: Coverage,
    risk: Risk,
    needs_feedback: bool,
    reason: Seq<char>,
) -> SpecReport {
    let r0 = SpecReport { score: 3, reasons: seq![], warnings: seq![] };
    let r1 = if n_files == 1 {
        step(r0, 1, Some("single file change"@), None)
    } else if n_files <= 3 {
        step(r0, 0, Some("small file set"@), None)
    } else {
        step(r0, -1, None, Some("many changed files"@))
    };
    let r2 = match inferred {
        Some(t) => step(r1, 1, Some("inferred type: "@ + commit_type_name(t)), None),
        None => step(r1, -1, None, Some("unknown type"@)),
    };
    let r3 = if diff_lines <= 80 {
        step(r2, 0, Some("small diff"@), None)
    } else {
        step(r2, -1, None, Some("large diff"@))
    };
    let r4 = if validation_passed {
        step(r3, 0, Some("message validator passed"@), None)
    } else {
        step(r3, 1 - r3.score, None, Some("message validator failed"@))
    };
    let r5 = match coverage {
        Coverage::Complete => step(r4, 1, Some("semantic coverage: complete"@), None),
        Coverage::Partial => step(r4, -1, None, Some("semantic coverage: partial"@)),
        Coverage::Unclear => step(r4, -2, None, Some("semantic coverage: unclear"@)),
    };
    let r6 = match risk {
        Risk::Low => step(r5, 0, Some("semantic risk: low"@), None),
        Risk::Medium => step(r5, -1, None, Some("semantic risk: medium"@)),
        Risk::High => step(r5, -2, None, Some("semantic risk: high"@)),
    };
    if needs_feedback {
        step(r6, -2, None, Some("needs feedback: "@ + reason))
    } else {
        r6
    }
}

/// The confidence report of a context and a critique's verdict.
pub open spec fn spec_analyze(
    context: GitContext,
    coverage: Coverage,
    risk: Risk,
    needs_feedback: bool,
    reason: Seq<char>,
    validation_passed: bool,
) -> SpecReport {
    let r = raw_report(
        spec_parse_name_status(context.staged_name_status@).len(),
        context.inferred_type,
        std_lines(context.staged_diff@).len(),
        validation_passed,
        coverage,
        risk,
        needs_feedback,
        reason,
    );
    SpecReport { score: clamp_score(r.score), reasons: r.reasons, warnings: r.warnings }
}

pub open spec fn report_view(r: ConfidenceReport) -> SpecReport {
    SpecReport {
        score: r.score as int,
        reasons: r.reasons@.map_values(|s: String| s@),
        warnings: r.warnings@.map_values(|s: String| s@),
    }
}

fn push_str(v: &mut Vec<String>, s: String)
    ensures
        final(v)@.map_values(|x: String| x@) == old(v)@.map_values(|x: String| x@).push(s@),
{
    v.push(s);
    assert(final(v)@.map_values(|x: String| x@) =~= old(v)@.map_values(|x: String| x@).push(s@));
}

/// Scores how much a generated message can be trusted.
pub fn analyze(context: &GitContext, judgement: &LlmJudgement, validation_passed: bool) -> (r: ConfidenceReport)
    ensures
        report_view(r) == spec_analyze(
            *context,
            judgement.coverage,
            judgement.risk,
            judgement.needs_feedback,
            judgement.reason@,
            validation_passed,
        ),
        1 <= r.score <= 5,
{
    let files = changed_files(context);
    let n = files.len();
    let mut score: i8 = 3;
    let mut reasons: Vec<String> = Vec::new();
    let mut warnings: Vec<String> = Vec::new();
    let ghost r0 = SpecReport { score: 3, reasons: seq![], warnings: seq![] };
    assert(reasons@.map_values(|x: String| x@) =~= seq![]);
    assert(warnings@.map_values(|x: String| x@) =~= seq![]);

    if n == 1 {
        score += 1;
        push_str(&mut reasons, "single file change".to_owned());
    } else if n <= 3 {
        push_str(&mut reasons, "small file set".to_owned());
    } else {
        score -= 1;
        push_str(&mut warnings, "many changed files".to_owned());
    }

    match context.inferred_type {
        Some(inferred_type) => {
            score += 1;
            let mut m = "inferred type: ".to_owned();
            m.append(inferred_type.as_str());
            push_str(&mut reasons, m);
        },
        None => {
            score -= 1;
            push_str(&mut warnings, "unknown type".to_owned());
        },
    }

    let diff_lines = lines_of(context.staged_diff.as_str());
    if diff_lines.len() <= 80 {
        push_str(&mut reasons, "small diff".to_owned());
    } else {
        score -= 1;
        push_str(&mut warnings, "large diff".to_owned());
    }

    if validation_passed {
        push_str(&mut reasons, "message validator passed".to_owned());
    } else {
        score = 1;
        push_str(&mut warnings, "message validator failed".to_owned());
    }

    match judgement.coverage {
        Coverage::Complete => {
            score += 1;
            push_str(&mut reasons, "semantic coverage: complete".to_owned());
        },
        Coverage::Partial => {
            score -= 1;
            push_str(&mut warnings, "semantic coverage: partial".to_owned());
        },
        Coverage::Unclear => {
            score -= 2;
            push_str(&mut warnings, "semantic coverage: unclear".to_owned());
        },
    }

    match judgement.risk {
        Risk::Low => push_str(&mut reasons, "semantic risk: low".to_owned()),
        Risk::Medium => {
            score -= 1;
            push_str(&mut warnings, "semantic risk: medium".to_owned());
        },
        Risk::High => {
            score -= 2;
            push_str(&mut warnings, "semantic risk: high".to_owned());
        },
    }

    if judgement.needs_feedback {
        score -= 2;
        let mut m = "needs feedback: ".to_owned();
        m.append(judgement.reason.as_str());
        push_str(&mut warnings, m);
    }

    let clamped: u8 = if score < 1 {
        1
    } else if score > 5 {
        5
    } else {
        score as u8
    };
    ConfidenceReport { score: clamped, reasons, warnings }
}

/// The score of a context with a passing critique and validation.
pub fn score(context: &GitContext) -> (r: u8)
    ensures
        r == spec_analyze(*context, Coverage::Complete, Risk::Low, false, "critique passed"@, true).score,
{
    analyze(context, &LlmJudgement::ok(), true).score
}

} // verus!

verus! {

/// How good a coverage verdict is: complete above partial above unclear.
pub open spec fn coverage_rank(c: Coverage) -> int {
    match c {
        Coverage::Complete => 2,
        Coverage::Partial => 1,
        Coverage::Unclear => 0,
    }
}

/// How good a risk verdict is: low above medium above high.
pub open spec fn risk_rank(r: Risk) -> int {
    match r {
        Risk::Low => 2,
        Risk::Medium => 1,
        Risk::High => 0,
    }
}

/// A worse verdict never raises the confidence: with everything else equal, asking for
/// feedback lowers the raw score by exactly 2, each step down in coverage or risk
/// lowers it, and after clamping none of these makes the score higher. The score
/// always lies between 1 and 5.
pub proof fn law_worse_verdicts_never_score_higher(
    context: GitContext,
    coverage: Coverage,
    coverage2: Coverage,
    risk: Risk,
    risk2: Risk,
    needs_feedback: bool,
    needs_feedback2: bool,
    reason: Seq<char>,
    validation_passed: bool,
)
    ensures
        ({
            let n = spec_parse_name_status(context.staged_name_status@).len();
            let d = std_lines(context.staged_diff@).len();
            raw_report(n, context.inferred_type, d, validation_passed, coverage, risk, true, reason).score
                == raw_report(n, context.inferred_type, d, validation_passed, coverage, risk, false, reason).score
                - 2
        }),
        coverage_rank(coverage2) <= coverage_rank(coverage) && risk_rank(risk2) <= risk_rank(risk) && (
        needs_feedback2 || !needs_feedback) ==> spec_analyze(
            context,
            coverage2,
            risk2,
            needs_feedback2,
            reason,
            validation_passed,
        ).score <= spec_analyze(context, coverage, risk, needs_feedback, reason, validation_passed).score,
        1 <= spec_analyze(context, coverage, risk, needs_feedback, reason, validation_passed).score <= 5,
{
}

} // verus!
