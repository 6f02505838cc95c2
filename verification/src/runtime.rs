//! The decisions of preparing, generating and executing a commit, apart from the
//! reading of the repository and the calls of the model that surround them.
use vstd::prelude::*;
use vstd::string::StringExecFns;

use crate::confidence::{analyze, report_view, spec_analyze, ConfidenceReport};
use crate::config::{strings_view, Config};
use crate::llm::{GeneratedMessage, LlmJudgement};
use crate::message::{spec_validate, validate};
use crate::planner::{groups, groups_view, spec_groups, FileGroup};
use crate::semantic::{
    analyze_file, detect_language, file_analysis, is_rust_path, opt_seq, opt_str_view, ChangeKind,
    FileSemantic,
    SemanticAnalysis, SpecFileSemantic, SymbolChange, Visibility,
};
use crate::text::{trim_of, trimmed, CharClass};
use crate::types::{commit_type_name, CommitType, GitContext, PriorAttempt};
use vstd::string::StringSliceAdditionalSpecFns;

verus! {

broadcast use vstd::string::group_string_axioms;

/// What the staged changes are and which messages the project accepts, for a client
/// that writes the message itself.
#[derive(Debug)]
pub struct PrepareOutput {
    pub branch: String,
    pub status_short: String,
    pub staged_stat: String,
    pub staged_name_status: String,
    pub inferred_type: Option<String>,
    pub recent_subjects: Vec<String>,
    pub staged_diff: String,
    pub warnings: Vec<String>,
    pub groups: Vec<FileGroup>,
    pub message_policy: MessagePolicy,
    pub semantic: Option<SemanticAnalysis>,
}

/// The rules a message must follow.
#[derive(Debug)]
pub struct MessagePolicy {
    pub format: &'static str,
    pub language: &'static str,
    pub allowed_types: Vec<String>,
    pub max_subject_chars: usize,
    pub scope_examples: Vec<&'static str>,
}

/// A message to commit, with the draft it was made from when there was one.
#[derive(Debug)]
pub struct ExecuteOptions {
    pub message: String,
    pub generated_message: Option<String>,
}

/// What a commit did.
#[derive(Debug)]
pub struct ExecuteOutput {
    pub committed: bool,
    pub message: String,
    pub confidence: ConfidenceReport,
    pub sha: Option<String>,
    pub post_status_short: String,
}

/// The user's feedback and the session's earlier attempts, for one more candidate.
#[derive(Debug)]
pub struct TtyGenerateOptions {
    pub feedback: Option<String>,
    pub prior_attempts: Vec<PriorAttempt>,
}

impl Default for TtyGenerateOptions {
    fn default() -> (r: Self)
        ensures
            r.feedback is None,
            r.prior_attempts@.len() == 0,
    {
        TtyGenerateOptions { feedback: None, prior_attempts: Vec::new() }
    }
}

/// A candidate message with its confidence.
#[derive(Debug)]
pub struct TtyGenerateOutput {
    pub message: String,
    pub confidence: ConfidenceReport,
}

/// A commit that passed validation and is ready to be made: the message, the draft to
/// record beside it, and the confidence in it.
#[derive(Debug)]
pub struct PlannedCommit {
    pub message: String,
    pub generated_message: String,
    pub confidence: ConfidenceReport,
}

pub open spec fn opt_type_name(t: Option<CommitType>) -> Option<Seq<char>> {
    match t {
        Some(t) => Some(commit_type_name(t)),
        None => None,
    }
}

pub open spec fn opt_string_view(o: Option<String>) -> Option<Seq<char>> {
    match o {
        Some(s) => Some(s@),
        None => None,
    }
}

/// The warning that comes with staged changes of more than one kind.
pub open spec fn prepare_warnings(context: GitContext) -> Seq<Seq<char>> {
    if spec_groups(context).len() > 1 {
        seq!["multiple logical commits"@]
    } else {
        seq![]
    }
}

pub open spec fn scope_examples() -> Seq<Seq<char>> {
    seq!["cli"@, "core"@, "mcp"@, "message"@, "config"@]
}

fn clone_strings(v: &Vec<String>) -> (r: Vec<String>)
    ensures
        strings_view(r@) == strings_view(v@),
{
    let mut r: Vec<String> = Vec::new();
    let mut i: usize = 0;
    while i < v.len()
        invariant
            i <= v@.len(),
            r@.len() == i,
            forall|k: int| 0 <= k < i ==> (#[trigger] r@[k])@ == v@[k]@,
        decreases v@.len() - i,
    {
        let c = v[i].clone();
        r.push(c);
        i += 1;
    }
    assert(strings_view(r@) =~= strings_view(v@));
    r
}

/// The context and the policy a client needs to write the message itself: the
/// context's fields as they are, the inferred type by name, the groups of the staged
/// files with a warning when there is more than one, and the message policy from the
/// configuration.
pub fn prepare_commit_context(context: GitContext, config: &Config) -> (r: PrepareOutput)
    ensures
        r.branch@ == context.branch@,
        r.status_short@ == context.status_short@,
        r.staged_stat@ == context.staged_stat@,
        r.staged_name_status@ == context.staged_name_status@,
        opt_string_view(r.inferred_type) == opt_type_name(context.inferred_type),
        r.recent_subjects@ == context.recent_subjects@,
        r.staged_diff@ == context.staged_diff@,
        strings_view(r.warnings@) == prepare_warnings(context),
        groups_view(r.groups@) == spec_groups(context),
        r.message_policy.format@ == "Conventional Commits"@,
        r.message_policy.language@
            == "English type/scope prefix; Simplified Chinese subject and body"@,
        strings_view(r.message_policy.allowed_types@) == strings_view(config.allowed_types@),
        r.message_policy.max_subject_chars == config.max_subject_chars,
        r.message_policy.scope_examples@.map_values(|s: &str| s@) == scope_examples(),
        r.semantic == context.semantic,
{
    let groups = groups(&context);
    let mut warnings: Vec<String> = Vec::new();
    if groups.len() > 1 {
        warnings.push("multiple logical commits".to_owned());
    }
    let inferred_type = match context.inferred_type {
        Some(t) => Some(t.as_str().to_owned()),
        None => None,
    };
    let examples = vec!["cli", "core", "mcp", "message", "config"];
    assert(examples@.map_values(|s: &str| s@) =~= scope_examples());
    assert(strings_view(warnings@) =~= prepare_warnings(context));
    PrepareOutput {
        branch: context.branch,
        status_short: context.status_short,
        staged_stat: context.staged_stat,
        staged_name_status: context.staged_name_status,
        inferred_type,
        recent_subjects: context.recent_subjects,
        staged_diff: context.staged_diff,
        warnings,
        groups,
        message_policy: MessagePolicy {
            format: "Conventional Commits",
            language: "English type/scope prefix; Simplified Chinese subject and body",
            allowed_types: clone_strings(&config.allowed_types),
            max_subject_chars: config.max_subject_chars,
            scope_examples: examples,
        },
        semantic: context.semantic,
    }
}

/// The error for a message that fails validation, with the message itself.
pub open spec fn rejection_text(error: Seq<char>, message: Seq<char>) -> Seq<char> {
    "generated commit message failed validation: "@ + error + "\n\nGenerated message:\n"@ + message
}

/// Validates a message against the configuration.
pub fn validate_generated_message(message: &str, config: &Config) -> (r: Result<(), String>)
    ensures
        r is Ok <==> spec_validate(message@, *config) is Ok,
        r matches Err(e) ==> spec_validate(message@, *config) matches Err(t) && e@ == rejection_text(
            t,
            message@,
        ),
{
    match validate(message, config) {
        Ok(()) => Ok(()),
        Err(error) => {
            let mut out = "generated commit message failed validation: ".to_owned();
            out.append(error.as_str());
            out.append("\n\nGenerated message:\n");
            out.append(message);
            Err(out)
        },
    }
}

/// Decides the commit of a supplied message: trimmed, it must pass validation; it
/// is committed with full confidence in its critique, and recorded beside the draft
/// it came from, or beside itself when there was none.
pub fn execute_commit_message(context: &GitContext, config: &Config, options: ExecuteOptions) -> (r:
    Result<PlannedCommit, String>)
    ensures
        ({
            let m = trim_of(options.message@, CharClass::Whitespace);
            &&& r is Ok <==> spec_validate(m, *config) is Ok
            &&& r matches Err(e) ==> spec_validate(m, *config) matches Err(t) && e@ == rejection_text(t, m)
            &&& r matches Ok(p) ==> {
                &&& p.message@ == m
                &&& p.generated_message@ == match opt_string_view(options.generated_message) {
                    Some(g) => g,
                    None => m,
                }
                &&& report_view(p.confidence) == spec_analyze(
                    *context,
                    crate::llm::Coverage::Complete,
                    crate::llm::Risk::Low,
                    false,
                    "critique passed"@,
                    true,
                )
            }
        }),
{
    let message = trimmed(options.message.as_str());
    match validate_generated_message(message.as_str(), config) {
        Ok(()) => {},
        Err(e) => return Err(e),
    }
    let confidence = analyze(context, &LlmJudgement::ok(), true);
    let generated_message = match options.generated_message {
        Some(g) => g,
        None => message.clone(),
    };
    Ok(PlannedCommit { message, generated_message, confidence })
}

/// The report of a commit that was made: the commit's hash when it could be read, and
/// the status after it, empty when it could not be read.
pub fn execute_output(planned: PlannedCommit, sha: Result<String, String>, post_status: Result<String, String>) -> (r: ExecuteOutput)
    ensures
        r.committed,
        r.message@ == planned.message@,
        r.confidence == planned.confidence,
        opt_string_view(r.sha) == match sha {
            Ok(s) => Some(s@),
            Err(_) => None::<Seq<char>>,
        },
        r.post_status_short@ == match post_status {
            Ok(s) => s@,
            Err(_) => Seq::<char>::empty(),
        },
{
    ExecuteOutput {
        committed: true,
        message: planned.message,
        confidence: planned.confidence,
        sha: match sha {
            Ok(s) => Some(s),
            Err(_) => None,
        },
        post_status_short: match post_status {
            Ok(s) => s,
            Err(_) => String::new(),
        },
    }
}

/// Decides on a generated candidate: it must pass validation, and comes with the
/// confidence that its verdict gives.
pub fn generate_tty_candidate(context: &GitContext, config: &Config, generated: GeneratedMessage) -> (r:
    Result<TtyGenerateOutput, String>)
    ensures
        r is Ok <==> spec_validate(generated.message@, *config) is Ok,
        r matches Err(e) ==> spec_validate(generated.message@, *config) matches Err(t) && e@
            == rejection_text(t, generated.message@),
        r matches Ok(o) ==> o.message@ == generated.message@ && report_view(o.confidence)
            == spec_analyze(
            *context,
            generated.judgement.coverage,
            generated.judgement.risk,
            generated.judgement.needs_feedback,
            generated.judgement.reason@,
            true,
        ),
{
    match validate_generated_message(generated.message.as_str(), config) {
        Ok(()) => {},
        Err(e) => return Err(e),
    }
    let confidence = analyze(context, &generated.judgement, true);
    Ok(TtyGenerateOutput { message: generated.message, confidence })
}

} // verus!

verus! {

/// The symbol changes of all files, in order.
pub open spec fn all_changes(files: Seq<FileSemantic>) -> Seq<SymbolChange>
    decreases files.len(),
{
    if files.len() == 0 {
        seq![]
    } else {
        all_changes(files.drop_last()) + files.last().symbols@
    }
}

/// A feature, when every change adds a symbol and some added symbol is public to the
/// crate or beyond; otherwise no type follows from the symbols.
pub open spec fn spec_infer_from_semantic(files: Seq<FileSemantic>) -> Option<CommitType> {
    let changes = all_changes(files);
    if changes.len() > 0 && (forall|i: int| 0 <= i < changes.len() ==> changes[i].change
        == ChangeKind::Added) && (exists|i: int|
        0 <= i < changes.len() && changes[i].visibility != Visibility::Private) {
        Some(CommitType::Feat)
    } else {
        None
    }
}

fn collect_changes(files: &Vec<FileSemantic>) -> (r: Vec<SymbolChange>)
    ensures
        r@ == all_changes(files@),
{
    let mut r: Vec<SymbolChange> = Vec::new();
    let mut i: usize = 0;
    while i < files.len()
        invariant
            i <= files@.len(),
            r@ == all_changes(files@.take(i as int)),
        decreases files@.len() - i,
    {
        let syms = &files[i].symbols;
        let ghost before = r@;
        let mut j: usize = 0;
        while j < syms.len()
            invariant
                j <= syms@.len(),
                r@ == before + syms@.take(j as int),
            decreases syms@.len() - j,
        {
            r.push(syms[j].clone_change());
            j += 1;
            assert(r@ =~= before + syms@.take(j as int));
        }
        assert(syms@.take(j as int) =~= syms@);
        assert(files@.take(i + 1).drop_last() =~= files@.take(i as int));
        i += 1;
    }
    assert(files@.take(i as int) =~= files@);
    r
}

/// The type that the symbol changes point to.
pub fn infer_type_from_semantic(semantic: &SemanticAnalysis) -> (r: Option<CommitType>)
    ensures
        r == spec_infer_from_semantic(semantic.files@),
{
    let changes = collect_changes(&semantic.files);
    if changes.len() == 0 {
        return None;
    }
    let mut all_added = true;
    let mut any_public = false;
    let mut i: usize = 0;
    while i < changes.len()
        invariant
            i <= changes@.len(),
            all_added == forall|k: int| 0 <= k < i ==> changes@[k].change == ChangeKind::Added,
            any_public == exists|k: int| 0 <= k < i && changes@[k].visibility != Visibility::Private,
        decreases changes@.len() - i,
    {
        if changes[i].change != ChangeKind::Added {
            all_added = false;
        }
        if changes[i].visibility != Visibility::Private {
            any_public = true;
        }
        i += 1;
    }
    if all_added && any_public {
        Some(CommitType::Feat)
    } else {
        None
    }
}

/// The context with its symbol changes; a type inferred from the files wins over one
/// inferred from the symbols.
pub fn with_semantic(context: GitContext, semantic: SemanticAnalysis) -> (r: GitContext)
    ensures
        r.branch == context.branch,
        r.status_short == context.status_short,
        r.staged_diff == context.staged_diff,
        r.staged_stat == context.staged_stat,
        r.staged_name_status == context.staged_name_status,
        r.recent_subjects == context.recent_subjects,
        r.history == context.history,
        r.inferred_type == match context.inferred_type {
            Some(t) => Some(t),
            None => spec_infer_from_semantic(semantic.files@),
        },
        r.semantic == Some(semantic),
{
    let mut context = context;
    if context.inferred_type.is_none() {
        context.inferred_type = infer_type_from_semantic(&semantic);
    }
    context.semantic = Some(semantic);
    context
}

/// A changed file with its staged and committed sources, where they were read.
#[derive(Debug)]
pub struct FileSources {
    pub path: String,
    pub old_source: Option<String>,
    pub new_source: Option<String>,
}

/// A file that cannot be analyzed: in no supported language, or with a side longer
/// than the limit, in bytes.
pub open spec fn unsupported_file(f: FileSources, max_bytes: nat) -> bool {
    !is_rust_path(f.path@) || source_bytes(f.new_source) > max_bytes || source_bytes(
        f.old_source,
    ) > max_bytes
}

pub open spec fn source_bytes(s: Option<String>) -> nat {
    match s {
        Some(s) => vstd::utf8::encode_utf8(s@).len(),
        None => 0,
    }
}

/// The paths of the files that cannot be analyzed, in order.
pub open spec fn unsupported_paths(files: Seq<FileSources>, max_bytes: nat) -> Seq<Seq<char>>
    decreases files.len(),
{
    if files.len() == 0 {
        seq![]
    } else {
        unsupported_paths(files.drop_last(), max_bytes) + if unsupported_file(
            files.last(),
            max_bytes,
        ) {
            seq![files.last().path@]
        } else {
            seq![]
        }
    }
}

/// The analyses of the files that can be analyzed and have symbol changes, in order.
pub open spec fn analyzed_files(files: Seq<FileSources>, max_bytes: nat) -> Seq<SpecFileSemantic>
    decreases files.len(),
{
    if files.len() == 0 {
        seq![]
    } else {
        let f = files.last();
        analyzed_files(files.drop_last(), max_bytes) + if unsupported_file(f, max_bytes) {
            seq![]
        } else {
            opt_seq(file_analysis(f.path@, opt_string_view(f.old_source), opt_string_view(f.new_source)))
        }
    }
}

/// The views of analyzed files.
pub open spec fn file_semantics_view(v: Seq<FileSemantic>) -> Seq<SpecFileSemantic> {
    v.map_values(|f: FileSemantic| f@)
}

fn source_len(s: &Option<String>) -> (r: usize)
    ensures
        r == source_bytes(*s),
{
    match s {
        Some(s) => s.as_str().as_bytes().len(),
        None => 0,
    }
}

fn opt_as_str(s: &Option<String>) -> (r: Option<&str>)
    ensures
        r is Some <==> s is Some,
        r matches Some(x) ==> s matches Some(y) && x@ == y@,
        opt_str_view(r) == opt_string_view(*s),
{
    match s {
        Some(s) => Some(s.as_str()),
        None => None,
    }
}

/// The symbol changes of the changed files: a file in no supported language, or with
/// a side over `max_file_bytes`, is listed as unsupported; the others are analyzed,
/// and those with changes are kept, each under its own path.
pub fn build_semantic_analysis(files: Vec<FileSources>, max_file_bytes: usize) -> (r: SemanticAnalysis)
    ensures
        strings_view(r.unsupported@) == unsupported_paths(files@, max_file_bytes as nat),
        file_semantics_view(r.files@) == analyzed_files(files@, max_file_bytes as nat),
        forall|k: int| 0 <= k < r.files@.len() ==> (#[trigger] r.files@[k]).symbols@.len() > 0,
{
    let mut out: Vec<FileSemantic> = Vec::new();
    let mut unsupported: Vec<String> = Vec::new();
    let mut i: usize = 0;
    while i < files.len()
        invariant
            i <= files@.len(),
            strings_view(unsupported@) == unsupported_paths(files@.take(i as int), max_file_bytes as nat),
            file_semantics_view(out@) == analyzed_files(files@.take(i as int), max_file_bytes as nat),
            forall|k: int| 0 <= k < out@.len() ==> (#[trigger] out@[k]).symbols@.len() > 0,
        decreases files@.len() - i,
    {
        let f = &files[i];
        let ghost before = unsupported@;
        let ghost out_before = file_semantics_view(out@);
        proof {
            assert(files@.take(i + 1).drop_last() =~= files@.take(i as int));
        }
        if detect_language(f.path.as_str()).is_none() || source_len(&f.new_source) > max_file_bytes
            || source_len(&f.old_source) > max_file_bytes {
            unsupported.push(f.path.clone());
            assert(strings_view(unsupported@) =~= strings_view(before).push(f.path@));
            assert(out_before + Seq::<SpecFileSemantic>::empty() =~= out_before);
        } else {
            assert(strings_view(unsupported@) =~= strings_view(before) + Seq::<Seq<char>>::empty());
            match analyze_file(
                f.path.as_str(),
                opt_as_str(&f.old_source),
                opt_as_str(&f.new_source),
            ) {
                Some(fs) => {
                    out.push(fs);
                    assert(file_semantics_view(out@) =~= out_before.push(out@.last()@));
                },
                None => {
                    assert(out_before + Seq::<SpecFileSemantic>::empty() =~= out_before);
                },
            }
        }
        i += 1;
    }
    assert(files@.take(i as int) =~= files@);
    SemanticAnalysis { files: out, unsupported }
}

} // verus!

verus! {

/// The preparation warns of several logical commits exactly when the staged files fall
/// in more than one group.
pub proof fn law_warning_matches_groups(context: GitContext)
    ensures
        prepare_warnings(context).len() > 0 <==> spec_groups(context).len() > 1,
{
}

} // verus!
