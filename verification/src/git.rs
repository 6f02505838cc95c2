use vstd::prelude::*;
use vstd::slice::slice_subrange;
use vstd::string::StringExecFns;

use crate::history::HistoryEntry;
use crate::text::{
    all_in_class, all_ws, chars_of, contains_seq, has_infix, has_prefix, has_suffix, is_suffix,
    is_blank, lines_of, std_lines, string_of, trimmed, strings_equal, trim_of, ws_fields, field_bounds, skip_forward,
    skip_backward, CharClass,
};
use crate::types::{CommitType, GitContext};

verus! {

/// A staged file: its status letter and path.
#[derive(Debug, PartialEq, Eq)]
pub struct ChangedFile {
    pub status: String,
    pub path: String,
}

pub struct SpecChangedFile {
    pub status: Seq<char>,
    pub path: Seq<char>,
}

impl View for ChangedFile {
    type V = SpecChangedFile;

    open spec fn view(&self) -> SpecChangedFile {
        SpecChangedFile { status: self.status@, path: self.path@ }
    }
}

pub open spec fn files_view(v: Seq<ChangedFile>) -> Seq<SpecChangedFile> {
    v.map_values(|f: ChangedFile| f@)
}

/// The file named by one line of `git diff --name-status`: the first field is the
/// status and the last the path; a line with fewer than two fields names none.
pub open spec fn name_status_entry(line: Seq<char>) -> Seq<SpecChangedFile> {
    let f = ws_fields(line);
    if f.len() >= 2 {
        seq![SpecChangedFile { status: f[0], path: f.last() }]
    } else {
        seq![]
    }
}

pub open spec fn name_status_entries(lines: Seq<Seq<char>>, n: int) -> Seq<SpecChangedFile>
    decreases n,
{
    if n <= 0 || n > lines.len() {
        seq![]
    } else {
        name_status_entries(lines, n - 1) + name_status_entry(lines[n - 1])
    }
}

/// The files of a `git diff --name-status` listing.
pub open spec fn spec_parse_name_status(s: Seq<char>) -> Seq<SpecChangedFile> {
    name_status_entries(std_lines(s), std_lines(s).len() as int)
}

fn parse_name_status(name_status: &str) -> (r: Vec<ChangedFile>)
    ensures
        files_view(r@) == spec_parse_name_status(name_status@),
{
    let lines = lines_of(name_status);
    let ghost ls = lines@.map_values(|x: String| x@);
    let mut r: Vec<ChangedFile> = Vec::new();
    let mut i: usize = 0;
    while i < lines.len()
        invariant
            i <= lines@.len(),
            ls == lines@.map_values(|x: String| x@),
            ls == std_lines(name_status@),
            files_view(r@) == name_status_entries(ls, i as int),
        decreases lines@.len() - i,
    {
        let line = chars_of(lines[i].as_str());
        let bounds = field_bounds(line.as_slice());
        let ghost fields = ws_fields(line@);
        let ghost before = files_view(r@);
        assert(ls[i as int] == line@);
        if bounds.len() >= 2 {
            let first = bounds[0];
            let last = bounds[bounds.len() - 1];
            assert(fields[0] == line@.subrange(first.0 as int, first.1 as int));
            assert(fields.last() == line@.subrange(last.0 as int, last.1 as int));
            let status = string_of(slice_subrange(line.as_slice(), first.0, first.1));
            let path = string_of(slice_subrange(line.as_slice(), last.0, last.1));
            r.push(ChangedFile { status, path });
            assert(files_view(r@) =~= before + name_status_entry(line@));
        } else {
            assert(files_view(r@) =~= before + name_status_entry(line@));
        }
        i += 1;
    }
    r
}

pub open spec fn spec_is_docs_path(p: Seq<char>) -> bool {
    is_suffix(".md"@, p) || "docs/"@.is_prefix_of(p)
}

pub open spec fn spec_is_ci_path(p: Seq<char>) -> bool {
    ||| ".github/"@.is_prefix_of(p)
    ||| is_suffix(".yml"@, p) && contains_seq(p, "workflow"@)
    ||| is_suffix(".yaml"@, p) && contains_seq(p, "workflow"@)
}

pub open spec fn spec_is_test_path(p: Seq<char>) -> bool {
    "tests/"@.is_prefix_of(p) || contains_seq(p, "/tests/"@) || is_suffix("_test.rs"@, p)
}

pub open spec fn spec_is_build_path(p: Seq<char>) -> bool {
    p == "Cargo.toml"@ || p == "Cargo.lock"@ || p == "package.json"@ || p == "package-lock.json"@
        || p == "pnpm-lock.yaml"@
}

fn is_docs_path(path: &str) -> (r: bool)
    ensures
        r == spec_is_docs_path(path@),
{
    let p = chars_of(path);
    has_suffix(p.as_slice(), ".md") || has_prefix(p.as_slice(), "docs/")
}

fn is_ci_path(path: &str) -> (r: bool)
    ensures
        r == spec_is_ci_path(path@),
{
    let p = chars_of(path);
    let s = p.as_slice();
    has_prefix(s, ".github/") || has_suffix(s, ".yml") && has_infix(s, "workflow") || has_suffix(
        s,
        ".yaml",
    ) && has_infix(s, "workflow")
}

fn is_test_path(path: &str) -> (r: bool)
    ensures
        r == spec_is_test_path(path@),
{
    let p = chars_of(path);
    let s = p.as_slice();
    has_prefix(s, "tests/") || has_infix(s, "/tests/") || has_suffix(s, "_test.rs")
}

fn is_build_path(path: &str) -> (r: bool)
    ensures
        r == spec_is_build_path(path@),
{
    strings_equal(path, "Cargo.toml") || strings_equal(path, "Cargo.lock") || strings_equal(
        path,
        "package.json",
    ) || strings_equal(path, "package-lock.json") || strings_equal(path, "pnpm-lock.yaml")
}

/// The classes of staged files that decide a commit type.
#[derive(Clone, Copy)]
pub enum PathClass {
    Docs,
    Ci,
    Test,
    Build,
    Deleted,
}

pub open spec fn in_path_class(c: PathClass, f: SpecChangedFile) -> bool {
    match c {
        PathClass::Docs => spec_is_docs_path(f.path),
        PathClass::Ci => spec_is_ci_path(f.path),
        PathClass::Test => spec_is_test_path(f.path),
        PathClass::Build => spec_is_build_path(f.path),
        PathClass::Deleted => f.status == "D"@,
    }
}

/// Every file lies in the class.
pub open spec fn all_files_in(files: Seq<SpecChangedFile>, c: PathClass) -> bool {
    forall|i: int| 0 <= i < files.len() ==> in_path_class(c, #[trigger] files[i])
}

/// The type that every staged file agrees on: all documentation, all CI, all tests,
/// all build files, or all deletions, checked in that order.
pub open spec fn spec_infer_type(files: Seq<SpecChangedFile>) -> Option<CommitType> {
    if files.len() == 0 {
        None
    } else if all_files_in(files, PathClass::Docs) {
        Some(CommitType::Docs)
    } else if all_files_in(files, PathClass::Ci) {
        Some(CommitType::Ci)
    } else if all_files_in(files, PathClass::Test) {
        Some(CommitType::Test)
    } else if all_files_in(files, PathClass::Build) {
        Some(CommitType::Build)
    } else if all_files_in(files, PathClass::Deleted) {
        Some(CommitType::Chore)
    } else {
        None
    }
}

fn all_in_path_class(files: &[ChangedFile], c: PathClass) -> (r: bool)
    ensures
        r == all_files_in(files@.map_values(|f: ChangedFile| f@), c),
{
    let mut i: usize = 0;
    while i < files.len()
        invariant
            i <= files@.len(),
            forall|k: int| 0 <= k < i ==> in_path_class(c, #[trigger] files@[k]@),
        decreases files@.len() - i,
    {
        let f = &files[i];
        let ok = match c {
            PathClass::Docs => is_docs_path(f.path.as_str()),
            PathClass::Ci => is_ci_path(f.path.as_str()),
            PathClass::Test => is_test_path(f.path.as_str()),
            PathClass::Build => is_build_path(f.path.as_str()),
            PathClass::Deleted => strings_equal(f.status.as_str(), "D"),
        };
        proof {
            let fv = files@.map_values(|f: ChangedFile| f@);
            assert forall|k: int| 0 <= k < files@.len() implies #[trigger] fv[k] == files@[k]@ by {}
        }
        assert(ok == in_path_class(c, files@[i as int]@));
        if !ok {
            assert(files@.map_values(|f: ChangedFile| f@)[i as int] == files@[i as int]@);
            return false;
        }
        i += 1;
    }
    let ghost fv = files@.map_values(|f: ChangedFile| f@);
    assert forall|k: int| 0 <= k < files@.len() implies in_path_class(c, #[trigger] fv[k]) by {
        assert(fv[k] == files@[k]@);
    }
    true
}

/// Guesses the commit type from the staged files.
pub fn infer_type(files: &[ChangedFile]) -> (r: Option<CommitType>)
    ensures
        r == spec_infer_type(files@.map_values(|f: ChangedFile| f@)),
{
    if files.len() == 0 {
        return None;
    }
    if all_in_path_class(files, PathClass::Docs) {
        Some(CommitType::Docs)
    } else if all_in_path_class(files, PathClass::Ci) {
        Some(CommitType::Ci)
    } else if all_in_path_class(files, PathClass::Test) {
        Some(CommitType::Test)
    } else if all_in_path_class(files, PathClass::Build) {
        Some(CommitType::Build)
    } else if all_in_path_class(files, PathClass::Deleted) {
        Some(CommitType::Chore)
    } else {
        None
    }
}

/// The staged files of a context.
pub fn changed_files(context: &GitContext) -> (r: Vec<ChangedFile>)
    ensures
        files_view(r@) == spec_parse_name_status(context.staged_name_status@),
{
    parse_name_status(context.staged_name_status.as_str())
}

} // verus!

verus! {

/// The text of a git command's output, or nothing when the command failed.
pub open spec fn output_or_empty(r: Result<String, String>) -> Seq<char> {
    match r {
        Ok(s) => s@,
        Err(_) => seq![],
    }
}

fn unwrap_or_empty(r: Result<String, String>) -> (s: String)
    ensures
        s@ == output_or_empty(r),
{
    match r {
        Ok(s) => s,
        Err(_) => String::new(),
    }
}

/// The outputs of the git commands that describe the staged changes; the staged diff
/// is the one whose failure stops collection.
pub struct GitOutputs {
    pub branch: Result<String, String>,
    pub status_short: Result<String, String>,
    pub staged_diff: String,
    pub staged_name_status: Result<String, String>,
    pub staged_stat: Result<String, String>,
    pub recent_log: Result<String, String>,
}

/// Checks the answer of `git rev-parse --is-inside-work-tree`.
pub fn ensure_repo(output: Result<String, String>) -> (r: Result<(), String>)
    ensures
        r is Ok <==> (output matches Ok(s) && trim_of(s@, CharClass::Whitespace) == "true"@),
        r matches Err(e) ==> e@ == "not inside a Git repository"@,
{
    match output {
        Ok(s) => {
            let t = trimmed(s.as_str());
            if strings_equal(t.as_str(), "true") {
                Ok(())
            } else {
                Err("not inside a Git repository".to_owned())
            }
        },
        Err(_) => Err("not inside a Git repository".to_owned()),
    }
}

/// Builds the context from the git outputs; a staged diff that is empty or all
/// whitespace means nothing is staged.
pub fn collect_context(outputs: GitOutputs, history: Vec<HistoryEntry>) -> (r: Result<GitContext, String>)
    ensures
        r is Err <==> all_ws(outputs.staged_diff@),
        r matches Err(e) ==> e@ == "no staged changes; stage changes with git add or git add -p"@,
        r matches Ok(c) ==> {
            &&& c.branch@ == output_or_empty(outputs.branch)
            &&& c.status_short@ == output_or_empty(outputs.status_short)
            &&& c.staged_diff@ == outputs.staged_diff@
            &&& c.staged_stat@ == output_or_empty(outputs.staged_stat)
            &&& c.staged_name_status@ == output_or_empty(outputs.staged_name_status)
            &&& c.recent_subjects@.map_values(|x: String| x@) == std_lines(output_or_empty(outputs.recent_log))
            &&& c.inferred_type == spec_infer_type(spec_parse_name_status(c.staged_name_status@))
            &&& c.history == history
            &&& c.semantic is None
        },
{
    if is_blank(outputs.staged_diff.as_str()) {
        return Err("no staged changes; stage changes with git add or git add -p".to_owned());
    }
    let staged_name_status = unwrap_or_empty(outputs.staged_name_status);
    let files = parse_name_status(staged_name_status.as_str());
    let inferred_type = infer_type(files.as_slice());
    let log = unwrap_or_empty(outputs.recent_log);
    let recent_subjects = lines_of(log.as_str());
    Ok(GitContext {
        branch: unwrap_or_empty(outputs.branch),
        status_short: unwrap_or_empty(outputs.status_short),
        staged_stat: unwrap_or_empty(outputs.staged_stat),
        inferred_type,
        staged_name_status,
        recent_subjects,
        staged_diff: outputs.staged_diff,
        history,
        semantic: None,
    })
}

/// The error of a failed git command: its trimmed standard error, or a line naming
/// the command when that is empty.
pub fn git_failure_message(args: &Vec<String>, stderr: &str) -> (r: String)
    ensures
        all_ws(stderr@) ==> r@ == "git "@ + crate::text::join(args@.map_values(|a: String| a@), " "@) + " failed"@,
        !all_ws(stderr@) ==> r@ == trim_of(stderr@, CharClass::Whitespace),
{
    let t = trimmed(stderr);
    proof {
        crate::text::lemma_trim_empty(stderr@, CharClass::Whitespace);
    }
    if t.as_str().is_empty() {
        let mut m = "git ".to_owned();
        crate::text::push_joined(&mut m, args, " ");
        m.append(" failed");
        m
    } else {
        t
    }
}

} // verus!

verus! {

/// The git arguments that start a path list: `command`, then `--`, then the paths.
pub open spec fn path_args(command: Seq<Seq<char>>, paths: Seq<String>) -> Seq<Seq<char>> {
    command + seq!["--"@] + paths.map_values(|p: String| p@)
}

fn args_with_paths(command: Vec<String>, paths: &[String]) -> (r: Vec<String>)
    ensures
        r@.map_values(|a: String| a@) == path_args(command@.map_values(|a: String| a@), paths@),
{
    let mut args = command;
    let ghost head = args@.map_values(|a: String| a@);
    args.push("--".to_owned());
    let mut i: usize = 0;
    while i < paths.len()
        invariant
            i <= paths@.len(),
            args@.len() == head.len() + 1 + i,
            forall|k: int| 0 <= k < head.len() ==> (#[trigger] args@[k])@ == head[k],
            args@[head.len() as int]@ == "--"@,
            forall|k: int| 0 <= k < i ==> (#[trigger] args@[head.len() + 1 + k])@ == paths@[k]@,
        decreases paths@.len() - i,
    {
        args.push(paths[i].clone());
        i += 1;
    }
    proof {
        let want = path_args(head, paths@);
        assert forall|k: int| 0 <= k < args@.len() implies args@.map_values(|a: String| a@)[k]
            == want[k] by {
            if k > head.len() {
                assert(args@[head.len() + 1 + (k - head.len() - 1)]@ == paths@[k - head.len() - 1]@);
            }
        }
        assert(args@.map_values(|a: String| a@) =~= want);
    }
    args
}

/// The git arguments that stage exactly `paths`: `add -- <paths>`; `None` when there is
/// nothing to stage, and git is not run.
pub fn stage_exact(paths: &[String]) -> (r: Option<Vec<String>>)
    ensures
        r is None <==> paths@.len() == 0,
        r matches Some(a) ==> a@.map_values(|x: String| x@) == path_args(seq!["add"@], paths@),
{
    if paths.len() == 0 {
        return None;
    }
    let command = vec!["add".to_owned()];
    assert(command@.map_values(|a: String| a@) =~= seq!["add"@]);
    Some(args_with_paths(command, paths))
}

/// The git arguments that unstage exactly `paths`: `reset HEAD -- <paths>`; `None` when
/// there is nothing to unstage, and git is not run.
pub fn unstage_exact(paths: &[String]) -> (r: Option<Vec<String>>)
    ensures
        r is None <==> paths@.len() == 0,
        r matches Some(a) ==> a@.map_values(|x: String| x@) == path_args(
            seq!["reset"@, "HEAD"@],
            paths@,
        ),
{
    if paths.len() == 0 {
        return None;
    }
    let command = vec!["reset".to_owned(), "HEAD".to_owned()];
    assert(command@.map_values(|a: String| a@) =~= seq!["reset"@, "HEAD"@]);
    Some(args_with_paths(command, paths))
}

/// The hash of `HEAD` from the output of `git rev-parse HEAD`: the output trimmed, or
/// the command's error.
pub fn head_sha(output: Result<String, String>) -> (r: Result<String, String>)
    ensures
        match (output, r) {
            (Ok(o), Ok(s)) => s@ == trim_of(o@, CharClass::Whitespace),
            (Err(e), Err(f)) => e == f,
            _ => false,
        },
{
    match output {
        Ok(o) => Ok(trimmed(o.as_str())),
        Err(e) => Err(e),
    }
}

} // verus!

verus! {

/// A path is a test path when it lies under a top-level `tests/` directory, under a
/// `tests/` directory anywhere below (`/tests/` in it), or is named `*_test.rs`; and
/// a staged set whose files are all such test paths is a test commit, unless every
/// file is also documentation or every file is also CI.
pub proof fn law_test_files_make_a_test_commit(files: Seq<SpecChangedFile>, d: int, c: int)
    requires
        files.len() > 0,
        forall|i: int|
            0 <= i < files.len() ==> "tests/"@.is_prefix_of(#[trigger] files[i].path) || contains_seq(
                files[i].path,
                "/tests/"@,
            ) || is_suffix("_test.rs"@, files[i].path),
        0 <= d < files.len(),
        !is_suffix(".md"@, files[d].path) && !"docs/"@.is_prefix_of(files[d].path),
        0 <= c < files.len(),
        !".github/"@.is_prefix_of(files[c].path) && !contains_seq(files[c].path, "workflow"@),
    ensures
        forall|p: Seq<char>|
            "tests/"@.is_prefix_of(p) || contains_seq(p, "/tests/"@) || is_suffix("_test.rs"@, p)
                ==> #[trigger] spec_is_test_path(p),
        spec_infer_type(files) == Some(CommitType::Test),
{
    assert(!in_path_class(PathClass::Docs, files[d]));
    assert(!in_path_class(PathClass::Ci, files[c]));
    assert forall|i: int| 0 <= i < files.len() implies in_path_class(PathClass::Test, #[trigger] files[i]) by {
        assert("tests/"@.is_prefix_of(files[i].path) || contains_seq(files[i].path, "/tests/"@)
            || is_suffix("_test.rs"@, files[i].path));
    }
}

/// A staged set made only of Markdown files or files under `docs/` is a docs commit.
pub proof fn law_docs_files_make_a_docs_commit(files: Seq<SpecChangedFile>)
    requires
        files.len() > 0,
        forall|i: int|
            0 <= i < files.len() ==> is_suffix(".md"@, #[trigger] files[i].path) || "docs/"@.is_prefix_of(
                files[i].path,
            ),
    ensures
        spec_infer_type(files) == Some(CommitType::Docs),
{
    assert forall|i: int| 0 <= i < files.len() implies in_path_class(PathClass::Docs, #[trigger] files[i]) by {
        assert(is_suffix(".md"@, files[i].path) || "docs/"@.is_prefix_of(files[i].path));
    }
}

} // verus!
