use vstd::prelude::*;
use vstd::string::StringExecFns;

use crate::git::{changed_files, files_view, spec_parse_name_status, ChangedFile, SpecChangedFile};
use crate::text::{
    chars_of, contains_seq, decimal, has_infix, has_prefix, has_suffix, is_suffix, join,
    push_decimal, push_joined, strings_equal,
};
use crate::types::GitContext;

verus! {

/// Staged files that belong to one kind of change.
#[derive(Debug, Clone, PartialEq, Eq)]
pub struct FileGroup {
    pub label: &'static str,
    pub files: Vec<String>,
}

/// The kind of change a path belongs to.
pub open spec fn spec_category(p: Seq<char>) -> Seq<char> {
    if is_suffix(".md"@, p) || "docs/"@.is_prefix_of(p) {
        "docs"@
    } else if ".github/"@.is_prefix_of(p) || contains_seq(p, "workflow"@) {
        "ci"@
    } else if "tests/"@.is_prefix_of(p) || contains_seq(p, "/tests/"@) || is_suffix("_test.rs"@, p) {
        "test"@
    } else if p == "Cargo.toml"@ || p == "Cargo.lock"@ || p == "package.json"@ || p == "package-lock.json"@
        || p == "pnpm-lock.yaml"@ {
        "build"@
    } else {
        "src"@
    }
}

fn category(path: &str) -> (r: &'static str)
    ensures
        r@ == spec_category(path@),
{
    let p = chars_of(path);
    let s = p.as_slice();
    if has_suffix(s, ".md") || has_prefix(s, "docs/") {
        "docs"
    } else if has_prefix(s, ".github/") || has_infix(s, "workflow") {
        "ci"
    } else if has_prefix(s, "tests/") || has_infix(s, "/tests/") || has_suffix(s, "_test.rs") {
        "test"
    } else if strings_equal(path, "Cargo.toml") || strings_equal(path, "Cargo.lock") || strings_equal(path, "package.json")
        || strings_equal(path, "package-lock.json") || strings_equal(path, "pnpm-lock.yaml") {
        "build"
    } else {
        "src"
    }
}

/// The group labels in the order they sort in.
pub open spec fn label_order() -> Seq<Seq<char>> {
    seq!["build"@, "ci"@, "docs"@, "src"@, "test"@]
}

/// The paths among the first `n` files whose category is `label`, in order.
pub open spec fn paths_in(files: Seq<SpecChangedFile>, label: Seq<char>, n: int) -> Seq<Seq<char>>
    decreases n,
{
    if n <= 0 || n > files.len() {
        seq![]
    } else {
        paths_in(files, label, n - 1) + if spec_category(files[n - 1].path) == label {
            seq![files[n - 1].path]
        } else {
            seq![]
        }
    }
}

pub struct SpecGroup {
    pub label: Seq<char>,
    pub files: Seq<Seq<char>>,
}

/// One group per label with files, in label order.
pub open spec fn groups_from(files: Seq<SpecChangedFile>, i: int) -> Seq<SpecGroup>
    decreases 5 - i,
{
    if i < 0 || i >= 5 {
        seq![]
    } else {
        let fs = paths_in(files, label_order()[i], files.len() as int);
        (if fs.len() > 0 {
            seq![SpecGroup { label: label_order()[i], files: fs }]
        } else {
            seq![]
        }) + groups_from(files, i + 1)
    }
}

/// The staged files of a context grouped by category.
pub open spec fn spec_groups(context: GitContext) -> Seq<SpecGroup> {
    groups_from(spec_parse_name_status(context.staged_name_status@), 0)
}

pub open spec fn groups_view(v: Seq<FileGroup>) -> Seq<SpecGroup> {
    v.map_values(|g: FileGroup| SpecGroup { label: g.label@, files: g.files@.map_values(|f: String| f@) })
}

fn group_for(files: &Vec<ChangedFile>, label: &'static str) -> (r: Vec<String>)
    ensures
        r@.map_values(|f: String| f@) == paths_in(files_view(files@), label@, files@.len() as int),
{
    let ghost fv = files_view(files@);
    let mut r: Vec<String> = Vec::new();
    let mut i: usize = 0;
    while i < files.len()
        invariant
            i <= files@.len(),
            fv == files_view(files@),
            r@.map_values(|f: String| f@) == paths_in(fv, label@, i as int),
        decreases files@.len() - i,
    {
        let ghost before = r@.map_values(|f: String| f@);
        assert(fv[i as int] == files@[i as int]@);
        let c = category(files[i].path.as_str());
        if strings_equal(c, label) {
            r.push(files[i].path.clone());
            assert(r@.map_values(|f: String| f@) =~= before + seq![files@[i as int].path@]);
        } else {
            assert(r@.map_values(|f: String| f@) =~= before + seq![]);
        }
        i += 1;
    }
    r
}

fn grouped_files(context: &GitContext) -> (r: Vec<FileGroup>)
    ensures
        groups_view(r@) == spec_groups(*context),
{
    let files = changed_files(context);
    let ghost fv = files_view(files@);
    let labels: [&'static str; 5] = ["build", "ci", "docs", "src", "test"];
    assert(labels@.map_values(|l: &str| l@) =~= label_order());
    let mut r: Vec<FileGroup> = Vec::new();
    let mut i: usize = 0;
    while i < 5
        invariant
            i <= 5,
            labels@.map_values(|l: &str| l@) == label_order(),
            fv == files_view(files@),
            fv == spec_parse_name_status(context.staged_name_status@),
            groups_view(r@) + groups_from(fv, i as int) == groups_from(fv, 0),
        decreases 5 - i,
    {
        let label = labels[i];
        assert(label@ == label_order()[i as int]);
        let fs = group_for(&files, label);
        let ghost before = groups_view(r@);
        if fs.len() > 0 {
            let g = FileGroup { label, files: fs };
            r.push(g);
            assert(groups_view(r@) =~= before.push(SpecGroup { label: label@, files: g.files@.map_values(|f: String| f@) }));
            assert(before.push(SpecGroup { label: label@, files: g.files@.map_values(|f: String| f@) }) + groups_from(fv, i + 1) =~= before + groups_from(fv, i as int));
        } else {
            assert(groups_from(fv, i as int) =~= groups_from(fv, i + 1));
        }
        i += 1;
    }
    assert(groups_from(fv, 5) =~= seq![]);
    assert(groups_view(r@) + seq![] =~= groups_view(r@));
    r
}

/// The staged files grouped by category, in label order.
pub fn groups(context: &GitContext) -> (r: Vec<FileGroup>)
    ensures
        groups_view(r@) == spec_groups(*context),
{
    grouped_files(context)
}

/// Whether the staged files span more than one category.
pub fn is_multi_purpose(context: &GitContext) -> (r: bool)
    ensures
        r == (spec_groups(*context).len() > 1),
{
    grouped_files(context).len() > 1
}

/// The numbered line of one group.
pub open spec fn group_line(i: int, g: SpecGroup) -> Seq<char> {
    decimal((i + 1) as nat) + ". "@ + g.label + "\n   files: "@ + join(g.files, ", "@)
}

/// The groups, one numbered entry each, separated by blank lines.
pub open spec fn render_groups_spec(gs: Seq<SpecGroup>) -> Seq<char> {
    join(Seq::new(gs.len(), |i: int| group_line(i, gs[i])), "\n\n"@)
}

fn render_groups(groups: &Vec<FileGroup>) -> (r: String)
    ensures
        r@ == render_groups_spec(groups_view(groups@)),
{
    let ghost gv = groups_view(groups@);
    let mut lines: Vec<String> = Vec::new();
    let mut i: usize = 0;
    while i < groups.len()
        invariant
            i <= groups@.len(),
            gv == groups_view(groups@),
            lines@.len() == i,
            forall|k: int| 0 <= k < i ==> (#[trigger] lines@[k])@ == group_line(k, gv[k]),
        decreases groups@.len() - i,
    {
        assert(i + 1 <= usize::MAX);
        let mut line = String::new();
        push_decimal(&mut line, i + 1);
        line.append(". ");
        line.append(groups[i].label);
        line.append("\n   files: ");
        push_joined(&mut line, &groups[i].files, ", ");
        assert(gv[i as int] == SpecGroup { label: groups@[i as int].label@, files: groups@[i as int].files@.map_values(|f: String| f@) });
        lines.push(line);
        i += 1;
    }
    let mut out = String::new();
    push_joined(&mut out, &lines, "\n\n");
    assert(lines@.map_values(|l: String| l@) =~= Seq::new(gv.len(), |k: int| group_line(k, gv[k])));
    out
}

/// Refuses staged files that span more than one category.
pub fn reject_multi_purpose(context: &GitContext) -> (r: Result<(), String>)
    ensures
        r is Ok <==> spec_groups(*context).len() <= 1,
        r matches Err(e) ==> e@ == "staged changes look like multiple logical commits; run commit plan to inspect\n"@
            + render_groups_spec(spec_groups(*context)),
{
    let groups = grouped_files(context);
    if groups.len() <= 1 {
        Ok(())
    } else {
        let mut m = "staged changes look like multiple logical commits; run commit plan to inspect\n".to_owned();
        let rendered = render_groups(&groups);
        m.append(rendered.as_str());
        Err(m)
    }
}

/// A description of how the staged files split into commits.
pub fn plan(context: &GitContext) -> (r: String)
    ensures
        spec_groups(*context).len() <= 1 ==> r@ == "Staged changes look like a single logical commit."@,
        spec_groups(*context).len() > 1 ==> r@ == "Staged changes look like multiple logical commits:\n\n"@
            + render_groups_spec(spec_groups(*context)) + "\nUse git add -p to split them."@,
{
    let groups = grouped_files(context);
    if groups.len() <= 1 {
        "Staged changes look like a single logical commit.".to_owned()
    } else {
        let mut m = "Staged changes look like multiple logical commits:\n\n".to_owned();
        let rendered = render_groups(&groups);
        m.append(rendered.as_str());
        m.append("\nUse git add -p to split them.");
        m
    }
}

} // verus!

verus! {

/// The position of a label in the order the groups sort in; 5 for no label.
pub open spec fn label_rank(l: Seq<char>) -> int {
    if l == "build"@ {
        0
    } else if l == "ci"@ {
        1
    } else if l == "docs"@ {
        2
    } else if l == "src"@ {
        3
    } else if l == "test"@ {
        4
    } else {
        5
    }
}

/// How many files the groups hold together.
pub open spec fn total_files(g: Seq<SpecGroup>) -> nat
    decreases g.len(),
{
    if g.len() == 0 {
        0
    } else {
        g[0].files.len() + total_files(g.subrange(1, g.len() as int))
    }
}

/// How many of the files fall under the labels from the `i`-th on.
spec fn sizes_from(files: Seq<SpecChangedFile>, i: int) -> nat
    decreases 5 - i,
{
    if i < 0 || i >= 5 {
        0
    } else {
        paths_in(files, label_order()[i], files.len() as int).len() + sizes_from(files, i + 1)
    }
}

/// How many of the first `m` files fall under each label, added up.
spec fn sizes_at(files: Seq<SpecChangedFile>, m: int) -> nat {
    paths_in(files, "build"@, m).len() + paths_in(files, "ci"@, m).len() + paths_in(files, "docs"@, m).len()
        + paths_in(files, "src"@, m).len() + paths_in(files, "test"@, m).len()
}

proof fn lemma_labels_distinct()
    ensures
        forall|r: int| 0 <= r < 5 ==> label_rank(#[trigger] label_order()[r]) == r,
{
    reveal_strlit("build");
    reveal_strlit("ci");
    reveal_strlit("docs");
    reveal_strlit("src");
    reveal_strlit("test");
    assert(label_order()[0] == "build"@);
    assert(label_order()[1] == "ci"@);
    assert(label_order()[2] == "docs"@);
    assert(label_order()[3] == "src"@);
    assert(label_order()[4] == "test"@);
    assert("build"@[0] == 'b' && "ci"@[0] == 'c' && "docs"@[0] == 'd' && "src"@[0] == 's'
        && "test"@[0] == 't');
}

proof fn lemma_category_is_a_label(p: Seq<char>)
    ensures
        0 <= label_rank(spec_category(p)) < 5,
        label_order()[label_rank(spec_category(p))] == spec_category(p),
{
    lemma_labels_distinct();
    assert(label_order()[0] == "build"@);
    assert(label_order()[1] == "ci"@);
    assert(label_order()[2] == "docs"@);
    assert(label_order()[3] == "src"@);
    assert(label_order()[4] == "test"@);
}

proof fn lemma_sizes_at(files: Seq<SpecChangedFile>, m: int)
    requires
        0 <= m <= files.len(),
    ensures
        sizes_at(files, m) == m,
    decreases m,
{
    if m > 0 {
        lemma_sizes_at(files, m - 1);
        lemma_category_is_a_label(files[m - 1].path);
        lemma_labels_distinct();
        assert(label_order()[0] == "build"@);
        assert(label_order()[1] == "ci"@);
        assert(label_order()[2] == "docs"@);
        assert(label_order()[3] == "src"@);
        assert(label_order()[4] == "test"@);
    }
}

proof fn lemma_path_in_its_group(files: Seq<SpecChangedFile>, j: int, m: int)
    requires
        0 <= j < m <= files.len(),
    ensures
        paths_in(files, spec_category(files[j].path), m).contains(files[j].path),
    decreases m,
{
    let l = spec_category(files[j].path);
    if j == m - 1 {
        assert(paths_in(files, l, m).last() == files[j].path);
    } else {
        lemma_path_in_its_group(files, j, m - 1);
        let k = choose|k: int| 0 <= k < paths_in(files, l, m - 1).len() && #[trigger] paths_in(files, l, m - 1)[k]
            == files[j].path;
        assert(paths_in(files, l, m)[k] == files[j].path);
    }
}

#[verifier::rlimit(60)]
proof fn lemma_groups_from(files: Seq<SpecChangedFile>, i: int)
    requires
        0 <= i <= 5,
    ensures
        ({
            let g = groups_from(files, i);
            &&& forall|k: int|
                0 <= k < g.len() ==> i <= label_rank(#[trigger] g[k].label) < 5 && g[k].label
                    == label_order()[label_rank(g[k].label)] && g[k].files == paths_in(
                    files,
                    g[k].label,
                    files.len() as int,
                ) && g[k].files.len() > 0
            &&& forall|k: int, l: int|
                0 <= k < l < g.len() ==> label_rank(#[trigger] g[k].label) < label_rank(
                    #[trigger] g[l].label,
                )
            &&& total_files(g) == sizes_from(files, i)
            &&& forall|r: int|
                i <= r < 5 && paths_in(files, #[trigger] label_order()[r], files.len() as int).len()
                    > 0 ==> exists|k: int| 0 <= k < g.len() && g[k].label == label_order()[r]
        }),
    decreases 5 - i,
{
    lemma_labels_distinct();
    if i < 5 {
        lemma_groups_from(files, i + 1);
        let rest = groups_from(files, i + 1);
        let fs = paths_in(files, label_order()[i], files.len() as int);
        let g = groups_from(files, i);
        if fs.len() > 0 {
            let x = SpecGroup { label: label_order()[i], files: fs };
            assert(g =~= seq![x] + rest);
            assert(g.subrange(1, g.len() as int) =~= rest);
            assert(g[0] == x);
            assert forall|k: int| 1 <= k < g.len() implies g[k] == rest[k - 1] by {}
            assert forall|r: int|
                i <= r < 5 && paths_in(files, #[trigger] label_order()[r], files.len() as int).len()
                    > 0 implies exists|k: int| 0 <= k < g.len() && g[k].label == label_order()[r] by {
                if r == i {
                    assert(g[0].label == label_order()[r]);
                } else {
                    let k = choose|k: int| 0 <= k < rest.len() && rest[k].label == label_order()[r];
                    assert(g[k + 1].label == label_order()[r]);
                }
            }
        } else {
            assert(g =~= rest);
        }
    } else {
        assert(groups_from(files, 5) =~= seq![]);
    }
}

/// The staged files are grouped by category: one group per category that has files,
/// in label order, each with the paths of its category in the order of the files, so
/// that every file stands in exactly the group of its category and the groups together
/// hold as many files as were staged; there are groups exactly when files are staged.
#[verifier::rlimit(60)]
pub proof fn law_groups_partition_the_files(context: GitContext)
    ensures
        ({
            let files = spec_parse_name_status(context.staged_name_status@);
            let g = spec_groups(context);
            &&& forall|k: int|
                0 <= k < g.len() ==> label_order().contains(#[trigger] g[k].label) && g[k].files.len() > 0
                    && g[k].files == paths_in(files, g[k].label, files.len() as int)
            &&& forall|k: int, l: int|
                0 <= k < l < g.len() ==> label_rank(#[trigger] g[k].label) < label_rank(
                    #[trigger] g[l].label,
                )
            &&& forall|j: int|
                0 <= j < files.len() ==> exists|k: int|
                    0 <= k < g.len() && g[k].label == spec_category(#[trigger] files[j].path)
                        && g[k].files.contains(files[j].path)
            &&& total_files(g) == files.len()
            &&& (g.len() == 0 <==> files.len() == 0)
        }),
{
    let files = spec_parse_name_status(context.staged_name_status@);
    let g = spec_groups(context);
    let n = files.len() as int;
    lemma_groups_from(files, 0);
    lemma_labels_distinct();
    assert forall|k: int| 0 <= k < g.len() implies label_order().contains(#[trigger] g[k].label) by {
        assert(label_order()[label_rank(g[k].label)] == g[k].label);
    }
    reveal_with_fuel(sizes_from, 6);
    lemma_sizes_at(files, n);
    assert(label_order()[0] == "build"@);
    assert(label_order()[1] == "ci"@);
    assert(label_order()[2] == "docs"@);
    assert(label_order()[3] == "src"@);
    assert(label_order()[4] == "test"@);
    assert(sizes_from(files, 0) == sizes_at(files, n));
    assert forall|j: int| 0 <= j < files.len() implies exists|k: int|
        0 <= k < g.len() && g[k].label == spec_category(#[trigger] files[j].path) && g[k].files.contains(
            files[j].path,
        ) by {
        lemma_path_in_its_group(files, j, n);
        lemma_category_is_a_label(files[j].path);
        let r = label_rank(spec_category(files[j].path));
        assert(paths_in(files, label_order()[r], n).len() > 0);
        let k = choose|k: int| 0 <= k < g.len() && g[k].label == label_order()[r];
        assert(g[k].files == paths_in(files, spec_category(files[j].path), n));
    }
    if files.len() > 0 {
        lemma_path_in_its_group(files, 0, n);
        lemma_category_is_a_label(files[0].path);
        let r = label_rank(spec_category(files[0].path));
        assert(paths_in(files, label_order()[r], n).len() > 0);
    }
    if g.len() > 0 {
        assert(label_rank(g[0].label) < 5);
        assert(total_files(g) >= g[0].files.len());
        assert(g[0].files.len() > 0);
    }
}

/// Which group a path falls in: a Markdown file or anything under `docs/` is
/// documentation; else anything under `.github/` or naming a workflow is CI; else a
/// file under a `tests/` directory or named `*_test.rs` is a test; the project
/// manifests and lock files are build files; everything else is source.
pub proof fn law_category_of_a_path(p: Seq<char>)
    ensures
        is_suffix(".md"@, p) || "docs/"@.is_prefix_of(p) ==> spec_category(p) == "docs"@,
        !(is_suffix(".md"@, p) || "docs/"@.is_prefix_of(p)) && (".github/"@.is_prefix_of(p) || contains_seq(
            p,
            "workflow"@,
        )) ==> spec_category(p) == "ci"@,
        !(is_suffix(".md"@, p) || "docs/"@.is_prefix_of(p)) && !(".github/"@.is_prefix_of(p)
            || contains_seq(p, "workflow"@)) && ("tests/"@.is_prefix_of(p) || contains_seq(p, "/tests/"@)
            || is_suffix("_test.rs"@, p)) ==> spec_category(p) == "test"@,
        spec_category(p) == "docs"@ ==> is_suffix(".md"@, p) || "docs/"@.is_prefix_of(p),
        0 <= label_rank(spec_category(p)) < 5,
{
    lemma_category_is_a_label(p);
    reveal_strlit("docs");
    reveal_strlit("ci");
    reveal_strlit("test");
    reveal_strlit("src");
    reveal_strlit("build");
    assert("docs"@[0] == 'd' && "ci"@[0] == 'c' && "test"@[0] == 't' && "src"@[0] == 's'
        && "build"@[0] == 'b');
}

/// Files of two different categories never make a single group: the staged files
/// then look like more than one logical commit.
pub proof fn law_mixed_categories_make_several_groups(context: GitContext, i: int, j: int)
    requires
        0 <= i < spec_parse_name_status(context.staged_name_status@).len(),
        0 <= j < spec_parse_name_status(context.staged_name_status@).len(),
        spec_category(spec_parse_name_status(context.staged_name_status@)[i].path) != spec_category(
            spec_parse_name_status(context.staged_name_status@)[j].path,
        ),
    ensures
        spec_groups(context).len() > 1,
{
    let files = spec_parse_name_status(context.staged_name_status@);
    let g = spec_groups(context);
    law_groups_partition_the_files(context);
    assert(spec_category(files[i].path) == spec_category(files[i].path));
    assert(spec_category(files[j].path) == spec_category(files[j].path));
    let ki = choose|k: int|
        0 <= k < g.len() && g[k].label == spec_category(#[trigger] files[i].path) && g[k].files.contains(
            files[i].path,
        );
    let kj = choose|k: int|
        0 <= k < g.len() && g[k].label == spec_category(#[trigger] files[j].path) && g[k].files.contains(
            files[j].path,
        );
    assert(ki != kj);
}

} // verus!
