use vstd::prelude::*;

use crate::text::{find_char, lemma_find_char, lines_of, std_lines, std_lines_from};

verus! {

/// A generated message and the one the user committed, for one repository.
#[derive(Debug, Clone, PartialEq, Eq)]
pub struct HistoryEntry {
    pub repo: String,
    pub generated: String,
    pub final_message: String,
}

} // verus!

verus! {

/// The last `limit` of the lines, in their order.
pub open spec fn last_lines(lines: Seq<Seq<char>>, limit: nat) -> Seq<Seq<char>> {
    if lines.len() <= limit {
        lines
    } else {
        lines.skip(lines.len() - limit)
    }
}

/// The last `limit` lines of a history file, oldest first.
pub fn recent_lines(content: &str, limit: usize) -> (r: Vec<String>)
    ensures
        r@.map_values(|s: String| s@) == last_lines(std_lines(content@), limit as nat),
{
    let lines = lines_of(content);
    let ghost views = lines@.map_values(|s: String| s@);
    let start = if lines.len() <= limit { 0 } else { lines.len() - limit };
    let mut r: Vec<String> = Vec::new();
    let mut i: usize = start;
    while i < lines.len()
        invariant
            start <= i <= lines@.len(),
            views == lines@.map_values(|s: String| s@),
            r@.len() == i - start,
            forall|k: int| 0 <= k < r@.len() ==> (#[trigger] r@[k])@ == views[start + k],
        decreases lines@.len() - i,
    {
        r.push(lines[i].clone());
        i += 1;
    }
    assert(r@.map_values(|s: String| s@) =~= views.subrange(start as int, i as int));
    assert(views.subrange(start as int, lines@.len() as int) =~= if views.len() <= limit {
        views
    } else {
        views.skip(views.len() - limit)
    });
    r
}

} // verus!

verus! {

proof fn lemma_find_char_in_prefix(a: Seq<char>, b: Seq<char>, c: char, i: int)
    requires
        0 <= i <= a.len(),
        find_char(a, c, i) < a.len(),
    ensures
        find_char(a + b, c, i) == find_char(a, c, i),
    decreases a.len() - i,
{
    assert((a + b)[i] == a[i]);
    if a[i] != c {
        lemma_find_char_in_prefix(a, b, c, i + 1);
    }
}

/// The lines of a text that ends with a line feed stay the first lines of anything
/// that follows it.
proof fn lemma_lines_of_prefix(a: Seq<char>, b: Seq<char>, p: int)
    requires
        0 <= p <= a.len(),
        a.len() == 0 || a.last() == '\n',
    ensures
        std_lines_from(a + b, p) == std_lines_from(a, p) + std_lines_from(a + b, a.len() as int),
    decreases a.len() + 1 - p,
{
    if p < a.len() {
        lemma_find_char(a, '\n', p);
        let e = find_char(a, '\n', p);
        if e == a.len() {
            assert(a[a.len() - 1] != '\n');
        }
        lemma_find_char_in_prefix(a, b, '\n', p);
        lemma_lines_of_prefix(a, b, e + 1);
        assert((a + b).subrange(p, e) =~= a.subrange(p, e));
        if e > p {
            assert((a + b)[e - 1] == a[e - 1]);
            assert((a + b).subrange(p, e - 1) =~= a.subrange(p, e - 1));
        }
        assert(std_lines_from(a + b, p) =~= std_lines_from(a, p) + std_lines_from(a + b, a.len() as int));
    } else {
        assert(std_lines_from(a, p) =~= seq![]);
        assert(std_lines_from(a + b, p) =~= std_lines_from(a, p) + std_lines_from(a + b, a.len() as int));
    }
}

/// A history that gains one line, ended by a line feed, after lines that each end with
/// one, reads back as its former lines and then the new one; its most recent lines, for
/// a positive limit, end with the new line and number one more than before, up to the
/// limit.
pub proof fn law_appended_line_is_read_back(content: Seq<char>, line: Seq<char>, limit: nat)
    requires
        content.len() == 0 || content.last() == '\n',
        forall|k: int| 0 <= k < line.len() ==> line[k] != '\n',
        line.len() == 0 || line.last() != '\r',
        limit >= 1,
    ensures
        std_lines(content + line + seq!['\n']) == std_lines(content) + seq![line],
        last_lines(std_lines(content + line + seq!['\n']), limit).len() == if std_lines(content).len() + 1
            <= limit {
            std_lines(content).len() + 1
        } else {
            limit
        },
        last_lines(std_lines(content + line + seq!['\n']), limit).last() == line,
{
    let b = line + seq!['\n'];
    let s = content + line + seq!['\n'];
    assert(s =~= content + b);
    lemma_lines_of_prefix(content, b, 0);
    let n = content.len() as int;
    let e0 = n + line.len();
    lemma_find_char(s, '\n', n);
    let e = find_char(s, '\n', n);
    if e < e0 {
        assert(s[e] == line[e - n]);
    }
    if e > e0 {
        assert(s[e0] == '\n');
    }
    assert(e == e0);
    if e > n {
        assert(s[e - 1] == line[line.len() - 1]);
    }
    assert(s.subrange(n, e) =~= line);
    assert(std_lines_from(s, e + 1) =~= seq![]);
    assert(std_lines_from(s, n) =~= seq![line]);
    let lines = std_lines(s);
    assert(lines =~= std_lines(content) + seq![line]);
}

} // verus!
