use vstd::prelude::*;
use vstd::slice::slice_subrange;
use vstd::string::StrSliceExecFns;

use crate::text::{
    chars_of, char_is_alphanumeric, is_alphanumeric, slice_eq,
    all_in, all_in_class, all_ws, find_char, find_char_from, in_class, is_whitespace, is_ws,
    lemma_find_char, lemma_skip_bwd, lemma_skip_fwd, lemma_trim_empty, skip_backward, skip_bwd,
    skip_forward, skip_fwd, trim_end_of, trim_of, trim_start_of, CharClass,
};
use super::ast::{opt_str_view, spec_is_breaking_token, CommitMessage, Footer, Header, FooterSeparator, SpecCommitMessage, SpecFooter, SpecHeader};
use super::error::{parse_error_text, ParseError, ParseErrorKind};

verus! {

broadcast use vstd::seq_lib::group_seq_properties;

// ---------------------------------------------------------------------------
// The header line.
// ---------------------------------------------------------------------------

/// How a scan of the header for its `:` ends.
pub enum HeaderScan {
    /// The `:` outside any parentheses, at this index.
    Colon(int),
    /// A `)` closed more parentheses than were open.
    Unbalanced,
    /// The line ended first.
    NoColon,
}

/// Scans `s` from `i` with `depth` open parentheses.
pub open spec fn scan_header(s: Seq<char>, i: int, depth: int) -> HeaderScan
    decreases s.len() - i,
{
    if i < 0 || i >= s.len() {
        HeaderScan::NoColon
    } else if s[i] == '(' {
        scan_header(s, i + 1, depth + 1)
    } else if s[i] == ')' {
        if depth - 1 < 0 {
            HeaderScan::Unbalanced
        } else {
            scan_header(s, i + 1, depth - 1)
        }
    } else if s[i] == ':' && depth == 0 {
        HeaderScan::Colon(i)
    } else {
        scan_header(s, i + 1, depth)
    }
}

pub proof fn lemma_scan_header(s: Seq<char>, i: int, depth: int)
    requires
        0 <= i,
    ensures
        scan_header(s, i, depth) matches HeaderScan::Colon(c) ==> i <= c < s.len() && s[c] == ':',
    decreases s.len() - i,
{
    if i < s.len() {
        if s[i] == '(' {
            lemma_scan_header(s, i + 1, depth + 1);
        } else if s[i] == ')' {
            if depth - 1 >= 0 {
                lemma_scan_header(s, i + 1, depth - 1);
            }
        } else if !(s[i] == ':' && depth == 0) {
            lemma_scan_header(s, i + 1, depth);
        }
    }
}

/// Characters that cannot appear in a commit type.
pub open spec fn is_invalid_type_char(c: char) -> bool {
    is_ws(c) || c == '(' || c == ')' || c == ':' || c == '!' || c == '\n' || c == '\r'
}

pub open spec fn has_invalid_type_char(ty: Seq<char>) -> bool {
    exists|k: int| 0 <= k < ty.len() && is_invalid_type_char(#[trigger] ty[k])
}

pub open spec fn check_type(ty: Seq<char>, scope: Option<Seq<char>>, breaking: bool, description: Seq<char>) -> Result<SpecHeader, ParseErrorKind> {
    if ty.len() == 0 {
        Err(ParseErrorKind::MissingType)
    } else if has_invalid_type_char(ty) {
        Err(ParseErrorKind::InvalidType)
    } else {
        Ok(SpecHeader { ty, scope, breaking, description })
    }
}

/// The meaning of a header line: `<type>[(<scope>)][!]: <description>`.
pub open spec fn spec_parse_header(line: Seq<char>) -> Result<SpecHeader, ParseErrorKind> {
    if all_ws(line) {
        Err(ParseErrorKind::EmptyMessage)
    } else if is_ws(line[0]) {
        Err(ParseErrorKind::InvalidFormat)
    } else {
        match scan_header(line, 0, 0) {
            HeaderScan::Unbalanced => Err(ParseErrorKind::InvalidScope),
            HeaderScan::NoColon => Err(ParseErrorKind::MissingColon),
            HeaderScan::Colon(ci) => {
                let prefix0 = line.subrange(0, ci);
                let rest = line.subrange(ci + 1, line.len() as int);
                if !(rest.len() > 0 && rest[0] == ' ') {
                    Err(ParseErrorKind::MissingColon)
                } else {
                    let description = trim_start_of(rest, CharClass::Whitespace);
                    if description.len() == 0 {
                        Err(ParseErrorKind::MissingDescription)
                    } else {
                        let breaking = prefix0.len() > 0 && prefix0.last() == '!';
                        let prefix = if breaking { prefix0.drop_last() } else { prefix0 };
                        if prefix.contains('!') {
                            Err(ParseErrorKind::InvalidFormat)
                        } else {
                            let open = find_char(prefix, '(', 0);
                            if open < prefix.len() {
                                if !(prefix.len() > 0 && prefix.last() == ')') {
                                    Err(ParseErrorKind::InvalidScope)
                                } else {
                                    let scope = prefix.subrange(open + 1, prefix.len() - 1);
                                    if all_ws(scope) {
                                        Err(ParseErrorKind::InvalidScope)
                                    } else {
                                        check_type(prefix.subrange(0, open), Some(scope), breaking, description)
                                    }
                                }
                            } else {
                                check_type(prefix, None, breaking, description)
                            }
                        }
                    }
                }
            },
        }
    }
}

/// Where the parts of a header lie in its line.
pub struct HeaderPos {
    pub ty_end: usize,
    pub scope: Option<(usize, usize)>,
    pub breaking: bool,
    pub description_start: usize,
}

pub open spec fn header_pos_matches(line: Seq<char>, p: HeaderPos, h: SpecHeader) -> bool {
    &&& p.ty_end <= p.description_start <= line.len()
    &&& line.subrange(0, p.ty_end as int) == h.ty
    &&& line.subrange(p.description_start as int, line.len() as int) == h.description
    &&& p.breaking == h.breaking
    &&& match (p.scope, h.scope) {
        (Some((a, b)), Some(sc)) => a <= b <= line.len() && line.subrange(a as int, b as int) == sc,
        (None, None) => true,
        _ => false,
    }
}

fn contains_char(s: &[char], c: char) -> (r: bool)
    ensures
        r == s@.contains(c),
{
    let k = find_char_from(s, c, 0);
    proof {
        lemma_find_char(s@, c, 0);
        if !(k < s@.len()) {
            assert forall|m: int| 0 <= m < s@.len() implies s@[m] != c by {}
        }
    }
    k < s.len()
}

fn has_invalid_type_char_exec(ty: &[char]) -> (r: bool)
    ensures
        r == has_invalid_type_char(ty@),
{
    let mut k: usize = 0;
    while k < ty.len()
        invariant
            k <= ty@.len(),
            forall|m: int| 0 <= m < k ==> !is_invalid_type_char(#[trigger] ty@[m]),
        decreases ty@.len() - k,
    {
        let c = ty[k];
        if is_whitespace(c) || c == '(' || c == ')' || c == ':' || c == '!' || c == '\n' || c == '\r' {
            return true;
        }
        k += 1;
    }
    false
}

/// Parses a header line into the positions of its parts.
pub fn parse_header(line: &[char]) -> (r: Result<HeaderPos, ParseErrorKind>)
    ensures
        match (r, spec_parse_header(line@)) {
            (Ok(p), Ok(h)) => header_pos_matches(line@, p, h),
            (Err(e), Err(k)) => e == k,
            _ => false,
        },
{
    let n = line.len();
    if all_in_class(line, CharClass::Whitespace) {
        return Err(ParseErrorKind::EmptyMessage);
    }
    if is_whitespace(line[0]) {
        return Err(ParseErrorKind::InvalidFormat);
    }
    let mut depth: usize = 0;
    let mut i: usize = 0;
    let mut colon: usize = n;
    while i < n
        invariant_except_break
            colon == n,
        invariant
            n == line@.len(),
            i <= n,
            depth <= i,
            !all_ws(line@),
            !is_ws(line@[0]),
            scan_header(line@, i as int, depth as int) == scan_header(line@, 0, 0),
        ensures
            colon <= n,
            colon < n ==> scan_header(line@, 0, 0) == HeaderScan::Colon(colon as int),
            colon == n ==> scan_header(line@, 0, 0) == HeaderScan::NoColon,
        decreases n - i,
    {
        let c = line[i];
        if c == '(' {
            depth += 1;
        } else if c == ')' {
            if depth == 0 {
                return Err(ParseErrorKind::InvalidScope);
            }
            depth -= 1;
        } else if c == ':' && depth == 0 {
            colon = i;
            break;
        }
        i += 1;
    }
    if colon == n {
        return Err(ParseErrorKind::MissingColon);
    }
    proof {
        lemma_scan_header(line@, 0, 0);
    }
    let ghost prefix0 = line@.subrange(0, colon as int);
    let ghost rest = line@.subrange(colon + 1, n as int);
    if !(colon + 1 < n && line[colon + 1] == ' ') {
        return Err(ParseErrorKind::MissingColon);
    }
    let rest_slice = slice_subrange(line, colon + 1, n);
    assert(rest_slice@ == rest);
    let d = skip_forward(rest_slice, 0, CharClass::Whitespace);
    if d == rest_slice.len() {
        return Err(ParseErrorKind::MissingDescription);
    }
    let description_start = colon + 1 + d;
    assert(line@.subrange(description_start as int, n as int) == trim_start_of(rest, CharClass::Whitespace));
    let breaking = colon > 0 && line[colon - 1] == '!';
    let prefix_end = if breaking { colon - 1 } else { colon };
    let prefix = slice_subrange(line, 0, prefix_end);
    assert(prefix@ == (if breaking { prefix0.drop_last() } else { prefix0 }));
    if contains_char(prefix, '!') {
        return Err(ParseErrorKind::InvalidFormat);
    }
    let open = find_char_from(prefix, '(', 0);
    if open < prefix_end {
        if !(prefix_end > 0 && prefix[prefix_end - 1] == ')') {
            return Err(ParseErrorKind::InvalidScope);
        }
        proof {
            lemma_find_char(prefix@, '(', 0);
        }
        let scope = slice_subrange(prefix, open + 1, prefix_end - 1);
        if all_in_class(scope, CharClass::Whitespace) {
            return Err(ParseErrorKind::InvalidScope);
        }
        let ty = slice_subrange(prefix, 0, open);
        if open == 0 {
            return Err(ParseErrorKind::MissingType);
        }
        if has_invalid_type_char_exec(ty) {
            return Err(ParseErrorKind::InvalidType);
        }
        let r = HeaderPos {
            ty_end: open,
            scope: Some((open + 1, prefix_end - 1)),
            breaking,
            description_start,
        };
        assert(line@.subrange(0, open as int) == ty@);
        assert(line@.subrange(open + 1, prefix_end - 1) == scope@);
        Ok(r)
    } else {
        if prefix_end == 0 {
            return Err(ParseErrorKind::MissingType);
        }
        if has_invalid_type_char_exec(prefix) {
            return Err(ParseErrorKind::InvalidType);
        }
        assert(line@.subrange(0, prefix_end as int) == prefix@);
        Ok(HeaderPos { ty_end: prefix_end, scope: None, breaking, description_start })
    }
}

} // verus!

verus! {

// ---------------------------------------------------------------------------
// Lines.
// ---------------------------------------------------------------------------

/// The lines of `s` from `p`: spans `(start, end)` that end before a `\n` or at the end.
pub open spec fn line_spans_from(s: Seq<char>, p: int) -> Seq<(int, int)>
    decreases s.len() + 1 - p,
{
    if p < 0 || p >= s.len() {
        seq![]
    } else {
        let e = find_char(s, '\n', p);
        proof {
            lemma_find_char(s, '\n', p);
        }
        seq![(p, e)] + line_spans_from(s, e + 1)
    }
}

pub open spec fn line_spans(s: Seq<char>) -> Seq<(int, int)> {
    line_spans_from(s, 0)
}

/// A line's text: its span without trailing carriage returns.
pub open spec fn line_text(s: Seq<char>, sp: (int, int)) -> Seq<char> {
    trim_end_of(s.subrange(sp.0, sp.1), CharClass::CarriageReturn)
}

pub open spec fn spans_view(v: Seq<(usize, usize)>) -> Seq<(int, int)> {
    v.map_values(|x: (usize, usize)| (x.0 as int, x.1 as int))
}

/// The spans are in order, within `s`, each ending at the next `\n` or at the end.
pub open spec fn spans_wf(s: Seq<char>, p: int, spans: Seq<(int, int)>) -> bool {
    &&& forall|j: int|
        0 <= j < spans.len() ==> p <= (#[trigger] spans[j]).0 <= spans[j].1 <= s.len()
            && spans[j].1 == find_char(s, '\n', spans[j].0)
    &&& forall|j: int|
        0 <= j < spans.len() - 1 ==> (#[trigger] spans[j + 1]).0 == spans[j].1 + 1
    &&& (0 <= p < s.len() ==> spans.len() > 0 && spans[0].0 == p)
}

pub proof fn lemma_line_spans(s: Seq<char>, p: int)
    requires
        0 <= p,
    ensures
        spans_wf(s, p, line_spans_from(s, p)),
    decreases s.len() + 1 - p,
{
    if p < s.len() {
        let e = find_char(s, '\n', p);
        lemma_find_char(s, '\n', p);
        lemma_line_spans(s, e + 1);
        let rest = line_spans_from(s, e + 1);
        let all = line_spans_from(s, p);
        assert(all == seq![(p, e)] + rest);
        assert forall|j: int| 0 <= j < all.len() - 1 implies (#[trigger] all[j + 1]).0 == all[j].1 + 1 by {
            if j == 0 {
                assert(all[1] == rest[0]);
            }
            if j > 0 {
                assert(all[j] == rest[j - 1]);
                assert(all[j + 1] == rest[j]);
                assert(rest[(j - 1) + 1].0 == rest[j - 1].1 + 1);
            }
        }
        assert forall|j: int| 0 <= j < all.len() implies p <= (#[trigger] all[j]).0 <= all[j].1 <= s.len()
            && all[j].1 == find_char(s, '\n', all[j].0) by {
            if j > 0 {
                assert(all[j] == rest[j - 1]);
            }
        }
    }
}

/// Splits `s` into the spans of its lines.
pub fn line_spans_exec(s: &[char]) -> (r: Vec<(usize, usize)>)
    ensures
        spans_view(r@) == line_spans(s@),
{
    let mut r: Vec<(usize, usize)> = Vec::new();
    let mut p: usize = 0;
    while p < s.len()
        invariant
            p <= s@.len(),
            spans_view(r@) + line_spans_from(s@, p as int) == line_spans(s@),
        decreases s@.len() + 1 - p,
    {
        let e = find_char_from(s, '\n', p);
        let ghost old_r = r@;
        r.push((p, e));
        assert(line_spans_from(s@, p as int) == seq![(p as int, e as int)] + line_spans_from(
            s@,
            e + 1,
        ));
        assert(spans_view(r@) == spans_view(old_r).push((p as int, e as int)));
        if e < s.len() {
            p = e + 1;
        } else {
            assert(line_spans_from(s@, e + 1) =~= line_spans_from(s@, e as int));
            p = e;
        }
    }
    assert(line_spans_from(s@, p as int) =~= seq![]);
    assert(spans_view(r@) + seq![] =~= spans_view(r@));
    r
}

/// The text of a line, as the bounds of its characters in `s`.
pub fn line_text_end(s: &[char], sp: (usize, usize)) -> (r: usize)
    requires
        sp.0 <= sp.1 <= s@.len(),
    ensures
        sp.0 <= r <= sp.1,
        s@.subrange(sp.0 as int, r as int) == line_text(s@, (sp.0 as int, sp.1 as int)),
{
    let line = slice_subrange(s, sp.0, sp.1);
    let k = skip_backward(line, line.len(), CharClass::CarriageReturn);
    assert(s@.subrange(sp.0 as int, sp.0 + k) == line@.subrange(0, k as int));
    sp.0 + k
}

// ---------------------------------------------------------------------------
// Footer lines.
// ---------------------------------------------------------------------------

/// The first index at or after `i` where `a` is followed by `b` (or the length).
pub open spec fn find_pair(s: Seq<char>, a: char, b: char, i: int) -> int
    decreases s.len() - i,
{
    if i < 0 || i + 1 >= s.len() {
        s.len() as int
    } else if s[i] == a && s[i + 1] == b {
        i
    } else {
        find_pair(s, a, b, i + 1)
    }
}

pub proof fn lemma_find_pair(s: Seq<char>, a: char, b: char, i: int)
    requires
        0 <= i,
    ensures
        find_pair(s, a, b, i) == s.len() || (i <= find_pair(s, a, b, i) && find_pair(s, a, b, i) + 1 < s.len()
            && s[find_pair(s, a, b, i)] == a && s[find_pair(s, a, b, i) + 1] == b),
    decreases s.len() - i,
{
    if i + 1 < s.len() && !(s[i] == a && s[i + 1] == b) {
        lemma_find_pair(s, a, b, i + 1);
    }
}

/// A footer token: no surrounding whitespace, and either a breaking-change token or
/// made of alphanumerics and `-`.
pub open spec fn spec_valid_footer_token(t: Seq<char>) -> bool {
    &&& t.len() > 0
    &&& !is_ws(t[0])
    &&& !is_ws(t.last())
    &&& (spec_is_breaking_token(t) || forall|k: int|
        0 <= k < t.len() ==> char_is_alphanumeric(#[trigger] t[k]) || t[k] == '-')
}

/// Whether a line starts with `token`, `:` and a space.
pub open spec fn starts_breaking_footer(t: Seq<char>, token: Seq<char>) -> bool {
    &&& token.len() + 2 <= t.len()
    &&& t.subrange(0, token.len() as int) == token
    &&& t[token.len() as int] == ':'
    &&& t[token.len() + 1int] == ' '
}

/// A footer line's token, separator and the index where its value starts.
pub open spec fn spec_footer_parts(t: Seq<char>) -> Option<(Seq<char>, FooterSeparator, int)> {
    if starts_breaking_footer(t, "BREAKING CHANGE"@) {
        Some(("BREAKING CHANGE"@, FooterSeparator::Colon, "BREAKING CHANGE"@.len() + 2int))
    } else if starts_breaking_footer(t, "BREAKING-CHANGE"@) {
        Some(("BREAKING-CHANGE"@, FooterSeparator::Colon, "BREAKING-CHANGE"@.len() + 2int))
    } else {
        let k = find_char(t, ':', 0);
        if k < t.len() && spec_valid_footer_token(t.subrange(0, k)) && k + 1 < t.len() && t[k + 1]
            == ' ' {
            Some((t.subrange(0, k), FooterSeparator::Colon, k + 2))
        } else {
            let h = find_pair(t, ' ', '#', 0);
            if h < t.len() && spec_valid_footer_token(t.subrange(0, h)) {
                Some((t.subrange(0, h), FooterSeparator::Hash, h + 1))
            } else {
                None
            }
        }
    }
}

pub proof fn lemma_footer_parts(t: Seq<char>)
    ensures
        spec_footer_parts(t) matches Some((tok, sep, vs)) ==> {
            &&& 0 < tok.len() < vs <= t.len()
            &&& t.subrange(0, tok.len() as int) == tok
            &&& !all_ws(t)
        },
{
    reveal_strlit("BREAKING CHANGE");
    reveal_strlit("BREAKING-CHANGE");
    lemma_find_char(t, ':', 0);
    lemma_find_pair(t, ' ', '#', 0);
    if let Some((tok, sep, vs)) = spec_footer_parts(t) {
        assert(!is_ws(t[0])) by {
            assert(t[0] == tok[0]);
        }
    }
}

fn starts_with_at(s: &[char], tok: &[char]) -> (r: bool)
    ensures
        r == starts_breaking_footer(s@, tok@),
{
    if tok.len() >= s.len() || s.len() - tok.len() < 2 {
        return false;
    }
    let head = slice_subrange(s, 0, tok.len());
    slice_eq(head, tok) && s[tok.len()] == ':' && s[tok.len() + 1] == ' '
}

fn find_pair_from(s: &[char], a: char, b: char) -> (r: usize)
    ensures
        r == find_pair(s@, a, b, 0),
{
    proof {
        lemma_find_pair(s@, a, b, 0);
    }
    let mut i: usize = 0;
    while i < s.len() && i + 1 < s.len() && !(s[i] == a && s[i + 1] == b)
        invariant
            find_pair(s@, a, b, i as int) == find_pair(s@, a, b, 0),
        decreases s@.len() - i,
    {
        i += 1;
    }
    if i < s.len() && i + 1 < s.len() {
        i
    } else {
        s.len()
    }
}

/// Whether `token` can name a footer.
pub fn is_valid_footer_token(token: &[char]) -> (r: bool)
    ensures
        r == spec_valid_footer_token(token@),
{
    let n = token.len();
    if n == 0 || is_whitespace(token[0]) || is_whitespace(token[n - 1]) {
        return false;
    }
    let bc = chars_of("BREAKING CHANGE");
    let bh = chars_of("BREAKING-CHANGE");
    if slice_eq(token, bc.as_slice()) || slice_eq(token, bh.as_slice()) {
        return true;
    }
    let mut k: usize = 0;
    while k < n
        invariant
            n == token@.len(),
            k <= n,
            n > 0,
            !is_ws(token@[0]),
            !is_ws(token@.last()),
            !spec_is_breaking_token(token@),
            forall|m: int| 0 <= m < k ==> char_is_alphanumeric(#[trigger] token@[m]) || token@[m] == '-',
        decreases n - k,
    {
        if !(is_alphanumeric(token[k]) || token[k] == '-') {
            return false;
        }
        k += 1;
    }
    true
}

/// The parts of a footer line: token end, separator and value start.
pub fn footer_parts(t: &[char]) -> (r: Option<(usize, FooterSeparator, usize)>)
    ensures
        match (r, spec_footer_parts(t@)) {
            (Some((te, sep, vs)), Some((tok, ssep, svs))) => te <= t@.len() && t@.subrange(0, te as int) == tok
                && sep == ssep && vs == svs,
            (None, None) => true,
            _ => false,
        },
{
    proof {
        lemma_footer_parts(t@);
    }
    let bc = chars_of("BREAKING CHANGE");
    if starts_with_at(t, bc.as_slice()) {
        assert(bc@.len() + 2 <= t@.len());
        assert(bc.len() + 2 <= t.len());
        return Some((bc.len(), FooterSeparator::Colon, bc.len() + 2));
    }
    let bh = chars_of("BREAKING-CHANGE");
    if starts_with_at(t, bh.as_slice()) {
        assert(bh@.len() + 2 <= t@.len());
        assert(bh.len() + 2 <= t.len());
        return Some((bh.len(), FooterSeparator::Colon, bh.len() + 2));
    }
    let k = find_char_from(t, ':', 0);
    if k < t.len() && is_valid_footer_token(slice_subrange(t, 0, k)) && k + 1 < t.len() && t[k + 1]
        == ' ' {
        return Some((k, FooterSeparator::Colon, k + 2));
    }
    let h = find_pair_from(t, ' ', '#');
    proof {
        lemma_find_pair(t@, ' ', '#', 0);
    }
    if h < t.len() && is_valid_footer_token(slice_subrange(t, 0, h)) {
        return Some((h, FooterSeparator::Hash, h + 1));
    }
    None
}

} // verus!

verus! {

// ---------------------------------------------------------------------------
// Where the footers begin.
// ---------------------------------------------------------------------------

pub open spec fn is_footer_line(s: Seq<char>, l: Seq<(int, int)>, j: int) -> bool {
    spec_footer_parts(line_text(s, l[j])) is Some
}

pub open spec fn is_blank_line(s: Seq<char>, l: Seq<(int, int)>, j: int) -> bool {
    all_ws(line_text(s, l[j]))
}

/// The first non-blank line at or after `j` (or the number of lines).
pub open spec fn next_nonblank(s: Seq<char>, l: Seq<(int, int)>, j: int) -> int
    decreases l.len() - j,
{
    if j < 0 || j >= l.len() {
        l.len() as int
    } else if is_blank_line(s, l, j) {
        next_nonblank(s, l, j + 1)
    } else {
        j
    }
}

/// The block from line `j` holds footers: its first non-blank line is one.
pub open spec fn footer_block_valid(s: Seq<char>, l: Seq<(int, int)>, j: int) -> bool {
    let k = next_nonblank(s, l, j);
    0 <= k < l.len() && is_footer_line(s, l, k)
}

/// The first footer line at or after `j` that follows a blank line.
pub open spec fn first_footer_after_blank(s: Seq<char>, l: Seq<(int, int)>, j: int) -> Option<int>
    decreases l.len() - j,
{
    if j < 1 || j >= l.len() {
        None
    } else if is_blank_line(s, l, j - 1) && is_footer_line(s, l, j) {
        Some(j)
    } else {
        first_footer_after_blank(s, l, j + 1)
    }
}

/// The line where the footers begin: the first line if it is a footer, else the first
/// footer line after a blank line.
pub open spec fn footer_start_line(s: Seq<char>, l: Seq<(int, int)>) -> Option<int> {
    if l.len() > 0 && is_footer_line(s, l, 0) {
        Some(0)
    } else {
        first_footer_after_blank(s, l, 1)
    }
}

pub proof fn lemma_next_nonblank(s: Seq<char>, l: Seq<(int, int)>, j: int)
    requires
        0 <= j <= l.len(),
    ensures
        j <= next_nonblank(s, l, j) <= l.len(),
        forall|k: int| j <= k < next_nonblank(s, l, j) ==> is_blank_line(s, l, k),
        next_nonblank(s, l, j) < l.len() ==> !is_blank_line(s, l, next_nonblank(s, l, j)),
    decreases l.len() - j,
{
    if j < l.len() && is_blank_line(s, l, j) {
        lemma_next_nonblank(s, l, j + 1);
    }
}

pub proof fn lemma_footer_not_blank(s: Seq<char>, l: Seq<(int, int)>, j: int)
    ensures
        is_footer_line(s, l, j) ==> !is_blank_line(s, l, j),
{
    lemma_footer_parts(line_text(s, l[j]));
}

/// `first_footer_after_blank` finds the least qualifying line.
pub proof fn lemma_first_footer(s: Seq<char>, l: Seq<(int, int)>, j: int, found: Option<int>)
    requires
        1 <= j,
        forall|k: int|
            j <= k < l.len() && (found matches Some(f) ==> k < f) ==> !(#[trigger] is_footer_line(s, l, k)
                && is_blank_line(s, l, k - 1)),
        found matches Some(f) ==> j <= f < l.len() && is_footer_line(s, l, f) && is_blank_line(
            s,
            l,
            f - 1,
        ),
    ensures
        first_footer_after_blank(s, l, j) == found,
    decreases l.len() - j,
{
    if j < l.len() {
        if found != Some(j) {
            assert(!(is_footer_line(s, l, j) && is_blank_line(s, l, j - 1)));
            lemma_first_footer(s, l, j + 1, found);
        }
    }
}

pub proof fn lemma_spans_increasing(s: Seq<char>, l: Seq<(int, int)>, a: int, b: int)
    requires
        spans_wf(s, 0, l),
        0 <= a < b < l.len(),
    ensures
        l[a].0 < l[b].0,
    decreases b - a,
{
    assert(l[(b - 1) + 1].0 == l[b - 1].1 + 1);
    if a < b - 1 {
        lemma_spans_increasing(s, l, a, b - 1);
    }
}

/// Whether line `j` is blank, for exec code.
fn line_is_blank(s: &[char], spans: &Vec<(usize, usize)>, j: usize) -> (r: bool)
    requires
        j < spans@.len(),
        spans_wf(s@, 0, spans_view(spans@)),
    ensures
        r == is_blank_line(s@, spans_view(spans@), j as int),
{
    let sp = spans[j];
    assert(spans_view(spans@)[j as int] == (sp.0 as int, sp.1 as int));
    let e = line_text_end(s, sp);
    all_in_class(slice_subrange(s, sp.0, e), CharClass::Whitespace)
}

/// The footer parts of line `j`, positioned in `s`.
fn line_footer_parts(s: &[char], spans: &Vec<(usize, usize)>, j: usize) -> (r: Option<(usize, FooterSeparator, usize)>)
    requires
        j < spans@.len(),
        spans_wf(s@, 0, spans_view(spans@)),
    ensures
        match (r, spec_footer_parts(line_text(s@, spans_view(spans@)[j as int]))) {
            (Some((te, sep, vs)), Some((tok, ssep, svs))) => {
                let st = spans_view(spans@)[j as int].0;
                &&& st <= te <= s@.len()
                &&& s@.subrange(st, te as int) == tok
                &&& sep == ssep
                &&& vs == st + svs
                &&& st + svs <= spans_view(spans@)[j as int].1
            },
            (None, None) => true,
            _ => false,
        },
{
    let sp = spans[j];
    assert(spans_view(spans@)[j as int] == (sp.0 as int, sp.1 as int));
    let e = line_text_end(s, sp);
    let t = slice_subrange(s, sp.0, e);
    proof {
        lemma_footer_parts(t@);
    }
    match footer_parts(t) {
        Some((te, sep, vs)) => {
            assert(s@.subrange(sp.0 as int, sp.0 + te) == t@.subrange(0, te as int));
            Some((sp.0 + te, sep, sp.0 + vs))
        },
        None => None,
    }
}

/// The first non-blank line at or after `start`.
fn next_non_blank_line(s: &[char], spans: &Vec<(usize, usize)>, start: usize) -> (r: Option<usize>)
    requires
        start <= spans@.len(),
        spans_wf(s@, 0, spans_view(spans@)),
    ensures
        match r {
            Some(k) => k == next_nonblank(s@, spans_view(spans@), start as int) && k < spans@.len(),
            None => next_nonblank(s@, spans_view(spans@), start as int) == spans@.len(),
        },
{
    proof {
        lemma_next_nonblank(s@, spans_view(spans@), start as int);
    }
    let mut k = start;
    while k < spans.len()
        invariant
            start <= k <= spans@.len(),
            spans_wf(s@, 0, spans_view(spans@)),
            next_nonblank(s@, spans_view(spans@), k as int) == next_nonblank(
                s@,
                spans_view(spans@),
                start as int,
            ),
        decreases spans@.len() - k,
    {
        if !line_is_blank(s, spans, k) {
            return Some(k);
        }
        k += 1;
    }
    None
}

/// Whether the lines from the one that starts at `start` form a footer block.
fn footer_block_is_valid(s: &[char], spans: &Vec<(usize, usize)>, start: usize) -> (r: bool)
    requires
        spans_wf(s@, 0, spans_view(spans@)),
    ensures
        forall|j: int|
            0 <= j < spans@.len() && spans@[j].0 == start ==> r == footer_block_valid(
                s@,
                spans_view(spans@),
                j,
            ),
{
    let ghost l = spans_view(spans@);
    let n = spans.len();
    let mut pos: usize = 0;
    while pos < n && spans[pos].0 != start
        invariant
            n == spans@.len(),
            pos <= n,
            forall|j: int| 0 <= j < pos ==> spans@[j].0 != start,
        decreases n - pos,
    {
        pos += 1;
    }
    if pos == n {
        return false;
    }
    proof {
        assert forall|j: int| 0 <= j < spans@.len() && spans@[j].0 == start implies j == pos by {
            if j > pos {
                lemma_spans_increasing(s@, l, pos as int, j);
            } else if j < pos {
            }
        }
    }
    let ghost p0 = pos as int;
    let mut index = pos;
    let mut saw = false;
    while index < n
        invariant
            n == spans@.len(),
            l == spans_view(spans@),
            spans_wf(s@, 0, l),
            0 <= p0 <= index <= n,
            p0 < n,
            spans@[p0].0 == start,
            forall|j: int| 0 <= j < n && spans@[j].0 == start ==> j == p0,
            !saw ==> next_nonblank(s@, l, index as int) == next_nonblank(s@, l, p0),
            saw ==> footer_block_valid(s@, l, p0),
            saw ==> index == n || is_footer_line(s@, l, index as int),
        decreases n - index,
    {
        proof {
            lemma_footer_not_blank(s@, l, index as int);
        }
        if line_is_blank(s, spans, index) {
            index += 1;
            continue;
        }
        if line_footer_parts(s, spans, index).is_some() {
            proof {
                assert(next_nonblank(s@, l, index as int) == index);
            }
            saw = true;
            let ghost before = index;
            index += 1;
            while index < n && line_footer_parts(s, spans, index).is_none()
                invariant
                    n == spans@.len(),
                    l == spans_view(spans@),
                    spans_wf(s@, 0, l),
                    p0 < index <= n,
                    before < index,
                decreases n - index,
            {
                index += 1;
            }
        } else {
            return false;
        }
    }
    saw
}

/// The offset where the footers begin, if any line starts them.
fn find_footer_start(s: &[char], spans: &Vec<(usize, usize)>) -> (r: Option<usize>)
    requires
        spans_wf(s@, 0, spans_view(spans@)),
    ensures
        match (r, footer_start_line(s@, spans_view(spans@))) {
            (Some(st), Some(j)) => 0 <= j < spans@.len() && st == spans@[j].0,
            (None, None) => true,
            _ => false,
        },
{
    let ghost l = spans_view(spans@);
    let n = spans.len();
    let mut candidate: Option<usize> = None;
    let ghost mut cand_line: int = 0;
    let mut index: usize = 0;
    while index < n
        invariant
            n == spans@.len(),
            l == spans_view(spans@),
            spans_wf(s@, 0, l),
            index <= n,
            candidate is None ==> forall|k: int|
                1 <= k <= index && k < n ==> !(#[trigger] is_footer_line(s@, l, k) && is_blank_line(s@, l, k - 1)),
            candidate matches Some(st) ==> {
                &&& 1 <= cand_line < n
                &&& st == spans@[cand_line].0
                &&& is_footer_line(s@, l, cand_line)
                &&& is_blank_line(s@, l, cand_line - 1)
                &&& forall|k: int|
                    1 <= k < cand_line ==> !(#[trigger] is_footer_line(s@, l, k) && is_blank_line(s@, l, k - 1))
            },
        decreases n - index,
    {
        if line_is_blank(s, spans, index) {
            let next = next_non_blank_line(s, spans, index + 1);
            proof {
                lemma_next_nonblank(s@, l, index + 1);
            }
            match next {
                Some(j) => {
                    proof {
                        lemma_footer_not_blank(s@, l, j as int);
                        lemma_next_nonblank(s@, l, j as int);
                    }
                    let ghost was_none = candidate is None;
                    if line_footer_parts(s, spans, j).is_some() {
                        let st = spans[j].0;
                        proof {
                            assert(spans@[j as int].0 == st);
                            assert(next_nonblank(s@, l, j as int) == j);
                            assert(footer_block_valid(s@, l, j as int));
                        }
                        if footer_block_is_valid(s, spans, st) && (candidate.is_none() || st == 0) {
                            if candidate.is_some() {
                                proof {
                                    lemma_spans_increasing(s@, l, 0, j as int);
                                }
                            }
                            proof {
                                cand_line = j as int;
                                assert forall|k: int| 1 <= k < cand_line implies !(#[trigger] is_footer_line(s@, l, k)
                                    && is_blank_line(s@, l, k - 1)) by {
                                    if k > index {
                                        lemma_footer_not_blank(s@, l, k);
                                    }
                                }
                            }
                            candidate = Some(st);
                        }
                    }
                    proof {
                        if candidate is None && index + 1 < n {
                            if j == index + 1 {
                                assert(!is_footer_line(s@, l, j as int));
                            } else {
                                assert(is_blank_line(s@, l, index + 1));
                                lemma_footer_not_blank(s@, l, index + 1);
                            }
                            assert(!(is_footer_line(s@, l, index + 1) && is_blank_line(s@, l, index as int)));
                        }
                    }
                },
                None => {
                    proof {
                        if index + 1 < n {
                            assert(is_blank_line(s@, l, index + 1));
                            lemma_footer_not_blank(s@, l, index + 1);
                        }
                    }
                },
            }
        }
        index += 1;
    }
    proof {
        match candidate {
            Some(_) => lemma_first_footer(s@, l, 1, Some(cand_line)),
            None => lemma_first_footer(s@, l, 1, None),
        }
        assert(l.len() == n);
    }
    if n > 0 && line_footer_parts(s, spans, 0).is_some() {
        let st = spans[0].0;
        proof {
            assert(spans@[0int].0 == st);
            lemma_footer_not_blank(s@, l, 0);
            assert(next_nonblank(s@, l, 0) == 0);
            assert(footer_block_valid(s@, l, 0));
        }
        if footer_block_is_valid(s, spans, st) {
            return Some(st);
        }
        proof {
            lemma_footer_not_blank(s@, l, 0);
            lemma_next_nonblank(s@, l, 0);
        }
    }
    candidate
}

} // verus!

verus! {

// ---------------------------------------------------------------------------
// Footers.
// ---------------------------------------------------------------------------

/// The first footer line at or after `k` (or the number of lines).
pub open spec fn next_footer_line(s: Seq<char>, l: Seq<(int, int)>, k: int) -> int
    decreases l.len() - k,
{
    if k < 0 || k >= l.len() {
        l.len() as int
    } else if is_footer_line(s, l, k) {
        k
    } else {
        next_footer_line(s, l, k + 1)
    }
}

pub proof fn lemma_next_footer_line(s: Seq<char>, l: Seq<(int, int)>, k: int)
    requires
        0 <= k <= l.len(),
    ensures
        k <= next_footer_line(s, l, k) <= l.len(),
    decreases l.len() - k,
{
    if k < l.len() && !is_footer_line(s, l, k) {
        lemma_next_footer_line(s, l, k + 1);
    }
}

/// The footers in the lines of `s` from line `idx`: each footer line starts one,
/// and the lines up to the next footer line continue its value.
pub open spec fn footers_from(s: Seq<char>, l: Seq<(int, int)>, idx: int) -> Option<Seq<SpecFooter>>
    decreases l.len() - idx,
{
    if idx < 0 || idx >= l.len() {
        Some(seq![])
    } else if is_blank_line(s, l, idx) {
        footers_from(s, l, idx + 1)
    } else {
        match spec_footer_parts(line_text(s, l[idx])) {
            None => None,
            Some((token, separator, vs)) => {
                let k = next_footer_line(s, l, idx + 1);
                proof {
                    lemma_next_footer_line(s, l, idx + 1);
                }
                let value = trim_of(s.subrange(l[idx].0 + vs, l[k - 1].1), CharClass::LineBreak);
                if all_ws(value) || (separator == FooterSeparator::Hash && value == seq!['#']) {
                    None
                } else {
                    match footers_from(s, l, k) {
                        None => None,
                        Some(rest) => Some(seq![SpecFooter { token, separator, value }] + rest),
                    }
                }
            },
        }
    }
}

/// The footers of a footer block (`None` when one is malformed).
pub open spec fn spec_parse_footers(s: Seq<char>) -> Option<Seq<SpecFooter>> {
    footers_from(s, line_spans(s), 0)
}

/// Where a footer's token and value lie.
#[derive(Clone, Copy)]
pub struct FooterPos {
    pub token: (usize, usize),
    pub separator: FooterSeparator,
    pub value: (usize, usize),
}

pub open spec fn footer_pos_matches(s: Seq<char>, p: FooterPos, f: SpecFooter) -> bool {
    &&& p.token.0 <= p.token.1 <= s.len()
    &&& p.value.0 <= p.value.1 <= s.len()
    &&& s.subrange(p.token.0 as int, p.token.1 as int) == f.token
    &&& p.separator == f.separator
    &&& s.subrange(p.value.0 as int, p.value.1 as int) == f.value
}

pub open spec fn footers_match(s: Seq<char>, ps: Seq<FooterPos>, fs: Seq<SpecFooter>) -> bool {
    &&& ps.len() == fs.len()
    &&& forall|i: int| 0 <= i < ps.len() ==> footer_pos_matches(s, #[trigger] ps[i], fs[i])
}

pub open spec fn opt_append(prefix: Seq<SpecFooter>, rest: Option<Seq<SpecFooter>>) -> Option<Seq<SpecFooter>> {
    match rest {
        Some(r) => Some(prefix + r),
        None => None,
    }
}

/// Trims line breaks from both ends of `s[a..b]`, giving the bounds of what is left.
fn trim_line_breaks(s: &[char], a: usize, b: usize) -> (r: (usize, usize))
    requires
        a <= b <= s@.len(),
    ensures
        a <= r.0 <= r.1 <= b,
        s@.subrange(r.0 as int, r.1 as int) == trim_of(s@.subrange(a as int, b as int), CharClass::LineBreak),
{
    let sub = slice_subrange(s, a, b);
    let x = skip_forward(sub, 0, CharClass::LineBreak);
    let sub2 = slice_subrange(sub, x, sub.len());
    let y = skip_backward(sub2, sub2.len(), CharClass::LineBreak);
    assert(sub2@ == trim_start_of(sub@, CharClass::LineBreak));
    assert(s@.subrange(a + x, a + x + y) == sub2@.subrange(0, y as int));
    (a + x, a + x + y)
}

/// Parses a footer block into the positions of its footers.
fn parse_footers(s: &[char]) -> (r: Result<Vec<FooterPos>, ParseErrorKind>)
    ensures
        match (r, spec_parse_footers(s@)) {
            (Ok(ps), Some(fs)) => footers_match(s@, ps@, fs),
            (Err(e), None) => e == ParseErrorKind::InvalidFooter,
            _ => false,
        },
{
    let spans = line_spans_exec(s);
    let ghost l = spans_view(spans@);
    proof {
        lemma_line_spans(s@, 0);
    }
    let n = spans.len();
    let mut footers: Vec<FooterPos> = Vec::new();
    let ghost mut prefix: Seq<SpecFooter> = seq![];
    let mut index: usize = 0;
    while index < n
        invariant
            n == spans@.len(),
            l == spans_view(spans@),
            l == line_spans(s@),
            spans_wf(s@, 0, l),
            index <= n,
            footers_from(s@, l, 0) == opt_append(prefix, footers_from(s@, l, index as int)),
            footers_match(s@, footers@, prefix),
        decreases n - index,
    {
        if line_is_blank(s, &spans, index) {
            index += 1;
            continue;
        }
        match line_footer_parts(s, &spans, index) {
            None => {
                return Err(ParseErrorKind::InvalidFooter);
            },
            Some((te, separator, vs)) => {
                let idx = index;
                let token_start = spans[idx].0;
                assert(l[idx as int] == (token_start as int, spans@[idx as int].1 as int));
                let mut value_end = spans[idx].1;
                index += 1;
                while index < n
                    invariant
                        n == spans@.len(),
                        l == spans_view(spans@),
                        spans_wf(s@, 0, l),
                        idx < index <= n,
                        value_end == l[index - 1].1,
                        next_footer_line(s@, l, index as int) == next_footer_line(s@, l, idx + 1),
                    ensures
                        idx < index <= n,
                        value_end == l[index - 1].1,
                        next_footer_line(s@, l, idx + 1) == index,
                    decreases n - index,
                {
                    proof {
                        lemma_footer_not_blank(s@, l, index as int);
                    }
                    if line_is_blank(s, &spans, index) {
                        value_end = spans[index].1;
                        index += 1;
                        continue;
                    }
                    if line_footer_parts(s, &spans, index).is_some() {
                        break;
                    }
                    value_end = spans[index].1;
                    index += 1;
                }
                proof {
                    lemma_next_footer_line(s@, l, idx + 1);
                    if index > idx + 1 {
                        lemma_spans_increasing(s@, l, idx as int, index - 1);
                        assert(l[(idx as int) + 1].0 == l[idx as int].1 + 1);
                        if idx + 1 < index - 1 {
                            lemma_spans_increasing(s@, l, idx + 1, index - 1);
                        }
                    }
                }
                let (va, vb) = trim_line_breaks(s, vs, value_end);
                let value = slice_subrange(s, va, vb);
                if all_in_class(value, CharClass::Whitespace) || (separator == FooterSeparator::Hash
                    && value.len() == 1 && value[0] == '#') {
                    proof {
                        if !all_ws(value@) {
                            assert(value@ =~= seq!['#']);
                        }
                    }
                    return Err(ParseErrorKind::InvalidFooter);
                }
                let pos = FooterPos { token: (token_start, te), separator, value: (va, vb) };
                let ghost f = SpecFooter {
                    token: s@.subrange(token_start as int, te as int),
                    separator,
                    value: value@,
                };
                proof {
                    assert(value@ != seq!['#'] || separator != FooterSeparator::Hash);
                    assert(footers_from(s@, l, idx as int) == opt_append(
                        seq![f],
                        footers_from(s@, l, index as int),
                    ));
                    assert(prefix + seq![f] + seq![] =~= prefix.push(f));
                    match footers_from(s@, l, index as int) {
                        Some(rest) => {
                            assert(prefix + (seq![f] + rest) =~= prefix.push(f) + rest);
                        },
                        None => {},
                    }
                    prefix = prefix.push(f);
                }
                footers.push(pos);
            },
        }
    }
    proof {
        assert(prefix + seq![] =~= prefix);
    }
    Ok(footers)
}

} // verus!

verus! {

// ---------------------------------------------------------------------------
// Body and footers.
// ---------------------------------------------------------------------------

/// The index after the line breaks (`\r\n` or `\n`) that start `s[i..]`.
pub open spec fn skip_blank_lines(s: Seq<char>, i: int) -> int
    decreases s.len() - i,
{
    if 0 <= i && i + 1 < s.len() && s[i] == '\r' && s[i + 1] == '\n' {
        skip_blank_lines(s, i + 2)
    } else if 0 <= i < s.len() && s[i] == '\n' {
        skip_blank_lines(s, i + 1)
    } else {
        i
    }
}

pub proof fn lemma_skip_blank_lines(s: Seq<char>, i: int)
    requires
        0 <= i <= s.len(),
    ensures
        i <= skip_blank_lines(s, i) <= s.len(),
    decreases s.len() - i,
{
    if i + 1 < s.len() && s[i] == '\r' && s[i + 1] == '\n' {
        lemma_skip_blank_lines(s, i + 2);
    } else if i < s.len() && s[i] == '\n' {
        lemma_skip_blank_lines(s, i + 1);
    }
}

/// `s` without surrounding line breaks, if anything is left.
pub open spec fn trimmed_non_empty(s: Seq<char>) -> Option<Seq<char>> {
    let t = trim_of(s, CharClass::LineBreak);
    if t.len() == 0 {
        None
    } else {
        Some(t)
    }
}

/// The body and footers that follow the header line.
pub open spec fn spec_body_footers(rest: Seq<char>) -> Result<(Option<Seq<char>>, Seq<SpecFooter>), ParseErrorKind> {
    let r = trim_end_of(rest, CharClass::LineBreak);
    if r.len() == 0 {
        Ok((None, seq![]))
    } else if !(r[0] == '\n' || (r.len() >= 2 && r[0] == '\r' && r[1] == '\n')) {
        Err(ParseErrorKind::InvalidBody)
    } else {
        let c = r.subrange(skip_blank_lines(r, 0), r.len() as int);
        if c.len() == 0 {
            Ok((None, seq![]))
        } else {
            let l = line_spans(c);
            match footer_start_line(c, l) {
                None => Ok((Some(c), seq![])),
                Some(j) => {
                    let st = l[j].0;
                    match spec_parse_footers(c.subrange(st, c.len() as int)) {
                        None => Err(ParseErrorKind::InvalidFooter),
                        Some(fs) => Ok(
                            (if st == 0 { None } else { trimmed_non_empty(c.subrange(0, st)) }, fs),
                        ),
                    }
                },
            }
        }
    }
}

pub open spec fn opt_span_matches(s: Seq<char>, p: Option<(usize, usize)>, v: Option<Seq<char>>) -> bool {
    match (p, v) {
        (Some((a, b)), Some(x)) => a <= b <= s.len() && s.subrange(a as int, b as int) == x,
        (None, None) => true,
        _ => false,
    }
}

/// Shifts the positions of footers by `base`.
fn shift_footers(ps: Vec<FooterPos>, base: usize, Ghost(outer): Ghost<Seq<char>>, Ghost(inner): Ghost<Seq<char>>, Ghost(fs): Ghost<Seq<SpecFooter>>) -> (r: Vec<FooterPos>)
    requires
        footers_match(inner, ps@, fs),
        base + inner.len() <= outer.len(),
        outer.len() <= usize::MAX,
        outer.subrange(base as int, base + inner.len()) == inner,
    ensures
        footers_match(outer, r@, fs),
{
    let mut r: Vec<FooterPos> = Vec::new();
    let mut i: usize = 0;
    while i < ps.len()
        invariant
            footers_match(inner, ps@, fs),
            base + inner.len() <= outer.len(),
            outer.len() <= usize::MAX,
            outer.subrange(base as int, base + inner.len()) == inner,
            i <= ps@.len(),
            r@.len() == i,
            forall|k: int| 0 <= k < i ==> footer_pos_matches(outer, #[trigger] r@[k], fs[k]),
        decreases ps@.len() - i,
    {
        let p = ps[i];
        assert(footer_pos_matches(inner, ps@[i as int], fs[i as int]));
        let q = FooterPos {
            token: (base + p.token.0, base + p.token.1),
            separator: p.separator,
            value: (base + p.value.0, base + p.value.1),
        };
        assert(outer.subrange(q.token.0 as int, q.token.1 as int) == inner.subrange(p.token.0 as int, p.token.1 as int));
        assert(outer.subrange(q.value.0 as int, q.value.1 as int) == inner.subrange(p.value.0 as int, p.value.1 as int));
        r.push(q);
        i += 1;
    }
    r
}

/// Parses what follows the header line into the bounds of the body and footers.
pub fn parse_body_and_footers(rest: &[char]) -> (r: Result<(Option<(usize, usize)>, Vec<FooterPos>), ParseErrorKind>)
    ensures
        match (r, spec_body_footers(rest@)) {
            (Ok((b, ps)), Ok((sb, fs))) => opt_span_matches(rest@, b, sb) && footers_match(rest@, ps@, fs),
            (Err(e), Err(k)) => e == k,
            _ => false,
        },
{
    let n = skip_backward(rest, rest.len(), CharClass::LineBreak);
    let r = slice_subrange(rest, 0, n);
    if n == 0 {
        return Ok((None, Vec::new()));
    }
    if !(r[0] == '\n' || (n >= 2 && r[0] == '\r' && r[1] == '\n')) {
        return Err(ParseErrorKind::InvalidBody);
    }
    let cs = trim_leading_blank_lines(r);
    proof {
        lemma_skip_blank_lines(r@, 0);
    }
    let c = slice_subrange(r, cs, n);
    if c.len() == 0 {
        return Ok((None, Vec::new()));
    }
    let spans = line_spans_exec(c);
    proof {
        lemma_line_spans(c@, 0);
    }
    match find_footer_start(c, &spans) {
        None => {
            assert(rest@.subrange(cs as int, n as int) == c@);
            Ok((Some((cs, n)), Vec::new()))
        },
        Some(st) => {
            let ghost j = choose|j: int| 0 <= j < spans@.len() && st == spans@[j].0 && footer_start_line(c@, spans_view(spans@)) == Some(j);
            assert(spans_view(spans@)[j].0 == st);
            let block = slice_subrange(c, st, c.len());
            match parse_footers(block) {
                Err(e) => Err(e),
                Ok(ps) => {
                    let ghost fs = spec_parse_footers(block@).unwrap();
                    assert(rest@.subrange(cs + st, cs + st + block@.len()) == block@);
                    let shifted = shift_footers(ps, cs + st, Ghost(rest@), Ghost(block@), Ghost(fs));
                    let body = if st == 0 {
                        None
                    } else {
                        let (a, b) = trim_line_breaks(c, 0, st);
                        assert(rest@.subrange(cs + a, cs + b) == c@.subrange(a as int, b as int));
                        if a == b {
                            None
                        } else {
                            Some((cs + a, cs + b))
                        }
                    };
                    Ok((body, shifted))
                },
            }
        },
    }
}

/// Skips the line breaks at the start of `s`.
fn trim_leading_blank_lines(s: &[char]) -> (r: usize)
    ensures
        r == skip_blank_lines(s@, 0),
        r <= s@.len(),
{
    proof {
        lemma_skip_blank_lines(s@, 0);
    }
    let mut i: usize = 0;
    loop
        invariant
            i <= s@.len(),
            skip_blank_lines(s@, i as int) == skip_blank_lines(s@, 0),
        decreases s@.len() - i,
    {
        if i < s.len() && s.len() - i >= 2 && s[i] == '\r' && s[i + 1] == '\n' {
            i += 2;
        } else if i < s.len() && s[i] == '\n' {
            i += 1;
        } else {
            return i;
        }
    }
}

} // verus!

verus! {

// ---------------------------------------------------------------------------
// The whole message.
// ---------------------------------------------------------------------------

/// The index of the first breaking-change footer at or after `i`.
pub open spec fn first_breaking_footer(fs: Seq<SpecFooter>, i: int) -> Option<int>
    decreases fs.len() - i,
{
    if i < 0 || i >= fs.len() {
        None
    } else if spec_is_breaking_token(fs[i].token) {
        Some(i)
    } else {
        first_breaking_footer(fs, i + 1)
    }
}

/// The message without surrounding line breaks, split into its header line and the rest.
pub open spec fn split_message(msg: Seq<char>) -> (Seq<char>, Seq<char>) {
    let m = trim_of(msg, CharClass::LineBreak);
    let k = find_char(m, '\n', 0);
    if k < m.len() {
        (trim_end_of(m.subrange(0, k), CharClass::CarriageReturn), m.subrange(k + 1, m.len() as int))
    } else {
        (trim_end_of(m, CharClass::CarriageReturn), seq![])
    }
}

/// The meaning of a commit message under the Conventional Commits grammar.
pub open spec fn spec_parse(msg: Seq<char>) -> Result<SpecCommitMessage, ParseErrorKind> {
    if all_ws(trim_of(msg, CharClass::LineBreak)) {
        Err(ParseErrorKind::EmptyMessage)
    } else {
        let (header_line, rest) = split_message(msg);
        match spec_parse_header(header_line) {
            Err(e) => Err(e),
            Ok(header) => match spec_body_footers(rest) {
                Err(e) => Err(e),
                Ok((body, footers)) => {
                    let bf = first_breaking_footer(footers, 0);
                    Ok(SpecCommitMessage {
                        header,
                        body,
                        footers,
                        breaking: header.breaking || bf is Some,
                        breaking_description: match bf {
                            Some(i) => Some(footers[i].value),
                            None => if header.breaking {
                                Some(header.description)
                            } else {
                                None
                            },
                        },
                    })
                },
            },
        }
    }
}

/// The header whose parts lie at `hp` in the line `message[base..]`.
fn header_at<'a>(message: &'a str, base: usize, end: usize, Ghost(line): Ghost<Seq<char>>, hp: &HeaderPos, Ghost(sh): Ghost<SpecHeader>) -> (r: Header<'a>)
    requires
        base + line.len() <= message@.len(),
        end == base + line.len(),
        message@.len() <= usize::MAX,
        message@.subrange(base as int, base + line.len()) == line,
        header_pos_matches(line, *hp, sh),
    ensures
        r@ == sh,
{
    let ty = message.substring_char(base, base + hp.ty_end);
    assert(ty@ == line.subrange(0, hp.ty_end as int));
    let scope = match hp.scope {
        Some((x, y)) => {
            let sc = message.substring_char(base + x, base + y);
            assert(sc@ == line.subrange(x as int, y as int));
            Some(sc)
        },
        None => None,
    };
    let description = message.substring_char(base + hp.description_start, end);
    assert(description@ == line.subrange(hp.description_start as int, line.len() as int));
    Header { ty, scope, breaking: hp.breaking, description }
}

/// The part of `message[base..]` at `p`, if any.
fn span_at<'a>(message: &'a str, base: usize, Ghost(rest): Ghost<Seq<char>>, p: Option<(usize, usize)>, Ghost(v): Ghost<Option<Seq<char>>>) -> (r: Option<&'a str>)
    requires
        base + rest.len() <= message@.len(),
        message@.len() <= usize::MAX,
        message@.subrange(base as int, base + rest.len()) == rest,
        opt_span_matches(rest, p, v),
    ensures
        opt_str_view(r) == v,
{
    match p {
        Some((x, y)) => {
            let t = message.substring_char(base + x, base + y);
            assert(t@ == rest.subrange(x as int, y as int));
            Some(t)
        },
        None => None,
    }
}

/// The footers whose parts lie at `ps` in `message[base..]`.
fn footers_at<'a>(message: &'a str, base: usize, Ghost(rest): Ghost<Seq<char>>, ps: &Vec<FooterPos>, Ghost(fs): Ghost<Seq<SpecFooter>>) -> (r: Vec<Footer<'a>>)
    requires
        base + rest.len() <= message@.len(),
        message@.len() <= usize::MAX,
        message@.subrange(base as int, base + rest.len()) == rest,
        footers_match(rest, ps@, fs),
    ensures
        r@.map_values(|f: Footer<'a>| f@) == fs,
{
    let mut footers: Vec<Footer<'a>> = Vec::new();
    let mut i: usize = 0;
    while i < ps.len()
        invariant
            footers_match(rest, ps@, fs),
            base + rest.len() <= message@.len(),
            message@.len() <= usize::MAX,
            message@.subrange(base as int, base + rest.len()) == rest,
            i <= ps@.len(),
            footers@.len() == i,
            forall|k: int| 0 <= k < i ==> (#[trigger] footers@[k])@ == fs[k],
        decreases ps@.len() - i,
    {
        let p = ps[i];
        assert(footer_pos_matches(rest, ps@[i as int], fs[i as int]));
        let token = message.substring_char(base + p.token.0, base + p.token.1);
        assert(token@ == rest.subrange(p.token.0 as int, p.token.1 as int));
        let value = message.substring_char(base + p.value.0, base + p.value.1);
        assert(value@ == rest.subrange(p.value.0 as int, p.value.1 as int));
        footers.push(Footer { token, separator: p.separator, value });
        i += 1;
    }
    assert(footers@.map_values(|f: Footer<'a>| f@) =~= fs);
    footers
}

/// The index of the first breaking-change footer, or the number of footers.
fn first_breaking_index(footers: &Vec<Footer>, Ghost(fs): Ghost<Seq<SpecFooter>>) -> (r: usize)
    requires
        footers@.map_values(|f: Footer| f@) == fs,
    ensures
        r <= fs.len(),
        r < fs.len() ==> first_breaking_footer(fs, 0) == Some(r as int),
        r == fs.len() ==> first_breaking_footer(fs, 0) is None,
{
    let mut bi: usize = 0;
    while bi < footers.len() && !footers[bi].is_breaking_change()
        invariant
            bi <= footers@.len(),
            footers@.map_values(|f: Footer| f@) == fs,
            first_breaking_footer(fs, bi as int) == first_breaking_footer(fs, 0),
        decreases footers@.len() - bi,
    {
        assert(footers@[bi as int]@ == fs[bi as int]);
        bi += 1;
    }
    if bi < footers.len() {
        assert(footers@[bi as int]@ == fs[bi as int]);
    }
    bi
}

/// Parses a commit message under the Conventional Commits grammar.
pub fn parse<'a>(message: &'a str) -> (r: Result<CommitMessage<'a>, ParseError>)
    ensures
        match (r, spec_parse(message@)) {
            (Ok(m), Ok(sm)) => m@ == sm,
            (Err(e), Err(k)) => e.kind == k && e.message@ == parse_error_text(k),
            _ => false,
        },
{
    let chars = chars_of(message);
    let s = chars.as_slice();
    let total = s.len();
    let a = skip_forward(s, 0, CharClass::LineBreak);
    let s1 = slice_subrange(s, a, total);
    let b = skip_backward(s1, s1.len(), CharClass::LineBreak);
    let m = slice_subrange(s1, 0, b);
    assert(m@ == trim_of(message@, CharClass::LineBreak));
    assert(s@.subrange(a as int, a + b) == m@);
    if all_in_class(m, CharClass::Whitespace) {
        return Err(ParseError::of_kind(ParseErrorKind::EmptyMessage));
    }
    let k = find_char_from(m, '\n', 0);
    let (he, rest_start) = if k < m.len() {
        let hl = slice_subrange(m, 0, k);
        (skip_backward(hl, k, CharClass::CarriageReturn), k + 1)
    } else {
        (skip_backward(m, m.len(), CharClass::CarriageReturn), m.len())
    };
    let header_line = slice_subrange(m, 0, he);
    let rest = slice_subrange(m, rest_start, m.len());
    assert(header_line@ == split_message(message@).0);
    assert(rest@ == split_message(message@).1);
    let hp = match parse_header(header_line) {
        Ok(hp) => hp,
        Err(kind) => {
            return Err(ParseError::of_kind(kind));
        },
    };
    let (body_pos, footer_pos) = match parse_body_and_footers(rest) {
        Ok(x) => x,
        Err(kind) => {
            return Err(ParseError::of_kind(kind));
        },
    };
    let ghost sh = spec_parse_header(header_line@).unwrap();
    let ghost sb = spec_body_footers(rest@).unwrap();
    let hbase = a;
    let rbase = a + rest_start;
    proof {
        assert(message@.subrange(hbase as int, hbase + header_line@.len()) == header_line@);
        assert(message@.subrange(rbase as int, rbase + rest@.len()) == rest@);
    }
    let header = header_at(message, hbase, hbase + header_line.len(), Ghost(header_line@), &hp, Ghost(sh));
    let body = span_at(message, rbase, Ghost(rest@), body_pos, Ghost(sb.0));
    let footers = footers_at(message, rbase, Ghost(rest@), &footer_pos, Ghost(sb.1));
    let bi = first_breaking_index(&footers, Ghost(sb.1));
    let found = bi < footers.len();
    proof {
        if found {
            assert(footers@[bi as int]@ == sb.1[bi as int]);
        }
    }
    let breaking_description = if found {
        Some(footers[bi].value)
    } else if header.breaking {
        Some(header.description)
    } else {
        None
    };
    let breaking = header.breaking || found;
    Ok(CommitMessage { header, body, footers, breaking, breaking_description })
}

} // verus!

verus! {

/// A header written from its parts: `<type>[(<scope>)][!]: <description>`.
pub open spec fn header_line(ty: Seq<char>, scope: Option<Seq<char>>, breaking: bool, description: Seq<char>) -> Seq<char> {
    ty + scope_part(scope) + bang_part(breaking) + seq![':', ' '] + description
}

proof fn lemma_scan_skips(s: Seq<char>, i: int, j: int, depth: int)
    requires
        0 <= i <= j <= s.len(),
        forall|k: int| i <= k < j ==> s[k] != '(' && s[k] != ')' && (depth == 0 ==> s[k] != ':'),
    ensures
        scan_header(s, i, depth) == scan_header(s, j, depth),
    decreases j - i,
{
    if i < j {
        lemma_scan_skips(s, i + 1, j, depth);
    }
}

pub open spec fn scope_part(scope: Option<Seq<char>>) -> Seq<char> {
    match scope {
        Some(s) => seq!['('] + s + seq![')'],
        None => seq![],
    }
}

pub open spec fn bang_part(breaking: bool) -> Seq<char> {
    if breaking {
        seq!['!']
    } else {
        seq![]
    }
}

/// The parts of a header that a well-formed writing of it requires.
pub open spec fn header_parts_ok(ty: Seq<char>, scope: Option<Seq<char>>, description: Seq<char>) -> bool {
    &&& ty.len() > 0
    &&& !has_invalid_type_char(ty)
    &&& scope matches Some(s) ==> !all_ws(s) && forall|k: int|
        0 <= k < s.len() ==> s[k] != '(' && s[k] != ')' && s[k] != '!'
    &&& description.len() > 0
    &&& !is_ws(description[0])
}

proof fn lemma_type_chars(ty: Seq<char>, k: int)
    requires
        !has_invalid_type_char(ty),
        0 <= k < ty.len(),
    ensures
        !is_invalid_type_char(ty[k]),
{
}

proof fn lemma_written_header_scan(ty: Seq<char>, scope: Option<Seq<char>>, breaking: bool, description: Seq<char>)
    requires
        header_parts_ok(ty, scope, description),
    ensures
        scan_header(header_line(ty, scope, breaking, description), 0, 0) == HeaderScan::Colon(
            (ty.len() + scope_part(scope).len() + bang_part(breaking).len()) as int,
        ),
        !is_ws(header_line(ty, scope, breaking, description)[0]),
        !all_ws(header_line(ty, scope, breaking, description)),
{
    let line = header_line(ty, scope, breaking, description);
    let mid = scope_part(scope);
    let bang = bang_part(breaking);
    let ci = (ty.len() + mid.len() + bang.len()) as int;
    assert(line =~= ty + mid + bang + seq![':', ' '] + description);
    assert forall|k: int| 0 <= k < ty.len() implies line[k] != '(' && line[k] != ')' && line[k] != ':' by {
        lemma_type_chars(ty, k);
        assert(line[k] == ty[k]);
    }
    lemma_scan_skips(line, 0, ty.len() as int, 0);
    match scope {
        Some(s) => {
            let a = ty.len() as int;
            assert(line[a] == '(');
            assert forall|k: int| a + 1 <= k < a + 1 + s.len() implies line[k] != '(' && line[k] != ')' by {
                assert(line[k] == s[k - a - 1]);
            }
            lemma_scan_skips(line, a + 1, a + 1 + s.len(), 1);
            assert(line[a + 1 + s.len()] == ')');
            assert(scan_header(line, a, 0) == scan_header(line, a + 1, 1));
            assert(scan_header(line, a + 1 + s.len(), 1) == scan_header(line, a + 2 + s.len(), 0));
        },
        None => {},
    }
    let after = (ty.len() + mid.len()) as int;
    assert(scan_header(line, 0, 0) == scan_header(line, after, 0));
    if breaking {
        assert(line[after] == '!');
        assert(scan_header(line, after, 0) == scan_header(line, after + 1, 0));
    }
    assert(line[ci] == ':');
    assert(scan_header(line, ci, 0) == HeaderScan::Colon(ci));
    lemma_type_chars(ty, 0);
    assert(line[0] == ty[0]);
    assert(!in_class(CharClass::Whitespace, line[0]));
}

proof fn lemma_written_header_prefix(ty: Seq<char>, scope: Option<Seq<char>>, breaking: bool, description: Seq<char>)
    requires
        header_parts_ok(ty, scope, description),
    ensures
        ({
            let prefix0 = ty + scope_part(scope) + bang_part(breaking);
            let prefix = ty + scope_part(scope);
            &&& (prefix0.len() > 0 && prefix0.last() == '!') == breaking
            &&& (if breaking { prefix0.drop_last() } else { prefix0 }) == prefix
            &&& !prefix.contains('!')
            &&& find_char(prefix, '(', 0) == ty.len()
            &&& match scope {
                Some(s) => prefix.len() > 0 && prefix.last() == ')' && prefix.subrange(ty.len() + 1int, prefix.len() - 1) == s
                    && prefix.subrange(0, ty.len() as int) == ty,
                None => prefix == ty,
            }
        }),
{
    let mid = scope_part(scope);
    let prefix0 = ty + mid + bang_part(breaking);
    let prefix = ty + mid;
    if breaking {
        assert(prefix0.drop_last() =~= prefix);
    } else {
        assert(prefix0 =~= prefix);
        match scope {
            Some(s) => assert(prefix.last() == ')'),
            None => lemma_type_chars(ty, ty.len() - 1),
        }
    }
    assert(!prefix.contains('!')) by {
        if prefix.contains('!') {
            let k = choose|k: int| 0 <= k < prefix.len() && prefix[k] == '!';
            if k < ty.len() {
                lemma_type_chars(ty, k);
            } else {
                match scope {
                    Some(s) => {
                        if k > ty.len() && k < ty.len() + 1 + s.len() {
                            assert(s[k - ty.len() - 1] == '!');
                        }
                    },
                    None => {},
                }
            }
        }
    }
    lemma_find_char(prefix, '(', 0);
    assert forall|k: int| 0 <= k < ty.len() implies prefix[k] != '(' by {
        lemma_type_chars(ty, k);
    }
    match scope {
        Some(s) => {
            assert(prefix[ty.len() as int] == '(');
            assert(prefix.subrange(ty.len() + 1int, prefix.len() - 1) =~= s);
            assert(prefix.subrange(0, ty.len() as int) =~= ty);
        },
        None => {
            assert(prefix =~= ty);
        },
    }
}

/// A header written from well-formed parts parses back to them: a type of at least
/// one character that a type may hold; a scope, if any, that is not blank and holds no
/// parenthesis or `!`; and a description that does not start with whitespace.
pub proof fn law_written_header_parses_back(
    ty: Seq<char>,
    scope: Option<Seq<char>>,
    breaking: bool,
    description: Seq<char>,
)
    requires
        header_parts_ok(ty, scope, description),
    ensures
        spec_parse_header(header_line(ty, scope, breaking, description)) == Ok::<SpecHeader, ParseErrorKind>(
            SpecHeader { ty, scope, breaking, description },
        ),
{
    let line = header_line(ty, scope, breaking, description);
    let prefix0 = ty + scope_part(scope) + bang_part(breaking);
    let ci = prefix0.len() as int;
    lemma_written_header_scan(ty, scope, breaking, description);
    lemma_written_header_prefix(ty, scope, breaking, description);
    assert(line =~= prefix0 + seq![':', ' '] + description);
    assert(line.subrange(0, ci) =~= prefix0);
    let rest = line.subrange(ci + 1, line.len() as int);
    assert(rest =~= seq![' '] + description);
    assert(skip_fwd(rest, 1, CharClass::Whitespace) == 1);
    assert(skip_fwd(rest, 0, CharClass::Whitespace) == 1);
    assert(trim_start_of(rest, CharClass::Whitespace) =~= description);
}

} // verus!

verus! {

/// A message of one header line written from well-formed parts, none of them holding
/// a line break, parses to that header with no body and no footers; it is breaking
/// exactly when the header says so, with the description as what breaks.
pub proof fn law_written_subject_parses_back(
    ty: Seq<char>,
    scope: Option<Seq<char>>,
    breaking: bool,
    description: Seq<char>,
)
    requires
        header_parts_ok(ty, scope, description),
        scope matches Some(s) ==> forall|k: int| 0 <= k < s.len() ==> s[k] != '\n' && s[k] != '\r',
        forall|k: int| 0 <= k < description.len() ==> description[k] != '\n' && description[k] != '\r',
    ensures
        spec_parse(header_line(ty, scope, breaking, description)) == Ok::<SpecCommitMessage, ParseErrorKind>(
            SpecCommitMessage {
                header: SpecHeader { ty, scope, breaking, description },
                body: None,
                footers: seq![],
                breaking,
                breaking_description: if breaking {
                    Some(description)
                } else {
                    None
                },
            },
        ),
{
    law_written_header_parses_back(ty, scope, breaking, description);
    let line = header_line(ty, scope, breaking, description);
    let mid = scope_part(scope);
    let bang = bang_part(breaking);
    assert(line =~= ty + mid + bang + seq![':', ' '] + description);
    let n = line.len() as int;
    assert forall|k: int| 0 <= k < n implies line[k] != '\n' && line[k] != '\r' by {
        let a = ty.len() as int;
        if k < a {
            assert(line[k] == ty[k]);
            if line[k] == '\n' || line[k] == '\r' {
                assert(is_invalid_type_char(ty[k]));
                assert(has_invalid_type_char(ty));
            }
        } else if k >= n - description.len() {
            assert(line[k] == description[k - (n - description.len())]);
        } else {
            match scope {
                Some(s) => {
                    if a < k < a + 1 + s.len() {
                        assert(line[k] == s[k - a - 1]);
                    }
                },
                None => {},
            }
        }
    }
    assert(skip_fwd(line, 0, CharClass::LineBreak) == 0);
    assert(skip_bwd(line, n, CharClass::LineBreak) == n);
    assert(trim_start_of(line, CharClass::LineBreak) =~= line);
    assert(trim_of(line, CharClass::LineBreak) =~= line);
    lemma_find_char(line, '\n', 0);
    assert(find_char(line, '\n', 0) == n);
    assert(skip_bwd(line, n, CharClass::CarriageReturn) == n);
    assert(trim_end_of(line, CharClass::CarriageReturn) =~= line);
    assert(split_message(line) == (line, Seq::<char>::empty()));
    assert(!all_ws(line)) by {
        assert(!is_ws(line[0])) by {
            assert(line[0] == ty[0]);
            if is_ws(ty[0]) {
                assert(is_invalid_type_char(ty[0]));
                assert(has_invalid_type_char(ty));
            }
        }
    }
    assert(trim_end_of(Seq::<char>::empty(), CharClass::LineBreak) =~= Seq::<char>::empty());
    assert(first_breaking_footer(Seq::<SpecFooter>::empty(), 0) is None);
}

/// A header that parses is its parts written back: the type, the scope in parentheses
/// where there is one, `!` where it breaks, the colon, whitespace that starts with a
/// space, and the description. The type is not empty and holds none of the characters
/// a type cannot hold, a scope is not blank, and the description is not empty and does
/// not start with whitespace.
pub proof fn law_parsed_header_reconstructs(line: Seq<char>, h: SpecHeader)
    requires
        spec_parse_header(line) == Ok::<SpecHeader, ParseErrorKind>(h),
    ensures
        exists|ws: Seq<char>|
            ws.len() > 0 && ws[0] == ' ' && all_ws(ws) && line == h.ty + scope_part(h.scope) + bang_part(
                h.breaking,
            ) + seq![':'] + ws + h.description,
        h.ty.len() > 0,
        !has_invalid_type_char(h.ty),
        h.scope matches Some(sc) ==> !all_ws(sc),
        h.description.len() > 0,
        !is_ws(h.description[0]),
{
    lemma_scan_header(line, 0, 0);
    let ci = match scan_header(line, 0, 0) {
        HeaderScan::Colon(c) => c,
        _ => 0,
    };
    let prefix0 = line.subrange(0, ci);
    let rest = line.subrange(ci + 1, line.len() as int);
    lemma_skip_fwd(rest, 0, CharClass::Whitespace);
    let k = skip_fwd(rest, 0, CharClass::Whitespace);
    assert(' ' as u32 == 0x20);
    assert(is_ws(rest[0]));
    let ws = rest.subrange(0, k);
    let description = rest.subrange(k, rest.len() as int);
    assert(all_ws(ws)) by {
        assert forall|m: int| 0 <= m < ws.len() implies in_class(CharClass::Whitespace, #[trigger] ws[m]) by {
            assert(ws[m] == rest[m]);
        }
    }
    let breaking = prefix0.len() > 0 && prefix0.last() == '!';
    let prefix = if breaking { prefix0.drop_last() } else { prefix0 };
    assert(prefix0 =~= prefix + bang_part(breaking));
    let open = find_char(prefix, '(', 0);
    lemma_find_char(prefix, '(', 0);
    if open < prefix.len() {
        let scope = prefix.subrange(open + 1, prefix.len() - 1);
        assert(prefix =~= prefix.subrange(0, open) + scope_part(Some(scope)));
    } else {
        assert(prefix =~= prefix + scope_part(None));
    }
    assert(line =~= prefix0 + seq![':'] + ws + description);
    assert(line == h.ty + scope_part(h.scope) + bang_part(h.breaking) + seq![':'] + ws + h.description);
}

/// A footer as a valid one reads: a valid token; a value that is not blank and that
/// neither starts nor ends with a line break; after `#`, a value that starts with the
/// `#` and is more than it.
pub open spec fn footer_well_formed(f: SpecFooter) -> bool {
    &&& spec_valid_footer_token(f.token)
    &&& !all_ws(f.value)
    &&& f.value.len() > 0
    &&& !in_class(CharClass::LineBreak, f.value[0])
    &&& !in_class(CharClass::LineBreak, f.value.last())
    &&& f.separator == FooterSeparator::Hash ==> f.value[0] == '#' && f.value != seq!['#']
}

proof fn lemma_breaking_tokens_valid()
    ensures
        spec_valid_footer_token("BREAKING CHANGE"@),
        spec_valid_footer_token("BREAKING-CHANGE"@),
{
    reveal_strlit("BREAKING CHANGE");
    reveal_strlit("BREAKING-CHANGE");
    assert('B' as u32 == 0x42);
    assert('E' as u32 == 0x45);
}

proof fn lemma_footer_well_formed(s: Seq<char>, l: Seq<(int, int)>, idx: int)
    requires
        spans_wf(s, 0, l),
        0 <= idx < l.len(),
        spec_footer_parts(line_text(s, l[idx])) is Some,
    ensures
        ({
            let (token, separator, vs) = spec_footer_parts(line_text(s, l[idx]))->0;
            let k = next_footer_line(s, l, idx + 1);
            let value = trim_of(s.subrange(l[idx].0 + vs, l[k - 1].1), CharClass::LineBreak);
            !(all_ws(value) || (separator == FooterSeparator::Hash && value == seq!['#']))
                ==> footer_well_formed(SpecFooter { token, separator, value })
        }),
{
    let t = line_text(s, l[idx]);
    let (token, separator, vs) = spec_footer_parts(t)->0;
    lemma_next_footer_line(s, l, idx + 1);
    let k = next_footer_line(s, l, idx + 1);
    lemma_footer_parts(t);
    lemma_breaking_tokens_valid();
    lemma_find_char(t, ':', 0);
    lemma_find_pair(t, ' ', '#', 0);
    reveal_strlit("BREAKING CHANGE");
    reveal_strlit("BREAKING-CHANGE");
    let span = s.subrange(l[idx].0, l[idx].1);
    lemma_skip_bwd(span, span.len() as int, CharClass::CarriageReturn);
    if k - 1 > idx {
        lemma_spans_increasing(s, l, idx, k - 1);
        assert(l[idx + 1].0 == l[idx].1 + 1);
        if k - 1 > idx + 1 {
            lemma_spans_increasing(s, l, idx + 1, k - 1);
        }
    }
    let x = s.subrange(l[idx].0 + vs, l[k - 1].1);
    lemma_skip_fwd(x, 0, CharClass::LineBreak);
    let ts = trim_start_of(x, CharClass::LineBreak);
    lemma_skip_bwd(ts, ts.len() as int, CharClass::LineBreak);
    let value = trim_of(x, CharClass::LineBreak);
    if !(all_ws(value) || (separator == FooterSeparator::Hash && value == seq!['#'])) {
        assert(value.len() > 0);
        assert(value[0] == ts[0]);
        assert(value.last() == ts[skip_bwd(ts, ts.len() as int, CharClass::LineBreak) - 1]);
        if separator == FooterSeparator::Hash {
            let h = find_pair(t, ' ', '#', 0);
            assert(vs == h + 1);
            assert(t[h + 1] == span[h + 1]);
            assert(x[0] == s[l[idx].0 + h + 1]);
            assert(skip_fwd(x, 0, CharClass::LineBreak) == 0);
            assert(ts =~= x);
        }
    }
}

proof fn lemma_footers_well_formed(s: Seq<char>, l: Seq<(int, int)>, idx: int)
    requires
        spans_wf(s, 0, l),
        0 <= idx,
    ensures
        footers_from(s, l, idx) matches Some(fs) ==> forall|i: int|
            0 <= i < fs.len() ==> footer_well_formed(#[trigger] fs[i]),
    decreases l.len() - idx,
{
    if idx < l.len() {
        if is_blank_line(s, l, idx) {
            lemma_footers_well_formed(s, l, idx + 1);
        } else if spec_footer_parts(line_text(s, l[idx])) is Some {
            lemma_next_footer_line(s, l, idx + 1);
            let k = next_footer_line(s, l, idx + 1);
            lemma_footers_well_formed(s, l, k);
            lemma_footer_well_formed(s, l, idx);
            match footers_from(s, l, idx) {
                Some(fs) => {
                    let rest = footers_from(s, l, k)->0;
                    assert forall|i: int| 0 <= i < fs.len() implies footer_well_formed(#[trigger] fs[i]) by {
                        if i > 0 {
                            assert(fs[i] == rest[i - 1]);
                        }
                    }
                },
                None => {},
            }
        }
    }
}

/// Every footer of a footer block that parses is well formed: its token is a breaking
/// change token or made of alphanumerics and `-`, with no whitespace around it; its
/// value is not blank and neither starts nor ends with a line break; and a value after
/// ` #` starts with `#` and holds more than it.
pub proof fn law_parsed_footers_are_well_formed(s: Seq<char>)
    ensures
        spec_parse_footers(s) matches Some(fs) ==> forall|i: int|
            0 <= i < fs.len() ==> footer_well_formed(#[trigger] fs[i]),
{
    lemma_line_spans(s, 0);
    lemma_footers_well_formed(s, line_spans(s), 0);
}

} // verus!
