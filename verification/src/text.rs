use vstd::prelude::*;
use vstd::slice::slice_subrange;
use vstd::string::StringExecFns;

verus! {

broadcast use vstd::string::group_string_axioms;

/// `String::push` appends one character.
pub assume_specification[ String::push ](s: &mut String, ch: char)
    ensures
        final(s)@ == old(s)@.push(ch),
;

/// The characters of a string slice, in order.
pub fn chars_of(s: &str) -> (r: Vec<char>)
    ensures
        r@ == s@,
{
    let mut r: Vec<char> = Vec::new();
    for c in it: s.chars()
        invariant
            it.seq() == s@,
            r@ == it.seq().take(it.index()),
    {
        r.push(c);
    }
    r
}

/// Builds a string from a slice of characters.
pub fn string_of(cs: &[char]) -> (r: String)
    ensures
        r@ == cs@,
{
    let mut r = String::new();
    let mut i: usize = 0;
    while i < cs.len()
        invariant
            i <= cs.len(),
            r@ == cs@.take(i as int),
        decreases cs.len() - i,
    {
        r.push(cs[i]);
        i += 1;
        assert(r@ =~= cs@.take(i as int));
    }
    assert(cs@.take(i as int) =~= cs@);
    r
}

} // verus!

verus! {

/// The characters that carry the Unicode `White_Space` property.
pub open spec fn is_ws(c: char) -> bool {
    let u = c as u32;
    ||| 0x09 <= u <= 0x0D
    ||| u == 0x20
    ||| u == 0x85
    ||| u == 0xA0
    ||| u == 0x1680
    ||| 0x2000 <= u <= 0x200A
    ||| u == 0x2028
    ||| u == 0x2029
    ||| u == 0x202F
    ||| u == 0x205F
    ||| u == 0x3000
}

/// Whether `c` has the Unicode `White_Space` property.
pub fn is_whitespace(c: char) -> (r: bool)
    ensures
        r == is_ws(c),
{
    let u = c as u32;
    (0x09 <= u && u <= 0x0D) || u == 0x20 || u == 0x85 || u == 0xA0 || u == 0x1680 || (0x2000
        <= u && u <= 0x200A) || u == 0x2028 || u == 0x2029 || u == 0x202F || u == 0x205F || u
        == 0x3000
}

/// Classes of characters that the trimming functions strip.
#[derive(Clone, Copy, PartialEq, Eq, Debug, Structural)]
pub enum CharClass {
    Whitespace,
    LineBreak,
    CarriageReturn,
}

pub open spec fn in_class(cls: CharClass, c: char) -> bool {
    match cls {
        CharClass::Whitespace => is_ws(c),
        CharClass::LineBreak => c == '\n' || c == '\r',
        CharClass::CarriageReturn => c == '\r',
    }
}

pub fn char_in_class(cls: CharClass, c: char) -> (r: bool)
    ensures
        r == in_class(cls, c),
{
    match cls {
        CharClass::Whitespace => is_whitespace(c),
        CharClass::LineBreak => c == '\n' || c == '\r',
        CharClass::CarriageReturn => c == '\r',
    }
}

/// The first index at or after `i` whose character is not in `cls` (or the length).
pub open spec fn skip_fwd(s: Seq<char>, i: int, cls: CharClass) -> int
    decreases s.len() - i,
{
    if 0 <= i < s.len() && in_class(cls, s[i]) {
        skip_fwd(s, i + 1, cls)
    } else {
        i
    }
}

/// The smallest index `k <= j` such that `s[k..j]` lies in `cls`.
pub open spec fn skip_bwd(s: Seq<char>, j: int, cls: CharClass) -> int
    decreases j,
{
    if 0 < j <= s.len() && in_class(cls, s[j - 1]) {
        skip_bwd(s, j - 1, cls)
    } else {
        j
    }
}

pub open spec fn trim_start_of(s: Seq<char>, cls: CharClass) -> Seq<char> {
    s.subrange(skip_fwd(s, 0, cls), s.len() as int)
}

pub open spec fn trim_end_of(s: Seq<char>, cls: CharClass) -> Seq<char> {
    s.subrange(0, skip_bwd(s, s.len() as int, cls))
}

/// Both ends stripped of the characters of `cls`.
pub open spec fn trim_of(s: Seq<char>, cls: CharClass) -> Seq<char> {
    trim_end_of(trim_start_of(s, cls), cls)
}

pub open spec fn all_in(s: Seq<char>, cls: CharClass) -> bool {
    forall|k: int| 0 <= k < s.len() ==> in_class(cls, #[trigger] s[k])
}

/// Every character is whitespace (the string trims to nothing).
pub open spec fn all_ws(s: Seq<char>) -> bool {
    all_in(s, CharClass::Whitespace)
}

/// The first index at or after `i` holding `c` (or the length).
pub open spec fn find_char(s: Seq<char>, c: char, i: int) -> int
    decreases s.len() - i,
{
    if 0 <= i < s.len() && s[i] != c {
        find_char(s, c, i + 1)
    } else {
        i
    }
}

pub proof fn lemma_skip_fwd(s: Seq<char>, i: int, cls: CharClass)
    requires
        0 <= i <= s.len(),
    ensures
        i <= skip_fwd(s, i, cls) <= s.len(),
        forall|k: int| i <= k < skip_fwd(s, i, cls) ==> in_class(cls, #[trigger] s[k]),
        skip_fwd(s, i, cls) < s.len() ==> !in_class(cls, s[skip_fwd(s, i, cls)]),
    decreases s.len() - i,
{
    if i < s.len() && in_class(cls, s[i]) {
        lemma_skip_fwd(s, i + 1, cls);
    }
}

pub proof fn lemma_skip_bwd(s: Seq<char>, j: int, cls: CharClass)
    requires
        0 <= j <= s.len(),
    ensures
        0 <= skip_bwd(s, j, cls) <= j,
        forall|k: int| skip_bwd(s, j, cls) <= k < j ==> in_class(cls, #[trigger] s[k]),
        skip_bwd(s, j, cls) > 0 ==> !in_class(cls, s[skip_bwd(s, j, cls) - 1]),
    decreases j,
{
    if j > 0 && in_class(cls, s[j - 1]) {
        lemma_skip_bwd(s, j - 1, cls);
    }
}

pub proof fn lemma_find_char(s: Seq<char>, c: char, i: int)
    requires
        0 <= i <= s.len(),
    ensures
        i <= find_char(s, c, i) <= s.len(),
        forall|k: int| i <= k < find_char(s, c, i) ==> #[trigger] s[k] != c,
        find_char(s, c, i) < s.len() ==> s[find_char(s, c, i)] == c,
    decreases s.len() - i,
{
    if i < s.len() && s[i] != c {
        lemma_find_char(s, c, i + 1);
    }
}

/// A string trims to nothing exactly when all of it lies in the class.
pub proof fn lemma_trim_empty(s: Seq<char>, cls: CharClass)
    ensures
        trim_of(s, cls).len() == 0 <==> all_in(s, cls),
        trim_start_of(s, cls).len() == 0 <==> all_in(s, cls),
{
    lemma_skip_fwd(s, 0, cls);
    let t = trim_start_of(s, cls);
    lemma_skip_bwd(t, t.len() as int, cls);
    if t.len() > 0 {
        assert(!in_class(cls, t[0]));
        assert(skip_bwd(t, t.len() as int, cls) > 0);
    }
    if all_in(s, cls) {
        if skip_fwd(s, 0, cls) < s.len() {
            assert(in_class(cls, s[skip_fwd(s, 0, cls)]));
        }
    }
}

pub fn skip_forward(s: &[char], i: usize, cls: CharClass) -> (r: usize)
    requires
        i <= s@.len(),
    ensures
        r == skip_fwd(s@, i as int, cls),
        i <= r <= s@.len(),
{
    proof {
        lemma_skip_fwd(s@, i as int, cls);
    }
    let mut k = i;
    while k < s.len() && char_in_class(cls, s[k])
        invariant
            i <= k <= s@.len(),
            skip_fwd(s@, k as int, cls) == skip_fwd(s@, i as int, cls),
        decreases s@.len() - k,
    {
        k += 1;
    }
    k
}

pub fn skip_backward(s: &[char], j: usize, cls: CharClass) -> (r: usize)
    requires
        j <= s@.len(),
    ensures
        r == skip_bwd(s@, j as int, cls),
        r <= j,
{
    proof {
        lemma_skip_bwd(s@, j as int, cls);
    }
    let mut k = j;
    while k > 0 && char_in_class(cls, s[k - 1])
        invariant
            k <= j <= s@.len(),
            skip_bwd(s@, k as int, cls) == skip_bwd(s@, j as int, cls),
        decreases k,
    {
        k -= 1;
    }
    k
}

pub fn find_char_from(s: &[char], c: char, i: usize) -> (r: usize)
    requires
        i <= s@.len(),
    ensures
        r == find_char(s@, c, i as int),
        i <= r <= s@.len(),
{
    proof {
        lemma_find_char(s@, c, i as int);
    }
    let mut k = i;
    while k < s.len() && s[k] != c
        invariant
            i <= k <= s@.len(),
            find_char(s@, c, k as int) == find_char(s@, c, i as int),
        decreases s@.len() - k,
    {
        k += 1;
    }
    k
}

/// Whether every character of `s` lies in `cls`.
pub fn all_in_class(s: &[char], cls: CharClass) -> (r: bool)
    ensures
        r == all_in(s@, cls),
{
    let mut k: usize = 0;
    while k < s.len()
        invariant
            k <= s@.len(),
            forall|m: int| 0 <= m < k ==> in_class(cls, #[trigger] s@[m]),
        decreases s@.len() - k,
    {
        if !char_in_class(cls, s[k]) {
            return false;
        }
        k += 1;
    }
    true
}

} // verus!

verus! {

/// Whether two character slices are equal.
pub fn slice_eq(a: &[char], b: &[char]) -> (r: bool)
    ensures
        r == (a@ == b@),
{
    if a.len() != b.len() {
        return false;
    }
    let mut k: usize = 0;
    while k < a.len()
        invariant
            k <= a@.len() == b@.len(),
            forall|m: int| 0 <= m < k ==> a@[m] == b@[m],
        decreases a@.len() - k,
    {
        if a[k] != b[k] {
            return false;
        }
        k += 1;
    }
    assert(a@ =~= b@);
    true
}

} // verus!

verus! {

/// What `char::is_alphanumeric` answers for a character.
pub uninterp spec fn char_is_alphanumeric(c: char) -> bool;

/// Calls `char::is_alphanumeric`, which is true of characters that are alphabetic or
/// numeric in the Unicode sense; its result is named, and described for ASCII only:
/// among ASCII characters, the letters and the decimal digits are the alphabetic and
/// numeric ones.
#[verifier::external_body]
pub(crate) fn is_alphanumeric(c: char) -> (r: bool)
    ensures
        r == char_is_alphanumeric(c),
        (c as u32) < 0x80 ==> (r <==> ('a' <= c <= 'z' || 'A' <= c <= 'Z' || '0' <= c <= '9')),
{
    c.is_alphanumeric()
}

} // verus!

verus! {

/// The decimal digit for `d < 10`.
pub open spec fn digit_char(d: nat) -> char {
    if d == 0 { '0' }
    else if d == 1 { '1' }
    else if d == 2 { '2' }
    else if d == 3 { '3' }
    else if d == 4 { '4' }
    else if d == 5 { '5' }
    else if d == 6 { '6' }
    else if d == 7 { '7' }
    else if d == 8 { '8' }
    else { '9' }
}

/// The decimal notation of `n`, without leading zeros.
pub open spec fn decimal(n: nat) -> Seq<char>
    decreases n,
{
    if n < 10 {
        seq![digit_char(n)]
    } else {
        decimal(n / 10).push(digit_char(n % 10))
    }
}

fn digit_of(d: usize) -> (c: char)
    requires
        d < 10,
    ensures
        c == digit_char(d as nat),
{
    if d == 0 { '0' }
    else if d == 1 { '1' }
    else if d == 2 { '2' }
    else if d == 3 { '3' }
    else if d == 4 { '4' }
    else if d == 5 { '5' }
    else if d == 6 { '6' }
    else if d == 7 { '7' }
    else if d == 8 { '8' }
    else { '9' }
}

/// Appends the decimal notation of `n`.
pub fn push_decimal(s: &mut String, n: usize)
    ensures
        final(s)@ == old(s)@ + decimal(n as nat),
    decreases n,
{
    if n >= 10 {
        push_decimal(s, n / 10);
    }
    s.push(digit_of(n % 10));
    proof {
        if n >= 10 {
            assert(old(s)@ + decimal(n as nat) =~= old(s)@ + decimal((n / 10) as nat) + seq![
                digit_char((n % 10) as nat),
            ]);
        } else {
            assert(old(s)@ + decimal(n as nat) =~= old(s)@.push(digit_char((n % 10) as nat)));
        }
    }
}

/// The items joined with `sep` between them.
pub open spec fn join(items: Seq<Seq<char>>, sep: Seq<char>) -> Seq<char>
    decreases items.len(),
{
    if items.len() == 0 {
        seq![]
    } else if items.len() == 1 {
        items[0]
    } else {
        join(items.drop_last(), sep) + sep + items.last()
    }
}

/// Appends `items` joined with `sep`.
pub fn push_joined(out: &mut String, items: &Vec<String>, sep: &str)
    ensures
        final(out)@ == old(out)@ + join(items@.map_values(|s: String| s@), sep@),
{
    let ghost views = items@.map_values(|s: String| s@);
    let ghost start = out@;
    let mut i: usize = 0;
    while i < items.len()
        invariant
            i <= items@.len(),
            views == items@.map_values(|s: String| s@),
            out@ == start + join(views.take(i as int), sep@),
        decreases items@.len() - i,
    {
        if i != 0 {
            out.append(sep);
        }
        out.append(items[i].as_str());
        proof {
            assert(views.take(i + 1).drop_last() =~= views.take(i as int));
            assert(views.take(i + 1).last() == items@[i as int]@);
            if i == 0 {
                assert(views.take(1).len() == 1);
                assert(start + items@[0]@ =~= start + join(views.take(1), sep@));
            } else {
                assert(start + join(views.take(i as int), sep@) + sep@ + items@[i as int]@ =~= start
                    + join(views.take(i + 1), sep@));
            }
        }
        i += 1;
    }
    assert(views.take(items@.len() as int) =~= views);
}

/// Whether `needle` occurs in `s` starting at `i`.
pub open spec fn occurs_at(s: Seq<char>, needle: Seq<char>, i: int) -> bool {
    0 <= i && i + needle.len() <= s.len() && s.subrange(i, i + needle.len()) == needle
}

/// Whether `needle` occurs somewhere in `s` (the empty string occurs everywhere).
pub open spec fn contains_seq(s: Seq<char>, needle: Seq<char>) -> bool {
    exists|i: int| occurs_at(s, needle, i)
}

/// Whether `needle` occurs in `s`.
pub fn contains_chars(s: &[char], needle: &[char]) -> (r: bool)
    ensures
        r == contains_seq(s@, needle@),
{
    if needle.len() > s.len() {
        proof {
            assert forall|i: int| !occurs_at(s@, needle@, i) by {}
        }
        return false;
    }
    let last = s.len() - needle.len();
    let mut i: usize = 0;
    loop
        invariant
            needle@.len() <= s@.len(),
            s@.len() <= usize::MAX,
            last == s@.len() - needle@.len(),
            i <= last,
            forall|k: int| 0 <= k < i ==> !occurs_at(s@, needle@, k),
        ensures
            forall|k: int| 0 <= k <= last ==> !occurs_at(s@, needle@, k),
        decreases last - i,
    {
        if slice_eq(slice_subrange(s, i, i + needle.len()), needle) {
            assert(occurs_at(s@, needle@, i as int));
            return true;
        }
        if i == last {
            break;
        }
        i += 1;
    }
    proof {
        assert forall|k: int| !occurs_at(s@, needle@, k) by {
            if 0 <= k && k + needle@.len() <= s@.len() {
                assert(k <= last);
            }
        }
    }
    false
}

pub open spec fn ascii_lower(c: char) -> char {
    if 'A' <= c <= 'Z' {
        ((c as u32) + 32) as char
    } else {
        c
    }
}

/// Equality up to the case of ASCII letters.
pub open spec fn eq_ignore_ascii_case(a: Seq<char>, b: Seq<char>) -> bool {
    a.len() == b.len() && forall|k: int| 0 <= k < a.len() ==> ascii_lower(#[trigger] a[k]) == ascii_lower(b[k])
}

fn lower_ascii(c: char) -> (r: char)
    ensures
        r == ascii_lower(c),
{
    if 'A' <= c && c <= 'Z' {
        let b = (c as u32) as u8;
        ((b + 32) as char)
    } else {
        c
    }
}

pub fn chars_eq_ignore_ascii_case(a: &[char], b: &[char]) -> (r: bool)
    ensures
        r == eq_ignore_ascii_case(a@, b@),
{
    if a.len() != b.len() {
        return false;
    }
    let mut k: usize = 0;
    while k < a.len()
        invariant
            k <= a@.len() == b@.len(),
            forall|m: int| 0 <= m < k ==> ascii_lower(#[trigger] a@[m]) == ascii_lower(b@[m]),
        decreases a@.len() - k,
    {
        if lower_ascii(a[k]) != lower_ascii(b[k]) {
            return false;
        }
        k += 1;
    }
    true
}

} // verus!

verus! {

/// Whether two strings are equal.
pub fn strings_equal(a: &str, b: &str) -> (r: bool)
    ensures
        r == (a@ == b@),
{
    let x = chars_of(a);
    let y = chars_of(b);
    slice_eq(x.as_slice(), y.as_slice())
}

/// Whether `s` begins with `p`.
pub fn has_prefix(s: &[char], p: &str) -> (r: bool)
    ensures
        r == p@.is_prefix_of(s@),
{
    let pc = chars_of(p);
    if pc.len() > s.len() {
        return false;
    }
    let head = slice_subrange(s, 0, pc.len());
    slice_eq(head, pc.as_slice())
}

pub open spec fn is_suffix(p: Seq<char>, s: Seq<char>) -> bool {
    p.len() <= s.len() && s.subrange(s.len() - p.len(), s.len() as int) == p
}

/// Whether `s` ends with `p`.
pub fn has_suffix(s: &[char], p: &str) -> (r: bool)
    ensures
        r == is_suffix(p@, s@),
{
    let pc = chars_of(p);
    if pc.len() > s.len() {
        return false;
    }
    let tail = slice_subrange(s, s.len() - pc.len(), s.len());
    slice_eq(tail, pc.as_slice())
}

/// Whether `p` occurs in `s`.
pub fn has_infix(s: &[char], p: &str) -> (r: bool)
    ensures
        r == contains_seq(s@, p@),
{
    let pc = chars_of(p);
    contains_chars(s, pc.as_slice())
}

/// The lines of `s` as `str::lines` gives them: split at line feeds, each line that a
/// line feed ends losing one carriage return before it.
pub open spec fn std_lines_from(s: Seq<char>, p: int) -> Seq<Seq<char>>
    decreases s.len() + 1 - p,
{
    if p < 0 || p >= s.len() {
        seq![]
    } else {
        let e = find_char(s, '\n', p);
        proof {
            lemma_find_char(s, '\n', p);
        }
        let line = if e < s.len() && e > p && s[e - 1] == '\r' {
            s.subrange(p, e - 1)
        } else {
            s.subrange(p, e)
        };
        seq![line] + std_lines_from(s, e + 1)
    }
}

pub open spec fn std_lines(s: Seq<char>) -> Seq<Seq<char>> {
    std_lines_from(s, 0)
}

/// The lines of `s`, as `str::lines` gives them.
pub fn lines_of(s: &str) -> (r: Vec<String>)
    ensures
        r@.map_values(|x: String| x@) == std_lines(s@),
{
    let cs = chars_of(s);
    let c = cs.as_slice();
    let mut r: Vec<String> = Vec::new();
    let mut p: usize = 0;
    while p < c.len()
        invariant
            p <= c@.len(),
            c@ == s@,
            r@.map_values(|x: String| x@) + std_lines_from(c@, p as int) == std_lines(c@),
        decreases c@.len() - p,
    {
        let e = find_char_from(c, '\n', p);
        let end = if e < c.len() && e > p && c[e - 1] == '\r' { e - 1 } else { e };
        let line = string_of(slice_subrange(c, p, end));
        let ghost before = r@.map_values(|x: String| x@);
        r.push(line);
        assert(r@.map_values(|x: String| x@) =~= before.push(line@));
        assert(std_lines_from(c@, p as int) =~= seq![line@] + std_lines_from(c@, e + 1));
        assert(before.push(line@) + std_lines_from(c@, e + 1) =~= before + (seq![line@] + std_lines_from(c@, e + 1)));
        if e < c.len() {
            p = e + 1;
        } else {
            assert(std_lines_from(c@, e + 1) =~= std_lines_from(c@, e as int));
            p = e;
        }
    }
    assert(std_lines_from(c@, p as int) =~= seq![]);
    assert(r@.map_values(|x: String| x@) + seq![] =~= r@.map_values(|x: String| x@));
    r
}

/// The maximal runs of non-whitespace characters from index `p`.
pub open spec fn fields_from(s: Seq<char>, p: int) -> Seq<Seq<char>>
    decreases s.len() + 1 - p,
{
    if p < 0 || p > s.len() {
        seq![]
    } else {
        let j = skip_fwd(s, p, CharClass::Whitespace);
        proof {
            lemma_skip_fwd(s, p, CharClass::Whitespace);
        }
        if j >= s.len() {
            seq![]
        } else {
            let e = next_ws(s, j);
            proof {
                lemma_next_ws(s, j);
            }
            seq![s.subrange(j, e)] + fields_from(s, e)
        }
    }
}

/// The whitespace-separated fields of `s`, as `str::split_whitespace` gives them.
pub open spec fn ws_fields(s: Seq<char>) -> Seq<Seq<char>> {
    fields_from(s, 0)
}

/// The first whitespace index at or after `i` (or the length).
pub open spec fn next_ws(s: Seq<char>, i: int) -> int
    decreases s.len() - i,
{
    if 0 <= i < s.len() && !is_ws(s[i]) {
        next_ws(s, i + 1)
    } else {
        i
    }
}

pub proof fn lemma_next_ws(s: Seq<char>, i: int)
    requires
        0 <= i < s.len(),
        !is_ws(s[i]),
    ensures
        i < next_ws(s, i) <= s.len(),
    decreases s.len() - i,
{
    if i + 1 < s.len() && !is_ws(s[i + 1]) {
        lemma_next_ws(s, i + 1);
    } else {
        assert(next_ws(s, i + 1) == i + 1);
    }
}

/// The bounds of the whitespace-separated fields of `s`.
pub fn field_bounds(s: &[char]) -> (r: Vec<(usize, usize)>)
    ensures
        r@.map_values(|b: (usize, usize)| s@.subrange(b.0 as int, b.1 as int)) == ws_fields(s@),
        forall|k: int| 0 <= k < r@.len() ==> (#[trigger] r@[k]).0 <= r@[k].1 <= s@.len(),
{
    let mut r: Vec<(usize, usize)> = Vec::new();
    let mut p: usize = 0;
    loop
        invariant
            p <= s@.len(),
            forall|k: int| 0 <= k < r@.len() ==> (#[trigger] r@[k]).0 <= r@[k].1 <= s@.len(),
            r@.map_values(|b: (usize, usize)| s@.subrange(b.0 as int, b.1 as int)) + fields_from(s@, p as int) == ws_fields(s@),
        decreases s@.len() + 1 - p,
    {
        let j = skip_forward(s, p, CharClass::Whitespace);
        if j >= s.len() {
            assert(fields_from(s@, p as int) =~= seq![]);
            assert(r@.map_values(|b: (usize, usize)| s@.subrange(b.0 as int, b.1 as int)) + seq![] =~= r@.map_values(|b: (usize, usize)| s@.subrange(b.0 as int, b.1 as int)));
            return r;
        }
        proof {
            lemma_skip_fwd(s@, p as int, CharClass::Whitespace);
            lemma_next_ws(s@, j as int);
        }
        let mut e = j;
        while e < s.len() && !is_whitespace(s[e])
            invariant
                j <= e <= s@.len(),
                next_ws(s@, e as int) == next_ws(s@, j as int),
            decreases s@.len() - e,
        {
            e += 1;
        }
        let ghost before = r@.map_values(|b: (usize, usize)| s@.subrange(b.0 as int, b.1 as int));
        r.push((j, e));
        assert(r@.map_values(|b: (usize, usize)| s@.subrange(b.0 as int, b.1 as int)) =~= before.push(s@.subrange(j as int, e as int)));
        assert(fields_from(s@, p as int) =~= seq![s@.subrange(j as int, e as int)] + fields_from(s@, e as int));
        assert(before.push(s@.subrange(j as int, e as int)) + fields_from(s@, e as int) =~= before + fields_from(s@, p as int));
        p = e;
    }
}

} // verus!

verus! {

/// `s` without surrounding whitespace.
pub fn trimmed(s: &str) -> (r: String)
    ensures
        r@ == trim_of(s@, CharClass::Whitespace),
{
    let cs = chars_of(s);
    let c = cs.as_slice();
    let a = skip_forward(c, 0, CharClass::Whitespace);
    let rest = slice_subrange(c, a, c.len());
    let b = skip_backward(rest, rest.len(), CharClass::Whitespace);
    string_of(slice_subrange(rest, 0, b))
}

/// Whether `s` is empty or all whitespace.
pub fn is_blank(s: &str) -> (r: bool)
    ensures
        r == all_ws(s@),
{
    let cs = chars_of(s);
    all_in_class(cs.as_slice(), CharClass::Whitespace)
}

} // verus!

verus! {

/// The first position at or after `i` where `needle` occurs in `s`, or -1 when there is none.
pub open spec fn find_from(s: Seq<char>, needle: Seq<char>, i: int) -> int
    decreases s.len() + 1 - i,
{
    if i < 0 || i + needle.len() > s.len() {
        -1
    } else if occurs_at(s, needle, i) {
        i
    } else {
        find_from(s, needle, i + 1)
    }
}

pub proof fn lemma_find_from(s: Seq<char>, needle: Seq<char>, i: int)
    requires
        0 <= i,
    ensures
        find_from(s, needle, i) == -1 || (i <= find_from(s, needle, i) && occurs_at(
            s,
            needle,
            find_from(s, needle, i),
        )),
        find_from(s, needle, i) == -1 ==> forall|k: int| i <= k ==> !occurs_at(s, needle, k),
        forall|k: int| i <= k < find_from(s, needle, i) ==> !occurs_at(s, needle, k),
    decreases s.len() + 1 - i,
{
    if i + needle.len() > s.len() {
    } else if occurs_at(s, needle, i) {
    } else {
        lemma_find_from(s, needle, i + 1);
    }
}

/// The first position at or after `i` where `needle` occurs in `s`.
pub fn find_chars_from(s: &[char], needle: &[char], i: usize) -> (r: Option<usize>)
    ensures
        match r {
            Some(k) => k == find_from(s@, needle@, i as int),
            None => find_from(s@, needle@, i as int) == -1,
        },
{
    if i > s.len() || needle.len() > s.len() - i {
        return None;
    }
    let last = s.len() - needle.len();
    let mut k: usize = i;
    loop
        invariant
            i <= k <= last,
            last + needle@.len() == s@.len(),
            s@.len() <= usize::MAX,
            find_from(s@, needle@, k as int) == find_from(s@, needle@, i as int),
        decreases last - k,
    {
        if slice_eq(slice_subrange(s, k, k + needle.len()), needle) {
            return Some(k);
        }
        if k == last {
            assert(find_from(s@, needle@, k + 1) == -1);
            return None;
        }
        k += 1;
    }
}

/// Appends a slice of characters.
pub fn push_chars(out: &mut String, cs: &[char])
    ensures
        final(out)@ == old(out)@ + cs@,
{
    let ghost start = out@;
    let mut i: usize = 0;
    while i < cs.len()
        invariant
            i <= cs@.len(),
            out@ == start + cs@.take(i as int),
        decreases cs@.len() - i,
    {
        out.push(cs[i]);
        i += 1;
        assert(out@ =~= start + cs@.take(i as int));
    }
    assert(cs@.take(i as int) =~= cs@);
}

} // verus!

verus! {

/// Appends the decimal notation of `n`.
pub fn push_decimal_u64(s: &mut String, n: u64)
    ensures
        final(s)@ == old(s)@ + decimal(n as nat),
    decreases n,
{
    if n >= 10 {
        push_decimal_u64(s, n / 10);
    }
    s.push(digit_of((n % 10) as usize));
    proof {
        if n >= 10 {
            assert(old(s)@ + decimal(n as nat) =~= old(s)@ + decimal((n / 10) as nat) + seq![
                digit_char((n % 10) as nat),
            ]);
        } else {
            assert(old(s)@ + decimal(n as nat) =~= old(s)@.push(digit_char((n % 10) as nat)));
        }
    }
}

} // verus!
