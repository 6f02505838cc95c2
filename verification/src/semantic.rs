use vstd::prelude::*;

use crate::syntax::{parse_rust, rust_syntax, SyntaxNode};
use crate::text::{chars_of, has_prefix, slice_eq, strings_equal, trim_of, trimmed, CharClass};
use vstd::string::{StringExecFns, StringSliceAdditionalSpecFns};
use vstd::utf8::{
    decode_utf8, encode_utf8, is_char_boundary, is_char_boundary_iff_not_is_continuation_byte,
    is_char_boundary_start_end_of_seq, valid_utf8, valid_utf8_split,
};

verus! {

/// Symbol-level changes found in the staged files.
#[derive(Clone, Debug, PartialEq, Eq)]
pub struct SemanticAnalysis {
    pub files: Vec<FileSemantic>,
    pub unsupported: Vec<String>,
}

#[derive(Clone, Debug, PartialEq, Eq)]
pub struct FileSemantic {
    pub path: String,
    pub language: Language,
    pub symbols: Vec<SymbolChange>,
}

#[derive(Clone, Copy, Debug, PartialEq, Eq, Structural)]
pub enum Language {
    Rust,
}

#[derive(Clone, Debug, PartialEq, Eq)]
pub struct SymbolChange {
    pub kind: SymbolKind,
    pub name: String,
    pub visibility: Visibility,
    pub change: ChangeKind,
}

#[derive(Clone, Copy, Debug, Hash, PartialEq, Eq, Structural)]
pub enum SymbolKind {
    Function,
    Struct,
    Enum,
    Union,
    Trait,
    Impl,
    Mod,
    Const,
    Static,
    TypeAlias,
    Macro,
}

#[derive(Clone, Copy, Debug, PartialEq, Eq, Structural)]
pub enum Visibility {
    Public,
    PubCrate,
    Private,
}

#[derive(Clone, Copy, Debug, PartialEq, Eq, Structural)]
pub enum ChangeKind {
    Added,
    Removed,
    BodyModified,
    SignatureChanged,
}

/// Whether `path` ends with `.rs`.
pub open spec fn is_rust_path(path: Seq<char>) -> bool {
    path.len() >= 3 && path.subrange(path.len() - 3, path.len() as int) == seq!['.', 'r', 's']
}

/// The language of a source file, known by its extension.
pub fn detect_language(path: &str) -> (r: Option<Language>)
    ensures
        r == (if is_rust_path(path@) { Some(Language::Rust) } else { None::<Language> }),
{
    let cs = chars_of(path);
    let n = cs.len();
    if n >= 3 && cs[n - 3] == '.' && cs[n - 2] == 'r' && cs[n - 1] == 's' {
        assert(cs@.subrange(n - 3, n as int) =~= seq!['.', 'r', 's']);
        Some(Language::Rust)
    } else {
        proof {
            if n >= 3 {
                assert(cs@.subrange(n - 3, n as int)[0] == cs@[n - 3]);
                assert(cs@.subrange(n - 3, n as int)[1] == cs@[n - 2]);
                assert(cs@.subrange(n - 3, n as int)[2] == cs@[n - 1]);
            }
        }
        None
    }
}

/// A top-level item of a source file, with the text that identifies its changes.
#[derive(Debug)]
pub struct Symbol {
    pub kind: SymbolKind,
    pub name: String,
    pub visibility: Visibility,
    pub signature_text: String,
    pub full_text: String,
}

/// A symbol is identified by its kind and name.
pub open spec fn same_key(a: SpecSymbol, b: SpecSymbol) -> bool {
    a.kind == b.kind && a.name == b.name
}

/// The index of the last symbol of `old` with the key of `s`, below `end`.
pub open spec fn last_with_key(old: Seq<SpecSymbol>, s: SpecSymbol, end: int) -> Option<int>
    decreases end,
{
    if end <= 0 || end > old.len() {
        None
    } else if same_key(old[end - 1], s) {
        Some(end - 1)
    } else {
        last_with_key(old, s, end - 1)
    }
}

pub struct SpecSymbolChange {
    pub kind: SymbolKind,
    pub name: Seq<char>,
    pub visibility: Visibility,
    pub change: ChangeKind,
}

impl View for SymbolChange {
    type V = SpecSymbolChange;

    open spec fn view(&self) -> SpecSymbolChange {
        SpecSymbolChange {
            kind: self.kind,
            name: self.name@,
            visibility: self.visibility,
            change: self.change,
        }
    }
}

/// What a symbol of the new version reports: added when the old version lacks its
/// key; else compared with the last old symbol of that key, nothing when the text is
/// the same, a changed signature when a function's header differs, else a changed body.
pub open spec fn new_symbol_change(old: Seq<SpecSymbol>, s: SpecSymbol) -> Option<SpecSymbolChange> {
    match last_with_key(old, s, old.len() as int) {
        None => Some(SpecSymbolChange { kind: s.kind, name: s.name, visibility: s.visibility, change: ChangeKind::Added }),
        Some(i) => if s.full_text == old[i].full_text {
            None
        } else {
            Some(SpecSymbolChange {
                kind: s.kind,
                name: s.name,
                visibility: s.visibility,
                change: if s.kind == SymbolKind::Function && s.signature_text != old[i].signature_text {
                    ChangeKind::SignatureChanged
                } else {
                    ChangeKind::BodyModified
                },
            })
        },
    }
}

pub open spec fn opt_seq<T>(o: Option<T>) -> Seq<T> {
    match o {
        Some(x) => seq![x],
        None => seq![],
    }
}

/// The changes that the new symbols report, in order.
pub open spec fn new_changes(old: Seq<SpecSymbol>, new: Seq<SpecSymbol>, n: int) -> Seq<SpecSymbolChange>
    decreases n,
{
    if n <= 0 || n > new.len() {
        seq![]
    } else {
        new_changes(old, new, n - 1) + opt_seq(new_symbol_change(old, new[n - 1]))
    }
}

/// Some symbol of `syms` has the key of `s`.
pub open spec fn has_key(syms: Seq<SpecSymbol>, s: SpecSymbol) -> bool {
    exists|j: int| 0 <= j < syms.len() && same_key(#[trigger] syms[j], s)
}

/// The old symbols whose key the new version lacks, reported as removed, in order.
pub open spec fn removed_changes(old: Seq<SpecSymbol>, new: Seq<SpecSymbol>, n: int) -> Seq<SpecSymbolChange>
    decreases n,
{
    if n <= 0 || n > old.len() {
        seq![]
    } else {
        removed_changes(old, new, n - 1) + if has_key(new, old[n - 1]) {
            seq![]
        } else {
            seq![SpecSymbolChange { kind: old[n - 1].kind, name: old[n - 1].name, visibility: old[n - 1].visibility, change: ChangeKind::Removed }]
        }
    }
}

/// The symbol-level difference between two versions of a file.
pub open spec fn spec_diff_symbols(old: Seq<SpecSymbol>, new: Seq<SpecSymbol>) -> Seq<SpecSymbolChange> {
    new_changes(old, new, new.len() as int) + removed_changes(old, new, old.len() as int)
}

pub open spec fn changes_view(v: Seq<SymbolChange>) -> Seq<SpecSymbolChange> {
    v.map_values(|c: SymbolChange| c@)
}

fn key_matches(a: &Symbol, b: &Symbol) -> (r: bool)
    ensures
        r == same_key(a@, b@),
{
    if a.kind != b.kind {
        return false;
    }
    let x = chars_of(a.name.as_str());
    let y = chars_of(b.name.as_str());
    slice_eq(x.as_slice(), y.as_slice())
}

fn string_eq(a: &String, b: &String) -> (r: bool)
    ensures
        r == (a@ == b@),
{
    let x = chars_of(a.as_str());
    let y = chars_of(b.as_str());
    slice_eq(x.as_slice(), y.as_slice())
}

/// The index of the last symbol of `old` with the key of `s`.
fn find_last_with_key(old: &Vec<Symbol>, s: &Symbol) -> (r: Option<usize>)
    ensures
        match (r, last_with_key(symbols_view(old@), s@, old@.len() as int)) {
            (Some(i), Some(j)) => i == j && i < old@.len(),
            (None, None) => true,
            _ => false,
        },
{
    let mut end = old.len();
    while end > 0
        invariant
            end <= old@.len(),
            last_with_key(symbols_view(old@), s@, end as int) == last_with_key(
                symbols_view(old@),
                s@,
                old@.len() as int,
            ),
        decreases end,
    {
        if key_matches(&old[end - 1], s) {
            return Some(end - 1);
        }
        end -= 1;
    }
    None
}

fn vec_has_key(syms: &Vec<Symbol>, s: &Symbol) -> (r: bool)
    ensures
        r == has_key(symbols_view(syms@), s@),
{
    let mut j: usize = 0;
    while j < syms.len()
        invariant
            j <= syms@.len(),
            forall|m: int| 0 <= m < j ==> !same_key(#[trigger] symbols_view(syms@)[m], s@),
        decreases syms@.len() - j,
    {
        if key_matches(&syms[j], s) {
            assert(same_key(symbols_view(syms@)[j as int], s@));
            return true;
        }
        j += 1;
    }
    false
}

/// Compares the symbols of two versions of a file: changed or added symbols of the
/// new version first, in its order, then the removed ones, in the old order.
pub fn diff_symbols(old: &Vec<Symbol>, new: &Vec<Symbol>) -> (r: Vec<SymbolChange>)
    ensures
        changes_view(r@) == spec_diff_symbols(symbols_view(old@), symbols_view(new@)),
{
    let mut changes: Vec<SymbolChange> = Vec::new();
    let mut i: usize = 0;
    while i < new.len()
        invariant
            i <= new@.len(),
            changes_view(changes@) == new_changes(symbols_view(old@), symbols_view(new@), i as int),
        decreases new@.len() - i,
    {
        let s = &new[i];
        let ghost before = changes_view(changes@);
        match find_last_with_key(old, s) {
            Some(k) => {
                let o = &old[k];
                if !string_eq(&s.full_text, &o.full_text) {
                    let change = if s.kind == SymbolKind::Function && !string_eq(&s.signature_text, &o.signature_text) {
                        ChangeKind::SignatureChanged
                    } else {
                        ChangeKind::BodyModified
                    };
                    changes.push(SymbolChange { kind: s.kind, name: s.name.clone(), visibility: s.visibility, change });
                    assert(changes_view(changes@) =~= before.push(changes@.last()@));
                } else {
                    assert(before + seq![] =~= before);
                }
            },
            None => {
                changes.push(SymbolChange { kind: s.kind, name: s.name.clone(), visibility: s.visibility, change: ChangeKind::Added });
                assert(changes_view(changes@) =~= before.push(changes@.last()@));
            },
        }
        i += 1;
    }
    let ghost added = changes_view(changes@);
    let mut j: usize = 0;
    while j < old.len()
        invariant
            j <= old@.len(),
            added == new_changes(symbols_view(old@), symbols_view(new@), new@.len() as int),
            changes_view(changes@) == added + removed_changes(symbols_view(old@), symbols_view(new@), j as int),
        decreases old@.len() - j,
    {
        let o = &old[j];
        let ghost before = changes_view(changes@);
        if !vec_has_key(new, o) {
            changes.push(SymbolChange { kind: o.kind, name: o.name.clone(), visibility: o.visibility, change: ChangeKind::Removed });
            assert(changes_view(changes@) =~= before.push(changes@.last()@));
            assert(added + removed_changes(symbols_view(old@), symbols_view(new@), j + 1) =~= before.push(changes@.last()@));
        } else {
            assert(added + removed_changes(symbols_view(old@), symbols_view(new@), j + 1) =~= before);
        }
        j += 1;
    }
    changes
}

} // verus!

verus! {

broadcast use vstd::string::group_string_axioms, vstd::utf8::group_utf8_lib;

pub struct SpecSymbol {
    pub kind: SymbolKind,
    pub name: Seq<char>,
    pub visibility: Visibility,
    pub signature_text: Seq<char>,
    pub full_text: Seq<char>,
}

impl View for Symbol {
    type V = SpecSymbol;

    open spec fn view(&self) -> SpecSymbol {
        SpecSymbol {
            kind: self.kind,
            name: self.name@,
            visibility: self.visibility,
            signature_text: self.signature_text@,
            full_text: self.full_text@,
        }
    }
}

pub open spec fn symbols_view(v: Seq<Symbol>) -> Seq<SpecSymbol> {
    v.map_values(|s: Symbol| s@)
}

pub open spec fn opt_str_view(o: Option<&str>) -> Option<Seq<char>> {
    match o {
        Some(s) => Some(s@),
        None => None,
    }
}

/// The text between two byte offsets of `src`, as `str::get` gives it: present when
/// both offsets fall on character boundaries, in order and within the text.
pub open spec fn text_between(src: Seq<char>, s: int, e: int) -> Option<Seq<char>> {
    let b = encode_utf8(src);
    if 0 <= s <= e <= b.len() && is_char_boundary(b, s) && is_char_boundary(b, e) {
        Some(decode_utf8(b.subrange(s, e)))
    } else {
        None
    }
}

/// The source text of a node.
pub open spec fn node_text(src: Seq<char>, n: SyntaxNode) -> Option<Seq<char>> {
    text_between(src, n.start as int, n.end as int)
}

/// The first child of `p`, from position `c` on, that stands in the field `name`, or -1.
pub open spec fn field_child_from(t: Seq<SyntaxNode>, p: int, c: int, name: Seq<char>) -> int
    decreases t.len() - c,
{
    if p < 0 || c <= p || c >= t.len() || t[c].depth <= t[p].depth {
        -1
    } else if t[c].depth == t[p].depth + 1 && match t[c].field {
        Some(f) => f@ == name,
        None => false,
    } {
        c
    } else {
        field_child_from(t, p, c + 1, name)
    }
}

/// The first child of `p` that stands in the field `name`, or -1.
pub open spec fn field_child(t: Seq<SyntaxNode>, p: int, name: Seq<char>) -> int {
    field_child_from(t, p, p + 1, name)
}

/// The visibility that the first `pub` modifier among the children of `p`, from
/// position `c` on, gives.
pub open spec fn visibility_from(t: Seq<SyntaxNode>, src: Seq<char>, p: int, c: int) -> Visibility
    decreases t.len() - c,
{
    if p < 0 || c <= p || c >= t.len() || t[c].depth <= t[p].depth {
        Visibility::Private
    } else if t[c].depth == t[p].depth + 1 && t[c].kind@ == "visibility_modifier"@ {
        let text = trim_of(
            match node_text(src, t[c]) {
                Some(x) => x,
                None => seq![],
            },
            CharClass::Whitespace,
        );
        if "pub(crate)"@.is_prefix_of(text) {
            Visibility::PubCrate
        } else if "pub"@.is_prefix_of(text) {
            Visibility::Public
        } else {
            visibility_from(t, src, p, c + 1)
        }
    } else {
        visibility_from(t, src, p, c + 1)
    }
}

/// A name under the qualifier of the enclosing impl, if any.
pub open spec fn qualified(q: Option<Seq<char>>, name: Seq<char>) -> Seq<char> {
    match q {
        Some(q) => q + "::"@ + name,
        None => name,
    }
}

/// Where an item's header ends: at the start of its body, else at its end.
pub open spec fn header_end(t: Seq<SyntaxNode>, p: int) -> int {
    let b = field_child(t, p, "body"@);
    if b >= 0 {
        t[b].start as int
    } else {
        t[p].end as int
    }
}

/// A function item: its name, its visibility, its header as its signature and its
/// whole text.
pub open spec fn function_symbol(
    t: Seq<SyntaxNode>,
    src: Seq<char>,
    p: int,
    q: Option<Seq<char>>,
) -> Option<SpecSymbol> {
    let nm = field_child(t, p, "name"@);
    if nm < 0 {
        None
    } else {
        match (
            node_text(src, t[nm]),
            text_between(src, t[p].start as int, header_end(t, p)),
            node_text(src, t[p]),
        ) {
            (Some(name), Some(sig), Some(full)) => Some(
                SpecSymbol {
                    kind: SymbolKind::Function,
                    name: qualified(q, name),
                    visibility: visibility_from(t, src, p, p + 1),
                    signature_text: sig,
                    full_text: full,
                },
            ),
            _ => None,
        }
    }
}

/// Another named item: its whole text stands for its signature too.
pub open spec fn named_symbol(
    t: Seq<SyntaxNode>,
    src: Seq<char>,
    p: int,
    kind: SymbolKind,
    q: Option<Seq<char>>,
) -> Option<SpecSymbol> {
    let nm = field_child(t, p, "name"@);
    if nm < 0 {
        None
    } else {
        match (node_text(src, t[nm]), node_text(src, t[p])) {
            (Some(name), Some(full)) => Some(
                SpecSymbol {
                    kind,
                    name: qualified(q, name),
                    visibility: visibility_from(t, src, p, p + 1),
                    signature_text: full,
                    full_text: full,
                },
            ),
            _ => None,
        }
    }
}

/// The kind of a named item by its grammar kind; functions and impls are read apart.
pub open spec fn item_kind(k: Seq<char>) -> Option<SymbolKind> {
    if k == "struct_item"@ {
        Some(SymbolKind::Struct)
    } else if k == "enum_item"@ {
        Some(SymbolKind::Enum)
    } else if k == "union_item"@ {
        Some(SymbolKind::Union)
    } else if k == "trait_item"@ {
        Some(SymbolKind::Trait)
    } else if k == "type_item"@ {
        Some(SymbolKind::TypeAlias)
    } else if k == "const_item"@ {
        Some(SymbolKind::Const)
    } else if k == "static_item"@ {
        Some(SymbolKind::Static)
    } else if k == "macro_definition"@ {
        Some(SymbolKind::Macro)
    } else if k == "mod_item"@ {
        Some(SymbolKind::Mod)
    } else {
        None
    }
}

/// The trimmed text of the child of `p` in field `name`, or `<unknown>`.
pub open spec fn field_text_or_unknown(t: Seq<SyntaxNode>, src: Seq<char>, p: int, name: Seq<char>) -> Seq<char> {
    let c = field_child(t, p, name);
    trim_of(
        if c >= 0 {
            match node_text(src, t[c]) {
                Some(x) => x,
                None => "<unknown>"@,
            }
        } else {
            "<unknown>"@
        },
        CharClass::Whitespace,
    )
}

/// What an impl is called: its type, or `Trait for Type` for a trait impl.
pub open spec fn impl_qualifier(t: Seq<SyntaxNode>, src: Seq<char>, p: int) -> Seq<char> {
    let type_text = field_text_or_unknown(t, src, p, "type"@);
    if field_child(t, p, "trait"@) >= 0 {
        field_text_or_unknown(t, src, p, "trait"@) + " for "@ + type_text
    } else {
        type_text
    }
}

/// An impl block as a private symbol of its own, its header as its signature.
pub open spec fn impl_summary(
    t: Seq<SyntaxNode>,
    src: Seq<char>,
    p: int,
    q: Option<Seq<char>>,
    iq: Seq<char>,
) -> Option<SpecSymbol> {
    match (text_between(src, t[p].start as int, header_end(t, p)), node_text(src, t[p])) {
        (Some(sig), Some(full)) => Some(
            SpecSymbol {
                kind: SymbolKind::Impl,
                name: qualified(q, iq),
                visibility: Visibility::Private,
                signature_text: sig,
                full_text: full,
            },
        ),
        _ => None,
    }
}

/// The symbols of the named children of `p` from position `c` on, in order; the items
/// of an impl's body follow the impl, qualified by it.
pub open spec fn walk_from(
    t: Seq<SyntaxNode>,
    src: Seq<char>,
    p: int,
    c: int,
    q: Option<Seq<char>>,
) -> Seq<SpecSymbol>
    decreases t.len() - c,
{
    if p < 0 || c <= p || c >= t.len() || t[c].depth <= t[p].depth {
        seq![]
    } else if t[c].depth == t[p].depth + 1 && t[c].named {
        if t[c].kind@ == "function_item"@ {
            opt_seq(function_symbol(t, src, c, q)) + walk_from(t, src, p, c + 1, q)
        } else if t[c].kind@ == "impl_item"@ {
            let iq = impl_qualifier(t, src, c);
            let b = field_child(t, c, "body"@);
            opt_seq(impl_summary(t, src, c, q, iq)) + (if c < b < t.len() {
                walk_from(t, src, b, b + 1, Some(iq))
            } else {
                seq![]
            }) + walk_from(t, src, p, c + 1, q)
        } else {
            (match item_kind(t[c].kind@) {
                Some(k) => opt_seq(named_symbol(t, src, c, k, q)),
                None => seq![],
            }) + walk_from(t, src, p, c + 1, q)
        }
    } else {
        walk_from(t, src, p, c + 1, q)
    }
}

/// The top-level symbols of a parsed file, with the methods of its impls.
pub open spec fn tree_symbols(t: Seq<SyntaxNode>, src: Seq<char>) -> Seq<SpecSymbol> {
    walk_from(t, src, 0, 1, None)
}

proof fn lemma_suffix_boundary(b: Seq<u8>, s: int, j: int)
    requires
        valid_utf8(b),
        0 <= s,
        0 <= j,
        s + j <= b.len(),
        is_char_boundary(b, s),
        is_char_boundary(b, s + j),
    ensures
        valid_utf8(b.subrange(s, b.len() as int)),
        is_char_boundary(b.subrange(s, b.len() as int), j),
{
    let t = b.subrange(s, b.len() as int);
    valid_utf8_split(b, s);
    is_char_boundary_start_end_of_seq(t);
    if 0 < j < t.len() {
        is_char_boundary_iff_not_is_continuation_byte(t, j);
        is_char_boundary_iff_not_is_continuation_byte(b, s + j);
        assert(t[j] == b[s + j]);
    }
}

/// `str::get` on a byte range.
pub fn text_in<'a>(source: &'a str, s: usize, e: usize) -> (r: Option<&'a str>)
    ensures
        opt_str_view(r) == text_between(source@, s as int, e as int),
{
    let n = source.as_bytes().len();
    proof {
        vstd::utf8::encode_utf8_valid_utf8(source@);
    }
    if s > e || e > n {
        return None;
    }
    if !source.is_char_boundary(s) || !source.is_char_boundary(e) {
        return None;
    }
    let ghost b = source.spec_bytes();
    let (_, rest) = source.split_at(s);
    proof {
        lemma_suffix_boundary(b, s as int, (e - s) as int);
    }
    let (mid, _) = rest.split_at(e - s);
    proof {
        assert(mid.spec_bytes() =~= b.subrange(s as int, e as int));
        vstd::utf8::encode_utf8_decode_utf8(mid@);
    }
    Some(mid)
}

} // verus!

verus! {

fn field_is(field: &Option<String>, name: &str) -> (r: bool)
    ensures
        r == match *field {
            Some(f) => f@ == name@,
            None => false,
        },
{
    match field {
        Some(f) => strings_equal(f.as_str(), name),
        None => false,
    }
}

/// The first child of `p` that stands in the field `name`.
fn field_child_of(t: &Vec<SyntaxNode>, p: usize, name: &str) -> (r: Option<usize>)
    requires
        p < t@.len(),
    ensures
        match r {
            Some(c) => c == field_child(t@, p as int, name@) && p < c < t@.len(),
            None => field_child(t@, p as int, name@) == -1,
        },
{
    let len: usize = t.len();
    let mut c = p + 1;
    while c < len && t[c].depth > t[p].depth
        invariant
            p < c <= t@.len(),
            len == t@.len(),
            field_child_from(t@, p as int, c as int, name@) == field_child(t@, p as int, name@),
        decreases t@.len() - c,
    {
        if t[c].depth - 1 == t[p].depth && field_is(&t[c].field, name) {
            return Some(c);
        }
        c += 1;
    }
    None
}

/// The visibility that the first `pub` modifier among the children of `p` gives.
fn visibility_of(t: &Vec<SyntaxNode>, src: &str, p: usize) -> (r: Visibility)
    requires
        p < t@.len(),
    ensures
        r == visibility_from(t@, src@, p as int, p + 1),
{
    let len: usize = t.len();
    let mut c = p + 1;
    while c < len && t[c].depth > t[p].depth
        invariant
            p < c <= t@.len(),
            len == t@.len(),
            visibility_from(t@, src@, p as int, c as int) == visibility_from(
                t@,
                src@,
                p as int,
                p + 1,
            ),
        decreases t@.len() - c,
    {
        if t[c].depth - 1 == t[p].depth && strings_equal(t[c].kind.as_str(), "visibility_modifier") {
            let text = match text_in(src, t[c].start, t[c].end) {
                Some(x) => trimmed(x),
                None => String::new(),
            };
            proof {
                if text_in_none(src@, t@[c as int]) {
                    crate::text::lemma_trim_empty(seq![], CharClass::Whitespace);
                }
            }
            let cs = chars_of(text.as_str());
            if has_prefix(cs.as_slice(), "pub(crate)") {
                return Visibility::PubCrate;
            } else if has_prefix(cs.as_slice(), "pub") {
                return Visibility::Public;
            }
        }
        c += 1;
    }
    Visibility::Private
}

spec fn text_in_none(src: Seq<char>, n: SyntaxNode) -> bool {
    node_text(src, n) is None
}

/// A name under the qualifier of the enclosing impl, if any.
fn qualified_name(q: Option<&str>, name: &str) -> (r: String)
    ensures
        r@ == qualified(opt_str_view(q), name@),
{
    match q {
        Some(q) => {
            let mut out = q.to_owned();
            out.append("::");
            out.append(name);
            out
        },
        None => name.to_owned(),
    }
}

fn header_end_of(t: &Vec<SyntaxNode>, p: usize) -> (r: usize)
    requires
        p < t@.len(),
    ensures
        r == header_end(t@, p as int),
{
    match field_child_of(t, p, "body") {
        Some(b) => t[b].start,
        None => t[p].end,
    }
}

fn build_function(t: &Vec<SyntaxNode>, src: &str, p: usize, q: Option<&str>) -> (r: Option<Symbol>)
    requires
        p < t@.len(),
    ensures
        match r {
            Some(s) => function_symbol(t@, src@, p as int, opt_str_view(q)) == Some(s@),
            None => function_symbol(t@, src@, p as int, opt_str_view(q)) is None,
        },
{
    let nm = match field_child_of(t, p, "name") {
        Some(nm) => nm,
        None => return None,
    };
    let name = match text_in(src, t[nm].start, t[nm].end) {
        Some(x) => x,
        None => return None,
    };
    let visibility = visibility_of(t, src, p);
    let signature_text = match text_in(src, t[p].start, header_end_of(t, p)) {
        Some(x) => x.to_owned(),
        None => return None,
    };
    let full_text = match text_in(src, t[p].start, t[p].end) {
        Some(x) => x.to_owned(),
        None => return None,
    };
    Some(
        Symbol {
            kind: SymbolKind::Function,
            name: qualified_name(q, name),
            visibility,
            signature_text,
            full_text,
        },
    )
}

fn build_named(t: &Vec<SyntaxNode>, src: &str, p: usize, kind: SymbolKind, q: Option<&str>) -> (r:
    Option<Symbol>)
    requires
        p < t@.len(),
    ensures
        match r {
            Some(s) => named_symbol(t@, src@, p as int, kind, opt_str_view(q)) == Some(s@),
            None => named_symbol(t@, src@, p as int, kind, opt_str_view(q)) is None,
        },
{
    let nm = match field_child_of(t, p, "name") {
        Some(nm) => nm,
        None => return None,
    };
    let name = match text_in(src, t[nm].start, t[nm].end) {
        Some(x) => x,
        None => return None,
    };
    let visibility = visibility_of(t, src, p);
    let full_text = match text_in(src, t[p].start, t[p].end) {
        Some(x) => x,
        None => return None,
    };
    Some(
        Symbol {
            kind,
            name: qualified_name(q, name),
            visibility,
            signature_text: full_text.to_owned(),
            full_text: full_text.to_owned(),
        },
    )
}

fn item_kind_of(k: &str) -> (r: Option<SymbolKind>)
    ensures
        r == item_kind(k@),
{
    if strings_equal(k, "struct_item") {
        Some(SymbolKind::Struct)
    } else if strings_equal(k, "enum_item") {
        Some(SymbolKind::Enum)
    } else if strings_equal(k, "union_item") {
        Some(SymbolKind::Union)
    } else if strings_equal(k, "trait_item") {
        Some(SymbolKind::Trait)
    } else if strings_equal(k, "type_item") {
        Some(SymbolKind::TypeAlias)
    } else if strings_equal(k, "const_item") {
        Some(SymbolKind::Const)
    } else if strings_equal(k, "static_item") {
        Some(SymbolKind::Static)
    } else if strings_equal(k, "macro_definition") {
        Some(SymbolKind::Macro)
    } else if strings_equal(k, "mod_item") {
        Some(SymbolKind::Mod)
    } else {
        None
    }
}

fn field_text_or_unknown_of(t: &Vec<SyntaxNode>, src: &str, p: usize, name: &str) -> (r: String)
    requires
        p < t@.len(),
    ensures
        r@ == field_text_or_unknown(t@, src@, p as int, name@),
{
    match field_child_of(t, p, name) {
        Some(c) => match text_in(src, t[c].start, t[c].end) {
            Some(x) => trimmed(x),
            None => trimmed("<unknown>"),
        },
        None => trimmed("<unknown>"),
    }
}

fn impl_qualifier_of(t: &Vec<SyntaxNode>, src: &str, p: usize) -> (r: String)
    requires
        p < t@.len(),
    ensures
        r@ == impl_qualifier(t@, src@, p as int),
{
    let type_text = field_text_or_unknown_of(t, src, p, "type");
    match field_child_of(t, p, "trait") {
        Some(_) => {
            let mut out = field_text_or_unknown_of(t, src, p, "trait");
            out.append(" for ");
            out.append(type_text.as_str());
            out
        },
        None => type_text,
    }
}

fn build_impl_summary(t: &Vec<SyntaxNode>, src: &str, p: usize, q: Option<&str>, iq: &str) -> (r:
    Option<Symbol>)
    requires
        p < t@.len(),
    ensures
        match r {
            Some(s) => impl_summary(t@, src@, p as int, opt_str_view(q), iq@) == Some(s@),
            None => impl_summary(t@, src@, p as int, opt_str_view(q), iq@) is None,
        },
{
    let signature_text = match text_in(src, t[p].start, header_end_of(t, p)) {
        Some(x) => x.to_owned(),
        None => return None,
    };
    let full_text = match text_in(src, t[p].start, t[p].end) {
        Some(x) => x.to_owned(),
        None => return None,
    };
    Some(
        Symbol {
            kind: SymbolKind::Impl,
            name: qualified_name(q, iq),
            visibility: Visibility::Private,
            signature_text,
            full_text,
        },
    )
}

fn push_opt(out: &mut Vec<Symbol>, s: Option<Symbol>)
    ensures
        symbols_view(final(out)@) == symbols_view(old(out)@) + match s {
            Some(x) => seq![x@],
            None => Seq::<SpecSymbol>::empty(),
        },
{
    match s {
        Some(x) => {
            out.push(x);
            assert(symbols_view(out@) =~= symbols_view(old(out)@) + seq![x@]);
        },
        None => {
            assert(symbols_view(out@) =~= symbols_view(old(out)@) + Seq::<SpecSymbol>::empty());
        },
    }
}

fn walk(t: &Vec<SyntaxNode>, src: &str, p: usize, q: Option<&str>, out: &mut Vec<Symbol>)
    requires
        p < t@.len(),
    ensures
        symbols_view(final(out)@) == symbols_view(old(out)@) + walk_from(
            t@,
            src@,
            p as int,
            p + 1,
            opt_str_view(q),
        ),
    decreases t@.len() - p,
{
    let ghost start = symbols_view(out@);
    let ghost qv = opt_str_view(q);
    let len: usize = t.len();
    let mut c = p + 1;
    while c < len && t[c].depth > t[p].depth
        invariant
            p < c <= t@.len(),
            len == t@.len(),
            qv == opt_str_view(q),
            start + walk_from(t@, src@, p as int, p + 1, qv) == symbols_view(out@) + walk_from(
                t@,
                src@,
                p as int,
                c as int,
                qv,
            ),
        decreases t@.len() - c,
    {
        let ghost before = symbols_view(out@);
        if t[c].depth - 1 == t[p].depth && t[c].named {
            if strings_equal(t[c].kind.as_str(), "function_item") {
                push_opt(out, build_function(t, src, c, q));
                assert(before + walk_from(t@, src@, p as int, c as int, qv) =~= symbols_view(out@)
                    + walk_from(t@, src@, p as int, c + 1, qv));
            } else if strings_equal(t[c].kind.as_str(), "impl_item") {
                let iq = impl_qualifier_of(t, src, c);
                push_opt(out, build_impl_summary(t, src, c, q, iq.as_str()));
                let ghost mid = symbols_view(out@);
                match field_child_of(t, c, "body") {
                    Some(b) => {
                        walk(t, src, b, Some(iq.as_str()), out);
                    },
                    None => {},
                }
                assert(before + walk_from(t@, src@, p as int, c as int, qv) =~= symbols_view(out@)
                    + walk_from(t@, src@, p as int, c + 1, qv));
            } else {
                match item_kind_of(t[c].kind.as_str()) {
                    Some(k) => push_opt(out, build_named(t, src, c, k, q)),
                    None => {},
                }
                assert(before + walk_from(t@, src@, p as int, c as int, qv) =~= symbols_view(out@)
                    + walk_from(t@, src@, p as int, c + 1, qv));
            }
        }
        c += 1;
    }
}

/// The symbols of a parsed Rust file: its items in order, each impl followed by the
/// items of its body under the impl's name.
pub fn symbols_of_tree(nodes: &Vec<SyntaxNode>, source: &str) -> (r: Vec<Symbol>)
    ensures
        symbols_view(r@) == tree_symbols(nodes@, source@),
{
    let mut out: Vec<Symbol> = Vec::new();
    if nodes.len() == 0 {
        assert(symbols_view(out@) =~= tree_symbols(nodes@, source@));
        return out;
    }
    walk(nodes, source, 0, None, &mut out);
    assert(symbols_view(out@) =~= tree_symbols(nodes@, source@));
    out
}

/// The symbols of a text read as Rust source: those of its syntax tree, none where
/// the parser gives no tree.
pub open spec fn rust_symbols(src: Seq<char>) -> Seq<SpecSymbol> {
    match rust_syntax(src) {
        Some(t) => tree_symbols(t, src),
        None => seq![],
    }
}

/// The symbols of one side of a file: none for a missing side.
pub open spec fn side_symbols(src: Option<Seq<char>>) -> Seq<SpecSymbol> {
    match src {
        Some(s) => rust_symbols(s),
        None => seq![],
    }
}

/// Parses Rust source and lists its symbols; `None` where the parser gives no tree.
pub fn extract_rust_symbols(source: &str) -> (r: Option<Vec<Symbol>>)
    ensures
        r is Some <==> rust_syntax(source@) is Some,
        r matches Some(v) ==> symbols_view(v@) == tree_symbols(rust_syntax(source@)->0, source@),
{
    match parse_rust(source) {
        Some(nodes) => Some(symbols_of_tree(&nodes, source)),
        None => None,
    }
}

/// The symbols of one side of a file; none for a missing or unparsable side.
fn extract_or_empty(source: Option<&str>) -> (r: Vec<Symbol>)
    ensures
        symbols_view(r@) == side_symbols(opt_str_view(source)),
{
    match source {
        Some(s) => match extract_rust_symbols(s) {
            Some(v) => v,
            None => {
                let r = Vec::new();
                assert(symbols_view(r@) =~= seq![]);
                r
            },
        },
        None => {
            let r = Vec::new();
            assert(symbols_view(r@) =~= seq![]);
            r
        },
    }
}

/// The changes of a file between two lists of its symbols: `None` for a file in no
/// supported language or with no change.
pub fn file_semantic(path: &str, old_symbols: &Vec<Symbol>, new_symbols: &Vec<Symbol>) -> (r: Option<FileSemantic>)
    ensures
        match r {
            Some(f) => is_rust_path(path@) && f.path@ == path@ && f.language == Language::Rust
                && changes_view(f.symbols@) == spec_diff_symbols(symbols_view(old_symbols@), symbols_view(new_symbols@))
                && f.symbols@.len() > 0,
            None => !is_rust_path(path@) || spec_diff_symbols(symbols_view(old_symbols@), symbols_view(new_symbols@)).len() == 0,
        },
{
    let language = match detect_language(path) {
        Some(l) => l,
        None => return None,
    };
    let changes = diff_symbols(old_symbols, new_symbols);
    if changes.len() == 0 {
        return None;
    }
    Some(FileSemantic { path: path.to_owned(), language, symbols: changes })
}

/// A file's symbol changes, as plain values.
pub struct SpecFileSemantic {
    pub path: Seq<char>,
    pub language: Language,
    pub symbols: Seq<SpecSymbolChange>,
}

impl View for FileSemantic {
    type V = SpecFileSemantic;

    open spec fn view(&self) -> SpecFileSemantic {
        SpecFileSemantic { path: self.path@, language: self.language, symbols: changes_view(self.symbols@) }
    }
}

/// What the analysis of a file gives: for a Rust path whose two sides differ in
/// their symbols, the changes between them; else nothing.
pub open spec fn file_analysis(path: Seq<char>, old: Option<Seq<char>>, new: Option<Seq<char>>) -> Option<SpecFileSemantic> {
    let changes = spec_diff_symbols(side_symbols(old), side_symbols(new));
    if is_rust_path(path) && changes.len() > 0 {
        Some(SpecFileSemantic { path, language: Language::Rust, symbols: changes })
    } else {
        None
    }
}

/// The symbol changes of a file between its old and new source; a missing or
/// unparsable side counts as a file without symbols. `None` for a path in no supported
/// language, or when no symbol changed.
pub fn analyze_file(path: &str, old_source: Option<&str>, new_source: Option<&str>) -> (r: Option<
    FileSemantic,
>)
    ensures
        match r {
            Some(f) => file_analysis(path@, opt_str_view(old_source), opt_str_view(new_source))
                == Some(f@) && f.symbols@.len() > 0,
            None => file_analysis(path@, opt_str_view(old_source), opt_str_view(new_source)) is None,
        },
{
    if detect_language(path).is_none() {
        return None;
    }
    let old_symbols = extract_or_empty(old_source);
    let new_symbols = extract_or_empty(new_source);
    file_semantic(path, &old_symbols, &new_symbols)
}

} // verus!

verus! {

impl SymbolChange {
    /// A copy of the change.
    pub fn clone_change(&self) -> (r: SymbolChange)
        ensures
            r == *self,
    {
        SymbolChange {
            kind: self.kind,
            name: self.name.clone(),
            visibility: self.visibility,
            change: self.change,
        }
    }
}

} // verus!

verus! {

/// No two symbols share a kind and a name.
pub open spec fn keys_unique(syms: Seq<SpecSymbol>) -> bool {
    forall|i: int, j: int| 0 <= i < j < syms.len() ==> !same_key(#[trigger] syms[i], #[trigger] syms[j])
}

proof fn lemma_last_key_is_own(syms: Seq<SpecSymbol>, k: int, end: int)
    requires
        keys_unique(syms),
        0 <= k < end <= syms.len(),
    ensures
        last_with_key(syms, syms[k], end) == Some(k),
    decreases end,
{
    if end - 1 != k {
        assert(!same_key(syms[k], syms[end - 1]));
        lemma_last_key_is_own(syms, k, end - 1);
    }
}

proof fn lemma_no_new_changes(syms: Seq<SpecSymbol>, n: int)
    requires
        keys_unique(syms),
        0 <= n <= syms.len(),
    ensures
        new_changes(syms, syms, n).len() == 0,
    decreases n,
{
    if n > 0 {
        lemma_no_new_changes(syms, n - 1);
        lemma_last_key_is_own(syms, n - 1, syms.len() as int);
    }
}

proof fn lemma_no_removed_changes(old: Seq<SpecSymbol>, new: Seq<SpecSymbol>, n: int)
    requires
        0 <= n <= old.len(),
        forall|k: int| 0 <= k < n ==> has_key(new, #[trigger] old[k]),
    ensures
        removed_changes(old, new, n).len() == 0,
    decreases n,
{
    if n > 0 {
        lemma_no_removed_changes(old, new, n - 1);
        assert(has_key(new, old[n - 1]));
    }
}

/// A file whose symbols did not change, each known by its kind and name once, has no
/// symbol changes.
pub proof fn law_unchanged_symbols_yield_no_changes(syms: Seq<SpecSymbol>)
    requires
        keys_unique(syms),
    ensures
        spec_diff_symbols(syms, syms).len() == 0,
{
    lemma_no_new_changes(syms, syms.len() as int);
    assert forall|k: int| 0 <= k < syms.len() implies has_key(syms, #[trigger] syms[k]) by {
        assert(same_key(syms[k], syms[k]));
    }
    lemma_no_removed_changes(syms, syms, syms.len() as int);
}

proof fn lemma_all_added(new: Seq<SpecSymbol>, n: int)
    requires
        0 <= n <= new.len(),
    ensures
        new_changes(seq![], new, n).len() == n,
        forall|i: int|
            0 <= i < n ==> (#[trigger] new_changes(seq![], new, n)[i]).change == ChangeKind::Added
                && new_changes(seq![], new, n)[i].name == new[i].name && new_changes(seq![], new, n)[i].kind
                == new[i].kind,
    decreases n,
{
    if n > 0 {
        lemma_all_added(new, n - 1);
    }
}

proof fn lemma_all_removed(old: Seq<SpecSymbol>, n: int)
    requires
        0 <= n <= old.len(),
    ensures
        removed_changes(old, seq![], n).len() == n,
        forall|i: int|
            0 <= i < n ==> (#[trigger] removed_changes(old, seq![], n)[i]).change == ChangeKind::Removed
                && removed_changes(old, seq![], n)[i].name == old[i].name,
    decreases n,
{
    if n > 0 {
        lemma_all_removed(old, n - 1);
        assert(!has_key(seq![], old[n - 1]));
    }
}

/// In a file that did not exist before, every symbol is added; in a file that no
/// longer exists, every symbol is removed; each in the file's order.
pub proof fn law_new_and_deleted_files(syms: Seq<SpecSymbol>)
    ensures
        spec_diff_symbols(seq![], syms).len() == syms.len(),
        forall|i: int|
            0 <= i < syms.len() ==> (#[trigger] spec_diff_symbols(seq![], syms)[i]).change
                == ChangeKind::Added && spec_diff_symbols(seq![], syms)[i].name == syms[i].name,
        spec_diff_symbols(syms, seq![]).len() == syms.len(),
        forall|i: int|
            0 <= i < syms.len() ==> (#[trigger] spec_diff_symbols(syms, seq![])[i]).change
                == ChangeKind::Removed && spec_diff_symbols(syms, seq![])[i].name == syms[i].name,
{
    lemma_all_added(syms, syms.len() as int);
    assert(removed_changes(seq![], syms, 0) =~= seq![]);
    assert(spec_diff_symbols(seq![], syms) =~= new_changes(seq![], syms, syms.len() as int));
    lemma_all_removed(syms, syms.len() as int);
    assert(new_changes(syms, seq![], 0) =~= seq![]);
    assert(spec_diff_symbols(syms, seq![]) =~= removed_changes(syms, seq![], syms.len() as int));
}

proof fn lemma_last_with_key(old: Seq<SpecSymbol>, s: SpecSymbol, end: int)
    requires
        0 <= end <= old.len(),
    ensures
        match last_with_key(old, s, end) {
            Some(i) => 0 <= i < end && same_key(old[i], s),
            None => forall|j: int| 0 <= j < end ==> !same_key(#[trigger] old[j], s),
        },
    decreases end,
{
    if end > 0 {
        lemma_last_with_key(old, s, end - 1);
    }
}

/// The change a symbol reports against the one old symbol of its key: none when its
/// text is the same, a changed signature for a function whose header differs, else a
/// changed body.
pub open spec fn change_against(s: SpecSymbol, o: SpecSymbol) -> Option<SpecSymbolChange> {
    if s.full_text == o.full_text {
        None
    } else {
        Some(SpecSymbolChange {
            kind: s.kind,
            name: s.name,
            visibility: s.visibility,
            change: if s.kind == SymbolKind::Function && s.signature_text != o.signature_text {
                ChangeKind::SignatureChanged
            } else {
                ChangeKind::BodyModified
            },
        })
    }
}

/// Where each old symbol has a key of its own, the difference reports the new symbols
/// in their order, each added when no old symbol has its key and otherwise compared
/// with the old symbol of that key, followed by the old symbols whose key the new
/// version lacks, removed, in their order.
pub proof fn law_diff_under_unique_keys(old: Seq<SpecSymbol>, new: Seq<SpecSymbol>, s: SpecSymbol, k: int)
    requires
        keys_unique(old),
    ensures
        spec_diff_symbols(old, new) == new_changes(old, new, new.len() as int) + removed_changes(
            old,
            new,
            old.len() as int,
        ),
        forall|i: int|
            0 < i <= new.len() ==> #[trigger] new_changes(old, new, i) == new_changes(old, new, i - 1)
                + opt_seq(new_symbol_change(old, new[i - 1])),
        forall|i: int|
            0 < i <= old.len() ==> #[trigger] removed_changes(old, new, i) == removed_changes(
                old,
                new,
                i - 1,
            ) + if has_key(new, old[i - 1]) {
                Seq::<SpecSymbolChange>::empty()
            } else {
                seq![SpecSymbolChange { kind: old[i - 1].kind, name: old[i - 1].name, visibility: old[i - 1].visibility, change: ChangeKind::Removed }]
            },
        !has_key(old, s) ==> new_symbol_change(old, s) == Some(
            SpecSymbolChange { kind: s.kind, name: s.name, visibility: s.visibility, change: ChangeKind::Added },
        ),
        0 <= k < old.len() && same_key(old[k], s) ==> new_symbol_change(old, s) == change_against(
            s,
            old[k],
        ),
{
    lemma_last_with_key(old, s, old.len() as int);
    if 0 <= k < old.len() && same_key(old[k], s) {
        match last_with_key(old, s, old.len() as int) {
            Some(i) => {
                if i != k {
                    if i < k {
                        assert(!same_key(old[i], old[k]));
                    } else {
                        assert(!same_key(old[k], old[i]));
                    }
                }
            },
            None => {},
        }
    }
    if !has_key(old, s) {
        match last_with_key(old, s, old.len() as int) {
            Some(i) => {
                assert(same_key(old[i], s));
            },
            None => {},
        }
    }
}

} // verus!
