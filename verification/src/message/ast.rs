use vstd::prelude::*;

verus! {

/// A Conventional Commit message, borrowing its parts from the raw text.
#[derive(Debug, Clone, PartialEq, Eq)]
pub struct CommitMessage<'a> {
    pub header: Header<'a>,
    pub body: Option<&'a str>,
    pub footers: Vec<Footer<'a>>,
    pub breaking: bool,
    pub breaking_description: Option<&'a str>,
}

/// The first line: `<type>(<scope>)!: <description>`.
#[derive(Debug, Clone, PartialEq, Eq)]
pub struct Header<'a> {
    pub ty: &'a str,
    pub scope: Option<&'a str>,
    pub breaking: bool,
    pub description: &'a str,
}

/// A trailer line such as `Refs: #123` or `Closes #12`.
#[derive(Debug, Clone, PartialEq, Eq)]
pub struct Footer<'a> {
    pub token: &'a str,
    pub separator: FooterSeparator,
    pub value: &'a str,
}

#[derive(Debug, Clone, Copy, PartialEq, Eq, Structural)]
pub enum FooterSeparator {
    Colon,
    Hash,
}

/// The abstract header: its parts as character sequences.
pub struct SpecHeader {
    pub ty: Seq<char>,
    pub scope: Option<Seq<char>>,
    pub breaking: bool,
    pub description: Seq<char>,
}

pub struct SpecFooter {
    pub token: Seq<char>,
    pub separator: FooterSeparator,
    pub value: Seq<char>,
}

pub struct SpecCommitMessage {
    pub header: SpecHeader,
    pub body: Option<Seq<char>>,
    pub footers: Seq<SpecFooter>,
    pub breaking: bool,
    pub breaking_description: Option<Seq<char>>,
}

pub open spec fn opt_str_view(o: Option<&str>) -> Option<Seq<char>> {
    match o {
        Some(s) => Some(s@),
        None => None,
    }
}

impl<'a> View for Header<'a> {
    type V = SpecHeader;

    open spec fn view(&self) -> SpecHeader {
        SpecHeader {
            ty: self.ty@,
            scope: opt_str_view(self.scope),
            breaking: self.breaking,
            description: self.description@,
        }
    }
}

impl<'a> View for Footer<'a> {
    type V = SpecFooter;

    open spec fn view(&self) -> SpecFooter {
        SpecFooter { token: self.token@, separator: self.separator, value: self.value@ }
    }
}

impl<'a> View for CommitMessage<'a> {
    type V = SpecCommitMessage;

    open spec fn view(&self) -> SpecCommitMessage {
        SpecCommitMessage {
            header: self.header@,
            body: opt_str_view(self.body),
            footers: self.footers@.map_values(|f: Footer<'a>| f@),
            breaking: self.breaking,
            breaking_description: opt_str_view(self.breaking_description),
        }
    }
}

/// The two tokens that mark a breaking change.
pub open spec fn spec_is_breaking_token(token: Seq<char>) -> bool {
    token == "BREAKING CHANGE"@ || token == "BREAKING-CHANGE"@
}

pub(crate) fn str_eq(a: &str, b: &str) -> (r: bool)
    ensures
        r == (a@ == b@),
{
    let x = crate::text::chars_of(a);
    let y = crate::text::chars_of(b);
    crate::text::slice_eq(x.as_slice(), y.as_slice())
}

pub(crate) fn is_breaking_token(token: &str) -> (r: bool)
    ensures
        r == spec_is_breaking_token(token@),
{
    str_eq(token, "BREAKING CHANGE") || str_eq(token, "BREAKING-CHANGE")
}

impl<'a> CommitMessage<'a> {
    pub fn ty(&self) -> (r: &'a str)
        ensures
            r@ == self.header.ty@,
    {
        self.header.ty
    }

    pub fn is_breaking(&self) -> (r: bool)
        ensures
            r == self.breaking,
    {
        self.breaking
    }
}

impl<'a> Footer<'a> {
    pub fn is_breaking_change(&self) -> (r: bool)
        ensures
            r == spec_is_breaking_token(self.token@),
    {
        is_breaking_token(self.token)
    }
}

} // verus!
