use vstd::prelude::*;

use crate::history::HistoryEntry;
use crate::semantic::{ChangeKind, FileSemantic, SemanticAnalysis, SymbolChange, SymbolKind, Visibility};
use crate::text::{
    chars_of, decimal, find_chars_from, find_from, is_blank, join, lemma_find_from, occurs_at,
    push_chars, push_decimal, push_joined, trim_of, trimmed, all_ws, CharClass,
};
use crate::types::{commit_type_name, CommitType, GitContext, PriorAttempt};
use vstd::slice::slice_subrange;
use vstd::string::StringExecFns;

verus! {

broadcast use vstd::string::group_string_axioms;

/// The instructions given to the model that writes a message.
pub const SYSTEM_PROMPT: &'static str = r#"你是一位精通 Git 提交规范的专家，你的任务是写一条简短清晰、概括本次 staged diff 的 commit message。

本格式基于 Conventional Commits，但以以下项目约定为准：

- 必须使用指定 type
- subject 与 body 使用简体中文
- footer 沿用 Angular/Conventional Commits 规范

如果只用 subject 一行就能准确表达改动，那么 body 留空。仅在 body 能提供有用信息时才写 body。

body 中不要重复 subject 已经表达过的信息。

只返回 commit message 本身。不要包含任何关于任务的额外说明，不要把 diff 内容写进 commit message。输出必须直接以 type 开头，前面不要有任何空行或空白字符。

遵循良好的 Git 风格：

- subject 与 body 之间用一个空行分隔
- subject 行尽量控制在 50 个字符以内
- subject 末尾不加任何标点
- subject 使用简洁的中文动宾结构，例如“修复配置读取错误”“新增 MCP 工具入口”“重构消息解析器”
- body 每行不超过 72 个字符
- body 保持简短精炼（没有价值时整段省略）
- body 包含多个要点时，使用无序列表，每行以 "- " 开头

按照 Conventional Commits 组织 commit message：

<type>(<scope>): <subject>

<body>

<footer>

subject 与 body 必须使用简体中文。footer 沿用 Angular 规范：破坏性变更以 `BREAKING CHANGE:` 开头，issue 引用使用 `Closes #123` 或 `Fixes #456`。当 body 或 footer 没有有用信息时，整段省略。

如果有合适的 scope，scope 应使用英文模块名或功能名，例如 `cli`、`core`、`mcp`、`message`；没有合适 scope 时省略括号，写成 `<type>: <subject>`。

type 必须从以下选项中精确选择一项：

- init: 项目或模块初始化
- feat: 新功能
- fix: 修复 bug
- docs: 仅文档变更
- style: 不影响代码含义的改动（空白、格式化、缺少分号等）
- refactor: 既不修 bug 也不加功能的代码改动
- perf: 性能优化
- test: 补充缺失的测试或修正已有测试
- build: 影响构建系统的变更
- deps: 外部依赖、依赖锁定文件或依赖版本更新
- ci: CI 配置文件与脚本的变更
- chore: 其他不修改 src 或 test 文件的杂项改动
- revert: 回退之前的提交

优先使用上述固定 type。模块名、子系统名、目录名、包名或功能名应放进 scope，不要自造新的 type。例如写 `fix(runtime): ...`、`refactor(cli): ...`、`docs(config): ...`，不要写 `runtime: ...`、`cli: ...`、`config: ...`。"#;

/// The instructions given to the model that judges a message.
pub const CRITIQUE_PROMPT: &'static str = "Critique this commit message. Prefer compact JSON: {\"verdict\":\"ok\",\"coverage\":\"complete\",\"risk\":\"low\",\"needs_feedback\":false,\"reason\":\"...\"}. Output REWRITE: followed by the issue when it must be rewritten.";

/// The rule that opens every prompt, up to the branch.
pub const PROMPT_RULE: &'static str = "Commit message rule:\nFollow the system prompt's Conventional Commits format. Use the inferred type as a hint, but choose the final type/scope from the staged diff. Write subject and body in Simplified Chinese. Use module names as scope, not as custom types.\n\nBranch:\n";

/// A model that answers a prompt under a system prompt.
pub trait LlmBackend {
    fn invoke(&mut self, system_prompt: &str, prompt: &str) -> Result<String, String>;
}

/// A backend that hands out one message it was given, once, and passes every critique.
pub struct ExternalMessageBackend {
    message: Option<String>,
}

impl View for ExternalMessageBackend {
    type V = Option<Seq<char>>;

    /// The message not yet handed out.
    closed spec fn view(&self) -> Option<Seq<char>> {
        match self.message {
            Some(m) => Some(m@),
            None => None,
        }
    }
}

impl ExternalMessageBackend {
    pub fn new(message: String) -> (r: Self)
        ensures
            r@ == Some(message@),
    {
        ExternalMessageBackend { message: Some(message) }
    }
}

impl LlmBackend for ExternalMessageBackend {
    /// A critique is answered `OK`; any other prompt takes the message, which is
    /// there only the first time.
    fn invoke(&mut self, system_prompt: &str, prompt: &str) -> (r: Result<String, String>)
        ensures
            system_prompt@ == CRITIQUE_PROMPT@ ==> r is Ok && r->Ok_0@ == "OK"@ && final(self)@
                == old(self)@,
            system_prompt@ != CRITIQUE_PROMPT@ ==> final(self)@ == None::<Seq<char>> && match old(
                self,
            )@ {
                Some(m) => r is Ok && r->Ok_0@ == m,
                None => r is Err && r->Err_0@ == "external message already consumed"@,
            },
    {
        if crate::text::strings_equal(system_prompt, CRITIQUE_PROMPT) {
            return Ok("OK".to_owned());
        }
        match self.message.take() {
            Some(m) => Ok(m),
            None => Err("external message already consumed".to_owned()),
        }
    }
}

/// Whether a generated message is sent back for critique.
#[derive(Clone, Copy)]
pub struct GenerateOptions {
    pub critique: bool,
}

impl Default for GenerateOptions {
    fn default() -> (r: Self)
        ensures
            r.critique,
    {
        GenerateOptions { critique: true }
    }
}

/// A message from the model with the verdict on it.
#[derive(Debug, Clone, PartialEq, Eq)]
pub struct GeneratedMessage {
    pub message: String,
    pub judgement: LlmJudgement,
    pub rewritten: bool,
}

/// How completely a message covers the change, as a critique judged it.
#[derive(Debug, Clone, Copy, PartialEq, Eq, Structural)]
pub enum Coverage {
    Complete,
    Partial,
    Unclear,
}

/// How risky a message is, as a critique judged it.
#[derive(Debug, Clone, Copy, PartialEq, Eq, Structural)]
pub enum Risk {
    Low,
    Medium,
    High,
}

/// A critique's verdict on a generated message.
#[derive(Debug, Clone, PartialEq, Eq)]
pub struct LlmJudgement {
    pub coverage: Coverage,
    pub risk: Risk,
    pub needs_feedback: bool,
    pub reason: String,
}

impl LlmJudgement {
    /// The verdict of a critique that found nothing to fix.
    pub fn ok() -> (r: LlmJudgement)
        ensures
            r.coverage == Coverage::Complete,
            r.risk == Risk::Low,
            !r.needs_feedback,
            r.reason@ == "critique passed"@,
    {
        LlmJudgement {
            coverage: Coverage::Complete,
            risk: Risk::Low,
            needs_feedback: false,
            reason: "critique passed".to_owned(),
        }
    }
}

} // verus!

verus! {

/// The tag that opens a block of the model's reasoning.
pub open spec fn open_tag() -> Seq<char> {
    seq!['<', 't', 'h', 'i', 'n', 'k', '>']
}

/// The tag that closes a block of the model's reasoning.
pub open spec fn close_tag() -> Seq<char> {
    seq!['<', '/', 't', 'h', 'i', 'n', 'k', '>']
}

/// The text of `s` from position `p` on with each reasoning block taken out: the text
/// up to the first opening tag, then, when a closing tag follows it, the rest after
/// that tag treated alike; an unclosed block runs to the end.
pub open spec fn strip_from(s: Seq<char>, p: int) -> Seq<char>
    decreases s.len() + 1 - p,
{
    if p < 0 || p > s.len() {
        seq![]
    } else {
        let st = find_from(s, open_tag(), p);
        if st < 0 {
            s.subrange(p, s.len() as int)
        } else {
            let en = find_from(s, close_tag(), st + 7);
            if en < 0 {
                s.subrange(p, st)
            } else {
                proof {
                    lemma_find_from(s, open_tag(), p);
                    lemma_find_from(s, close_tag(), st + 7);
                }
                s.subrange(p, st) + strip_from(s, en + 8)
            }
        }
    }
}

/// `s` without the model's reasoning blocks.
pub open spec fn strip_thinking(s: Seq<char>) -> Seq<char> {
    strip_from(s, 0)
}

/// Takes `<think>...</think>` blocks out of a model's answer; an unclosed block
/// runs to the end of the text.
pub fn strip_thinking_blocks(raw: &str) -> (r: String)
    ensures
        r@ == strip_thinking(raw@),
{
    let cs = chars_of(raw);
    let s = cs.as_slice();
    let open = chars_of("<think>");
    let close = chars_of("</think>");
    proof {
        reveal_strlit("<think>");
        reveal_strlit("</think>");
        assert(open@ =~= open_tag());
        assert(close@ =~= close_tag());
    }
    let mut out = String::new();
    let mut p: usize = 0;
    let n: usize = s.len();
    loop
        invariant_except_break
            p <= s@.len(),
            out@ + strip_from(s@, p as int) == strip_thinking(s@),
        invariant
            s@ == raw@,
            n == s@.len(),
            open@ == open_tag(),
            close@ == close_tag(),
        ensures
            out@ == strip_thinking(s@),
        decreases n - p,
    {
        let ghost before = out@;
        match find_chars_from(s, open.as_slice(), p) {
            None => {
                push_chars(&mut out, slice_subrange(s, p, s.len()));
                break;
            },
            Some(st) => {
                proof {
                    lemma_find_from(s@, open_tag(), p as int);
                }
                push_chars(&mut out, slice_subrange(s, p, st));
                match find_chars_from(s, close.as_slice(), st + 7) {
                    None => {
                        break;
                    },
                    Some(en) => {
                        proof {
                            lemma_find_from(s@, close_tag(), st + 7);
                            assert(before + strip_from(s@, p as int) =~= out@ + strip_from(
                                s@,
                                en + 8,
                            ));
                        }
                        p = en + 8;
                    },
                }
            },
        }
    }
    out
}

} // verus!

verus! {

/// The marker that opens a symbol's line.
pub open spec fn change_marker(c: ChangeKind) -> Seq<char> {
    match c {
        ChangeKind::Added => "+"@,
        ChangeKind::Removed => "-"@,
        ChangeKind::BodyModified => "M"@,
        ChangeKind::SignatureChanged => "~"@,
    }
}

/// The words that describe a change at the end of a symbol's line.
pub open spec fn change_label(c: ChangeKind) -> Seq<char> {
    match c {
        ChangeKind::Added => "added"@,
        ChangeKind::Removed => "removed"@,
        ChangeKind::BodyModified => "body modified"@,
        ChangeKind::SignatureChanged => "signature changed"@,
    }
}

/// The visibility as it is written before an item.
pub open spec fn visibility_prefix(v: Visibility) -> Seq<char> {
    match v {
        Visibility::Public => "pub "@,
        Visibility::PubCrate => "pub(crate) "@,
        Visibility::Private => ""@,
    }
}

/// The keyword of a kind of item.
pub open spec fn kind_keyword(k: SymbolKind) -> Seq<char> {
    match k {
        SymbolKind::Function => "fn"@,
        SymbolKind::Struct => "struct"@,
        SymbolKind::Enum => "enum"@,
        SymbolKind::Union => "union"@,
        SymbolKind::Trait => "trait"@,
        SymbolKind::Impl => "impl"@,
        SymbolKind::Mod => "mod"@,
        SymbolKind::Const => "const"@,
        SymbolKind::Static => "static"@,
        SymbolKind::TypeAlias => "type"@,
        SymbolKind::Macro => "macro"@,
    }
}

/// A symbol change as one line of a prompt, such as `+ pub fn fresh (added)`.
pub open spec fn symbol_line(s: SymbolChange) -> Seq<char> {
    change_marker(s.change) + " "@ + visibility_prefix(s.visibility) + kind_keyword(s.kind) + " "@
        + s.name@ + " ("@ + change_label(s.change) + ")"@
}

fn change_marker_str(c: ChangeKind) -> (r: &'static str)
    ensures
        r@ == change_marker(c),
{
    match c {
        ChangeKind::Added => "+",
        ChangeKind::Removed => "-",
        ChangeKind::BodyModified => "M",
        ChangeKind::SignatureChanged => "~",
    }
}

fn change_label_str(c: ChangeKind) -> (r: &'static str)
    ensures
        r@ == change_label(c),
{
    match c {
        ChangeKind::Added => "added",
        ChangeKind::Removed => "removed",
        ChangeKind::BodyModified => "body modified",
        ChangeKind::SignatureChanged => "signature changed",
    }
}

fn visibility_str(v: Visibility) -> (r: &'static str)
    ensures
        r@ == visibility_prefix(v),
{
    match v {
        Visibility::Public => "pub ",
        Visibility::PubCrate => "pub(crate) ",
        Visibility::Private => "",
    }
}

fn kind_str(k: SymbolKind) -> (r: &'static str)
    ensures
        r@ == kind_keyword(k),
{
    match k {
        SymbolKind::Function => "fn",
        SymbolKind::Struct => "struct",
        SymbolKind::Enum => "enum",
        SymbolKind::Union => "union",
        SymbolKind::Trait => "trait",
        SymbolKind::Impl => "impl",
        SymbolKind::Mod => "mod",
        SymbolKind::Const => "const",
        SymbolKind::Static => "static",
        SymbolKind::TypeAlias => "type",
        SymbolKind::Macro => "macro",
    }
}

/// Writes a symbol change as one line of a prompt.
pub fn render_symbol_change(symbol: &SymbolChange) -> (r: String)
    ensures
        r@ == symbol_line(*symbol),
{
    let mut out = String::new();
    out.append(change_marker_str(symbol.change));
    out.append(" ");
    out.append(visibility_str(symbol.visibility));
    out.append(kind_str(symbol.kind));
    out.append(" ");
    out.append(symbol.name.as_str());
    out.append(" (");
    out.append(change_label_str(symbol.change));
    out.append(")");
    assert(out@ =~= symbol_line(*symbol));
    out
}

/// The lines of a file's symbol changes, each indented by two spaces.
pub open spec fn symbols_text(syms: Seq<SymbolChange>) -> Seq<char>
    decreases syms.len(),
{
    if syms.len() == 0 {
        seq![]
    } else {
        symbols_text(syms.drop_last()) + "  "@ + symbol_line(syms.last()) + "\n"@
    }
}

/// A file's path followed by its symbol changes.
pub open spec fn file_text(f: FileSemantic) -> Seq<char> {
    "\n"@ + f.path@ + ":\n"@ + symbols_text(f.symbols@)
}

pub open spec fn files_text(files: Seq<FileSemantic>) -> Seq<char>
    decreases files.len(),
{
    if files.len() == 0 {
        seq![]
    } else {
        files_text(files.drop_last()) + file_text(files.last())
    }
}

/// The semantic section of a prompt: present only when some file has symbol changes.
pub open spec fn semantic_section(semantic: Option<SemanticAnalysis>) -> Seq<char> {
    match semantic {
        Some(a) => if a.files@.len() > 0 {
            "\nSemantic changes (top-level symbols):\n"@ + files_text(a.files@)
        } else {
            seq![]
        },
        None => seq![],
    }
}

/// One earlier attempt of a session, numbered `n`, with what the user said of it.
pub open spec fn attempt_text(n: nat, a: PriorAttempt) -> Seq<char> {
    "\nAttempt "@ + decimal(n) + ":\n"@ + trim_of(a.message@, CharClass::Whitespace) + "\n"@ + if a.feedback@.len()
        == 0 {
        "User feedback after attempt "@ + decimal(n) + ": (no specific feedback, just regenerate)\n"@
    } else {
        "User feedback after attempt "@ + decimal(n) + ": "@ + a.feedback@ + "\n"@
    }
}

/// The earlier attempts, numbered from one.
pub open spec fn attempts_text(atts: Seq<PriorAttempt>) -> Seq<char>
    decreases atts.len(),
{
    if atts.len() == 0 {
        seq![]
    } else {
        attempts_text(atts.drop_last()) + attempt_text(atts.len(), atts.last())
    }
}

pub open spec fn attempts_section(atts: Seq<PriorAttempt>) -> Seq<char> {
    if atts.len() == 0 {
        seq![]
    } else {
        "\nSession attempts so far (do not repeat the wording from earlier attempts; respond to the latest user feedback below):\n"@
            + attempts_text(atts)
    }
}

/// A titled section holding `text`, present only when there is a text.
pub open spec fn optional_section(title: Seq<char>, text: Option<Seq<char>>) -> Seq<char> {
    match text {
        Some(t) => title + t + "\n"@,
        None => seq![],
    }
}

pub open spec fn history_text(entries: Seq<HistoryEntry>) -> Seq<char>
    decreases entries.len(),
{
    if entries.len() == 0 {
        seq![]
    } else {
        history_text(entries.drop_last()) + "AI draft: "@ + entries.last().generated@
            + "\nUser final: "@ + entries.last().final_message@ + "\n"@
    }
}

/// Earlier drafts with the messages the user committed in their place.
pub open spec fn history_section(entries: Seq<HistoryEntry>) -> Seq<char> {
    if entries.len() == 0 {
        seq![]
    } else {
        "\nRecent generated/final pairs:\n"@ + history_text(entries)
    }
}

/// The name of the inferred type, or `unknown`.
pub open spec fn inferred_name(t: Option<CommitType>) -> Seq<char> {
    match t {
        Some(t) => commit_type_name(t),
        None => "unknown"@,
    }
}

pub open spec fn views(v: Seq<String>) -> Seq<Seq<char>> {
    v.map_values(|s: String| s@)
}

/// The rule and the repository's state that open every prompt.
pub open spec fn context_text(c: GitContext) -> Seq<char> {
    PROMPT_RULE@ + trim_of(c.branch@, CharClass::Whitespace) + "\n\nStatus:\n"@
        + trim_of(c.status_short@, CharClass::Whitespace) + "\n\nStaged stat:\n"@
        + trim_of(c.staged_stat@, CharClass::Whitespace) + "\n\nStaged name-status:\n"@
        + trim_of(c.staged_name_status@, CharClass::Whitespace) + "\n\nInferred type:\n"@
        + inferred_name(c.inferred_type) + "\n\nRecent commits:\n"@
        + join(views(c.recent_subjects@), "\n"@) + "\n\nStaged diff:\n"@ + c.staged_diff@ + "\n"@
}

/// The whole prompt: the repository's state, its symbol changes, the session's earlier
/// attempts, the user's feedback, the critique to address and the history of drafts.
pub open spec fn prompt_text(
    c: GitContext,
    feedback: Option<Seq<char>>,
    critique: Option<Seq<char>>,
    prior: Seq<PriorAttempt>,
) -> Seq<char> {
    context_text(c) + semantic_section(c.semantic) + attempts_section(prior) + optional_section(
        "\nUser feedback:\n"@,
        feedback,
    ) + optional_section("\nCritique to address:\n"@, critique) + history_section(c.history@)
}

pub open spec fn opt_view(o: Option<&str>) -> Option<Seq<char>> {
    match o {
        Some(s) => Some(s@),
        None => None,
    }
}

fn push_context_text(out: &mut String, c: &GitContext)
    ensures
        final(out)@ == old(out)@ + context_text(*c),
{
    let ghost start = out@;
    out.append(PROMPT_RULE);
    out.append(trimmed(c.branch.as_str()).as_str());
    out.append("\n\nStatus:\n");
    out.append(trimmed(c.status_short.as_str()).as_str());
    out.append("\n\nStaged stat:\n");
    out.append(trimmed(c.staged_stat.as_str()).as_str());
    out.append("\n\nStaged name-status:\n");
    out.append(trimmed(c.staged_name_status.as_str()).as_str());
    out.append("\n\nInferred type:\n");
    match c.inferred_type {
        Some(t) => out.append(t.as_str()),
        None => out.append("unknown"),
    }
    out.append("\n\nRecent commits:\n");
    push_joined(out, &c.recent_subjects, "\n");
    out.append("\n\nStaged diff:\n");
    out.append(c.staged_diff.as_str());
    out.append("\n");
    assert(out@ =~= start + context_text(*c));
}

fn push_symbols(out: &mut String, syms: &Vec<SymbolChange>)
    ensures
        final(out)@ == old(out)@ + symbols_text(syms@),
{
    let ghost start = out@;
    let mut i: usize = 0;
    while i < syms.len()
        invariant
            i <= syms@.len(),
            out@ == start + symbols_text(syms@.take(i as int)),
        decreases syms@.len() - i,
    {
        out.append("  ");
        out.append(render_symbol_change(&syms[i]).as_str());
        out.append("\n");
        proof {
            assert(syms@.take(i + 1).drop_last() =~= syms@.take(i as int));
        }
        i += 1;
        assert(out@ =~= start + symbols_text(syms@.take(i as int)));
    }
    assert(syms@.take(i as int) =~= syms@);
}

fn push_semantic_section(out: &mut String, semantic: &Option<SemanticAnalysis>)
    ensures
        final(out)@ == old(out)@ + semantic_section(*semantic),
{
    let ghost start = out@;
    match semantic {
        Some(a) => {
            if a.files.len() > 0 {
                out.append("\nSemantic changes (top-level symbols):\n");
                let ghost mid = out@;
                let mut i: usize = 0;
                while i < a.files.len()
                    invariant
                        i <= a.files@.len(),
                        out@ == mid + files_text(a.files@.take(i as int)),
                    decreases a.files@.len() - i,
                {
                    let f = &a.files[i];
                    out.append("\n");
                    out.append(f.path.as_str());
                    out.append(":\n");
                    push_symbols(out, &f.symbols);
                    proof {
                        assert(a.files@.take(i + 1).drop_last() =~= a.files@.take(i as int));
                    }
                    i += 1;
                    assert(out@ =~= mid + files_text(a.files@.take(i as int)));
                }
                assert(a.files@.take(i as int) =~= a.files@);
                assert(out@ =~= start + semantic_section(*semantic));
            } else {
                assert(out@ =~= start + semantic_section(*semantic));
            }
        },
        None => {
            assert(out@ =~= start + semantic_section(*semantic));
        },
    }
}

fn push_attempt(out: &mut String, n: usize, a: &PriorAttempt)
    ensures
        final(out)@ == old(out)@ + attempt_text(n as nat, *a),
{
    let ghost start = out@;
    out.append("\nAttempt ");
    push_decimal(out, n);
    out.append(":\n");
    out.append(trimmed(a.message.as_str()).as_str());
    out.append("\n");
    if a.feedback.as_str().is_empty() {
        out.append("User feedback after attempt ");
        push_decimal(out, n);
        out.append(": (no specific feedback, just regenerate)\n");
    } else {
        out.append("User feedback after attempt ");
        push_decimal(out, n);
        out.append(": ");
        out.append(a.feedback.as_str());
        out.append("\n");
    }
    assert(out@ =~= start + attempt_text(n as nat, *a));
}

fn push_attempts_section(out: &mut String, prior: &[PriorAttempt])
    ensures
        final(out)@ == old(out)@ + attempts_section(prior@),
{
    let ghost start = out@;
    if prior.len() == 0 {
        assert(out@ =~= start + attempts_section(prior@));
        return;
    }
    out.append(
        "\nSession attempts so far (do not repeat the wording from earlier attempts; respond to the latest user feedback below):\n",
    );
    let ghost mid = out@;
    let mut i: usize = 0;
    while i < prior.len()
        invariant
            i <= prior@.len(),
            out@ == mid + attempts_text(prior@.take(i as int)),
        decreases prior@.len() - i,
    {
        push_attempt(out, i + 1, &prior[i]);
        proof {
            assert(prior@.take(i + 1).drop_last() =~= prior@.take(i as int));
        }
        i += 1;
        assert(out@ =~= mid + attempts_text(prior@.take(i as int)));
    }
    assert(prior@.take(i as int) =~= prior@);
    assert(out@ =~= start + attempts_section(prior@));
}

fn push_optional_section(out: &mut String, title: &str, text: Option<&str>)
    ensures
        final(out)@ == old(out)@ + optional_section(title@, opt_view(text)),
{
    let ghost start = out@;
    match text {
        Some(t) => {
            out.append(title);
            out.append(t);
            out.append("\n");
        },
        None => {},
    }
    assert(out@ =~= start + optional_section(title@, opt_view(text)));
}

fn push_history_section(out: &mut String, entries: &Vec<HistoryEntry>)
    ensures
        final(out)@ == old(out)@ + history_section(entries@),
{
    let ghost start = out@;
    if entries.len() == 0 {
        assert(out@ =~= start + history_section(entries@));
        return;
    }
    out.append("\nRecent generated/final pairs:\n");
    let ghost mid = out@;
    let mut i: usize = 0;
    while i < entries.len()
        invariant
            i <= entries@.len(),
            out@ == mid + history_text(entries@.take(i as int)),
        decreases entries@.len() - i,
    {
        let e = &entries[i];
        out.append("AI draft: ");
        out.append(e.generated.as_str());
        out.append("\nUser final: ");
        out.append(e.final_message.as_str());
        out.append("\n");
        proof {
            assert(entries@.take(i + 1).drop_last() =~= entries@.take(i as int));
        }
        i += 1;
        assert(out@ =~= mid + history_text(entries@.take(i as int)));
    }
    assert(entries@.take(i as int) =~= entries@);
    assert(out@ =~= start + history_section(entries@));
}

/// The prompt for a message, with the user's feedback, a critique to address and the
/// session's earlier attempts where there are any.
pub fn build_prompt_with_options(
    context: &GitContext,
    feedback: Option<&str>,
    critique: Option<&str>,
    prior_attempts: &[PriorAttempt],
) -> (r: String)
    ensures
        r@ == prompt_text(*context, opt_view(feedback), opt_view(critique), prior_attempts@),
{
    let mut prompt = String::new();
    push_context_text(&mut prompt, context);
    push_semantic_section(&mut prompt, &context.semantic);
    push_attempts_section(&mut prompt, prior_attempts);
    push_optional_section(&mut prompt, "\nUser feedback:\n", feedback);
    push_optional_section(&mut prompt, "\nCritique to address:\n", critique);
    push_history_section(&mut prompt, &context.history);
    assert(prompt@ =~= prompt_text(
        *context,
        opt_view(feedback),
        opt_view(critique),
        prior_attempts@,
    ));
    prompt
}

/// The prompt for a first message, from the repository's state alone.
pub fn build_prompt(context: &GitContext) -> (r: String)
    ensures
        r@ == prompt_text(*context, None, None, seq![]),
{
    let none: &[PriorAttempt] = &[];
    let r = build_prompt_with_options(context, None, None, none);
    assert(none@ =~= Seq::<PriorAttempt>::empty());
    r
}

} // verus!

verus! {

/// A critique's verdict as the model wrote it in JSON; each field may be missing.
#[derive(Debug, Clone, PartialEq, Eq)]
pub struct JsonJudgement {
    pub coverage: Option<String>,
    pub risk: Option<String>,
    pub needs_feedback: Option<bool>,
    pub reason: Option<String>,
}

pub struct SpecJsonJudgement {
    pub coverage: Option<Seq<char>>,
    pub risk: Option<Seq<char>>,
    pub needs_feedback: Option<bool>,
    pub reason: Option<Seq<char>>,
}

pub open spec fn opt_string_view(o: Option<String>) -> Option<Seq<char>> {
    match o {
        Some(s) => Some(s@),
        None => None,
    }
}

impl View for JsonJudgement {
    type V = SpecJsonJudgement;

    open spec fn view(&self) -> SpecJsonJudgement {
        SpecJsonJudgement {
            coverage: opt_string_view(self.coverage),
            risk: opt_string_view(self.risk),
            needs_feedback: self.needs_feedback,
            reason: opt_string_view(self.reason),
        }
    }
}

pub struct SpecJudgement {
    pub coverage: Coverage,
    pub risk: Risk,
    pub needs_feedback: bool,
    pub reason: Seq<char>,
}

impl View for LlmJudgement {
    type V = SpecJudgement;

    open spec fn view(&self) -> SpecJudgement {
        SpecJudgement {
            coverage: self.coverage,
            risk: self.risk,
            needs_feedback: self.needs_feedback,
            reason: self.reason@,
        }
    }
}

pub open spec fn ok_judgement() -> SpecJudgement {
    SpecJudgement {
        coverage: Coverage::Complete,
        risk: Risk::Low,
        needs_feedback: false,
        reason: "critique passed"@,
    }
}

/// `complete` and `partial` are understood; anything else leaves the coverage unclear.
pub open spec fn coverage_named(s: Option<Seq<char>>) -> Coverage {
    if s == Some("complete"@) {
        Coverage::Complete
    } else if s == Some("partial"@) {
        Coverage::Partial
    } else {
        Coverage::Unclear
    }
}

/// `low`, `medium` and `high` are understood; anything else counts as medium.
pub open spec fn risk_named(s: Option<Seq<char>>) -> Risk {
    if s == Some("low"@) {
        Risk::Low
    } else if s == Some("high"@) {
        Risk::High
    } else {
        Risk::Medium
    }
}

/// The verdict read from a critique: `OK` (around whitespace) passes; a reply that
/// decodes as JSON gives its fields, with defaults for missing ones; any other reply
/// is an unclear verdict that asks for feedback, with the reply as its reason.
pub open spec fn spec_judgement(raw: Seq<char>, decoded: Option<SpecJsonJudgement>) -> SpecJudgement {
    let t = trim_of(raw, CharClass::Whitespace);
    if t == "OK"@ {
        ok_judgement()
    } else {
        match decoded {
            Some(j) => SpecJudgement {
                coverage: coverage_named(j.coverage),
                risk: risk_named(j.risk),
                needs_feedback: match j.needs_feedback {
                    Some(b) => b,
                    None => false,
                },
                reason: match j.reason {
                    Some(r) => r,
                    None => "structured critique"@,
                },
            },
            None => SpecJudgement {
                coverage: Coverage::Unclear,
                risk: Risk::Medium,
                needs_feedback: true,
                reason: t,
            },
        }
    }
}

pub open spec fn opt_json_view(o: Option<JsonJudgement>) -> Option<SpecJsonJudgement> {
    match o {
        Some(j) => Some(j@),
        None => None,
    }
}

fn is_named(s: &Option<String>, name: &str) -> (r: bool)
    ensures
        r == (opt_string_view(*s) == Some(name@)),
{
    match s {
        Some(v) => crate::text::strings_equal(v.as_str(), name),
        None => false,
    }
}

/// Reads a critique's verdict. `decoded` is what the trimmed reply decodes to as a
/// JSON object of the verdict's fields, `None` where it does not decode.
pub fn judgement_from_critique(raw: &str, decoded: Option<JsonJudgement>) -> (r: LlmJudgement)
    ensures
        r@ == spec_judgement(raw@, opt_json_view(decoded)),
{
    let trimmed_raw = trimmed(raw);
    if crate::text::strings_equal(trimmed_raw.as_str(), "OK") {
        return LlmJudgement::ok();
    }
    match decoded {
        Some(json) => {
            let coverage = if is_named(&json.coverage, "complete") {
                Coverage::Complete
            } else if is_named(&json.coverage, "partial") {
                Coverage::Partial
            } else {
                Coverage::Unclear
            };
            let risk = if is_named(&json.risk, "low") {
                Risk::Low
            } else if is_named(&json.risk, "high") {
                Risk::High
            } else {
                Risk::Medium
            };
            let needs_feedback = match json.needs_feedback {
                Some(b) => b,
                None => false,
            };
            let reason = match json.reason {
                Some(r) => r,
                None => "structured critique".to_owned(),
            };
            LlmJudgement { coverage, risk, needs_feedback, reason }
        },
        None => LlmJudgement {
            coverage: Coverage::Unclear,
            risk: Risk::Medium,
            needs_feedback: true,
            reason: trimmed_raw,
        },
    }
}

} // verus!

verus! {

/// Which instructions a prompt goes to the model with.
#[derive(Debug, Clone, Copy, PartialEq, Eq, Structural)]
pub enum PromptKind {
    /// `SYSTEM_PROMPT`: write a message.
    Write,
    /// `CRITIQUE_PROMPT`: judge a message.
    Critique,
}

/// Where a checked generation stands while it waits for the model's reply.
#[derive(Debug, Clone, PartialEq, Eq)]
pub enum GenerationState {
    /// Waiting for the first message.
    Drafting,
    /// Waiting for the verdict on `message`.
    Critiquing { message: String },
    /// Waiting for a message rewritten to address `issue`.
    Rewriting { issue: String },
}

/// What a checked generation does next.
#[derive(Debug, Clone, PartialEq, Eq)]
pub enum GenerationStep {
    /// Send `prompt` to the model with the instructions of `kind`, then continue from
    /// `next` with the reply.
    Ask { kind: PromptKind, prompt: String, next: GenerationState },
    /// The generation is over.
    Done(GeneratedMessage),
}

pub enum SpecState {
    Drafting,
    Critiquing(Seq<char>),
    Rewriting(Seq<char>),
}

pub struct SpecGenerated {
    pub message: Seq<char>,
    pub judgement: SpecJudgement,
    pub rewritten: bool,
}

pub enum SpecStep {
    Ask { kind: PromptKind, prompt: Seq<char>, next: SpecState },
    Done(SpecGenerated),
}

impl View for GenerationState {
    type V = SpecState;

    open spec fn view(&self) -> SpecState {
        match self {
            GenerationState::Drafting => SpecState::Drafting,
            GenerationState::Critiquing { message } => SpecState::Critiquing(message@),
            GenerationState::Rewriting { issue } => SpecState::Rewriting(issue@),
        }
    }
}

impl View for GeneratedMessage {
    type V = SpecGenerated;

    open spec fn view(&self) -> SpecGenerated {
        SpecGenerated {
            message: self.message@,
            judgement: self.judgement@,
            rewritten: self.rewritten,
        }
    }
}

impl View for GenerationStep {
    type V = SpecStep;

    open spec fn view(&self) -> SpecStep {
        match self {
            GenerationStep::Ask { kind, prompt, next } => SpecStep::Ask {
                kind: *kind,
                prompt: prompt@,
                next: next@,
            },
            GenerationStep::Done(g) => SpecStep::Done(g@),
        }
    }
}

/// The prompt that asks for a verdict on `message`.
pub open spec fn critique_prompt_text(c: GitContext, message: Seq<char>) -> Seq<char> {
    prompt_text(c, None, None, seq![]) + "\n\nCandidate message:\n"@ + trim_of(
        message,
        CharClass::Whitespace,
    )
}

/// The issue a critique asks to rewrite for, when it starts with `REWRITE:`.
pub open spec fn rewrite_issue(reply: Seq<char>) -> Option<Seq<char>> {
    if "REWRITE:"@.is_prefix_of(reply) {
        Some(trim_of(reply.skip(8), CharClass::Whitespace))
    } else {
        None
    }
}

/// The first step: ask for a message.
pub open spec fn spec_begin(
    c: GitContext,
    feedback: Option<Seq<char>>,
    prior: Seq<PriorAttempt>,
) -> SpecStep {
    SpecStep::Ask {
        kind: PromptKind::Write,
        prompt: prompt_text(c, feedback, None, prior),
        next: SpecState::Drafting,
    }
}

/// The step after a reply. A first message is taken as it is when no critique is
/// asked for, else sent for a verdict. A verdict that asks for a rewrite leads to one
/// more message, which is taken with a partial, medium-risk verdict whose reason is
/// the issue; any other verdict is read and the first message taken with it.
pub open spec fn spec_continue(
    c: GitContext,
    feedback: Option<Seq<char>>,
    prior: Seq<PriorAttempt>,
    critique: bool,
    state: SpecState,
    reply: Seq<char>,
    decoded: Option<SpecJsonJudgement>,
) -> SpecStep {
    match state {
        SpecState::Drafting => if !critique {
            SpecStep::Done(SpecGenerated { message: reply, judgement: ok_judgement(), rewritten: false })
        } else {
            SpecStep::Ask {
                kind: PromptKind::Critique,
                prompt: critique_prompt_text(c, reply),
                next: SpecState::Critiquing(reply),
            }
        },
        SpecState::Critiquing(message) => match rewrite_issue(reply) {
            Some(issue) => SpecStep::Ask {
                kind: PromptKind::Write,
                prompt: prompt_text(c, feedback, Some(issue), prior),
                next: SpecState::Rewriting(issue),
            },
            None => SpecStep::Done(
                SpecGenerated {
                    message,
                    judgement: spec_judgement(reply, decoded),
                    rewritten: false,
                },
            ),
        },
        SpecState::Rewriting(issue) => SpecStep::Done(
            SpecGenerated {
                message: reply,
                judgement: SpecJudgement {
                    coverage: Coverage::Partial,
                    risk: Risk::Medium,
                    needs_feedback: false,
                    reason: issue,
                },
                rewritten: true,
            },
        ),
    }
}

/// The instructions of a kind of prompt.
pub fn system_prompt(kind: PromptKind) -> (r: &'static str)
    ensures
        r@ == (match kind {
            PromptKind::Write => SYSTEM_PROMPT@,
            PromptKind::Critique => CRITIQUE_PROMPT@,
        }),
{
    match kind {
        PromptKind::Write => SYSTEM_PROMPT,
        PromptKind::Critique => CRITIQUE_PROMPT,
    }
}

/// Starts a checked generation.
pub fn begin_generation(
    context: &GitContext,
    feedback: Option<&str>,
    prior_attempts: &[PriorAttempt],
) -> (r: GenerationStep)
    ensures
        r@ == spec_begin(*context, opt_view(feedback), prior_attempts@),
{
    GenerationStep::Ask {
        kind: PromptKind::Write,
        prompt: build_prompt_with_options(context, feedback, None, prior_attempts),
        next: GenerationState::Drafting,
    }
}

/// The prompt that asks for a verdict on `message`.
pub fn critique_prompt(context: &GitContext, message: &str) -> (r: String)
    ensures
        r@ == critique_prompt_text(*context, message@),
{
    let mut prompt = build_prompt(context);
    prompt.append("\n\nCandidate message:\n");
    prompt.append(trimmed(message).as_str());
    prompt
}

fn rewrite_issue_of(reply: &str) -> (r: Option<String>)
    ensures
        opt_string_view(r) == rewrite_issue(reply@),
{
    let cs = chars_of(reply);
    proof {
        reveal_strlit("REWRITE:");
    }
    if !crate::text::has_prefix(cs.as_slice(), "REWRITE:") {
        return None;
    }
    let rest = crate::text::string_of(slice_subrange(cs.as_slice(), 8, cs.len()));
    assert(rest@ =~= reply@.skip(8));
    Some(trimmed(rest.as_str()))
}

/// Continues a checked generation from `state` with the model's `reply`; `decoded`
/// is what the trimmed reply decodes to as a JSON verdict, and is read only when the
/// reply is a verdict.
pub fn continue_generation(
    context: &GitContext,
    feedback: Option<&str>,
    prior_attempts: &[PriorAttempt],
    options: GenerateOptions,
    state: GenerationState,
    reply: String,
    decoded: Option<JsonJudgement>,
) -> (r: GenerationStep)
    ensures
        r@ == spec_continue(
            *context,
            opt_view(feedback),
            prior_attempts@,
            options.critique,
            state@,
            reply@,
            opt_json_view(decoded),
        ),
{
    match state {
        GenerationState::Drafting => {
            if !options.critique {
                GenerationStep::Done(
                    GeneratedMessage { message: reply, judgement: LlmJudgement::ok(), rewritten: false },
                )
            } else {
                let prompt = critique_prompt(context, reply.as_str());
                GenerationStep::Ask {
                    kind: PromptKind::Critique,
                    prompt,
                    next: GenerationState::Critiquing { message: reply },
                }
            }
        },
        GenerationState::Critiquing { message } => {
            match rewrite_issue_of(reply.as_str()) {
                Some(issue) => {
                    let prompt = build_prompt_with_options(
                        context,
                        feedback,
                        Some(issue.as_str()),
                        prior_attempts,
                    );
                    GenerationStep::Ask {
                        kind: PromptKind::Write,
                        prompt,
                        next: GenerationState::Rewriting { issue },
                    }
                },
                None => GenerationStep::Done(
                    GeneratedMessage {
                        message,
                        judgement: judgement_from_critique(reply.as_str(), decoded),
                        rewritten: false,
                    },
                ),
            }
        },
        GenerationState::Rewriting { issue } => GenerationStep::Done(
            GeneratedMessage {
                message: reply,
                judgement: LlmJudgement {
                    coverage: Coverage::Partial,
                    risk: Risk::Medium,
                    needs_feedback: false,
                    reason: issue,
                },
                rewritten: true,
            },
        ),
    }
}

} // verus!

verus! {

/// A reply without an opening `<think>` tag comes back unchanged.
pub proof fn law_strip_keeps_text_without_tags(s: Seq<char>)
    requires
        forall|k: int| !occurs_at(s, open_tag(), k),
    ensures
        strip_thinking(s) == s,
{
    lemma_find_from(s, open_tag(), 0);
    assert(s.subrange(0, s.len() as int) =~= s);
}

proof fn lemma_strip_from_len(s: Seq<char>, p: int)
    requires
        0 <= p <= s.len(),
    ensures
        strip_from(s, p).len() <= s.len() - p,
    decreases s.len() + 1 - p,
{
    lemma_find_from(s, open_tag(), p);
    let st = find_from(s, open_tag(), p);
    if st >= 0 {
        lemma_find_from(s, close_tag(), st + 7);
        let en = find_from(s, close_tag(), st + 7);
        if en >= 0 {
            lemma_strip_from_len(s, en + 8);
        }
    }
}

/// Taking the reasoning blocks out never makes a reply longer.
pub proof fn law_strip_never_lengthens(s: Seq<char>)
    ensures
        strip_thinking(s).len() <= s.len(),
{
    lemma_strip_from_len(s, 0);
}

/// Without a critique, the first reply is taken as the message with a passing
/// verdict, so one request suffices.
pub proof fn law_no_critique_single_call(
    c: GitContext,
    feedback: Option<Seq<char>>,
    prior: Seq<PriorAttempt>,
    reply: Seq<char>,
    decoded: Option<SpecJsonJudgement>,
)
    ensures
        spec_continue(c, feedback, prior, false, SpecState::Drafting, reply, decoded)
            == SpecStep::Done(
            SpecGenerated { message: reply, judgement: ok_judgement(), rewritten: false },
        ),
{
}

/// The user's feedback reaches the prompt, under its own heading.
pub proof fn law_feedback_reaches_prompt(
    c: GitContext,
    feedback: Seq<char>,
    critique: Option<Seq<char>>,
    prior: Seq<PriorAttempt>,
)
    ensures
        crate::text::contains_seq(
            prompt_text(c, Some(feedback), critique, prior),
            "\nUser feedback:\n"@ + feedback + "\n"@,
        ),
{
    let head = context_text(c) + semantic_section(c.semantic) + attempts_section(prior);
    let part = "\nUser feedback:\n"@ + feedback + "\n"@;
    let tail = optional_section("\nCritique to address:\n"@, critique) + history_section(c.history@);
    let whole = prompt_text(c, Some(feedback), critique, prior);
    assert(whole =~= head + part + tail);
    assert(whole.subrange(head.len() as int, (head.len() + part.len()) as int) =~= part);
    assert(occurs_at(whole, part, head.len() as int));
}

/// Each pair of an earlier draft and the message committed in its place reaches the
/// prompt.
pub proof fn law_history_reaches_prompt(
    c: GitContext,
    feedback: Option<Seq<char>>,
    critique: Option<Seq<char>>,
    prior: Seq<PriorAttempt>,
    i: int,
)
    requires
        0 <= i < c.history@.len(),
    ensures
        crate::text::contains_seq(
            prompt_text(c, feedback, critique, prior),
            "AI draft: "@ + c.history@[i].generated@ + "\nUser final: "@
                + c.history@[i].final_message@ + "\n"@,
        ),
{
    let e = c.history@;
    let part = "AI draft: "@ + e[i].generated@ + "\nUser final: "@ + e[i].final_message@ + "\n"@;
    lemma_history_text_holds(e, i);
    let h = history_text(e);
    let k = choose|k: int| occurs_at(h, part, k);
    let head = context_text(c) + semantic_section(c.semantic) + attempts_section(prior)
        + optional_section("\nUser feedback:\n"@, feedback) + optional_section(
        "\nCritique to address:\n"@,
        critique,
    ) + "\nRecent generated/final pairs:\n"@;
    let whole = prompt_text(c, feedback, critique, prior);
    assert(whole =~= head + h);
    assert(whole.subrange(head.len() + k, head.len() + k + part.len()) =~= h.subrange(
        k,
        k + part.len(),
    ));
    assert(occurs_at(whole, part, head.len() + k));
}

proof fn lemma_history_text_holds(e: Seq<HistoryEntry>, i: int)
    requires
        0 <= i < e.len(),
    ensures
        crate::text::contains_seq(
            history_text(e),
            "AI draft: "@ + e[i].generated@ + "\nUser final: "@ + e[i].final_message@ + "\n"@,
        ),
    decreases e.len(),
{
    let part = "AI draft: "@ + e[i].generated@ + "\nUser final: "@ + e[i].final_message@ + "\n"@;
    let rest = history_text(e.drop_last());
    if i == e.len() - 1 {
        assert(history_text(e) =~= rest + part);
        assert(history_text(e).subrange(rest.len() as int, (rest.len() + part.len()) as int) =~= part);
        assert(occurs_at(history_text(e), part, rest.len() as int));
    } else {
        lemma_history_text_holds(e.drop_last(), i);
        assert(e.drop_last()[i] == e[i]);
        let k = choose|k: int| occurs_at(rest, part, k);
        assert(history_text(e) =~= rest + (history_text(e).skip(rest.len() as int)));
        assert(history_text(e).subrange(k, k + part.len()) =~= rest.subrange(k, k + part.len()));
        assert(occurs_at(history_text(e), part, k));
    }
}

} // verus!

verus! {

/// The staged diff reaches every prompt verbatim, under its heading.
pub proof fn law_staged_diff_reaches_prompt(
    c: GitContext,
    feedback: Option<Seq<char>>,
    critique: Option<Seq<char>>,
    prior: Seq<PriorAttempt>,
)
    ensures
        crate::text::contains_seq(
            prompt_text(c, feedback, critique, prior),
            "\n\nStaged diff:\n"@ + c.staged_diff@ + "\n"@,
        ),
{
    let part = "\n\nStaged diff:\n"@ + c.staged_diff@ + "\n"@;
    let head = PROMPT_RULE@ + trim_of(c.branch@, CharClass::Whitespace) + "\n\nStatus:\n"@
        + trim_of(c.status_short@, CharClass::Whitespace) + "\n\nStaged stat:\n"@
        + trim_of(c.staged_stat@, CharClass::Whitespace) + "\n\nStaged name-status:\n"@
        + trim_of(c.staged_name_status@, CharClass::Whitespace) + "\n\nInferred type:\n"@
        + inferred_name(c.inferred_type) + "\n\nRecent commits:\n"@
        + join(views(c.recent_subjects@), "\n"@);
    let tail = semantic_section(c.semantic) + attempts_section(prior) + optional_section(
        "\nUser feedback:\n"@,
        feedback,
    ) + optional_section("\nCritique to address:\n"@, critique) + history_section(c.history@);
    let whole = prompt_text(c, feedback, critique, prior);
    assert(whole =~= head + part + tail);
    assert(whole.subrange(head.len() as int, (head.len() + part.len()) as int) =~= part);
    assert(crate::text::occurs_at(whole, part, head.len() as int));
}

/// A verdict is read by its field values: coverage `"complete"` is complete coverage
/// and `"low"` is low risk whatever the reply says around them; unless the reply is a
/// bare `OK`, coverage `"partial"` is partial, risk `"high"` is high, and a stated
/// need for feedback is kept. Coverage counts as complete only when the verdict says
/// `"complete"` or the reply is `OK`, and risk as low only when it says `"low"` or the
/// reply is `OK`.
pub proof fn law_verdict_fields_are_read(raw: Seq<char>, j: SpecJsonJudgement)
    ensures
        j.coverage == Some("complete"@) ==> spec_judgement(raw, Some(j)).coverage == Coverage::Complete,
        j.risk == Some("low"@) ==> spec_judgement(raw, Some(j)).risk == Risk::Low,
        trim_of(raw, CharClass::Whitespace) != "OK"@ ==> {
            &&& j.coverage == Some("partial"@) ==> spec_judgement(raw, Some(j)).coverage == Coverage::Partial
            &&& j.risk == Some("high"@) ==> spec_judgement(raw, Some(j)).risk == Risk::High
            &&& j.needs_feedback matches Some(b) ==> spec_judgement(raw, Some(j)).needs_feedback == b
            &&& spec_judgement(raw, None).needs_feedback
        },
        spec_judgement(raw, Some(j)).coverage == Coverage::Complete ==> j.coverage == Some("complete"@)
            || trim_of(raw, CharClass::Whitespace) == "OK"@,
        spec_judgement(raw, Some(j)).risk == Risk::Low ==> j.risk == Some("low"@) || trim_of(
            raw,
            CharClass::Whitespace,
        ) == "OK"@,
{
    reveal_strlit("complete");
    reveal_strlit("partial");
    reveal_strlit("low");
    reveal_strlit("high");
    assert("partial"@[0] != "complete"@[0]);
    assert("high"@[0] != "low"@[0]);
}

} // verus!
