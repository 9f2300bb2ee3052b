//! The text a generated contribution carries: branch names, PR titles,
//! commit messages and the prompts that ask a model for a fix.
use vstd::prelude::*;

use crate::common::models::{
    symbol_kind_name, ContributionType, FileChange, Finding, Severity, Symbol, SymbolKind,
};
use crate::pattern::{regex_replace_all, regex_replaced, SLUG_PATTERN};
use crate::text::{
    byte_prefix, chars_of, decimal, decimal_usize, join, join_chars, lowercase, safe_truncate,
    split, split_on, string_from_chars, to_lowercase, trim_char, trim_char_of, views,
};

verus! {

// ── Branch names ─────────────────────────────────────────────────────────────

/// `replaced` (a title whose runs of other characters became `-`) without
/// leading or trailing dashes, cut to `max` bytes.
pub open spec fn slug(replaced: Seq<char>, max: nat) -> Seq<char> {
    byte_prefix(trim_char(replaced, '-'), max)
}

/// The slug of a title whose non-alphanumeric runs were replaced by `-`.
pub fn slug_from(replaced: &str, max_bytes: usize) -> (r: String)
    ensures
        r@ == slug(replaced@, max_bytes as nat),
{
    let t = trim_char_of(chars_of(replaced).as_slice(), '-');
    let s = string_from_chars(&t);
    safe_truncate(s.as_str(), max_bytes)
}

/// The slug of a title: lowercased, each run of characters other than `a`-`z`
/// and `0`-`9` turned into one `-`, dashes trimmed, cut to `max` bytes.
pub open spec fn title_slug(title: Seq<char>, max: nat) -> Seq<char> {
    match regex_replaced(SLUG_PATTERN@, lowercase(title), "-"@) {
        Some(rep) => slug(rep, max),
        None => seq![],
    }
}

/// The slug of `title`, at most `max_bytes` bytes long.
pub fn title_slug_of(title: &str, max_bytes: usize) -> (r: String)
    ensures
        r@ == title_slug(title@, max_bytes as nat),
{
    let lower = to_lowercase(title);
    match regex_replace_all(SLUG_PATTERN, lower.as_str(), "-") {
        Some(rep) => slug_from(rep.as_str(), max_bytes),
        None => String::new(),
    }
}

/// The branch folder for a contribution type.
pub open spec fn branch_prefix(t: ContributionType) -> Seq<char> {
    match t {
        ContributionType::SecurityFix => "fix/security"@,
        ContributionType::CodeQuality => "improve/quality"@,
        ContributionType::DocsImprove => "docs"@,
        ContributionType::PerformanceOpt => "perf"@,
        ContributionType::FeatureAdd => "feat"@,
        ContributionType::Refactor => "refactor"@,
        ContributionType::UiUxFix => "fix/ui"@,
    }
}

fn branch_prefix_of(t: ContributionType) -> (r: &'static str)
    ensures
        r@ == branch_prefix(t),
{
    match t {
        ContributionType::SecurityFix => "fix/security",
        ContributionType::CodeQuality => "improve/quality",
        ContributionType::DocsImprove => "docs",
        ContributionType::PerformanceOpt => "perf",
        ContributionType::FeatureAdd => "feat",
        ContributionType::Refactor => "refactor",
        ContributionType::UiUxFix => "fix/ui",
    }
}

// ── PR titles and commit messages ────────────────────────────────────────────

/// The label that opens a default PR title.
pub open spec fn title_label(t: ContributionType) -> Seq<char> {
    match t {
        ContributionType::SecurityFix => "Security"@,
        ContributionType::CodeQuality => "Quality"@,
        ContributionType::DocsImprove => "Docs"@,
        ContributionType::UiUxFix => "UI/UX"@,
        ContributionType::PerformanceOpt => "Performance"@,
        ContributionType::FeatureAdd => "Feature"@,
        ContributionType::Refactor => "Refactor"@,
    }
}

fn title_label_of(t: ContributionType) -> (r: &'static str)
    ensures
        r@ == title_label(t),
{
    match t {
        ContributionType::SecurityFix => "Security",
        ContributionType::CodeQuality => "Quality",
        ContributionType::DocsImprove => "Docs",
        ContributionType::UiUxFix => "UI/UX",
        ContributionType::PerformanceOpt => "Performance",
        ContributionType::FeatureAdd => "Feature",
        ContributionType::Refactor => "Refactor",
    }
}

/// The conventional-commit type (and scope) for a contribution type.
pub open spec fn commit_prefix(t: ContributionType) -> Seq<char> {
    match t {
        ContributionType::SecurityFix => "fix(security)"@,
        ContributionType::CodeQuality => "refactor"@,
        ContributionType::DocsImprove => "docs"@,
        ContributionType::PerformanceOpt => "perf"@,
        ContributionType::FeatureAdd => "feat"@,
        ContributionType::Refactor => "refactor"@,
        ContributionType::UiUxFix => "fix(ui)"@,
    }
}

fn commit_prefix_of(t: ContributionType) -> (r: &'static str)
    ensures
        r@ == commit_prefix(t),
{
    match t {
        ContributionType::SecurityFix => "fix(security)",
        ContributionType::CodeQuality => "refactor",
        ContributionType::DocsImprove => "docs",
        ContributionType::PerformanceOpt => "perf",
        ContributionType::FeatureAdd => "feat",
        ContributionType::Refactor => "refactor",
        ContributionType::UiUxFix => "fix(ui)",
    }
}

/// The top-level folders under which the next folder names a scope.
pub open spec fn is_scope_root(s: Seq<char>) -> bool {
    s == "src"@ || s == "packages"@ || s == "apps"@ || s == "libs"@
}

/// The commit scope: the folder under `src`, `packages`, `apps` or `libs`
/// in the first changed path.
pub open spec fn commit_scope(changes: Seq<FileChange>) -> Option<Seq<char>> {
    if changes.len() == 0 {
        None
    } else {
        let parts = split(changes[0].path@, '/');
        if parts.len() >= 2 && is_scope_root(parts[0]) {
            Some(parts[1])
        } else {
            None
        }
    }
}

/// The file names (last path segments) of the first three changes.
pub open spec fn affected_names(changes: Seq<FileChange>) -> Seq<Seq<char>> {
    changes.take(if changes.len() < 3 {
        changes.len() as int
    } else {
        3
    }).map_values(|c: FileChange| split(c.path@, '/').last())
}

pub open spec fn commit_message_text(f: Finding, changes: Seq<FileChange>) -> Seq<char> {
    let title = byte_prefix(lowercase(f.title@), 50);
    let tail = "\n\n"@ + f.description@ + "\n\nAffected files: "@ + join(
        affected_names(changes),
        ", "@,
    );
    match commit_scope(changes) {
        Some(s) => commit_prefix(f.finding_type) + "("@ + s + "): "@ + title + tail,
        None => commit_prefix(f.finding_type) + ": "@ + title + tail,
    }
}

fn scope_of(changes: &[FileChange]) -> (r: Option<Vec<char>>)
    ensures
        match r {
            Some(s) => commit_scope(changes@) == Some(s@),
            None => commit_scope(changes@) is None,
        },
{
    if changes.len() == 0 {
        return None;
    }
    let parts = split_on(chars_of(changes[0].path.as_str()).as_slice(), '/');
    proof {
        assert(views(parts@).len() == parts@.len());
    }
    if parts.len() >= 2 {
        let p0 = &parts[0];
        let root = crate::text::chars_eq_str(p0, "src") || crate::text::chars_eq_str(p0, "packages")
            || crate::text::chars_eq_str(p0, "apps") || crate::text::chars_eq_str(p0, "libs");
        if root {
            return Some(parts[1].clone());
        }
    }
    None
}

fn affected_files(changes: &[FileChange]) -> (r: Vec<char>)
    ensures
        r@ == join(affected_names(changes@), ", "@),
{
    let n: usize = if changes.len() < 3 {
        changes.len()
    } else {
        3
    };
    let ghost names = affected_names(changes@);
    let mut out: Vec<Vec<char>> = Vec::new();
    let mut k: usize = 0;
    while k < n
        invariant
            k <= n,
            n <= changes@.len(),
            n == names.len(),
            names == affected_names(changes@),
            views(out@) == names.take(k as int),
        decreases n - k,
    {
        let parts = split_on(chars_of(changes[k].path.as_str()).as_slice(), '/');
        proof {
            assert(views(parts@).len() == parts@.len());
        }
        let last = parts[parts.len() - 1].clone();
        proof {
            assert(names.take(k as int).len() == k);
            assert(out@.len() == k);
        }
        let ghost o0 = out@;
        out.push(last);
        proof {
            assert(views(parts@).last() == parts@[parts@.len() - 1]@);
            assert(out@.drop_last() == o0);
            assert forall|i: int| 0 <= i <= k implies #[trigger] views(out@)[i] == names.take(
                k as int + 1,
            )[i] by {
                if i < k {
                    assert(views(out@)[i] == views(o0)[i]);
                }
            }
            assert(views(out@) =~= names.take(k as int + 1));
        }
        k = k + 1;
    }
    proof {
        assert(names.take(n as int) =~= names);
    }
    join_chars(&out, &chars_of(", "))
}

/// Generates the text of a contribution from its finding.
#[derive(Debug, Clone)]
pub struct ContributionGenerator {
    /// Whether a generated contribution goes through a model self-review.
    pub self_review_enabled: bool,
}

impl ContributionGenerator {
    pub fn new() -> (r: Self)
        ensures
            r.self_review_enabled,
    {
        ContributionGenerator { self_review_enabled: true }
    }

    /// The same generator without the self-review gate.
    pub fn without_self_review(self) -> (r: Self)
        ensures
            !r.self_review_enabled,
    {
        ContributionGenerator { self_review_enabled: false }
    }

    /// A natural-looking branch name: `contribai/<type folder>/<slug>`, the
    /// slug at most 40 bytes long.
    pub fn generate_branch_name(finding: &Finding) -> (r: String)
        ensures
            r@ == "contribai/"@ + branch_prefix(finding.finding_type) + "/"@ + title_slug(
                finding.title@,
                40,
            ),
    {
        let mut out = chars_of("contribai/");
        out.append(&mut chars_of(branch_prefix_of(finding.finding_type)));
        out.append(&mut chars_of("/"));
        let slug = title_slug_of(finding.title.as_str(), 40);
        out.append(&mut chars_of(slug.as_str()));
        string_from_chars(&out)
    }

    /// The default PR title: `<Label>: <finding title>`.
    pub fn generate_pr_title(finding: &Finding) -> (r: String)
        ensures
            r@ == title_label(finding.finding_type) + ": "@ + finding.title@,
    {
        let mut out = chars_of(title_label_of(finding.finding_type));
        out.append(&mut chars_of(": "));
        out.append(&mut chars_of(finding.title.as_str()));
        string_from_chars(&out)
    }

    /// A conventional commit message: type (and scope), the lowercased title
    /// cut to 50 bytes, the finding's description and the first three file
    /// names.
    pub fn generate_commit_message(&self, finding: &Finding, changes: &[FileChange]) -> (r: String)
        ensures
            r@ == commit_message_text(*finding, changes@),
    {
        let lower = to_lowercase(finding.title.as_str());
        let title = safe_truncate(lower.as_str(), 50);
        let mut out = chars_of(commit_prefix_of(finding.finding_type));
        match scope_of(changes) {
            Some(s) => {
                out.append(&mut chars_of("("));
                let mut s = s;
                out.append(&mut s);
                out.append(&mut chars_of("): "));
            },
            None => {
                out.append(&mut chars_of(": "));
            },
        }
        out.append(&mut chars_of(title.as_str()));
        out.append(&mut chars_of("\n\n"));
        out.append(&mut chars_of(finding.description.as_str()));
        out.append(&mut chars_of("\n\nAffected files: "));
        out.append(&mut affected_files(changes));
        string_from_chars(&out)
    }
}


/// The fixed opening of every system prompt.
pub const SYSTEM_PROMPT_RULES: &'static str = "You are a senior open-source contributor who writes production-ready \
             code. You understand that PRs are judged by maintainers who value \
             minimal, focused, and convention-matching changes.\n\n\
             RULES FOR GENERATING CHANGES:\n\
             1. Match existing code style EXACTLY (indentation, naming, patterns)\n\
             2. Make the SMALLEST change that correctly fixes the issue\n\
             3. Include proper error handling consistent with the codebase\n\
             4. Do NOT break existing functionality\n\
             5. Do NOT add unnecessary dependencies or imports\n\
             6. Do NOT refactor adjacent code — fix only the reported issue\n\
             7. Do NOT add comments explaining what the code does\n\
             8. Do NOT modify files unrelated to the finding\n\n\
             OUTPUT FORMAT RULES (CRITICAL):\n\
             - Return ONLY raw JSON — no markdown fences, no ```json blocks\n\
             - No explanatory text before or after the JSON\n\
             - The response must be valid, parseable JSON and nothing else\n\n\
             ACCEPTANCE CRITERIA:\n\
             - Would a busy maintainer merge this in under 30 seconds?\n\
             - Is the change obviously correct with no side effects?\n";

/// How a model is asked to edit an existing file.
pub const SEARCH_REPLACE_FORMAT: &'static str = "Since this is an EXISTING file, use SEARCH/REPLACE blocks \
                 to make targeted edits. DO NOT rewrite the entire file.\n\n\
                 ```json\n\
                 {{\n  \"changes\": [\n    {{\n\
                       \"path\": \"path/to/file\",\n\
                       \"is_new_file\": false,\n\
                       \"edits\": [\n        {{\n\
                           \"search\": \"exact text to find in the file\",\n\
                           \"replace\": \"replacement text\"\n\
                       }}\n      ]\n    }}\n  ]\n}}\n\
                 ```\n\n\
                 RULES for search/replace:\n\
                 - `search` must be an EXACT substring from the current file\n\
                 - `replace` is what replaces it (can be longer/shorter)\n\
                 - To DELETE content, set `replace` to empty string\n\
                 - Keep each edit small and focused\n";

/// How a model is asked to write a new file.
pub const NEW_FILE_FORMAT: &'static str = "Since this is a NEW file, provide the full content:\n\n\
                 ```json\n\
                 {{\n  \"changes\": [\n    {{\n\
                       \"path\": \"path/to/file\",\n\
                       \"content\": \"full content of the new file\",\n\
                       \"is_new_file\": true\n\
                   }}\n  ]\n}}\n\
                 ```\n";

// ── Prompts ──────────────────────────────────────────────────────────────────

/// The system prompt for a repository: the fixed rules, the repository's
/// coding style when known, its name and its language.
pub open spec fn system_prompt(full_name: Seq<char>, language: Option<Seq<char>>, style: Option<Seq<char>>) -> Seq<char> {
    SYSTEM_PROMPT_RULES@ + match style {
        Some(st) => "\nCODEBASE STYLE:\n"@ + st + "\nYou MUST match these conventions exactly.\n"@,
        None => seq![],
    } + "\nREPOSITORY: "@ + full_name + "\nLanguage: "@ + match language {
        Some(l) => l,
        None => "unknown"@,
    } + "\n"@
}

/// The finding part of a generation prompt.
pub open spec fn finding_block(f: Finding) -> Seq<char> {
    "## Task\nFix this issue.\n\n## Finding\n- **Title**: "@ + f.title@ + "\n- **Severity**: "@
        + crate::common::models::severity_name(f.severity) + "\n- **File**: "@ + f.file_path@
        + "\n- **Description**: "@ + f.description@ + "\n"@ + match f.suggestion {
        Some(sg) => "- **Suggestion**: "@ + sg@ + "\n"@,
        None => seq![],
    }
}

pub open spec fn pair_views(v: Seq<(String, String)>) -> Seq<(Seq<char>, Seq<char>)> {
    v.map_values(|p: (String, String)| (p.0@, p.1@))
}

/// One listed file of the same issue, its content cut to 3000 bytes.
pub open spec fn cross_entry(p: (Seq<char>, Seq<char>)) -> Seq<char> {
    "### "@ + p.0 + "\n```\n"@ + byte_prefix(p.1, 3000) + "\n```\n\n"@
}

pub open spec fn cross_entries(ps: Seq<(Seq<char>, Seq<char>)>) -> Seq<char>
    decreases ps.len(),
{
    if ps.len() == 0 {
        seq![]
    } else {
        cross_entries(ps.drop_last()) + cross_entry(ps.last())
    }
}

/// The other files with the same issue, when there are any.
pub open spec fn cross_block(ps: Seq<(Seq<char>, Seq<char>)>) -> Seq<char> {
    if ps.len() == 0 {
        seq![]
    } else {
        "\n## IMPORTANT: Same issue in "@ + decimal(ps.len())
            + " OTHER file(s)\nFix ALL instances across ALL files in a single contribution.\n\n"@
            + cross_entries(ps)
    }
}

/// Kinds of symbol whose signatures are shown to the model.
pub open spec fn is_signature_kind(k: SymbolKind) -> bool {
    k == SymbolKind::Function || k == SymbolKind::Struct || k == SymbolKind::Interface || k
        == SymbolKind::Class
}

/// `Kind name (file:Lstart-Lend)`.
pub open spec fn signature_line(s: Symbol) -> Seq<char> {
    symbol_kind_name(s.kind) + " "@ + s.name@ + " ("@ + s.file_path@ + ":L"@ + decimal(
        s.line_start as nat,
    ) + "-L"@ + decimal(s.line_end as nat) + ")"@
}

pub open spec fn signature_lines(syms: Seq<Symbol>) -> Seq<Seq<char>>
    decreases syms.len(),
{
    if syms.len() == 0 {
        seq![]
    } else if is_signature_kind(syms.last().kind) {
        signature_lines(syms.drop_last()).push(signature_line(syms.last()))
    } else {
        signature_lines(syms.drop_last())
    }
}

pub open spec fn first_twenty(ls: Seq<Seq<char>>) -> Seq<Seq<char>> {
    if ls.len() <= 20 {
        ls
    } else {
        ls.take(20)
    }
}

/// The signatures of the first twenty functions, structs, interfaces and
/// classes, joined and cut to 2000 bytes, when there are any.
pub open spec fn type_block(syms: Seq<Symbol>) -> Seq<char> {
    let ls = first_twenty(signature_lines(syms));
    if ls.len() == 0 {
        seq![]
    } else {
        "\n## Type Context (referenced symbols)\n```\n"@ + byte_prefix(join(ls, "\n"@), 2000)
            + "\n```\n\n"@
    }
}

/// The current file (cut to 6000 bytes) and the edit format, or the new-file
/// format when there is no current content.
pub open spec fn file_block(path: Seq<char>, current: Seq<char>) -> Seq<char> {
    if current.len() == 0 {
        NEW_FILE_FORMAT@
    } else {
        "## Current File Content ("@ + path + ")\n```\n"@ + byte_prefix(current, 6000)
            + "\n```\n\n"@ + SEARCH_REPLACE_FORMAT@
    }
}

pub open spec fn generation_prompt(
    f: Finding,
    current: Seq<char>,
    cross: Seq<(Seq<char>, Seq<char>)>,
    syms: Seq<Symbol>,
) -> Seq<char> {
    finding_block(f) + cross_block(cross) + type_block(syms)
        + "\n## Output Format\nReturn your changes as a JSON object.\n\n"@ + file_block(
        f.file_path@,
        current,
    )
}

fn signature_text(syms: &[Symbol]) -> (r: Vec<Vec<char>>)
    ensures
        views(r@) == first_twenty(signature_lines(syms@)),
{
    let mut out: Vec<Vec<char>> = Vec::new();
    let mut k: usize = 0;
    while k < syms.len()
        invariant
            k <= syms@.len(),
            views(out@) == first_twenty(signature_lines(syms@.take(k as int))),
        decreases syms.len() - k,
    {
        let ghost prev = signature_lines(syms@.take(k as int));
        proof {
            assert(syms@.take(k + 1).drop_last() =~= syms@.take(k as int));
            assert(syms@.take(k + 1).last() == syms@[k as int]);
        }
        let sym = &syms[k];
        let is_sig = match sym.kind {
            SymbolKind::Function | SymbolKind::Struct | SymbolKind::Interface | SymbolKind::Class => true,
            _ => false,
        };
        if is_sig {
            let ghost next = prev.push(signature_line(syms@[k as int]));
            if out.len() < 20 {
                let mut line = chars_of(sym.kind.name());
                crate::text::append_str(&mut line, " ");
                crate::text::append_str(&mut line, sym.name.as_str());
                crate::text::append_str(&mut line, " (");
                crate::text::append_str(&mut line, sym.file_path.as_str());
                crate::text::append_str(&mut line, ":L");
                crate::text::append_chars(&mut line, &decimal_usize(sym.line_start));
                crate::text::append_str(&mut line, "-L");
                crate::text::append_chars(&mut line, &decimal_usize(sym.line_end));
                crate::text::append_str(&mut line, ")");
                proof {
                    assert(views(out@).len() == out@.len());
                    assert(prev.len() == out@.len());
                }
                let ghost o0 = out@;
                out.push(line);
                proof {
                    assert(out@.drop_last() == o0);
                    assert forall|i: int| 0 <= i < out@.len() implies #[trigger] views(out@)[i]
                        == first_twenty(next)[i] by {
                        if i < o0.len() {
                            assert(views(out@)[i] == views(o0)[i]);
                        }
                    }
                    assert(views(out@) =~= first_twenty(next));
                }
            } else {
                proof {
                    assert(first_twenty(next) =~= first_twenty(prev));
                }
            }
        }
        k = k + 1;
    }
    proof {
        assert(syms@.take(k as int) =~= syms@);
    }
    out
}

impl ContributionGenerator {
    /// The system prompt: fixed rules, then the repository's coding style when
    /// known, its full name and its language (`unknown` when none).
    pub fn build_system_prompt(&self, full_name: &str, language: Option<&str>, coding_style: Option<
        &str,
    >) -> (r: String)
        ensures
            r@ == system_prompt(
                full_name@,
                match language {
                    Some(l) => Some(l@),
                    None => None,
                },
                match coding_style {
                    Some(st) => Some(st@),
                    None => None,
                },
            ),
    {
        let mut out = chars_of(SYSTEM_PROMPT_RULES);
        match coding_style {
            Some(st) => {
                crate::text::append_str(&mut out, "\nCODEBASE STYLE:\n");
                crate::text::append_str(&mut out, st);
                crate::text::append_str(&mut out, "\nYou MUST match these conventions exactly.\n");
            },
            None => {},
        }
        crate::text::append_str(&mut out, "\nREPOSITORY: ");
        crate::text::append_str(&mut out, full_name);
        crate::text::append_str(&mut out, "\nLanguage: ");
        match language {
            Some(l) => crate::text::append_str(&mut out, l),
            None => crate::text::append_str(&mut out, "unknown"),
        }
        crate::text::append_str(&mut out, "\n");
        string_from_chars(&out)
    }

    /// The prompt that asks for a fix of `finding`.
    ///
    /// `current_content` is the finding's file as the repository context holds
    /// it (empty when it holds none), `cross_files` the other files that show
    /// the same issue, and `symbols` the context's symbols in the order its
    /// symbol map yields them.
    pub fn build_generation_prompt(
        &self,
        finding: &Finding,
        current_content: &str,
        cross_files: &[(String, String)],
        symbols: &[Symbol],
    ) -> (r: String)
        ensures
            r@ == generation_prompt(*finding, current_content@, pair_views(cross_files@), symbols@),
    {
        let mut out = finding_text(finding);
        let mut cross = cross_text(cross_files);
        let mut types = type_text(symbols);
        let mut fmt = chars_of("\n## Output Format\nReturn your changes as a JSON object.\n\n");
        let mut file = file_text(finding.file_path.as_str(), current_content);
        out.append(&mut cross);
        out.append(&mut types);
        out.append(&mut fmt);
        out.append(&mut file);
        string_from_chars(&out)
    }
}

fn finding_text(finding: &Finding) -> (r: Vec<char>)
    ensures
        r@ == finding_block(*finding),
{
    let mut out = chars_of("## Task\nFix this issue.\n\n## Finding\n- **Title**: ");
    crate::text::append_str(&mut out, finding.title.as_str());
    crate::text::append_str(&mut out, "\n- **Severity**: ");
    crate::text::append_str(&mut out, finding.severity.as_str());
    crate::text::append_str(&mut out, "\n- **File**: ");
    crate::text::append_str(&mut out, finding.file_path.as_str());
    crate::text::append_str(&mut out, "\n- **Description**: ");
    crate::text::append_str(&mut out, finding.description.as_str());
    crate::text::append_str(&mut out, "\n");
    match &finding.suggestion {
        Some(sg) => {
            crate::text::append_str(&mut out, "- **Suggestion**: ");
            crate::text::append_str(&mut out, sg.as_str());
            crate::text::append_str(&mut out, "\n");
        },
        None => {},
    }
    out
}

fn cross_text(cross_files: &[(String, String)]) -> (r: Vec<char>)
    ensures
        r@ == cross_block(pair_views(cross_files@)),
{
    if cross_files.len() == 0 {
        return Vec::new();
    }
    let mut out = chars_of("\n## IMPORTANT: Same issue in ");
    crate::text::append_chars(&mut out, &decimal_usize(cross_files.len()));
    crate::text::append_str(
        &mut out,
        " OTHER file(s)\nFix ALL instances across ALL files in a single contribution.\n\n",
    );
    let ghost cv = pair_views(cross_files@);
    let ghost before = out@;
    let mut k: usize = 0;
    proof {
        assert(cv.take(0) =~= seq![]);
    }
    while k < cross_files.len()
        invariant
            k <= cross_files@.len(),
            cv == pair_views(cross_files@),
            out@ == before + cross_entries(cv.take(k as int)),
        decreases cross_files.len() - k,
    {
        proof {
            assert(cv.take(k + 1).drop_last() =~= cv.take(k as int));
        }
        let mut e = chars_of("### ");
        crate::text::append_str(&mut e, cross_files[k].0.as_str());
        crate::text::append_str(&mut e, "\n```\n");
        let snippet = safe_truncate(cross_files[k].1.as_str(), 3000);
        crate::text::append_str(&mut e, snippet.as_str());
        crate::text::append_str(&mut e, "\n```\n\n");
        proof {
            assert(e@ == cross_entry(cv[k as int]));
        }
        let ghost o0 = out@;
        out.append(&mut e);
        proof {
            assert(out@ =~= before + (cross_entries(cv.take(k as int)) + cross_entry(cv[k as int])));
        }
        k = k + 1;
    }
    proof {
        assert(cv.take(k as int) =~= cv);
    }
    out
}

fn type_text(symbols: &[Symbol]) -> (r: Vec<char>)
    ensures
        r@ == type_block(symbols@),
{
    let sigs = signature_text(symbols);
    proof {
        assert(views(sigs@).len() == sigs@.len());
    }
    if sigs.len() == 0 {
        return Vec::new();
    }
    let joined = join_chars(&sigs, &chars_of("\n"));
    let ctx = safe_truncate(string_from_chars(&joined).as_str(), 2000);
    let mut out = chars_of("\n## Type Context (referenced symbols)\n```\n");
    crate::text::append_str(&mut out, ctx.as_str());
    crate::text::append_str(&mut out, "\n```\n\n");
    out
}

fn file_text(path: &str, current_content: &str) -> (r: Vec<char>)
    ensures
        r@ == file_block(path@, current_content@),
{
    let cur = chars_of(current_content);
    if cur.len() > 0 {
        let mut out = chars_of("## Current File Content (");
        crate::text::append_str(&mut out, path);
        crate::text::append_str(&mut out, ")\n```\n");
        let snippet = safe_truncate(current_content, 6000);
        crate::text::append_str(&mut out, snippet.as_str());
        crate::text::append_str(&mut out, "\n```\n\n");
        crate::text::append_str(&mut out, SEARCH_REPLACE_FORMAT);
        out
    } else {
        chars_of(NEW_FILE_FORMAT)
    }
}

} // verus!
