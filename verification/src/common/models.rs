//! Core data models: contribution kinds, severities, symbols, findings,
//! discovery criteria and patrol bookkeeping.
use vstd::prelude::*;

use crate::text::{chars_eq_str, chars_of};

verus! {

// ── Enums ────────────────────────────────────────────────────────────────────

/// Types of contributions the agent can make.
#[derive(Debug, Clone, Copy, PartialEq, Eq, Structural, Hash)]
pub enum ContributionType {
    SecurityFix,
    FeatureAdd,
    DocsImprove,
    UiUxFix,
    PerformanceOpt,
    Refactor,
    CodeQuality,
}

/// The snake-case display name of a contribution type.
pub open spec fn contribution_type_name(t: ContributionType) -> Seq<char> {
    match t {
        ContributionType::SecurityFix => "security_fix"@,
        ContributionType::FeatureAdd => "feature_add"@,
        ContributionType::DocsImprove => "docs_improve"@,
        ContributionType::UiUxFix => "ui_ux_fix"@,
        ContributionType::PerformanceOpt => "performance_opt"@,
        ContributionType::Refactor => "refactor"@,
        ContributionType::CodeQuality => "code_quality"@,
    }
}

/// The contribution type that an analyzer's findings are filed under.
pub open spec fn analyzer_type(name: Seq<char>) -> ContributionType {
    if name == "security"@ || name == "django_security"@ || name == "flask_security"@ {
        ContributionType::SecurityFix
    } else if name == "performance"@ {
        ContributionType::PerformanceOpt
    } else if name == "docs"@ || name == "documentation"@ {
        ContributionType::DocsImprove
    } else if name == "ui_ux"@ {
        ContributionType::UiUxFix
    } else if name == "refactor"@ {
        ContributionType::Refactor
    } else {
        ContributionType::CodeQuality
    }
}

impl ContributionType {
    /// The snake-case display name (`security_fix`, `code_quality`, ...).
    pub fn as_str(&self) -> (r: &'static str)
        ensures
            r@ == contribution_type_name(*self),
    {
        match self {
            ContributionType::SecurityFix => "security_fix",
            ContributionType::FeatureAdd => "feature_add",
            ContributionType::DocsImprove => "docs_improve",
            ContributionType::UiUxFix => "ui_ux_fix",
            ContributionType::PerformanceOpt => "performance_opt",
            ContributionType::Refactor => "refactor",
            ContributionType::CodeQuality => "code_quality",
        }
    }

    /// Map an analyzer name to its contribution type.
    pub fn from_analyzer(name: &str) -> (r: ContributionType)
        ensures
            r == analyzer_type(name@),
    {
        let n = chars_of(name);
        if chars_eq_str(&n, "security") || chars_eq_str(&n, "django_security") || chars_eq_str(
            &n,
            "flask_security",
        ) {
            ContributionType::SecurityFix
        } else if chars_eq_str(&n, "performance") {
            ContributionType::PerformanceOpt
        } else if chars_eq_str(&n, "docs") || chars_eq_str(&n, "documentation") {
            ContributionType::DocsImprove
        } else if chars_eq_str(&n, "ui_ux") {
            ContributionType::UiUxFix
        } else if chars_eq_str(&n, "refactor") {
            ContributionType::Refactor
        } else {
            ContributionType::CodeQuality
        }
    }
}

/// Severity level for findings, ordered `Low < Medium < High < Critical`.
#[derive(Debug, Clone, Copy, PartialEq, Eq, Structural, PartialOrd, Ord, Hash)]
pub enum Severity {
    Low,
    Medium,
    High,
    Critical,
}

pub open spec fn severity_rank(s: Severity) -> nat {
    match s {
        Severity::Low => 0,
        Severity::Medium => 1,
        Severity::High => 2,
        Severity::Critical => 3,
    }
}

pub open spec fn severity_name(s: Severity) -> Seq<char> {
    match s {
        Severity::Low => "low"@,
        Severity::Medium => "medium"@,
        Severity::High => "high"@,
        Severity::Critical => "critical"@,
    }
}

impl Severity {
    /// Position in the order `Low < Medium < High < Critical`.
    pub fn rank(&self) -> (r: u8)
        ensures
            r == severity_rank(*self),
    {
        match self {
            Severity::Low => 0,
            Severity::Medium => 1,
            Severity::High => 2,
            Severity::Critical => 3,
        }
    }

    /// The lowercase display name (`low`, `medium`, `high`, `critical`).
    pub fn as_str(&self) -> (r: &'static str)
        ensures
            r@ == severity_name(*self),
    {
        match self {
            Severity::Low => "low",
            Severity::Medium => "medium",
            Severity::High => "high",
            Severity::Critical => "critical",
        }
    }
}

/// Status of a submitted pull request.
#[derive(Debug, Clone, Copy, PartialEq, Eq, Structural)]
pub enum PrStatus {
    Pending,
    Open,
    Merged,
    Closed,
    ReviewRequested,
}

impl Default for PrStatus {
    fn default() -> (r: Self)
        ensures
            r == PrStatus::Open,
    {
        PrStatus::Open
    }
}

// ── Repository tree and AST symbols ──────────────────────────────────────────

/// A file or directory in the repo tree.
#[derive(Debug, Clone)]
pub struct FileNode {
    pub path: String,
    /// "blob" or "tree".
    pub node_type: String,
    pub size: i64,
    pub sha: String,
}

/// Kind of code symbol.
#[derive(Debug, Clone, Copy, PartialEq, Eq, Structural)]
pub enum SymbolKind {
    Function,
    Class,
    Method,
    Interface,
    Struct,
    Enum,
    Constant,
    Variable,
    Import,
}

/// The variant name of a symbol kind, as a debug rendering shows it.
pub open spec fn symbol_kind_name(k: SymbolKind) -> Seq<char> {
    match k {
        SymbolKind::Function => "Function"@,
        SymbolKind::Class => "Class"@,
        SymbolKind::Method => "Method"@,
        SymbolKind::Interface => "Interface"@,
        SymbolKind::Struct => "Struct"@,
        SymbolKind::Enum => "Enum"@,
        SymbolKind::Constant => "Constant"@,
        SymbolKind::Variable => "Variable"@,
        SymbolKind::Import => "Import"@,
    }
}

impl SymbolKind {
    /// The variant name (`Function`, `Struct`, ...).
    pub fn name(&self) -> (r: &'static str)
        ensures
            r@ == symbol_kind_name(*self),
    {
        match self {
            SymbolKind::Function => "Function",
            SymbolKind::Class => "Class",
            SymbolKind::Method => "Method",
            SymbolKind::Interface => "Interface",
            SymbolKind::Struct => "Struct",
            SymbolKind::Enum => "Enum",
            SymbolKind::Constant => "Constant",
            SymbolKind::Variable => "Variable",
            SymbolKind::Import => "Import",
        }
    }
}

/// A code symbol extracted from a syntax tree.
#[derive(Debug, Clone)]
pub struct Symbol {
    pub name: String,
    pub kind: SymbolKind,
    pub file_path: String,
    pub line_start: usize,
    pub line_end: usize,
}

// ── Findings and changes ─────────────────────────────────────────────────────

/// An individual issue found during analysis, as the library reads it.
///
/// The analyzer's confidence value is a float and is kept by the application
/// layer; nothing in this library reads it.
#[derive(Debug)]
pub struct Finding {
    pub id: String,
    pub finding_type: ContributionType,
    pub severity: Severity,
    pub title: String,
    pub description: String,
    pub file_path: String,
    pub line_start: Option<usize>,
    pub line_end: Option<usize>,
    pub suggestion: Option<String>,
    pub priority_signals: Vec<String>,
}

/// A copy of an optional string.
pub fn clone_opt_string(o: &Option<String>) -> (r: Option<String>)
    ensures
        r == *o,
{
    match o {
        Some(s) => Some(s.clone()),
        None => None,
    }
}

/// A copy of a list of strings.
pub fn clone_strings(v: &Vec<String>) -> (r: Vec<String>)
    ensures
        r@ == v@,
{
    let mut out: Vec<String> = Vec::new();
    let mut k: usize = 0;
    while k < v.len()
        invariant
            k <= v.len(),
            out@ == v@.take(k as int),
        decreases v.len() - k,
    {
        out.push(v[k].clone());
        proof {
            assert(v@.take(k as int + 1) =~= v@.take(k as int).push(v@[k as int]));
        }
        k = k + 1;
    }
    proof {
        assert(v@.take(v@.len() as int) =~= v@);
    }
    out
}

/// Two findings agree field by field (lists by their contents).
pub open spec fn same_finding(a: Finding, b: Finding) -> bool {
    &&& a.id == b.id
    &&& a.finding_type == b.finding_type
    &&& a.severity == b.severity
    &&& a.title == b.title
    &&& a.description == b.description
    &&& a.file_path == b.file_path
    &&& a.line_start == b.line_start
    &&& a.line_end == b.line_end
    &&& a.suggestion == b.suggestion
    &&& a.priority_signals@ == b.priority_signals@
}

impl Clone for Finding {
    fn clone(&self) -> (r: Self)
        ensures
            same_finding(r, *self),
    {
        Finding {
            id: self.id.clone(),
            finding_type: self.finding_type,
            severity: self.severity,
            title: self.title.clone(),
            description: self.description.clone(),
            file_path: self.file_path.clone(),
            line_start: self.line_start,
            line_end: self.line_end,
            suggestion: clone_opt_string(&self.suggestion),
            priority_signals: clone_strings(&self.priority_signals),
        }
    }
}

/// Aggregated results of a code analysis, as the library reads them.
///
/// The analysed repository's metadata and the time the analysis took (a
/// float) are kept by the application layer beside this value.
#[derive(Debug)]
pub struct AnalysisResult {
    pub findings: Vec<Finding>,
    pub analyzed_files: usize,
    pub skipped_files: usize,
}

/// The findings of one type, in order.
pub open spec fn findings_of_type(fs: Seq<Finding>, t: ContributionType) -> Seq<Finding>
    decreases fs.len(),
{
    if fs.len() == 0 {
        seq![]
    } else if fs.last().finding_type == t {
        findings_of_type(fs.drop_last(), t).push(fs.last())
    } else {
        findings_of_type(fs.drop_last(), t)
    }
}

/// The findings at least as severe as `min`, in order.
pub open spec fn findings_at_least(fs: Seq<Finding>, min: Severity) -> Seq<Finding>
    decreases fs.len(),
{
    if fs.len() == 0 {
        seq![]
    } else if severity_rank(fs.last().severity) >= severity_rank(min) {
        findings_at_least(fs.drop_last(), min).push(fs.last())
    } else {
        findings_at_least(fs.drop_last(), min)
    }
}

/// The findings a list of references points at.
pub open spec fn derefs(v: Seq<&Finding>) -> Seq<Finding> {
    v.map_values(|f: &Finding| *f)
}

impl AnalysisResult {
    /// Filter findings by type.
    pub fn filter_by_type(&self, contrib_type: &ContributionType) -> (r: Vec<&Finding>)
        ensures
            derefs(r@) == findings_of_type(self.findings@, *contrib_type),
    {
        let mut out: Vec<&Finding> = Vec::new();
        let mut k: usize = 0;
        proof {
            assert(derefs(out@) =~= seq![]);
        }
        while k < self.findings.len()
            invariant
                k <= self.findings@.len(),
                derefs(out@) == findings_of_type(self.findings@.take(k as int), *contrib_type),
            decreases self.findings.len() - k,
        {
            proof {
                assert(self.findings@.take(k + 1).drop_last() =~= self.findings@.take(k as int));
            }
            if self.findings[k].finding_type == *contrib_type {
                proof {
                    assert(derefs(out@.push(&self.findings[k as int])) =~= derefs(out@).push(self.findings@[k as int]));
                }
                out.push(&self.findings[k]);
            }
            k = k + 1;
        }
        proof {
            assert(self.findings@.take(k as int) =~= self.findings@);
        }
        out
    }

    /// Filter findings by minimum severity.
    pub fn filter_by_severity(&self, min: Severity) -> (r: Vec<&Finding>)
        ensures
            derefs(r@) == findings_at_least(self.findings@, min),
    {
        let mut out: Vec<&Finding> = Vec::new();
        let mut k: usize = 0;
        proof {
            assert(derefs(out@) =~= seq![]);
        }
        while k < self.findings.len()
            invariant
                k <= self.findings@.len(),
                derefs(out@) == findings_at_least(self.findings@.take(k as int), min),
            decreases self.findings.len() - k,
        {
            proof {
                assert(self.findings@.take(k + 1).drop_last() =~= self.findings@.take(k as int));
            }
            if self.findings[k].severity.rank() >= min.rank() {
                proof {
                    assert(derefs(out@.push(&self.findings[k as int])) =~= derefs(out@).push(self.findings@[k as int]));
                }
                out.push(&self.findings[k]);
            }
            k = k + 1;
        }
        proof {
            assert(self.findings@.take(k as int) =~= self.findings@);
        }
        out
    }
}

/// A single file change in a contribution.
#[derive(Debug)]
pub struct FileChange {
    pub path: String,
    pub original_content: Option<String>,
    pub new_content: String,
    pub is_new_file: bool,
    pub is_deleted: bool,
}

impl Clone for FileChange {
    fn clone(&self) -> (r: Self)
        ensures
            r == *self,
    {
        FileChange {
            path: self.path.clone(),
            original_content: clone_opt_string(&self.original_content),
            new_content: self.new_content.clone(),
            is_new_file: self.is_new_file,
            is_deleted: self.is_deleted,
        }
    }
}

/// A generated contribution ready for submission.
///
/// The time of generation is a clock reading and is kept by the application
/// layer beside this value.
#[derive(Debug)]
pub struct Contribution {
    pub finding: Finding,
    pub contribution_type: ContributionType,
    pub title: String,
    pub description: String,
    pub changes: Vec<FileChange>,
    pub commit_message: String,
    pub tests_added: Vec<FileChange>,
    pub branch_name: String,
}

impl Contribution {
    /// Number of changed files, tests included.
    pub fn total_files_changed(&self) -> (r: usize)
        requires
            self.changes@.len() + self.tests_added@.len() <= usize::MAX,
        ensures
            r == self.changes@.len() + self.tests_added@.len(),
    {
        self.changes.len() + self.tests_added.len()
    }
}

// ── Discovery ────────────────────────────────────────────────────────────────

/// Criteria for discovering repositories.
#[derive(Debug, Clone)]
pub struct DiscoveryCriteria {
    pub languages: Vec<String>,
    pub stars_min: i64,
    pub stars_max: i64,
    pub min_last_activity_days: i64,
    pub require_contributing_guide: bool,
    pub topics: Vec<String>,
    pub max_results: usize,
    pub exclude_repos: Vec<String>,
    /// GitHub search sort order (stars, updated, recently-created).
    pub sort: Option<String>,
    /// GitHub search page number (1-indexed).
    pub page: Option<u32>,
}

pub fn default_branch() -> (r: String)
    ensures
        r@ == "main"@,
{
    String::from_str("main")
}

pub fn default_state() -> (r: String)
    ensures
        r@ == "open"@,
{
    String::from_str("open")
}

pub fn default_languages() -> (r: Vec<String>)
    ensures
        r@.len() == 1,
        r@[0]@ == "python"@,
{
    let mut v = Vec::new();
    v.push(String::from_str("python"));
    v
}

pub fn default_stars_min() -> (r: i64)
    ensures
        r == 50,
{
    50
}

pub fn default_stars_max() -> (r: i64)
    ensures
        r == 10000,
{
    10000
}

pub fn default_min_activity_days() -> (r: i64)
    ensures
        r == 30,
{
    30
}

pub fn default_max_results() -> (r: usize)
    ensures
        r == 20,
{
    20
}

impl Default for DiscoveryCriteria {
    fn default() -> (r: Self)
        ensures
            r.languages@.len() == 1,
            r.languages@[0]@ == "python"@,
            r.stars_min == 50,
            r.stars_max == 10000,
            r.min_last_activity_days == 30,
            !r.require_contributing_guide,
            r.topics@.len() == 0,
            r.max_results == 20,
            r.exclude_repos@.len() == 0,
            r.sort is None,
            r.page is None,
    {
        DiscoveryCriteria {
            languages: default_languages(),
            stars_min: default_stars_min(),
            stars_max: default_stars_max(),
            min_last_activity_days: default_min_activity_days(),
            require_contributing_guide: false,
            topics: Vec::new(),
            max_results: default_max_results(),
            exclude_repos: Vec::new(),
            sort: None,
            page: None,
        }
    }
}

// ── Triage and patrol models ─────────────────────────────────────────────────

/// Fix complexity estimate.
#[derive(Debug, Clone, Copy, PartialEq, Eq, Structural)]
pub enum FixComplexity {
    Low,
    Medium,
    High,
    Critical,
}

/// A scoring signal with its weight.
#[derive(Debug, Clone)]
pub struct ScoringSignal {
    pub name: String,
    pub weight: i32,
    pub reason: String,
}

/// What action to take for a review comment.
#[derive(Debug, Clone, Copy, PartialEq, Eq, Structural)]
pub enum FeedbackAction {
    CodeChange,
    Question,
    StyleFix,
    Approve,
    Reject,
    AlreadyHandled,
}

/// A classified review comment requiring action.
#[derive(Debug)]
pub struct FeedbackItem {
    pub comment_id: i64,
    pub author: String,
    pub body: String,
    pub action: FeedbackAction,
    pub file_path: Option<String>,
    pub line: Option<i64>,
    pub diff_hunk: Option<String>,
    pub is_inline: bool,
    pub bot_context: Option<String>,
}

impl Clone for FeedbackItem {
    fn clone(&self) -> (r: Self)
        ensures
            r == *self,
    {
        FeedbackItem {
            comment_id: self.comment_id,
            author: self.author.clone(),
            body: self.body.clone(),
            action: self.action,
            file_path: match &self.file_path {
                Some(s) => Some(s.clone()),
                None => None,
            },
            line: self.line,
            diff_hunk: match &self.diff_hunk {
                Some(s) => Some(s.clone()),
                None => None,
            },
            is_inline: self.is_inline,
            bot_context: match &self.bot_context {
                Some(s) => Some(s.clone()),
                None => None,
            },
        }
    }
}

/// Result of a patrol run.
#[derive(Debug, Clone)]
pub struct PatrolResult {
    pub prs_checked: usize,
    pub fixes_pushed: usize,
    pub replies_sent: usize,
    pub cla_signed: usize,
    pub prs_skipped: usize,
    pub issues_found: usize,
    /// Closed PRs where rejection learnings were stored.
    pub prs_learned: usize,
    pub errors: Vec<String>,
}

impl Default for PatrolResult {
    fn default() -> (r: Self)
        ensures
            r.prs_checked == 0 && r.fixes_pushed == 0 && r.replies_sent == 0 && r.cla_signed == 0
                && r.prs_skipped == 0 && r.issues_found == 0 && r.prs_learned == 0,
            r.errors@.len() == 0,
    {
        PatrolResult {
            prs_checked: 0,
            fixes_pushed: 0,
            replies_sent: 0,
            cla_signed: 0,
            prs_skipped: 0,
            issues_found: 0,
            prs_learned: 0,
            errors: Vec::new(),
        }
    }
}

} // verus!
