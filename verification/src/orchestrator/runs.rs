//! The pipeline's runs as state machines: one repository taken from
//! analysis to a pull request, and hunt mode's rounds of discovery.
//!
//! Each machine is a step function from a state and an event (what the
//! last action gave back from GitHub, the analyzer, the LLM or the history)
//! to the next state and the next action; the application performs the
//! actions and feeds the results back until the action is `Finish`.
use vstd::prelude::*;

use crate::orchestrator::steps::remaining_pr_budget;

verus! {

/// `a + b`, or `usize::MAX` when that does not fit.
pub open spec fn sat_add(a: usize, b: usize) -> usize {
    if a + b <= usize::MAX {
        (a + b) as usize
    } else {
        usize::MAX
    }
}

fn sat_add_exec(a: usize, b: usize) -> (r: usize)
    ensures
        r == sat_add(a, b),
{
    if a <= usize::MAX - b {
        a + b
    } else {
        usize::MAX
    }
}

/// `a - b`, or zero when `b` is larger.
pub open spec fn sat_sub(a: usize, b: usize) -> usize {
    if a >= b {
        (a - b) as usize
    } else {
        0
    }
}

/// Counts a run reports: repositories analyzed, findings, contributions
/// generated (files in the merged PR), PRs created, and errors.
#[derive(Debug, Clone, Copy, PartialEq, Eq, Structural)]
pub struct RunCounts {
    pub repos_analyzed: usize,
    pub findings_total: usize,
    pub contributions_generated: usize,
    pub prs_created: usize,
    pub errors: usize,
}

pub open spec fn zero_counts() -> RunCounts {
    RunCounts { repos_analyzed: 0, findings_total: 0, contributions_generated: 0, prs_created: 0, errors: 0 }
}

// ── One repository ───────────────────────────────────────────────────────────

/// Where a repository's run stands. Indexed phases name the finding (of the
/// at most two selected) being worked on.
#[derive(Debug, Clone, Copy, PartialEq, Eq, Structural)]
pub enum RepoPhase {
    Loading,
    Analyzing,
    Filtering,
    Building,
    Generating(usize),
    Quality(usize),
    Risk(usize),
    Docs(usize),
    Verifying(usize),
    Keeping(usize),
    OpenPrCheck,
    Merging,
    Creating,
    Done,
    Failed,
}

/// What a repository's run does next.
#[derive(Debug, Clone, Copy, PartialEq, Eq, Structural)]
pub enum RepoAction {
    /// Load the cached context, the repository's guidelines and the titles
    /// of past PRs (from the history and from GitHub).
    LoadContext,
    /// Analyze the repository and record the analysis.
    Analyze,
    /// Filter the findings against the past titles and the dream profile's
    /// rejected types; report how many are left.
    FilterFindings,
    /// Fetch the file tree and the files of the selected findings.
    BuildContext,
    /// Generate a contribution for the selected finding.
    Generate { finding: usize },
    /// Score the contribution against the quality gate.
    CheckQuality { finding: usize },
    /// Classify the contribution's risk against the configured tolerance.
    CheckRisk { finding: usize },
    /// Ask whether the repository's preferences accept a docs PR.
    CheckDocs { finding: usize },
    /// Ask the LLM whether the finding is a real bug.
    VerifyBug { finding: usize },
    /// Keep the contribution for the merged PR.
    Keep { finding: usize },
    /// Ask whether an open PR to the repository is already recorded.
    CheckOpenPr,
    /// Merge the kept contributions into one multi-file contribution.
    Merge,
    /// Create the PR and record it and its outcome.
    CreatePr,
    /// The run is over with these counts.
    Finish { counts: RunCounts },
    /// The analysis failed: the run ends with an error.
    Fail,
}

/// What a contribution generation gave back.
#[derive(Debug, Clone, Copy, PartialEq, Eq, Structural)]
pub enum Generation {
    /// A contribution; `docs` when it is a documentation improvement.
    Made { docs: bool },
    /// No contribution for this finding.
    Nothing,
    /// The generator failed.
    Failed,
}

/// What an action gave back.
#[derive(Debug, Clone, Copy, PartialEq, Eq, Structural)]
pub enum RepoEvent {
    ContextLoaded,
    /// The number of findings, or `None` when the analysis failed.
    Analyzed(Option<usize>),
    /// The number of findings left after filtering.
    Filtered(usize),
    ContextBuilt,
    Generated(Generation),
    QualityChecked { passed: bool },
    RiskChecked { within_tolerance: bool },
    DocsChecked { accepted: bool },
    BugChecked { genuine: bool },
    Kept,
    /// Whether an open PR to the repository is recorded (`None` when the
    /// history could not be read).
    OpenPrChecked(Option<bool>),
    /// The number of files in the merged contribution.
    Merged(usize),
    PrCreated { ok: bool },
}

/// The state of one repository's run, with the pipeline settings it obeys.
#[derive(Debug, Clone, Copy, PartialEq, Eq, Structural)]
pub struct RepoRunState {
    pub phase: RepoPhase,
    pub dry_run: bool,
    pub approve_high_risk: bool,
    pub skip_docs_prs: bool,
    pub require_bug_verification: bool,
    pub skip_repos_with_open_pr: bool,
    /// How many findings are worked on (at most two).
    pub selected: usize,
    /// Whether the contribution under the gates is a docs improvement.
    pub docs: bool,
    /// How many contributions passed every gate.
    pub kept: usize,
    pub counts: RunCounts,
}

impl View for RepoRunState {
    type V = RepoRunState;

    open spec fn view(&self) -> RepoRunState {
        *self
    }
}

impl RepoRunState {
    /// The index of the finding an indexed phase works on.
    pub open spec fn finding_of(self) -> Option<usize> {
        match self.phase {
            RepoPhase::Generating(i) => Some(i),
            RepoPhase::Quality(i) => Some(i),
            RepoPhase::Risk(i) => Some(i),
            RepoPhase::Docs(i) => Some(i),
            RepoPhase::Verifying(i) => Some(i),
            RepoPhase::Keeping(i) => Some(i),
            _ => None,
        }
    }

    /// At most two findings are selected, an indexed phase names one of
    /// them, no more contributions are kept than findings were worked on, and
    /// each finding and the PR add at most one error.
    pub open spec fn wf(self) -> bool {
        &&& self.selected <= 2
        &&& self.kept <= self.selected
        &&& self.counts.errors <= 3
        &&& (self.finding_of() matches Some(i) ==> i < self.selected && self.kept <= i
            && self.counts.errors <= i)
        &&& (self.phase is Building ==> self.selected >= 1)
        &&& (self.phase is Loading || self.phase is Analyzing || self.phase is Filtering
            || self.phase is Building ==> self.kept == 0 && self.counts.errors == 0)
        &&& (self.phase is OpenPrCheck || self.phase is Merging || self.phase is Creating
            ==> self.counts.errors <= 2 && self.kept >= 1)
        &&& (self.phase is Creating ==> !self.dry_run)
    }

    /// A new run with the pipeline's settings.
    pub fn new(
        dry_run: bool,
        approve_high_risk: bool,
        skip_docs_prs: bool,
        require_bug_verification: bool,
        skip_repos_with_open_pr: bool,
    ) -> (r: Self)
        ensures
            r.wf(),
            r == (RepoRunState {
                phase: RepoPhase::Loading,
                dry_run,
                approve_high_risk,
                skip_docs_prs,
                require_bug_verification,
                skip_repos_with_open_pr,
                selected: 0,
                docs: false,
                kept: 0,
                counts: zero_counts(),
            }),
    {
        RepoRunState {
            phase: RepoPhase::Loading,
            dry_run,
            approve_high_risk,
            skip_docs_prs,
            require_bug_verification,
            skip_repos_with_open_pr,
            selected: 0,
            docs: false,
            kept: 0,
            counts: RunCounts {
                repos_analyzed: 0,
                findings_total: 0,
                contributions_generated: 0,
                prs_created: 0,
                errors: 0,
            },
        }
    }
}

/// The action a state asks for.
pub open spec fn repo_pending(s: RepoRunState) -> RepoAction {
    match s.phase {
        RepoPhase::Loading => RepoAction::LoadContext,
        RepoPhase::Analyzing => RepoAction::Analyze,
        RepoPhase::Filtering => RepoAction::FilterFindings,
        RepoPhase::Building => RepoAction::BuildContext,
        RepoPhase::Generating(i) => RepoAction::Generate { finding: i },
        RepoPhase::Quality(i) => RepoAction::CheckQuality { finding: i },
        RepoPhase::Risk(i) => RepoAction::CheckRisk { finding: i },
        RepoPhase::Docs(i) => RepoAction::CheckDocs { finding: i },
        RepoPhase::Verifying(i) => RepoAction::VerifyBug { finding: i },
        RepoPhase::Keeping(i) => RepoAction::Keep { finding: i },
        RepoPhase::OpenPrCheck => RepoAction::CheckOpenPr,
        RepoPhase::Merging => RepoAction::Merge,
        RepoPhase::Creating => RepoAction::CreatePr,
        RepoPhase::Done => RepoAction::Finish { counts: s.counts },
        RepoPhase::Failed => RepoAction::Fail,
    }
}

/// After finding `i`: the next finding, or, when none is left, the
/// repository counts as analyzed and the kept contributions go on (to the
/// open-PR check when it is configured, else to merging); with none kept the
/// run is over.
pub open spec fn after_finding(s: RepoRunState, i: usize) -> RepoRunState {
    if i + 1 < s.selected {
        RepoRunState { phase: RepoPhase::Generating((i + 1) as usize), ..s }
    } else {
        let c = RunCounts { repos_analyzed: 1, ..s.counts };
        let phase = if s.kept == 0 {
            RepoPhase::Done
        } else if s.skip_repos_with_open_pr {
            RepoPhase::OpenPrCheck
        } else {
            RepoPhase::Merging
        };
        RepoRunState { phase, counts: c, ..s }
    }
}

/// The gates after the quality gate, from the one after `from`: the risk
/// tolerance (unless high risk is approved), docs suppression (for a docs
/// contribution when configured) and bug verification (when configured);
/// a contribution that passes all of them is kept.
pub open spec fn gate_after_risk(s: RepoRunState, i: usize) -> RepoRunState {
    if s.skip_docs_prs && s.docs {
        RepoRunState { phase: RepoPhase::Docs(i), ..s }
    } else {
        gate_after_docs(s, i)
    }
}

pub open spec fn gate_after_docs(s: RepoRunState, i: usize) -> RepoRunState {
    if s.require_bug_verification {
        RepoRunState { phase: RepoPhase::Verifying(i), ..s }
    } else {
        RepoRunState { phase: RepoPhase::Keeping(i), ..s }
    }
}

/// How an event moves a repository's run. An event that does not answer
/// the pending action leaves the state as it is.
pub open spec fn repo_advance(s: RepoRunState, e: RepoEvent) -> RepoRunState {
    match (s.phase, e) {
        (RepoPhase::Loading, RepoEvent::ContextLoaded) => RepoRunState { phase: RepoPhase::Analyzing, ..s },
        (RepoPhase::Analyzing, RepoEvent::Analyzed(None)) => RepoRunState { phase: RepoPhase::Failed, ..s },
        (RepoPhase::Analyzing, RepoEvent::Analyzed(Some(n))) => {
            let c = RunCounts { findings_total: n, ..s.counts };
            if n == 0 {
                RepoRunState { phase: RepoPhase::Done, counts: c, ..s }
            } else {
                RepoRunState { phase: RepoPhase::Filtering, counts: c, ..s }
            }
        },
        (RepoPhase::Filtering, RepoEvent::Filtered(k)) => {
            if k == 0 {
                RepoRunState { phase: RepoPhase::Done, ..s }
            } else {
                let sel: usize = if k < 2 {
                    k
                } else {
                    2
                };
                RepoRunState { phase: RepoPhase::Building, selected: sel, ..s }
            }
        },
        (RepoPhase::Building, RepoEvent::ContextBuilt) => RepoRunState {
            phase: RepoPhase::Generating(0),
            ..s
        },
        (RepoPhase::Generating(i), RepoEvent::Generated(g)) => match g {
            Generation::Made { docs } => RepoRunState { phase: RepoPhase::Quality(i), docs, ..s },
            Generation::Nothing => after_finding(s, i),
            Generation::Failed => after_finding(
                RepoRunState { counts: RunCounts { errors: (s.counts.errors + 1) as usize, ..s.counts }, ..s },
                i,
            ),
        },
        (RepoPhase::Quality(i), RepoEvent::QualityChecked { passed }) => {
            if passed {
                RepoRunState { phase: RepoPhase::Risk(i), ..s }
            } else {
                after_finding(s, i)
            }
        },
        (RepoPhase::Risk(i), RepoEvent::RiskChecked { within_tolerance }) => {
            if within_tolerance || s.approve_high_risk {
                gate_after_risk(s, i)
            } else {
                after_finding(s, i)
            }
        },
        (RepoPhase::Docs(i), RepoEvent::DocsChecked { accepted }) => {
            if accepted {
                gate_after_docs(s, i)
            } else {
                after_finding(s, i)
            }
        },
        (RepoPhase::Verifying(i), RepoEvent::BugChecked { genuine }) => {
            if genuine {
                RepoRunState { phase: RepoPhase::Keeping(i), ..s }
            } else {
                after_finding(s, i)
            }
        },
        (RepoPhase::Keeping(i), RepoEvent::Kept) => after_finding(
            RepoRunState { kept: (s.kept + 1) as usize, ..s },
            i,
        ),
        (RepoPhase::OpenPrCheck, RepoEvent::OpenPrChecked(open)) => {
            if open == Some(true) {
                RepoRunState { phase: RepoPhase::Done, ..s }
            } else {
                RepoRunState { phase: RepoPhase::Merging, ..s }
            }
        },
        (RepoPhase::Merging, RepoEvent::Merged(files)) => {
            let c = RunCounts { contributions_generated: files, ..s.counts };
            if s.dry_run {
                RepoRunState { phase: RepoPhase::Done, counts: c, ..s }
            } else {
                RepoRunState { phase: RepoPhase::Creating, counts: c, ..s }
            }
        },
        (RepoPhase::Creating, RepoEvent::PrCreated { ok }) => {
            let c = if ok {
                RunCounts { prs_created: 1, ..s.counts }
            } else {
                RunCounts { errors: (s.counts.errors + 1) as usize, ..s.counts }
            };
            RepoRunState { phase: RepoPhase::Done, counts: c, ..s }
        },
        _ => s,
    }
}

/// The next state and the action it asks for.
pub open spec fn repo_next(s: RepoRunState, e: RepoEvent) -> (RepoRunState, RepoAction) {
    let t = repo_advance(s, e);
    (t, repo_pending(t))
}

pub open spec fn repo_action_view(a: RepoAction) -> RepoAction {
    a
}

pub open spec fn repo_event_view(e: RepoEvent) -> RepoEvent {
    e
}

fn pending_exec(s: &RepoRunState) -> (a: RepoAction)
    ensures
        a == repo_pending(*s),
{
    match s.phase {
        RepoPhase::Loading => RepoAction::LoadContext,
        RepoPhase::Analyzing => RepoAction::Analyze,
        RepoPhase::Filtering => RepoAction::FilterFindings,
        RepoPhase::Building => RepoAction::BuildContext,
        RepoPhase::Generating(i) => RepoAction::Generate { finding: i },
        RepoPhase::Quality(i) => RepoAction::CheckQuality { finding: i },
        RepoPhase::Risk(i) => RepoAction::CheckRisk { finding: i },
        RepoPhase::Docs(i) => RepoAction::CheckDocs { finding: i },
        RepoPhase::Verifying(i) => RepoAction::VerifyBug { finding: i },
        RepoPhase::Keeping(i) => RepoAction::Keep { finding: i },
        RepoPhase::OpenPrCheck => RepoAction::CheckOpenPr,
        RepoPhase::Merging => RepoAction::Merge,
        RepoPhase::Creating => RepoAction::CreatePr,
        RepoPhase::Done => RepoAction::Finish { counts: s.counts },
        RepoPhase::Failed => RepoAction::Fail,
    }
}

fn after_finding_exec(s: RepoRunState, i: usize) -> (r: RepoRunState)
    requires
        s.selected <= 2,
        i < s.selected,
        s.kept <= i + 1,
        s.kept <= s.selected,
        s.counts.errors <= i + 1,
    ensures
        r == after_finding(s, i),
        r.wf(),
{
    if i + 1 < s.selected {
        RepoRunState { phase: RepoPhase::Generating(i + 1), ..s }
    } else {
        let c = RunCounts { repos_analyzed: 1, ..s.counts };
        let phase = if s.kept == 0 {
            RepoPhase::Done
        } else if s.skip_repos_with_open_pr {
            RepoPhase::OpenPrCheck
        } else {
            RepoPhase::Merging
        };
        RepoRunState { phase, counts: c, ..s }
    }
}

/// One step of a repository's run: the state an event leads to and the
/// action that state asks for.
pub fn repo_run_step(state: &RepoRunState, event: RepoEvent) -> (r: (RepoRunState, RepoAction))
    requires
        state.wf(),
    ensures
        r.0.wf(),
        (r.0@, repo_action_view(r.1)) == repo_next(state@, repo_event_view(event)),
{
    let s = *state;
    let t = match (s.phase, event) {
        (RepoPhase::Loading, RepoEvent::ContextLoaded) => RepoRunState { phase: RepoPhase::Analyzing, ..s },
        (RepoPhase::Analyzing, RepoEvent::Analyzed(None)) => RepoRunState { phase: RepoPhase::Failed, ..s },
        (RepoPhase::Analyzing, RepoEvent::Analyzed(Some(n))) => {
            let c = RunCounts { findings_total: n, ..s.counts };
            if n == 0 {
                RepoRunState { phase: RepoPhase::Done, counts: c, ..s }
            } else {
                RepoRunState { phase: RepoPhase::Filtering, counts: c, ..s }
            }
        },
        (RepoPhase::Filtering, RepoEvent::Filtered(k)) => {
            if k == 0 {
                RepoRunState { phase: RepoPhase::Done, ..s }
            } else {
                let sel: usize = if k < 2 {
                    k
                } else {
                    2
                };
                RepoRunState { phase: RepoPhase::Building, selected: sel, ..s }
            }
        },
        (RepoPhase::Building, RepoEvent::ContextBuilt) => RepoRunState {
            phase: RepoPhase::Generating(0),
            ..s
        },
        (RepoPhase::Generating(i), RepoEvent::Generated(g)) => match g {
            Generation::Made { docs } => RepoRunState { phase: RepoPhase::Quality(i), docs, ..s },
            Generation::Nothing => after_finding_exec(s, i),
            Generation::Failed => after_finding_exec(
                RepoRunState { counts: RunCounts { errors: s.counts.errors + 1, ..s.counts }, ..s },
                i,
            ),
        },
        (RepoPhase::Quality(i), RepoEvent::QualityChecked { passed }) => {
            if passed {
                RepoRunState { phase: RepoPhase::Risk(i), ..s }
            } else {
                after_finding_exec(s, i)
            }
        },
        (RepoPhase::Risk(i), RepoEvent::RiskChecked { within_tolerance }) => {
            if within_tolerance || s.approve_high_risk {
                if s.skip_docs_prs && s.docs {
                    RepoRunState { phase: RepoPhase::Docs(i), ..s }
                } else if s.require_bug_verification {
                    RepoRunState { phase: RepoPhase::Verifying(i), ..s }
                } else {
                    RepoRunState { phase: RepoPhase::Keeping(i), ..s }
                }
            } else {
                after_finding_exec(s, i)
            }
        },
        (RepoPhase::Docs(i), RepoEvent::DocsChecked { accepted }) => {
            if accepted {
                if s.require_bug_verification {
                    RepoRunState { phase: RepoPhase::Verifying(i), ..s }
                } else {
                    RepoRunState { phase: RepoPhase::Keeping(i), ..s }
                }
            } else {
                after_finding_exec(s, i)
            }
        },
        (RepoPhase::Verifying(i), RepoEvent::BugChecked { genuine }) => {
            if genuine {
                RepoRunState { phase: RepoPhase::Keeping(i), ..s }
            } else {
                after_finding_exec(s, i)
            }
        },
        (RepoPhase::Keeping(i), RepoEvent::Kept) => after_finding_exec(
            RepoRunState { kept: s.kept + 1, ..s },
            i,
        ),
        (RepoPhase::OpenPrCheck, RepoEvent::OpenPrChecked(open)) => {
            if open == Some(true) {
                RepoRunState { phase: RepoPhase::Done, ..s }
            } else {
                RepoRunState { phase: RepoPhase::Merging, ..s }
            }
        },
        (RepoPhase::Merging, RepoEvent::Merged(files)) => {
            let c = RunCounts { contributions_generated: files, ..s.counts };
            if s.dry_run {
                RepoRunState { phase: RepoPhase::Done, counts: c, ..s }
            } else {
                RepoRunState { phase: RepoPhase::Creating, counts: c, ..s }
            }
        },
        (RepoPhase::Creating, RepoEvent::PrCreated { ok }) => {
            let c = if ok {
                RunCounts { prs_created: 1, ..s.counts }
            } else {
                RunCounts { errors: s.counts.errors + 1, ..s.counts }
            };
            RepoRunState { phase: RepoPhase::Done, counts: c, ..s }
        },
        _ => s,
    };
    let a = pending_exec(&t);
    (t, a)
}

// ── Hunt mode ────────────────────────────────────────────────────────────────

/// What a hunt runs on each repository: the analysis pipeline, the issue
/// solver, or both.
#[derive(Debug, Clone, Copy, PartialEq, Eq, Structural)]
pub enum HuntMode {
    Analysis,
    Issues,
    Both,
}

/// Where a hunt stands. `Vetting(k)` checks the `k`-th discovered
/// repository; the other indexed phases work on the `t`-th target.
#[derive(Debug, Clone, Copy, PartialEq, Eq, Structural)]
pub enum HuntPhase {
    RoundStart,
    Discovering,
    Vetting(usize),
    Middleware(usize),
    Repo(usize),
    Pausing(usize),
    IssueHunt,
    Resting,
    Dreaming,
    Done,
}

/// What a hunt does next.
#[derive(Debug, Clone, Copy, PartialEq, Eq, Structural)]
pub enum HuntAction {
    /// Count the PRs created today.
    CountTodayPrs,
    /// Discover repositories with the round's criteria
    /// (`hunt_round_criteria`).
    Discover { round: u32 },
    /// Check a discovered repository: analyzed before, and how many of its
    /// last ten closed PRs were merged.
    Vet { candidate: usize },
    /// Run the middleware checks for a target.
    RunMiddleware { candidate: usize, remaining: usize },
    /// Process a target (analysis, issues or both, as the mode says) with
    /// the remaining PR budget.
    ProcessRepo { candidate: usize, mode: HuntMode, remaining: usize },
    /// Wait this many seconds.
    Wait { secs: u64 },
    /// Hunt open issues globally for the round's languages (three at most).
    HuntIssues { round: u32 },
    /// Run dream consolidation if its gates are met.
    Dream,
    /// The hunt is over with these totals.
    Finish { totals: RunCounts },
}

/// What an action gave back.
#[derive(Debug, Clone, Copy, PartialEq, Eq, Structural)]
pub enum HuntEvent {
    TodayCount(usize),
    /// How many repositories were discovered (`None` when discovery failed).
    Discovered(Option<usize>),
    /// Whether the repository was analyzed before, and how many of its
    /// closed PRs were merged (`None` when they could not be listed).
    Vetted { analyzed_before: bool, merged: Option<usize> },
    /// The middleware's verdict.
    MiddlewareChecked { failed: bool, skip: bool, rate_limited: bool },
    /// What processing a target gave.
    RepoDone(RunCounts),
    /// What the issue hunt gave (`None` when it failed).
    IssuesDone(Option<RunCounts>),
    Waited,
    Dreamt,
}

/// The repositories of a round that are vetted: the first five discovered.
pub open spec fn vet_count(found: usize) -> usize {
    if found < 5 {
        found
    } else {
        5
    }
}

/// A hunt's state: its settings, the round, the round's PR budget, the
/// vetted targets (indices among the discovered repositories), and the
/// totals so far.
#[derive(Debug, Clone)]
pub struct HuntState {
    pub rounds: u32,
    pub delay_secs: u64,
    pub dry_run: bool,
    pub mode: HuntMode,
    pub max_prs_per_day: u32,
    pub max_targets: usize,
    pub round: u32,
    pub remaining: usize,
    pub candidates: usize,
    pub targets: Vec<usize>,
    pub selected: usize,
    pub phase: HuntPhase,
    pub totals: RunCounts,
}

/// The hunt state with its targets as a sequence.
pub struct HuntView {
    pub rounds: u32,
    pub delay_secs: u64,
    pub dry_run: bool,
    pub mode: HuntMode,
    pub max_prs_per_day: u32,
    pub max_targets: usize,
    pub round: u32,
    pub remaining: usize,
    pub candidates: usize,
    pub targets: Seq<usize>,
    pub selected: usize,
    pub phase: HuntPhase,
    pub totals: RunCounts,
}

impl View for HuntState {
    type V = HuntView;

    open spec fn view(&self) -> HuntView {
        HuntView {
            rounds: self.rounds,
            delay_secs: self.delay_secs,
            dry_run: self.dry_run,
            mode: self.mode,
            max_prs_per_day: self.max_prs_per_day,
            max_targets: self.max_targets,
            round: self.round,
            remaining: self.remaining,
            candidates: self.candidates,
            targets: self.targets@,
            selected: self.selected,
            phase: self.phase,
            totals: self.totals,
        }
    }
}

impl HuntView {
    /// The round is in range while the hunt is in a round, targets are
    /// distinct vetted repositories in discovery order, and indexed phases
    /// name a vetted repository or a selected target.
    pub open spec fn wf(self) -> bool {
        &&& (!(self.phase is Dreaming || self.phase is Done) ==> 1 <= self.round <= self.rounds)
        &&& self.candidates <= 5
        &&& self.selected <= self.targets.len()
        &&& forall|a: int| 0 <= a < self.targets.len() ==> #[trigger] self.targets[a] < self.candidates
        &&& (self.phase matches HuntPhase::Vetting(k) ==> k < self.candidates && self.targets.len() <= k
            && forall|a: int| 0 <= a < self.targets.len() ==> #[trigger] self.targets[a] < k)
        &&& (self.phase matches HuntPhase::Middleware(t) ==> t < self.selected && (self.remaining > 0
            || self.dry_run))
        &&& (self.phase matches HuntPhase::Repo(t) ==> t < self.selected && (self.remaining > 0
            || self.dry_run))
        &&& (self.phase matches HuntPhase::Pausing(t) ==> t + 1 < self.selected)
        &&& (self.phase is Resting ==> self.round < self.rounds)
    }
}

impl HuntState {
    pub open spec fn wf(&self) -> bool {
        self@.wf()
    }

    /// A hunt of `rounds` rounds (straight to dream consolidation when there
    /// are none).
    pub fn new(
        rounds: u32,
        delay_secs: u64,
        dry_run: bool,
        mode: HuntMode,
        max_prs_per_day: u32,
        max_targets: usize,
    ) -> (r: Self)
        ensures
            r.wf(),
            r@ == (HuntView {
                rounds,
                delay_secs,
                dry_run,
                mode,
                max_prs_per_day,
                max_targets,
                round: 1,
                remaining: 0,
                candidates: 0,
                targets: seq![],
                selected: 0,
                phase: if rounds == 0 {
                    HuntPhase::Dreaming
                } else {
                    HuntPhase::RoundStart
                },
                totals: zero_counts(),
            }),
    {
        let r = HuntState {
            rounds,
            delay_secs,
            dry_run,
            mode,
            max_prs_per_day,
            max_targets,
            round: 1,
            remaining: 0,
            candidates: 0,
            targets: Vec::new(),
            selected: 0,
            phase: if rounds == 0 {
                HuntPhase::Dreaming
            } else {
                HuntPhase::RoundStart
            },
            totals: RunCounts {
                repos_analyzed: 0,
                findings_total: 0,
                contributions_generated: 0,
                prs_created: 0,
                errors: 0,
            },
        };
        proof {
            assert(r@.targets =~= seq![]);
        }
        r
    }
}

/// The action a hunt state asks for.
pub open spec fn hunt_pending(s: HuntView) -> HuntAction {
    match s.phase {
        HuntPhase::RoundStart => HuntAction::CountTodayPrs,
        HuntPhase::Discovering => HuntAction::Discover { round: s.round },
        HuntPhase::Vetting(k) => HuntAction::Vet { candidate: k },
        HuntPhase::Middleware(t) => HuntAction::RunMiddleware { candidate: s.targets[t as int], remaining: s.remaining },
        HuntPhase::Repo(t) => HuntAction::ProcessRepo { candidate: s.targets[t as int], mode: s.mode, remaining: s.remaining },
        HuntPhase::Pausing(_) => HuntAction::Wait { secs: 5 },
        HuntPhase::IssueHunt => HuntAction::HuntIssues { round: s.round },
        HuntPhase::Resting => HuntAction::Wait { secs: s.delay_secs },
        HuntPhase::Dreaming => HuntAction::Dream,
        HuntPhase::Done => HuntAction::Finish { totals: s.totals },
    }
}

/// The end of a round: a rest before the next round, or, after the last,
/// dream consolidation.
pub open spec fn end_round(s: HuntView) -> HuntView {
    if s.round < s.rounds {
        HuntView { phase: HuntPhase::Resting, ..s }
    } else {
        HuntView { phase: HuntPhase::Dreaming, ..s }
    }
}

/// After the targets: the issue hunt on odd rounds when the mode includes
/// issues, else the end of the round.
pub open spec fn after_targets(s: HuntView) -> HuntView {
    if s.mode != HuntMode::Analysis && s.round % 2 == 1 {
        HuntView { phase: HuntPhase::IssueHunt, ..s }
    } else {
        end_round(s)
    }
}

/// Target `t`, unless the selected targets are done or (outside a dry run)
/// the PR budget is spent.
pub open spec fn enter_target(s: HuntView, t: usize) -> HuntView {
    if t < s.selected && !(s.remaining == 0 && !s.dry_run) {
        HuntView { phase: HuntPhase::Middleware(t), ..s }
    } else {
        after_targets(s)
    }
}

/// After vetting candidate `k`: the next candidate, else the selected
/// targets (at most `max_targets`) or, when there are none, the end of the
/// round.
pub open spec fn after_vetting(s: HuntView, k: usize) -> HuntView {
    if k + 1 < s.candidates {
        HuntView { phase: HuntPhase::Vetting((k + 1) as usize), ..s }
    } else if s.targets.len() == 0 {
        end_round(s)
    } else {
        let sel: usize = if s.targets.len() < s.max_targets {
            s.targets.len() as usize
        } else {
            s.max_targets
        };
        enter_target(HuntView { selected: sel, ..s }, 0)
    }
}

pub open spec fn add_counts(a: RunCounts, b: RunCounts) -> RunCounts {
    RunCounts {
        repos_analyzed: sat_add(a.repos_analyzed, b.repos_analyzed),
        findings_total: sat_add(a.findings_total, b.findings_total),
        contributions_generated: sat_add(a.contributions_generated, b.contributions_generated),
        prs_created: sat_add(a.prs_created, b.prs_created),
        errors: sat_add(a.errors, b.errors),
    }
}

/// How an event moves a hunt. An event that does not answer the pending
/// action leaves the state as it is.
pub open spec fn hunt_advance(s: HuntView, e: HuntEvent) -> HuntView {
    match (s.phase, e) {
        (HuntPhase::RoundStart, HuntEvent::TodayCount(today)) => {
            let rem: usize = if today >= s.max_prs_per_day {
                0
            } else {
                (s.max_prs_per_day - today) as usize
            };
            if rem == 0 && !s.dry_run {
                HuntView { phase: HuntPhase::Dreaming, remaining: rem, ..s }
            } else {
                HuntView { phase: HuntPhase::Discovering, remaining: rem, ..s }
            }
        },
        (HuntPhase::Discovering, HuntEvent::Discovered(found)) => match found {
            Some(n) if n > 0 => HuntView {
                phase: HuntPhase::Vetting(0),
                candidates: vet_count(n),
                targets: seq![],
                selected: 0,
                ..s
            },
            _ => end_round(s),
        },
        (HuntPhase::Vetting(k), HuntEvent::Vetted { analyzed_before, merged }) => {
            let passes = !analyzed_before && (merged matches Some(m) && m > 0);
            let t = if passes {
                HuntView { targets: s.targets.push(k), ..s }
            } else {
                s
            };
            after_vetting(t, k)
        },
        (HuntPhase::Middleware(t), HuntEvent::MiddlewareChecked { failed, skip, rate_limited }) => {
            if failed {
                enter_target(s, (t + 1) as usize)
            } else if skip && rate_limited {
                after_targets(s)
            } else if skip {
                enter_target(s, (t + 1) as usize)
            } else {
                HuntView { phase: HuntPhase::Repo(t), ..s }
            }
        },
        (HuntPhase::Repo(t), HuntEvent::RepoDone(c)) => {
            let u = HuntView {
                totals: add_counts(s.totals, c),
                remaining: sat_sub(s.remaining, c.prs_created),
                ..s
            };
            if t + 1 < s.selected {
                HuntView { phase: HuntPhase::Pausing(t), ..u }
            } else {
                enter_target(u, (t + 1) as usize)
            }
        },
        (HuntPhase::Pausing(t), HuntEvent::Waited) => enter_target(s, (t + 1) as usize),
        (HuntPhase::IssueHunt, HuntEvent::IssuesDone(r)) => {
            let u = match r {
                Some(c) => HuntView {
                    totals: add_counts(s.totals, RunCounts { repos_analyzed: 0, ..c }),
                    ..s
                },
                None => s,
            };
            end_round(u)
        },
        (HuntPhase::Resting, HuntEvent::Waited) => HuntView {
            phase: HuntPhase::RoundStart,
            round: (s.round + 1) as u32,
            ..s
        },
        (HuntPhase::Dreaming, HuntEvent::Dreamt) => HuntView { phase: HuntPhase::Done, ..s },
        _ => s,
    }
}

/// The next hunt state and the action it asks for.
pub open spec fn hunt_next(s: HuntView, e: HuntEvent) -> (HuntView, HuntAction) {
    let t = hunt_advance(s, e);
    (t, hunt_pending(t))
}

pub open spec fn action_view(a: HuntAction) -> HuntAction {
    a
}

pub open spec fn event_view(e: HuntEvent) -> HuntEvent {
    e
}

fn copy_indices(v: &Vec<usize>) -> (r: Vec<usize>)
    ensures
        r@ == v@,
{
    let mut out: Vec<usize> = Vec::new();
    let mut i: usize = 0;
    while i < v.len()
        invariant
            i <= v@.len(),
            out@ == v@.take(i as int),
        decreases v.len() - i,
    {
        out.push(v[i]);
        i = i + 1;
        proof {
            assert(out@ =~= v@.take(i as int));
        }
    }
    proof {
        assert(v@.take(i as int) =~= v@);
    }
    out
}

fn with_phase(s: HuntState, phase: HuntPhase) -> (r: HuntState)
    ensures
        r@ == (HuntView { phase, ..s@ }),
{
    HuntState { phase, ..s }
}

fn end_round_exec(s: HuntState) -> (r: HuntState)
    ensures
        r@ == end_round(s@),
{
    if s.round < s.rounds {
        with_phase(s, HuntPhase::Resting)
    } else {
        with_phase(s, HuntPhase::Dreaming)
    }
}

fn after_targets_exec(s: HuntState) -> (r: HuntState)
    ensures
        r@ == after_targets(s@),
{
    if s.mode != HuntMode::Analysis && s.round % 2 == 1 {
        with_phase(s, HuntPhase::IssueHunt)
    } else {
        end_round_exec(s)
    }
}

fn enter_target_exec(s: HuntState, t: usize) -> (r: HuntState)
    ensures
        r@ == enter_target(s@, t),
{
    if t < s.selected && !(s.remaining == 0 && !s.dry_run) {
        with_phase(s, HuntPhase::Middleware(t))
    } else {
        after_targets_exec(s)
    }
}

fn after_vetting_exec(s: HuntState, k: usize) -> (r: HuntState)
    requires
        k < s.candidates,
    ensures
        r@ == after_vetting(s@, k),
{
    if k + 1 < s.candidates {
        with_phase(s, HuntPhase::Vetting(k + 1))
    } else if s.targets.len() == 0 {
        end_round_exec(s)
    } else {
        let sel: usize = if s.targets.len() < s.max_targets {
            s.targets.len()
        } else {
            s.max_targets
        };
        let u = HuntState { selected: sel, ..s };
        enter_target_exec(u, 0)
    }
}

fn add_counts_exec(a: RunCounts, b: RunCounts) -> (r: RunCounts)
    ensures
        r == add_counts(a, b),
{
    RunCounts {
        repos_analyzed: sat_add_exec(a.repos_analyzed, b.repos_analyzed),
        findings_total: sat_add_exec(a.findings_total, b.findings_total),
        contributions_generated: sat_add_exec(a.contributions_generated, b.contributions_generated),
        prs_created: sat_add_exec(a.prs_created, b.prs_created),
        errors: sat_add_exec(a.errors, b.errors),
    }
}

fn hunt_pending_exec(s: &HuntState) -> (a: HuntAction)
    requires
        s.wf(),
    ensures
        a == hunt_pending(s@),
{
    match s.phase {
        HuntPhase::RoundStart => HuntAction::CountTodayPrs,
        HuntPhase::Discovering => HuntAction::Discover { round: s.round },
        HuntPhase::Vetting(k) => HuntAction::Vet { candidate: k },
        HuntPhase::Middleware(t) => HuntAction::RunMiddleware { candidate: s.targets[t], remaining: s.remaining },
        HuntPhase::Repo(t) => HuntAction::ProcessRepo { candidate: s.targets[t], mode: s.mode, remaining: s.remaining },
        HuntPhase::Pausing(_) => HuntAction::Wait { secs: 5 },
        HuntPhase::IssueHunt => HuntAction::HuntIssues { round: s.round },
        HuntPhase::Resting => HuntAction::Wait { secs: s.delay_secs },
        HuntPhase::Dreaming => HuntAction::Dream,
        HuntPhase::Done => HuntAction::Finish { totals: s.totals },
    }
}

/// Vetting, target and round changes keep a hunt well formed.
proof fn lemma_hunt_advance_wf(s: HuntView, e: HuntEvent)
    requires
        s.wf(),
    ensures
        hunt_advance(s, e).wf(),
{
    match (s.phase, e) {
        (HuntPhase::Discovering, HuntEvent::Discovered(Some(n))) => {
            if n > 0 {
                let t = hunt_advance(s, e);
                assert(t.targets =~= seq![]);
            }
        },
        (HuntPhase::Vetting(k), HuntEvent::Vetted { analyzed_before, merged }) => {
            let passes = !analyzed_before && (merged matches Some(m) && m > 0);
            let u = if passes {
                HuntView { targets: s.targets.push(k), ..s }
            } else {
                s
            };
            assert forall|a: int| 0 <= a < u.targets.len() implies #[trigger] u.targets[a] < k + 1 by {
                if a < s.targets.len() {
                    assert(u.targets[a] == s.targets[a]);
                }
            }
            assert(u.targets.len() <= k + 1);
        },
        _ => {},
    }
}

/// One step of a hunt: the state an event leads to and the action that
/// state asks for.
pub fn hunt_step(state: &HuntState, event: HuntEvent) -> (r: (HuntState, HuntAction))
    requires
        state.wf(),
    ensures
        r.0.wf(),
        (r.0@, action_view(r.1)) == hunt_next(state@, event_view(event)),
{
    let s = HuntState {
        rounds: state.rounds,
        delay_secs: state.delay_secs,
        dry_run: state.dry_run,
        mode: state.mode,
        max_prs_per_day: state.max_prs_per_day,
        max_targets: state.max_targets,
        round: state.round,
        remaining: state.remaining,
        candidates: state.candidates,
        targets: copy_indices(&state.targets),
        selected: state.selected,
        phase: state.phase,
        totals: state.totals,
    };
    assert(s@ == state@);
    let t = match (s.phase, event) {
        (HuntPhase::RoundStart, HuntEvent::TodayCount(today)) => {
            let rem = remaining_pr_budget(s.max_prs_per_day, today);
            if rem == 0 && !s.dry_run {
                HuntState { phase: HuntPhase::Dreaming, remaining: rem, ..s }
            } else {
                HuntState { phase: HuntPhase::Discovering, remaining: rem, ..s }
            }
        },
        (HuntPhase::Discovering, HuntEvent::Discovered(found)) => match found {
            Some(n) if n > 0 => {
                let c: usize = if n < 5 {
                    n
                } else {
                    5
                };
                let r = HuntState { phase: HuntPhase::Vetting(0), candidates: c, targets: Vec::new(), selected: 0, ..s };
                proof {
                    assert(r@.targets =~= seq![]);
                }
                r
            },
            _ => end_round_exec(s),
        },
        (HuntPhase::Vetting(k), HuntEvent::Vetted { analyzed_before, merged }) => {
            let passes = !analyzed_before && match merged {
                Some(m) => m > 0,
                None => false,
            };
            let mut u = s;
            if passes {
                u.targets.push(k);
            }
            after_vetting_exec(u, k)
        },
        (HuntPhase::Middleware(t), HuntEvent::MiddlewareChecked { failed, skip, rate_limited }) => {
            if failed {
                enter_target_exec(s, t + 1)
            } else if skip && rate_limited {
                after_targets_exec(s)
            } else if skip {
                enter_target_exec(s, t + 1)
            } else {
                with_phase(s, HuntPhase::Repo(t))
            }
        },
        (HuntPhase::Repo(t), HuntEvent::RepoDone(c)) => {
            let rem = if s.remaining >= c.prs_created {
                s.remaining - c.prs_created
            } else {
                0
            };
            let tot = add_counts_exec(s.totals, c);
            let sel = s.selected;
            let u = HuntState { totals: tot, remaining: rem, ..s };
            if t + 1 < sel {
                with_phase(u, HuntPhase::Pausing(t))
            } else {
                enter_target_exec(u, t + 1)
            }
        },
        (HuntPhase::Pausing(t), HuntEvent::Waited) => enter_target_exec(s, t + 1),
        (HuntPhase::IssueHunt, HuntEvent::IssuesDone(r)) => {
            let u = match r {
                Some(c) => {
                    let tot = add_counts_exec(s.totals, RunCounts { repos_analyzed: 0, ..c });
                    HuntState { totals: tot, ..s }
                },
                None => s,
            };
            end_round_exec(u)
        },
        (HuntPhase::Resting, HuntEvent::Waited) => {
            let next = s.round + 1;
            HuntState { phase: HuntPhase::RoundStart, round: next, ..s }
        },
        (HuntPhase::Dreaming, HuntEvent::Dreamt) => with_phase(s, HuntPhase::Done),
        _ => s,
    };
    proof {
        lemma_hunt_advance_wf(state@, event);
        assert(t@ == hunt_advance(state@, event));
    }
    let a = hunt_pending_exec(&t);
    (t, a)
}

/// A repository's run opens a PR only outside a dry run and only with at
/// least one contribution that passed every gate.
pub proof fn lemma_pr_only_when_kept(s: RepoRunState, e: RepoEvent)
    requires
        s.wf(),
    ensures
        repo_next(s, e).1 is CreatePr ==> !s.dry_run && repo_next(s, e).0.kept >= 1,
        repo_next(s, e).1 is Merge ==> repo_next(s, e).0.kept >= 1,
{
}

/// A hunt processes a repository only while PR budget remains (or in a dry
/// run), and never a repository it did not vet as a target.
pub proof fn lemma_hunt_within_budget(s: HuntView, e: HuntEvent)
    requires
        s.wf(),
    ensures
        hunt_next(s, e).1 matches HuntAction::ProcessRepo { candidate, mode: _, remaining } ==> (
        remaining > 0 || s.dry_run) && hunt_next(s, e).0.targets.contains(candidate),
{
    lemma_hunt_advance_wf(s, e);
    let t = hunt_next(s, e).0;
    if let HuntPhase::Repo(i) = t.phase {
        assert(t.targets[i as int] == t.targets[i as int]);
    }
}

// ── A pipeline run ───────────────────────────────────────────────────────────

/// Where a pipeline run stands; indexed phases name a discovered repository
/// (of those within `max_repos_per_run`).
#[derive(Debug, Clone, Copy, PartialEq, Eq, Structural)]
pub enum RunPhase {
    Starting,
    Counting,
    Discovering,
    FetchingUser,
    Checking(usize),
    Middleware(usize),
    Repo(usize),
    Logging,
    Dreaming,
    Done,
    Failed,
}

/// What a pipeline run does next.
#[derive(Debug, Clone, Copy, PartialEq, Eq, Structural)]
pub enum RunAction {
    /// Record the start of the run in the history.
    StartRunLog,
    CountTodayPrs,
    /// Discover repositories with the run's criteria.
    Discover,
    /// Fetch the authenticated user (for DCO sign-offs).
    FetchUser,
    /// Ask the history whether the repository was analyzed before.
    CheckAnalyzed { repo: usize },
    RunMiddleware { repo: usize, remaining: usize },
    /// Process the repository (a repository run) with the PR budget.
    ProcessRepo { repo: usize, remaining: usize },
    /// Record the end of the run with its totals.
    FinishRunLog { totals: RunCounts },
    Dream,
    Finish { totals: RunCounts },
    /// A history or discovery failure ends the run with an error.
    Fail,
}

/// What an action gave back.
#[derive(Debug, Clone, Copy, PartialEq, Eq, Structural)]
pub enum RunEvent {
    /// Whether the history accepted the record.
    Logged(bool),
    /// PRs created today (`None` when the history could not be read).
    TodayCount(Option<usize>),
    /// Repositories discovered (`None` when discovery failed).
    Discovered(Option<usize>),
    UserFetched,
    /// Whether the repository was analyzed before (`None` when the history
    /// could not be read).
    AnalyzedBefore(Option<bool>),
    MiddlewareChecked { failed: bool, skip: bool, rate_limited: bool },
    /// A repository run's counts (`None` when it failed).
    RepoDone(Option<RunCounts>),
    Dreamt,
}

/// A pipeline run's state.
#[derive(Debug, Clone, Copy, PartialEq, Eq, Structural)]
pub struct PipelineRunState {
    pub phase: RunPhase,
    pub dry_run: bool,
    pub max_prs_per_day: u32,
    pub max_repos_per_run: usize,
    pub remaining: usize,
    pub repos: usize,
    pub totals: RunCounts,
}

impl View for PipelineRunState {
    type V = PipelineRunState;

    open spec fn view(&self) -> PipelineRunState {
        *self
    }
}

impl PipelineRunState {
    /// Indexed phases name one of the repositories taken.
    pub open spec fn wf(self) -> bool {
        &&& self.repos <= self.max_repos_per_run
        &&& (self.phase matches RunPhase::Checking(i) ==> i < self.repos)
        &&& (self.phase matches RunPhase::Middleware(i) ==> i < self.repos)
        &&& (self.phase matches RunPhase::Repo(i) ==> i < self.repos)
    }

    pub fn new(dry_run: bool, max_prs_per_day: u32, max_repos_per_run: usize) -> (r: Self)
        ensures
            r.wf(),
            r == (PipelineRunState {
                phase: RunPhase::Starting,
                dry_run,
                max_prs_per_day,
                max_repos_per_run,
                remaining: 0,
                repos: 0,
                totals: zero_counts(),
            }),
    {
        PipelineRunState {
            phase: RunPhase::Starting,
            dry_run,
            max_prs_per_day,
            max_repos_per_run,
            remaining: 0,
            repos: 0,
            totals: RunCounts {
                repos_analyzed: 0,
                findings_total: 0,
                contributions_generated: 0,
                prs_created: 0,
                errors: 0,
            },
        }
    }
}

pub open spec fn run_pending(s: PipelineRunState) -> RunAction {
    match s.phase {
        RunPhase::Starting => RunAction::StartRunLog,
        RunPhase::Counting => RunAction::CountTodayPrs,
        RunPhase::Discovering => RunAction::Discover,
        RunPhase::FetchingUser => RunAction::FetchUser,
        RunPhase::Checking(i) => RunAction::CheckAnalyzed { repo: i },
        RunPhase::Middleware(i) => RunAction::RunMiddleware { repo: i, remaining: s.remaining },
        RunPhase::Repo(i) => RunAction::ProcessRepo { repo: i, remaining: s.remaining },
        RunPhase::Logging => RunAction::FinishRunLog { totals: s.totals },
        RunPhase::Dreaming => RunAction::Dream,
        RunPhase::Done => RunAction::Finish { totals: s.totals },
        RunPhase::Failed => RunAction::Fail,
    }
}

/// After repository `i`: the next one, else the run's log.
pub open spec fn run_after(s: PipelineRunState, i: usize) -> PipelineRunState {
    if i + 1 < s.repos {
        PipelineRunState { phase: RunPhase::Checking((i + 1) as usize), ..s }
    } else {
        PipelineRunState { phase: RunPhase::Logging, ..s }
    }
}

pub open spec fn one_more_error(c: RunCounts) -> RunCounts {
    RunCounts { errors: sat_add(c.errors, 1), ..c }
}

/// How an event moves a pipeline run. The run stops early (no log, no
/// dream) when the daily PR limit is reached outside a dry run or nothing is
/// discovered; each processed repository counts as analyzed.
pub open spec fn run_advance(s: PipelineRunState, e: RunEvent) -> PipelineRunState {
    match (s.phase, e) {
        (RunPhase::Starting, RunEvent::Logged(ok)) => if ok {
            PipelineRunState { phase: RunPhase::Counting, ..s }
        } else {
            PipelineRunState { phase: RunPhase::Failed, ..s }
        },
        (RunPhase::Counting, RunEvent::TodayCount(None)) => PipelineRunState { phase: RunPhase::Failed, ..s },
        (RunPhase::Counting, RunEvent::TodayCount(Some(today))) => {
            let rem: usize = if today >= s.max_prs_per_day {
                0
            } else {
                (s.max_prs_per_day - today) as usize
            };
            if rem == 0 && !s.dry_run {
                PipelineRunState { phase: RunPhase::Done, remaining: rem, ..s }
            } else {
                PipelineRunState { phase: RunPhase::Discovering, remaining: rem, ..s }
            }
        },
        (RunPhase::Discovering, RunEvent::Discovered(None)) => PipelineRunState { phase: RunPhase::Failed, ..s },
        (RunPhase::Discovering, RunEvent::Discovered(Some(n))) => {
            if n == 0 {
                PipelineRunState { phase: RunPhase::Done, ..s }
            } else {
                let taken: usize = if n < s.max_repos_per_run {
                    n
                } else {
                    s.max_repos_per_run
                };
                PipelineRunState { phase: RunPhase::FetchingUser, repos: taken, ..s }
            }
        },
        (RunPhase::FetchingUser, RunEvent::UserFetched) => if s.repos > 0 {
            PipelineRunState { phase: RunPhase::Checking(0), ..s }
        } else {
            PipelineRunState { phase: RunPhase::Logging, ..s }
        },
        (RunPhase::Checking(i), RunEvent::AnalyzedBefore(a)) => match a {
            None => PipelineRunState { phase: RunPhase::Failed, ..s },
            Some(true) => run_after(s, i),
            Some(false) => PipelineRunState { phase: RunPhase::Middleware(i), ..s },
        },
        (RunPhase::Middleware(i), RunEvent::MiddlewareChecked { failed, skip, rate_limited }) => {
            if failed {
                run_after(PipelineRunState { totals: one_more_error(s.totals), ..s }, i)
            } else if skip && rate_limited {
                PipelineRunState { phase: RunPhase::Logging, ..s }
            } else if skip {
                run_after(s, i)
            } else {
                PipelineRunState { phase: RunPhase::Repo(i), ..s }
            }
        },
        (RunPhase::Repo(i), RunEvent::RepoDone(r)) => match r {
            Some(c) => run_after(
                PipelineRunState { totals: add_counts(s.totals, RunCounts { repos_analyzed: 1, ..c }), ..s },
                i,
            ),
            None => run_after(PipelineRunState { totals: one_more_error(s.totals), ..s }, i),
        },
        (RunPhase::Logging, RunEvent::Logged(ok)) => if ok {
            PipelineRunState { phase: RunPhase::Dreaming, ..s }
        } else {
            PipelineRunState { phase: RunPhase::Failed, ..s }
        },
        (RunPhase::Dreaming, RunEvent::Dreamt) => PipelineRunState { phase: RunPhase::Done, ..s },
        _ => s,
    }
}

pub open spec fn run_next(s: PipelineRunState, e: RunEvent) -> (PipelineRunState, RunAction) {
    let t = run_advance(s, e);
    (t, run_pending(t))
}

fn run_after_exec(s: PipelineRunState, i: usize) -> (r: PipelineRunState)
    requires
        i < s.repos,
    ensures
        r == run_after(s, i),
{
    if i + 1 < s.repos {
        PipelineRunState { phase: RunPhase::Checking(i + 1), ..s }
    } else {
        PipelineRunState { phase: RunPhase::Logging, ..s }
    }
}

fn one_more_error_exec(c: RunCounts) -> (r: RunCounts)
    ensures
        r == one_more_error(c),
{
    RunCounts { errors: sat_add_exec(c.errors, 1), ..c }
}

/// One step of a pipeline run: the state an event leads to and the action
/// that state asks for.
pub fn pipeline_run_step(state: &PipelineRunState, event: RunEvent) -> (r: (PipelineRunState, RunAction))
    requires
        state.wf(),
    ensures
        r.0.wf(),
        r == run_next(*state, event),
{
    let s = *state;
    let t = match (s.phase, event) {
        (RunPhase::Starting, RunEvent::Logged(ok)) => if ok {
            PipelineRunState { phase: RunPhase::Counting, ..s }
        } else {
            PipelineRunState { phase: RunPhase::Failed, ..s }
        },
        (RunPhase::Counting, RunEvent::TodayCount(None)) => PipelineRunState { phase: RunPhase::Failed, ..s },
        (RunPhase::Counting, RunEvent::TodayCount(Some(today))) => {
            let rem = remaining_pr_budget(s.max_prs_per_day, today);
            if rem == 0 && !s.dry_run {
                PipelineRunState { phase: RunPhase::Done, remaining: rem, ..s }
            } else {
                PipelineRunState { phase: RunPhase::Discovering, remaining: rem, ..s }
            }
        },
        (RunPhase::Discovering, RunEvent::Discovered(None)) => PipelineRunState { phase: RunPhase::Failed, ..s },
        (RunPhase::Discovering, RunEvent::Discovered(Some(n))) => {
            if n == 0 {
                PipelineRunState { phase: RunPhase::Done, ..s }
            } else {
                let taken: usize = if n < s.max_repos_per_run {
                    n
                } else {
                    s.max_repos_per_run
                };
                PipelineRunState { phase: RunPhase::FetchingUser, repos: taken, ..s }
            }
        },
        (RunPhase::FetchingUser, RunEvent::UserFetched) => if s.repos > 0 {
            PipelineRunState { phase: RunPhase::Checking(0), ..s }
        } else {
            PipelineRunState { phase: RunPhase::Logging, ..s }
        },
        (RunPhase::Checking(i), RunEvent::AnalyzedBefore(a)) => match a {
            None => PipelineRunState { phase: RunPhase::Failed, ..s },
            Some(true) => run_after_exec(s, i),
            Some(false) => PipelineRunState { phase: RunPhase::Middleware(i), ..s },
        },
        (RunPhase::Middleware(i), RunEvent::MiddlewareChecked { failed, skip, rate_limited }) => {
            if failed {
                run_after_exec(PipelineRunState { totals: one_more_error_exec(s.totals), ..s }, i)
            } else if skip && rate_limited {
                PipelineRunState { phase: RunPhase::Logging, ..s }
            } else if skip {
                run_after_exec(s, i)
            } else {
                PipelineRunState { phase: RunPhase::Repo(i), ..s }
            }
        },
        (RunPhase::Repo(i), RunEvent::RepoDone(r)) => match r {
            Some(c) => {
                let tot = add_counts_exec(s.totals, RunCounts { repos_analyzed: 1, ..c });
                run_after_exec(PipelineRunState { totals: tot, ..s }, i)
            },
            None => run_after_exec(PipelineRunState { totals: one_more_error_exec(s.totals), ..s }, i),
        },
        (RunPhase::Logging, RunEvent::Logged(ok)) => if ok {
            PipelineRunState { phase: RunPhase::Dreaming, ..s }
        } else {
            PipelineRunState { phase: RunPhase::Failed, ..s }
        },
        (RunPhase::Dreaming, RunEvent::Dreamt) => PipelineRunState { phase: RunPhase::Done, ..s },
        _ => s,
    };
    let a = match t.phase {
        RunPhase::Starting => RunAction::StartRunLog,
        RunPhase::Counting => RunAction::CountTodayPrs,
        RunPhase::Discovering => RunAction::Discover,
        RunPhase::FetchingUser => RunAction::FetchUser,
        RunPhase::Checking(i) => RunAction::CheckAnalyzed { repo: i },
        RunPhase::Middleware(i) => RunAction::RunMiddleware { repo: i, remaining: t.remaining },
        RunPhase::Repo(i) => RunAction::ProcessRepo { repo: i, remaining: t.remaining },
        RunPhase::Logging => RunAction::FinishRunLog { totals: t.totals },
        RunPhase::Dreaming => RunAction::Dream,
        RunPhase::Done => RunAction::Finish { totals: t.totals },
        RunPhase::Failed => RunAction::Fail,
    };
    (t, a)
}

} // verus!
