use contribai::orchestrator::runs::{
    hunt_step, pipeline_run_step, repo_run_step, Generation, HuntAction, HuntEvent, HuntMode,
    HuntState, PipelineRunState, RepoAction, RepoEvent, RepoRunState, RunAction, RunCounts, RunEvent,
};

fn counts(prs: usize) -> RunCounts {
    RunCounts { repos_analyzed: 1, findings_total: 3, contributions_generated: 1, prs_created: prs, errors: 0 }
}

fn drive_repo(mut s: RepoRunState, events: &[RepoEvent]) -> (RepoRunState, Vec<RepoAction>) {
    let mut actions = Vec::new();
    for e in events {
        let (t, a) = repo_run_step(&s, *e);
        s = t;
        actions.push(a);
    }
    (s, actions)
}

#[test]
fn repo_run_takes_two_findings_through_the_gates_and_opens_one_pr() {
    let s = RepoRunState::new(false, false, true, false, false);
    let (s, actions) = drive_repo(
        s,
        &[
            RepoEvent::ContextLoaded,
            RepoEvent::Analyzed(Some(5)),
            RepoEvent::Filtered(4),
            RepoEvent::ContextBuilt,
            RepoEvent::Generated(Generation::Made { docs: true }),
            RepoEvent::QualityChecked { passed: true },
            RepoEvent::RiskChecked { within_tolerance: true },
            RepoEvent::DocsChecked { accepted: false },
            RepoEvent::Generated(Generation::Made { docs: false }),
            RepoEvent::QualityChecked { passed: true },
            RepoEvent::RiskChecked { within_tolerance: true },
            RepoEvent::Kept,
            RepoEvent::Merged(2),
            RepoEvent::PrCreated { ok: true },
        ],
    );
    assert_eq!(
        actions,
        vec![
            RepoAction::Analyze,
            RepoAction::FilterFindings,
            RepoAction::BuildContext,
            RepoAction::Generate { finding: 0 },
            RepoAction::CheckQuality { finding: 0 },
            RepoAction::CheckRisk { finding: 0 },
            RepoAction::CheckDocs { finding: 0 },
            RepoAction::Generate { finding: 1 },
            RepoAction::CheckQuality { finding: 1 },
            RepoAction::CheckRisk { finding: 1 },
            RepoAction::Keep { finding: 1 },
            RepoAction::Merge,
            RepoAction::CreatePr,
            RepoAction::Finish {
                counts: RunCounts { repos_analyzed: 1, findings_total: 5, contributions_generated: 2, prs_created: 1, errors: 0 }
            },
        ]
    );
    assert_eq!(s.kept, 1);
}

#[test]
fn repo_run_stops_on_risk_dry_run_and_open_prs() {
    // Risk too high and not approved: nothing kept, no PR.
    let (_, a) = drive_repo(
        RepoRunState::new(false, false, false, false, false),
        &[
            RepoEvent::ContextLoaded,
            RepoEvent::Analyzed(Some(1)),
            RepoEvent::Filtered(1),
            RepoEvent::ContextBuilt,
            RepoEvent::Generated(Generation::Made { docs: false }),
            RepoEvent::QualityChecked { passed: true },
            RepoEvent::RiskChecked { within_tolerance: false },
        ],
    );
    assert!(matches!(a.last(), Some(RepoAction::Finish { counts }) if counts.prs_created == 0 && counts.repos_analyzed == 1));
    // Approved: the same contribution is kept; a dry run ends after merging.
    let (_, a) = drive_repo(
        RepoRunState::new(true, true, false, true, true),
        &[
            RepoEvent::ContextLoaded,
            RepoEvent::Analyzed(Some(1)),
            RepoEvent::Filtered(1),
            RepoEvent::ContextBuilt,
            RepoEvent::Generated(Generation::Made { docs: false }),
            RepoEvent::QualityChecked { passed: true },
            RepoEvent::RiskChecked { within_tolerance: false },
            RepoEvent::BugChecked { genuine: true },
            RepoEvent::Kept,
            RepoEvent::OpenPrChecked(Some(false)),
            RepoEvent::Merged(1),
        ],
    );
    assert_eq!(a[6], RepoAction::VerifyBug { finding: 0 });
    assert_eq!(a[8], RepoAction::CheckOpenPr);
    assert!(matches!(a.last(), Some(RepoAction::Finish { counts }) if counts.contributions_generated == 1 && counts.prs_created == 0));
    // An open PR to the repository already: stop before merging.
    let (_, a) = drive_repo(
        RepoRunState::new(false, false, false, false, true),
        &[
            RepoEvent::ContextLoaded,
            RepoEvent::Analyzed(Some(1)),
            RepoEvent::Filtered(1),
            RepoEvent::ContextBuilt,
            RepoEvent::Generated(Generation::Made { docs: false }),
            RepoEvent::QualityChecked { passed: true },
            RepoEvent::RiskChecked { within_tolerance: true },
            RepoEvent::Kept,
            RepoEvent::OpenPrChecked(Some(true)),
        ],
    );
    assert!(matches!(a.last(), Some(RepoAction::Finish { .. })));
    // A failed analysis ends the run with an error; an unexpected event changes nothing.
    let s = RepoRunState::new(false, false, false, false, false);
    let (s2, a) = repo_run_step(&s, RepoEvent::Kept);
    assert_eq!((s2, a), (s, RepoAction::LoadContext));
    let (_, a) = drive_repo(s, &[RepoEvent::ContextLoaded, RepoEvent::Analyzed(None)]);
    assert_eq!(a[1], RepoAction::Fail);
}

fn drive_hunt(mut s: HuntState, events: &[HuntEvent]) -> Vec<HuntAction> {
    let mut actions = Vec::new();
    for e in events {
        let (t, a) = hunt_step(&s, *e);
        s = t;
        actions.push(a);
    }
    actions
}

#[test]
fn hunt_stops_at_the_daily_limit_and_dreams() {
    let a = drive_hunt(
        HuntState::new(3, 30, false, HuntMode::Analysis, 5, 2),
        &[HuntEvent::TodayCount(5), HuntEvent::Dreamt],
    );
    assert_eq!(a[0], HuntAction::Dream);
    assert!(matches!(a[1], HuntAction::Finish { .. }));
}

#[test]
fn hunt_vets_the_first_five_then_processes_merge_friendly_targets() {
    let a = drive_hunt(
        HuntState::new(1, 30, false, HuntMode::Both, 5, 1),
        &[
            HuntEvent::TodayCount(1),
            HuntEvent::Discovered(Some(9)),
            HuntEvent::Vetted { analyzed_before: true, merged: Some(3) },
            HuntEvent::Vetted { analyzed_before: false, merged: Some(0) },
            HuntEvent::Vetted { analyzed_before: false, merged: Some(2) },
            HuntEvent::Vetted { analyzed_before: false, merged: None },
            HuntEvent::Vetted { analyzed_before: false, merged: Some(1) },
            HuntEvent::MiddlewareChecked { failed: false, skip: false, rate_limited: false },
            HuntEvent::RepoDone(counts(1)),
            HuntEvent::IssuesDone(None),
            HuntEvent::Dreamt,
        ],
    );
    assert_eq!(a[0], HuntAction::Discover { round: 1 });
    assert_eq!(a[5], HuntAction::Vet { candidate: 4 });
    // Targets 2 and 4 passed; the cap of one keeps target 2.
    assert_eq!(a[6], HuntAction::RunMiddleware { candidate: 2, remaining: 4 });
    assert_eq!(a[7], HuntAction::ProcessRepo { candidate: 2, mode: HuntMode::Both, remaining: 4 });
    // Round 1 is odd: issues next; then, the last round over, dream.
    assert_eq!(a[8], HuntAction::HuntIssues { round: 1 });
    assert_eq!(a[9], HuntAction::Dream);
    assert!(matches!(a[10], HuntAction::Finish { totals } if totals.prs_created == 1));
}

#[test]
fn hunt_rests_between_rounds_and_stops_when_rate_limited() {
    let a = drive_hunt(
        HuntState::new(2, 30, true, HuntMode::Analysis, 5, 3),
        &[
            HuntEvent::TodayCount(0),
            HuntEvent::Discovered(None),
            HuntEvent::Waited,
            HuntEvent::TodayCount(0),
            HuntEvent::Discovered(Some(2)),
            HuntEvent::Vetted { analyzed_before: false, merged: Some(1) },
            HuntEvent::Vetted { analyzed_before: false, merged: Some(1) },
            HuntEvent::MiddlewareChecked { failed: false, skip: true, rate_limited: true },
        ],
    );
    assert_eq!(a[1], HuntAction::Wait { secs: 30 });
    assert_eq!(a[3], HuntAction::Discover { round: 2 });
    assert_eq!(a[7], HuntAction::Dream);
}

#[test]
fn pipeline_run_skips_analyzed_repos_and_logs() {
    let mut s = PipelineRunState::new(false, 5, 2);
    let events = [
        RunEvent::Logged(true),
        RunEvent::TodayCount(Some(2)),
        RunEvent::Discovered(Some(4)),
        RunEvent::UserFetched,
        RunEvent::AnalyzedBefore(Some(true)),
        RunEvent::AnalyzedBefore(Some(false)),
        RunEvent::MiddlewareChecked { failed: false, skip: false, rate_limited: false },
        RunEvent::RepoDone(Some(counts(1))),
        RunEvent::Logged(true),
        RunEvent::Dreamt,
    ];
    let mut actions = Vec::new();
    for e in events {
        let (t, a) = pipeline_run_step(&s, e);
        s = t;
        actions.push(a);
    }
    assert_eq!(actions[3], RunAction::CheckAnalyzed { repo: 0 });
    assert_eq!(actions[4], RunAction::CheckAnalyzed { repo: 1 });
    assert_eq!(actions[6], RunAction::ProcessRepo { repo: 1, remaining: 3 });
    assert!(matches!(actions[7], RunAction::FinishRunLog { totals } if totals.repos_analyzed == 1 && totals.prs_created == 1));
    assert!(matches!(actions[9], RunAction::Finish { .. }));
    let (_, a) = pipeline_run_step(&PipelineRunState::new(false, 5, 2), RunEvent::Logged(true));
    let (s2, _) = pipeline_run_step(&PipelineRunState::new(false, 5, 2), RunEvent::Logged(true));
    assert_eq!(a, RunAction::CountTodayPrs);
    let (_, a) = pipeline_run_step(&s2, RunEvent::TodayCount(Some(5)));
    assert!(matches!(a, RunAction::Finish { .. }));
}
