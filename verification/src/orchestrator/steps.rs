//! The decisions inside the pipeline's runs: how a hunt round searches, how
//! many PRs a day still allows, which findings go on to generation, and how
//! run results add up. The runs themselves, which call GitHub and the model,
//! belong to the application.
use vstd::prelude::*;

use crate::cli::trim_end_char;
use crate::common::models::{
    contribution_type_name, DiscoveryCriteria, Finding, Severity,
};
use crate::orchestrator::memory::{contains_text, string_views, PrRecord, RepoPreferences};
use crate::orchestrator::pipeline::PipelineResult;
use crate::text::{
    append_str, chars_eq, chars_of, contains, contains_str, lowercase, split, split_on,
    string_from_chars, views,
};

verus! {

// ── Hunt rounds ──────────────────────────────────────────────────────────────

/// `langs` rotated left by `rnd` (modulo its length), first two kept.
pub open spec fn hunt_languages_of(langs: Seq<Seq<char>>, rnd: nat) -> Seq<Seq<char>> {
    if langs.len() == 0 {
        seq![]
    } else {
        let r = (rnd % langs.len()) as int;
        let rotated = langs.skip(r) + langs.take(r);
        rotated.take(if langs.len() < 2 {
            langs.len() as int
        } else {
            2
        })
    }
}

/// The star range of hunt round `rnd` (from 1): the configured range, then
/// fixed tiers, in a cycle of five.
pub open spec fn hunt_stars(rnd: nat, cfg_min: i64, cfg_max: i64) -> (i64, i64) {
    let i = (rnd - 1) % 5;
    if i == 0 {
        (cfg_min, cfg_max)
    } else if i == 1 {
        (100, 1000)
    } else if i == 2 {
        (1000, 5000)
    } else if i == 3 {
        (5000, 20000)
    } else {
        (500, 3000)
    }
}

/// The search order of hunt round `rnd`, in a cycle of five.
pub open spec fn hunt_sort(rnd: nat) -> Seq<char> {
    let i = (rnd - 1) % 5;
    if i == 0 || i == 3 {
        "stars"@
    } else if i == 1 || i == 4 {
        "updated"@
    } else {
        "help-wanted-issues"@
    }
}

/// The languages a hunt round searches.
pub fn hunt_languages(languages: &Vec<String>, rnd: u32) -> (r: Vec<String>)
    ensures
        string_views(r@) == hunt_languages_of(string_views(languages@), rnd as nat),
{
    let ghost lv = string_views(languages@);
    let n = languages.len();
    if n == 0 {
        let r: Vec<String> = Vec::new();
        proof {
            assert(string_views(r@) =~= seq![]);
        }
        return r;
    }
    let rot = (rnd as usize) % n;
    proof {
        assert(rot as int == (rnd as nat % lv.len()) as int) by (nonlinear_arith)
            requires
                rot == (rnd as usize) % n,
                n == lv.len(),
                n > 0,
                (rnd as usize) as int == rnd as int || usize::MAX < u32::MAX,
        ;
    }
    let mut out: Vec<String> = Vec::new();
    let first = languages[rot].clone();
    out.push(first);
    if n >= 2 {
        let second_at = if rot + 1 < n {
            rot + 1
        } else {
            0
        };
        let second = languages[second_at].clone();
        out.push(second);
    }
    proof {
        let rotated = lv.skip(rot as int) + lv.take(rot as int);
        assert(rotated.len() == n);
        assert(rotated[0] == lv[rot as int]);
        if n >= 2 {
            if rot + 1 < n {
                assert(rotated[1] == lv[rot + 1]);
            } else {
                assert(rotated[1] == lv[0]);
            }
        }
        assert(string_views(out@) =~= hunt_languages_of(lv, rnd as nat));
    }
    out
}

/// The discovery criteria of hunt round `rnd` (from 1): two rotated
/// languages, the round's star range and search order, a page that advances
/// every five rounds, activity within a week and ten results.
pub fn hunt_round_criteria(rnd: u32, languages: &Vec<String>, cfg_min: i64, cfg_max: i64) -> (r:
    DiscoveryCriteria)
    requires
        rnd >= 1,
    ensures
        string_views(r.languages@) == hunt_languages_of(string_views(languages@), rnd as nat),
        (r.stars_min, r.stars_max) == hunt_stars(rnd as nat, cfg_min, cfg_max),
        r.min_last_activity_days == 7,
        r.max_results == 10,
        r.require_contributing_guide == false,
        r.topics@.len() == 0,
        r.exclude_repos@.len() == 0,
        r.sort matches Some(s) && s@ == hunt_sort(rnd as nat),
        r.page == Some(((rnd - 1) / 5 + 1) as u32),
{
    let i = (rnd - 1) % 5;
    let (smin, smax) = if i == 0 {
        (cfg_min, cfg_max)
    } else if i == 1 {
        (100i64, 1000i64)
    } else if i == 2 {
        (1000i64, 5000i64)
    } else if i == 3 {
        (5000i64, 20000i64)
    } else {
        (500i64, 3000i64)
    };
    let sort = if i == 0 || i == 3 {
        "stars"
    } else if i == 1 || i == 4 {
        "updated"
    } else {
        "help-wanted-issues"
    };
    DiscoveryCriteria {
        languages: hunt_languages(languages, rnd),
        stars_min: smin,
        stars_max: smax,
        min_last_activity_days: 7,
        require_contributing_guide: false,
        topics: Vec::new(),
        max_results: 10,
        exclude_repos: Vec::new(),
        sort: Some(String::from_str(sort)),
        page: Some((rnd - 1) / 5 + 1),
    }
}

/// PRs the daily limit still allows after `today` were opened.
pub fn remaining_pr_budget(max_prs_per_day: u32, today: usize) -> (r: usize)
    ensures
        r == if today >= max_prs_per_day {
            0
        } else {
            (max_prs_per_day - today) as usize
        },
{
    let m = max_prs_per_day as usize;
    if today >= m {
        0
    } else {
        m - today
    }
}

/// How many of a repository's closed PRs were merged (a non-empty
/// `merged_at`); a repository with any is worth a hunt.
pub open spec fn merged_among(merged_at: Seq<Option<String>>) -> nat
    decreases merged_at.len(),
{
    if merged_at.len() == 0 {
        0
    } else {
        merged_among(merged_at.drop_last()) + match merged_at.last() {
            Some(s) => if s@.len() > 0 {
                1nat
            } else {
                0nat
            },
            None => 0nat,
        }
    }
}

pub fn merged_pr_count(merged_at: &[Option<String>]) -> (r: usize)
    ensures
        r == merged_among(merged_at@),
{
    let mut n: usize = 0;
    let mut k: usize = 0;
    while k < merged_at.len()
        invariant
            k <= merged_at@.len(),
            n == merged_among(merged_at@.take(k as int)),
            n <= k,
        decreases merged_at.len() - k,
    {
        proof {
            assert(merged_at@.take(k + 1).drop_last() =~= merged_at@.take(k as int));
        }
        match &merged_at[k] {
            Some(s) => {
                if chars_of(s.as_str()).len() > 0 {
                    n = n + 1;
                }
            },
            None => {},
        }
        k = k + 1;
    }
    proof {
        assert(merged_at@.take(k as int) =~= merged_at@);
    }
    n
}

/// The labels an issue-first hunt searches, in order.
pub fn issue_labels() -> (r: Vec<&'static str>)
    ensures
        r@.map_values(|s: &str| s@) == seq!["good first issue"@, "help wanted"@, "bug"@],
{
    let v = vec!["good first issue", "help wanted", "bug"];
    proof {
        assert(v@.map_values(|s: &str| s@) =~= seq!["good first issue"@, "help wanted"@, "bug"@]);
    }
    v
}

/// The issue search for one label and language: open issues in active,
/// starred, unarchived repositories.
pub fn issue_search_query(label: &str, language: &str) -> (r: String)
    ensures
        r@ == "label:\""@ + label@ + "\" language:"@ + language@
            + " state:open stars:>100 archived:false"@,
{
    let mut q = chars_of("label:\"");
    append_str(&mut q, label);
    append_str(&mut q, "\" language:");
    append_str(&mut q, language);
    append_str(&mut q, " state:open stars:>100 archived:false");
    string_from_chars(&q)
}

/// `owner` and `repo` of an API repository URL: its last two path segments.
pub open spec fn repo_of_url(url: Seq<char>) -> Option<(Seq<char>, Seq<char>)> {
    let parts = split(trim_end_char(url, '/'), '/');
    if url.len() == 0 || parts.len() < 2 {
        None
    } else {
        Some((parts[parts.len() - 2], parts[parts.len() - 1]))
    }
}

pub fn repo_from_api_url(url: &str) -> (r: Option<(String, String)>)
    ensures
        match r {
            Some((o, p)) => repo_of_url(url@) == Some((o@, p@)),
            None => repo_of_url(url@) is None,
        },
{
    let c = chars_of(url);
    if c.len() == 0 {
        return None;
    }
    let mut j: usize = c.len();
    proof {
        assert(c@.take(j as int) =~= c@);
    }
    while j > 0 && c[j - 1] == '/'
        invariant
            j <= c@.len(),
            trim_end_char(c@, '/') == trim_end_char(c@.take(j as int), '/'),
        decreases j,
    {
        proof {
            assert(c@.take(j as int).drop_last() =~= c@.take(j - 1));
        }
        j = j - 1;
    }
    let t = crate::text::slice_to_vec(&c, 0, j);
    proof {
        assert(t@ =~= c@.take(j as int));
        assert(trim_end_char(c@.take(j as int), '/') == c@.take(j as int));
    }
    let parts = split_on(&t, '/');
    proof {
        assert(views(parts@).len() == parts@.len());
    }
    if parts.len() < 2 {
        return None;
    }
    let o = string_from_chars(&parts[parts.len() - 2]);
    let p = string_from_chars(&parts[parts.len() - 1]);
    Some((o, p))
}

// ── From findings to generation ──────────────────────────────────────────────

/// Lowercased titles of the recorded PRs to `full_name`, in order.
pub open spec fn past_titles_of(prs: Seq<PrRecord>, full_name: Seq<char>) -> Seq<Seq<char>>
    decreases prs.len(),
{
    if prs.len() == 0 {
        seq![]
    } else if prs.last().repo@ == full_name {
        past_titles_of(prs.drop_last(), full_name).push(lowercase(prs.last().title@))
    } else {
        past_titles_of(prs.drop_last(), full_name)
    }
}

pub fn past_titles_for(prs: &[PrRecord], full_name: &str) -> (r: Vec<String>)
    ensures
        string_views(r@) == past_titles_of(prs@, full_name@),
{
    let fc = chars_of(full_name);
    let mut out: Vec<String> = Vec::new();
    let mut k: usize = 0;
    proof {
        assert(string_views(out@) =~= seq![]);
    }
    while k < prs.len()
        invariant
            k <= prs@.len(),
            fc@ == full_name@,
            string_views(out@) == past_titles_of(prs@.take(k as int), full_name@),
        decreases prs.len() - k,
    {
        proof {
            assert(prs@.take(k + 1).drop_last() =~= prs@.take(k as int));
        }
        if chars_eq(chars_of(prs[k].repo.as_str()).as_slice(), &fc) {
            let t = crate::text::to_lowercase(prs[k].title.as_str());
            proof {
                assert(string_views(out@.push(t)) =~= string_views(out@).push(t@));
            }
            out.push(t);
        }
        k = k + 1;
    }
    proof {
        assert(prs@.take(k as int) =~= prs@);
    }
    out
}

/// The findings whose type the repository has not rejected before.
pub open spec fn not_rejected(fs: Seq<Finding>, rejected: Seq<Seq<char>>) -> Seq<Finding>
    decreases fs.len(),
{
    if fs.len() == 0 {
        seq![]
    } else if rejected.contains(contribution_type_name(fs.last().finding_type)) {
        not_rejected(fs.drop_last(), rejected)
    } else {
        not_rejected(fs.drop_last(), rejected).push(fs.last())
    }
}

pub fn drop_rejected_types(findings: Vec<Finding>, rejected: &Vec<String>) -> (r: Vec<Finding>)
    ensures
        r@ == not_rejected(findings@, string_views(rejected@)),
{
    let ghost all = findings@;
    let mut rest = findings;
    let mut out: Vec<Finding> = Vec::new();
    let mut k: usize = 0;
    let n = rest.len();
    while rest.len() > 0
        invariant
            k + rest@.len() == n,
            n == all.len(),
            rest@ == all.skip(k as int),
            out@ == not_rejected(all.take(k as int), string_views(rejected@)),
        decreases rest@.len(),
    {
        let f = rest.remove(0);
        proof {
            assert(rest@ =~= all.skip(k + 1));
            assert(all.take(k + 1).drop_last() =~= all.take(k as int));
            assert(all.take(k + 1).last() == f);
        }
        if !contains_text(rejected, f.finding_type.as_str()) {
            out.push(f);
        }
        k = k + 1;
    }
    proof {
        assert(all.take(k as int) =~= all);
    }
    out
}

/// The files to fetch for generation: each finding's path, once, in order,
/// empty paths left out.
pub open spec fn paths_to_fetch(fs: Seq<Finding>) -> Seq<Seq<char>>
    decreases fs.len(),
{
    if fs.len() == 0 {
        seq![]
    } else {
        let before = paths_to_fetch(fs.drop_last());
        let p = fs.last().file_path@;
        if p.len() == 0 || before.contains(p) {
            before
        } else {
            before.push(p)
        }
    }
}

pub fn relevant_paths(findings: &[Finding]) -> (r: Vec<String>)
    ensures
        string_views(r@) == paths_to_fetch(findings@),
{
    let mut out: Vec<String> = Vec::new();
    let mut k: usize = 0;
    proof {
        assert(string_views(out@) =~= seq![]);
    }
    while k < findings.len()
        invariant
            k <= findings@.len(),
            string_views(out@) == paths_to_fetch(findings@.take(k as int)),
        decreases findings.len() - k,
    {
        proof {
            assert(findings@.take(k + 1).drop_last() =~= findings@.take(k as int));
        }
        let p = findings[k].file_path.as_str();
        if chars_of(p).len() > 0 && !contains_text(&out, p) {
            let s = findings[k].file_path.clone();
            proof {
                assert(string_views(out@.push(s)) =~= string_views(out@).push(s@));
            }
            out.push(s);
        }
        k = k + 1;
    }
    proof {
        assert(findings@.take(k as int) =~= findings@);
    }
    out
}

pub open spec fn high_severity_count(fs: Seq<Finding>) -> nat
    decreases fs.len(),
{
    if fs.len() == 0 {
        0
    } else {
        high_severity_count(fs.drop_last()) + if fs.last().severity == Severity::High
            || fs.last().severity == Severity::Critical {
            1nat
        } else {
            0nat
        }
    }
}

/// The complexity a generation is routed by: five, plus two per high or
/// critical finding, at most ten.
pub fn generation_complexity(findings: &[Finding]) -> (r: u32)
    ensures
        r == if 2 * high_severity_count(findings@) + 5 < 10 {
            2 * high_severity_count(findings@) + 5
        } else {
            10
        },
{
    let mut high: usize = 0;
    let mut k: usize = 0;
    while k < findings.len()
        invariant
            k <= findings@.len(),
            high == high_severity_count(findings@.take(k as int)),
            high <= k,
        decreases findings.len() - k,
    {
        proof {
            assert(findings@.take(k + 1).drop_last() =~= findings@.take(k as int));
        }
        match findings[k].severity {
            Severity::High | Severity::Critical => {
                high = high + 1;
            },
            _ => {},
        }
        k = k + 1;
    }
    proof {
        assert(findings@.take(k as int) =~= findings@);
    }
    if high >= 3 {
        10
    } else {
        (2 * high + 5) as u32
    }
}

/// Some type the repository merged before names documentation.
pub open spec fn prefers_docs(p: RepoPreferences) -> bool {
    exists|i: int| 0 <= i < p.preferred_types@.len() && contains(#[trigger] string_views(p.preferred_types@)[i], "docs"@)
}

/// The repository has merged a documentation PR type before, so a
/// documentation-only PR is worth opening.
pub fn accepts_docs(prefs: Option<&RepoPreferences>) -> (r: bool)
    ensures
        r == match prefs {
            Some(p) => prefers_docs(*p),
            None => false,
        },
{
    match prefs {
        None => false,
        Some(p) => {
            let mut k: usize = 0;
            while k < p.preferred_types.len()
                invariant
                    k <= p.preferred_types@.len(),
                    prefs == Some(p),
                    forall|i: int| 0 <= i < k ==> !contains(#[trigger] string_views(p.preferred_types@)[i], "docs"@),
                decreases p.preferred_types.len() - k,
            {
                if contains_str(chars_of(p.preferred_types[k].as_str()).as_slice(), "docs") {
                    proof {
                        assert(contains(string_views(p.preferred_types@)[k as int], "docs"@));
                    }
                    return true;
                }
                k = k + 1;
            }
            false
        },
    }
}

/// Some recorded open PR goes to `full_name`.
pub fn has_open_pr_to(open_prs: &[PrRecord], full_name: &str) -> (r: bool)
    ensures
        r == exists|i: int| 0 <= i < open_prs@.len() && #[trigger] open_prs@[i].repo@ == full_name@,
{
    let fc = chars_of(full_name);
    let mut k: usize = 0;
    while k < open_prs.len()
        invariant
            k <= open_prs@.len(),
            fc@ == full_name@,
            forall|i: int| 0 <= i < k ==> #[trigger] open_prs@[i].repo@ != full_name@,
        decreases open_prs.len() - k,
    {
        if chars_eq(chars_of(open_prs[k].repo.as_str()).as_slice(), &fc) {
            return true;
        }
        k = k + 1;
    }
    false
}

// ── Adding up results ────────────────────────────────────────────────────────

impl PipelineResult {
    /// Adds another run's counts and errors to this one.
    pub fn absorb(&mut self, other: PipelineResult)
        requires
            old(self).repos_analyzed + other.repos_analyzed <= usize::MAX,
            old(self).findings_total + other.findings_total <= usize::MAX,
            old(self).contributions_generated + other.contributions_generated <= usize::MAX,
            old(self).prs_created + other.prs_created <= usize::MAX,
        ensures
            final(self).repos_analyzed == old(self).repos_analyzed + other.repos_analyzed,
            final(self).findings_total == old(self).findings_total + other.findings_total,
            final(self).contributions_generated == old(self).contributions_generated
                + other.contributions_generated,
            final(self).prs_created == old(self).prs_created + other.prs_created,
            final(self).errors@ == old(self).errors@ + other.errors@,
    {
        let mut o = other;
        self.repos_analyzed = self.repos_analyzed + o.repos_analyzed;
        self.findings_total = self.findings_total + o.findings_total;
        self.contributions_generated = self.contributions_generated + o.contributions_generated;
        self.prs_created = self.prs_created + o.prs_created;
        self.errors.append(&mut o.errors);
    }
}

} // verus!
