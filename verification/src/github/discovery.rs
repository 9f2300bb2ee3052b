//! Repository discovery: the search queries sent to GitHub for each
//! language, the de-duplication of what comes back, which repositories are
//! worth contributing to, and the order in which they are taken.
//!
//! The searches themselves are done by the application.
use vstd::prelude::*;

use crate::common::config::DiscoveryConfig;
use crate::common::models::DiscoveryCriteria;
use crate::ranking::{insert_ranked, is_ranked, lemma_ranked, ranked};
use crate::text::{
    append_chars, append_str, chars_eq, chars_of, decimal_i64, join, join_chars,
    signed_decimal, string_from_chars, views,
};

verus! {

pub open spec fn string_views(v: Seq<String>) -> Seq<Seq<char>> {
    v.map_values(|s: String| s@)
}

fn copy_strings(v: &Vec<String>) -> (r: Vec<String>)
    ensures
        string_views(r@) == string_views(v@),
{
    let mut out: Vec<String> = Vec::new();
    let mut k: usize = 0;
    while k < v.len()
        invariant
            k <= v@.len(),
            string_views(out@) == string_views(v@).take(k as int),
        decreases v.len() - k,
    {
        let s = v[k].clone();
        proof {
            assert(string_views(out@.push(s)) =~= string_views(out@).push(s@));
            assert(string_views(v@).take(k + 1) =~= string_views(v@).take(k as int).push(v@[k as int]@));
        }
        out.push(s);
        k = k + 1;
    }
    proof {
        assert(string_views(v@).take(k as int) =~= string_views(v@));
    }
    out
}

/// Discovers contribution-friendly open source repositories.
pub struct RepoDiscovery {
    config: DiscoveryConfig,
}

impl RepoDiscovery {
    pub fn new(config: DiscoveryConfig) -> (r: Self)
        ensures
            r.languages() == string_views(config.languages@),
            r.stars_min() == config.stars_min,
            r.stars_max() == config.stars_max,
            r.max_results() == config.max_results,
    {
        RepoDiscovery { config }
    }

    pub closed spec fn languages(self) -> Seq<Seq<char>> {
        string_views(self.config.languages@)
    }

    pub closed spec fn stars_min(self) -> i64 {
        self.config.stars_min
    }

    pub closed spec fn stars_max(self) -> i64 {
        self.config.stars_max
    }

    pub closed spec fn max_results(self) -> usize {
        self.config.max_results
    }

    /// The criteria used when none are given: the configured languages, star
    /// range and result count, activity within 30 days, nothing else.
    pub fn criteria_from_config(&self) -> (r: DiscoveryCriteria)
        ensures
            string_views(r.languages@) == self.languages(),
            r.stars_min == self.stars_min(),
            r.stars_max == self.stars_max(),
            r.max_results == self.max_results(),
            r.min_last_activity_days == 30,
            !r.require_contributing_guide,
            r.topics@.len() == 0,
            r.exclude_repos@.len() == 0,
            r.sort is None,
            r.page is None,
    {
        DiscoveryCriteria {
            languages: copy_strings(&self.config.languages),
            stars_min: self.config.stars_min,
            stars_max: self.config.stars_max,
            max_results: self.config.max_results,
            min_last_activity_days: 30,
            require_contributing_guide: false,
            topics: Vec::new(),
            exclude_repos: Vec::new(),
            sort: None,
            page: None,
        }
    }
}

// ── Search queries ───────────────────────────────────────────────────────────

/// The parts of the search query for one language: language, star range,
/// not archived, public, pushed after the cutoff date (when an activity
/// window is set), then one part per topic.
pub open spec fn query_parts(
    language: Seq<char>,
    stars_min: i64,
    stars_max: i64,
    min_last_activity_days: i64,
    pushed_after: Seq<char>,
    topics: Seq<Seq<char>>,
) -> Seq<Seq<char>> {
    let base = seq![
        "language:"@ + language,
        "stars:"@ + signed_decimal(stars_min as int) + ".."@ + signed_decimal(stars_max as int),
        "archived:false"@,
        "is:public"@,
    ];
    let with_date = if min_last_activity_days > 0 {
        base.push("pushed:>"@ + pushed_after)
    } else {
        base
    };
    with_date + topics.map_values(|t: Seq<char>| "topic:"@ + t)
}

/// The search query for one language of `criteria`; `pushed_after` is the
/// cutoff date (`YYYY-MM-DD`) of the activity window.
pub fn search_query(criteria: &DiscoveryCriteria, language: &str, pushed_after: &str) -> (r: String)
    ensures
        r@ == join(
            query_parts(
                language@,
                criteria.stars_min,
                criteria.stars_max,
                criteria.min_last_activity_days,
                pushed_after@,
                string_views(criteria.topics@),
            ),
            " "@,
        ),
{
    let mut parts: Vec<Vec<char>> = Vec::new();
    let mut p1 = chars_of("language:");
    append_str(&mut p1, language);
    parts.push(p1);
    let mut p2 = chars_of("stars:");
    let a = decimal_i64(criteria.stars_min);
    append_chars(&mut p2, &a);
    append_str(&mut p2, "..");
    let b = decimal_i64(criteria.stars_max);
    append_chars(&mut p2, &b);
    parts.push(p2);
    parts.push(chars_of("archived:false"));
    parts.push(chars_of("is:public"));
    if criteria.min_last_activity_days > 0 {
        let mut p = chars_of("pushed:>");
        append_str(&mut p, pushed_after);
        parts.push(p);
    }
    let ghost head = views(parts@);
    let ghost tv = string_views(criteria.topics@);
    let mut k: usize = 0;
    while k < criteria.topics.len()
        invariant
            k <= criteria.topics@.len(),
            tv == string_views(criteria.topics@),
            views(parts@) == head + tv.take(k as int).map_values(|t: Seq<char>| "topic:"@ + t),
        decreases criteria.topics.len() - k,
    {
        let mut p = chars_of("topic:");
        append_str(&mut p, criteria.topics[k].as_str());
        proof {
            assert(views(parts@.push(p)) =~= views(parts@).push(p@));
            assert(tv.take(k + 1).map_values(|t: Seq<char>| "topic:"@ + t) =~= tv.take(
                k as int,
            ).map_values(|t: Seq<char>| "topic:"@ + t).push("topic:"@ + tv[k as int]));
        }
        parts.push(p);
        k = k + 1;
    }
    proof {
        assert(tv.take(k as int) =~= tv);
        let base = seq![
            "language:"@ + language@,
            "stars:"@ + signed_decimal(criteria.stars_min as int) + ".."@ + signed_decimal(
                criteria.stars_max as int,
            ),
            "archived:false"@,
            "is:public"@,
        ];
        if criteria.min_last_activity_days > 0 {
            assert(head =~= base.push("pushed:>"@ + pushed_after@));
        } else {
            assert(head =~= base);
        }
    }
    let sep = chars_of(" ");
    let q = join_chars(&parts, &sep);
    string_from_chars(&q)
}

/// Results asked for per search page: twice the wanted count, at most 30.
pub fn results_per_page(max_results: usize) -> (r: u32)
    ensures
        r == if 2 * max_results < 30 {
            2 * max_results
        } else {
            30
        },
{
    if max_results < 15 {
        (max_results * 2) as u32
    } else {
        30
    }
}

// ── De-duplication ───────────────────────────────────────────────────────────

/// Indices of the search results kept: the first result of each repository
/// name, unless the name is excluded.
pub open spec fn kept_results(names: Seq<Seq<char>>, excluded: Seq<Seq<char>>) -> Seq<int>
    decreases names.len(),
{
    if names.len() == 0 {
        seq![]
    } else {
        let rest = kept_results(names.drop_last(), excluded);
        let n = names.last();
        if names.drop_last().contains(n) || excluded.contains(n) {
            rest
        } else {
            rest.push(names.len() - 1)
        }
    }
}

fn holds_name(list: &[String], upto: usize, name: &str) -> (b: bool)
    requires
        upto <= list@.len(),
    ensures
        b == string_views(list@).take(upto as int).contains(name@),
{
    let n = chars_of(name);
    let mut k: usize = 0;
    while k < upto
        invariant
            k <= upto <= list@.len(),
            n@ == name@,
            forall|i: int| 0 <= i < k ==> string_views(list@)[i] != name@,
        decreases upto - k,
    {
        let c = chars_of(list[k].as_str());
        if chars_eq(&c, &n) {
            proof {
                assert(string_views(list@).take(upto as int)[k as int] == name@);
            }
            return true;
        }
        k = k + 1;
    }
    proof {
        assert forall|i: int| 0 <= i < upto implies string_views(list@).take(upto as int)[i] != name@ by {
            assert(string_views(list@).take(upto as int)[i] == string_views(list@)[i]);
        }
    }
    false
}

/// Which search results to keep, by repository full name: each name once,
/// excluded names never.
pub fn unique_results(full_names: &[String], exclude_repos: &[String]) -> (r: Vec<usize>)
    ensures
        r@.map_values(|i: usize| i as int) == kept_results(string_views(full_names@), string_views(exclude_repos@)),
{
    let ghost nv = string_views(full_names@);
    let ghost ev = string_views(exclude_repos@);
    let mut kept: Vec<usize> = Vec::new();
    let mut k: usize = 0;
    proof {
        assert(nv.take(0) =~= seq![]);
        assert(kept@.map_values(|i: usize| i as int) =~= seq![]);
    }
    while k < full_names.len()
        invariant
            k <= full_names@.len(),
            nv == string_views(full_names@),
            ev == string_views(exclude_repos@),
            kept@.map_values(|i: usize| i as int) == kept_results(nv.take(k as int), ev),
        decreases full_names.len() - k,
    {
        proof {
            assert(nv.take(k + 1).drop_last() =~= nv.take(k as int));
            assert(nv.take(k + 1).last() == nv[k as int]);
            assert(ev.take(exclude_repos@.len() as int) =~= ev);
        }
        let name = full_names[k].as_str();
        let seen = holds_name(full_names, k, name);
        let excluded = holds_name(exclude_repos, exclude_repos.len(), name);
        if !seen && !excluded {
            proof {
                assert(kept@.push(k).map_values(|i: usize| i as int) =~= kept@.map_values(
                    |i: usize| i as int,
                ).push(k as int));
            }
            kept.push(k);
        }
        k = k + 1;
    }
    proof {
        assert(nv.take(k as int) =~= nv);
    }
    kept
}

// ── Filtering and priority ───────────────────────────────────────────────────

/// What filtering and prioritizing read of a repository.
#[derive(Debug, Clone, Copy, PartialEq, Eq, Structural)]
pub struct RepoSignals {
    pub stars: i64,
    pub forks: i64,
    pub open_issues: i64,
    pub has_license: bool,
    pub has_contributing: bool,
}

/// Whether a search result is worth contributing to: it has open issues,
/// has a contributing guide when one is required (`has_guide` is what the
/// lookup found, consulted only then), and was pushed to no earlier than the
/// activity cutoff (when its last push is known). Times are seconds since
/// the epoch.
pub open spec fn worth_contributing(
    open_issues: i64,
    require_guide: bool,
    has_guide: bool,
    last_push: Option<i64>,
    cutoff: i64,
) -> bool {
    &&& open_issues != 0
    &&& (require_guide ==> has_guide)
    &&& !(last_push matches Some(t) && t < cutoff)
}

pub fn is_contributable(
    open_issues: i64,
    require_guide: bool,
    has_guide: bool,
    last_push: Option<i64>,
    cutoff: i64,
) -> (r: bool)
    ensures
        r == worth_contributing(open_issues, require_guide, has_guide, last_push, cutoff),
{
    if open_issues == 0 {
        return false;
    }
    if require_guide && !has_guide {
        return false;
    }
    match last_push {
        Some(t) => t >= cutoff,
        None => true,
    }
}

/// A repository's contribution potential, in tenths of a point: 3 points for
/// 100 to 5000 stars (1 below, 2 above), a tenth per open issue up to 3
/// points, 1 for a license, 2 for a contributing guide, and 1.5 for 10 to
/// 500 forks.
pub open spec fn potential(r: RepoSignals) -> int {
    let stars: int = if 100 <= r.stars <= 5000 {
        30
    } else if r.stars < 100 {
        10
    } else {
        20
    };
    let issues: int = if r.open_issues < 30 {
        r.open_issues as int
    } else {
        30
    };
    let license: int = if r.has_license {
        10
    } else {
        0
    };
    let guide: int = if r.has_contributing {
        20
    } else {
        0
    };
    let forks: int = if 10 <= r.forks <= 500 {
        15
    } else {
        0
    };
    stars + issues + license + guide + forks
}

/// Entries ranked by their second component, larger first.
pub open spec fn by_score() -> spec_fn((int, int), (int, int)) -> bool {
    |a: (int, int), b: (int, int)| a.1 >= b.1
}

/// Each repository's index with its potential.
pub open spec fn scored(repos: Seq<RepoSignals>) -> Seq<(int, int)> {
    Seq::new(repos.len(), |i: int| (i, potential(repos[i])))
}

/// The order in which repositories are taken: by potential, highest first,
/// equal potentials in the order the search returned them.
pub open spec fn priority_order(repos: Seq<RepoSignals>) -> Seq<int> {
    ranked(scored(repos), by_score()).map_values(|e: (int, int)| e.0)
}

fn potential_exec(r: &RepoSignals) -> (p: i128)
    ensures
        p == potential(*r),
{
    let stars: i128 = if 100 <= r.stars && r.stars <= 5000 {
        30
    } else if r.stars < 100 {
        10
    } else {
        20
    };
    let issues: i128 = if r.open_issues < 30 {
        r.open_issues as i128
    } else {
        30
    };
    let license: i128 = if r.has_license {
        10
    } else {
        0
    };
    let guide: i128 = if r.has_contributing {
        20
    } else {
        0
    };
    let forks: i128 = if 10 <= r.forks && r.forks <= 500 {
        15
    } else {
        0
    };
    stars + issues + license + guide + forks
}

pub open spec fn score_views(v: Seq<(usize, i128)>) -> Seq<(int, int)> {
    v.map_values(|e: (usize, i128)| (e.0 as int, e.1 as int))
}

fn insert_scored(sorted: &mut Vec<(usize, i128)>, x: (usize, i128))
    ensures
        score_views(final(sorted)@) == insert_ranked(
            score_views(old(sorted)@),
            (x.0 as int, x.1 as int),
            by_score(),
        ),
{
    let ghost xv = (x.0 as int, x.1 as int);
    let ghost s0 = score_views(sorted@);
    let ghost ge = by_score();
    let mut j: usize = sorted.len();
    proof {
        assert(s0.take(j as int) =~= s0);
        assert(s0.skip(j as int) =~= seq![]);
        assert(insert_ranked(s0, xv, ge) + seq![] =~= insert_ranked(s0, xv, ge));
    }
    while j > 0 && sorted[j - 1].1 < x.1
        invariant
            j <= sorted@.len(),
            s0 == score_views(sorted@),
            xv == (x.0 as int, x.1 as int),
            ge == by_score(),
            insert_ranked(s0, xv, ge) == insert_ranked(s0.take(j as int), xv, ge) + s0.skip(j as int),
        decreases j,
    {
        proof {
            let t = s0.take(j as int);
            assert(t.last() == s0[j - 1]);
            assert(t.drop_last() =~= s0.take(j - 1));
            assert(s0[j - 1] == (sorted@[j - 1].0 as int, sorted@[j - 1].1 as int));
            assert(!ge(t.last(), xv));
            assert(insert_ranked(t, xv, ge) == insert_ranked(s0.take(j - 1), xv, ge).push(t.last()));
            assert(s0.skip(j - 1) =~= seq![s0[j - 1]] + s0.skip(j as int));
            assert(insert_ranked(s0.take(j - 1), xv, ge).push(t.last()) + s0.skip(j as int)
                =~= insert_ranked(s0.take(j - 1), xv, ge) + s0.skip(j - 1));
        }
        j = j - 1;
    }
    proof {
        let t = s0.take(j as int);
        if j > 0 {
            assert(t.last() == s0[j - 1]);
            assert(ge(t.last(), xv));
            assert(insert_ranked(t, xv, ge) == t.push(xv));
        } else {
            assert(t =~= seq![]);
            assert(insert_ranked(t, xv, ge) == seq![xv]);
            assert(t.push(xv) =~= seq![xv]);
        }
        assert(insert_ranked(s0, xv, ge) =~= s0.insert(j as int, xv));
    }
    sorted.insert(j, x);
    proof {
        assert(score_views(sorted@) =~= s0.insert(j as int, xv));
    }
}

/// Indices of the repositories in the order they are taken.
pub fn prioritize(repos: &[RepoSignals]) -> (order: Vec<usize>)
    ensures
        order@.map_values(|i: usize| i as int) == priority_order(repos@),
{
    let ghost entries = scored(repos@);
    let mut sorted: Vec<(usize, i128)> = Vec::new();
    let mut i: usize = 0;
    proof {
        assert(score_views(sorted@) =~= seq![]);
        assert(entries.take(0) =~= seq![]);
    }
    while i < repos.len()
        invariant
            i <= repos@.len(),
            entries == scored(repos@),
            score_views(sorted@) == ranked(entries.take(i as int), by_score()),
        decreases repos.len() - i,
    {
        proof {
            assert(entries.take(i + 1).drop_last() =~= entries.take(i as int));
            assert(entries.take(i + 1).last() == entries[i as int]);
        }
        let p = potential_exec(&repos[i]);
        insert_scored(&mut sorted, (i, p));
        i = i + 1;
    }
    proof {
        assert(entries.take(i as int) =~= entries);
    }
    let ghost full = score_views(sorted@);
    let mut out: Vec<usize> = Vec::new();
    let mut k: usize = 0;
    while k < sorted.len()
        invariant
            k <= sorted@.len(),
            full == score_views(sorted@),
            out@.map_values(|i: usize| i as int) == full.take(k as int).map_values(|e: (int, int)| e.0),
        decreases sorted.len() - k,
    {
        proof {
            assert(full[k as int] == (sorted@[k as int].0 as int, sorted@[k as int].1 as int));
            assert(full.take(k + 1).map_values(|e: (int, int)| e.0) =~= full.take(k as int).map_values(
                |e: (int, int)| e.0,
            ).push(sorted@[k as int].0 as int));
            assert(out@.push(sorted@[k as int].0).map_values(|i: usize| i as int) =~= out@.map_values(
                |i: usize| i as int,
            ).push(sorted@[k as int].0 as int));
        }
        out.push(sorted[k].0);
        k = k + 1;
    }
    proof {
        assert(full.take(k as int) =~= full);
    }
    out
}

/// What each signal is worth, all else equal: a contributing guide adds 2
/// points (20 tenths) and a license 1 point (10 tenths); more open issues
/// never lower the potential.
pub proof fn lemma_signal_weights(r: RepoSignals)
    ensures
        potential(RepoSignals { has_contributing: true, ..r }) == potential(
            RepoSignals { has_contributing: false, ..r },
        ) + 20,
        potential(RepoSignals { has_license: true, ..r }) == potential(
            RepoSignals { has_license: false, ..r },
        ) + 10,
        forall|more: i64|
            more >= r.open_issues ==> #[trigger] potential(RepoSignals { open_issues: more, ..r })
                >= potential(r),
{
}

/// Of two repositories that differ only in that one has a contributing guide,
/// the one with the guide is taken first.
pub proof fn lemma_guide_taken_first(repos: Seq<RepoSignals>, x: int, y: int)
    requires
        0 <= x < repos.len(),
        0 <= y < repos.len(),
        !repos[y].has_contributing,
        repos[x] == (RepoSignals { has_contributing: true, ..repos[y] }),
    ensures
        forall|a: int, b: int|
            0 <= a < repos.len() && 0 <= b < repos.len() && priority_order(repos)[a] == x
                && priority_order(repos)[b] == y ==> a < b,
{
    lemma_priority_order(repos);
    lemma_signal_weights(repos[y]);
    assert(repos[y] == (RepoSignals { has_contributing: false, ..repos[y] }));
    assert(potential(repos[x]) == potential(repos[y]) + 20);
    assert forall|a: int, b: int|
        0 <= a < repos.len() && 0 <= b < repos.len() && priority_order(repos)[a] == x
            && priority_order(repos)[b] == y implies a < b by {
        if b < a {
            assert(potential(repos[priority_order(repos)[b]]) >= potential(
                repos[priority_order(repos)[a]],
            ));
        }
    }
}

/// Prioritizing takes every repository exactly once, and a repository is
/// never taken before one with a higher potential.
pub proof fn lemma_priority_order(repos: Seq<RepoSignals>)
    ensures
        priority_order(repos).len() == repos.len(),
        forall|m: int| 0 <= m < repos.len() ==> priority_order(repos).contains(m),
        forall|k: int|
            0 <= k < priority_order(repos).len() ==> 0 <= #[trigger] priority_order(repos)[k]
                < repos.len(),
        forall|a: int, b: int|
            0 <= a < b < repos.len() ==> potential(repos[priority_order(repos)[a]]) >= potential(
                repos[priority_order(repos)[b]],
            ),
{
    broadcast use vstd::seq_lib::group_to_multiset_ensures;

    let entries = scored(repos);
    let ge = by_score();
    let r = ranked(entries, ge);
    let order = priority_order(repos);
    assert(crate::ranking::is_total_preorder(ge));
    lemma_ranked(entries, ge);
    assert(r.to_multiset().len() == entries.to_multiset().len());
    assert(r.len() == entries.len());
    assert forall|k: int| 0 <= k < r.len() implies #[trigger] r[k] == entries[r[k].0] && 0 <= r[k].0
        < repos.len() by {
        assert(r.to_multiset().count(r[k]) > 0);
        assert(entries.contains(r[k]));
        let m = choose|m: int| 0 <= m < entries.len() && entries[m] == r[k];
        assert(entries[m].0 == m);
    }
    assert forall|m: int| 0 <= m < repos.len() implies order.contains(m) by {
        assert(entries[m] == (m, potential(repos[m])));
        assert(entries.to_multiset().count(entries[m]) > 0);
        assert(r.contains(entries[m]));
        let k = choose|k: int| 0 <= k < r.len() && r[k] == entries[m];
        assert(order[k] == m);
    }
    assert forall|a: int, b: int| 0 <= a < b < repos.len() implies potential(repos[order[a]])
        >= potential(repos[order[b]]) by {
        assert(is_ranked(r, ge));
        assert(ge(r[a], r[b]));
        assert(r[a] == entries[r[a].0]);
        assert(r[b] == entries[r[b].0]);
    }
}

} // verus!
