//! Contribution leaderboard: how well contributions to a repository or of a
//! kind fare, from counts of merged, closed and open pull requests.
//!
//! Querying the `submitted_prs` table is the application's work; the rows it
//! reads are handed to the functions here.
use vstd::prelude::*;

use crate::orchestrator::memory::PrRecord;
use crate::ranking::{insert_ranked, is_ranked, is_total_preorder, lemma_ranked, ranked};
use crate::text::{chars_eq_str, chars_of, copy_chars, string_from_chars, views};
use crate::web::{distinct_repos, pr_count, repo_index};

verus! {

/// A single leaderboard entry.
#[derive(Debug, Clone)]
pub struct LeaderboardEntry {
    pub repo: String,
    pub total_prs: i64,
    pub merged: i64,
    pub closed: i64,
    pub open: i64,
}

/// Stats per contribution type.
#[derive(Debug, Clone)]
pub struct TypeStats {
    pub contribution_type: String,
    pub total: i64,
    pub merged: i64,
    pub closed: i64,
}

/// A recently merged PR entry.
#[derive(Debug, Clone)]
pub struct RecentMerge {
    pub repo: String,
    pub pr_number: i64,
    pub pr_url: String,
    pub title: String,
    pub contribution_type: String,
    pub merged_at: String,
}

/// The merge rate `100 * merged / (merged + closed)` is at least `pct`
/// (a rate with no decided PRs counts as zero).
pub open spec fn rate_at_least(merged: int, closed: int, pct: int) -> bool {
    let decided = merged + closed;
    if decided == 0 {
        0 >= pct
    } else if decided > 0 {
        100 * merged >= pct * decided
    } else {
        100 * merged <= pct * decided
    }
}

/// The merge rate is above zero.
pub open spec fn rate_positive(merged: int, closed: int) -> bool {
    let decided = merged + closed;
    (decided > 0 && merged > 0) || (decided < 0 && merged < 0)
}

/// The standing of a merge record: `excellent` from 70%, `good` from 40%,
/// `needs_improvement` above zero, else `pending`.
pub open spec fn standing(merged: int, closed: int) -> Seq<char> {
    if rate_at_least(merged, closed, 70) {
        "excellent"@
    } else if rate_at_least(merged, closed, 40) {
        "good"@
    } else if rate_positive(merged, closed) {
        "needs_improvement"@
    } else {
        "pending"@
    }
}

fn rate_at_least_exec(merged: i64, closed: i64, pct: i128) -> (b: bool)
    requires
        0 <= pct <= 100,
    ensures
        b == rate_at_least(merged as int, closed as int, pct as int),
{
    let decided: i128 = merged as i128 + closed as i128;
    let m: i128 = merged as i128;
    assert(-100 * 0x1_0000_0000_0000_0000 <= pct * decided <= 100 * 0x1_0000_0000_0000_0000)
        by (nonlinear_arith)
        requires
            0 <= pct <= 100,
            -0x1_0000_0000_0000_0000 <= decided <= 0x1_0000_0000_0000_0000,
    ;
    if decided == 0 {
        0 >= pct
    } else if decided > 0 {
        100 * m >= pct * decided
    } else {
        100 * m <= pct * decided
    }
}

impl LeaderboardEntry {
    /// The repository's standing by merge rate.
    pub fn status(&self) -> (r: &'static str)
        ensures
            r@ == standing(self.merged as int, self.closed as int),
    {
        if rate_at_least_exec(self.merged, self.closed, 70) {
            "excellent"
        } else if rate_at_least_exec(self.merged, self.closed, 40) {
            "good"
        } else {
            let decided: i128 = self.merged as i128 + self.closed as i128;
            if (decided > 0 && self.merged > 0) || (decided < 0 && self.merged < 0) {
                "needs_improvement"
            } else {
                "pending"
            }
        }
    }
}

// ── Overall counts ───────────────────────────────────────────────────────────

/// PR counts by status over all repositories.
#[derive(Debug, Clone, Copy, PartialEq, Eq, Structural)]
pub struct StatusCounts {
    pub total: i64,
    pub merged: i64,
    pub closed: i64,
    pub open: i64,
}

pub open spec fn row_views(rows: Seq<(String, i64)>) -> Seq<(Seq<char>, int)> {
    rows.map_values(|r: (String, i64)| (r.0@, r.1 as int))
}

/// Sum of the counts of all rows.
pub open spec fn total_count(rows: Seq<(Seq<char>, int)>) -> int
    decreases rows.len(),
{
    if rows.len() == 0 {
        0
    } else {
        total_count(rows.drop_last()) + rows.last().1
    }
}

/// The count of the last row with `status` (zero when there is none).
pub open spec fn count_of(rows: Seq<(Seq<char>, int)>, status: Seq<char>) -> int
    decreases rows.len(),
{
    if rows.len() == 0 {
        0
    } else if rows.last().0 == status {
        rows.last().1
    } else {
        count_of(rows.drop_last(), status)
    }
}

/// Every running total of the counts fits in an `i64`.
pub open spec fn totals_fit(rows: Seq<(Seq<char>, int)>) -> bool {
    forall|k: int| 0 <= k <= rows.len() ==> i64::MIN <= #[trigger] total_count(rows.take(k)) <= i64::MAX
}

/// Overall counts from `(status, count)` rows, one per status.
pub fn status_counts(rows: &[(String, i64)]) -> (r: StatusCounts)
    requires
        totals_fit(row_views(rows@)),
    ensures
        r.total == total_count(row_views(rows@)),
        r.merged == count_of(row_views(rows@), "merged"@),
        r.closed == count_of(row_views(rows@), "closed"@),
        r.open == count_of(row_views(rows@), "open"@),
{
    let ghost rv = row_views(rows@);
    let mut c = StatusCounts { total: 0, merged: 0, closed: 0, open: 0 };
    let mut k: usize = 0;
    proof {
        assert(rv.take(0) =~= seq![]);
        reveal_strlit("merged");
        reveal_strlit("closed");
        reveal_strlit("open");
        assert("merged"@ != "closed"@ && "merged"@ != "open"@ && "closed"@ != "open"@) by {
            assert("merged"@[0] != "closed"@[0]);
            assert("merged"@[0] != "open"@[0]);
            assert("closed"@[0] != "open"@[0]);
        }
    }
    while k < rows.len()
        invariant
            k <= rows@.len(),
            rv == row_views(rows@),
            totals_fit(rv),
            c.total == total_count(rv.take(k as int)),
            c.merged == count_of(rv.take(k as int), "merged"@),
            c.closed == count_of(rv.take(k as int), "closed"@),
            c.open == count_of(rv.take(k as int), "open"@),
            "merged"@ != "closed"@ && "merged"@ != "open"@ && "closed"@ != "open"@,
        decreases rows.len() - k,
    {
        proof {
            assert(rv.take(k + 1).drop_last() =~= rv.take(k as int));
            assert(rv.take(k + 1).last() == rv[k as int]);
            assert(i64::MIN <= total_count(rv.take(k + 1)) <= i64::MAX);
        }
        let (status, count) = (&rows[k].0, rows[k].1);
        c.total = c.total + count;
        if chars_eq_str(crate::text::chars_of(status.as_str()).as_slice(), "merged") {
            c.merged = count;
        } else if chars_eq_str(crate::text::chars_of(status.as_str()).as_slice(), "closed") {
            c.closed = count;
        } else if chars_eq_str(crate::text::chars_of(status.as_str()).as_slice(), "open") {
            c.open = count;
        }
        k = k + 1;
    }
    proof {
        assert(rv.take(k as int) =~= rv);
    }
    c
}

// ── Repository table ─────────────────────────────────────────────────────────

/// `merged` as a whole percentage of `total`, rounded down (0 when there is
/// no PR). Computed in 128 bits, so that no count overflows.
pub fn merge_percent(merged: u64, total: u64) -> (r: u128)
    ensures
        r == if total == 0 {
            0
        } else {
            (100 * merged) / (total as int)
        },
{
    if total == 0 {
        0
    } else {
        let num: u128 = 100 * (merged as u128);
        let den: u128 = total as u128;
        num / den
    }
}

/// One row of the leaderboard's repository table.
#[derive(Debug, Clone)]
pub struct RepoTally {
    pub repo: String,
    pub total: usize,
    pub merged: usize,
    pub closed: usize,
}

/// How many of the records to `repo` have `status`.
pub open spec fn status_count(prs: Seq<PrRecord>, repo: Seq<char>, status: Seq<char>) -> nat
    decreases prs.len(),
{
    if prs.len() == 0 {
        0
    } else {
        status_count(prs.drop_last(), repo, status) + if prs.last().repo@ == repo
            && prs.last().status@ == status {
            1nat
        } else {
            0nat
        }
    }
}

pub type TallyView = (Seq<char>, nat, nat, nat);

/// A repository's row: its name, PRs, merged PRs and closed PRs.
pub open spec fn tally_of(prs: Seq<PrRecord>, repo: Seq<char>) -> TallyView {
    (repo, pr_count(prs, repo), status_count(prs, repo, "merged"@), status_count(prs, repo, "closed"@))
}

/// Rows ranked by merged PRs, then by PRs, more first.
pub open spec fn by_merges() -> spec_fn(TallyView, TallyView) -> bool {
    |a: TallyView, b: TallyView| a.2 > b.2 || (a.2 == b.2 && a.1 >= b.1)
}

/// The leaderboard's repository table: a row per repository, ranked by
/// merged PRs and then by PRs, rows that rank alike by first appearance, at
/// most `limit` rows.
pub open spec fn repo_table(prs: Seq<PrRecord>, limit: nat) -> Seq<TallyView> {
    let s = ranked(distinct_repos(prs).map_values(|r: Seq<char>| tally_of(prs, r)), by_merges());
    if s.len() <= limit {
        s
    } else {
        s.take(limit as int)
    }
}

pub open spec fn tally_views(v: Seq<RepoTally>) -> Seq<TallyView> {
    v.map_values(|t: RepoTally| (t.repo@, t.total as nat, t.merged as nat, t.closed as nat))
}

pub open spec fn row_tuple_views(v: Seq<(Vec<char>, usize, usize, usize)>) -> Seq<TallyView> {
    v.map_values(|t: (Vec<char>, usize, usize, usize)| (t.0@, t.1 as nat, t.2 as nat, t.3 as nat))
}

fn tally_exec(prs: &[PrRecord], repo: &Vec<char>) -> (r: (usize, usize, usize))
    ensures
        r.0 == pr_count(prs@, repo@),
        r.1 == status_count(prs@, repo@, "merged"@),
        r.2 == status_count(prs@, repo@, "closed"@),
{
    let mut total: usize = 0;
    let mut merged: usize = 0;
    let mut closed: usize = 0;
    let mut k: usize = 0;
    while k < prs.len()
        invariant
            k <= prs@.len(),
            total <= k,
            merged <= k,
            closed <= k,
            total == pr_count(prs@.take(k as int), repo@),
            merged == status_count(prs@.take(k as int), repo@, "merged"@),
            closed == status_count(prs@.take(k as int), repo@, "closed"@),
        decreases prs.len() - k,
    {
        proof {
            assert(prs@.take(k + 1).drop_last() =~= prs@.take(k as int));
            assert(prs@.take(k + 1).last() == prs@[k as int]);
        }
        if crate::text::chars_eq(chars_of(prs[k].repo.as_str()).as_slice(), repo) {
            total = total + 1;
            let st = chars_of(prs[k].status.as_str());
            if chars_eq_str(&st, "merged") {
                merged = merged + 1;
            }
            if chars_eq_str(&st, "closed") {
                closed = closed + 1;
            }
        }
        k = k + 1;
    }
    proof {
        assert(prs@.take(k as int) =~= prs@);
    }
    (total, merged, closed)
}

fn ranks_at_least(a: &(Vec<char>, usize, usize, usize), b: &(Vec<char>, usize, usize, usize)) -> (r: bool)
    ensures
        r == by_merges()(
            (a.0@, a.1 as nat, a.2 as nat, a.3 as nat),
            (b.0@, b.1 as nat, b.2 as nat, b.3 as nat),
        ),
{
    a.2 > b.2 || (a.2 == b.2 && a.1 >= b.1)
}

fn insert_tally(sorted: &mut Vec<(Vec<char>, usize, usize, usize)>, x: (Vec<char>, usize, usize, usize))
    ensures
        row_tuple_views(final(sorted)@) == insert_ranked(
            row_tuple_views(old(sorted)@),
            (x.0@, x.1 as nat, x.2 as nat, x.3 as nat),
            by_merges(),
        ),
{
    let ghost xv = (x.0@, x.1 as nat, x.2 as nat, x.3 as nat);
    let ghost s0 = row_tuple_views(sorted@);
    let ghost ge = by_merges();
    let mut j: usize = sorted.len();
    proof {
        assert(s0.take(j as int) =~= s0);
        assert(s0.skip(j as int) =~= seq![]);
        assert(insert_ranked(s0, xv, ge) + seq![] =~= insert_ranked(s0, xv, ge));
    }
    while j > 0 && !ranks_at_least(&sorted[j - 1], &x)
        invariant
            j <= sorted@.len(),
            s0 == row_tuple_views(sorted@),
            xv == (x.0@, x.1 as nat, x.2 as nat, x.3 as nat),
            ge == by_merges(),
            insert_ranked(s0, xv, ge) == insert_ranked(s0.take(j as int), xv, ge) + s0.skip(j as int),
        decreases j,
    {
        proof {
            let t = s0.take(j as int);
            assert(t.last() == s0[j - 1]);
            assert(t.drop_last() =~= s0.take(j - 1));
            assert(insert_ranked(t, xv, ge) == insert_ranked(s0.take(j - 1), xv, ge).push(t.last()));
            assert(s0.skip(j - 1) =~= seq![s0[j - 1]] + s0.skip(j as int));
            assert(insert_ranked(s0.take(j - 1), xv, ge).push(t.last()) + s0.skip(j as int)
                =~= insert_ranked(s0.take(j - 1), xv, ge) + s0.skip(j - 1));
        }
        j = j - 1;
    }
    proof {
        let t = s0.take(j as int);
        if j > 0 {
            assert(t.last() == s0[j - 1]);
            assert(insert_ranked(t, xv, ge) == t.push(xv));
        } else {
            assert(t =~= seq![]);
            assert(insert_ranked(t, xv, ge) == seq![xv]);
            assert(t.push(xv) =~= seq![xv]);
        }
        assert(insert_ranked(s0, xv, ge) =~= s0.insert(j as int, xv));
    }
    sorted.insert(j, x);
    proof {
        assert(row_tuple_views(sorted@) =~= s0.insert(j as int, xv));
    }
}

/// The leaderboard's repository table over the given PR records.
pub fn repo_leaderboard(prs: &[PrRecord], limit: usize) -> (r: Vec<RepoTally>)
    ensures
        tally_views(r@) == repo_table(prs@, limit as nat),
{
    let mut repos: Vec<Vec<char>> = Vec::new();
    let mut k: usize = 0;
    proof {
        assert(views(repos@) =~= seq![]);
    }
    while k < prs.len()
        invariant
            k <= prs@.len(),
            views(repos@) == distinct_repos(prs@.take(k as int)),
        decreases prs.len() - k,
    {
        proof {
            assert(prs@.take(k + 1).drop_last() =~= prs@.take(k as int));
        }
        let rc = chars_of(prs[k].repo.as_str());
        if repo_index(&repos, &rc).is_none() {
            proof {
                assert(views(repos@.push(rc)) =~= views(repos@).push(rc@));
            }
            repos.push(rc);
        }
        k = k + 1;
    }
    proof {
        assert(prs@.take(k as int) =~= prs@);
    }
    let ghost rows = distinct_repos(prs@).map_values(|r: Seq<char>| tally_of(prs@, r));
    let mut sorted: Vec<(Vec<char>, usize, usize, usize)> = Vec::new();
    let mut i: usize = 0;
    proof {
        assert(row_tuple_views(sorted@) =~= seq![]);
        assert(rows.take(0) =~= seq![]);
    }
    while i < repos.len()
        invariant
            i <= repos@.len(),
            views(repos@) == distinct_repos(prs@),
            rows == distinct_repos(prs@).map_values(|r: Seq<char>| tally_of(prs@, r)),
            rows.len() == repos@.len(),
            row_tuple_views(sorted@) == ranked(rows.take(i as int), by_merges()),
        decreases repos.len() - i,
    {
        proof {
            assert(rows.take(i + 1).drop_last() =~= rows.take(i as int));
            assert(rows.take(i + 1).last() == rows[i as int]);
            assert(rows[i as int] == tally_of(prs@, views(repos@)[i as int]));
        }
        let (total, merged, closed) = tally_exec(prs, &repos[i]);
        let name = copy_chars(&repos[i]);
        insert_tally(&mut sorted, (name, total, merged, closed));
        i = i + 1;
    }
    proof {
        assert(rows.take(i as int) =~= rows);
    }
    let ghost full = row_tuple_views(sorted@);
    let n = if sorted.len() <= limit {
        sorted.len()
    } else {
        limit
    };
    let mut out: Vec<RepoTally> = Vec::new();
    let mut j: usize = 0;
    while j < n
        invariant
            j <= n,
            n <= sorted@.len(),
            full == row_tuple_views(sorted@),
            tally_views(out@) == full.take(j as int),
        decreases n - j,
    {
        let e = RepoTally {
            repo: string_from_chars(&sorted[j].0),
            total: sorted[j].1,
            merged: sorted[j].2,
            closed: sorted[j].3,
        };
        proof {
            assert(full[j as int] == (sorted@[j as int].0@, sorted@[j as int].1 as nat, sorted@[j as int].2 as nat, sorted@[j as int].3 as nat));
            assert(tally_views(out@.push(e)) =~= tally_views(out@).push(full[j as int]));
            assert(full.take(j + 1) =~= full.take(j as int).push(full[j as int]));
        }
        out.push(e);
        j = j + 1;
    }
    proof {
        if full.len() <= limit {
            assert(full.take(n as int) =~= full);
        }
    }
    out
}

/// The repository table ranks its rows: along it, merged PRs never
/// increase, and among equal merges the PR counts never increase.
pub proof fn lemma_repo_table_ranked(prs: Seq<PrRecord>, limit: nat)
    ensures
        forall|i: int, j: int|
            0 <= i < j < repo_table(prs, limit).len() ==> {
                let a = #[trigger] repo_table(prs, limit)[i];
                let b = #[trigger] repo_table(prs, limit)[j];
                a.2 > b.2 || (a.2 == b.2 && a.1 >= b.1)
            },
{
    let rows = distinct_repos(prs).map_values(|r: Seq<char>| tally_of(prs, r));
    let s = ranked(rows, by_merges());
    assert(is_total_preorder(by_merges()));
    lemma_ranked(rows, by_merges());
    assert(is_ranked(s, by_merges()));
    let t = repo_table(prs, limit);
    assert forall|i: int, j: int| 0 <= i < j < t.len() implies by_merges()(#[trigger] t[i], #[trigger] t[j]) by {
        assert(t[i] == s[i] && t[j] == s[j]);
    }
}

} // verus!
