//! Memory rules: when dream consolidation runs, what a repository's profile
//! says after it, which contribution types a repository welcomes, and how a
//! PR conversation is replayed into a prompt.
//!
//! The SQLite store is the application's; the rows it reads are handed here.
use vstd::prelude::*;

use crate::text::{
    append_chars, append_str, chars_eq, chars_eq_str, chars_of, decimal, decimal_usize, join,
    join_chars, string_from_chars, views,
};

verus! {

/// A single message in a PR conversation thread.
#[derive(Debug, Clone)]
pub struct ConversationMessage {
    pub repo: String,
    pub pr_number: i64,
    /// "maintainer", "contribai", or "bot"
    pub role: String,
    pub author: String,
    pub body: String,
    pub comment_id: i64,
    pub is_inline: bool,
    pub file_path: Option<String>,
}

/// Result of a dream consolidation pass.
#[derive(Debug)]
pub struct DreamResult {
    pub success: bool,
    pub repos_profiled: usize,
    pub entries_pruned: usize,
}

impl Default for DreamResult {
    fn default() -> (r: Self)
        ensures
            !r.success,
            r.repos_profiled == 0,
            r.entries_pruned == 0,
    {
        DreamResult { success: false, repos_profiled: 0, entries_pruned: 0 }
    }
}

// ── Dream gates ──────────────────────────────────────────────────────────────

/// Dream consolidation is due when (1) at least 24 hours passed since the
/// last dream (or there was none, or its time is unreadable), (2) at least 5
/// sessions ran since, and (3) no dream holds the lock.
pub open spec fn dream_is_due(hours_since_last: Option<i64>, sessions: i64, lock: Option<Seq<char>>) -> bool {
    &&& !(hours_since_last matches Some(h) && h < 24)
    &&& sessions >= 5
    &&& lock != Some("1"@)
}

/// Whether dream consolidation should run, given the hours since the last
/// dream (when recorded and readable), the sessions since, and the lock value.
pub fn should_dream(hours_since_last: Option<i64>, sessions: i64, lock: Option<&str>) -> (b: bool)
    ensures
        b == dream_is_due(
            hours_since_last,
            sessions,
            match lock {
                Some(l) => Some(l@),
                None => None,
            },
        ),
{
    if let Some(h) = hours_since_last {
        if h < 24 {
            return false;
        }
    }
    if sessions < 5 {
        return false;
    }
    match lock {
        Some(l) => !chars_eq_str(chars_of(l).as_slice(), "1"),
        None => true,
    }
}

// ── Conversations ────────────────────────────────────────────────────────────

/// One message of a thread: `[role @author (on path)] body`, the location
/// only for inline comments with a path.
pub open spec fn conversation_line(m: ConversationMessage) -> Seq<char> {
    let location = if m.is_inline && m.file_path is Some {
        " (on "@ + m.file_path->0@ + ")"@
    } else {
        seq![]
    };
    "["@ + m.role@ + " @"@ + m.author@ + location + "] "@ + m.body@
}

/// A thread for a prompt, one message per line, oldest first.
pub fn conversation_context(messages: &[ConversationMessage]) -> (r: String)
    ensures
        r@ == join(messages@.map_values(|m: ConversationMessage| conversation_line(m)), "\n"@),
{
    let mut lines: Vec<Vec<char>> = Vec::new();
    let mut k: usize = 0;
    while k < messages.len()
        invariant
            k <= messages@.len(),
            views(lines@) == messages@.take(k as int).map_values(
                |m: ConversationMessage| conversation_line(m),
            ),
        decreases messages.len() - k,
    {
        let m = &messages[k];
        let mut line = chars_of("[");
        append_str(&mut line, m.role.as_str());
        append_str(&mut line, " @");
        append_str(&mut line, m.author.as_str());
        if m.is_inline {
            match &m.file_path {
                Some(f) => {
                    append_str(&mut line, " (on ");
                    append_str(&mut line, f.as_str());
                    append_str(&mut line, ")");
                },
                None => {},
            }
        }
        append_str(&mut line, "] ");
        append_str(&mut line, m.body.as_str());
        proof {
            assert(line@ =~= conversation_line(messages@[k as int]));
            assert(views(lines@.push(line)) =~= views(lines@).push(line@));
            assert(messages@.take(k + 1).map_values(|m: ConversationMessage| conversation_line(m))
                =~= messages@.take(k as int).map_values(
                |m: ConversationMessage| conversation_line(m),
            ).push(conversation_line(messages@[k as int])));
        }
        lines.push(line);
        k = k + 1;
    }
    proof {
        assert(messages@.take(k as int) =~= messages@);
    }
    let sep = chars_of("\n");
    let joined = join_chars(&lines, &sep);
    string_from_chars(&joined)
}

// ── Outcome histories ────────────────────────────────────────────────────────

/// A recorded PR outcome: its contribution type, outcome and feedback.
#[derive(Debug, Clone)]
pub struct OutcomeRow {
    pub pr_type: String,
    pub outcome: String,
    pub feedback: String,
}

pub type OutcomeView = (Seq<char>, Seq<char>, Seq<char>);

pub open spec fn outcome_views(rows: Seq<OutcomeRow>) -> Seq<OutcomeView> {
    rows.map_values(|r: OutcomeRow| (r.pr_type@, r.outcome@, r.feedback@))
}

pub open spec fn string_views(v: Seq<String>) -> Seq<Seq<char>> {
    v.map_values(|s: String| s@)
}

/// Types of merged PRs, each once, in order of first merge.
pub open spec fn merged_types(rows: Seq<OutcomeView>) -> Seq<Seq<char>>
    decreases rows.len(),
{
    if rows.len() == 0 {
        seq![]
    } else {
        let before = merged_types(rows.drop_last());
        let r = rows.last();
        if r.1 == "merged"@ && !before.contains(r.0) {
            before.push(r.0)
        } else {
            before
        }
    }
}

/// Types of closed or rejected PRs, each once, in order of first refusal.
pub open spec fn refused_types(rows: Seq<OutcomeView>) -> Seq<Seq<char>>
    decreases rows.len(),
{
    if rows.len() == 0 {
        seq![]
    } else {
        let before = refused_types(rows.drop_last());
        let r = rows.last();
        if r.1 != "merged"@ && (r.1 == "closed"@ || r.1 == "rejected"@) && !before.contains(r.0) {
            before.push(r.0)
        } else {
            before
        }
    }
}

/// Number of rows, and of merged rows, of type `t`.
pub open spec fn type_counts(rows: Seq<OutcomeView>, t: Seq<char>) -> (int, int)
    decreases rows.len(),
{
    if rows.len() == 0 {
        (0, 0)
    } else {
        let c = type_counts(rows.drop_last(), t);
        let r = rows.last();
        if r.0 == t {
            (c.0 + if r.1 == "merged"@ {
                1int
            } else {
                0int
            }, c.1 + 1)
        } else {
            c
        }
    }
}

/// All types, each once, in order of first appearance.
pub open spec fn all_types(rows: Seq<OutcomeView>) -> Seq<Seq<char>>
    decreases rows.len(),
{
    if rows.len() == 0 {
        seq![]
    } else {
        let before = all_types(rows.drop_last());
        if before.contains(rows.last().0) {
            before
        } else {
            before.push(rows.last().0)
        }
    }
}

/// The types among `ts` that at least half of their PRs merged (`avoid`
/// false), or that have two or more PRs and none merged (`avoid` true).
pub open spec fn types_where(ts: Seq<Seq<char>>, rows: Seq<OutcomeView>, avoid: bool) -> Seq<Seq<char>>
    decreases ts.len(),
{
    if ts.len() == 0 {
        seq![]
    } else {
        let before = types_where(ts.drop_last(), rows, avoid);
        let c = type_counts(rows, ts.last());
        let keep = if avoid {
            c.1 >= 2 && c.0 == 0
        } else {
            c.1 > 0 && 2 * c.0 >= c.1
        };
        if keep {
            before.push(ts.last())
        } else {
            before
        }
    }
}

/// The non-empty feedbacks, in order.
pub open spec fn feedbacks(rows: Seq<OutcomeView>) -> Seq<Seq<char>>
    decreases rows.len(),
{
    if rows.len() == 0 {
        seq![]
    } else if rows.last().2.len() > 0 {
        feedbacks(rows.drop_last()).push(rows.last().2)
    } else {
        feedbacks(rows.drop_last())
    }
}

/// The maintainer-style note of a profile: how many feedbacks there were and
/// the first 60 characters of the first three.
pub open spec fn profile_notes(rows: Seq<OutcomeView>) -> Seq<char> {
    let fs = feedbacks(rows);
    if fs.len() == 0 {
        seq![]
    } else {
        let shown = fs.take(if fs.len() < 3 {
            fs.len() as int
        } else {
            3
        }).map_values(|f: Seq<char>| f.take(if f.len() < 60 {
            f.len() as int
        } else {
            60
        }));
        "Last "@ + decimal(fs.len()) + " feedbacks recorded. Patterns: "@ + join(shown, "; "@)
    }
}

/// Number of merged rows.
pub open spec fn merged_count(rows: Seq<OutcomeView>) -> int
    decreases rows.len(),
{
    if rows.len() == 0 {
        0
    } else {
        merged_count(rows.drop_last()) + if rows.last().1 == "merged"@ {
            1int
        } else {
            0int
        }
    }
}

/// What a dream pass learns about one repository.
#[derive(Debug, Clone)]
pub struct RepoProfile {
    /// Types that at least half of their PRs merged.
    pub preferred: Vec<String>,
    /// Types with two or more PRs and none merged.
    pub avoid: Vec<String>,
    pub merged: usize,
    pub total: usize,
    pub notes: String,
}

pub fn contains_text(list: &Vec<String>, s: &str) -> (b: bool)
    ensures
        b == string_views(list@).contains(s@),
{
    let sc = chars_of(s);
    let mut k: usize = 0;
    while k < list.len()
        invariant
            k <= list@.len(),
            sc@ == s@,
            forall|i: int| 0 <= i < k ==> string_views(list@)[i] != s@,
        decreases list.len() - k,
    {
        if chars_eq(chars_of(list[k].as_str()).as_slice(), &sc) {
            proof {
                assert(string_views(list@)[k as int] == s@);
            }
            return true;
        }
        k = k + 1;
    }
    false
}

/// Types merged and types refused, from a repository's outcomes.
pub fn outcome_type_lists(rows: &[OutcomeRow]) -> (r: (Vec<String>, Vec<String>))
    ensures
        string_views(r.0@) == merged_types(outcome_views(rows@)),
        string_views(r.1@) == refused_types(outcome_views(rows@)),
{
    let ghost ov = outcome_views(rows@);
    let mut merged: Vec<String> = Vec::new();
    let mut refused: Vec<String> = Vec::new();
    let mut k: usize = 0;
    proof {
        assert(ov.take(0) =~= seq![]);
        assert(string_views(merged@) =~= seq![]);
        assert(string_views(refused@) =~= seq![]);
        reveal_strlit("merged");
        reveal_strlit("closed");
        reveal_strlit("rejected");
    }
    while k < rows.len()
        invariant
            k <= rows@.len(),
            ov == outcome_views(rows@),
            string_views(merged@) == merged_types(ov.take(k as int)),
            string_views(refused@) == refused_types(ov.take(k as int)),
        decreases rows.len() - k,
    {
        proof {
            assert(ov.take(k + 1).drop_last() =~= ov.take(k as int));
            assert(ov.take(k + 1).last() == ov[k as int]);
        }
        let row = &rows[k];
        let outcome = chars_of(row.outcome.as_str());
        if chars_eq_str(&outcome, "merged") {
            if !contains_text(&merged, row.pr_type.as_str()) {
                let t = row.pr_type.clone();
                proof {
                    assert(string_views(merged@.push(t)) =~= string_views(merged@).push(t@));
                }
                merged.push(t);
            }
        } else if chars_eq_str(&outcome, "closed") || chars_eq_str(&outcome, "rejected") {
            if !contains_text(&refused, row.pr_type.as_str()) {
                let t = row.pr_type.clone();
                proof {
                    assert(string_views(refused@.push(t)) =~= string_views(refused@).push(t@));
                }
                refused.push(t);
            }
        }
        k = k + 1;
    }
    proof {
        assert(ov.take(k as int) =~= ov);
    }
    (merged, refused)
}

fn type_counts_exec(rows: &[OutcomeRow], t: &str) -> (r: (usize, usize))
    ensures
        r.0 as int == type_counts(outcome_views(rows@), t@).0,
        r.1 as int == type_counts(outcome_views(rows@), t@).1,
        r.0 <= r.1,
{
    let ghost ov = outcome_views(rows@);
    let tc = chars_of(t);
    let mut merged: usize = 0;
    let mut total: usize = 0;
    let mut k: usize = 0;
    proof {
        assert(ov.take(0) =~= seq![]);
        reveal_strlit("merged");
    }
    while k < rows.len()
        invariant
            k <= rows@.len(),
            ov == outcome_views(rows@),
            tc@ == t@,
            merged as int == type_counts(ov.take(k as int), t@).0,
            total as int == type_counts(ov.take(k as int), t@).1,
            merged <= total <= k,
        decreases rows.len() - k,
    {
        proof {
            assert(ov.take(k + 1).drop_last() =~= ov.take(k as int));
            assert(ov.take(k + 1).last() == ov[k as int]);
        }
        let row = &rows[k];
        if chars_eq(chars_of(row.pr_type.as_str()).as_slice(), &tc) {
            total = total + 1;
            if chars_eq_str(chars_of(row.outcome.as_str()).as_slice(), "merged") {
                merged = merged + 1;
            }
        }
        k = k + 1;
    }
    proof {
        assert(ov.take(k as int) =~= ov);
    }
    (merged, total)
}

fn take_chars(s: &str, n: usize) -> (r: Vec<char>)
    ensures
        r@ == s@.take(if s@.len() < n {
            s@.len() as int
        } else {
            n as int
        }),
{
    let c = chars_of(s);
    let m = if c.len() < n {
        c.len()
    } else {
        n
    };
    let v = crate::text::slice_to_vec(&c, 0, m);
    proof {
        assert(v@ =~= s@.take(m as int));
    }
    v
}

/// The profile a dream pass records for a repository with these outcomes.
pub fn dream_profile(rows: &[OutcomeRow]) -> (r: RepoProfile)
    ensures
        string_views(r.preferred@) == types_where(all_types(outcome_views(rows@)), outcome_views(rows@), false),
        string_views(r.avoid@) == types_where(all_types(outcome_views(rows@)), outcome_views(rows@), true),
        r.merged == merged_count(outcome_views(rows@)),
        r.total == rows@.len(),
        r.notes@ == profile_notes(outcome_views(rows@)),
{
    let ghost ov = outcome_views(rows@);
    // distinct types in first-seen order
    let mut types: Vec<String> = Vec::new();
    let mut fbs: Vec<Vec<char>> = Vec::new();
    let mut k: usize = 0;
    proof {
        assert(ov.take(0) =~= seq![]);
        assert(string_views(types@) =~= seq![]);
        assert(views(fbs@) =~= seq![]);
    }
    while k < rows.len()
        invariant
            k <= rows@.len(),
            ov == outcome_views(rows@),
            string_views(types@) == all_types(ov.take(k as int)),
            views(fbs@) == feedbacks(ov.take(k as int)),
        decreases rows.len() - k,
    {
        proof {
            assert(ov.take(k + 1).drop_last() =~= ov.take(k as int));
            assert(ov.take(k + 1).last() == ov[k as int]);
        }
        let row = &rows[k];
        if !contains_text(&types, row.pr_type.as_str()) {
            let t = row.pr_type.clone();
            proof {
                assert(string_views(types@.push(t)) =~= string_views(types@).push(t@));
            }
            types.push(t);
        }
        let f = chars_of(row.feedback.as_str());
        if f.len() > 0 {
            proof {
                assert(views(fbs@.push(f)) =~= views(fbs@).push(f@));
            }
            fbs.push(f);
        }
        k = k + 1;
    }
    proof {
        assert(ov.take(k as int) =~= ov);
    }
    let ghost ts = string_views(types@);
    let mut preferred: Vec<String> = Vec::new();
    let mut avoid: Vec<String> = Vec::new();
    let mut j: usize = 0;
    proof {
        assert(ts.take(0) =~= seq![]);
        assert(string_views(preferred@) =~= seq![]);
        assert(string_views(avoid@) =~= seq![]);
    }
    while j < types.len()
        invariant
            j <= types@.len(),
            ts == string_views(types@),
            ov == outcome_views(rows@),
            string_views(preferred@) == types_where(ts.take(j as int), ov, false),
            string_views(avoid@) == types_where(ts.take(j as int), ov, true),
        decreases types.len() - j,
    {
        proof {
            assert(ts.take(j + 1).drop_last() =~= ts.take(j as int));
            assert(ts.take(j + 1).last() == ts[j as int]);
        }
        let (m, t) = type_counts_exec(rows, types[j].as_str());
        if t > 0 && m >= t - m {
            let s = types[j].clone();
            proof {
                assert(string_views(preferred@.push(s)) =~= string_views(preferred@).push(s@));
            }
            preferred.push(s);
        }
        if t >= 2 && m == 0 {
            let s = types[j].clone();
            proof {
                assert(string_views(avoid@.push(s)) =~= string_views(avoid@).push(s@));
            }
            avoid.push(s);
        }
        j = j + 1;
    }
    proof {
        assert(ts.take(j as int) =~= ts);
    }
    let mut merged: usize = 0;
    let mut i: usize = 0;
    proof {
        assert(ov.take(0) =~= seq![]);
    }
    while i < rows.len()
        invariant
            i <= rows@.len(),
            ov == outcome_views(rows@),
            merged <= i,
            merged == merged_count(ov.take(i as int)),
        decreases rows.len() - i,
    {
        proof {
            assert(ov.take(i + 1).drop_last() =~= ov.take(i as int));
            assert(ov.take(i + 1).last() == ov[i as int]);
        }
        if chars_eq_str(chars_of(rows[i].outcome.as_str()).as_slice(), "merged") {
            merged = merged + 1;
        }
        i = i + 1;
    }
    proof {
        assert(ov.take(i as int) =~= ov);
    }
    let notes = if fbs.len() == 0 {
        String::new()
    } else {
        let ghost fv = views(fbs@);
        let n: usize = if fbs.len() < 3 {
            fbs.len()
        } else {
            3
        };
        let mut shown: Vec<Vec<char>> = Vec::new();
        let mut q: usize = 0;
        while q < n
            invariant
                q <= n <= fbs@.len(),
                n == if fv.len() < 3 {
                    fv.len() as int
                } else {
                    3
                },
                fv == views(fbs@),
                views(shown@) == fv.take(q as int).map_values(|f: Seq<char>| f.take(if f.len() < 60 {
                    f.len() as int
                } else {
                    60
                })),
            decreases n - q,
        {
            let whole = string_from_chars(fbs[q].as_slice());
            let cut = take_chars(whole.as_str(), 60);
            proof {
                assert(views(shown@.push(cut)) =~= views(shown@).push(cut@));
                assert(fv.take(q + 1).map_values(|f: Seq<char>| f.take(if f.len() < 60 {
                    f.len() as int
                } else {
                    60
                })) =~= fv.take(q as int).map_values(|f: Seq<char>| f.take(if f.len() < 60 {
                    f.len() as int
                } else {
                    60
                })).push(cut@));
            }
            shown.push(cut);
            q = q + 1;
        }
        let mut text = chars_of("Last ");
        let d = decimal_usize(fbs.len());
        append_chars(&mut text, &d);
        append_str(&mut text, " feedbacks recorded. Patterns: ");
        let sep = chars_of("; ");
        let body = join_chars(&shown, &sep);
        append_chars(&mut text, &body);
        string_from_chars(&text)
    };
    RepoProfile { preferred, avoid, merged, total: rows.len(), notes }
}


// ── Learned preferences ──────────────────────────────────────────────────────

/// What a repository's outcome history teaches: the types it merged, the
/// types it closed or rejected, and its merge rate.
///
/// The merge rate is kept in thousandths, rounded to the nearest (halves up),
/// which is the three-decimal rate the history stores. The average review time
/// is a float and is computed by the application layer beside this value.
#[derive(Debug, Clone)]
pub struct RepoPreferences {
    pub preferred_types: Vec<String>,
    pub rejected_types: Vec<String>,
    pub merge_rate_permille: u32,
    pub notes: String,
}

/// `merged / total` in thousandths, rounded to the nearest, halves up.
pub open spec fn rate_permille(merged: int, total: int) -> int
    recommends
        total > 0,
{
    (2000 * merged + total) / (2 * total)
}

fn merged_count_exec(rows: &[OutcomeRow]) -> (r: usize)
    ensures
        r == merged_count(outcome_views(rows@)),
        r <= rows@.len(),
{
    let ghost ov = outcome_views(rows@);
    let mut merged: usize = 0;
    let mut i: usize = 0;
    proof {
        assert(ov.take(0) =~= seq![]);
    }
    while i < rows.len()
        invariant
            i <= rows@.len(),
            ov == outcome_views(rows@),
            merged <= i,
            merged == merged_count(ov.take(i as int)),
        decreases rows.len() - i,
    {
        proof {
            assert(ov.take(i + 1).drop_last() =~= ov.take(i as int));
            assert(ov.take(i + 1).last() == ov[i as int]);
        }
        if chars_eq_str(chars_of(rows[i].outcome.as_str()).as_slice(), "merged") {
            merged = merged + 1;
        }
        i = i + 1;
    }
    proof {
        assert(ov.take(i as int) =~= ov);
    }
    merged
}

/// The preferences learned from a repository's outcomes, or `None` when it
/// has none yet.
pub fn repo_preferences(rows: &[OutcomeRow]) -> (r: Option<RepoPreferences>)
    ensures
        rows@.len() == 0 <==> r is None,
        r matches Some(p) ==> {
            &&& string_views(p.preferred_types@) == merged_types(outcome_views(rows@))
            &&& string_views(p.rejected_types@) == refused_types(outcome_views(rows@))
            &&& p.merge_rate_permille == rate_permille(
                merged_count(outcome_views(rows@)),
                rows@.len() as int,
            )
            &&& p.notes@ == Seq::<char>::empty()
        },
{
    if rows.len() == 0 {
        return None;
    }
    let (preferred, rejected) = outcome_type_lists(rows);
    let merged = merged_count_exec(rows);
    let total = rows.len();
    let num: u128 = 2000 * (merged as u128) + (total as u128);
    let den: u128 = 2 * (total as u128);
    let q: u128 = num / den;
    proof {
        assert(merged <= total);
        assert(q <= 1000) by (nonlinear_arith)
            requires
                q == num / den,
                num == 2000 * merged + total,
                den == 2 * total,
                merged <= total,
                total > 0,
        ;
    }
    Some(
        RepoPreferences {
            preferred_types: preferred,
            rejected_types: rejected,
            merge_rate_permille: q as u32,
            notes: String::new(),
        },
    )
}


/// A submitted PR as the history records it.
#[derive(Debug, Clone)]
pub struct PrRecord {
    pub repo: String,
    pub pr_number: i64,
    pub pr_url: String,
    pub title: String,
    pub pr_type: String,
    pub status: String,
    pub branch: String,
    pub fork: String,
    pub created_at: String,
}

} // verus!
