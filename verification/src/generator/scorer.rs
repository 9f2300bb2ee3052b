//! Quality gate for generated contributions.
//!
//! Every check scores in hundredths (0 to 100); a report passes when the mean
//! of its checks reaches the scorer's minimum. Scores and the minimum are exact
//! integers here, so the mean is compared without rounding.
use vstd::prelude::*;

use crate::common::models::{Contribution, ContributionType, FileChange};
use crate::orchestrator::memory::{string_views, RepoPreferences};
use crate::pattern::{regex_found, regex_matches};
use crate::text::{
    chars_eq, chars_of, contains, contains_str, decimal, decimal_u128, decimal_usize, lines,
    lines_of, lowercase, lowercase_chars, starts_with, starts_with_chars, string_from_chars, trim,
    trimmed, utf8_len, byte_len_capped, views,
};

verus! {

/// The result of one quality check; `score` is in hundredths.
#[derive(Debug, Clone)]
pub struct CheckResult {
    pub name: String,
    pub passed: bool,
    pub score: u32,
    pub reason: String,
}

/// A check as the contracts read it: name, passed, score, reason.
pub type CheckView = (Seq<char>, bool, int, Seq<char>);

pub open spec fn check_view(c: CheckResult) -> CheckView {
    (c.name@, c.passed, c.score as int, c.reason@)
}

pub open spec fn check_views(cs: Seq<CheckResult>) -> Seq<CheckView> {
    cs.map_values(|c: CheckResult| check_view(c))
}

/// The outcome of all checks on one contribution.
///
/// `score_sum` is the sum of the check scores (hundredths); the report's score
/// is `score_sum / checks.len()` hundredths.
#[derive(Debug, Clone)]
pub struct QualityReport {
    pub score_sum: u32,
    pub passed: bool,
    pub checks: Vec<CheckResult>,
}

/// Evaluates contribution quality before a PR is opened.
#[derive(Debug, Clone)]
pub struct QualityScorer {
    /// The least mean score, in hundredths, that passes.
    pub min_score: u32,
}

fn check(name: &str, passed: bool, score: u32, reason: Vec<char>) -> (r: CheckResult)
    ensures
        check_view(r) == (name@, passed, score as int, reason@),
{
    CheckResult { name: String::from_str(name), passed, score, reason: string_from_chars(&reason) }
}

// ── has_changes ──────────────────────────────────────────────────────────────

pub open spec fn has_real_change(changes: Seq<FileChange>) -> bool {
    exists|i: int| 0 <= i < changes.len() && trim(#[trigger] changes[i].new_content@).len() > 0
}

pub open spec fn has_changes_check(changes: Seq<FileChange>) -> CheckView {
    if has_real_change(changes) {
        ("has_changes"@, true, 100, "Has file changes"@)
    } else {
        ("has_changes"@, false, 0, "No file changes"@)
    }
}

fn check_has_changes(c: &Contribution) -> (r: CheckResult)
    ensures
        check_view(r) == has_changes_check(c.changes@),
{
    let mut k: usize = 0;
    while k < c.changes.len()
        invariant
            k <= c.changes@.len(),
            forall|i: int| 0 <= i < k ==> trim(#[trigger] c.changes@[i].new_content@).len() == 0,
        decreases c.changes.len() - k,
    {
        let t = trimmed(chars_of(c.changes[k].new_content.as_str()).as_slice());
        if t.len() > 0 {
            proof {
                assert(trim(c.changes@[k as int].new_content@).len() > 0);
            }
            return check("has_changes", true, 100, chars_of("Has file changes"));
        }
        k = k + 1;
    }
    check("has_changes", false, 0, chars_of("No file changes"))
}

// ── change_size ──────────────────────────────────────────────────────────────

/// Lines over all new contents (`str::lines` counting).
pub open spec fn total_lines(changes: Seq<FileChange>) -> int
    decreases changes.len(),
{
    if changes.len() == 0 {
        0
    } else {
        total_lines(changes.drop_last()) + lines(changes.last().new_content@).len()
    }
}

pub open spec fn change_size_check(n: int) -> CheckView {
    if n == 0 {
        ("change_size"@, false, 0, "Empty changes"@)
    } else if n < 3 {
        ("change_size"@, false, 30, "Very small change ("@ + decimal(n as nat) + " lines)"@)
    } else if n > 500 {
        ("change_size"@, false, 40, "Very large change ("@ + decimal(n as nat) + " lines)"@)
    } else if n > 200 {
        ("change_size"@, true, 70, "Large change ("@ + decimal(n as nat) + " lines)"@)
    } else {
        ("change_size"@, true, 100, "Good change size ("@ + decimal(n as nat) + " lines)"@)
    }
}

fn with_count(prefix: &str, n: u128, suffix: &str) -> (r: Vec<char>)
    ensures
        r@ == prefix@ + decimal(n as nat) + suffix@,
{
    let mut out = chars_of(prefix);
    out.append(&mut decimal_u128(n));
    out.append(&mut chars_of(suffix));
    out
}

fn check_change_size(c: &Contribution) -> (r: CheckResult)
    ensures
        check_view(r) == change_size_check(total_lines(c.changes@)),
{
    let mut total: u128 = 0;
    let mut k: usize = 0;
    while k < c.changes.len()
        invariant
            k <= c.changes@.len(),
            total == total_lines(c.changes@.take(k as int)),
            total <= k * (usize::MAX as int),
        decreases c.changes.len() - k,
    {
        proof {
            assert(c.changes@.take(k + 1).drop_last() =~= c.changes@.take(k as int));
        }
        let ls = lines_of(chars_of(c.changes[k].new_content.as_str()).as_slice());
        proof {
            assert(views(ls@).len() == ls@.len());
            assert(total + ls.len() <= (k + 1) * (usize::MAX as int)) by (nonlinear_arith)
                requires
                    total <= k * (usize::MAX as int),
                    ls.len() <= usize::MAX,
            ;
            assert((k + 1) * (usize::MAX as int) <= (usize::MAX as int) * (usize::MAX as int)) by (nonlinear_arith)
                requires
                    k + 1 <= usize::MAX,
            ;
        }
        total = total + ls.len() as u128;
        k = k + 1;
    }
    proof {
        assert(c.changes@.take(k as int) =~= c.changes@);
    }
    if total == 0 {
        check("change_size", false, 0, chars_of("Empty changes"))
    } else if total < 3 {
        check("change_size", false, 30, with_count("Very small change (", total, " lines)"))
    } else if total > 500 {
        check("change_size", false, 40, with_count("Very large change (", total, " lines)"))
    } else if total > 200 {
        check("change_size", true, 70, with_count("Large change (", total, " lines)"))
    } else {
        check("change_size", true, 100, with_count("Good change size (", total, " lines)"))
    }
}


// ── commit_message ───────────────────────────────────────────────────────────

/// A conventional-commit subject: a known type, an optional scope, `: ` and text.
pub const CONVENTIONAL_COMMIT: &'static str = "^(feat|fix|docs|refactor|perf|test|chore)\\(?.*\\)?: .+";

pub open spec fn commit_message_check(msg: Seq<char>) -> CheckView {
    if msg.len() == 0 {
        ("commit_message"@, false, 0, "Empty commit message"@)
    } else if regex_matches(CONVENTIONAL_COMMIT@, msg) {
        ("commit_message"@, true, 100, "Follows conventional commits"@)
    } else if utf8_len(msg) > 10 {
        ("commit_message"@, true, 70, "Descriptive but not conventional"@)
    } else {
        ("commit_message"@, false, 30, "Poor commit message"@)
    }
}

fn check_commit_message(c: &Contribution) -> (r: CheckResult)
    ensures
        check_view(r) == commit_message_check(c.commit_message@),
{
    let msg = chars_of(c.commit_message.as_str());
    if msg.len() == 0 {
        check("commit_message", false, 0, chars_of("Empty commit message"))
    } else if regex_found(CONVENTIONAL_COMMIT, c.commit_message.as_str()) {
        check("commit_message", true, 100, chars_of("Follows conventional commits"))
    } else if byte_len_capped(&msg, 10) > 10 {
        check("commit_message", true, 70, chars_of("Descriptive but not conventional"))
    } else {
        check("commit_message", false, 30, chars_of("Poor commit message"))
    }
}

// ── description ──────────────────────────────────────────────────────────────

pub open spec fn description_check(d: Seq<char>) -> CheckView {
    if d.len() == 0 {
        ("description"@, false, 0, "Empty description"@)
    } else if utf8_len(d) < 20 {
        ("description"@, false, 30, "Description too short"@)
    } else {
        ("description"@, true, 100, "Good description"@)
    }
}

fn check_description(c: &Contribution) -> (r: CheckResult)
    ensures
        check_view(r) == description_check(c.description@),
{
    let d = chars_of(c.description.as_str());
    if d.len() == 0 {
        check("description", false, 0, chars_of("Empty description"))
    } else if byte_len_capped(&d, 19) < 20 {
        check("description", false, 30, chars_of("Description too short"))
    } else {
        check("description", true, 100, chars_of("Good description"))
    }
}

// ── no_debug_code ────────────────────────────────────────────────────────────

/// Patterns of leftover debugging, in the order they are tried.
pub open spec fn debug_patterns() -> Seq<Seq<char>> {
    seq![
        "\\bprint\\s*\\("@,
        "\\bconsole\\.log\\s*\\("@,
        "\\bdebugger\\b"@,
        "\\bpdb\\.set_trace\\("@,
        "\\bbreakpoint\\(\\)"@,
        "#\\s*TODO\\b"@,
        "#\\s*FIXME\\b"@,
        "#\\s*HACK\\b"@,
    ]
}

fn debug_pattern(i: usize) -> (r: &'static str)
    requires
        i < 8,
    ensures
        r@ == debug_patterns()[i as int],
{
    match i {
        0 => "\\bprint\\s*\\(",
        1 => "\\bconsole\\.log\\s*\\(",
        2 => "\\bdebugger\\b",
        3 => "\\bpdb\\.set_trace\\(",
        4 => "\\bbreakpoint\\(\\)",
        5 => "#\\s*TODO\\b",
        6 => "#\\s*FIXME\\b",
        _ => "#\\s*HACK\\b",
    }
}

/// The first of `pats` that matches `text`, if any.
pub open spec fn first_regex_hit(text: Seq<char>, pats: Seq<Seq<char>>) -> Option<Seq<char>>
    decreases pats.len(),
{
    if pats.len() == 0 {
        None
    } else {
        match first_regex_hit(text, pats.drop_last()) {
            Some(p) => Some(p),
            None => if regex_matches(pats.last(), text) {
                Some(pats.last())
            } else {
                None
            },
        }
    }
}

/// The first debug pattern found, trying the changes in order.
pub open spec fn first_debug_hit(changes: Seq<FileChange>) -> Option<Seq<char>>
    decreases changes.len(),
{
    if changes.len() == 0 {
        None
    } else {
        match first_debug_hit(changes.drop_last()) {
            Some(p) => Some(p),
            None => first_regex_hit(changes.last().new_content@, debug_patterns()),
        }
    }
}

pub open spec fn debug_code_check(changes: Seq<FileChange>) -> CheckView {
    match first_debug_hit(changes) {
        Some(p) => ("no_debug_code"@, false, 30, "Debug code found: "@ + p),
        None => ("no_debug_code"@, true, 100, "No debug code found"@),
    }
}

fn debug_hit_in(text: &str) -> (r: Option<&'static str>)
    ensures
        match r {
            Some(p) => first_regex_hit(text@, debug_patterns()) == Some(p@),
            None => first_regex_hit(text@, debug_patterns()) is None,
        },
{
    let mut j: usize = 0;
    while j < 8
        invariant
            j <= 8,
            first_regex_hit(text@, debug_patterns().take(j as int)) is None,
        decreases 8 - j,
    {
        proof {
            assert(debug_patterns().take(j + 1).drop_last() =~= debug_patterns().take(j as int));
        }
        let p = debug_pattern(j);
        if regex_found(p, text) {
            proof {
                assert(first_regex_hit(text@, debug_patterns().take(j + 1)) == Some(p@));
                lemma_first_hit_prefix(text@, debug_patterns(), j as int + 1);
            }
            return Some(p);
        }
        j = j + 1;
    }
    proof {
        assert(debug_patterns().take(8) =~= debug_patterns());
    }
    None
}

/// A hit among the first `k` patterns is the hit among all of them.
proof fn lemma_first_hit_prefix(text: Seq<char>, pats: Seq<Seq<char>>, k: int)
    requires
        0 <= k <= pats.len(),
        first_regex_hit(text, pats.take(k)) is Some,
    ensures
        first_regex_hit(text, pats) == first_regex_hit(text, pats.take(k)),
    decreases pats.len() - k,
{
    if k < pats.len() {
        assert(pats.take(k + 1).drop_last() =~= pats.take(k));
        lemma_first_hit_prefix(text, pats, k + 1);
    } else {
        assert(pats.take(k) =~= pats);
    }
}

fn check_no_debug_code(c: &Contribution) -> (r: CheckResult)
    ensures
        check_view(r) == debug_code_check(c.changes@),
{
    let mut k: usize = 0;
    while k < c.changes.len()
        invariant
            k <= c.changes@.len(),
            first_debug_hit(c.changes@.take(k as int)) is None,
        decreases c.changes.len() - k,
    {
        proof {
            assert(c.changes@.take(k + 1).drop_last() =~= c.changes@.take(k as int));
        }
        match debug_hit_in(c.changes[k].new_content.as_str()) {
            Some(p) => {
                proof {
                    lemma_first_debug_prefix(c.changes@, k as int + 1);
                }
                let mut reason = chars_of("Debug code found: ");
                reason.append(&mut chars_of(p));
                return check("no_debug_code", false, 30, reason);
            },
            None => {},
        }
        k = k + 1;
    }
    proof {
        assert(c.changes@.take(k as int) =~= c.changes@);
    }
    check("no_debug_code", true, 100, chars_of("No debug code found"))
}

proof fn lemma_no_regex_hit(text: Seq<char>, pats: Seq<Seq<char>>)
    ensures
        first_regex_hit(text, pats) is None <==> forall|p: int|
            0 <= p < pats.len() ==> !#[trigger] regex_matches(pats[p], text),
    decreases pats.len(),
{
    if pats.len() > 0 {
        let init = pats.drop_last();
        lemma_no_regex_hit(text, init);
        assert forall|p: int| 0 <= p < init.len() implies init[p] == pats[p] by {}
        if first_regex_hit(text, pats) is None {
            assert forall|p: int| 0 <= p < pats.len() implies !#[trigger] regex_matches(
                pats[p],
                text,
            ) by {
                if p < init.len() {
                    assert(init[p] == pats[p]);
                }
            }
        } else {
            if first_regex_hit(text, init) is None {
                assert(regex_matches(pats[pats.len() - 1], text));
            } else {
                let p = choose|p: int| 0 <= p < init.len() && #[trigger] regex_matches(init[p], text);
                assert(init[p] == pats[p]);
            }
        }
    }
}

proof fn lemma_no_debug_hit(changes: Seq<FileChange>)
    ensures
        first_debug_hit(changes) is None <==> forall|i: int|
            0 <= i < changes.len() ==> #[trigger] first_regex_hit(
                changes[i].new_content@,
                debug_patterns(),
            ) is None,
    decreases changes.len(),
{
    if changes.len() > 0 {
        let init = changes.drop_last();
        lemma_no_debug_hit(init);
        if first_debug_hit(changes) is None {
            assert forall|i: int| 0 <= i < changes.len() implies #[trigger] first_regex_hit(
                changes[i].new_content@,
                debug_patterns(),
            ) is None by {
                if i < init.len() {
                    assert(init[i] == changes[i]);
                }
            }
        } else if first_debug_hit(init) is Some {
            let i = choose|i: int|
                0 <= i < init.len() && !(#[trigger] first_regex_hit(
                    init[i].new_content@,
                    debug_patterns(),
                ) is None);
            assert(init[i] == changes[i]);
        } else {
            assert(first_regex_hit(changes[changes.len() - 1].new_content@, debug_patterns()) is Some);
        }
    }
}

/// The no-debug check scans every changed file: it fails, scoring 30, exactly
/// when some debug pattern matches the new content of some change (whichever
/// change it is), and passes, scoring 100, when none does.
pub proof fn lemma_debug_check_scans_every_change(changes: Seq<FileChange>)
    ensures
        debug_code_check(changes).0 == "no_debug_code"@,
        !debug_code_check(changes).1 <==> exists|i: int, p: int|
            0 <= i < changes.len() && 0 <= p < debug_patterns().len() && #[trigger] regex_matches(
                debug_patterns()[p],
                changes[i].new_content@,
            ),
        debug_code_check(changes).2 == if debug_code_check(changes).1 {
            100int
        } else {
            30int
        },
{
    lemma_no_debug_hit(changes);
    if debug_code_check(changes).1 {
        assert forall|i: int, p: int|
            0 <= i < changes.len() && 0 <= p < debug_patterns().len() implies !#[trigger] regex_matches(
            debug_patterns()[p],
            changes[i].new_content@,
        ) by {
            assert(first_regex_hit(changes[i].new_content@, debug_patterns()) is None);
            lemma_no_regex_hit(changes[i].new_content@, debug_patterns());
        }
    } else {
        let i = choose|i: int|
            0 <= i < changes.len() && !(#[trigger] first_regex_hit(
                changes[i].new_content@,
                debug_patterns(),
            ) is None);
        lemma_no_regex_hit(changes[i].new_content@, debug_patterns());
        let p = choose|p: int|
            0 <= p < debug_patterns().len() && #[trigger] regex_matches(
                debug_patterns()[p],
                changes[i].new_content@,
            );
        assert(regex_matches(debug_patterns()[p], changes[i].new_content@));
    }
}

proof fn lemma_first_debug_prefix(changes: Seq<FileChange>, k: int)
    requires
        0 <= k <= changes.len(),
        first_debug_hit(changes.take(k)) is Some,
    ensures
        first_debug_hit(changes) == first_debug_hit(changes.take(k)),
    decreases changes.len() - k,
{
    if k < changes.len() {
        assert(changes.take(k + 1).drop_last() =~= changes.take(k));
        lemma_first_debug_prefix(changes, k + 1);
    } else {
        assert(changes.take(k) =~= changes);
    }
}

// ── no_placeholders ──────────────────────────────────────────────────────────

/// Markers of unfinished code, in the order they are tried.
pub open spec fn placeholder_patterns() -> Seq<Seq<char>> {
    seq![
        "TODO: implement"@,
        "PLACEHOLDER"@,
        "YOUR_CODE_HERE"@,
        "pass  # TODO"@,
        "raise NotImplementedError"@,
        "..."@,
    ]
}

fn placeholder_pattern(i: usize) -> (r: &'static str)
    requires
        i < 6,
    ensures
        r@ == placeholder_patterns()[i as int],
{
    match i {
        0 => "TODO: implement",
        1 => "PLACEHOLDER",
        2 => "YOUR_CODE_HERE",
        3 => "pass  # TODO",
        4 => "raise NotImplementedError",
        _ => "...",
    }
}

/// The first of `pats` that occurs in `text`, if any.
pub open spec fn first_text_hit(text: Seq<char>, pats: Seq<Seq<char>>) -> Option<Seq<char>>
    decreases pats.len(),
{
    if pats.len() == 0 {
        None
    } else {
        match first_text_hit(text, pats.drop_last()) {
            Some(p) => Some(p),
            None => if contains(text, pats.last()) {
                Some(pats.last())
            } else {
                None
            },
        }
    }
}

pub open spec fn first_placeholder_hit(changes: Seq<FileChange>) -> Option<Seq<char>>
    decreases changes.len(),
{
    if changes.len() == 0 {
        None
    } else {
        match first_placeholder_hit(changes.drop_last()) {
            Some(p) => Some(p),
            None => first_text_hit(changes.last().new_content@, placeholder_patterns()),
        }
    }
}

pub open spec fn placeholder_check(changes: Seq<FileChange>) -> CheckView {
    match first_placeholder_hit(changes) {
        Some(p) => ("no_placeholders"@, false, 20, "Placeholder found: "@ + p),
        None => ("no_placeholders"@, true, 100, "No placeholders found"@),
    }
}

proof fn lemma_first_text_prefix(text: Seq<char>, pats: Seq<Seq<char>>, k: int)
    requires
        0 <= k <= pats.len(),
        first_text_hit(text, pats.take(k)) is Some,
    ensures
        first_text_hit(text, pats) == first_text_hit(text, pats.take(k)),
    decreases pats.len() - k,
{
    if k < pats.len() {
        assert(pats.take(k + 1).drop_last() =~= pats.take(k));
        lemma_first_text_prefix(text, pats, k + 1);
    } else {
        assert(pats.take(k) =~= pats);
    }
}

proof fn lemma_first_placeholder_prefix(changes: Seq<FileChange>, k: int)
    requires
        0 <= k <= changes.len(),
        first_placeholder_hit(changes.take(k)) is Some,
    ensures
        first_placeholder_hit(changes) == first_placeholder_hit(changes.take(k)),
    decreases changes.len() - k,
{
    if k < changes.len() {
        assert(changes.take(k + 1).drop_last() =~= changes.take(k));
        lemma_first_placeholder_prefix(changes, k + 1);
    } else {
        assert(changes.take(k) =~= changes);
    }
}

fn placeholder_hit_in(text: &str) -> (r: Option<&'static str>)
    ensures
        match r {
            Some(p) => first_text_hit(text@, placeholder_patterns()) == Some(p@),
            None => first_text_hit(text@, placeholder_patterns()) is None,
        },
{
    let t = chars_of(text);
    let mut j: usize = 0;
    while j < 6
        invariant
            j <= 6,
            t@ == text@,
            first_text_hit(text@, placeholder_patterns().take(j as int)) is None,
        decreases 6 - j,
    {
        proof {
            assert(placeholder_patterns().take(j + 1).drop_last() =~= placeholder_patterns().take(
                j as int,
            ));
        }
        let p = placeholder_pattern(j);
        if contains_str(&t, p) {
            proof {
                assert(first_text_hit(text@, placeholder_patterns().take(j + 1)) == Some(p@));
                lemma_first_text_prefix(text@, placeholder_patterns(), j as int + 1);
            }
            return Some(p);
        }
        j = j + 1;
    }
    proof {
        assert(placeholder_patterns().take(6) =~= placeholder_patterns());
    }
    None
}

fn check_no_placeholders(c: &Contribution) -> (r: CheckResult)
    ensures
        check_view(r) == placeholder_check(c.changes@),
{
    let mut k: usize = 0;
    while k < c.changes.len()
        invariant
            k <= c.changes@.len(),
            first_placeholder_hit(c.changes@.take(k as int)) is None,
        decreases c.changes.len() - k,
    {
        proof {
            assert(c.changes@.take(k + 1).drop_last() =~= c.changes@.take(k as int));
        }
        match placeholder_hit_in(c.changes[k].new_content.as_str()) {
            Some(p) => {
                proof {
                    lemma_first_placeholder_prefix(c.changes@, k as int + 1);
                }
                let mut reason = chars_of("Placeholder found: ");
                reason.append(&mut chars_of(p));
                return check("no_placeholders", false, 20, reason);
            },
            None => {},
        }
        k = k + 1;
    }
    proof {
        assert(c.changes@.take(k as int) =~= c.changes@);
    }
    check("no_placeholders", true, 100, chars_of("No placeholders found"))
}


// ── file_coherence ───────────────────────────────────────────────────────────

/// The directory part of a path: what comes before its last `/`, or nothing.
pub open spec fn parent_dir(p: Seq<char>) -> Seq<char>
    decreases p.len(),
{
    if p.len() == 0 {
        seq![]
    } else if p.last() == '/' {
        p.drop_last()
    } else {
        parent_dir(p.drop_last())
    }
}

fn parent_dir_of(p: &[char]) -> (r: Vec<char>)
    ensures
        r@ == parent_dir(p@),
{
    let mut j: usize = p.len();
    proof {
        assert(p@.take(j as int) =~= p@);
    }
    while j > 0
        invariant
            j <= p@.len(),
            parent_dir(p@) == parent_dir(p@.take(j as int)),
        decreases j,
    {
        proof {
            assert(p@.take(j as int).drop_last() =~= p@.take(j - 1));
        }
        if p[j - 1] == '/' {
            let r = crate::text::slice_to_vec(p, 0, j - 1);
            proof {
                assert(r@ =~= p@.take(j - 1));
            }
            return r;
        }
        j = j - 1;
    }
    Vec::new()
}

/// Neither directory lies under the other.
pub open spec fn unrelated_dirs(change_dir: Seq<char>, finding_dir: Seq<char>) -> bool {
    !starts_with(change_dir, finding_dir) && !starts_with(finding_dir, change_dir)
}

pub open spec fn unrelated_count(changes: Seq<FileChange>, finding_dir: Seq<char>) -> nat
    decreases changes.len(),
{
    if changes.len() == 0 {
        0
    } else {
        unrelated_count(changes.drop_last(), finding_dir) + if unrelated_dirs(
            parent_dir(changes.last().path@),
            finding_dir,
        ) {
            1nat
        } else {
            0nat
        }
    }
}

pub open spec fn coherence_check(changes: Seq<FileChange>, finding_path: Seq<char>) -> CheckView {
    let n = unrelated_count(changes, parent_dir(finding_path));
    if n > 0 {
        ("file_coherence"@, false, 50, decimal(n) + " unrelated file(s) changed"@)
    } else {
        ("file_coherence"@, true, 100, "All changes are related"@)
    }
}

fn check_file_coherence(c: &Contribution) -> (r: CheckResult)
    ensures
        check_view(r) == coherence_check(c.changes@, c.finding.file_path@),
{
    let fd = parent_dir_of(chars_of(c.finding.file_path.as_str()).as_slice());
    let mut n: usize = 0;
    let mut k: usize = 0;
    while k < c.changes.len()
        invariant
            k <= c.changes@.len(),
            fd@ == parent_dir(c.finding.file_path@),
            n == unrelated_count(c.changes@.take(k as int), fd@),
            n <= k,
        decreases c.changes.len() - k,
    {
        proof {
            assert(c.changes@.take(k + 1).drop_last() =~= c.changes@.take(k as int));
        }
        let cd = parent_dir_of(chars_of(c.changes[k].path.as_str()).as_slice());
        if !starts_with_chars(&cd, &fd) && !starts_with_chars(&fd, &cd) {
            n = n + 1;
        }
        k = k + 1;
    }
    proof {
        assert(c.changes@.take(k as int) =~= c.changes@);
    }
    if n > 0 {
        let mut reason = decimal_usize(n);
        reason.append(&mut chars_of(" unrelated file(s) changed"));
        check("file_coherence", false, 50, reason)
    } else {
        check("file_coherence", true, 100, chars_of("All changes are related"))
    }
}

// ── outcome_history ──────────────────────────────────────────────────────────

/// The lowercase debug name of a contribution type, as stored type lists are
/// compared with it.
pub open spec fn type_key(t: ContributionType) -> Seq<char> {
    match t {
        ContributionType::SecurityFix => "securityfix"@,
        ContributionType::FeatureAdd => "featureadd"@,
        ContributionType::DocsImprove => "docsimprove"@,
        ContributionType::UiUxFix => "uiuxfix"@,
        ContributionType::PerformanceOpt => "performanceopt"@,
        ContributionType::Refactor => "refactor"@,
        ContributionType::CodeQuality => "codequality"@,
    }
}

fn type_key_of(t: ContributionType) -> (r: &'static str)
    ensures
        r@ == type_key(t),
{
    match t {
        ContributionType::SecurityFix => "securityfix",
        ContributionType::FeatureAdd => "featureadd",
        ContributionType::DocsImprove => "docsimprove",
        ContributionType::UiUxFix => "uiuxfix",
        ContributionType::PerformanceOpt => "performanceopt",
        ContributionType::Refactor => "refactor",
        ContributionType::CodeQuality => "codequality",
    }
}

/// Some entry of `list`, lowercased, equals `key`.
pub open spec fn lists_key(list: Seq<Seq<char>>, key: Seq<char>) -> bool {
    exists|i: int| 0 <= i < list.len() && lowercase(#[trigger] list[i]) == key
}

fn has_key(list: &Vec<String>, key: &str) -> (b: bool)
    ensures
        b == lists_key(string_views(list@), key@),
{
    let kc = chars_of(key);
    let mut k: usize = 0;
    while k < list.len()
        invariant
            k <= list@.len(),
            kc@ == key@,
            forall|i: int| 0 <= i < k ==> lowercase(#[trigger] string_views(list@)[i]) != key@,
        decreases list.len() - k,
    {
        let l = lowercase_chars(list[k].as_str());
        if chars_eq(&l, &kc) {
            proof {
                assert(lowercase(string_views(list@)[k as int]) == key@);
            }
            return true;
        }
        k = k + 1;
    }
    false
}

pub open spec fn outcome_check(t: ContributionType, prefs: Option<RepoPreferences>) -> CheckView {
    match prefs {
        None => ("outcome_history"@, true, 70, "No outcome history available"@),
        Some(p) => if lists_key(string_views(p.rejected_types@), type_key(t)) {
            (
                "outcome_history"@,
                false,
                20,
                "Type '"@ + type_key(t) + "' was previously rejected by this repo"@,
            )
        } else if lists_key(string_views(p.preferred_types@), type_key(t)) {
            (
                "outcome_history"@,
                true,
                100,
                "Type '"@ + type_key(t) + "' was previously merged by this repo"@,
            )
        } else if p.merge_rate_permille < 200 {
            ("outcome_history"@, false, 40, "Repo has low merge rate (<20%)"@)
        } else if p.merge_rate_permille >= 500 {
            ("outcome_history"@, true, 90, "Repo has good merge rate (>=50%)"@)
        } else {
            ("outcome_history"@, true, 60, "Repo has moderate merge rate"@)
        },
    }
}

fn check_outcome_history(c: &Contribution, prefs: Option<&RepoPreferences>) -> (r: CheckResult)
    ensures
        check_view(r) == outcome_check(
            c.contribution_type,
            match prefs {
                Some(p) => Some(*p),
                None => None,
            },
        ),
{
    match prefs {
        None => check("outcome_history", true, 70, chars_of("No outcome history available")),
        Some(p) => {
            let key = type_key_of(c.contribution_type);
            if has_key(&p.rejected_types, key) {
                let mut reason = chars_of("Type '");
                reason.append(&mut chars_of(key));
                reason.append(&mut chars_of("' was previously rejected by this repo"));
                check("outcome_history", false, 20, reason)
            } else if has_key(&p.preferred_types, key) {
                let mut reason = chars_of("Type '");
                reason.append(&mut chars_of(key));
                reason.append(&mut chars_of("' was previously merged by this repo"));
                check("outcome_history", true, 100, reason)
            } else if p.merge_rate_permille < 200 {
                check("outcome_history", false, 40, chars_of("Repo has low merge rate (<20%)"))
            } else if p.merge_rate_permille >= 500 {
                check("outcome_history", true, 90, chars_of("Repo has good merge rate (>=50%)"))
            } else {
                check("outcome_history", true, 60, chars_of("Repo has moderate merge rate"))
            }
        },
    }
}

// ── The report ───────────────────────────────────────────────────────────────

/// The eight checks, in the order they run.
pub open spec fn all_checks(c: Contribution, prefs: Option<RepoPreferences>) -> Seq<CheckView> {
    seq![
        has_changes_check(c.changes@),
        change_size_check(total_lines(c.changes@)),
        commit_message_check(c.commit_message@),
        description_check(c.description@),
        debug_code_check(c.changes@),
        placeholder_check(c.changes@),
        coherence_check(c.changes@, c.finding.file_path@),
        outcome_check(c.contribution_type, prefs),
    ]
}

pub open spec fn score_total(cs: Seq<CheckView>) -> int
    decreases cs.len(),
{
    if cs.len() == 0 {
        0
    } else {
        score_total(cs.drop_last()) + cs.last().2
    }
}

pub open spec fn passed_total(cs: Seq<CheckView>) -> nat
    decreases cs.len(),
{
    if cs.len() == 0 {
        0
    } else {
        passed_total(cs.drop_last()) + if cs.last().1 {
            1nat
        } else {
            0nat
        }
    }
}

/// `sum / n` rounded to the nearest integer, ties to even.
pub open spec fn rounded_mean(sum: int, n: int) -> int
    recommends
        n > 0,
{
    let q = sum / n;
    let r = sum % n;
    if 2 * r > n {
        q + 1
    } else if 2 * r < n {
        q
    } else if q % 2 == 1 {
        q + 1
    } else {
        q
    }
}

/// The mean of `sum` over `n` checks in whole percent, rounded as `{:.0}`
/// rounds (ties to even); the literal `NaN` when there are no checks.
pub open spec fn percent_text(sum: int, n: int) -> Seq<char> {
    if n == 0 {
        "NaN"@
    } else {
        decimal(rounded_mean(sum, n) as nat)
    }
}

impl QualityReport {
    /// `passed/total checks passed (score: N%)`.
    pub fn summary(&self) -> (r: String)
        ensures
            r@ == decimal(passed_total(check_views(self.checks@))) + "/"@ + decimal(
                self.checks@.len(),
            ) + " checks passed (score: "@ + percent_text(
                self.score_sum as int,
                self.checks@.len() as int,
            ) + "%)"@,
    {
        let ghost cv = check_views(self.checks@);
        let mut passed: usize = 0;
        let mut k: usize = 0;
        while k < self.checks.len()
            invariant
                k <= self.checks@.len(),
                cv == check_views(self.checks@),
                passed == passed_total(cv.take(k as int)),
                passed <= k,
            decreases self.checks.len() - k,
        {
            proof {
                assert(cv.take(k + 1).drop_last() =~= cv.take(k as int));
            }
            if self.checks[k].passed {
                passed = passed + 1;
            }
            k = k + 1;
        }
        proof {
            assert(cv.take(k as int) =~= cv);
        }
        let n = self.checks.len();
        let mut out = decimal_usize(passed);
        out.append(&mut chars_of("/"));
        out.append(&mut decimal_usize(n));
        out.append(&mut chars_of(" checks passed (score: "));
        if n == 0 {
            out.append(&mut chars_of("NaN"));
        } else {
            let sum = self.score_sum as u128;
            let nn = n as u128;
            let q = sum / nn;
            let rem = sum % nn;
            let m = if 2 * rem > nn {
                q + 1
            } else if 2 * rem < nn {
                q
            } else if q % 2 == 1 {
                q + 1
            } else {
                q
            };
            out.append(&mut decimal_u128(m));
        }
        out.append(&mut chars_of("%)"));
        string_from_chars(&out)
    }
}

impl QualityScorer {
    /// A scorer that passes reports whose mean score is at least
    /// `min_score` hundredths.
    pub fn new(min_score: u32) -> (r: Self)
        ensures
            r.min_score == min_score,
    {
        QualityScorer { min_score }
    }

    /// Run all quality checks on a contribution.
    pub fn evaluate(&self, contribution: &Contribution, repo_prefs: Option<&RepoPreferences>) -> (r:
        QualityReport)
        ensures
            check_views(r.checks@) == all_checks(
                *contribution,
                match repo_prefs {
                    Some(p) => Some(*p),
                    None => None,
                },
            ),
            r.score_sum == score_total(check_views(r.checks@)),
            r.passed == (r.score_sum >= 8 * self.min_score),
    {
        let mut checks: Vec<CheckResult> = Vec::new();
        checks.push(check_has_changes(contribution));
        checks.push(check_change_size(contribution));
        checks.push(check_commit_message(contribution));
        checks.push(check_description(contribution));
        checks.push(check_no_debug_code(contribution));
        checks.push(check_no_placeholders(contribution));
        checks.push(check_file_coherence(contribution));
        checks.push(check_outcome_history(contribution, repo_prefs));
        let ghost cv = check_views(checks@);
        proof {
            assert(cv =~= all_checks(
                *contribution,
                match repo_prefs {
                    Some(p) => Some(*p),
                    None => None,
                },
            ));
        }
        let mut sum: u32 = 0;
        let mut k: usize = 0;
        while k < checks.len()
            invariant
                k <= checks@.len(),
                checks@.len() == 8,
                cv == check_views(checks@),
                forall|i: int| 0 <= i < 8 ==> #[trigger] checks@[i].score <= 100,
                sum == score_total(cv.take(k as int)),
                sum <= 100 * k,
            decreases checks.len() - k,
        {
            proof {
                assert(cv.take(k + 1).drop_last() =~= cv.take(k as int));
                assert(cv[k as int].2 == checks@[k as int].score);
            }
            sum = sum + checks[k].score;
            k = k + 1;
        }
        proof {
            assert(cv.take(k as int) =~= cv);
        }
        let passed = sum as u64 >= 8 * (self.min_score as u64);
        QualityReport { score_sum: sum, passed, checks }
    }
}

impl Default for QualityScorer {
    fn default() -> (r: Self)
        ensures
            r.min_score == 60,
    {
        QualityScorer::new(60)
    }
}

} // verus!
