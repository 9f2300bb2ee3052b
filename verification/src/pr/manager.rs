//! Pull-request lifecycle rules: commit prefixes and labels, scopes taken
//! from file paths, compliance-bot and CLA-bot recognition, conventional
//! commit titles and issue links in PR bodies.
use vstd::prelude::*;

use crate::common::models::{severity_name, Contribution, ContributionType, FileChange, Finding, PrStatus, Severity};
use crate::generator::engine::title_slug_of;
use crate::generator::engine::title_slug;
use crate::pattern::{regex_found, regex_matches};
use crate::text::{
    append_chars, append_str, chars_eq_str, chars_of, contains, contains_chars, contains_str,
    decimal_i64, occurs_at, replace_all, replace_all_chars, signed_decimal, split, split_on,
    starts_with, string_from_chars, views, join, lowercase, decimal, is_digit,
};

verus! {

/// `(commit_prefix, issue_label)` for each contribution type.
pub open spec fn issue_meta(ct: ContributionType) -> (Seq<char>, Seq<char>) {
    match ct {
        ContributionType::SecurityFix => ("fix"@, "bug"@),
        ContributionType::CodeQuality => ("fix"@, "bug"@),
        ContributionType::DocsImprove => ("docs"@, "documentation"@),
        ContributionType::UiUxFix => ("fix"@, "bug"@),
        ContributionType::PerformanceOpt => ("perf"@, "perf"@),
        ContributionType::FeatureAdd => ("feat"@, "enhancement"@),
        ContributionType::Refactor => ("refactor"@, "enhancement"@),
    }
}

/// Return `(commit_prefix, issue_label)` for a contribution type.
pub fn issue_type_meta(ct: &ContributionType) -> (r: (&'static str, &'static str))
    ensures
        (r.0@, r.1@) == issue_meta(*ct),
{
    match ct {
        ContributionType::SecurityFix => ("fix", "bug"),
        ContributionType::CodeQuality => ("fix", "bug"),
        ContributionType::DocsImprove => ("docs", "documentation"),
        ContributionType::UiUxFix => ("fix", "bug"),
        ContributionType::PerformanceOpt => ("perf", "perf"),
        ContributionType::FeatureAdd => ("feat", "enhancement"),
        ContributionType::Refactor => ("refactor", "enhancement"),
    }
}

/// The scope named by a path: the second segment when the first is
/// `packages`, `apps`, `libs` or `src`, else empty.
pub open spec fn scope_of(path: Seq<char>) -> Seq<char> {
    let parts = split(path, '/');
    if parts.len() >= 2 && (parts[0] == "packages"@ || parts[0] == "apps"@ || parts[0]
        == "libs"@ || parts[0] == "src"@) {
        parts[1]
    } else {
        seq![]
    }
}

/// Extract a human-readable scope segment from a file path
/// (`packages/X/…`, `apps/X/…`, `libs/X/…`, `src/X/…` → `X`).
pub fn extract_scope_from_file_path(file_path: &str) -> (r: String)
    ensures
        r@ == scope_of(file_path@),
{
    let p = chars_of(file_path);
    let parts = split_on(&p, '/');
    proof {
        assert(views(parts@)[0] == parts@[0]@);
    }
    if parts.len() >= 2 {
        proof {
            assert(views(parts@)[1] == parts@[1]@);
        }
        let root = &parts[0];
        if chars_eq_str(root, "packages") || chars_eq_str(root, "apps") || chars_eq_str(
            root,
            "libs",
        ) || chars_eq_str(root, "src") {
            return string_from_chars(&parts[1]);
        }
    }
    String::new()
}

/// A lowercased bot comment reports a compliance problem.
pub open spec fn reports_compliance_issue(body: Seq<char>) -> bool {
    ||| contains(body, "doesn't follow conventional commit"@)
    ||| contains(body, "no issue referenced"@)
    ||| contains(body, "doesn't fully meet"@)
    ||| contains(body, "pr title"@)
    ||| contains(body, "needs:title"@)
    ||| contains(body, "needs:issue"@)
    ||| contains(body, "needs:compliance"@)
}

/// Return `true` when a (lowercased) bot comment body indicates a compliance problem.
pub fn has_compliance_issue(body_lower: &str) -> (b: bool)
    ensures
        b == reports_compliance_issue(body_lower@),
{
    let s = chars_of(body_lower);
    contains_str(&s, "doesn't follow conventional commit") || contains_str(
        &s,
        "no issue referenced",
    ) || contains_str(&s, "doesn't fully meet") || contains_str(&s, "pr title")
        || contains_str(&s, "needs:title") || contains_str(&s, "needs:issue") || contains_str(
        &s,
        "needs:compliance",
    )
}

/// A (lowercased) login or comment body that identifies a CLA bot.
pub open spec fn cla_bot(login: Seq<char>, body: Seq<char>) -> bool {
    ||| contains(login, "cla"@)
    ||| contains(login, "easycla"@)
    ||| contains(login, "claassistant"@)
    ||| contains(body, "contributor license agreement"@)
    ||| contains(body, "sign our cla"@)
    ||| contains(body, "cla not signed"@)
    ||| contains(body, "please sign"@)
    ||| contains(body, "i have read the cla"@)
}

/// Return `true` when a (lowercased) login or body text matches a CLA bot.
pub fn is_cla_bot(login_lower: &str, body_lower: &str) -> (b: bool)
    ensures
        b == cla_bot(login_lower@, body_lower@),
{
    let l = chars_of(login_lower);
    let s = chars_of(body_lower);
    contains_str(&l, "cla") || contains_str(&l, "easycla") || contains_str(&l, "claassistant")
        || contains_str(&s, "contributor license agreement") || contains_str(&s, "sign our cla")
        || contains_str(&s, "cla not signed") || contains_str(&s, "please sign") || contains_str(
        &s,
        "i have read the cla",
    )
}

/// `type[(scope)][!]: description`, lowercase type.
pub const CONVENTIONAL_TITLE: &'static str = r"^[a-z]+(\([^)]+\))?!?: .+";

/// Return `true` if `title` already follows the conventional commits format
/// (e.g. `fix: ...`, `feat(scope): ...`).
pub fn is_conventional_commit_title(title: &str) -> (b: bool)
    ensures
        b == regex_matches(CONVENTIONAL_TITLE@, title@),
{
    regex_found(CONVENTIONAL_TITLE, title)
}

/// `Closes #N`.
pub open spec fn closes_ref(issue_number: int) -> Seq<char> {
    "Closes #"@ + signed_decimal(issue_number)
}

/// `s` links `closes`: it occurs followed by a character that is not an
/// ASCII digit, or at the very end (so `Closes #4` is not linked by
/// `Closes #42`).
pub open spec fn links_at(s: Seq<char>, closes: Seq<char>, i: int) -> bool {
    occurs_at(s, closes, i) && (i + closes.len() == s.len() || !is_digit(s[i + closes.len()]))
}

pub open spec fn links(s: Seq<char>, closes: Seq<char>) -> bool {
    exists|i: int| links_at(s, closes, i)
}

/// A PR body with the issue link injected: placeholders `Closes N/A` are
/// replaced, a body that already links the issue is kept, any other body
/// gets the link prepended.
pub open spec fn body_with_issue_link(body: Seq<char>, issue_number: int) -> Seq<char> {
    let closes = closes_ref(issue_number);
    if contains(body, "Closes N/A"@) {
        replace_all(body, "Closes N/A"@, closes)
    } else if links(body, closes) {
        body
    } else {
        closes + "\n\n"@ + body
    }
}

fn links_exec(s: &[char], closes: &[char]) -> (b: bool)
    ensures
        b == links(s@, closes@),
{
    let mut i: usize = 0;
    while i < s.len()
        invariant
            i <= s.len(),
            forall|j: int| 0 <= j < i ==> !links_at(s@, closes@, j),
        decreases s.len() - i,
    {
        if crate::text::matches_at(s, closes, i) {
            let end = i + closes.len();
            if end == s.len() || !('0' <= s[end] && s[end] <= '9') {
                proof {
                    assert(links_at(s@, closes@, i as int));
                }
                return true;
            }
        }
        i = i + 1;
    }
    if crate::text::matches_at(s, closes, i) {
        proof {
            assert(links_at(s@, closes@, i as int));
        }
        return true;
    }
    proof {
        assert forall|j: int| !links_at(s@, closes@, j) by {
            if links_at(s@, closes@, j) {
                assert(0 <= j && j <= s@.len());
            }
        }
    }
    false
}

proof fn lemma_occurs_shift(s: Seq<char>, p: Seq<char>, pre: Seq<char>, i: int)
    requires
        occurs_at(s, p, i),
    ensures
        occurs_at(pre + s, p, i + pre.len()),
{
    assert((pre + s).subrange(i + pre.len(), i + pre.len() + p.len()) =~= s.subrange(
        i,
        i + p.len(),
    ));
}

proof fn lemma_occurs_drop_first(s: Seq<char>, p: Seq<char>, i: int)
    requires
        occurs_at(s, p, i),
        i >= 1,
    ensures
        occurs_at(s.drop_first(), p, i - 1),
{
    assert(s.drop_first().subrange(i - 1, i - 1 + p.len()) =~= s.subrange(i, i + p.len()));
}

/// Replacing a pattern that occurs leaves the replacement in the text.
proof fn lemma_replace_keeps_replacement(s: Seq<char>, from: Seq<char>, to: Seq<char>)
    requires
        from.len() > 0,
        contains(s, from),
    ensures
        contains(replace_all(s, from, to), to),
    decreases s.len(),
{
    let i = choose|i: int| occurs_at(s, from, i);
    if starts_with(s, from) {
        let r = to + replace_all(s.skip(from.len() as int), from, to);
        assert(r.subrange(0, to.len() as int) =~= to);
        assert(occurs_at(r, to, 0));
    } else {
        assert(i != 0) by {
            if i == 0 {
                assert(s.take(from.len() as int) =~= s.subrange(0, from.len() as int));
            }
        }
        lemma_occurs_drop_first(s, from, i);
        lemma_replace_keeps_replacement(s.drop_first(), from, to);
        let rest = replace_all(s.drop_first(), from, to);
        let j = choose|j: int| occurs_at(rest, to, j);
        lemma_occurs_shift(rest, to, seq![s[0]], j);
    }
}

/// `Closes #N` starts with `C`, has `#` at index 7, and no other `C`.
proof fn lemma_closes_shape(n: int)
    ensures
        closes_ref(n).len() >= 9,
        closes_ref(n)[0] == 'C',
        closes_ref(n)[7] == '#',
        forall|j: int| 1 <= j < closes_ref(n).len() ==> #[trigger] closes_ref(n)[j] != 'C',
{
    reveal_strlit("Closes #");
    let d = signed_decimal(n);
    let m: nat = if n < 0 {
        (-n) as nat
    } else {
        n as nat
    };
    crate::text::lemma_decimal_digits(m);
    let c = closes_ref(n);
    assert(c == "Closes #"@ + d);
    assert forall|j: int| 1 <= j < c.len() implies #[trigger] c[j] != 'C' by {
        if j >= 8 {
            assert(c[j] == d[j - 8]);
            if n < 0 {
                if j > 8 {
                    assert(d[j - 8] == decimal(m)[j - 9]);
                    assert(is_digit(decimal(m)[j - 9]));
                }
            } else {
                assert(is_digit(decimal(m)[j - 8]));
            }
        }
    }
}

/// Where `replace_all` wrote no `C`, it copied the text unchanged (every
/// replacement starts with `C`).
proof fn lemma_copied_prefix(s: Seq<char>, from: Seq<char>, to: Seq<char>, k: int)
    requires
        from.len() > 0,
        to.len() > 0,
        to[0] == 'C',
        0 <= k <= replace_all(s, from, to).len(),
        forall|j: int| 0 <= j < k ==> replace_all(s, from, to)[j] != 'C',
    ensures
        k <= s.len(),
        s.take(k) == replace_all(s, from, to).take(k),
    decreases s.len(),
{
    let r = replace_all(s, from, to);
    if k == 0 {
        assert(s.take(0) =~= r.take(0));
    } else if s.len() == 0 {
    } else if starts_with(s, from) {
        assert(r[0] == to[0]);
    } else {
        let r2 = replace_all(s.drop_first(), from, to);
        assert(r == seq![s[0]] + r2);
        assert forall|j: int| 0 <= j < k - 1 implies r2[j] != 'C' by {
            assert(r[j + 1] == r2[j]);
        }
        lemma_copied_prefix(s.drop_first(), from, to, k - 1);
        assert(s.take(k) =~= seq![s[0]] + s.drop_first().take(k - 1));
        assert(r.take(k) =~= seq![s[0]] + r2.take(k - 1));
    }
}

/// Replacing every `Closes N/A` by `Closes #N` leaves no `Closes N/A`.
proof fn lemma_no_placeholder_left(s: Seq<char>, n: int)
    ensures
        forall|i: int| !occurs_at(replace_all(s, "Closes N/A"@, closes_ref(n)), "Closes N/A"@, i),
    decreases s.len(),
{
    reveal_strlit("Closes N/A");
    let f = "Closes N/A"@;
    let t = closes_ref(n);
    lemma_closes_shape(n);
    let r = replace_all(s, f, t);
    assert(f.len() == 10 && f[0] == 'C' && f[7] == 'N');
    assert forall|j: int| 1 <= j < 10 implies #[trigger] f[j] != 'C' by {}
    if s.len() == 0 {
    } else if starts_with(s, f) {
        let rest = s.skip(10);
        lemma_no_placeholder_left(rest, n);
        let r2 = replace_all(rest, f, t);
        assert(r == t + r2);
        assert forall|i: int| !occurs_at(r, f, i) by {
            if occurs_at(r, f, i) {
                assert(r[i] == r.subrange(i, i + 10)[0]);
                if i >= t.len() {
                    assert(r2.subrange(i - t.len(), i - t.len() + 10) =~= r.subrange(i, i + 10));
                    assert(occurs_at(r2, f, i - t.len()));
                } else if i > 0 {
                    assert(r[i] == t[i]);
                } else {
                    assert(r[7] == r.subrange(0, 10)[7]);
                    assert(r[7] == t[7]);
                }
            }
        }
    } else {
        let rest = s.drop_first();
        lemma_no_placeholder_left(rest, n);
        let r2 = replace_all(rest, f, t);
        assert(r == seq![s[0]] + r2);
        assert forall|i: int| !occurs_at(r, f, i) by {
            if occurs_at(r, f, i) {
                if i >= 1 {
                    assert(r2.subrange(i - 1, i - 1 + 10) =~= r.subrange(i, i + 10));
                    assert(occurs_at(r2, f, i - 1));
                } else {
                    assert forall|j: int| 0 <= j < 9 implies r2[j] != 'C' by {
                        assert(r2[j] == r[j + 1]);
                        assert(r[j + 1] == r.subrange(0, 10)[j + 1]);
                    }
                    lemma_copied_prefix(rest, f, t, 9);
                    assert(s.take(10) =~= f) by {
                        assert forall|j: int| 0 <= j < 10 implies s.take(10)[j] == f[j] by {
                            assert(r[j] == r.subrange(0, 10)[j]);
                            if j > 0 {
                                assert(rest.take(9)[j - 1] == r2.take(9)[j - 1]);
                            }
                        }
                    }
                }
            }
        }
    }
}

proof fn lemma_links_shift(r: Seq<char>, t: Seq<char>, pre: Seq<char>, j: int)
    requires
        links_at(r, t, j),
    ensures
        links_at(pre + r, t, j + pre.len()),
{
    lemma_occurs_shift(r, t, pre, j);
    if j + t.len() < r.len() {
        assert((pre + r)[j + pre.len() + t.len()] == r[j + t.len()]);
    }
}

/// A `Closes N/A` that no digit follows becomes a `Closes #N` that no digit
/// follows.
proof fn lemma_replace_links(s: Seq<char>, n: int, i: int)
    requires
        links_at(s, "Closes N/A"@, i),
    ensures
        links(replace_all(s, "Closes N/A"@, closes_ref(n)), closes_ref(n)),
    decreases s.len(),
{
    reveal_strlit("Closes N/A");
    let f = "Closes N/A"@;
    let t = closes_ref(n);
    lemma_closes_shape(n);
    assert(f.len() == 10 && f[0] == 'C');
    assert forall|j: int| 1 <= j < 10 implies #[trigger] f[j] != 'C' by {}
    let r = replace_all(s, f, t);
    assert(s[i] == s.subrange(i, i + 10)[0]);
    if starts_with(s, f) {
        let rest = s.skip(10);
        let r2 = replace_all(rest, f, t);
        assert(r == t + r2);
        if i == 0 {
            assert(r.subrange(0, t.len() as int) =~= t);
            if rest.len() > 0 {
                assert(r[t.len() as int] == r2[0]);
                if !starts_with(rest, f) {
                    assert(r2[0] == rest[0]);
                    assert(rest[0] == s[10]);
                }
            }
            assert(links_at(r, t, 0));
        } else if i < 10 {
            assert(s[i] == s.take(10)[i]);
        } else {
            assert(rest.subrange(i - 10, i - 10 + 10) =~= s.subrange(i, i + 10));
            if i + 10 < s.len() {
                assert(rest[i - 10 + 10] == s[i + 10]);
            }
            assert(links_at(rest, f, i - 10));
            lemma_replace_links(rest, n, i - 10);
            let j = choose|j: int| links_at(r2, t, j);
            lemma_links_shift(r2, t, t, j);
        }
    } else {
        let rest = s.drop_first();
        let r2 = replace_all(rest, f, t);
        assert(r == seq![s[0]] + r2);
        assert(i != 0) by {
            if i == 0 {
                assert(s.take(10) =~= s.subrange(0, 10));
            }
        }
        assert(rest.subrange(i - 1, i - 1 + 10) =~= s.subrange(i, i + 10));
        if i + 10 < s.len() {
            assert(rest[i - 1 + 10] == s[i + 10]);
        }
        assert(links_at(rest, f, i - 1));
        lemma_replace_links(rest, n, i - 1);
        let j = choose|j: int| links_at(r2, t, j);
        lemma_links_shift(r2, t, seq![s[0]], j);
    }
}

/// Up to the first `C`, `replace_all` copies the text.
proof fn lemma_copy_until_c(s: Seq<char>, n: int, k: int)
    requires
        0 <= k <= s.len(),
        forall|j: int| 0 <= j < k ==> s[j] != 'C',
    ensures
        replace_all(s, "Closes N/A"@, closes_ref(n)) == s.take(k) + replace_all(
            s.skip(k),
            "Closes N/A"@,
            closes_ref(n),
        ),
    decreases k,
{
    reveal_strlit("Closes N/A");
    let f = "Closes N/A"@;
    let t = closes_ref(n);
    if k == 0 {
        assert(s.skip(0) =~= s);
        assert(s.take(0) + replace_all(s, f, t) =~= replace_all(s, f, t));
    } else {
        assert(!starts_with(s, f)) by {
            if starts_with(s, f) {
                assert(s[0] == s.take(10)[0]);
            }
        }
        let rest = s.drop_first();
        lemma_copy_until_c(rest, n, k - 1);
        assert(rest.skip(k - 1) =~= s.skip(k));
        assert(s.take(k) =~= seq![s[0]] + rest.take(k - 1));
        assert(replace_all(s, f, t) == seq![s[0]] + replace_all(rest, f, t));
        assert(seq![s[0]] + (rest.take(k - 1) + replace_all(s.skip(k), f, t)) =~= s.take(k)
            + replace_all(s.skip(k), f, t));
    }
}

/// A `Closes #N` that no digit follows survives the replacement of the
/// placeholders.
proof fn lemma_replace_keeps_link(s: Seq<char>, n: int, i: int)
    requires
        links_at(s, closes_ref(n), i),
    ensures
        links(replace_all(s, "Closes N/A"@, closes_ref(n)), closes_ref(n)),
    decreases s.len(),
{
    reveal_strlit("Closes N/A");
    let f = "Closes N/A"@;
    let t = closes_ref(n);
    lemma_closes_shape(n);
    assert(f.len() == 10 && f[0] == 'C' && f[7] == 'N');
    assert forall|j: int| 1 <= j < 10 implies #[trigger] f[j] != 'C' by {}
    let r = replace_all(s, f, t);
    assert(s[i] == s.subrange(i, i + t.len())[0]);
    if i == 0 {
        assert(!starts_with(s, f)) by {
            if starts_with(s, f) {
                assert(s[7] == s.take(10)[7]);
                assert(s[7] == s.subrange(0, t.len() as int)[7]);
            }
        }
        let rest = s.drop_first();
        let k = t.len() - 1;
        assert forall|j: int| 0 <= j < k implies rest[j] != 'C' by {
            assert(rest[j] == s.subrange(0, t.len() as int)[j + 1]);
        }
        lemma_copy_until_c(rest, n, k);
        let tail = s.skip(t.len() as int);
        assert(rest.skip(k) =~= tail);
        let r3 = replace_all(tail, f, t);
        assert(r == seq![s[0]] + replace_all(rest, f, t));
        assert(r == (seq![s[0]] + rest.take(k)) + r3);
        assert(seq![s[0]] + rest.take(k) =~= t);
        assert(r.subrange(0, t.len() as int) =~= t);
        if tail.len() > 0 {
            assert(r[t.len() as int] == r3[0]);
            if !starts_with(tail, f) {
                assert(r3[0] == tail[0]);
            }
        }
        assert(links_at(r, t, 0));
    } else if starts_with(s, f) {
        let rest = s.skip(10);
        let r2 = replace_all(rest, f, t);
        assert(r == t + r2);
        if i < 10 {
            assert(s[i] == s.take(10)[i]);
        } else {
            assert(rest.subrange(i - 10, i - 10 + t.len()) =~= s.subrange(i, i + t.len()));
            if i + t.len() < s.len() {
                assert(rest[i - 10 + t.len()] == s[i + t.len()]);
            }
            assert(links_at(rest, t, i - 10));
            lemma_replace_keeps_link(rest, n, i - 10);
            let j = choose|j: int| links_at(r2, t, j);
            lemma_links_shift(r2, t, t, j);
        }
    } else {
        let rest = s.drop_first();
        let r2 = replace_all(rest, f, t);
        assert(r == seq![s[0]] + r2);
        assert(rest.subrange(i - 1, i - 1 + t.len()) =~= s.subrange(i, i + t.len()));
        if i + t.len() < s.len() {
            assert(rest[i - 1 + t.len()] == s[i + t.len()]);
        }
        assert(links_at(rest, t, i - 1));
        lemma_replace_keeps_link(rest, n, i - 1);
        let j = choose|j: int| links_at(r2, t, j);
        lemma_links_shift(r2, t, seq![s[0]], j);
    }
}

/// Linking an issue twice gives what linking it once gave, whenever the
/// body has no `Closes N/A` placeholder, has one that no digit follows, or
/// already links the issue: the result then links the issue and holds no
/// placeholder.
pub proof fn lemma_issue_link_idempotent(body: Seq<char>, issue_number: int)
    requires
        !contains(body, "Closes N/A"@) || links(body, "Closes N/A"@) || links(
            body,
            closes_ref(issue_number),
        ),
    ensures
        links(body_with_issue_link(body, issue_number), closes_ref(issue_number)),
        !contains(body_with_issue_link(body, issue_number), "Closes N/A"@),
        body_with_issue_link(body_with_issue_link(body, issue_number), issue_number)
            == body_with_issue_link(body, issue_number),
{
    lemma_issue_link(body, issue_number);
    if contains(body, "Closes N/A"@) {
        if links(body, "Closes N/A"@) {
            let i = choose|i: int| links_at(body, "Closes N/A"@, i);
            lemma_replace_links(body, issue_number, i);
        } else {
            let i = choose|i: int| links_at(body, closes_ref(issue_number), i);
            lemma_replace_keeps_link(body, issue_number, i);
        }
    }
}

/// Linking an issue leaves no `Closes N/A` placeholder; a body without one
/// comes out linking the issue; and a result that links the issue is left
/// as it is by a second call.
pub proof fn lemma_issue_link(body: Seq<char>, issue_number: int)
    ensures
        !contains(body_with_issue_link(body, issue_number), "Closes N/A"@),
        !contains(body, "Closes N/A"@) ==> links(
            body_with_issue_link(body, issue_number),
            closes_ref(issue_number),
        ),
        links(body_with_issue_link(body, issue_number), closes_ref(issue_number))
            ==> body_with_issue_link(body_with_issue_link(body, issue_number), issue_number)
            == body_with_issue_link(body, issue_number),
{
    reveal_strlit("Closes N/A");
    reveal_strlit("\n\n");
    let f = "Closes N/A"@;
    let t = closes_ref(issue_number);
    let r = body_with_issue_link(body, issue_number);
    lemma_closes_shape(issue_number);
    assert(f.len() == 10 && f[0] == 'C' && f[7] == 'N');
    if contains(body, f) {
        lemma_no_placeholder_left(body, issue_number);
    } else if links(body, t) {
    } else {
        let pre = t + "\n\n"@;
        assert(r == pre + body);
        assert(links_at(r, t, 0)) by {
            assert(r.subrange(0, t.len() as int) =~= t);
            assert(r[t.len() as int] == '\n');
        }
        assert forall|i: int| !occurs_at(r, f, i) by {
            if occurs_at(r, f, i) {
                assert(r[i] == r.subrange(i, i + 10)[0]);
                if i >= pre.len() {
                    assert(body.subrange(i - pre.len(), i - pre.len() + 10) =~= r.subrange(i, i + 10));
                    assert(occurs_at(body, f, i - pre.len()));
                } else if i >= t.len() {
                    assert(r[i] == '\n');
                } else if i > 0 {
                    assert(r[i] == t[i]);
                } else {
                    assert(r[7] == r.subrange(0, 10)[7]);
                    assert(r[7] == t[7]);
                }
            }
        }
    }
}

/// Inject `Closes #N` into a PR body, replacing placeholders or prepending.
pub fn inject_issue_link(body: &str, issue_number: i64) -> (r: String)
    ensures
        r@ == body_with_issue_link(body@, issue_number as int),
{
    let b = chars_of(body);
    let mut closes = chars_of("Closes #");
    let digits = decimal_i64(issue_number);
    append_chars(&mut closes, &digits);
    let placeholder = chars_of("Closes N/A");
    proof {
        reveal_strlit("Closes N/A");
    }
    if contains_chars(&b, &placeholder) {
        let out = replace_all_chars(&b, &placeholder, &closes);
        proof {
            lemma_replace_keeps_replacement(b@, placeholder@, closes@);
        }
        return string_from_chars(&out);
    }
    if links_exec(&b, &closes) {
        return String::from_str(body);
    }
    let mut out = closes.clone();
    append_str(&mut out, "\n\n");
    append_chars(&mut out, &b);
    proof {
        assert(out@.subrange(0, closes@.len() as int) =~= closes@);
        assert(occurs_at(out@, closes@, 0));
        reveal_strlit("\n\n");
        assert(out@[closes@.len() as int] == '\n');
        assert(links_at(out@, closes@, 0));
    }
    string_from_chars(&out)
}

// ── Sign-offs ────────────────────────────────────────────────────────────────

/// The DCO `Signed-off-by` identity of a GitHub user: `name <email>`, the
/// name falling back to the login and the email to the user's
/// `id+login@users.noreply.github.com` address; none without a name.
pub open spec fn signoff_of(
    name: Option<Seq<char>>,
    login: Option<Seq<char>>,
    email: Option<Seq<char>>,
    id: Option<i64>,
) -> Option<Seq<char>> {
    let n = match name {
        Some(x) => x,
        None => match login {
            Some(l) => l,
            None => seq![],
        },
    };
    let e = match email {
        Some(x) => x,
        None => signed_decimal(
            match id {
                Some(i) => i as int,
                None => 0,
            },
        ) + "+"@ + match login {
            Some(l) => l,
            None => seq![],
        } + "@users.noreply.github.com"@,
    };
    if n.len() == 0 {
        None
    } else {
        Some(n + " <"@ + e + ">"@)
    }
}

pub open spec fn opt_view(o: Option<&str>) -> Option<Seq<char>> {
    match o {
        Some(s) => Some(s@),
        None => None,
    }
}

/// Build the DCO sign-off from a GitHub user's `name`, `login`, `email` and
/// `id` (each when present and of the right JSON type).
pub fn build_signoff(name: Option<&str>, login: Option<&str>, email: Option<&str>, id: Option<i64>) -> (r:
    Option<String>)
    ensures
        match r {
            Some(s) => signoff_of(opt_view(name), opt_view(login), opt_view(email), id) == Some(s@),
            None => signoff_of(opt_view(name), opt_view(login), opt_view(email), id) is None,
        },
{
    let n = match name {
        Some(x) => chars_of(x),
        None => match login {
            Some(l) => chars_of(l),
            None => Vec::new(),
        },
    };
    let e = match email {
        Some(x) => chars_of(x),
        None => {
            let mut v = decimal_i64(
                match id {
                    Some(i) => i,
                    None => 0,
                },
            );
            append_str(&mut v, "+");
            match login {
                Some(l) => append_str(&mut v, l),
                None => {},
            }
            append_str(&mut v, "@users.noreply.github.com");
            proof {
                let lv: Seq<char> = match login {
                    Some(l) => l@,
                    None => seq![],
                };
                assert(v@ =~= signed_decimal(
                    match id {
                        Some(i) => i as int,
                        None => 0,
                    },
                ) + "+"@ + lv + "@users.noreply.github.com"@);
            }
            v
        },
    };
    if n.len() == 0 {
        None
    } else {
        let mut out = crate::text::copy_chars(&n);
        append_str(&mut out, " <");
        append_chars(&mut out, &e);
        append_str(&mut out, ">");
        Some(string_from_chars(&out))
    }
}

// ── Issues for findings ──────────────────────────────────────────────────────

/// The conventional-commit title of the issue opened for a finding:
/// `prefix(scope): title` (no scope part when the path names none), with the
/// finding's title lowercased.
pub open spec fn issue_title_of(ct: ContributionType, file_path: Seq<char>, title: Seq<char>) -> Seq<char> {
    let scope = scope_of(file_path);
    if scope.len() == 0 {
        issue_meta(ct).0 + ": "@ + lowercase(title)
    } else {
        issue_meta(ct).0 + "("@ + scope + "): "@ + lowercase(title)
    }
}

/// The body of the issue opened for a finding.
pub open spec fn issue_body_of(description: Seq<char>, severity: Severity, file_path: Seq<char>) -> Seq<char> {
    "## Description\n\n"@ + description + "\n\n**Severity**: `"@ + severity_name(severity)
        + "`\n**File**: `"@ + file_path
        + "`\n\n## Expected Behavior\n\nThe code should handle this case properly to avoid unexpected errors or degraded quality."@
}

/// The issue to open for a finding: its title, body and label.
pub fn issue_for_finding(finding: &Finding) -> (r: (String, String, &'static str))
    ensures
        r.0@ == issue_title_of(finding.finding_type, finding.file_path@, finding.title@),
        r.1@ == issue_body_of(finding.description@, finding.severity, finding.file_path@),
        r.2@ == issue_meta(finding.finding_type).1,
{
    let (prefix, label) = issue_type_meta(&finding.finding_type);
    let scope = extract_scope_from_file_path(finding.file_path.as_str());
    let lower = crate::text::to_lowercase(finding.title.as_str());
    let mut t = chars_of(prefix);
    if chars_of(scope.as_str()).len() == 0 {
        append_str(&mut t, ": ");
    } else {
        append_str(&mut t, "(");
        append_str(&mut t, scope.as_str());
        append_str(&mut t, "): ");
    }
    append_str(&mut t, lower.as_str());
    let mut b = chars_of("## Description\n\n");
    append_str(&mut b, finding.description.as_str());
    append_str(&mut b, "\n\n**Severity**: `");
    append_str(&mut b, finding.severity.as_str());
    append_str(&mut b, "`\n**File**: `");
    append_str(&mut b, finding.file_path.as_str());
    append_str(
        &mut b,
        "`\n\n## Expected Behavior\n\nThe code should handle this case properly to avoid unexpected errors or degraded quality.",
    );
    (string_from_chars(&t), string_from_chars(&b), label)
}

// ── Compliance after a PR ────────────────────────────────────────────────────

/// A comment on a PR as the compliance check reads it.
#[derive(Debug, Clone)]
pub struct BotComment {
    pub login: String,
    pub body: String,
    /// The author's account type is `Bot`.
    pub bot_account: bool,
}

/// The comment is by a bot: a `Bot` account or a `[bot]` login.
pub open spec fn by_bot(c: BotComment) -> bool {
    c.bot_account || crate::text::ends_with(c.login@, "[bot]"@)
}

/// What the bot comments on a PR call for.
#[derive(Debug, Clone)]
pub struct ComplianceReport {
    /// Indices of the comments posted by CLA bots.
    pub cla_comments: Vec<usize>,
    /// Bodies of the other bot comments that report a compliance problem.
    pub issues: Vec<String>,
}

/// Indices of CLA-bot comments, in order.
pub open spec fn cla_indices(cs: Seq<BotComment>) -> Seq<usize>
    decreases cs.len(),
{
    if cs.len() == 0 {
        seq![]
    } else {
        let c = cs.last();
        if by_bot(c) && cla_bot(lowercase(c.login@), lowercase(c.body@)) {
            cla_indices(cs.drop_last()).push((cs.len() - 1) as usize)
        } else {
            cla_indices(cs.drop_last())
        }
    }
}

/// Bodies of the non-CLA bot comments that report a compliance problem, in order.
pub open spec fn compliance_issues(cs: Seq<BotComment>) -> Seq<Seq<char>>
    decreases cs.len(),
{
    if cs.len() == 0 {
        seq![]
    } else {
        let c = cs.last();
        if by_bot(c) && !cla_bot(lowercase(c.login@), lowercase(c.body@))
            && reports_compliance_issue(lowercase(c.body@)) {
            compliance_issues(cs.drop_last()).push(c.body@)
        } else {
            compliance_issues(cs.drop_last())
        }
    }
}

pub open spec fn string_views(v: Seq<String>) -> Seq<Seq<char>> {
    v.map_values(|s: String| s@)
}

/// Sort a PR's comments into CLA-bot requests and compliance problems.
pub fn scan_bot_comments(comments: &[BotComment]) -> (r: ComplianceReport)
    ensures
        r.cla_comments@ == cla_indices(comments@),
        string_views(r.issues@) == compliance_issues(comments@),
{
    let mut cla: Vec<usize> = Vec::new();
    let mut issues: Vec<String> = Vec::new();
    let mut k: usize = 0;
    proof {
        assert(comments@.take(0) =~= seq![]);
        assert(string_views(issues@) =~= seq![]);
    }
    while k < comments.len()
        invariant
            k <= comments@.len(),
            cla@ == cla_indices(comments@.take(k as int)),
            string_views(issues@) == compliance_issues(comments@.take(k as int)),
        decreases comments.len() - k,
    {
        proof {
            assert(comments@.take(k + 1).drop_last() =~= comments@.take(k as int));
            assert(comments@.take(k + 1).last() == comments@[k as int]);
        }
        let c = &comments[k];
        let bot = c.bot_account || crate::text::ends_with_str(chars_of(c.login.as_str()).as_slice(), "[bot]");
        if bot {
            let login_lower = crate::text::to_lowercase(c.login.as_str());
            let body_lower = crate::text::to_lowercase(c.body.as_str());
            if is_cla_bot(login_lower.as_str(), body_lower.as_str()) {
                cla.push(k);
            } else if has_compliance_issue(body_lower.as_str()) {
                let b = c.body.clone();
                proof {
                    assert(string_views(issues@.push(b)) =~= string_views(issues@).push(b@));
                }
                issues.push(b);
            }
        }
        k = k + 1;
    }
    proof {
        assert(comments@.take(k as int) =~= comments@);
    }
    ComplianceReport { cla_comments: cla, issues }
}

/// Which automatic fixes the reported problems call for: a conventional
/// title, and a linked issue.
pub open spec fn fixes_called_for(issues: Seq<Seq<char>>) -> (bool, bool) {
    let all = lowercase(join(issues, " "@));
    (
        contains(all, "conventional commit"@) || contains(all, "needs:title"@),
        contains(all, "no issue referenced"@) || contains(all, "needs:issue"@),
    )
}

/// Decide the fixes for reported compliance problems: `(fix title, link issue)`.
pub fn compliance_fixes(issues: &Vec<String>) -> (r: (bool, bool))
    ensures
        r == fixes_called_for(string_views(issues@)),
{
    let mut parts: Vec<Vec<char>> = Vec::new();
    let mut k: usize = 0;
    while k < issues.len()
        invariant
            k <= issues@.len(),
            views(parts@) == string_views(issues@).take(k as int),
        decreases issues.len() - k,
    {
        let p = chars_of(issues[k].as_str());
        proof {
            assert(views(parts@.push(p)) =~= views(parts@).push(p@));
            assert(string_views(issues@).take(k + 1) =~= string_views(issues@).take(k as int).push(
                issues@[k as int]@,
            ));
        }
        parts.push(p);
        k = k + 1;
    }
    proof {
        assert(string_views(issues@).take(k as int) =~= string_views(issues@));
    }
    let sep = chars_of(" ");
    let joined = crate::text::join_chars(&parts, &sep);
    let text = string_from_chars(&joined);
    let all = crate::text::lowercase_chars(text.as_str());
    (
        contains_str(&all, "conventional commit") || contains_str(&all, "needs:title"),
        contains_str(&all, "no issue referenced") || contains_str(&all, "needs:issue"),
    )
}

/// Prefixes of titles that do not follow conventional commits.
pub open spec fn legacy_prefixes() -> Seq<Seq<char>> {
    seq![
        "Security:"@,
        "Quality:"@,
        "Docs:"@,
        "UI/UX:"@,
        "Performance:"@,
        "Feature:"@,
        "Refactor:"@,
        "Fix:"@,
    ]
}

/// The title a PR gets when it lacks a conventional one (and the repository
/// gives no guidelines): none when it already is conventional or has no
/// legacy prefix; else `prefix: finding title` in lowercase.
pub open spec fn compliant_title_of(
    title: Seq<char>,
    finding_type: ContributionType,
    finding_title: Seq<char>,
) -> Option<Seq<char>> {
    if regex_matches(CONVENTIONAL_TITLE@, title) {
        None
    } else if exists|i: int| 0 <= i < legacy_prefixes().len() && starts_with(title, #[trigger] legacy_prefixes()[i]) {
        Some(issue_meta(finding_type).0 + ": "@ + lowercase(finding_title))
    } else {
        None
    }
}

/// A conventional title for a PR whose title is not one, when the
/// repository gives no contribution guidelines.
pub fn build_compliant_title(title: &str, finding_type: &ContributionType, finding_title: &str) -> (r:
    Option<String>)
    ensures
        match r {
            Some(t) => compliant_title_of(title@, *finding_type, finding_title@) == Some(t@),
            None => compliant_title_of(title@, *finding_type, finding_title@) is None,
        },
{
    if is_conventional_commit_title(title) {
        return None;
    }
    let t = chars_of(title);
    let prefixes: [&str; 8] = [
        "Security:",
        "Quality:",
        "Docs:",
        "UI/UX:",
        "Performance:",
        "Feature:",
        "Refactor:",
        "Fix:",
    ];
    proof {
        assert(legacy_prefixes() =~= seq![
            prefixes@[0]@,
            prefixes@[1]@,
            prefixes@[2]@,
            prefixes@[3]@,
            prefixes@[4]@,
            prefixes@[5]@,
            prefixes@[6]@,
            prefixes@[7]@,
        ]);
    }
    let mut k: usize = 0;
    let mut found = false;
    while k < 8
        invariant
            k <= 8,
            prefixes@.len() == 8,
            t@ == title@,
            forall|i: int| 0 <= i < 8 ==> legacy_prefixes()[i] == (#[trigger] prefixes@[i])@,
            found == exists|i: int| 0 <= i < k && starts_with(title@, #[trigger] legacy_prefixes()[i]),
        decreases 8 - k,
    {
        if crate::text::starts_with_str(&t, prefixes[k]) {
            found = true;
        }
        proof {
            if found {
                if crate::text::starts_with(title@, legacy_prefixes()[k as int]) {
                    assert(exists|i: int| 0 <= i < k + 1 && starts_with(title@, #[trigger] legacy_prefixes()[i]));
                }
            }
        }
        k = k + 1;
    }
    if !found {
        return None;
    }
    let (prefix, _label) = issue_type_meta(finding_type);
    let mut out = chars_of(prefix);
    append_str(&mut out, ": ");
    let lower = crate::text::to_lowercase(finding_title);
    append_str(&mut out, lower.as_str());
    Some(string_from_chars(&out))
}

// ── CLA signing ──────────────────────────────────────────────────────────────

/// What to do about one CLA-bot comment.
#[derive(Debug, Clone, Copy, PartialEq, Eq, Structural)]
pub enum ClaAction {
    /// Post the CLAAssistant signing comment.
    Sign,
    /// EasyCLA needs a web flow: flag for manual signing.
    Manual,
    /// Nothing to do for this comment.
    Skip,
}

/// The comment CLAAssistant accepts as a signature.
pub const CLA_SIGNATURE: &'static str = "I have read the CLA Document and I hereby sign the CLA";

/// The action for a CLA-bot comment with this (lowercased) login and body.
pub open spec fn cla_action_for(login: Seq<char>, body: Seq<char>) -> ClaAction {
    if contains(login, "claassistant"@) || contains(body, "i have read the cla"@) {
        ClaAction::Sign
    } else if contains(login, "easycla"@) || contains(login, "linux-foundation"@) {
        ClaAction::Manual
    } else {
        ClaAction::Skip
    }
}

/// Decide how to answer a CLA bot, from its lowercased login and body.
pub fn cla_action(login_lower: &str, body_lower: &str) -> (r: ClaAction)
    ensures
        r == cla_action_for(login_lower@, body_lower@),
{
    let l = chars_of(login_lower);
    let b = chars_of(body_lower);
    if contains_str(&l, "claassistant") || contains_str(&b, "i have read the cla") {
        ClaAction::Sign
    } else if contains_str(&l, "easycla") || contains_str(&l, "linux-foundation") {
        ClaAction::Manual
    } else {
        ClaAction::Skip
    }
}


// ── Branches, bodies and status ──────────────────────────────────────────────

/// The branch folder a PR is pushed under.
pub open spec fn pr_branch_prefix(t: ContributionType) -> Seq<char> {
    match t {
        ContributionType::SecurityFix => "fix/security"@,
        ContributionType::CodeQuality => "fix"@,
        ContributionType::DocsImprove => "docs"@,
        ContributionType::UiUxFix => "fix/ui"@,
        ContributionType::PerformanceOpt => "perf"@,
        ContributionType::FeatureAdd => "feat"@,
        ContributionType::Refactor => "refactor"@,
    }
}

fn pr_branch_prefix_of(t: ContributionType) -> (r: &'static str)
    ensures
        r@ == pr_branch_prefix(t),
{
    match t {
        ContributionType::SecurityFix => "fix/security",
        ContributionType::CodeQuality => "fix",
        ContributionType::DocsImprove => "docs",
        ContributionType::UiUxFix => "fix/ui",
        ContributionType::PerformanceOpt => "perf",
        ContributionType::FeatureAdd => "feat",
        ContributionType::Refactor => "refactor",
    }
}

/// A natural-looking branch name: `<type folder>/<slug of the finding's
/// title>`, the slug at most 50 bytes long.
pub fn human_branch_name(contribution: &Contribution) -> (r: String)
    ensures
        r@ == pr_branch_prefix(contribution.contribution_type) + "/"@ + title_slug(
            contribution.finding.title@,
            50,
        ),
{
    let mut out = chars_of(pr_branch_prefix_of(contribution.contribution_type));
    append_str(&mut out, "/");
    let slug = title_slug_of(contribution.finding.title.as_str(), 50);
    append_str(&mut out, slug.as_str());
    string_from_chars(&out)
}

/// The variant name of a severity, as a debug rendering shows it.
pub open spec fn severity_debug(s: Severity) -> Seq<char> {
    match s {
        Severity::Low => "Low"@,
        Severity::Medium => "Medium"@,
        Severity::High => "High"@,
        Severity::Critical => "Critical"@,
    }
}

fn severity_debug_of(s: Severity) -> (r: &'static str)
    ensures
        r@ == severity_debug(s),
{
    match s {
        Severity::Low => "Low",
        Severity::Medium => "Medium",
        Severity::High => "High",
        Severity::Critical => "Critical",
    }
}

/// ``- `path` (new)`` or ``- `path` (modified)``.
pub open spec fn change_line(c: FileChange) -> Seq<char> {
    "- `"@ + c.path@ + "` "@ + if c.is_new_file {
        "(new)"@
    } else {
        "(modified)"@
    }
}

pub open spec fn change_lines(cs: Seq<FileChange>) -> Seq<Seq<char>> {
    cs.map_values(|c: FileChange| change_line(c))
}

/// The testing checklist and the credit line that close every PR
/// description, up to the version number.
pub const PR_FOOTER: &'static str = "\n\n## Testing\n\n- [ ] Existing tests pass\n- [ ] Manual review completed\n- [ ] No new warnings/errors introduced\n\n---\n*Generated by [ContribAI](https://github.com/tang-vu/ContribAI) v";

/// The description of a PR opened for `c`.
pub open spec fn pr_body(c: Contribution) -> Seq<char> {
    let f = c.finding;
    "## Summary\n\n"@ + c.title@ + "\n\n## Problem\n\n**Severity**: `"@ + severity_debug(f.severity)
        + "` | **File**: `"@ + f.file_path@ + match f.line_start {
        Some(l) => ":L"@ + decimal(l as nat),
        None => seq![],
    } + "`\n\n"@ + f.description@ + "\n\n## Solution\n\n"@ + match f.suggestion {
        Some(s) => s@,
        None => c.description@,
    } + "\n\n## Changes\n\n"@ + join(change_lines(c.changes@), "\n"@)
        + PR_FOOTER@ + crate::VERSION@ + "*"@
}

/// The PR description: summary, problem, solution, changed files and a
/// testing checklist.
pub fn generate_pr_body(contribution: &Contribution) -> (r: String)
    ensures
        r@ == pr_body(*contribution),
{
    let f = &contribution.finding;
    let mut lines: Vec<Vec<char>> = Vec::new();
    let mut k: usize = 0;
    while k < contribution.changes.len()
        invariant
            k <= contribution.changes@.len(),
            views(lines@) == change_lines(contribution.changes@.take(k as int)),
        decreases contribution.changes.len() - k,
    {
        let c = &contribution.changes[k];
        let mut l = chars_of("- `");
        append_str(&mut l, c.path.as_str());
        append_str(&mut l, "` ");
        if c.is_new_file {
            append_str(&mut l, "(new)");
        } else {
            append_str(&mut l, "(modified)");
        }
        proof {
            assert(views(lines@).len() == lines@.len());
        }
        let ghost l0 = lines@;
        lines.push(l);
        proof {
            assert(lines@.drop_last() == l0);
            assert forall|i: int| 0 <= i <= k implies #[trigger] views(lines@)[i] == change_lines(
                contribution.changes@.take(k as int + 1),
            )[i] by {
                if i < k {
                    assert(views(lines@)[i] == views(l0)[i]);
                }
            }
            assert(views(lines@) =~= change_lines(contribution.changes@.take(k as int + 1)));
        }
        k = k + 1;
    }
    proof {
        assert(contribution.changes@.take(k as int) =~= contribution.changes@);
    }
    let mut out = chars_of("## Summary\n\n");
    append_str(&mut out, contribution.title.as_str());
    append_str(&mut out, "\n\n## Problem\n\n**Severity**: `");
    append_str(&mut out, severity_debug_of(f.severity));
    append_str(&mut out, "` | **File**: `");
    append_str(&mut out, f.file_path.as_str());
    match f.line_start {
        Some(l) => {
            append_str(&mut out, ":L");
            append_chars(&mut out, &crate::text::decimal_usize(l));
        },
        None => {},
    }
    append_str(&mut out, "`\n\n");
    append_str(&mut out, f.description.as_str());
    append_str(&mut out, "\n\n## Solution\n\n");
    match &f.suggestion {
        Some(s) => append_str(&mut out, s.as_str()),
        None => append_str(&mut out, contribution.description.as_str()),
    }
    append_str(&mut out, "\n\n## Changes\n\n");
    append_chars(&mut out, &crate::text::join_chars(&lines, &chars_of("\n")));
    append_str(&mut out, PR_FOOTER);
    append_str(&mut out, crate::VERSION);
    append_str(&mut out, "*");
    string_from_chars(&out)
}

/// Pull-request state from its merged flag, its state and whether reviews
/// were requested.
pub fn pr_status_from(merged: bool, state: &str, has_requested_reviewers: bool) -> (r: PrStatus)
    ensures
        r == if merged {
            PrStatus::Merged
        } else if state@ == "closed"@ {
            PrStatus::Closed
        } else if has_requested_reviewers {
            PrStatus::ReviewRequested
        } else {
            PrStatus::Open
        },
{
    if merged {
        PrStatus::Merged
    } else if chars_eq_str(chars_of(state).as_slice(), "closed") {
        PrStatus::Closed
    } else if has_requested_reviewers {
        PrStatus::ReviewRequested
    } else {
        PrStatus::Open
    }
}

} // verus!
