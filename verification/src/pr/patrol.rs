//! PR patrol rules: which review comments need an answer, how a model's
//! classification of them is read back, what a fixed file looks like once
//! its code fence is stripped, and how CI polling decides when it is done.
use vstd::prelude::*;

use crate::common::models::{FeedbackAction, FeedbackItem};
use crate::text::{
    chars_eq_str, chars_of, contains, contains_str, ends_with, ends_with_str, join, join_chars,
    lines, lines_of, lowercase, lowercase_chars, slice_to_vec, starts_with, starts_with_str,
    string_from_chars, trim, trimmed, views,
};

verus! {

// ── Which comments to answer ─────────────────────────────────────────────────

/// Logins of review bots whose comments are ignored.
pub open spec fn review_bot_logins() -> Seq<Seq<char>> {
    seq![
        "coderabbitai"@,
        "copilot"@,
        "github-actions"@,
        "dependabot"@,
        "renovate"@,
        "sweep-ai"@,
        "sourcery-ai"@,
        "codeclimate"@,
        "sonarcloud"@,
        "codecov"@,
        "deepsource-autofix"@,
    ]
}

/// Markers of comments that this tool posted itself.
pub open spec fn our_reply_markers() -> Seq<Seq<char>> {
    seq![
        "I have read the CLA Document"@,
        "contribai"@,
        "auto-fix"@,
        "✅ Fixed"@,
        "📝 Addressed"@,
    ]
}

pub open spec fn str_views(v: Seq<&str>) -> Seq<Seq<char>> {
    v.map_values(|s: &str| s@)
}

/// The review-bot logins, in order.
pub fn review_bot_login_list() -> (r: Vec<&'static str>)
    ensures
        str_views(r@) == review_bot_logins(),
{
    let r = vec![
        "coderabbitai",
        "copilot",
        "github-actions",
        "dependabot",
        "renovate",
        "sweep-ai",
        "sourcery-ai",
        "codeclimate",
        "sonarcloud",
        "codecov",
        "deepsource-autofix",
    ];
    proof {
        assert(str_views(r@) =~= review_bot_logins());
    }
    r
}

/// The markers of our own replies, in order.
pub fn our_reply_marker_list() -> (r: Vec<&'static str>)
    ensures
        str_views(r@) == our_reply_markers(),
{
    let r = vec!["I have read the CLA Document", "contribai", "auto-fix", "✅ Fixed", "📝 Addressed"];
    proof {
        assert(str_views(r@) =~= our_reply_markers());
    }
    r
}

/// `login` (case-insensitively) belongs to a review bot.
pub fn is_review_bot(login: &str) -> (b: bool)
    ensures
        b == review_bot_logins().contains(lowercase(login@)),
{
    let l = lowercase_chars(login);
    let list = review_bot_login_list();
    let mut k: usize = 0;
    while k < list.len()
        invariant
            k <= list@.len(),
            str_views(list@) == review_bot_logins(),
            l@ == lowercase(login@),
            forall|i: int| 0 <= i < k ==> review_bot_logins()[i] != l@,
        decreases list.len() - k,
    {
        if chars_eq_str(&l, list[k]) {
            proof {
                assert(review_bot_logins()[k as int] == l@);
            }
            return true;
        }
        k = k + 1;
    }
    false
}

/// `body` carries one of the markers of our own replies.
pub fn is_our_reply(body: &str) -> (b: bool)
    ensures
        b == exists|i: int| 0 <= i < our_reply_markers().len() && contains(body@, #[trigger] our_reply_markers()[i]),
{
    let text = chars_of(body);
    let list = our_reply_marker_list();
    let mut k: usize = 0;
    while k < list.len()
        invariant
            k <= list@.len(),
            str_views(list@) == our_reply_markers(),
            text@ == body@,
            forall|i: int| 0 <= i < k ==> !contains(body@, #[trigger] our_reply_markers()[i]),
        decreases list.len() - k,
    {
        if contains_str(&text, list[k]) {
            proof {
                assert(our_reply_markers()[k as int] == list@[k as int]@);
            }
            return true;
        }
        k = k + 1;
    }
    false
}

/// A comment is passed over when we wrote it, a bot wrote it (by account
/// type, by known review-bot login, or by a `[bot]` login), or it is one of
/// our replies.
pub open spec fn passes_over(login: Seq<char>, body: Seq<char>, bot_account: bool, username: Seq<char>) -> bool {
    ||| login == username
    ||| bot_account
    ||| review_bot_logins().contains(lowercase(login))
    ||| ends_with(login, "[bot]"@)
    ||| exists|i: int| 0 <= i < our_reply_markers().len() && contains(body, #[trigger] our_reply_markers()[i])
}

/// Whether a review comment by `login` (an account of type `Bot` when
/// `bot_account`) is passed over when collecting feedback for `username`.
pub fn skip_comment(login: &str, body: &str, bot_account: bool, username: &str) -> (b: bool)
    ensures
        b == passes_over(login@, body@, bot_account, username@),
{
    let l = chars_of(login);
    if chars_eq_str(&l, username) || bot_account {
        return true;
    }
    if is_review_bot(login) {
        return true;
    }
    if ends_with_str(&l, "[bot]") {
        return true;
    }
    is_our_reply(body)
}

// ── Reading a classification ─────────────────────────────────────────────────

/// The action a (lowercased) classification label stands for.
pub open spec fn action_for_label(label: Seq<char>) -> FeedbackAction {
    if label == "code_change"@ {
        FeedbackAction::CodeChange
    } else if label == "question"@ {
        FeedbackAction::Question
    } else if label == "style_fix"@ {
        FeedbackAction::StyleFix
    } else if label == "approve"@ {
        FeedbackAction::Approve
    } else if label == "reject"@ {
        FeedbackAction::Reject
    } else {
        FeedbackAction::AlreadyHandled
    }
}

/// The label a classifier writes for each action; `AlreadyHandled` has none.
pub open spec fn label_of_action(a: FeedbackAction) -> Option<Seq<char>> {
    match a {
        FeedbackAction::CodeChange => Some("code_change"@),
        FeedbackAction::Question => Some("question"@),
        FeedbackAction::StyleFix => Some("style_fix"@),
        FeedbackAction::Approve => Some("approve"@),
        FeedbackAction::Reject => Some("reject"@),
        FeedbackAction::AlreadyHandled => None,
    }
}

/// Reading labels is the inverse of writing them: each of the five labels
/// is read as its own action, and a label is read as `AlreadyHandled` only
/// when it is none of the five.
pub proof fn lemma_labels_read_back(a: FeedbackAction, label: Seq<char>)
    ensures
        label_of_action(a) matches Some(l) ==> action_for_label(l) == a,
        action_for_label(label) != FeedbackAction::AlreadyHandled ==> label_of_action(
            action_for_label(label),
        ) == Some(label),
        action_for_label(label) == FeedbackAction::AlreadyHandled ==> label_of_action(a) != Some(
            label,
        ),
{
    reveal_strlit("code_change");
    reveal_strlit("question");
    reveal_strlit("style_fix");
    reveal_strlit("approve");
    reveal_strlit("reject");
    assert("code_change"@ != "question"@ && "code_change"@ != "style_fix"@ && "code_change"@ != "approve"@
        && "code_change"@ != "reject"@) by {
        assert("code_change"@.len() != "question"@.len());
        assert("code_change"@[0] != "style_fix"@[0]);
        assert("code_change"@.len() != "approve"@.len());
        assert("code_change"@.len() != "reject"@.len());
    }
    assert("question"@ != "style_fix"@ && "question"@ != "approve"@ && "question"@ != "reject"@) by {
        assert("question"@.len() != "style_fix"@.len());
        assert("question"@.len() != "approve"@.len());
        assert("question"@.len() != "reject"@.len());
    }
    assert("style_fix"@ != "approve"@ && "style_fix"@ != "reject"@) by {
        assert("style_fix"@.len() != "approve"@.len());
        assert("style_fix"@.len() != "reject"@.len());
    }
    assert("approve"@ != "reject"@) by {
        assert("approve"@.len() != "reject"@.len());
    }
}

fn action_for_label_exec(label: &[char]) -> (r: FeedbackAction)
    ensures
        r == action_for_label(label@),
{
    if chars_eq_str(label, "code_change") {
        FeedbackAction::CodeChange
    } else if chars_eq_str(label, "question") {
        FeedbackAction::Question
    } else if chars_eq_str(label, "style_fix") {
        FeedbackAction::StyleFix
    } else if chars_eq_str(label, "approve") {
        FeedbackAction::Approve
    } else if chars_eq_str(label, "reject") {
        FeedbackAction::Reject
    } else {
        FeedbackAction::AlreadyHandled
    }
}

/// What `serde_json::from_str` makes of a classification array: `None` when
/// it is not a JSON array, else each element's `comment_number` (as an
/// unsigned integer) and `action` (as a string), where present.
pub uninterp spec fn json_classifications(json: Seq<char>) -> Option<Seq<(Option<u64>, Option<Seq<char>>)>>;

pub open spec fn label_views(v: Seq<(Option<u64>, Option<String>)>) -> Seq<(Option<u64>, Option<Seq<char>>)> {
    v.map_values(
        |p: (Option<u64>, Option<String>)|
            (
                p.0,
                match p.1 {
                    Some(s) => Some(s@),
                    None => None,
                },
            ),
    )
}

/// Parses `json` with `serde_json::from_str` into a `Vec<serde_json::Value>`
/// and reads each element's `comment_number` (`Value::as_u64`) and `action`
/// (`Value::as_str`). The outcome is named `json_classifications`.
#[verifier::external_body]
fn parse_classification_json(json: &str) -> (r: Option<Vec<(Option<u64>, Option<String>)>>)
    ensures
        match r {
            None => json_classifications(json@) is None,
            Some(v) => json_classifications(json@) == Some(label_views(v@)),
        },
{
    let items: Vec<serde_json::Value> = serde_json::from_str(json).ok()?;
    Some(items.iter().map(|c| (c["comment_number"].as_u64(), c["action"].as_str().map(String::from))).collect())
}

/// The classified items: each element naming comment `n` (from one) of
/// `feedback` gives that comment with the element's action; elements naming
/// no comment are dropped.
pub open spec fn classified(items: Seq<(Option<u64>, Option<Seq<char>>)>, feedback: Seq<FeedbackItem>) -> Seq<FeedbackItem>
    decreases items.len(),
{
    if items.len() == 0 {
        seq![]
    } else {
        let rest = classified(items.drop_last(), feedback);
        let idx: int = match items.last().0 {
            Some(n) => n as int,
            None => 0,
        };
        if idx == 0 || idx > feedback.len() {
            rest
        } else {
            let label = match items.last().1 {
                Some(a) => a,
                None => seq![],
            };
            rest.push(FeedbackItem { action: action_for_label(lowercase(label)), ..feedback[idx - 1] })
        }
    }
}

/// An element's label, empty when it has none.
pub open spec fn label_text(o: Option<Seq<char>>) -> Seq<char> {
    match o {
        Some(a) => a,
        None => seq![],
    }
}

/// Classifying does not depend on the case of the labels: two arrays that
/// name the same comments with labels equal but for case classify the
/// feedback alike.
pub proof fn lemma_classification_ignores_case(
    items: Seq<(Option<u64>, Option<Seq<char>>)>,
    other: Seq<(Option<u64>, Option<Seq<char>>)>,
    feedback: Seq<FeedbackItem>,
)
    requires
        items.len() == other.len(),
        forall|i: int|
            0 <= i < items.len() ==> (#[trigger] items[i]).0 == other[i].0 && lowercase(
                label_text(items[i].1),
            ) == lowercase(label_text(other[i].1)),
    ensures
        classified(items, feedback) == classified(other, feedback),
    decreases items.len(),
{
    if items.len() > 0 {
        let a = items.drop_last();
        let b = other.drop_last();
        assert forall|i: int| 0 <= i < a.len() implies (#[trigger] a[i]).0 == b[i].0 && lowercase(
            label_text(a[i].1),
        ) == lowercase(label_text(b[i].1)) by {
            assert(a[i] == items[i] && b[i] == other[i]);
        }
        lemma_classification_ignores_case(a, b, feedback);
        let n = items.len() - 1;
        assert(items[n].0 == other[n].0);
        assert(lowercase(label_text(items[n].1)) == lowercase(label_text(other[n].1)));
    }
}

/// Index of the first `c` in `s`.
pub open spec fn first_index(s: Seq<char>, c: char) -> Option<int>
    decreases s.len(),
{
    if s.len() == 0 {
        None
    } else if s[0] == c {
        Some(0)
    } else {
        match first_index(s.drop_first(), c) {
            Some(i) => Some(i + 1),
            None => None,
        }
    }
}

/// Index of the last `c` in `s`.
pub open spec fn last_index(s: Seq<char>, c: char) -> Option<int>
    decreases s.len(),
{
    if s.len() == 0 {
        None
    } else if s.last() == c {
        Some(s.len() - 1)
    } else {
        last_index(s.drop_last(), c)
    }
}

/// The feedback as the model classified it: the items named by the JSON
/// array between the first `[` and the last `]` of the reply; the feedback
/// unchanged when there is no such array or it does not parse.
pub open spec fn classification_of(response: Seq<char>, feedback: Seq<FeedbackItem>) -> Seq<FeedbackItem> {
    match (first_index(response, '['), last_index(response, ']')) {
        (Some(start), Some(end)) => match json_classifications(response.subrange(start, end + 1)) {
            Some(items) => classified(items, feedback),
            None => feedback,
        },
        _ => feedback,
    }
}

/// The reply does not hold a `]` more than one place before its first `[`
/// (slicing between them would be out of order).
pub open spec fn brackets_in_order(response: Seq<char>) -> bool {
    match (first_index(response, '['), last_index(response, ']')) {
        (Some(start), Some(end)) => start <= end + 1,
        _ => true,
    }
}

fn first_index_exec(s: &[char], c: char) -> (r: Option<usize>)
    ensures
        match r {
            Some(i) => i < s@.len() && first_index(s@, c) == Some(i as int),
            None => first_index(s@, c) is None,
        },
{
    let mut k: usize = 0;
    proof {
        assert(s@.skip(0) =~= s@);
    }
    while k < s.len()
        invariant
            k <= s@.len(),
            forall|i: int| 0 <= i < k ==> s@[i] != c,
            first_index(s@, c) == match first_index(s@.skip(k as int), c) {
                Some(i) => Some(i + k),
                None => None::<int>,
            },
        decreases s.len() - k,
    {
        proof {
            crate::text::lemma_skip_first_of(s@, k as int);
        }
        if s[k] == c {
            return Some(k);
        }
        k = k + 1;
    }
    proof {
        assert(s@.skip(k as int) =~= seq![]);
    }
    None
}

fn last_index_exec(s: &[char], c: char) -> (r: Option<usize>)
    ensures
        match r {
            Some(i) => i < s@.len() && last_index(s@, c) == Some(i as int),
            None => last_index(s@, c) is None,
        },
{
    let mut k = s.len();
    proof {
        assert(s@.take(k as int) =~= s@);
    }
    while k > 0
        invariant
            k <= s@.len(),
            last_index(s@, c) == last_index(s@.take(k as int), c),
        decreases k,
    {
        proof {
            assert(s@.take(k as int).drop_last() =~= s@.take(k - 1));
        }
        if s[k - 1] == c {
            return Some(k - 1);
        }
        k = k - 1;
    }
    None
}

fn copy_feedback(feedback: &[FeedbackItem]) -> (r: Vec<FeedbackItem>)
    ensures
        r@ == feedback@,
{
    let mut out: Vec<FeedbackItem> = Vec::new();
    let mut k: usize = 0;
    while k < feedback.len()
        invariant
            k <= feedback@.len(),
            out@ == feedback@.take(k as int),
        decreases feedback.len() - k,
    {
        out.push(feedback[k].clone());
        k = k + 1;
        proof {
            assert(out@ =~= feedback@.take(k as int));
        }
    }
    proof {
        assert(feedback@.take(k as int) =~= feedback@);
    }
    out
}

/// Read the model's classification of `feedback` from its reply.
pub fn parse_classifications(response: &str, feedback: &[FeedbackItem]) -> (r: Vec<FeedbackItem>)
    requires
        brackets_in_order(response@),
    ensures
        r@ == classification_of(response@, feedback@),
{
    let text = chars_of(response);
    let start = match first_index_exec(&text, '[') {
        Some(i) => i,
        None => return copy_feedback(feedback),
    };
    let end = match last_index_exec(&text, ']') {
        Some(i) => i,
        None => return copy_feedback(feedback),
    };
    let slice = slice_to_vec(&text, start, end + 1);
    let json = string_from_chars(&slice);
    let items = match parse_classification_json(json.as_str()) {
        Some(v) => v,
        None => return copy_feedback(feedback),
    };
    let ghost iv = label_views(items@);
    let mut out: Vec<FeedbackItem> = Vec::new();
    let mut k: usize = 0;
    proof {
        assert(iv.take(0) =~= seq![]);
    }
    while k < items.len()
        invariant
            k <= items@.len(),
            iv == label_views(items@),
            out@ == classified(iv.take(k as int), feedback@),
        decreases items.len() - k,
    {
        proof {
            assert(iv.take(k + 1).drop_last() =~= iv.take(k as int));
            assert(iv.take(k + 1).last() == iv[k as int]);
        }
        let idx: u64 = match items[k].0 {
            Some(n) => n,
            None => 0,
        };
        if idx != 0 && idx <= feedback.len() as u64 {
            proof {
                reveal_strlit("");
                assert(""@ =~= seq![]);
            }
            let label = match &items[k].1 {
                Some(a) => lowercase_chars(a.as_str()),
                None => lowercase_chars(""),
            };
            let mut item = feedback[(idx - 1) as usize].clone();
            item.action = action_for_label_exec(&label);
            out.push(item);
        }
        k = k + 1;
    }
    proof {
        assert(iv.take(k as int) =~= iv);
    }
    out
}

// ── Acting on feedback ───────────────────────────────────────────────────────

/// Actions that call for a fix or a reply.
pub open spec fn is_actionable(a: FeedbackAction) -> bool {
    a == FeedbackAction::CodeChange || a == FeedbackAction::StyleFix || a == FeedbackAction::Question
}

/// What to do with a PR's classified feedback.
#[derive(Debug, Clone, PartialEq, Eq)]
pub enum FeedbackPlan {
    /// The maintainer rejected the PR: nothing more to do.
    Rejected,
    /// Nothing calls for a fix or a reply.
    NothingToDo,
    /// Handle these items (indices into the classified feedback), in order.
    Handle(Vec<usize>),
}

/// Indices of the actionable items, in order.
pub open spec fn actionable_indices(fs: Seq<FeedbackItem>) -> Seq<usize>
    decreases fs.len(),
{
    if fs.len() == 0 {
        seq![]
    } else if is_actionable(fs.last().action) {
        actionable_indices(fs.drop_last()).push((fs.len() - 1) as usize)
    } else {
        actionable_indices(fs.drop_last())
    }
}

/// Plan the handling of classified feedback: a rejection anywhere stops it;
/// else the actionable items, if any.
pub fn plan_feedback(classified: &[FeedbackItem]) -> (r: FeedbackPlan)
    ensures
        match r {
            FeedbackPlan::Rejected => exists|i: int|
                0 <= i < classified@.len() && #[trigger] classified@[i].action == FeedbackAction::Reject,
            FeedbackPlan::NothingToDo => (forall|i: int|
                0 <= i < classified@.len() ==> #[trigger] classified@[i].action != FeedbackAction::Reject)
                && actionable_indices(classified@).len() == 0,
            FeedbackPlan::Handle(v) => (forall|i: int|
                0 <= i < classified@.len() ==> #[trigger] classified@[i].action != FeedbackAction::Reject)
                && v@ == actionable_indices(classified@) && v@.len() > 0,
        },
{
    let mut picked: Vec<usize> = Vec::new();
    let mut k: usize = 0;
    while k < classified.len()
        invariant
            k <= classified@.len(),
            picked@ == actionable_indices(classified@.take(k as int)),
            forall|i: int| 0 <= i < k ==> #[trigger] classified@[i].action != FeedbackAction::Reject,
        decreases classified.len() - k,
    {
        proof {
            assert(classified@.take(k + 1).drop_last() =~= classified@.take(k as int));
            assert(classified@.take(k + 1).last() == classified@[k as int]);
        }
        let a = classified[k].action;
        if a == FeedbackAction::Reject {
            return FeedbackPlan::Rejected;
        }
        if a == FeedbackAction::CodeChange || a == FeedbackAction::StyleFix || a == FeedbackAction::Question {
            picked.push(k);
        }
        k = k + 1;
    }
    proof {
        assert(classified@.take(k as int) =~= classified@);
    }
    if picked.len() == 0 {
        FeedbackPlan::NothingToDo
    } else {
        FeedbackPlan::Handle(picked)
    }
}

// ── Fixed file contents ──────────────────────────────────────────────────────

/// A model's reply with a surrounding code fence removed: the trimmed reply,
/// or, when it opens with a fence, its lines after the first, without a
/// closing fence line.
pub open spec fn fixed_content(response: Seq<char>) -> Seq<char> {
    let text = trim(response);
    if starts_with(text, "```"@) {
        let ls = lines(text);
        let end = if ls.len() > 0 && trim(ls.last()) == "```"@ {
            ls.len() - 1
        } else {
            ls.len() as int
        };
        join(ls.subrange(1, end), "\n"@)
    } else {
        text
    }
}

/// The reply is a lone opening fence: one line that is just the fence
/// (nothing to take between the fences).
pub open spec fn lone_fence(response: Seq<char>) -> bool {
    let text = trim(response);
    &&& starts_with(text, "```"@)
    &&& lines(text).len() == 1
    &&& trim(lines(text)[0]) == "```"@
}

/// Extract fixed file content from a model's reply.
pub fn extract_fixed_content(response: &str) -> (r: String)
    requires
        !lone_fence(response@),
    ensures
        r@ == fixed_content(response@),
{
    let raw = chars_of(response);
    let text = trimmed(&raw);
    if !starts_with_str(&text, "```") {
        return string_from_chars(&text);
    }
    let ls = lines_of(&text);
    let ghost lv = views(ls@);
    proof {
        reveal_strlit("```");
        crate::text::lemma_lines_nonempty(text@);
    }
    let n = ls.len();
    let end = if n > 0 && chars_eq_str(trimmed(ls[n - 1].as_slice()).as_slice(), "```") {
        n - 1
    } else {
        n
    };
    let mut part: Vec<Vec<char>> = Vec::new();
    let mut k: usize = 1;
    while k < end
        invariant
            1 <= k <= end || end < 1,
            end <= n == ls@.len(),
            lv == views(ls@),
            k <= end ==> views(part@) == lv.subrange(1, k as int),
        decreases end - k,
    {
        proof {
            assert(views(part@.push(ls@[k as int])) =~= views(part@).push(ls@[k as int]@));
            assert(lv.subrange(1, k + 1) =~= lv.subrange(1, k as int).push(ls@[k as int]@));
        }
        part.push(crate::text::copy_chars(ls[k].as_slice()));
        k = k + 1;
    }
    proof {
        assert(views(part@) =~= lv.subrange(1, end as int));
    }
    let sep = chars_of("\n");
    let joined = join_chars(&part, &sep);
    string_from_chars(&joined)
}

// ── CI monitoring ────────────────────────────────────────────────────────────

/// Outcome of a CI monitoring session.
#[derive(Debug, Clone, PartialEq)]
pub enum CiOutcome {
    /// All checks passed.
    Passed,
    /// One or more checks failed.
    Failed(Vec<String>),
    /// Monitoring timed out before CI completed.
    Timeout,
    /// No CI checks found (repo doesn't use CI).
    NoCi,
}

/// The PR status recorded for a CI outcome.
pub open spec fn ci_status_name(o: CiOutcome) -> Seq<char> {
    match o {
        CiOutcome::Passed => "ci_passed"@,
        CiOutcome::Failed(_) => "ci_failed"@,
        CiOutcome::Timeout => "ci_timeout"@,
        CiOutcome::NoCi => "open"@,
    }
}

impl CiOutcome {
    /// The PR status recorded for this outcome.
    pub fn status(&self) -> (r: &'static str)
        ensures
            r@ == ci_status_name(*self),
    {
        match self {
            CiOutcome::Passed => "ci_passed",
            CiOutcome::Failed(_) => "ci_failed",
            CiOutcome::Timeout => "ci_timeout",
            CiOutcome::NoCi => "open",
        }
    }
}

/// A snapshot of a commit's check runs.
#[derive(Debug, Clone)]
pub struct CiSnapshot {
    pub total: usize,
    pub passed: Vec<String>,
    pub failed: Vec<String>,
    pub in_progress: Vec<String>,
}

/// The next move of the CI monitor.
#[derive(Debug, Clone, PartialEq)]
pub enum CiStep {
    /// Stop with this outcome.
    Finish(CiOutcome),
    /// Sleep one poll interval and look again.
    Wait,
}

pub open spec fn string_views(v: Seq<String>) -> Seq<Seq<char>> {
    v.map_values(|s: String| s@)
}

/// One round of CI monitoring: no checks ends it; running checks, or a
/// failed status query, wait (or time out at the deadline); failed checks
/// end it as failed; else it passed.
pub fn ci_monitor_step(check: Option<CiSnapshot>, deadline_reached: bool) -> (r: CiStep)
    ensures
        match check {
            Some(ci) => if ci.total == 0 {
                r == CiStep::Finish(CiOutcome::NoCi)
            } else if ci.in_progress@.len() > 0 {
                r == if deadline_reached {
                    CiStep::Finish(CiOutcome::Timeout)
                } else {
                    CiStep::Wait
                }
            } else if ci.failed@.len() > 0 {
                r matches CiStep::Finish(CiOutcome::Failed(names)) && names@ == ci.failed@
            } else {
                r == CiStep::Finish(CiOutcome::Passed)
            },
            None => r == if deadline_reached {
                CiStep::Finish(CiOutcome::Timeout)
            } else {
                CiStep::Wait
            },
        },
{
    match check {
        Some(ci) => {
            if ci.total == 0 {
                return CiStep::Finish(CiOutcome::NoCi);
            }
            if ci.in_progress.len() == 0 {
                if ci.failed.len() > 0 {
                    return CiStep::Finish(CiOutcome::Failed(ci.failed));
                }
                return CiStep::Finish(CiOutcome::Passed);
            }
        },
        None => {},
    }
    if deadline_reached {
        CiStep::Finish(CiOutcome::Timeout)
    } else {
        CiStep::Wait
    }
}


// ── Which records to patrol ──────────────────────────────────────────────────

/// Recorded statuses of PRs that are still worth patrolling.
pub open spec fn patrollable(status: Seq<char>) -> bool {
    status == "open"@ || status == "pending"@ || status == "review_requested"@
}

pub fn should_patrol(status: &str) -> (r: bool)
    ensures
        r == patrollable(status@),
{
    let s = chars_of(status);
    chars_eq_str(&s, "open") || chars_eq_str(&s, "pending") || chars_eq_str(&s, "review_requested")
}

/// How a failed PR check is recorded: a PR GitHub no longer has (the error
/// mentions `Not found` or `404`) as `NOT_FOUND:<repo>:<number>`, anything
/// else as a readable error. The flag tells which.
pub open spec fn patrol_error(err: Seq<char>, repo: Seq<char>, pr_number: i64) -> (bool, Seq<char>) {
    if contains(err, "Not found"@) || contains(err, "404"@) {
        (true, "NOT_FOUND:"@ + repo + ":"@ + crate::text::signed_decimal(pr_number as int))
    } else {
        (false, "Error patrolling PR #"@ + crate::text::signed_decimal(pr_number as int) + ": "@ + err)
    }
}

pub fn patrol_error_entry(err: &str, repo: &str, pr_number: i64) -> (r: (bool, String))
    ensures
        (r.0, r.1@) == patrol_error(err@, repo@, pr_number),
{
    let e = chars_of(err);
    if contains_str(&e, "Not found") || contains_str(&e, "404") {
        let mut out = chars_of("NOT_FOUND:");
        crate::text::append_str(&mut out, repo);
        crate::text::append_str(&mut out, ":");
        crate::text::append_chars(&mut out, &crate::text::decimal_i64(pr_number));
        (true, string_from_chars(&out))
    } else {
        let mut out = chars_of("Error patrolling PR #");
        crate::text::append_chars(&mut out, &crate::text::decimal_i64(pr_number));
        crate::text::append_str(&mut out, ": ");
        crate::text::append_str(&mut out, err);
        (false, string_from_chars(&out))
    }
}


// ── Answering feedback ───────────────────────────────────────────────────────

/// The first `n` characters of `s` (all of it when shorter).
pub open spec fn first_chars(s: Seq<char>, n: nat) -> Seq<char> {
    if s.len() <= n {
        s
    } else {
        s.take(n as int)
    }
}

fn first_chars_of(s: &str, n: usize) -> (r: Vec<char>)
    ensures
        r@ == first_chars(s@, n as nat),
{
    let c = chars_of(s);
    if c.len() <= n {
        c
    } else {
        let v = slice_to_vec(&c, 0, n);
        proof {
            assert(v@ =~= s@.take(n as int));
        }
        v
    }
}

/// The system prompt for fixing code after a review.
pub const CODE_FIX_SYSTEM: &'static str = "You fix code based on PR review. Return ONLY fixed file content.";

/// The system prompt for answering a maintainer's question.
pub const QUESTION_SYSTEM: &'static str = "You respond to code review questions. Be concise and professional.";

/// The prompt asking for the file with the requested change applied.
pub fn code_fix_prompt(feedback_body: &str, file_content: &str) -> (r: String)
    ensures
        r@ == "A maintainer left this review feedback:\n\n> "@ + feedback_body@ + "\n\nCurrent file content:\n```\n"@
            + file_content@
            + "\n```\n\nApply the MINIMUM change. Return the COMPLETE updated file content."@,
{
    let mut out = chars_of("A maintainer left this review feedback:\n\n> ");
    crate::text::append_str(&mut out, feedback_body);
    crate::text::append_str(&mut out, "\n\nCurrent file content:\n```\n");
    crate::text::append_str(&mut out, file_content);
    crate::text::append_str(
        &mut out,
        "\n```\n\nApply the MINIMUM change. Return the COMPLETE updated file content.",
    );
    string_from_chars(&out)
}

/// A fix is pushed only when it is not empty and differs from the current
/// file, both compared without surrounding whitespace.
pub fn fix_is_worth_pushing(fixed: &str, current: &str) -> (r: bool)
    ensures
        r == (trim(fixed@) != trim(current@) && trim(fixed@).len() > 0),
{
    let f = trimmed(chars_of(fixed).as_slice());
    let c = trimmed(chars_of(current).as_slice());
    !crate::text::chars_eq(&f, &c) && f.len() > 0
}

/// The commit message of a pushed fix: the feedback's first 60 characters.
pub fn fix_commit_message(feedback_body: &str) -> (r: String)
    ensures
        r@ == "fix: address review feedback — "@ + first_chars(feedback_body@, 60),
{
    let mut out = chars_of("fix: address review feedback — ");
    crate::text::append_chars(&mut out, &first_chars_of(feedback_body, 60));
    string_from_chars(&out)
}

/// The prompt asking for a reply to a maintainer's question, with the PR's
/// description cut to 2000 characters.
pub fn question_prompt(pr_title: &str, pr_body: &str, author: &str, question: &str) -> (r: String)
    ensures
        r@ == "A maintainer asked on our PR:\nPR: "@ + pr_title@ + "\nDescription: "@ + first_chars(
            pr_body@,
            2000,
        ) + "\n\nQuestion from @"@ + author@ + ":\n> "@ + question@
            + "\n\nWrite a concise, helpful reply (2-4 sentences)."@,
{
    let mut out = chars_of("A maintainer asked on our PR:\nPR: ");
    crate::text::append_str(&mut out, pr_title);
    crate::text::append_str(&mut out, "\nDescription: ");
    crate::text::append_chars(&mut out, &first_chars_of(pr_body, 2000));
    crate::text::append_str(&mut out, "\n\nQuestion from @");
    crate::text::append_str(&mut out, author);
    crate::text::append_str(&mut out, ":\n> ");
    crate::text::append_str(&mut out, question);
    crate::text::append_str(&mut out, "\n\nWrite a concise, helpful reply (2-4 sentences).");
    string_from_chars(&out)
}

} // verus!
