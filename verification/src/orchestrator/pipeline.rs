//! Pipeline rules: which findings are worth acting on, and when two
//! contribution titles say the same thing.
use vstd::prelude::*;

use crate::common::models::{
    same_finding, Contribution, ContributionType, FileChange, Finding,
};
use crate::text::{decimal, decimal_usize, join, join_chars, string_from_chars};
use crate::text::lemma_push_contains;
use crate::text::{
    byte_len_wide, chars_eq, chars_eq_str, chars_of, lowercase, lowercase_chars, split,
    split_on, utf8_len, views, words, words_of,
};

verus! {

/// Result of a pipeline run.
#[derive(Debug, Clone)]
pub struct PipelineResult {
    pub repos_analyzed: usize,
    pub findings_total: usize,
    pub contributions_generated: usize,
    pub prs_created: usize,
    pub errors: Vec<String>,
}

impl Default for PipelineResult {
    fn default() -> (r: Self)
        ensures
            r.repos_analyzed == 0,
            r.findings_total == 0,
            r.contributions_generated == 0,
            r.prs_created == 0,
            r.errors@.len() == 0,
    {
        PipelineResult {
            repos_analyzed: 0,
            findings_total: 0,
            contributions_generated: 0,
            prs_created: 0,
            errors: Vec::new(),
        }
    }
}

// ── Files never touched ──────────────────────────────────────────────────────

/// Files that are never modified: community and legal meta files.
pub open spec fn protected_meta_files() -> Seq<Seq<char>> {
    seq![
        "CONTRIBUTING.md"@,
        ".github/CONTRIBUTING.md"@,
        "docs/CONTRIBUTING.md"@,
        "CODE_OF_CONDUCT.md"@,
        ".github/CODE_OF_CONDUCT.md"@,
        "LICENSE"@,
        "LICENSE.md"@,
        "LICENSE.txt"@,
        ".github/FUNDING.yml"@,
        ".github/SECURITY.md"@,
        "SECURITY.md"@,
        ".github/CODEOWNERS"@,
        ".all-contributorsrc"@,
    ]
}

/// Extensions (with their dot) of files that are skipped.
pub open spec fn skip_extensions() -> Seq<Seq<char>> {
    seq![
        ".md"@,
        ".txt"@,
        ".rst"@,
        ".yml"@,
        ".yaml"@,
        ".toml"@,
        ".cfg"@,
        ".ini"@,
        ".json"@,
    ]
}

/// Directory names whose files are skipped.
pub open spec fn skip_directories() -> Seq<Seq<char>> {
    seq![
        "examples"@,
        "example"@,
        "samples"@,
        "sample"@,
        "demos"@,
        "demo"@,
        "docs"@,
        "doc"@,
        "test"@,
        "tests"@,
        "testing"@,
        "test_data"@,
        "testdata"@,
        "fixtures"@,
        "benchmarks"@,
        "benchmark"@,
        "__pycache__"@,
        "vendor"@,
        "third_party"@,
        "third-party"@,
        "node_modules"@,
    ]
}

pub open spec fn str_views(v: Seq<&str>) -> Seq<Seq<char>> {
    v.map_values(|s: &str| s@)
}

/// The protected meta files, in order.
pub fn protected_meta_file_list() -> (r: Vec<&'static str>)
    ensures
        str_views(r@) == protected_meta_files(),
{
    let r = vec![
        "CONTRIBUTING.md",
        ".github/CONTRIBUTING.md",
        "docs/CONTRIBUTING.md",
        "CODE_OF_CONDUCT.md",
        ".github/CODE_OF_CONDUCT.md",
        "LICENSE",
        "LICENSE.md",
        "LICENSE.txt",
        ".github/FUNDING.yml",
        ".github/SECURITY.md",
        "SECURITY.md",
        ".github/CODEOWNERS",
        ".all-contributorsrc",
    ];
    proof {
        assert(str_views(r@) =~= protected_meta_files());
    }
    r
}

/// The skipped extensions, in order.
pub fn skip_extension_list() -> (r: Vec<&'static str>)
    ensures
        str_views(r@) == skip_extensions(),
{
    let r = vec![".md", ".txt", ".rst", ".yml", ".yaml", ".toml", ".cfg", ".ini", ".json"];
    proof {
        assert(str_views(r@) =~= skip_extensions());
    }
    r
}

/// The skipped directory names, in order.
pub fn skip_directory_list() -> (r: Vec<&'static str>)
    ensures
        str_views(r@) == skip_directories(),
{
    let r = vec![
        "examples",
        "example",
        "samples",
        "sample",
        "demos",
        "demo",
        "docs",
        "doc",
        "test",
        "tests",
        "testing",
        "test_data",
        "testdata",
        "fixtures",
        "benchmarks",
        "benchmark",
        "__pycache__",
        "vendor",
        "third_party",
        "third-party",
        "node_modules",
    ];
    proof {
        assert(str_views(r@) =~= skip_directories());
    }
    r
}

fn listed(s: &[char], list: &Vec<&'static str>) -> (b: bool)
    ensures
        b == str_views(list@).contains(s@),
{
    let mut k: usize = 0;
    while k < list.len()
        invariant
            k <= list@.len(),
            forall|i: int| 0 <= i < k ==> str_views(list@)[i] != s@,
        decreases list.len() - k,
    {
        if chars_eq_str(s, list[k]) {
            proof {
                assert(str_views(list@)[k as int] == s@);
            }
            return true;
        }
        k = k + 1;
    }
    false
}

/// `path` names a protected meta file.
pub fn is_protected_meta_file(path: &str) -> (b: bool)
    ensures
        b == protected_meta_files().contains(path@),
{
    let p = chars_of(path);
    let list = protected_meta_file_list();
    listed(&p, &list)
}

/// `name` is a directory name whose files are skipped.
pub fn is_skip_directory(name: &str) -> (b: bool)
    ensures
        b == skip_directories().contains(name@),
{
    let p = chars_of(name);
    let list = skip_directory_list();
    listed(&p, &list)
}

// ── Extensions of paths ──────────────────────────────────────────────────────

/// The last meaningful component of a `/`-separated path: empty and `.`
/// components do not count; `None` when there is none or it is `..`.
pub open spec fn last_component(parts: Seq<Seq<char>>) -> Option<Seq<char>>
    decreases parts.len(),
{
    if parts.len() == 0 {
        None
    } else if parts.last().len() == 0 || parts.last() == "."@ {
        last_component(parts.drop_last())
    } else if parts.last() == ".."@ {
        None
    } else {
        Some(parts.last())
    }
}

/// Index of the last `.` in `s`, if any.
pub open spec fn last_dot(s: Seq<char>) -> Option<int>
    decreases s.len(),
{
    if s.len() == 0 {
        None
    } else if s.last() == '.' {
        Some(s.len() - 1)
    } else {
        last_dot(s.drop_last())
    }
}

/// The extension of a file path as `Path::extension` gives it: what follows
/// the last `.` of the file name, unless the name has no `.` or its only
/// `.` leads it.
pub open spec fn path_extension(path: Seq<char>) -> Option<Seq<char>> {
    match last_component(split(path, '/')) {
        None => None,
        Some(name) => match last_dot(name) {
            None => None,
            Some(i) => if i == 0 {
                None
            } else {
                Some(name.skip(i + 1))
            },
        },
    }
}

fn last_dot_exec(s: &[char]) -> (r: Option<usize>)
    ensures
        match r {
            Some(i) => i < s@.len() && last_dot(s@) == Some(i as int),
            None => last_dot(s@) is None,
        },
{
    let mut k = s.len();
    proof {
        assert(s@.take(k as int) =~= s@);
    }
    while k > 0
        invariant
            k <= s@.len(),
            last_dot(s@) == last_dot(s@.take(k as int)),
        decreases k,
    {
        proof {
            assert(s@.take(k as int).drop_last() =~= s@.take(k - 1));
        }
        if s[k - 1] == '.' {
            return Some(k - 1);
        }
        k = k - 1;
    }
    None
}

fn last_component_index(parts: &Vec<Vec<char>>) -> (r: Option<usize>)
    ensures
        match r {
            Some(i) => i < parts@.len() && last_component(views(parts@)) == Some(parts@[i as int]@),
            None => last_component(views(parts@)) is None,
        },
{
    let ghost pv = views(parts@);
    let mut k = parts.len();
    proof {
        assert(pv.take(k as int) =~= pv);
    }
    while k > 0
        invariant
            k <= parts@.len(),
            pv == views(parts@),
            last_component(pv) == last_component(pv.take(k as int)),
        decreases k,
    {
        let ghost t = pv.take(k as int);
        proof {
            assert(t.drop_last() =~= pv.take(k - 1));
            assert(t.last() == parts@[k - 1]@);
        }
        let part = parts[k - 1].as_slice();
        if part.len() == 0 || chars_eq_str(part, ".") {
            k = k - 1;
        } else if chars_eq_str(part, "..") {
            return None;
        } else {
            return Some(k - 1);
        }
    }
    None
}

fn path_extension_exec(path: &str) -> (r: Option<Vec<char>>)
    ensures
        match r {
            Some(v) => path_extension(path@) == Some(v@),
            None => path_extension(path@) is None,
        },
{
    let p = chars_of(path);
    let parts = split_on(&p, '/');
    match last_component_index(&parts) {
        None => None,
        Some(i) => {
            let name = parts[i].as_slice();
            match last_dot_exec(name) {
                None => None,
                Some(d) => if d == 0 {
                    None
                } else {
                    let ext = crate::text::slice_to_vec(name, d + 1, name.len());
                    proof {
                        assert(ext@ =~= name@.skip(d + 1));
                    }
                    Some(ext)
                },
            }
        },
    }
}

// ── Similar titles ───────────────────────────────────────────────────────────

pub open spec fn is_stop_word(w: Seq<char>) -> bool {
    ||| w == "a"@
    ||| w == "an"@
    ||| w == "the"@
    ||| w == "in"@
    ||| w == "on"@
    ||| w == "of"@
    ||| w == "for"@
    ||| w == "to"@
    ||| w == "and"@
    ||| w == "or"@
    ||| w == "is"@
}

/// A word that carries meaning: not a stop word, longer than two bytes.
pub open spec fn is_key_word(w: Seq<char>) -> bool {
    !is_stop_word(w) && utf8_len(w) > 2
}

/// The distinct key words of a lowercased title.
pub open spec fn key_words(title: Seq<char>) -> Set<Seq<char>> {
    Set::new(|w: Seq<char>| words(lowercase(title)).contains(w) && is_key_word(w))
}

/// Two titles are similar when both have key words and more than half of the
/// smaller set of key words is shared.
pub open spec fn similar(a: Seq<char>, b: Seq<char>) -> bool {
    let ka = key_words(a);
    let kb = key_words(b);
    &&& ka.len() > 0
    &&& kb.len() > 0
    &&& 2 * ka.intersect(kb).len() > if ka.len() <= kb.len() {
        ka.len()
    } else {
        kb.len()
    }
}

fn stop_word_exec(w: &[char]) -> (b: bool)
    ensures
        b == is_stop_word(w@),
{
    chars_eq_str(w, "a") || chars_eq_str(w, "an") || chars_eq_str(w, "the") || chars_eq_str(w, "in")
        || chars_eq_str(w, "on") || chars_eq_str(w, "of") || chars_eq_str(w, "for")
        || chars_eq_str(w, "to") || chars_eq_str(w, "and") || chars_eq_str(w, "or")
        || chars_eq_str(w, "is")
}

fn holds_word(list: &Vec<Vec<char>>, w: &[char]) -> (b: bool)
    ensures
        b == views(list@).contains(w@),
{
    let mut k: usize = 0;
    while k < list.len()
        invariant
            k <= list@.len(),
            forall|i: int| 0 <= i < k ==> views(list@)[i] != w@,
        decreases list.len() - k,
    {
        if chars_eq(list[k].as_slice(), w) {
            proof {
                assert(views(list@)[k as int] == w@);
            }
            return true;
        }
        k = k + 1;
    }
    false
}

/// The distinct key words of `title`, each once.
fn distinct_key_words(title: &str) -> (r: Vec<Vec<char>>)
    ensures
        views(r@).no_duplicates(),
        views(r@).to_set() == key_words(title@),
{
    let lc = lowercase_chars(title);
    let ws = words_of(&lc);
    let ghost wv = views(ws@);
    let mut out: Vec<Vec<char>> = Vec::new();
    let mut k: usize = 0;
    while k < ws.len()
        invariant
            k <= ws@.len(),
            wv == views(ws@),
            wv == words(lowercase(title@)),
            views(out@).no_duplicates(),
            forall|w: Seq<char>|
                #[trigger] views(out@).contains(w) <==> (wv.take(k as int).contains(w)
                    && is_key_word(w)),
        decreases ws.len() - k,
    {
        let w = ws[k].as_slice();
        let key = !stop_word_exec(w) && byte_len_wide(w) > 2;
        let ghost before = views(out@);
        proof {
            assert(wv.take(k + 1) =~= wv.take(k as int).push(w@));
        }
        if key && !holds_word(&out, w) {
            out.push(crate::text::copy_chars(w));
            proof {
                assert(views(out@) =~= before.push(w@));
                assert forall|w2: Seq<char>|
                    #![trigger views(out@).contains(w2)]
                    #![trigger wv.take(k + 1).contains(w2)]
                    true implies (views(out@).contains(w2) <==> (before.contains(w2) || w2 == w@))
                        && (wv.take(k + 1).contains(w2) <==> (wv.take(k as int).contains(w2) || w2
                        == w@)) by {
                    lemma_push_contains(before, w@, w2);
                    lemma_push_contains(wv.take(k as int), w@, w2);
                }
                assert forall|i: int, j: int|
                    0 <= i < views(out@).len() && 0 <= j < views(out@).len() && i
                        != j implies views(out@)[i] != views(out@)[j] by {
                    if i == before.len() as int {
                        assert(before.contains(before[j]));
                    } else if j == before.len() as int {
                        assert(before.contains(before[i]));
                    }
                }
                assert forall|w2: Seq<char>| #[trigger]
                    views(out@).contains(w2) <==> (wv.take(k + 1).contains(w2) && is_key_word(
                        w2,
                    )) by {
                    if views(out@).contains(w2) && w2 != w@ {
                        let o1 = views(out@);
                        let i = choose|i: int| 0 <= i < o1.len() && #[trigger] o1[i] == w2;
                        assert(before[i] == w2);
                    }
                    if wv.take(k + 1).contains(w2) && w2 != w@ {
                        let t1 = wv.take(k + 1);
                        let i = choose|i: int| 0 <= i < t1.len() && #[trigger] t1[i] == w2;
                        assert(wv.take(k as int)[i] == w2);
                    }
                    if w2 == w@ {
                        assert(views(out@)[before.len() as int] == w2);
                        assert(wv.take(k + 1)[k as int] == w2);
                    }
                }
            }
        } else {
            proof {
                assert forall|w2: Seq<char>| #[trigger]
                    wv.take(k + 1).contains(w2) <==> (wv.take(k as int).contains(w2) || w2 == w@) by {
                    lemma_push_contains(wv.take(k as int), w@, w2);
                }
                assert forall|w2: Seq<char>| #[trigger]
                    views(out@).contains(w2) <==> (wv.take(k + 1).contains(w2) && is_key_word(
                        w2,
                    )) by {
                    if wv.take(k + 1).contains(w2) && w2 != w@ {
                        let t1 = wv.take(k + 1);
                        let i = choose|i: int| 0 <= i < t1.len() && #[trigger] t1[i] == w2;
                        assert(wv.take(k as int)[i] == w2);
                    }
                    if w2 == w@ {
                        assert(wv.take(k + 1)[k as int] == w2);
                    }
                }
            }
        }
        k = k + 1;
    }
    proof {
        assert(wv.take(k as int) =~= wv);
        assert(views(out@).to_set() =~= key_words(title@));
    }
    out
}

/// Two titles are similar (more than half of the key words shared).
pub fn titles_similar(title_a: &str, title_b: &str) -> (b: bool)
    ensures
        b == similar(title_a@, title_b@),
{
    let da = distinct_key_words(title_a);
    let db = distinct_key_words(title_b);
    let ghost ka = key_words(title_a@);
    let ghost kb = key_words(title_b@);
    proof {
        views(da@).unique_seq_to_set();
        views(db@).unique_seq_to_set();
    }
    if da.len() == 0 || db.len() == 0 {
        return false;
    }
    let mut shared: Vec<Vec<char>> = Vec::new();
    let mut k: usize = 0;
    while k < da.len()
        invariant
            k <= da@.len(),
            views(da@).no_duplicates(),
            views(da@).to_set() == ka,
            views(db@).to_set() == kb,
            views(shared@).no_duplicates(),
            forall|w: Seq<char>|
                #[trigger] views(shared@).contains(w) <==> (views(da@).take(k as int).contains(w)
                    && kb.contains(w)),
        decreases da.len() - k,
    {
        let w = da[k].as_slice();
        let ghost before = views(shared@);
        let ghost dv = views(da@);
        proof {
            assert(dv.take(k + 1) =~= dv.take(k as int).push(w@));
            assert(!dv.take(k as int).contains(w@)) by {
                if dv.take(k as int).contains(w@) {
                    let t0 = dv.take(k as int);
                    let i = choose|i: int| 0 <= i < t0.len() && #[trigger] t0[i] == w@;
                    assert(dv[i] == dv[k as int]);
                }
            }
        }
        if holds_word(&db, w) {
            shared.push(crate::text::copy_chars(w));
            proof {
                assert(views(shared@) =~= before.push(w@));
                assert forall|w2: Seq<char>|
                    #![trigger views(shared@).contains(w2)]
                    #![trigger dv.take(k + 1).contains(w2)]
                    true implies (views(shared@).contains(w2) <==> (before.contains(w2) || w2
                        == w@)) && (dv.take(k + 1).contains(w2) <==> (dv.take(k as int).contains(
                        w2,
                    ) || w2 == w@)) by {
                    lemma_push_contains(before, w@, w2);
                    lemma_push_contains(dv.take(k as int), w@, w2);
                }
                assert forall|w2: Seq<char>| #[trigger]
                    views(shared@).contains(w2) <==> (dv.take(k + 1).contains(w2) && kb.contains(
                        w2,
                    )) by {
                    if views(shared@).contains(w2) && w2 != w@ {
                        let s1 = views(shared@);
                        let i = choose|i: int| 0 <= i < s1.len() && #[trigger] s1[i] == w2;
                        assert(before[i] == w2);
                    }
                    if dv.take(k + 1).contains(w2) && w2 != w@ {
                        let t1 = dv.take(k + 1);
                        let i = choose|i: int| 0 <= i < t1.len() && #[trigger] t1[i] == w2;
                        assert(dv.take(k as int)[i] == w2);
                    }
                    if w2 == w@ {
                        assert(views(shared@)[before.len() as int] == w2);
                        assert(dv.take(k + 1)[k as int] == w2);
                    }
                }
                assert forall|i: int, j: int|
                    0 <= i < views(shared@).len() && 0 <= j < views(shared@).len() && i
                        != j implies views(shared@)[i] != views(shared@)[j] by {
                    if i == before.len() as int {
                        assert(before.contains(before[j]));
                    } else if j == before.len() as int {
                        assert(before.contains(before[i]));
                    }
                }
            }
        } else {
            proof {
                assert forall|w2: Seq<char>| #[trigger]
                    dv.take(k + 1).contains(w2) <==> (dv.take(k as int).contains(w2) || w2 == w@) by {
                    lemma_push_contains(dv.take(k as int), w@, w2);
                }
                assert forall|w2: Seq<char>| #[trigger]
                    views(shared@).contains(w2) <==> (dv.take(k + 1).contains(w2) && kb.contains(
                        w2,
                    )) by {
                    if dv.take(k + 1).contains(w2) && w2 != w@ {
                        let t1 = dv.take(k + 1);
                        let i = choose|i: int| 0 <= i < t1.len() && #[trigger] t1[i] == w2;
                        assert(dv.take(k as int)[i] == w2);
                    }
                }
            }
        }
        k = k + 1;
    }
    proof {
        assert(views(da@).take(k as int) =~= views(da@));
        assert(views(shared@).to_set() =~= ka.intersect(kb));
        views(shared@).unique_seq_to_set();
    }
    let smaller = if da.len() <= db.len() {
        da.len()
    } else {
        db.len()
    };
    (shared.len() as u128) * 2 > smaller as u128
}

/// Title similarity does not depend on the order of the two titles.
pub proof fn lemma_similar_symmetric(a: Seq<char>, b: Seq<char>)
    ensures
        similar(a, b) == similar(b, a),
{
    assert(key_words(a).intersect(key_words(b)) =~= key_words(b).intersect(key_words(a)));
}

// ── Filtering findings ───────────────────────────────────────────────────────

/// A finding is kept unless it touches a protected file, a file with a
/// skipped extension, a file under a skipped directory, or its lowercased
/// title is similar to one of `past_titles`.
pub open spec fn keeps_finding(path: Seq<char>, title: Seq<char>, past_titles: Seq<Seq<char>>) -> bool {
    &&& !protected_meta_files().contains(path)
    &&& !(path_extension(path) matches Some(ext) && skip_extensions().contains(
        seq!['.'] + lowercase(ext),
    ))
    &&& !(exists|i: int| 0 <= i < split(path, '/').len() && skip_directories().contains(
        #[trigger] split(path, '/')[i],
    ))
    &&& !(exists|i: int| 0 <= i < past_titles.len() && similar(lowercase(title), #[trigger] past_titles[i]))
}

pub open spec fn string_views(v: Seq<String>) -> Seq<Seq<char>> {
    v.map_values(|s: String| s@)
}

/// Whether a finding at `file_path` titled `title` is worth acting on.
pub fn keep_finding(file_path: &str, title: &str, past_titles: &[String]) -> (b: bool)
    ensures
        b == keeps_finding(file_path@, title@, string_views(past_titles@)),
{
    if is_protected_meta_file(file_path) {
        return false;
    }
    match path_extension_exec(file_path) {
        Some(ext) => {
            let e = string_from(&ext);
            let mut dotted = chars_of(".");
            proof {
                reveal_strlit(".");
            }
            let low = lowercase_chars(e.as_str());
            crate::text::append_chars(&mut dotted, &low);
            proof {
                assert("."@ =~= seq!['.']);
                assert(dotted@ =~= seq!['.'] + lowercase(ext@));
            }
            let list = skip_extension_list();
            if listed(&dotted, &list) {
                return false;
            }
        },
        None => {},
    }
    let p = chars_of(file_path);
    let parts = split_on(&p, '/');
    let dirs = skip_directory_list();
    let mut k: usize = 0;
    while k < parts.len()
        invariant
            k <= parts@.len(),
            views(parts@) == split(file_path@, '/'),
            str_views(dirs@) == skip_directories(),
            forall|i: int| 0 <= i < k ==> !skip_directories().contains(#[trigger] split(file_path@, '/')[i]),
        decreases parts.len() - k,
    {
        if listed(parts[k].as_slice(), &dirs) {
            proof {
                assert(split(file_path@, '/')[k as int] == parts@[k as int]@);
            }
            return false;
        }
        k = k + 1;
    }
    let title_lower = crate::text::to_lowercase(title);
    let mut j: usize = 0;
    while j < past_titles.len()
        invariant
            j <= past_titles@.len(),
            title_lower@ == lowercase(title@),
            forall|i: int| 0 <= i < j ==> !similar(lowercase(title@), #[trigger] string_views(past_titles@)[i]),
        decreases past_titles.len() - j,
    {
        if titles_similar(title_lower.as_str(), past_titles[j].as_str()) {
            proof {
                assert(string_views(past_titles@)[j as int] == past_titles@[j as int]@);
            }
            return false;
        }
        j = j + 1;
    }
    true
}

fn string_from(v: &[char]) -> (s: String)
    ensures
        s@ == v@,
{
    crate::text::string_from_chars(v)
}

/// The findings kept, in order.
pub open spec fn kept_findings(fs: Seq<Finding>, past_titles: Seq<Seq<char>>) -> Seq<Finding>
    decreases fs.len(),
{
    if fs.len() == 0 {
        seq![]
    } else if keeps_finding(fs[0].file_path@, fs[0].title@, past_titles) {
        seq![fs[0]] + kept_findings(fs.drop_first(), past_titles)
    } else {
        kept_findings(fs.drop_first(), past_titles)
    }
}

/// A finding whose lowercased title is similar to any past PR title, at
/// whatever position among them, is dropped.
pub proof fn lemma_similar_past_title_drops(
    path: Seq<char>,
    title: Seq<char>,
    past_titles: Seq<Seq<char>>,
    i: int,
)
    requires
        0 <= i < past_titles.len(),
        similar(lowercase(title), past_titles[i]),
    ensures
        !keeps_finding(path, title, past_titles),
{
}

/// Past titles are compared as a collection: keeping a finding against two
/// lists of past titles joined is keeping it against each list, so neither
/// their order nor how they are split matters.
pub proof fn lemma_past_titles_joined(
    path: Seq<char>,
    title: Seq<char>,
    past: Seq<Seq<char>>,
    more: Seq<Seq<char>>,
)
    ensures
        keeps_finding(path, title, past + more) == (keeps_finding(path, title, past)
            && keeps_finding(path, title, more)),
        keeps_finding(path, title, past + more) == keeps_finding(path, title, more + past),
{
    let t = lowercase(title);
    let hit = |s: Seq<Seq<char>>| exists|i: int| 0 <= i < s.len() && similar(t, #[trigger] s[i]);
    assert forall|a: Seq<Seq<char>>, b: Seq<Seq<char>>|
        hit(a + b) == (hit(a) || hit(b)) by {
        let ab = a + b;
        if hit(ab) {
            let i = choose|i: int| 0 <= i < ab.len() && similar(t, #[trigger] ab[i]);
            if i < a.len() {
                assert(ab[i] == a[i]);
            } else {
                assert(ab[i] == b[i - a.len()]);
            }
        }
        if hit(a) {
            let i = choose|i: int| 0 <= i < a.len() && similar(t, #[trigger] a[i]);
            assert(ab[i] == a[i]);
        }
        if hit(b) {
            let i = choose|i: int| 0 <= i < b.len() && similar(t, #[trigger] b[i]);
            assert(ab[i + a.len()] == b[i]);
        }
    }
    assert(hit(past + more) == (hit(past) || hit(more)));
    assert(hit(more + past) == (hit(more) || hit(past)));
}

/// Filtering only drops findings: every finding it keeps comes from the
/// input, is on no protected file, skipped extension or skipped directory,
/// and its title is similar to none of the past titles.
pub proof fn lemma_kept_findings_guarded(fs: Seq<Finding>, past_titles: Seq<Seq<char>>)
    ensures
        kept_findings(fs, past_titles).len() <= fs.len(),
        forall|k: int|
            0 <= k < kept_findings(fs, past_titles).len() ==> fs.contains(
                #[trigger] kept_findings(fs, past_titles)[k],
            ) && keeps_finding(
                kept_findings(fs, past_titles)[k].file_path@,
                kept_findings(fs, past_titles)[k].title@,
                past_titles,
            ),
    decreases fs.len(),
{
    if fs.len() > 0 {
        let rest = fs.drop_first();
        lemma_kept_findings_guarded(rest, past_titles);
        let kr = kept_findings(rest, past_titles);
        let k = kept_findings(fs, past_titles);
        assert forall|i: int| 0 <= i < k.len() implies fs.contains(#[trigger] k[i]) && keeps_finding(
            k[i].file_path@,
            k[i].title@,
            past_titles,
        ) by {
            if keeps_finding(fs[0].file_path@, fs[0].title@, past_titles) {
                assert(k == seq![fs[0]] + kr);
                if i == 0 {
                    assert(k[0] == fs[0]);
                } else {
                    assert(k[i] == kr[i - 1]);
                    assert(rest.contains(kr[i - 1]));
                    let j = choose|j: int| 0 <= j < rest.len() && rest[j] == kr[i - 1];
                    assert(fs[j + 1] == rest[j]);
                }
            } else {
                assert(k == kr);
                assert(rest.contains(kr[i]));
                let j = choose|j: int| 0 <= j < rest.len() && rest[j] == kr[i];
                assert(fs[j + 1] == rest[j]);
            }
        }
    }
}

/// Drop findings on protected files, skipped extensions and directories, and
/// those similar to a past contribution's title.
pub fn filter_findings(findings: Vec<Finding>, past_titles: &[String]) -> (r: Vec<Finding>)
    ensures
        r@ == kept_findings(findings@, string_views(past_titles@)),
{
    let ghost all = findings@;
    let mut rest = findings;
    let mut kept: Vec<Finding> = Vec::new();
    while rest.len() > 0
        invariant
            kept@ + kept_findings(rest@, string_views(past_titles@)) == kept_findings(
                all,
                string_views(past_titles@),
            ),
        decreases rest@.len(),
    {
        let ghost r0 = rest@;
        let f = rest.remove(0);
        proof {
            assert(rest@ =~= r0.drop_first());
        }
        if keep_finding(f.file_path.as_str(), f.title.as_str(), past_titles) {
            proof {
                assert(kept@.push(f) + kept_findings(rest@, string_views(past_titles@)) =~= kept@
                    + (seq![f] + kept_findings(rest@, string_views(past_titles@))));
            }
            kept.push(f);
        }
    }
    proof {
        assert(kept@ + seq![] =~= kept@);
    }
    kept
}


// ── Merging contributions ────────────────────────────────────────────────────

/// The paths of a list of file changes.
pub open spec fn change_paths(fs: Seq<FileChange>) -> Seq<Seq<char>> {
    fs.map_values(|f: FileChange| f.path@)
}

/// `kept` extended by the items whose path is in neither `kept` (as it grows)
/// nor `other`, in order.
pub open spec fn keep_unseen(kept: Seq<FileChange>, other: Seq<FileChange>, items: Seq<FileChange>) -> Seq<FileChange>
    decreases items.len(),
{
    if items.len() == 0 {
        kept
    } else {
        let k = keep_unseen(kept, other, items.drop_last());
        let f = items.last();
        if change_paths(k).contains(f.path@) || change_paths(other).contains(f.path@) {
            k
        } else {
            k.push(f)
        }
    }
}

/// The changes and the tests of a merge: one walk over every contribution's
/// changes, then its tests, keeping the first file seen under each path.
pub open spec fn merged_files(cs: Seq<Contribution>) -> (Seq<FileChange>, Seq<FileChange>)
    decreases cs.len(),
{
    if cs.len() == 0 {
        (seq![], seq![])
    } else {
        let prev = merged_files(cs.drop_last());
        let changes = keep_unseen(prev.0, prev.1, cs.last().changes@);
        let tests = keep_unseen(prev.1, changes, cs.last().tests_added@);
        (changes, tests)
    }
}

/// The commit prefix of a merged contribution.
pub open spec fn merge_prefix(t: ContributionType) -> Seq<char> {
    match t {
        ContributionType::SecurityFix => "fix(security)"@,
        ContributionType::CodeQuality => "fix"@,
        ContributionType::PerformanceOpt => "perf"@,
        ContributionType::DocsImprove => "docs"@,
        ContributionType::FeatureAdd => "feat"@,
        _ => "refactor"@,
    }
}

/// `- title` for each contribution.
pub open spec fn merge_bullets(cs: Seq<Contribution>) -> Seq<Seq<char>> {
    cs.map_values(|c: Contribution| "- "@ + c.title@)
}

pub open spec fn merged_title(cs: Seq<Contribution>) -> Seq<char> {
    merge_prefix(cs[0].contribution_type) + ": "@ + decimal(cs.len()) + " improvements across "@
        + decimal(merged_files(cs).0.len()) + " files"@
}

pub open spec fn merged_description(cs: Seq<Contribution>) -> Seq<char> {
    "Combined multi-file contribution:\n\n"@ + join(merge_bullets(cs), "\n"@) + "\n\nFiles changed: "@
        + join(change_paths(merged_files(cs).0), ", "@)
}

/// What a merge of two or more contributions is.
pub open spec fn is_merge_of(r: Contribution, cs: Seq<Contribution>) -> bool {
    &&& same_finding(r.finding, cs[0].finding)
    &&& r.contribution_type == cs[0].contribution_type
    &&& r.title@ == merged_title(cs)
    &&& r.description@ == merged_description(cs)
    &&& r.changes@ == merged_files(cs).0
    &&& r.tests_added@ == merged_files(cs).1
    &&& r.commit_message@ == merged_title(cs) + "\n\n"@ + join(merge_bullets(cs), "\n"@)
    &&& r.branch_name == cs[0].branch_name
}

/// No path twice within `a`, within `b`, or across the two.
pub open spec fn paths_distinct(a: Seq<FileChange>, b: Seq<FileChange>) -> bool {
    &&& change_paths(a).no_duplicates()
    &&& change_paths(b).no_duplicates()
    &&& forall|p: Seq<char>| !(change_paths(a).contains(p) && change_paths(b).contains(p))
}

proof fn lemma_keep_unseen(kept: Seq<FileChange>, other: Seq<FileChange>, items: Seq<FileChange>)
    requires
        paths_distinct(kept, other),
    ensures
        paths_distinct(keep_unseen(kept, other, items), other),
        keep_unseen(kept, other, items).len() >= kept.len(),
        keep_unseen(kept, other, items).take(kept.len() as int) == kept,
        forall|i: int|
            0 <= i < items.len() ==> change_paths(keep_unseen(kept, other, items)).contains(
                #[trigger] items[i].path@,
            ) || change_paths(other).contains(items[i].path@),
    decreases items.len(),
{
    if items.len() > 0 {
        let k = keep_unseen(kept, other, items.drop_last());
        lemma_keep_unseen(kept, other, items.drop_last());
        let f = items.last();
        if !(change_paths(k).contains(f.path@) || change_paths(other).contains(f.path@)) {
            let k2 = k.push(f);
            assert(change_paths(k2) =~= change_paths(k).push(f.path@));
            assert(k2.take(kept.len() as int) =~= k.take(kept.len() as int));
            assert forall|q: Seq<char>| change_paths(k2).contains(q) implies change_paths(k).contains(q)
                || q == f.path@ by {
                let j = choose|j: int| 0 <= j < change_paths(k2).len() && change_paths(k2)[j] == q;
                if j < k.len() {
                    assert(change_paths(k)[j] == q);
                }
            }
            assert forall|i: int| 0 <= i < items.len() implies change_paths(k2).contains(
                #[trigger] items[i].path@,
            ) || change_paths(other).contains(items[i].path@) by {
                if i < items.len() - 1 {
                    assert(items.drop_last()[i] == items[i]);
                    if change_paths(k).contains(items[i].path@) {
                        let j = choose|j: int| 0 <= j < change_paths(k).len() && change_paths(k)[j] == items[i].path@;
                        assert(change_paths(k2)[j] == items[i].path@);
                    }
                } else {
                    assert(change_paths(k2)[k.len() as int] == f.path@);
                }
            }
        } else {
            assert forall|i: int| 0 <= i < items.len() implies change_paths(k).contains(
                #[trigger] items[i].path@,
            ) || change_paths(other).contains(items[i].path@) by {
                if i < items.len() - 1 {
                    assert(items.drop_last()[i] == items[i]);
                }
            }
        }
    }
}

/// The paths of `a` stay among those of any list that has `a` as a prefix.
proof fn lemma_prefix_paths(a: Seq<FileChange>, b: Seq<FileChange>, p: Seq<char>)
    requires
        b.len() >= a.len(),
        b.take(a.len() as int) == a,
        change_paths(a).contains(p),
    ensures
        change_paths(b).contains(p),
{
    let j = choose|j: int| 0 <= j < change_paths(a).len() && change_paths(a)[j] == p;
    assert(b[j] == b.take(a.len() as int)[j]);
    assert(change_paths(b)[j] == p);
}

/// Merging keeps every path once: no path occurs twice among the merged
/// changes and tests together, and every changed or added file of every
/// merged contribution has its path among them.
pub proof fn lemma_merge_paths_distinct(cs: Seq<Contribution>)
    ensures
        paths_distinct(merged_files(cs).0, merged_files(cs).1),
        forall|i: int, j: int|
            0 <= i < cs.len() && 0 <= j < cs[i].changes@.len() ==> change_paths(merged_files(cs).0).contains(
                #[trigger] cs[i].changes@[j].path@,
            ) || change_paths(merged_files(cs).1).contains(cs[i].changes@[j].path@),
        forall|i: int, j: int|
            0 <= i < cs.len() && 0 <= j < cs[i].tests_added@.len() ==> change_paths(merged_files(cs).0).contains(
                #[trigger] cs[i].tests_added@[j].path@,
            ) || change_paths(merged_files(cs).1).contains(cs[i].tests_added@[j].path@),
    decreases cs.len(),
{
    if cs.len() == 0 {
        assert(change_paths(seq![]) =~= seq![]);
    } else {
        let prev = merged_files(cs.drop_last());
        lemma_merge_paths_distinct(cs.drop_last());
        let c = cs.last();
        let ch = keep_unseen(prev.0, prev.1, c.changes@);
        lemma_keep_unseen(prev.0, prev.1, c.changes@);
        let ts = keep_unseen(prev.1, ch, c.tests_added@);
        assert(paths_distinct(prev.1, ch));
        lemma_keep_unseen(prev.1, ch, c.tests_added@);
        assert forall|i: int, j: int|
            0 <= i < cs.len() && 0 <= j < cs[i].changes@.len() implies change_paths(ch).contains(
                #[trigger] cs[i].changes@[j].path@,
            ) || change_paths(ts).contains(cs[i].changes@[j].path@) by {
            let p = cs[i].changes@[j].path@;
            if i < cs.len() - 1 {
                assert(cs.drop_last()[i] == cs[i]);
                if change_paths(prev.0).contains(p) {
                    lemma_prefix_paths(prev.0, ch, p);
                } else {
                    lemma_prefix_paths(prev.1, ts, p);
                }
            } else {
                if !change_paths(ch).contains(c.changes@[j].path@) {
                    lemma_prefix_paths(prev.1, ts, p);
                }
            }
        }
        assert forall|i: int, j: int|
            0 <= i < cs.len() && 0 <= j < cs[i].tests_added@.len() implies change_paths(ch).contains(
                #[trigger] cs[i].tests_added@[j].path@,
            ) || change_paths(ts).contains(cs[i].tests_added@[j].path@) by {
            let p = cs[i].tests_added@[j].path@;
            if i < cs.len() - 1 {
                assert(cs.drop_last()[i] == cs[i]);
                if change_paths(prev.0).contains(p) {
                    lemma_prefix_paths(prev.0, ch, p);
                } else {
                    lemma_prefix_paths(prev.1, ts, p);
                }
            } else {
                assert(c.tests_added@[j] == cs[i].tests_added@[j]);
            }
        }
    }
}

fn has_path(list: &Vec<FileChange>, p: &String) -> (b: bool)
    ensures
        b == change_paths(list@).contains(p@),
{
    let pc = chars_of(p.as_str());
    let mut k: usize = 0;
    while k < list.len()
        invariant
            k <= list@.len(),
            pc@ == p@,
            forall|i: int| 0 <= i < k ==> change_paths(list@)[i] != p@,
        decreases list.len() - k,
    {
        if chars_eq(chars_of(list[k].path.as_str()).as_slice(), &pc) {
            proof {
                assert(change_paths(list@)[k as int] == p@);
            }
            return true;
        }
        k = k + 1;
    }
    false
}

/// Appends to `kept` the items whose path is in neither list yet.
fn add_unseen(kept: &mut Vec<FileChange>, other: &Vec<FileChange>, items: &Vec<FileChange>)
    ensures
        final(kept)@ == keep_unseen(old(kept)@, other@, items@),
{
    let ghost start = kept@;
    let mut k: usize = 0;
    while k < items.len()
        invariant
            k <= items@.len(),
            kept@ == keep_unseen(start, other@, items@.take(k as int)),
        decreases items.len() - k,
    {
        proof {
            assert(items@.take(k as int + 1).drop_last() =~= items@.take(k as int));
        }
        let seen = has_path(kept, &items[k].path) || has_path(other, &items[k].path);
        if !seen {
            kept.push(items[k].clone());
        }
        k = k + 1;
    }
    proof {
        assert(items@.take(items@.len() as int) =~= items@);
    }
}

fn merge_prefix_of(t: ContributionType) -> (r: &'static str)
    ensures
        r@ == merge_prefix(t),
{
    match t {
        ContributionType::SecurityFix => "fix(security)",
        ContributionType::CodeQuality => "fix",
        ContributionType::PerformanceOpt => "perf",
        ContributionType::DocsImprove => "docs",
        ContributionType::FeatureAdd => "feat",
        _ => "refactor",
    }
}

/// Merge several contributions into one multi-file contribution.
///
/// A single contribution comes back as it is. Otherwise file changes are
/// deduplicated by path, the first seen winning, and the title, description
/// and commit message list the merged parts.
pub fn merge_contributions_pub(contribs: Vec<Contribution>) -> (r: Contribution)
    requires
        contribs@.len() >= 1,
    ensures
        contribs@.len() == 1 ==> r == contribs@[0],
        contribs@.len() > 1 ==> is_merge_of(r, contribs@),
{
    let mut contribs = contribs;
    if contribs.len() == 1 {
        return contribs.remove(0);
    }
    let ghost cs = contribs@;
    let mut changes: Vec<FileChange> = Vec::new();
    let mut tests: Vec<FileChange> = Vec::new();
    let mut bullets: Vec<Vec<char>> = Vec::new();
    let mut k: usize = 0;
    while k < contribs.len()
        invariant
            contribs@ == cs,
            k <= cs.len(),
            (changes@, tests@) == merged_files(cs.take(k as int)),
            views(bullets@) == merge_bullets(cs.take(k as int)),
        decreases cs.len() - k,
    {
        proof {
            assert(cs.take(k as int + 1).drop_last() =~= cs.take(k as int));
            assert(merge_bullets(cs.take(k as int)).len() == k);
            assert(bullets@.len() == k);
        }
        let ghost bl0 = bullets@;
        let mut b: Vec<char> = chars_of("- ");
        let t = chars_of(contribs[k].title.as_str());
        let mut j: usize = 0;
        let ghost b0 = b@;
        while j < t.len()
            invariant
                j <= t@.len(),
                b@ == b0 + t@.take(j as int),
            decreases t.len() - j,
        {
            proof {
                assert(t@.take(j as int + 1) =~= t@.take(j as int).push(t@[j as int]));
            }
            b.push(t[j]);
            j = j + 1;
        }
        proof {
            assert(t@.take(t@.len() as int) =~= t@);
        }
        bullets.push(b);
        add_unseen(&mut changes, &tests, &contribs[k].changes);
        add_unseen(&mut tests, &changes, &contribs[k].tests_added);
        proof {
            assert(b@ == "- "@ + cs[k as int].title@);
            assert(bullets@ == bl0.push(b));
            assert(views(bullets@).len() == k + 1);
            assert forall|i: int| 0 <= i <= k implies #[trigger] views(bullets@)[i] == merge_bullets(
                cs.take(k as int + 1),
            )[i] by {
                if i < k {
                    assert(views(bullets@)[i] == views(bl0)[i]);
                    assert(merge_bullets(cs.take(k as int))[i] == merge_bullets(cs.take(k as int + 1))[i]);
                }
            }
            assert(views(bullets@) =~= merge_bullets(cs.take(k as int + 1)));
        }
        k = k + 1;
    }
    proof {
        assert(cs.take(cs.len() as int) =~= cs);
    }
    let n = contribs.len();
    let nfiles = changes.len();
    let mut title: Vec<char> = chars_of(merge_prefix_of(contribs[0].contribution_type));
    title.append(&mut chars_of(": "));
    title.append(&mut decimal_usize(n));
    title.append(&mut chars_of(" improvements across "));
    title.append(&mut decimal_usize(nfiles));
    title.append(&mut chars_of(" files"));
    let joined = join_chars(&bullets, &chars_of("\n"));
    let mut paths: Vec<Vec<char>> = Vec::new();
    let mut i: usize = 0;
    while i < changes.len()
        invariant
            i <= changes@.len(),
            views(paths@) == change_paths(changes@.take(i as int)),
        decreases changes.len() - i,
    {
        proof {
            assert(change_paths(changes@.take(i as int)).len() == i);
            assert(paths@.len() == i);
        }
        let ghost p0 = paths@;
        paths.push(chars_of(changes[i].path.as_str()));
        proof {
            assert(paths@.drop_last() == p0);
            assert forall|j: int| 0 <= j <= i implies #[trigger] views(paths@)[j] == change_paths(
                changes@.take(i as int + 1),
            )[j] by {
                if j < i {
                    assert(views(paths@)[j] == views(p0)[j]);
                    assert(change_paths(changes@.take(i as int))[j] == change_paths(changes@.take(i as int + 1))[j]);
                }
            }
            assert(views(paths@) =~= change_paths(changes@.take(i as int + 1)));
        }
        i = i + 1;
    }
    proof {
        assert(changes@.take(changes@.len() as int) =~= changes@);
    }
    let mut desc: Vec<char> = chars_of("Combined multi-file contribution:\n\n");
    desc.append(&mut joined.clone());
    desc.append(&mut chars_of("\n\nFiles changed: "));
    desc.append(&mut join_chars(&paths, &chars_of(", ")));
    let mut commit: Vec<char> = title.clone();
    commit.append(&mut chars_of("\n\n"));
    commit.append(&mut joined.clone());
    let first = contribs.remove(0);
    Contribution {
        finding: first.finding.clone(),
        contribution_type: first.contribution_type,
        title: string_from_chars(&title),
        description: string_from_chars(&desc),
        changes,
        commit_message: string_from_chars(&commit),
        tests_added: tests,
        branch_name: first.branch_name,
    }
}

} // verus!
