//! Framework detection: which web frameworks a repository uses (Django,
//! Flask, FastAPI, React/Next.js, Express), where that shows, and which of its
//! files matter most for each.
use vstd::prelude::*;

use crate::text::{
    chars_eq_str, chars_of, contains, contains_str, ends_with, ends_with_str, lowercase,
    lowercase_chars, views,
};

verus! {

/// Detected framework metadata.
#[derive(Debug, Clone)]
pub struct FrameworkInfo {
    pub name: String,
    pub version: Option<String>,
    pub config_file: Option<String>,
}

/// What detection looks at: the repository's file paths, and the files whose
/// contents were fetched, as `(path, content)`.
#[derive(Debug, Clone)]
pub struct RepoFiles {
    pub file_tree: Vec<String>,
    pub relevant_files: Vec<(String, String)>,
}

/// The frameworks with an analysis strategy.
#[derive(Debug, Clone, Copy, PartialEq, Eq, Structural)]
pub enum Framework {
    Django,
    Flask,
    FastApi,
    React,
    Express,
}

/// Index of the first element of `s` that satisfies `p`.
pub open spec fn first_where<A>(s: Seq<A>, p: spec_fn(A) -> bool) -> Option<int>
    decreases s.len(),
{
    if s.len() == 0 {
        None
    } else if p(s[0]) {
        Some(0)
    } else {
        match first_where(s.drop_first(), p) {
            Some(i) => Some(i + 1),
            None => None,
        }
    }
}

pub proof fn lemma_first_where<A>(s: Seq<A>, p: spec_fn(A) -> bool, k: int)
    requires
        0 <= k <= s.len(),
        forall|i: int| 0 <= i < k ==> !p(#[trigger] s[i]),
    ensures
        k < s.len() && p(s[k]) ==> first_where(s, p) == Some(k),
        k == s.len() ==> first_where(s, p) is None,
    decreases k,
{
    if k > 0 {
        assert forall|i: int| 0 <= i < k - 1 implies !p(#[trigger] s.drop_first()[i]) by {
            assert(s.drop_first()[i] == s[i + 1]);
        }
        lemma_first_where(s.drop_first(), p, k - 1);
        if k < s.len() {
            assert(s.drop_first()[k - 1] == s[k]);
        }
    } else if s.len() > 0 && k < s.len() {
    }
}

pub type InfoView = (Seq<char>, Option<Seq<char>>, Option<Seq<char>>);

pub open spec fn info_view(i: FrameworkInfo) -> InfoView {
    (
        i.name@,
        match i.version {
            Some(v) => Some(v@),
            None => None,
        },
        match i.config_file {
            Some(c) => Some(c@),
            None => None,
        },
    )
}

pub open spec fn string_views(v: Seq<String>) -> Seq<Seq<char>> {
    v.map_values(|s: String| s@)
}

pub open spec fn pair_views(v: Seq<(String, String)>) -> Seq<(Seq<char>, Seq<char>)> {
    v.map_values(|p: (String, String)| (p.0@, p.1@))
}

// ── Detection rules ──────────────────────────────────────────────────────────

pub open spec fn django_marker(path: Seq<char>) -> bool {
    ends_with(path, "manage.py"@) || ends_with(path, "settings.py"@)
}

pub open spec fn django_requirement(f: (Seq<char>, Seq<char>)) -> bool {
    (contains(lowercase(f.0), "requirements"@) || f.0 == "pyproject.toml"@) && contains(
        lowercase(f.1),
        "django"@,
    )
}

pub open spec fn flask_import(f: (Seq<char>, Seq<char>)) -> bool {
    contains(f.1, "from flask"@) || contains(f.1, "import flask"@)
}

pub open spec fn fastapi_import(f: (Seq<char>, Seq<char>)) -> bool {
    contains(f.1, "from fastapi"@) || contains(f.1, "import fastapi"@)
}

pub open spec fn react_package(f: (Seq<char>, Seq<char>)) -> bool {
    f.0 == "package.json"@ && (contains(f.1, "\"react\""@) || contains(f.1, "\"next\""@))
}

pub open spec fn jsx_file(path: Seq<char>) -> bool {
    ends_with(path, ".jsx"@) || ends_with(path, ".tsx"@)
}

pub open spec fn express_use(f: (Seq<char>, Seq<char>)) -> bool {
    ||| (f.0 == "package.json"@ && contains(f.1, "\"express\""@))
    ||| contains(f.1, "require('express')"@)
    ||| contains(f.1, "from \"express\""@)
}

/// What detecting `fw` finds in a repository with these paths and fetched
/// files: the framework's name and the file that shows it, for the first
/// matching file in order.
pub open spec fn detection(fw: Framework, paths: Seq<Seq<char>>, files: Seq<(Seq<char>, Seq<char>)>) -> Option<InfoView> {
    match fw {
        Framework::Django => match first_where(paths, |p: Seq<char>| django_marker(p)) {
            Some(i) => Some(("Django"@, None, Some(paths[i]))),
            None => match first_where(files, |f: (Seq<char>, Seq<char>)| django_requirement(f)) {
                Some(i) => Some(("Django"@, None, Some(files[i].0))),
                None => None,
            },
        },
        Framework::Flask => match first_where(files, |f: (Seq<char>, Seq<char>)| flask_import(f)) {
            Some(i) => Some(("Flask"@, None, Some(files[i].0))),
            None => None,
        },
        Framework::FastApi => match first_where(files, |f: (Seq<char>, Seq<char>)| fastapi_import(f)) {
            Some(i) => Some(("FastAPI"@, None, Some(files[i].0))),
            None => None,
        },
        Framework::React => match first_where(files, |f: (Seq<char>, Seq<char>)| react_package(f)) {
            Some(i) => Some((
                if contains(files[i].1, "\"next\""@) {
                    "Next.js"@
                } else {
                    "React"@
                },
                None,
                Some(files[i].0),
            )),
            None => match first_where(paths, |p: Seq<char>| jsx_file(p)) {
                Some(i) => Some(("React"@, None, None)),
                None => None,
            },
        },
        Framework::Express => match first_where(files, |f: (Seq<char>, Seq<char>)| express_use(f)) {
            Some(i) => Some(("Express"@, None, Some(files[i].0))),
            None => None,
        },
    }
}

fn first_path(paths: &Vec<String>, fw: Framework) -> (r: Option<usize>)
    requires
        fw == Framework::Django || fw == Framework::React,
    ensures
        match r {
            Some(i) => i < paths@.len() && first_where(
                string_views(paths@),
                if fw == Framework::Django {
                    |p: Seq<char>| django_marker(p)
                } else {
                    |p: Seq<char>| jsx_file(p)
                },
            ) == Some(i as int),
            None => first_where(
                string_views(paths@),
                if fw == Framework::Django {
                    |p: Seq<char>| django_marker(p)
                } else {
                    |p: Seq<char>| jsx_file(p)
                },
            ) is None,
        },
{
    let ghost pred = if fw == Framework::Django {
        |p: Seq<char>| django_marker(p)
    } else {
        |p: Seq<char>| jsx_file(p)
    };
    let ghost pv = string_views(paths@);
    let mut k: usize = 0;
    while k < paths.len()
        invariant
            k <= paths@.len(),
            pv == string_views(paths@),
            fw == Framework::Django || fw == Framework::React,
            pred == (if fw == Framework::Django {
                |p: Seq<char>| django_marker(p)
            } else {
                |p: Seq<char>| jsx_file(p)
            }),
            forall|i: int| 0 <= i < k ==> !pred(#[trigger] pv[i]),
        decreases paths.len() - k,
    {
        let p = chars_of(paths[k].as_str());
        let hit = if fw == Framework::Django {
            ends_with_str(&p, "manage.py") || ends_with_str(&p, "settings.py")
        } else {
            ends_with_str(&p, ".jsx") || ends_with_str(&p, ".tsx")
        };
        proof {
            assert(pv[k as int] == p@);
        }
        if hit {
            proof {
                lemma_first_where(pv, pred, k as int);
            }
            return Some(k);
        }
        k = k + 1;
    }
    proof {
        lemma_first_where(pv, pred, k as int);
    }
    None
}

/// Whether a fetched file shows `fw` (the file-content rule of each framework).
pub open spec fn file_rule(fw: Framework) -> spec_fn((Seq<char>, Seq<char>)) -> bool {
    match fw {
        Framework::Django => |f: (Seq<char>, Seq<char>)| django_requirement(f),
        Framework::Flask => |f: (Seq<char>, Seq<char>)| flask_import(f),
        Framework::FastApi => |f: (Seq<char>, Seq<char>)| fastapi_import(f),
        Framework::React => |f: (Seq<char>, Seq<char>)| react_package(f),
        Framework::Express => |f: (Seq<char>, Seq<char>)| express_use(f),
    }
}

fn file_rule_exec(fw: Framework, path: &str, content: &str) -> (b: bool)
    ensures
        b == (file_rule(fw))((path@, content@)),
{
    let c = chars_of(content);
    match fw {
        Framework::Django => {
            let lp = lowercase_chars(path);
            let lc = lowercase_chars(content);
            let p = chars_of(path);
            (contains_str(&lp, "requirements") || chars_eq_str(&p, "pyproject.toml")) && contains_str(
                &lc,
                "django",
            )
        },
        Framework::Flask => contains_str(&c, "from flask") || contains_str(&c, "import flask"),
        Framework::FastApi => contains_str(&c, "from fastapi") || contains_str(&c, "import fastapi"),
        Framework::React => {
            let p = chars_of(path);
            chars_eq_str(&p, "package.json") && (contains_str(&c, "\"react\"") || contains_str(
                &c,
                "\"next\"",
            ))
        },
        Framework::Express => {
            let p = chars_of(path);
            (chars_eq_str(&p, "package.json") && contains_str(&c, "\"express\"")) || contains_str(
                &c,
                "require('express')",
            ) || contains_str(&c, "from \"express\"")
        },
    }
}

fn first_file(files: &Vec<(String, String)>, fw: Framework) -> (r: Option<usize>)
    ensures
        match r {
            Some(i) => i < files@.len() && first_where(pair_views(files@), file_rule(fw)) == Some(
                i as int,
            ),
            None => first_where(pair_views(files@), file_rule(fw)) is None,
        },
{
    let ghost fv = pair_views(files@);
    let mut k: usize = 0;
    while k < files.len()
        invariant
            k <= files@.len(),
            fv == pair_views(files@),
            forall|i: int| 0 <= i < k ==> !(file_rule(fw))(#[trigger] fv[i]),
        decreases files.len() - k,
    {
        let hit = file_rule_exec(fw, files[k].0.as_str(), files[k].1.as_str());
        proof {
            assert(fv[k as int] == (files@[k as int].0@, files@[k as int].1@));
        }
        if hit {
            proof {
                lemma_first_where(fv, file_rule(fw), k as int);
            }
            return Some(k);
        }
        k = k + 1;
    }
    proof {
        lemma_first_where(fv, file_rule(fw), k as int);
    }
    None
}

fn info(name: &str, config_file: Option<String>) -> (r: FrameworkInfo)
    ensures
        r.name@ == name@,
        r.version is None,
        r.config_file == config_file,
{
    FrameworkInfo { name: String::from_str(name), version: None, config_file }
}

impl Framework {
    /// The framework's name.
    pub fn name(&self) -> (r: &'static str)
        ensures
            r@ == match *self {
                Framework::Django => "Django"@,
                Framework::Flask => "Flask"@,
                Framework::FastApi => "FastAPI"@,
                Framework::React => "React"@,
                Framework::Express => "Express"@,
            },
    {
        match self {
            Framework::Django => "Django",
            Framework::Flask => "Flask",
            Framework::FastApi => "FastAPI",
            Framework::React => "React",
            Framework::Express => "Express",
        }
    }

    /// Detect whether this framework is used in the repository.
    pub fn detect(&self, repo: &RepoFiles) -> (r: Option<FrameworkInfo>)
        ensures
            match r {
                Some(i) => detection(*self, string_views(repo.file_tree@), pair_views(repo.relevant_files@))
                    == Some(info_view(i)),
                None => detection(*self, string_views(repo.file_tree@), pair_views(repo.relevant_files@))
                    is None,
            },
    {
        let fw = *self;
        let ghost pv = string_views(repo.file_tree@);
        let ghost fv = pair_views(repo.relevant_files@);
        match fw {
            Framework::Django => {
                if let Some(i) = first_path(&repo.file_tree, fw) {
                    proof {
                        assert(pv[i as int] == repo.file_tree@[i as int]@);
                    }
                    return Some(info("Django", Some(repo.file_tree[i].clone())));
                }
                match first_file(&repo.relevant_files, fw) {
                    Some(i) => {
                        proof {
                            assert(fv[i as int].0 == repo.relevant_files@[i as int].0@);
                        }
                        Some(info("Django", Some(repo.relevant_files[i].0.clone())))
                    },
                    None => None,
                }
            },
            Framework::Flask | Framework::FastApi | Framework::Express => {
                match first_file(&repo.relevant_files, fw) {
                    Some(i) => {
                        proof {
                            assert(fv[i as int].0 == repo.relevant_files@[i as int].0@);
                        }
                        Some(info(fw.name(), Some(repo.relevant_files[i].0.clone())))
                    },
                    None => None,
                }
            },
            Framework::React => {
                match first_file(&repo.relevant_files, fw) {
                    Some(i) => {
                        proof {
                            assert(fv[i as int] == (repo.relevant_files@[i as int].0@, repo.relevant_files@[i as int].1@));
                        }
                        let c = chars_of(repo.relevant_files[i].1.as_str());
                        let name = if contains_str(&c, "\"next\"") {
                            "Next.js"
                        } else {
                            "React"
                        };
                        Some(info(name, Some(repo.relevant_files[i].0.clone())))
                    },
                    None => match first_path(&repo.file_tree, fw) {
                        Some(_) => Some(info("React", None)),
                        None => None,
                    },
                }
            },
        }
    }

    /// The framework-specific analysis prompt.
    pub fn analysis_prompt(&self, info: &FrameworkInfo) -> (r: String)
        ensures
            r@ == match *self {
                Framework::Django => DJANGO_PROMPT@,
                Framework::Flask => FLASK_PROMPT@,
                Framework::FastApi => FASTAPI_PROMPT@,
                Framework::React => "Analyze this "@ + info.name@ + REACT_PROMPT_REST@,
                Framework::Express => EXPRESS_PROMPT@,
            },
    {
        match self {
            Framework::Django => String::from_str(DJANGO_PROMPT),
            Framework::Flask => String::from_str(FLASK_PROMPT),
            Framework::FastApi => String::from_str(FASTAPI_PROMPT),
            Framework::React => {
                let mut v = chars_of("Analyze this ");
                crate::text::append_str(&mut v, info.name.as_str());
                crate::text::append_str(&mut v, REACT_PROMPT_REST);
                crate::text::string_from_chars(&v)
            },
            Framework::Express => String::from_str(EXPRESS_PROMPT),
        }
    }
}

pub const DJANGO_PROMPT: &'static str = "Analyze this Django project for:\n1. Security: CSRF, SQL injection, DEBUG=True, SECRET_KEY exposure\n2. Best Practices: Missing migrations, N+1 queries, fat views\n3. Common Issues: Missing __str__, no admin registration\n4. Performance: Unbounded querysets, missing indexes";

pub const FLASK_PROMPT: &'static str = "Analyze this Flask project for:\n1. Security: Missing CSRF, SQL injection, debug mode, SECRET_KEY\n2. Best Practices: Missing error handlers, no blueprints\n3. Common Issues: No request validation, missing CORS\n4. Performance: No connection pooling, missing caching";

pub const FASTAPI_PROMPT: &'static str = "Analyze this FastAPI project for:\n1. Security: Missing auth, CORS misconfiguration, exposed debug\n2. Best Practices: Missing response models, sync in async endpoints\n3. Common Issues: Missing Depends(), no health check\n4. Performance: Missing async DB driver, blocking I/O";

pub const REACT_PROMPT_REST: &'static str = " project for:\n1. Security: XSS via dangerouslySetInnerHTML, exposed API keys\n2. Performance: Missing React.memo, no useMemo/useCallback\n3. Accessibility: Missing alt text, no ARIA labels\n4. Best Practices: Missing types, no error boundaries";

pub const EXPRESS_PROMPT: &'static str = "Analyze this Express.js project for:\n1. Security: Missing helmet, no rate limiting, CORS, injection\n2. Best Practices: No error handling middleware, missing async error\n3. Common Issues: Callback hell, no request validation\n4. Performance: No compression, missing caching headers";

/// The frameworks in the order they are tried.
pub open spec fn all_frameworks() -> Seq<Framework> {
    seq![Framework::Django, Framework::Flask, Framework::FastApi, Framework::React, Framework::Express]
}

/// The frameworks detected, in order, with what each detection found.
pub open spec fn detected(fws: Seq<Framework>, paths: Seq<Seq<char>>, files: Seq<(Seq<char>, Seq<char>)>) -> Seq<(Framework, InfoView)>
    decreases fws.len(),
{
    if fws.len() == 0 {
        seq![]
    } else {
        let before = detected(fws.drop_last(), paths, files);
        match detection(fws.last(), paths, files) {
            Some(i) => before.push((fws.last(), i)),
            None => before,
        }
    }
}

/// Detect all frameworks used in a repository.
pub fn detect_frameworks(repo: &RepoFiles) -> (r: Vec<(Framework, FrameworkInfo)>)
    ensures
        r@.map_values(|p: (Framework, FrameworkInfo)| (p.0, info_view(p.1))) == detected(
            all_frameworks(),
            string_views(repo.file_tree@),
            pair_views(repo.relevant_files@),
        ),
{
    let order = [Framework::Django, Framework::Flask, Framework::FastApi, Framework::React, Framework::Express];
    let ghost pv = string_views(repo.file_tree@);
    let ghost fv = pair_views(repo.relevant_files@);
    proof {
        assert(all_frameworks() =~= order@);
    }
    let mut out: Vec<(Framework, FrameworkInfo)> = Vec::new();
    let mut k: usize = 0;
    proof {
        assert(order@.take(0) =~= seq![]);
        assert(out@.map_values(|p: (Framework, FrameworkInfo)| (p.0, info_view(p.1))) =~= seq![]);
    }
    while k < 5
        invariant
            k <= 5,
            order@.len() == 5,
            all_frameworks() == order@,
            pv == string_views(repo.file_tree@),
            fv == pair_views(repo.relevant_files@),
            out@.map_values(|p: (Framework, FrameworkInfo)| (p.0, info_view(p.1))) == detected(
                order@.take(k as int),
                pv,
                fv,
            ),
        decreases 5 - k,
    {
        proof {
            assert(order@.take(k + 1).drop_last() =~= order@.take(k as int));
            assert(order@.take(k + 1).last() == order@[k as int]);
        }
        let fw = order[k];
        if let Some(i) = fw.detect(repo) {
            let entry = (fw, i);
            proof {
                assert(out@.push(entry).map_values(|p: (Framework, FrameworkInfo)| (p.0, info_view(p.1)))
                    =~= out@.map_values(|p: (Framework, FrameworkInfo)| (p.0, info_view(p.1))).push(
                    (fw, info_view(entry.1)),
                ));
            }
            out.push(entry);
        }
        k = k + 1;
    }
    proof {
        assert(order@.take(5) =~= order@);
    }
    out
}


// ── Critical files ───────────────────────────────────────────────────────────

/// The path fragments that mark a framework's critical files.
pub open spec fn critical_patterns(fw: Framework) -> Seq<Seq<char>> {
    match fw {
        Framework::Django => seq!["settings.py"@, "urls.py"@, "views.py"@, "models.py"@, "forms.py"@],
        Framework::Flask => seq!["app.py"@, "wsgi.py"@, "config.py"@, "routes.py"@],
        Framework::FastApi => seq!["main.py"@, "app.py"@, "routers/"@, "schemas.py"@, "models.py"@],
        Framework::React => seq![".jsx"@, ".tsx"@, "App."@, "index."@, "page."@, "package.json"@],
        Framework::Express => seq!["app.js"@, "server.js"@, "index.js"@, "routes/"@, "middleware/"@],
    }
}

/// Django and Flask match file names at the end of a path; the others match
/// fragments anywhere in it.
pub open spec fn is_critical(fw: Framework, path: Seq<char>) -> bool {
    exists|i: int|
        0 <= i < critical_patterns(fw).len() && if fw == Framework::Django || fw == Framework::Flask {
            ends_with(path, #[trigger] critical_patterns(fw)[i])
        } else {
            contains(path, critical_patterns(fw)[i])
        }
}

pub open spec fn critical_in(fw: Framework, paths: Seq<Seq<char>>) -> Seq<Seq<char>>
    decreases paths.len(),
{
    if paths.len() == 0 {
        seq![]
    } else if is_critical(fw, paths.last()) {
        critical_in(fw, paths.drop_last()).push(paths.last())
    } else {
        critical_in(fw, paths.drop_last())
    }
}

/// At most how many critical files a framework lists.
pub open spec fn critical_cap(fw: Framework) -> Option<nat> {
    match fw {
        Framework::React => Some(20),
        Framework::Express => Some(15),
        _ => None,
    }
}

pub open spec fn critical_files_of(fw: Framework, paths: Seq<Seq<char>>) -> Seq<Seq<char>> {
    let all = critical_in(fw, paths);
    match critical_cap(fw) {
        Some(n) => if all.len() <= n {
            all
        } else {
            all.take(n as int)
        },
        None => all,
    }
}

fn critical_pattern_list(fw: Framework) -> (r: Vec<&'static str>)
    ensures
        r@.map_values(|s: &str| s@) == critical_patterns(fw),
{
    let v = match fw {
        Framework::Django => vec!["settings.py", "urls.py", "views.py", "models.py", "forms.py"],
        Framework::Flask => vec!["app.py", "wsgi.py", "config.py", "routes.py"],
        Framework::FastApi => vec!["main.py", "app.py", "routers/", "schemas.py", "models.py"],
        Framework::React => vec![".jsx", ".tsx", "App.", "index.", "page.", "package.json"],
        Framework::Express => vec!["app.js", "server.js", "index.js", "routes/", "middleware/"],
    };
    proof {
        assert(v@.map_values(|s: &str| s@) =~= critical_patterns(fw));
    }
    v
}

fn critical_path(fw: Framework, path: &str) -> (r: bool)
    ensures
        r == is_critical(fw, path@),
{
    let pats = critical_pattern_list(fw);
    let p = chars_of(path);
    let by_end = match fw {
        Framework::Django | Framework::Flask => true,
        _ => false,
    };
    let mut k: usize = 0;
    while k < pats.len()
        invariant
            k <= pats@.len(),
            pats@.map_values(|s: &str| s@) == critical_patterns(fw),
            p@ == path@,
            by_end == (fw == Framework::Django || fw == Framework::Flask),
            forall|i: int|
                0 <= i < k ==> !(if by_end {
                    ends_with(path@, #[trigger] critical_patterns(fw)[i])
                } else {
                    contains(path@, critical_patterns(fw)[i])
                }),
        decreases pats.len() - k,
    {
        proof {
            assert(critical_patterns(fw)[k as int] == pats@[k as int]@);
        }
        let hit = if by_end {
            ends_with_str(&p, pats[k])
        } else {
            contains_str(&p, pats[k])
        };
        if hit {
            return true;
        }
        k = k + 1;
    }
    false
}

impl Framework {
    /// The repository's files that matter most for this framework, in tree
    /// order (at most 20 for React, 15 for Express).
    pub fn critical_files(&self, repo: &RepoFiles) -> (r: Vec<String>)
        ensures
            string_views(r@) == critical_files_of(*self, string_views(repo.file_tree@)),
    {
        let fw = *self;
        let ghost pv = string_views(repo.file_tree@);
        let mut out: Vec<String> = Vec::new();
        let mut k: usize = 0;
        proof {
            assert(string_views(out@) =~= seq![]);
        }
        while k < repo.file_tree.len()
            invariant
                k <= repo.file_tree@.len(),
                fw == *self,
                pv == string_views(repo.file_tree@),
                string_views(out@) == critical_in(fw, pv.take(k as int)),
            decreases repo.file_tree.len() - k,
        {
            proof {
                assert(pv.take(k + 1).drop_last() =~= pv.take(k as int));
                assert(pv.take(k + 1).last() == repo.file_tree@[k as int]@);
            }
            if critical_path(fw, repo.file_tree[k].as_str()) {
                let s = repo.file_tree[k].clone();
                proof {
                    assert(string_views(out@.push(s)) =~= string_views(out@).push(s@));
                }
                out.push(s);
            }
            k = k + 1;
        }
        proof {
            assert(pv.take(k as int) =~= pv);
        }
        let cap: usize = match fw {
            Framework::React => 20,
            Framework::Express => 15,
            _ => out.len(),
        };
        if out.len() > cap {
            out.truncate(cap);
            proof {
                assert(string_views(out@) =~= critical_in(fw, pv).take(cap as int));
            }
        }
        out
    }
}

/// The frameworks in the order they are tried.
pub fn all_strategies() -> (r: Vec<Framework>)
    ensures
        r@ == all_frameworks(),
{
    let v = vec![Framework::Django, Framework::Flask, Framework::FastApi, Framework::React, Framework::Express];
    proof {
        assert(v@ =~= all_frameworks());
    }
    v
}

} // verus!
