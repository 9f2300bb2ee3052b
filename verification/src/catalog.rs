//! The catalogues the command line shows: the models it knows, the
//! contribution templates, and the run profiles, with the filters and lookups
//! over them.
use vstd::prelude::*;

use crate::text::{append_str, chars_eq_str, chars_of, contains, contains_chars, lowercase, lowercase_chars, string_from_chars};

verus! {

// ── Models ───────────────────────────────────────────────────────────────────

/// A model the agent can use, with its ratings out of ten and its price per
/// million input/output tokens.
#[derive(Debug, Clone, Copy)]
pub struct ModelDef {
    pub name: &'static str,
    pub provider: &'static str,
    pub tier: &'static str,
    pub coding: u8,
    pub analysis: u8,
    pub speed: u8,
    pub cost: &'static str,
    pub best_for: &'static str,
}

pub type ModelView = (Seq<char>, Seq<char>, Seq<char>, u8, u8, u8, Seq<char>, Seq<char>);

pub open spec fn model_view(m: ModelDef) -> ModelView {
    (m.name@, m.provider@, m.tier@, m.coding, m.analysis, m.speed, m.cost@, m.best_for@)
}

/// Every known model, in catalogue order.
pub open spec fn model_table() -> Seq<ModelView> {
    seq![
        ("gemini-3.1-pro-preview"@, "google"@, "PRO"@, 10, 10, 7, "$1.25/$10.0"@, "analysis, code"@),
        ("gemini-3-pro-preview"@, "google"@, "PRO"@, 10, 10, 7, "$1.25/$10.0"@, "analysis, code"@),
        ("gemini-3-flash-preview"@, "google"@, "FLASH"@, 9, 9, 9, "$0.15/$0.60"@, "code, review"@),
        ("gemini-3.1-flash-lite-preview"@, "google"@, "LITE"@, 8, 7, 10, "$0.02/$0.10"@, "docs, review"@),
        ("gemini-2.5-pro"@, "google"@, "PRO"@, 9, 9, 7, "$1.25/$10.0"@, "analysis, code"@),
        ("gemini-2.5-flash"@, "google"@, "FLASH"@, 8, 8, 9, "$0.30/$2.50"@, "analysis, review, docs"@),
        ("gemini-2.5-flash-lite"@, "google"@, "LITE"@, 7, 7, 10, "$0.10/$0.40"@, "docs, review"@),
        ("gpt-5.4"@, "openai"@, "PRO"@, 9, 9, 7, "$2.50/$15.0"@, "code, analysis"@),
        ("gpt-5.4-mini"@, "openai"@, "FLASH"@, 8, 8, 9, "$0.75/$4.50"@, "code, review"@),
        ("gpt-5.4-nano"@, "openai"@, "LITE"@, 7, 7, 10, "$0.20/$1.25"@, "docs, review"@),
        ("llama3.3"@, "ollama"@, "LOCAL"@, 8, 7, 8, "free"@, "all (offline)"@),
        ("qwen2.5-coder"@, "ollama"@, "LOCAL"@, 9, 7, 8, "free"@, "code (offline)"@),
        ("deepseek-coder-v2"@, "ollama"@, "LOCAL"@, 9, 7, 7, "free"@, "code (offline)"@),
    ]
}

/// The model catalogue.
pub fn model_catalog() -> (r: Vec<ModelDef>)
    ensures
        r@.map_values(|m: ModelDef| model_view(m)) == model_table(),
{
    let mut out: Vec<ModelDef> = Vec::new();
    out.push(ModelDef { name: "gemini-3.1-pro-preview", provider: "google", tier: "PRO", coding: 10, analysis: 10, speed: 7, cost: "$1.25/$10.0", best_for: "analysis, code" });
    proof {
        assert(model_view(out@[0]) == model_table()[0]);
    }
    out.push(ModelDef { name: "gemini-3-pro-preview", provider: "google", tier: "PRO", coding: 10, analysis: 10, speed: 7, cost: "$1.25/$10.0", best_for: "analysis, code" });
    proof {
        assert(model_view(out@[1]) == model_table()[1]);
    }
    out.push(ModelDef { name: "gemini-3-flash-preview", provider: "google", tier: "FLASH", coding: 9, analysis: 9, speed: 9, cost: "$0.15/$0.60", best_for: "code, review" });
    proof {
        assert(model_view(out@[2]) == model_table()[2]);
    }
    out.push(ModelDef { name: "gemini-3.1-flash-lite-preview", provider: "google", tier: "LITE", coding: 8, analysis: 7, speed: 10, cost: "$0.02/$0.10", best_for: "docs, review" });
    proof {
        assert(model_view(out@[3]) == model_table()[3]);
    }
    out.push(ModelDef { name: "gemini-2.5-pro", provider: "google", tier: "PRO", coding: 9, analysis: 9, speed: 7, cost: "$1.25/$10.0", best_for: "analysis, code" });
    proof {
        assert(model_view(out@[4]) == model_table()[4]);
    }
    out.push(ModelDef { name: "gemini-2.5-flash", provider: "google", tier: "FLASH", coding: 8, analysis: 8, speed: 9, cost: "$0.30/$2.50", best_for: "analysis, review, docs" });
    proof {
        assert(model_view(out@[5]) == model_table()[5]);
    }
    out.push(ModelDef { name: "gemini-2.5-flash-lite", provider: "google", tier: "LITE", coding: 7, analysis: 7, speed: 10, cost: "$0.10/$0.40", best_for: "docs, review" });
    proof {
        assert(model_view(out@[6]) == model_table()[6]);
    }
    out.push(ModelDef { name: "gpt-5.4", provider: "openai", tier: "PRO", coding: 9, analysis: 9, speed: 7, cost: "$2.50/$15.0", best_for: "code, analysis" });
    proof {
        assert(model_view(out@[7]) == model_table()[7]);
    }
    out.push(ModelDef { name: "gpt-5.4-mini", provider: "openai", tier: "FLASH", coding: 8, analysis: 8, speed: 9, cost: "$0.75/$4.50", best_for: "code, review" });
    proof {
        assert(model_view(out@[8]) == model_table()[8]);
    }
    out.push(ModelDef { name: "gpt-5.4-nano", provider: "openai", tier: "LITE", coding: 7, analysis: 7, speed: 10, cost: "$0.20/$1.25", best_for: "docs, review" });
    proof {
        assert(model_view(out@[9]) == model_table()[9]);
    }
    out.push(ModelDef { name: "llama3.3", provider: "ollama", tier: "LOCAL", coding: 8, analysis: 7, speed: 8, cost: "free", best_for: "all (offline)" });
    proof {
        assert(model_view(out@[10]) == model_table()[10]);
    }
    out.push(ModelDef { name: "qwen2.5-coder", provider: "ollama", tier: "LOCAL", coding: 9, analysis: 7, speed: 8, cost: "free", best_for: "code (offline)" });
    proof {
        assert(model_view(out@[11]) == model_table()[11]);
    }
    out.push(ModelDef { name: "deepseek-coder-v2", provider: "ollama", tier: "LOCAL", coding: 9, analysis: 7, speed: 7, cost: "free", best_for: "code (offline)" });
    proof {
        assert(model_view(out@[12]) == model_table()[12]);
    }
    proof {
        assert(out@.map_values(|m: ModelDef| model_view(m)) =~= model_table());
    }
    out
}

/// The entries of `ms` whose `best_for` mentions the lowercased task, or all
/// of them when no task is given.
pub open spec fn models_matching(ms: Seq<ModelView>, task: Option<Seq<char>>) -> Seq<ModelView>
    decreases ms.len(),
{
    if ms.len() == 0 {
        seq![]
    } else {
        let before = models_matching(ms.drop_last(), task);
        let keep = match task {
            Some(t) => contains(ms.last().7, lowercase(t)),
            None => true,
        };
        if keep {
            before.push(ms.last())
        } else {
            before
        }
    }
}

/// The models suited to a task (all of them when none is given).
pub fn models_for_task(task_filter: Option<&str>) -> (r: Vec<ModelDef>)
    ensures
        r@.map_values(|m: ModelDef| model_view(m)) == models_matching(
            model_table(),
            match task_filter {
                Some(t) => Some(t@),
                None => None,
            },
        ),
{
    let all = model_catalog();
    let ghost tv = match task_filter {
        Some(t) => Some(t@),
        None => None::<Seq<char>>,
    };
    let lower: Option<Vec<char>> = match task_filter {
        Some(t) => Some(lowercase_chars(t)),
        None => None,
    };
    let mut out: Vec<ModelDef> = Vec::new();
    let mut k: usize = 0;
    proof {
        assert(model_table().take(0) =~= seq![]);
        assert(out@.map_values(|m: ModelDef| model_view(m)) =~= seq![]);
    }
    while k < all.len()
        invariant
            k <= all@.len(),
            all@.map_values(|m: ModelDef| model_view(m)) == model_table(),
            tv == match task_filter {
                Some(t) => Some(t@),
                None => None::<Seq<char>>,
            },
            match lower {
                Some(l) => tv is Some && l@ == lowercase(tv->0),
                None => tv is None,
            },
            out@.map_values(|m: ModelDef| model_view(m)) == models_matching(
                model_table().take(k as int),
                tv,
            ),
        decreases all.len() - k,
    {
        proof {
            assert(model_table().take(k + 1).drop_last() =~= model_table().take(k as int));
            assert(model_table().take(k + 1).last() == model_view(all@[k as int]));
        }
        let m = all[k];
        let keep = match &lower {
            Some(l) => contains_chars(chars_of(m.best_for).as_slice(), l.as_slice()),
            None => true,
        };
        if keep {
            proof {
                assert(out@.push(m).map_values(|m: ModelDef| model_view(m)) =~= out@.map_values(
                    |m: ModelDef| model_view(m),
                ).push(model_view(m)));
            }
            out.push(m);
        }
        k = k + 1;
    }
    proof {
        assert(model_table().take(k as int) =~= model_table());
    }
    out
}

// ── Templates ────────────────────────────────────────────────────────────────

/// A contribution template: its name, contribution type, severity,
/// description and languages.
#[derive(Debug, Clone, Copy)]
pub struct TemplateDef {
    pub name: &'static str,
    pub kind: &'static str,
    pub severity: &'static str,
    pub description: &'static str,
    pub languages: &'static str,
}

pub type TemplateView = (Seq<char>, Seq<char>, Seq<char>, Seq<char>, Seq<char>);

pub open spec fn template_view(t: TemplateDef) -> TemplateView {
    (t.name@, t.kind@, t.severity@, t.description@, t.languages@)
}

/// Every template, in catalogue order.
pub open spec fn template_table() -> Seq<TemplateView> {
    seq![
        ("sql-injection-fix"@, "security_fix"@, "critical"@, "Fix SQL injection vulnerabilities"@, "python, js, ts, go"@),
        ("xss-fix"@, "security_fix"@, "high"@, "Fix XSS vulnerabilities"@, "js, ts"@),
        ("path-traversal-fix"@, "security_fix"@, "high"@, "Fix path traversal issues"@, "python, go, rust"@),
        ("missing-docstrings"@, "docs_improve"@, "low"@, "Add missing docstrings to functions"@, "python"@),
        ("readme-badges"@, "docs_improve"@, "low"@, "Add CI/coverage badges to README"@, "all"@),
        ("error-handling"@, "code_quality"@, "medium"@, "Improve error handling patterns"@, "python, go, rust"@),
        ("add-type-hints"@, "code_quality"@, "low"@, "Add Python type hints"@, "python"@),
        ("add-tests"@, "code_quality"@, "medium"@, "Add missing unit tests"@, "python, js, ts, go"@),
        ("performance-cache"@, "performance_opt"@, "medium"@, "Add caching to expensive operations"@, "python, go"@),
        ("refactor-long-fn"@, "refactor"@, "low"@, "Break up overly long functions"@, "python, js, ts"@),
        ("dependency-update"@, "security_fix"@, "medium"@, "Update vulnerable dependencies"@, "all"@),
        ("add-logging"@, "code_quality"@, "low"@, "Add structured logging"@, "python, go, rust"@),
        ("issue-fix"@, "feature_add"@, "medium"@, "Fix a GitHub issue based on repro steps"@, "all"@),
        ("ui-accessibility"@, "ui_ux_fix"@, "medium"@, "Fix accessibility issues (aria, contrast, focus)"@, "js, ts"@),
    ]
}

/// The template catalogue.
pub fn template_catalog() -> (r: Vec<TemplateDef>)
    ensures
        r@.map_values(|t: TemplateDef| template_view(t)) == template_table(),
{
    let mut out: Vec<TemplateDef> = Vec::new();
    out.push(TemplateDef { name: "sql-injection-fix", kind: "security_fix", severity: "critical", description: "Fix SQL injection vulnerabilities", languages: "python, js, ts, go" });
    proof {
        assert(template_view(out@[0]) == template_table()[0]);
    }
    out.push(TemplateDef { name: "xss-fix", kind: "security_fix", severity: "high", description: "Fix XSS vulnerabilities", languages: "js, ts" });
    proof {
        assert(template_view(out@[1]) == template_table()[1]);
    }
    out.push(TemplateDef { name: "path-traversal-fix", kind: "security_fix", severity: "high", description: "Fix path traversal issues", languages: "python, go, rust" });
    proof {
        assert(template_view(out@[2]) == template_table()[2]);
    }
    out.push(TemplateDef { name: "missing-docstrings", kind: "docs_improve", severity: "low", description: "Add missing docstrings to functions", languages: "python" });
    proof {
        assert(template_view(out@[3]) == template_table()[3]);
    }
    out.push(TemplateDef { name: "readme-badges", kind: "docs_improve", severity: "low", description: "Add CI/coverage badges to README", languages: "all" });
    proof {
        assert(template_view(out@[4]) == template_table()[4]);
    }
    out.push(TemplateDef { name: "error-handling", kind: "code_quality", severity: "medium", description: "Improve error handling patterns", languages: "python, go, rust" });
    proof {
        assert(template_view(out@[5]) == template_table()[5]);
    }
    out.push(TemplateDef { name: "add-type-hints", kind: "code_quality", severity: "low", description: "Add Python type hints", languages: "python" });
    proof {
        assert(template_view(out@[6]) == template_table()[6]);
    }
    out.push(TemplateDef { name: "add-tests", kind: "code_quality", severity: "medium", description: "Add missing unit tests", languages: "python, js, ts, go" });
    proof {
        assert(template_view(out@[7]) == template_table()[7]);
    }
    out.push(TemplateDef { name: "performance-cache", kind: "performance_opt", severity: "medium", description: "Add caching to expensive operations", languages: "python, go" });
    proof {
        assert(template_view(out@[8]) == template_table()[8]);
    }
    out.push(TemplateDef { name: "refactor-long-fn", kind: "refactor", severity: "low", description: "Break up overly long functions", languages: "python, js, ts" });
    proof {
        assert(template_view(out@[9]) == template_table()[9]);
    }
    out.push(TemplateDef { name: "dependency-update", kind: "security_fix", severity: "medium", description: "Update vulnerable dependencies", languages: "all" });
    proof {
        assert(template_view(out@[10]) == template_table()[10]);
    }
    out.push(TemplateDef { name: "add-logging", kind: "code_quality", severity: "low", description: "Add structured logging", languages: "python, go, rust" });
    proof {
        assert(template_view(out@[11]) == template_table()[11]);
    }
    out.push(TemplateDef { name: "issue-fix", kind: "feature_add", severity: "medium", description: "Fix a GitHub issue based on repro steps", languages: "all" });
    proof {
        assert(template_view(out@[12]) == template_table()[12]);
    }
    out.push(TemplateDef { name: "ui-accessibility", kind: "ui_ux_fix", severity: "medium", description: "Fix accessibility issues (aria, contrast, focus)", languages: "js, ts" });
    proof {
        assert(template_view(out@[13]) == template_table()[13]);
    }
    proof {
        assert(out@.map_values(|t: TemplateDef| template_view(t)) =~= template_table());
    }
    out
}

/// The templates whose type is, or contains, the filter (all of them when
/// there is none).
pub open spec fn templates_matching(ts: Seq<TemplateView>, kind: Option<Seq<char>>) -> Seq<TemplateView>
    decreases ts.len(),
{
    if ts.len() == 0 {
        seq![]
    } else {
        let before = templates_matching(ts.drop_last(), kind);
        let keep = match kind {
            Some(f) => ts.last().1 == f || contains(ts.last().1, f),
            None => true,
        };
        if keep {
            before.push(ts.last())
        } else {
            before
        }
    }
}

pub fn templates_for_type(type_filter: Option<&str>) -> (r: Vec<TemplateDef>)
    ensures
        r@.map_values(|t: TemplateDef| template_view(t)) == templates_matching(
            template_table(),
            match type_filter {
                Some(f) => Some(f@),
                None => None,
            },
        ),
{
    let all = template_catalog();
    let ghost fv = match type_filter {
        Some(f) => Some(f@),
        None => None::<Seq<char>>,
    };
    let fc: Option<Vec<char>> = match type_filter {
        Some(f) => Some(chars_of(f)),
        None => None,
    };
    let mut out: Vec<TemplateDef> = Vec::new();
    let mut k: usize = 0;
    proof {
        assert(out@.map_values(|t: TemplateDef| template_view(t)) =~= seq![]);
    }
    while k < all.len()
        invariant
            k <= all@.len(),
            all@.map_values(|t: TemplateDef| template_view(t)) == template_table(),
            fv == match type_filter {
                Some(f) => Some(f@),
                None => None::<Seq<char>>,
            },
            match fc {
                Some(c) => fv is Some && c@ == fv->0,
                None => fv is None,
            },
            out@.map_values(|t: TemplateDef| template_view(t)) == templates_matching(
                template_table().take(k as int),
                fv,
            ),
        decreases all.len() - k,
    {
        proof {
            assert(template_table().take(k + 1).drop_last() =~= template_table().take(k as int));
            assert(template_table().take(k + 1).last() == template_view(all@[k as int]));
        }
        let t = all[k];
        let keep = match &fc {
            Some(c) => {
                let kc = chars_of(t.kind);
                crate::text::chars_eq(&kc, c) || contains_chars(&kc, c)
            },
            None => true,
        };
        if keep {
            proof {
                assert(out@.push(t).map_values(|t: TemplateDef| template_view(t)) =~= out@.map_values(
                    |t: TemplateDef| template_view(t),
                ).push(template_view(t)));
            }
            out.push(t);
        }
        k = k + 1;
    }
    proof {
        assert(template_table().take(k as int) =~= template_table());
    }
    out
}


// ── Profiles ─────────────────────────────────────────────────────────────────

/// A named run profile: which analyzers and contribution types it uses, the
/// least severity it acts on, its limits, and whether it only dry-runs.
#[derive(Debug, Clone)]
pub struct Profile {
    pub name: &'static str,
    pub description: &'static str,
    pub analyzers: Vec<&'static str>,
    pub contribution_types: Vec<&'static str>,
    pub severity_threshold: &'static str,
    pub max_prs_per_day: u32,
    pub max_repos: u32,
    pub dry_run: bool,
}

pub type ProfileView = (Seq<char>, Seq<char>, Seq<Seq<char>>, Seq<Seq<char>>, Seq<char>, u32, u32, bool);

pub open spec fn profile_view(p: Profile) -> ProfileView {
    (
        p.name@,
        p.description@,
        crate::mcp::server::str_views(p.analyzers@),
        crate::mcp::server::str_views(p.contribution_types@),
        p.severity_threshold@,
        p.max_prs_per_day,
        p.max_repos,
        p.dry_run,
    )
}

/// The profiles, in the order they are listed.
pub open spec fn profile_table() -> Seq<ProfileView> {
    seq![
        (
            "security-focused"@,
            "Focus on security vulnerabilities and fixes"@,
            seq!["security"@],
            seq!["security_fix"@, "code_quality"@],
            "high"@,
            5,
            10,
            false,
        ),
        (
            "docs-focused"@,
            "Focus on documentation improvements"@,
            seq!["docs"@],
            seq!["docs_improve"@],
            "low"@,
            10,
            15,
            false,
        ),
        (
            "full-scan"@,
            "Run all analyzers with low threshold"@,
            seq!["security"@, "code_quality"@, "docs"@, "performance"@, "refactor"@],
            seq!["security_fix"@, "docs_improve"@, "code_quality"@, "performance_opt"@, "refactor"@],
            "low"@,
            20,
            20,
            false,
        ),
        (
            "gentle"@,
            "Low-impact: small fixes, dry run by default"@,
            seq!["docs"@, "code_quality"@],
            seq!["docs_improve"@, "code_quality"@],
            "high"@,
            3,
            2,
            true,
        ),
    ]
}

/// The profile catalogue.
pub fn profiles() -> (r: Vec<Profile>)
    ensures
        r@.map_values(|p: Profile| profile_view(p)) == profile_table(),
{
    let mut out: Vec<Profile> = Vec::new();
    out.push(
        Profile {
            name: "security-focused",
            description: "Focus on security vulnerabilities and fixes",
            analyzers: vec!["security"],
            contribution_types: vec!["security_fix", "code_quality"],
            severity_threshold: "high",
            max_prs_per_day: 5,
            max_repos: 10,
            dry_run: false,
        },
    );
    proof {
        assert(profile_view(out@[0]) =~~= profile_table()[0]);
    }
    out.push(
        Profile {
            name: "docs-focused",
            description: "Focus on documentation improvements",
            analyzers: vec!["docs"],
            contribution_types: vec!["docs_improve"],
            severity_threshold: "low",
            max_prs_per_day: 10,
            max_repos: 15,
            dry_run: false,
        },
    );
    proof {
        assert(profile_view(out@[1]) =~~= profile_table()[1]);
    }
    out.push(
        Profile {
            name: "full-scan",
            description: "Run all analyzers with low threshold",
            analyzers: vec!["security", "code_quality", "docs", "performance", "refactor"],
            contribution_types: vec![
                "security_fix",
                "docs_improve",
                "code_quality",
                "performance_opt",
                "refactor",
            ],
            severity_threshold: "low",
            max_prs_per_day: 20,
            max_repos: 20,
            dry_run: false,
        },
    );
    proof {
        assert(profile_view(out@[2]) =~~= profile_table()[2]);
    }
    out.push(
        Profile {
            name: "gentle",
            description: "Low-impact: small fixes, dry run by default",
            analyzers: vec!["docs", "code_quality"],
            contribution_types: vec!["docs_improve", "code_quality"],
            severity_threshold: "high",
            max_prs_per_day: 3,
            max_repos: 2,
            dry_run: true,
        },
    );
    proof {
        assert(profile_view(out@[3]) =~~= profile_table()[3]);
        assert(out@.map_values(|p: Profile| profile_view(p)) =~= profile_table());
    }
    out
}

/// `list` and `--list` ask for the profile list rather than a run.
pub fn is_profile_listing(name: &str) -> (r: bool)
    ensures
        r == (name@ == "list"@ || name@ == "--list"@),
{
    let n = chars_of(name);
    chars_eq_str(&n, "list") || chars_eq_str(&n, "--list")
}

/// The error for an unknown profile name.
pub open spec fn unknown_profile_error(name: Seq<char>) -> Seq<char> {
    "Profile '"@ + name + "' not found. Available: security-focused, docs-focused, full-scan, gentle"@
}

/// The profile named `name`, or the error that lists the available ones.
pub fn find_profile(name: &str) -> (r: Result<Profile, String>)
    ensures
        match r {
            Ok(p) => profile_view(p).0 == name@ && exists|i: int|
                0 <= i < 4 && profile_table()[i] == profile_view(p),
            Err(e) => (forall|i: int| 0 <= i < 4 ==> #[trigger] profile_table()[i].0 != name@) && e@
                == unknown_profile_error(name@),
        },
{
    let all = profiles();
    let n = chars_of(name);
    let mut rest = all;
    let ghost tbl = profile_table();
    let mut k: usize = 0;
    proof {
        assert(rest@.map_values(|p: Profile| profile_view(p)).len() == rest@.len());
        assert(tbl.len() == 4);
        assert(tbl.skip(0) =~= tbl);
    }
    while rest.len() > 0
        invariant
            k + rest@.len() == 4,
            rest@.map_values(|p: Profile| profile_view(p)) == tbl.skip(k as int),
            tbl == profile_table(),
            n@ == name@,
            forall|i: int| 0 <= i < k ==> #[trigger] tbl[i].0 != name@,
        decreases rest@.len(),
    {
        let ghost r0 = rest@;
        proof {
            assert(r0.map_values(|p: Profile| profile_view(p)).len() == r0.len());
            assert(r0.map_values(|p: Profile| profile_view(p))[0] == tbl.skip(k as int)[0]);
        }
        let p = rest.remove(0);
        proof {
            assert(p == r0[0]);
            assert(profile_view(p) == tbl[k as int]);
            assert(rest@ =~= r0.drop_first());
            assert forall|i: int| 0 <= i < rest@.len() implies #[trigger] profile_view(rest@[i])
                == tbl.skip(k as int + 1)[i] by {
                assert(rest@[i] == r0[i + 1]);
                assert(r0.map_values(|p: Profile| profile_view(p))[i + 1] == tbl.skip(k as int)[i + 1]);
            }
            assert(rest@.map_values(|p: Profile| profile_view(p)) =~= tbl.skip(k as int + 1));
        }
        if crate::text::chars_eq(chars_of(p.name).as_slice(), &n) {
            return Ok(p);
        }
        k = k + 1;
    }
    let mut e = chars_of("Profile '");
    append_str(&mut e, name);
    append_str(&mut e, "' not found. Available: security-focused, docs-focused, full-scan, gentle");
    Err(string_from_chars(&e))
}

} // verus!
