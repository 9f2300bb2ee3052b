//! Context compressor for token-efficient LLM interactions.
//!
//! Truncation-based compression that keeps file contents and analysis text
//! within token budgets (one token is taken as four bytes of text).
use vstd::prelude::*;

use crate::common::models::{severity_name, Finding, Symbol};
use crate::pattern::{regex_found, regex_matches};
use crate::text::{
    chars_eq_str, copy_chars, count_matches, count_matches_chars, lemma_skip_first_of, lines, lines_of,
    extension, extension_of, join_chars, replace_all, replace_all_chars, starts_with, starts_with_chars,
    starts_with_str, trim, trimmed, views,
    append_chars, append_str, byte_len_wide, chars_of, decimal, decimal_u128, decimal_usize, join, slice_to_vec,
    string_from_chars, utf8_len,
};

verus! {

/// Bytes of text counted as one token.
pub const CHARS_PER_TOKEN: usize = 4;

/// Bytes reserved for the omission marker when a text is cut in the middle.
pub const MARKER_SIZE: usize = 60;

pub open spec fn min(a: int, b: int) -> int {
    if a <= b {
        a
    } else {
        b
    }
}

/// Size of the kept head when cutting a text to `max` bytes: 60% of `max`,
/// rounded down.
pub open spec fn head_budget(max: nat) -> nat {
    (3 * max / 5) as nat
}

/// Size of the kept tail when cutting a text to `max` bytes: what is left
/// after the head and the marker, or zero.
pub open spec fn tail_budget(max: nat) -> nat {
    if max > head_budget(max) + MARKER_SIZE {
        (max - head_budget(max) - MARKER_SIZE) as nat
    } else {
        0
    }
}

/// The omission marker naming how many bytes (and about how many tokens) were cut.
pub open spec fn omission_marker(omitted: nat) -> Seq<char> {
    "\n\n... ("@ + decimal(omitted) + " chars / ~"@ + decimal(omitted / 4) + " tokens omitted) ...\n\n"@
}

/// `s` cut to about `max` bytes: kept whole when it fits; otherwise the first
/// 60% of the budget, the omission marker and the last part. When the budget
/// leaves no room for a tail, the first `max` characters alone.
///
/// Head and tail are counted in characters, the budgets in bytes, as the
/// byte-based budgets are applied to character iterators; the tail starts
/// `utf8_len(s) - tail` characters in.
pub open spec fn truncated(s: Seq<char>, max: nat) -> Seq<char> {
    if utf8_len(s) <= max {
        s
    } else if tail_budget(max) == 0 {
        s.take(min(max as int, s.len() as int))
    } else {
        let head = head_budget(max);
        let tail = tail_budget(max);
        let omitted = (utf8_len(s) - head - tail) as nat;
        s.take(min(head as int, s.len() as int)) + omission_marker(omitted) + s.skip(
            min(utf8_len(s) - tail, s.len() as int),
        )
    }
}

fn head_size_of(max_chars: usize) -> (r: usize)
    ensures
        r == head_budget(max_chars as nat),
{
    (max_chars / 5) * 3 + ((max_chars % 5) * 3) / 5
}

/// Cuts `text` (as characters, with UTF-8 byte length `len`) to `max_chars`.
fn truncate_chars(text: &[char], len: u128, max_chars: usize) -> (r: Vec<char>)
    requires
        len == utf8_len(text@),
    ensures
        r@ == truncated(text@, max_chars as nat),
{
    if len <= max_chars as u128 {
        let v = slice_to_vec(text, 0, text.len());
        proof {
            assert(text@.subrange(0, text@.len() as int) =~= text@);
        }
        return v;
    }
    let head_size = head_size_of(max_chars);
    let tail_size = max_chars.saturating_sub(head_size + MARKER_SIZE);
    if tail_size == 0 {
        let n = if max_chars < text.len() {
            max_chars
        } else {
            text.len()
        };
        let mut v = Vec::new();
        let mut k: usize = 0;
        while k < n
            invariant
                n <= text@.len(),
                k <= n,
                v@ == text@.take(k as int),
            decreases n - k,
        {
            v.push(text[k]);
            k = k + 1;
            proof {
                assert(v@ =~= text@.take(k as int));
            }
        }
        return v;
    }
    let omitted: u128 = len - head_size as u128 - tail_size as u128;
    let hn = if head_size < text.len() {
        head_size
    } else {
        text.len()
    };
    let skip: u128 = len - tail_size as u128;
    let tn: usize = if skip < text.len() as u128 {
        skip as usize
    } else {
        text.len()
    };
    let mut out: Vec<char> = Vec::new();
    let mut k: usize = 0;
    while k < hn
        invariant
            hn <= text@.len(),
            k <= hn,
            out@ == text@.take(k as int),
        decreases hn - k,
    {
        out.push(text[k]);
        k = k + 1;
        proof {
            assert(out@ =~= text@.take(k as int));
        }
    }
    append_str(&mut out, "\n\n... (");
    let d1 = decimal_u128(omitted);
    append_chars(&mut out, &d1);
    append_str(&mut out, " chars / ~");
    let d2 = decimal_u128(omitted / 4);
    append_chars(&mut out, &d2);
    append_str(&mut out, " tokens omitted) ...\n\n");
    let ghost before_tail = out@;
    let mut j = tn;
    while j < text.len()
        invariant
            tn <= j <= text@.len(),
            out@ == before_tail + text@.subrange(tn as int, j as int),
        decreases text.len() - j,
    {
        out.push(text[j]);
        j = j + 1;
        proof {
            assert(out@ =~= before_tail + text@.subrange(tn as int, j as int));
        }
    }
    proof {
        assert(text@.subrange(tn as int, text@.len() as int) =~= text@.skip(tn as int));
        assert(out@ =~= text@.take(hn as int) + omission_marker(omitted as nat) + text@.skip(
            tn as int,
        ));
    }
    out
}

/// Compresses file content and analysis context to fit within token budgets.
pub struct ContextCompressor {
    max_tokens: usize,
    max_chars: usize,
}

impl ContextCompressor {
    #[verifier::type_invariant]
    closed spec fn budget_consistent(self) -> bool {
        self.max_chars == self.max_tokens * CHARS_PER_TOKEN
    }

    /// The default token budget.
    pub closed spec fn token_budget(self) -> nat {
        self.max_tokens as nat
    }

    /// The default budget in bytes.
    pub closed spec fn char_budget(self) -> nat {
        self.max_chars as nat
    }

    pub fn new(max_tokens: usize) -> (r: Self)
        requires
            max_tokens <= usize::MAX / 4,
        ensures
            r.token_budget() == max_tokens,
            r.char_budget() == 4 * max_tokens,
    {
        ContextCompressor { max_tokens, max_chars: max_tokens * CHARS_PER_TOKEN }
    }

    /// Keep first and last portions, replace the middle with a marker.
    pub fn truncate_middle(text: &str, max_chars: usize) -> (r: String)
        ensures
            r@ == truncated(text@, max_chars as nat),
    {
        let t = chars_of(text);
        let len = byte_len_wide(&t);
        let v = truncate_chars(&t, len, max_chars);
        string_from_chars(&v)
    }

    /// Compress arbitrary text to fit within a token budget (the compressor's
    /// own budget when `max_tokens` is `None`).
    pub fn compress_text(&self, text: &str, max_tokens: Option<usize>) -> (r: String)
        requires
            max_tokens matches Some(t) ==> t <= usize::MAX / 4,
        ensures
            r@ == truncated(
                text@,
                4 * match max_tokens {
                    Some(t) => t as nat,
                    None => self.token_budget(),
                },
            ),
    {
        proof {
            use_type_invariant(self);
        }
        let tokens = match max_tokens {
            Some(t) => t,
            None => self.max_tokens,
        };
        let limit = tokens * CHARS_PER_TOKEN;
        Self::truncate_middle(text, limit)
    }
}

// ── Finding summaries ────────────────────────────────────────────────────────

/// `[severity] title (path)`.
pub open spec fn finding_line(f: Finding) -> Seq<char> {
    "["@ + severity_name(f.severity) + "] "@ + f.title@ + " ("@ + f.file_path@ + ")"@
}

/// One line per finding for the first ten, then ` +N more`; `No issues.` when empty.
pub open spec fn findings_summary(fs: Seq<Finding>) -> Seq<char> {
    if fs.len() == 0 {
        "No issues."@
    } else {
        let shown = Seq::new(min(fs.len() as int, 10) as nat, |i: int| finding_line(fs[i]));
        if fs.len() > 10 {
            join(shown.push(" +"@ + decimal((fs.len() - 10) as nat) + " more"@), "\n"@)
        } else {
            join(shown, "\n"@)
        }
    }
}

impl ContextCompressor {
    /// Compact finding summary for prompt injection.
    pub fn summarize_findings_compact(findings: &[Finding]) -> (r: String)
        ensures
            r@ == findings_summary(findings@),
    {
        if findings.len() == 0 {
            return String::from_str("No issues.");
        }
        let n = if findings.len() < 10 {
            findings.len()
        } else {
            10
        };
        let mut parts: Vec<Vec<char>> = Vec::new();
        let mut k: usize = 0;
        while k < n
            invariant
                n == min(findings@.len() as int, 10),
                k <= n,
                parts@.len() == k,
                forall|i: int| 0 <= i < k ==> parts@[i]@ == finding_line(findings@[i]),
            decreases n - k,
        {
            let f = &findings[k];
            let mut line = chars_of("[");
            append_str(&mut line, f.severity.as_str());
            append_str(&mut line, "] ");
            append_str(&mut line, f.title.as_str());
            append_str(&mut line, " (");
            append_str(&mut line, f.file_path.as_str());
            append_str(&mut line, ")");
            parts.push(line);
            k = k + 1;
        }
        let ghost shown = Seq::new(n as nat, |i: int| finding_line(findings@[i]));
        proof {
            assert(views(parts@) =~= shown);
        }
        if findings.len() > 10 {
            let mut more = chars_of(" +");
            let d = decimal_usize(findings.len() - 10);
            append_chars(&mut more, &d);
            append_str(&mut more, " more");
            parts.push(more);
            proof {
                assert(views(parts@) =~= shown.push(
                    " +"@ + decimal((findings@.len() - 10) as nat) + " more"@,
                ));
            }
        }
        let sep = chars_of("\n");
        let joined = join_chars(&parts, &sep);
        string_from_chars(&joined)
    }
}


// ── Languages and signatures ─────────────────────────────────────────────────

/// Python definitions: `class`, `def` and `async def` at the start of a line.
pub const PY_DEFINITION: &'static str = r"^(class |def |async def )";

/// Python module-level UPPERCASE constants (`FOO_BAR = ...`).
pub const PY_CONSTANT: &'static str = r"^[A-Z_][A-Z_0-9]+ =";

/// JavaScript/TypeScript declarations worth keeping: functions, classes,
/// exports, arrow-function `const` bindings, types, interfaces, decorators.
pub const JS_TS_SIGNATURE: &'static str = r"(?x)^
            (
              export\s |          # export ...
              function\s |        # function foo(
              class\s |           # class Foo
              async\s+function\s | # async function
              const\s+\w+\s*=\s*( # const foo = (
                async\s+
              )?\( |
              (export\s+)?(default\s+)?(abstract\s+)?class\s |
              (export\s+)?(type|interface)\s |
              @\w                 # decorators
            )";

/// Rust items worth keeping: public functions, structs, enums, traits, types
/// and constants, `impl` headers, `use` and `mod` lines, attributes.
pub const RUST_SIGNATURE: &'static str = r"^(pub(\s*\([\w:, ]+\))?\s+(async\s+)?fn\s|pub(\s*\([\w:, ]+\))?\s+struct\s|pub(\s*\([\w:, ]+\))?\s+enum\s|pub(\s*\([\w:, ]+\))?\s+trait\s|pub(\s*\([\w:, ]+\))?\s+type\s|pub(\s*\([\w:, ]+\))?\s+const\s|impl(\s+\w[\w<>, :]+)?\s*\{?\s*$|use\s|mod\s|#\[)";

/// Go declarations worth keeping: functions, types, imports, the package line.
pub const GO_SIGNATURE: &'static str = r"(?x)^
            (
              func\s |            # func Foo(
              type\s+\w+\s+struct | # type Foo struct
              type\s+\w+\s+interface | # type Foo interface
              type\s+\w+\s |      # type alias
              import\s |          # import (
              package\s           # package main
            )";

/// Java declarations worth keeping: modified members, classes, interfaces,
/// enums, annotations, imports, the package line.
pub const JAVA_SIGNATURE: &'static str = r"(?x)^
            (
              (public|protected|private|static|final|abstract|synchronized)\s | # modifiers
              class\s |           # class Foo
              interface\s |       # interface Bar
              enum\s |            # enum Status
              @\w |               # annotations
              import\s |          # import statements
              package\s           # package declaration
            )";

/// Language name for a file extension.
pub open spec fn language_for_extension(ext: Seq<char>) -> Seq<char> {
    if ext == "py"@ {
        "python"@
    } else if ext == "js"@ || ext == "mjs"@ || ext == "cjs"@ {
        "javascript"@
    } else if ext == "ts"@ || ext == "tsx"@ || ext == "jsx"@ {
        "typescript"@
    } else if ext == "rs"@ {
        "rust"@
    } else if ext == "go"@ {
        "go"@
    } else if ext == "java"@ {
        "java"@
    } else {
        "unknown"@
    }
}

/// Python lines that an outline keeps: imports, definitions, decorators and
/// unindented module-level constants.
pub open spec fn python_keeps(line: Seq<char>) -> bool {
    let stripped = trim(line);
    ||| starts_with(stripped, "import "@)
    ||| starts_with(stripped, "from "@)
    ||| regex_matches(PY_DEFINITION@, stripped)
    ||| starts_with(stripped, "@"@)
    ||| (regex_matches(PY_CONSTANT@, stripped) && !starts_with(line, " "@) && !starts_with(
        line,
        "\t"@,
    ))
}

/// A line with an odd number of triple quotes opens or closes a docstring.
pub open spec fn toggles_docstring(line: Seq<char>) -> bool {
    (count_matches(trim(line), "\"\"\""@) + count_matches(trim(line), "'''"@)) % 2 == 1
}

/// The Python lines kept from `ls`, starting inside a docstring or not.
/// Lines that open or close a docstring, and lines inside one, are dropped.
pub open spec fn python_kept(ls: Seq<Seq<char>>, in_doc: bool) -> Seq<Seq<char>>
    decreases ls.len(),
{
    if ls.len() == 0 {
        seq![]
    } else if toggles_docstring(ls[0]) {
        python_kept(ls.drop_first(), !in_doc)
    } else if in_doc || !python_keeps(ls[0]) {
        python_kept(ls.drop_first(), in_doc)
    } else {
        seq![ls[0]] + python_kept(ls.drop_first(), in_doc)
    }
}

/// The lines of `ls` whose trimmed text `pattern` matches.
pub open spec fn lines_matching(ls: Seq<Seq<char>>, pattern: Seq<char>) -> Seq<Seq<char>>
    decreases ls.len(),
{
    if ls.len() == 0 {
        seq![]
    } else if regex_matches(pattern, trim(ls[0])) {
        seq![ls[0]] + lines_matching(ls.drop_first(), pattern)
    } else {
        lines_matching(ls.drop_first(), pattern)
    }
}

/// Outline of a text in an unknown language: whole when it has at most 70
/// lines, else its first 50 and last 20 lines around a count of the rest.
pub open spec fn head_tail_outline(content: Seq<char>) -> Seq<char> {
    let ls = lines(content);
    if ls.len() <= 70 {
        content
    } else {
        join(ls.take(50), "\n"@) + "\n... ("@ + decimal((ls.len() - 70) as nat)
            + " lines omitted) ...\n"@ + join(ls.skip(ls.len() - 20), "\n"@)
    }
}

pub open spec fn is_js_ts(language: Seq<char>) -> bool {
    ||| language == "javascript"@
    ||| language == "js"@
    ||| language == "typescript"@
    ||| language == "ts"@
    ||| language == "jsx"@
    ||| language == "tsx"@
}

/// The structural outline of `content` written in `language`.
pub open spec fn signatures(content: Seq<char>, language: Seq<char>) -> Seq<char> {
    if language == "python"@ || language == "py"@ {
        join(python_kept(lines(content), false), "\n"@)
    } else if is_js_ts(language) {
        join(lines_matching(lines(content), JS_TS_SIGNATURE@), "\n"@)
    } else if language == "rust"@ || language == "rs"@ {
        join(lines_matching(lines(content), RUST_SIGNATURE@), "\n"@)
    } else if language == "go"@ {
        join(lines_matching(lines(content), GO_SIGNATURE@), "\n"@)
    } else if language == "java"@ {
        join(lines_matching(lines(content), JAVA_SIGNATURE@), "\n"@)
    } else {
        head_tail_outline(content)
    }
}

fn python_keeps_exec(line: &[char]) -> (b: bool)
    ensures
        b == python_keeps(line@),
{
    let stripped = trimmed(line);
    if starts_with_str(&stripped, "import ") || starts_with_str(&stripped, "from ") {
        return true;
    }
    let text = string_from_chars(&stripped);
    if regex_found(PY_DEFINITION, text.as_str()) || starts_with_str(&stripped, "@") {
        return true;
    }
    regex_found(PY_CONSTANT, text.as_str()) && !starts_with_str(line, " ") && !starts_with_str(
        line,
        "\t",
    )
}

fn python_signatures(content: &[char]) -> (r: Vec<char>)
    ensures
        r@ == join(python_kept(lines(content@), false), "\n"@),
{
    let ls = lines_of(content);
    let ghost all = views(ls@);
    let mut kept: Vec<Vec<char>> = Vec::new();
    let mut in_doc = false;
    let mut k: usize = 0;
    let dq = chars_of("\"\"\"");
    let sq = chars_of("'''");
    proof {
        assert(all.skip(0) =~= all);
        reveal_strlit("\"\"\"");
        reveal_strlit("'''");
    }
    while k < ls.len()
        invariant
            k <= ls@.len(),
            all == views(ls@),
            all == lines(content@),
            dq@ == "\"\"\""@,
            sq@ == "'''"@,
            dq@.len() > 0,
            sq@.len() > 0,
            views(kept@) + python_kept(all.skip(k as int), in_doc) == python_kept(all, false),
        decreases ls.len() - k,
    {
        proof {
            lemma_skip_first_of(all, k as int);
        }
        let line = ls[k].as_slice();
        let stripped = trimmed(line);
        let toggles = count_matches_chars(&stripped, &dq) % 2 != count_matches_chars(
            &stripped,
            &sq,
        ) % 2;
        proof {
            assert(line@ == all[k as int]);
        }
        if toggles {
            in_doc = !in_doc;
        } else if !in_doc && python_keeps_exec(line) {
            proof {
                assert(views(kept@.push(ls@[k as int])) =~= views(kept@) + seq![all[k as int]]);
            }
            kept.push(ls[k].clone());
        }
        k = k + 1;
    }
    proof {
        assert(all.skip(k as int) =~= seq![]);
        assert(views(kept@) + seq![] =~= views(kept@));
    }
    let sep = chars_of("\n");
    join_chars(&kept, &sep)
}

fn keep_matching_lines(content: &[char], pattern: &str) -> (r: Vec<char>)
    ensures
        r@ == join(lines_matching(lines(content@), pattern@), "\n"@),
{
    let ls = lines_of(content);
    let ghost all = views(ls@);
    let mut kept: Vec<Vec<char>> = Vec::new();
    let mut k: usize = 0;
    proof {
        assert(all.skip(0) =~= all);
    }
    while k < ls.len()
        invariant
            k <= ls@.len(),
            all == views(ls@),
            all == lines(content@),
            views(kept@) + lines_matching(all.skip(k as int), pattern@) == lines_matching(
                all,
                pattern@,
            ),
        decreases ls.len() - k,
    {
        proof {
            lemma_skip_first_of(all, k as int);
        }
        let line = ls[k].as_slice();
        let stripped = trimmed(line);
        let text = string_from_chars(&stripped);
        proof {
            assert(line@ == all[k as int]);
        }
        if regex_found(pattern, text.as_str()) {
            proof {
                assert(views(kept@.push(ls@[k as int])) =~= views(kept@) + seq![all[k as int]]);
            }
            kept.push(ls[k].clone());
        }
        k = k + 1;
    }
    proof {
        assert(all.skip(k as int) =~= seq![]);
        assert(views(kept@) + seq![] =~= views(kept@));
    }
    let sep = chars_of("\n");
    join_chars(&kept, &sep)
}

fn head_tail_exec(content: &[char]) -> (r: Vec<char>)
    ensures
        r@ == head_tail_outline(content@),
{
    let ls = lines_of(content);
    let n = ls.len();
    if n <= 70 {
        let v = slice_to_vec(content, 0, content.len());
        proof {
            assert(content@.subrange(0, content@.len() as int) =~= content@);
        }
        return v;
    }
    let mut head: Vec<Vec<char>> = Vec::new();
    let mut k: usize = 0;
    while k < 50
        invariant
            n == ls@.len(),
            n > 70,
            k <= 50,
            views(head@) == views(ls@).take(k as int),
        decreases 50 - k,
    {
        proof {
            assert(views(head@.push(ls@[k as int])) =~= views(head@).push(ls@[k as int]@));
            assert(views(ls@).take(k + 1) =~= views(ls@).take(k as int).push(ls@[k as int]@));
        }
        head.push(ls[k].clone());
        k = k + 1;
    }
    let mut tail: Vec<Vec<char>> = Vec::new();
    let mut j: usize = n - 20;
    while j < n
        invariant
            n == ls@.len(),
            n > 70,
            n - 20 <= j <= n,
            views(tail@) == views(ls@).subrange(n - 20, j as int),
        decreases n - j,
    {
        proof {
            assert(views(tail@.push(ls@[j as int])) =~= views(tail@).push(ls@[j as int]@));
            assert(views(ls@).subrange(n - 20, j + 1) =~= views(ls@).subrange(n - 20, j as int).push(
                ls@[j as int]@,
            ));
        }
        tail.push(ls[j].clone());
        j = j + 1;
    }
    proof {
        assert(views(ls@).subrange(n - 20, n as int) =~= views(ls@).skip(n - 20));
    }
    let sep = chars_of("\n");
    let mut out = join_chars(&head, &sep);
    append_str(&mut out, "\n... (");
    let d = decimal_usize(n - 70);
    append_chars(&mut out, &d);
    append_str(&mut out, " lines omitted) ...\n");
    let t = join_chars(&tail, &sep);
    append_chars(&mut out, &t);
    out
}

fn is_js_ts_exec(language: &[char]) -> (b: bool)
    ensures
        b == is_js_ts(language@),
{
    chars_eq_str(language, "javascript") || chars_eq_str(language, "js") || chars_eq_str(
        language,
        "typescript",
    ) || chars_eq_str(language, "ts") || chars_eq_str(language, "jsx") || chars_eq_str(
        language,
        "tsx",
    )
}

fn signatures_exec(content: &[char], language: &[char]) -> (r: Vec<char>)
    ensures
        r@ == signatures(content@, language@),
{
    if chars_eq_str(language, "python") || chars_eq_str(language, "py") {
        python_signatures(content)
    } else if is_js_ts_exec(language) {
        keep_matching_lines(content, JS_TS_SIGNATURE)
    } else if chars_eq_str(language, "rust") || chars_eq_str(language, "rs") {
        keep_matching_lines(content, RUST_SIGNATURE)
    } else if chars_eq_str(language, "go") {
        keep_matching_lines(content, GO_SIGNATURE)
    } else if chars_eq_str(language, "java") {
        keep_matching_lines(content, JAVA_SIGNATURE)
    } else {
        head_tail_exec(content)
    }
}

fn language_of_extension(ext: &[char]) -> (r: &'static str)
    ensures
        r@ == language_for_extension(ext@),
{
    if chars_eq_str(ext, "py") {
        "python"
    } else if chars_eq_str(ext, "js") || chars_eq_str(ext, "mjs") || chars_eq_str(ext, "cjs") {
        "javascript"
    } else if chars_eq_str(ext, "ts") || chars_eq_str(ext, "tsx") || chars_eq_str(ext, "jsx") {
        "typescript"
    } else if chars_eq_str(ext, "rs") {
        "rust"
    } else if chars_eq_str(ext, "go") {
        "go"
    } else if chars_eq_str(ext, "java") {
        "java"
    } else {
        "unknown"
    }
}

impl ContextCompressor {
    /// Detect language from a file extension (e.g. "foo.rs" → "rust").
    pub fn detect_language(path: &str) -> (r: &'static str)
        ensures
            r@ == language_for_extension(extension(path@)),
    {
        let ext = extension_of(path);
        language_of_extension(&ext)
    }

    /// Extract key structural elements (imports, class/function signatures)
    /// from source code, stripping implementation bodies.
    pub fn extract_signatures(&self, content: &str, language: &str) -> (r: String)
        ensures
            r@ == signatures(content@, language@),
    {
        let c = chars_of(content);
        let l = chars_of(language);
        let v = signatures_exec(&c, &l);
        string_from_chars(&v)
    }
}


// ── Packing files into a budget ──────────────────────────────────────────────

/// Path and content of each file, as text.
pub open spec fn file_views<'a>(files: Seq<(&'a str, &'a str)>) -> Seq<(Seq<char>, Seq<char>)> {
    files.map_values(|f: (&'a str, &'a str)| (f.0@, f.1@))
}

/// Path and text of each compressed file.
pub open spec fn string_pairs(v: Seq<(String, String)>) -> Seq<(Seq<char>, Seq<char>)> {
    v.map_values(|p: (String, String)| (p.0@, p.1@))
}

/// Byte size of each file's content.
pub open spec fn content_sizes(fs: Seq<(Seq<char>, Seq<char>)>) -> Seq<nat> {
    Seq::new(fs.len(), |i: int| utf8_len(fs[i].1))
}

/// Item `i` goes before item `j`: its key is smaller, or equal and `i` is earlier.
pub open spec fn comes_before(keys: Seq<nat>, i: int, j: int) -> bool {
    keys[i] < keys[j] || (keys[i] == keys[j] && i < j)
}

/// `order` lists every index of `keys` once, smallest key first, equal keys
/// in their original order: a stable sort by key.
pub open spec fn is_stable_order(keys: Seq<nat>, order: Seq<int>) -> bool {
    &&& order.len() == keys.len()
    &&& forall|a: int| 0 <= a < order.len() ==> 0 <= #[trigger] order[a] < keys.len()
    &&& forall|x: int| 0 <= x < keys.len() ==> #[trigger] order.contains(x)
    &&& forall|a: int, b: int|
        0 <= a < b < order.len() ==> comes_before(keys, #[trigger] order[a], #[trigger] order[b])
}

/// The stable smallest-first order of items with the given keys.
pub open spec fn stable_order(keys: Seq<nat>) -> Seq<int> {
    choose|order: Seq<int>| is_stable_order(keys, order)
}

pub open spec fn min_nat(a: nat, b: nat) -> nat {
    if a <= b {
        a
    } else {
        b
    }
}

/// What one file becomes under a limit of `limit` bytes: kept whole when it
/// fits; else, with `outline`, its signatures when those fit, else the
/// signatures cut in the middle; without `outline`, the content cut in the middle.
pub open spec fn file_result(path: Seq<char>, content: Seq<char>, limit: nat, outline: bool) -> Seq<
    char,
> {
    if utf8_len(content) <= limit {
        content
    } else if !outline {
        truncated(content, limit)
    } else {
        let sigs = signatures(content, language_for_extension(extension(path)));
        if utf8_len(sigs) <= limit {
            sigs
        } else {
            truncated(sigs, limit)
        }
    }
}

/// The files taken in `order` while budget remains: each under the smaller of
/// the per-file limit and the remaining budget, each using up its own size.
pub open spec fn packed(
    fs: Seq<(Seq<char>, Seq<char>)>,
    order: Seq<int>,
    per_file: nat,
    remaining: nat,
    outline: bool,
) -> Seq<(Seq<char>, Seq<char>)>
    decreases order.len(),
{
    if order.len() == 0 || remaining == 0 {
        seq![]
    } else {
        let f = fs[order[0]];
        let r = file_result(f.0, f.1, min_nat(per_file, remaining), outline);
        let left: nat = if utf8_len(r) >= remaining {
            0
        } else {
            (remaining - utf8_len(r)) as nat
        };
        seq![(f.0, r)] + packed(fs, order.drop_first(), per_file, left, outline)
    }
}

proof fn lemma_stable_order_unique(sizes: Seq<nat>, p: Seq<int>, q: Seq<int>)
    requires
        p.len() == q.len(),
        forall|x: int| p.contains(x) <==> q.contains(x),
        forall|a: int, b: int|
            0 <= a < b < p.len() ==> comes_before(sizes, #[trigger] p[a], #[trigger] p[b]),
        forall|a: int, b: int|
            0 <= a < b < q.len() ==> comes_before(sizes, #[trigger] q[a], #[trigger] q[b]),
    ensures
        p == q,
    decreases p.len(),
{
    if p.len() == 0 {
        assert(p =~= q);
    } else {
        assert(p.contains(p[0]));
        assert(q.contains(q[0]));
        let j = choose|j: int| 0 <= j < q.len() && q[j] == p[0];
        let i = choose|i: int| 0 <= i < p.len() && p[i] == q[0];
        if j > 0 && i > 0 {
            assert(comes_before(sizes, q[0], q[j]));
            assert(comes_before(sizes, p[0], p[i]));
        }
        assert(p[0] == q[0]);
        let p1 = p.drop_first();
        let q1 = q.drop_first();
        assert forall|x: int| p1.contains(x) <==> q1.contains(x) by {
            if p1.contains(x) {
                let a = choose|a: int| 0 <= a < p1.len() && p1[a] == x;
                assert(p[a + 1] == x);
                assert(comes_before(sizes, p[0], p[a + 1]));
                assert(p.contains(x));
                let b = choose|b: int| 0 <= b < q.len() && q[b] == x;
                assert(b != 0);
                assert(q1[b - 1] == x);
            }
            if q1.contains(x) {
                let a = choose|a: int| 0 <= a < q1.len() && q1[a] == x;
                assert(q[a + 1] == x);
                assert(comes_before(sizes, q[0], q[a + 1]));
                assert(q.contains(x));
                let b = choose|b: int| 0 <= b < p.len() && p[b] == x;
                assert(b != 0);
                assert(p1[b - 1] == x);
            }
        }
        assert forall|a: int, b: int| 0 <= a < b < p1.len() implies comes_before(
            sizes,
            #[trigger] p1[a],
            #[trigger] p1[b],
        ) by {
            assert(p1[a] == p[a + 1] && p1[b] == p[b + 1]);
        }
        assert forall|a: int, b: int| 0 <= a < b < q1.len() implies comes_before(
            sizes,
            #[trigger] q1[a],
            #[trigger] q1[b],
        ) by {
            assert(q1[a] == q[a + 1] && q1[b] == q[b + 1]);
        }
        lemma_stable_order_unique(sizes, p1, q1);
        assert(p =~= seq![p[0]] + p1);
        assert(q =~= seq![q[0]] + q1);
    }
}

/// Any stable sort by size is the one `size_order` names.
pub proof fn lemma_stable_order_is(sizes: Seq<nat>, order: Seq<int>)
    requires
        is_stable_order(sizes, order),
    ensures
        stable_order(sizes) == order,
{
    let other = stable_order(sizes);
    assert(is_stable_order(sizes, other));
    assert forall|x: int| other.contains(x) <==> order.contains(x) by {
        if other.contains(x) {
            let a = choose|a: int| 0 <= a < other.len() && other[a] == x;
            assert(0 <= other[a] < sizes.len());
        }
        if order.contains(x) {
            let a = choose|a: int| 0 <= a < order.len() && order[a] == x;
            assert(0 <= order[a] < sizes.len());
        }
    }
    lemma_stable_order_unique(sizes, other, order);
}

/// The outline tier: a file within its limit is kept whole with or without
/// outlining; a file over it whose signature outline fits is replaced by
/// exactly that outline when outlining, and cut in the middle otherwise.
pub proof fn lemma_outline_tier(path: Seq<char>, content: Seq<char>, limit: nat)
    ensures
        utf8_len(content) <= limit ==> file_result(path, content, limit, true) == content
            && file_result(path, content, limit, false) == content,
        utf8_len(content) > limit && utf8_len(
            signatures(content, language_for_extension(extension(path))),
        ) <= limit ==> file_result(path, content, limit, true) == signatures(
            content,
            language_for_extension(extension(path)),
        ),
        utf8_len(content) > limit ==> file_result(path, content, limit, false) == truncated(
            content,
            limit,
        ),
{
}

/// Packing with outlines: the first file taken, when it is over the smaller of
/// the per-file limit and the budget but its signature outline fits, comes
/// out as exactly its outline.
pub proof fn lemma_first_packed_is_outline(
    fs: Seq<(Seq<char>, Seq<char>)>,
    order: Seq<int>,
    per_file: nat,
    remaining: nat,
)
    requires
        order.len() > 0,
        remaining > 0,
        0 <= order[0] < fs.len(),
        utf8_len(fs[order[0]].1) > min_nat(per_file, remaining),
        utf8_len(signatures(fs[order[0]].1, language_for_extension(extension(fs[order[0]].0))))
            <= min_nat(per_file, remaining),
    ensures
        packed(fs, order, per_file, remaining, true).len() > 0,
        packed(fs, order, per_file, remaining, true)[0] == (
            fs[order[0]].0,
            signatures(fs[order[0]].1, language_for_extension(extension(fs[order[0]].0))),
        ),
{
}

/// Compressing one file with outlines: when it is over the smaller of the
/// per-file limit and the budget but its outline fits, the result is that
/// file with exactly its outline.
pub proof fn lemma_single_file_outline(path: Seq<char>, content: Seq<char>, per_file: nat, budget: nat)
    requires
        budget > 0,
        utf8_len(content) > min_nat(per_file, budget),
        utf8_len(signatures(content, language_for_extension(extension(path)))) <= min_nat(
            per_file,
            budget,
        ),
    ensures
        packed(seq![(path, content)], stable_order(content_sizes(seq![(path, content)])), per_file, budget, true)
            == seq![(path, signatures(content, language_for_extension(extension(path))))],
{
    let fs = seq![(path, content)];
    let keys = content_sizes(fs);
    let order = seq![0int];
    assert(order[0] == 0);
    assert(order.contains(0));
    assert(is_stable_order(keys, order));
    lemma_stable_order_is(keys, order);
    let sigs = signatures(content, language_for_extension(extension(path)));
    let left: nat = if utf8_len(sigs) >= budget {
        0
    } else {
        (budget - utf8_len(sigs)) as nat
    };
    assert(order.drop_first().len() == 0);
    assert(packed(fs, order.drop_first(), per_file, left, true) == Seq::<(Seq<char>, Seq<char>)>::empty());
    assert(packed(fs, order, per_file, budget, true) =~= seq![(path, sigs)]);
}

pub open spec fn wide_keys(v: Seq<u128>) -> Seq<nat> {
    v.map_values(|x: u128| x as nat)
}

pub open spec fn indices(v: Seq<usize>) -> Seq<int> {
    v.map_values(|i: usize| i as int)
}

/// Stable insertion sort of indices by key.
fn sort_stable(sizes: &Vec<u128>) -> (order: Vec<usize>)
    ensures
        is_stable_order(wide_keys(sizes@), indices(order@)),
{
    let ghost sz = wide_keys(sizes@);
    let mut order: Vec<usize> = Vec::new();
    let mut j: usize = 0;
    while j < sizes.len()
        invariant
            j <= sizes@.len(),
            sz == wide_keys(sizes@),
            order@.len() == j,
            forall|a: int| 0 <= a < j ==> 0 <= #[trigger] order@[a] < j,
            forall|x: int| 0 <= x < j ==> #[trigger] indices(order@).contains(x),
            forall|a: int, b: int|
                0 <= a < b < j ==> comes_before(
                    sz,
                    #[trigger] indices(order@)[a],
                    #[trigger] indices(order@)[b],
                ),
        decreases sizes.len() - j,
    {
        let ghost o = indices(order@);
        let key = sizes[j];
        let mut pos: usize = 0;
        while pos < order.len() && sizes[order[pos]] <= key
            invariant
                pos <= order@.len(),
                order@.len() == j,
                j < sizes@.len(),
                key == sizes@[j as int],
                forall|a: int| 0 <= a < j ==> 0 <= #[trigger] order@[a] < j,
                forall|a: int| 0 <= a < pos ==> sizes@[#[trigger] order@[a] as int] <= key,
            decreases j - pos,
        {
            pos = pos + 1;
        }
        proof {
            assert forall|a: int| pos <= a < j implies sz[#[trigger] o[a]] > sz[j as int] by {
                if a > pos {
                    assert(comes_before(sz, o[pos as int], o[a]));
                }
            }
        }
        order.insert(pos, j);
        proof {
            let o2 = indices(order@);
            assert(o2 =~= o.insert(pos as int, j as int));
            assert forall|a: int| 0 <= a < j + 1 implies 0 <= #[trigger] order@[a] < j + 1 by {
                if a < pos {
                    assert(order@[a] == o[a]);
                } else if a > pos {
                    assert(order@[a] == o[a - 1]);
                }
            }
            assert forall|x: int| 0 <= x < j + 1 implies #[trigger] o2.contains(x) by {
                if x == j {
                    assert(o2[pos as int] == x);
                } else {
                    assert(o.contains(x));
                    let a = choose|a: int| 0 <= a < o.len() && o[a] == x;
                    if a < pos {
                        assert(o2[a] == x);
                    } else {
                        assert(o2[a + 1] == x);
                    }
                }
            }
            assert forall|a: int, b: int| 0 <= a < b < j + 1 implies comes_before(
                sz,
                #[trigger] o2[a],
                #[trigger] o2[b],
            ) by {
                if b < pos {
                    assert(o2[a] == o[a] && o2[b] == o[b]);
                } else if b == pos {
                    assert(o2[a] == o[a]);
                    assert(sizes@[order@[a] as int] <= key);
                } else if a > pos {
                    assert(o2[a] == o[a - 1] && o2[b] == o[b - 1]);
                } else if a == pos {
                    assert(o2[b] == o[b - 1]);
                } else {
                    assert(o2[a] == o[a] && o2[b] == o[b - 1]);
                }
            }
        }
        j = j + 1;
    }
    order
}

fn file_result_exec(path: &str, content: &[char], len: u128, limit: usize, outline: bool) -> (r:
    Vec<char>)
    requires
        len == utf8_len(content@),
    ensures
        r@ == file_result(path@, content@, limit as nat, outline),
{
    if len <= limit as u128 {
        let v = slice_to_vec(content, 0, content.len());
        proof {
            assert(content@.subrange(0, content@.len() as int) =~= content@);
        }
        return v;
    }
    if !outline {
        return truncate_chars(content, len, limit);
    }
    let lang = chars_of(ContextCompressor::detect_language(path));
    let sigs = signatures_exec(content, &lang);
    let sl = byte_len_wide(&sigs);
    if sl <= limit as u128 {
        sigs
    } else {
        truncate_chars(&sigs, sl, limit)
    }
}

fn pack_files(files: &[(&str, &str)], per_file: usize, budget: usize, outline: bool) -> (r: Vec<
    (String, String),
>)
    ensures
        string_pairs(r@) == packed(
            file_views(files@),
            stable_order(content_sizes(file_views(files@))),
            per_file as nat,
            budget as nat,
            outline,
        ),
{
    let ghost fs = file_views(files@);
    let mut sizes: Vec<u128> = Vec::new();
    let mut contents: Vec<Vec<char>> = Vec::new();
    let mut i: usize = 0;
    while i < files.len()
        invariant
            i <= files@.len(),
            fs == file_views(files@),
            sizes@.len() == i,
            contents@.len() == i,
            forall|a: int| 0 <= a < i ==> #[trigger] contents@[a]@ == fs[a].1,
            forall|a: int| 0 <= a < i ==> #[trigger] sizes@[a] == utf8_len(fs[a].1),
        decreases files.len() - i,
    {
        let c = chars_of(files[i].1);
        sizes.push(byte_len_wide(&c));
        contents.push(c);
        i = i + 1;
    }
    let order = sort_stable(&sizes);
    let ghost ord = indices(order@);
    proof {
        assert(wide_keys(sizes@) =~= content_sizes(fs));
        lemma_stable_order_is(content_sizes(fs), ord);
        assert(ord.skip(0) =~= ord);
    }
    let mut out: Vec<(String, String)> = Vec::new();
    let mut remaining = budget;
    let mut k: usize = 0;
    while k < order.len() && remaining > 0
        invariant
            k <= order@.len(),
            fs == file_views(files@),
            ord == indices(order@),
            is_stable_order(content_sizes(fs), ord),
            contents@.len() == fs.len(),
            sizes@.len() == fs.len(),
            forall|a: int| 0 <= a < fs.len() ==> #[trigger] contents@[a]@ == fs[a].1,
            forall|a: int| 0 <= a < fs.len() ==> #[trigger] sizes@[a] == utf8_len(fs[a].1),
            string_pairs(out@) + packed(fs, ord.skip(k as int), per_file as nat, remaining as nat, outline)
                == packed(fs, ord, per_file as nat, budget as nat, outline),
        decreases order.len() - k,
    {
        proof {
            lemma_skip_first_of(ord, k as int);
            assert(0 <= ord[k as int] < fs.len());
        }
        let idx = order[k];
        let path = files[idx].0;
        let limit = if per_file < remaining {
            per_file
        } else {
            remaining
        };
        let res = file_result_exec(path, contents[idx].as_slice(), sizes[idx], limit, outline);
        let rlen = byte_len_wide(&res);
        let entry = (String::from_str(path), string_from_chars(&res));
        proof {
            assert(string_pairs(out@.push(entry)) =~= string_pairs(out@) + seq![(fs[idx as int].0, res@)]);
        }
        out.push(entry);
        remaining = if rlen >= remaining as u128 {
            0
        } else {
            remaining - rlen as usize
        };
        k = k + 1;
    }
    proof {
        assert(packed(fs, ord.skip(k as int), per_file as nat, remaining as nat, outline) =~= seq![]);
        assert(string_pairs(out@) + seq![] =~= string_pairs(out@));
    }
    out
}

impl ContextCompressor {
    /// Compress a list of (path, content) files to fit within the budget:
    /// smallest files first, each cut to the per-file limit or what is left.
    pub fn compress_files(&self, files: &[(&str, &str)], max_per_file_tokens: usize) -> (r: Vec<
        (String, String),
    >)
        requires
            max_per_file_tokens <= usize::MAX / 4,
        ensures
            string_pairs(r@) == packed(
                file_views(files@),
                stable_order(content_sizes(file_views(files@))),
                4 * max_per_file_tokens as nat,
                self.char_budget(),
                false,
            ),
    {
        pack_files(files, max_per_file_tokens * CHARS_PER_TOKEN, self.max_chars, false)
    }

    /// 3-tier compression: full, then signatures, then truncated.
    pub fn compress_files_with_signatures(
        &self,
        files: &[(&str, &str)],
        max_per_file_tokens: usize,
    ) -> (r: Vec<(String, String)>)
        requires
            max_per_file_tokens <= usize::MAX / 4,
        ensures
            string_pairs(r@) == packed(
                file_views(files@),
                stable_order(content_sizes(file_views(files@))),
                4 * max_per_file_tokens as nat,
                self.char_budget(),
                true,
            ),
    {
        pack_files(files, max_per_file_tokens * CHARS_PER_TOKEN, self.max_chars, true)
    }
}

impl Default for ContextCompressor {
    fn default() -> (r: Self)
        ensures
            r.token_budget() == 30_000,
            r.char_budget() == 120_000,
    {
        Self::new(30_000)
    }
}


// ── Semantic chunking ────────────────────────────────────────────────────────

/// The text of each string.
pub open spec fn string_views(v: Seq<String>) -> Seq<Seq<char>> {
    v.map_values(|s: String| s@)
}

/// First and last line of each symbol as 0-based line indices (symbols
/// count lines from 1, as `AstIntel::extract_symbols` reports them).
pub open spec fn symbol_spans(symbols: Seq<Symbol>) -> Seq<(int, int)> {
    symbols.map_values(|s: Symbol| (line_index(s.line_start), s.line_end - 1))
}

/// The 0-based index of a 1-based line number (line 0 is read as the first).
pub open spec fn line_index(line: usize) -> int {
    if line == 0 {
        0
    } else {
        line - 1
    }
}

fn line_index_exec(line: usize) -> (r: usize)
    ensures
        r == line_index(line),
{
    if line == 0 {
        0
    } else {
        line - 1
    }
}

/// The smallest first line among `spans` (zero when there are none).
pub open spec fn min_start(spans: Seq<(int, int)>) -> int
    decreases spans.len(),
{
    if spans.len() == 0 {
        0
    } else if spans.len() == 1 {
        spans[0].0
    } else if spans.last().0 < min_start(spans.drop_last()) {
        spans.last().0
    } else {
        min_start(spans.drop_last())
    }
}

/// Import-like lines, which head every chunk.
pub open spec fn is_header_line(line: Seq<char>) -> bool {
    let t = trim(line);
    ||| starts_with(t, "use "@)
    ||| starts_with(t, "import "@)
    ||| starts_with(t, "from "@)
    ||| starts_with(t, "require("@)
    ||| starts_with(t, "package "@)
    ||| starts_with(t, "#include"@)
}

pub open spec fn header_lines(ls: Seq<Seq<char>>) -> Seq<Seq<char>>
    decreases ls.len(),
{
    if ls.len() == 0 {
        seq![]
    } else if is_header_line(ls[0]) {
        seq![ls[0]] + header_lines(ls.drop_first())
    } else {
        header_lines(ls.drop_first())
    }
}

pub open spec fn start_keys(spans: Seq<(int, int)>) -> Seq<nat> {
    Seq::new(spans.len(), |i: int| spans[i].0 as nat)
}

/// The lines of a span, clipped to the end of the file, joined.
pub open spec fn block_of(ls: Seq<Seq<char>>, span: (int, int)) -> Seq<char> {
    let end = if span.1 + 1 < ls.len() {
        span.1 + 1
    } else {
        ls.len() as int
    };
    join(ls.subrange(span.0, end), "\n"@)
}

/// The blocks of the spans listed in `order` that start inside the file.
pub open spec fn blocks_in_order(order: Seq<int>, spans: Seq<(int, int)>, ls: Seq<Seq<char>>) -> Seq<
    Seq<char>,
>
    decreases order.len(),
{
    if order.len() == 0 {
        seq![]
    } else if spans[order[0]].0 < ls.len() {
        seq![block_of(ls, spans[order[0]])] + blocks_in_order(order.drop_first(), spans, ls)
    } else {
        blocks_in_order(order.drop_first(), spans, ls)
    }
}

pub open spec fn chunk_text(header: Seq<char>, parts: Seq<Seq<char>>) -> Seq<char> {
    header + "\n"@ + join(parts, "\n"@)
}

/// Greedy packing of `blocks` into chunks of about `max` bytes, given the
/// blocks `parts` of the open chunk and its size so far. A block that would
/// overflow a non-empty chunk starts a new one; each chunk is headed by `header`.
pub open spec fn pack_blocks(
    blocks: Seq<Seq<char>>,
    header: Seq<char>,
    max: nat,
    parts: Seq<Seq<char>>,
    size: nat,
) -> Seq<Seq<char>>
    decreases blocks.len(),
{
    if blocks.len() == 0 {
        if parts.len() > 0 {
            seq![chunk_text(header, parts)]
        } else {
            seq![]
        }
    } else {
        let b = blocks[0];
        let bl = utf8_len(b) + 1;
        if size + bl > max && parts.len() > 0 {
            seq![chunk_text(header, parts)] + pack_blocks(
                blocks.drop_first(),
                header,
                max,
                seq![b],
                utf8_len(header) + 2 + bl,
            )
        } else {
            pack_blocks(blocks.drop_first(), header, max, parts.push(b), size + bl)
        }
    }
}

/// The chunks of `content` along the symbol spans, each at most about `max`
/// bytes: whole symbols in line order, packed greedily, each chunk headed by
/// the import lines before the first symbol. Without symbols or lines, the
/// content cut in the middle; when no symbol starts inside the file, its
/// first `max` characters.
pub open spec fn semantic_chunks(content: Seq<char>, spans: Seq<(int, int)>, max: nat) -> Seq<
    Seq<char>,
> {
    let ls = lines(content);
    if spans.len() == 0 || ls.len() == 0 {
        seq![truncated(content, max)]
    } else {
        let hn = if min_start(spans) < ls.len() {
            min_start(spans)
        } else {
            ls.len() as int
        };
        let header = join(header_lines(ls.take(hn)), "\n"@);
        let blocks = blocks_in_order(stable_order(start_keys(spans)), spans, ls);
        let chunks = pack_blocks(blocks, header, max, seq![], utf8_len(header) + 2);
        if chunks.len() == 0 {
            seq![content.take(min(max as int, content.len() as int))]
        } else {
            chunks
        }
    }
}

/// Every symbol that starts inside the file ends no earlier than the line
/// above its start (lines counted from 1).
pub open spec fn spans_fit(content: Seq<char>, symbols: Seq<Symbol>) -> bool {
    forall|i: int|
        0 <= i < symbols.len() && line_index(#[trigger] symbols[i].line_start) < lines(content).len()
            ==> line_index(symbols[i].line_start) <= symbols[i].line_end
}

fn header_line_exec(line: &[char]) -> (b: bool)
    ensures
        b == is_header_line(line@),
{
    let t = trimmed(line);
    starts_with_str(&t, "use ") || starts_with_str(&t, "import ") || starts_with_str(&t, "from ")
        || starts_with_str(&t, "require(") || starts_with_str(&t, "package ") || starts_with_str(
        &t,
        "#include",
    )
}

fn block_text(ls: &Vec<Vec<char>>, start: usize, end: usize) -> (r: Vec<char>)
    requires
        start <= end <= ls@.len(),
    ensures
        r@ == join(views(ls@).subrange(start as int, end as int), "\n"@),
{
    let mut part: Vec<Vec<char>> = Vec::new();
    let mut k = start;
    while k < end
        invariant
            start <= k <= end <= ls@.len(),
            views(part@) == views(ls@).subrange(start as int, k as int),
        decreases end - k,
    {
        proof {
            assert(views(part@.push(ls@[k as int])) =~= views(part@).push(ls@[k as int]@));
            assert(views(ls@).subrange(start as int, k + 1) =~= views(ls@).subrange(
                start as int,
                k as int,
            ).push(ls@[k as int]@));
        }
        part.push(ls[k].clone());
        k = k + 1;
    }
    let sep = chars_of("\n");
    join_chars(&part, &sep)
}

fn chunk_exec(header: &[char], parts: &Vec<Vec<char>>) -> (r: Vec<char>)
    ensures
        r@ == chunk_text(header@, views(parts@)),
{
    let mut out = slice_to_vec(header, 0, header.len());
    proof {
        assert(header@.subrange(0, header@.len() as int) =~= header@);
    }
    append_str(&mut out, "\n");
    let sep = chars_of("\n");
    let body = join_chars(parts, &sep);
    append_chars(&mut out, &body);
    out
}

fn min_u128(a: u128, b: u128) -> (r: u128)
    ensures
        r == min(a as int, b as int),
{
    if a <= b {
        a
    } else {
        b
    }
}

fn pack_blocks_exec(blocks: &Vec<Vec<char>>, header: &[char], max: usize) -> (r: Vec<Vec<char>>)
    ensures
        views(r@) == pack_blocks(
            views(blocks@),
            header@,
            max as nat,
            seq![],
            utf8_len(header@) + 2,
        ),
{
    let ghost bv = views(blocks@);
    let cap: u128 = max as u128 + 1;
    let start: u128 = byte_len_wide(header) + 2;
    let mut chunks: Vec<Vec<char>> = Vec::new();
    let mut parts: Vec<Vec<char>> = Vec::new();
    let mut cur: u128 = min_u128(start, cap);
    let ghost mut size: nat = start as nat;
    let mut k: usize = 0;
    proof {
        assert(bv.skip(0) =~= bv);
        assert(views(parts@) =~= seq![]);
        assert(views(chunks@) =~= seq![]);
        assert(seq![] + pack_blocks(bv, header@, max as nat, seq![], size) =~= pack_blocks(
            bv,
            header@,
            max as nat,
            seq![],
            size,
        ));
    }
    while k < blocks.len()
        invariant
            k <= blocks@.len(),
            bv == views(blocks@),
            cap == max + 1,
            start == utf8_len(header@) + 2,
            cur == min(size as int, cap as int),
            views(chunks@) + pack_blocks(bv.skip(k as int), header@, max as nat, views(parts@), size)
                == pack_blocks(bv, header@, max as nat, seq![], start as nat),
        decreases blocks.len() - k,
    {
        proof {
            lemma_skip_first_of(bv, k as int);
        }
        let ghost rest = bv.skip(k + 1);
        let b = blocks[k].as_slice();
        let bl: u128 = byte_len_wide(b) + 1;
        let blc = min_u128(bl, cap);
        let ghost p0 = views(parts@);
        let ghost c0 = views(chunks@);
        let ghost s0 = size;
        let flush = cur + blc > max as u128 && parts.len() > 0;
        proof {
            assert(flush == (s0 + bl > max && p0.len() > 0));
        }
        if flush {
            let chunk = chunk_exec(header, &parts);
            chunks.push(chunk);
            parts = Vec::new();
            proof {
                assert(views(chunks@) =~= c0 + seq![chunk_text(header@, p0)]);
                assert(views(parts@) =~= seq![]);
                size = start as nat;
            }
            cur = min_u128(start, cap);
        }
        let ghost p1 = views(parts@);
        proof {
            size = size + bl as nat;
        }
        parts.push(copy_chars(b));
        proof {
            assert(views(parts@) =~= p1.push(bv[k as int]));
            let t = bv.skip(k as int);
            assert(t[0] == bv[k as int]);
            assert(t.drop_first() == rest);
            if flush {
                assert(pack_blocks(t, header@, max as nat, p0, s0) == seq![chunk_text(header@, p0)]
                    + pack_blocks(rest, header@, max as nat, seq![bv[k as int]], size));
                assert(p1.push(bv[k as int]) =~= seq![bv[k as int]]);
                assert(c0 + (seq![chunk_text(header@, p0)] + pack_blocks(
                    rest,
                    header@,
                    max as nat,
                    seq![bv[k as int]],
                    size,
                )) =~= views(chunks@) + pack_blocks(rest, header@, max as nat, views(parts@), size));
            } else {
                assert(pack_blocks(t, header@, max as nat, p0, s0) == pack_blocks(
                    rest,
                    header@,
                    max as nat,
                    p0.push(bv[k as int]),
                    size,
                ));
            }
        }
        cur = min_u128(cur + blc, cap);
        k = k + 1;
    }
    proof {
        assert(bv.skip(k as int) =~= seq![]);
    }
    if parts.len() > 0 {
        let chunk = chunk_exec(header, &parts);
        proof {
            assert(views(chunks@.push(chunk)) =~= views(chunks@) + seq![chunk@]);
        }
        chunks.push(chunk);
    } else {
        proof {
            assert(views(chunks@) + seq![] =~= views(chunks@));
        }
    }
    chunks
}

fn strings_of(v: &Vec<Vec<char>>) -> (r: Vec<String>)
    ensures
        string_views(r@) == views(v@),
{
    let mut out: Vec<String> = Vec::new();
    let mut k: usize = 0;
    while k < v.len()
        invariant
            k <= v@.len(),
            string_views(out@) == views(v@).take(k as int),
        decreases v.len() - k,
    {
        let s = string_from_chars(v[k].as_slice());
        proof {
            assert(string_views(out@.push(s)) =~= string_views(out@).push(s@));
            assert(views(v@).take(k + 1) =~= views(v@).take(k as int).push(v@[k as int]@));
        }
        out.push(s);
        k = k + 1;
    }
    proof {
        assert(views(v@).take(k as int) =~= views(v@));
    }
    out
}

impl ContextCompressor {
    /// Split file content at function/class boundaries using symbol spans.
    ///
    /// Each chunk is made of whole symbols (no mid-function cuts), headed by
    /// the file's import lines. Falls back to `truncate_middle` when there
    /// are no symbols or no lines.
    pub fn semantic_chunk(content: &str, symbols: &[Symbol], max_tokens_per_chunk: usize) -> (r:
        Vec<String>)
        requires
            max_tokens_per_chunk <= usize::MAX / 4,
            spans_fit(content@, symbols@),
        ensures
            string_views(r@) == semantic_chunks(
                content@,
                symbol_spans(symbols@),
                4 * max_tokens_per_chunk as nat,
            ),
    {
        let max_chars = max_tokens_per_chunk * CHARS_PER_TOKEN;
        let c = chars_of(content);
        let ls = lines_of(&c);
        let n = ls.len();
        let ghost spans = symbol_spans(symbols@);
        let ghost lv = views(ls@);
        if symbols.len() == 0 || n == 0 {
            let len = byte_len_wide(&c);
            let t = truncate_chars(&c, len, max_chars);
            let mut out: Vec<String> = Vec::new();
            out.push(string_from_chars(&t));
            proof {
                assert(string_views(out@) =~= seq![truncated(content@, max_chars as nat)]);
            }
            return out;
        }
        let mut first = line_index_exec(symbols[0].line_start);
        let mut i: usize = 1;
        proof {
            assert(spans.take(1) =~= seq![spans[0]]);
        }
        while i < symbols.len()
            invariant
                1 <= i <= symbols@.len(),
                spans == symbol_spans(symbols@),
                first == min_start(spans.take(i as int)),
            decreases symbols.len() - i,
        {
            proof {
                assert(spans.take(i + 1).drop_last() =~= spans.take(i as int));
                assert(spans.take(i + 1).last() == spans[i as int]);
            }
            let li = line_index_exec(symbols[i].line_start);
            if li < first {
                first = li;
            }
            i = i + 1;
        }
        proof {
            assert(spans.take(i as int) =~= spans);
        }
        let hn = if first < n {
            first
        } else {
            n
        };
        let mut hl: Vec<Vec<char>> = Vec::new();
        let mut k: usize = 0;
        let ghost top = lv.take(hn as int);
        proof {
            assert(top.skip(0) =~= top);
        }
        while k < hn
            invariant
                hn <= n == ls@.len(),
                k <= hn,
                lv == views(ls@),
                top == lv.take(hn as int),
                views(hl@) + header_lines(top.skip(k as int)) == header_lines(top),
            decreases hn - k,
        {
            proof {
                lemma_skip_first_of(top, k as int);
            }
            if header_line_exec(ls[k].as_slice()) {
                proof {
                    assert(views(hl@.push(ls@[k as int])) =~= views(hl@) + seq![top[k as int]]);
                }
                hl.push(ls[k].clone());
            }
            k = k + 1;
        }
        proof {
            assert(top.skip(k as int) =~= seq![]);
            assert(views(hl@) + seq![] =~= views(hl@));
        }
        let sep = chars_of("\n");
        let header = join_chars(&hl, &sep);
        let mut keys: Vec<u128> = Vec::new();
        let mut j: usize = 0;
        while j < symbols.len()
            invariant
                j <= symbols@.len(),
                spans == symbol_spans(symbols@),
                keys@.len() == j,
                forall|a: int| 0 <= a < j ==> #[trigger] keys@[a] == spans[a].0,
            decreases symbols.len() - j,
        {
            keys.push(line_index_exec(symbols[j].line_start) as u128);
            j = j + 1;
        }
        let order = sort_stable(&keys);
        let ghost ord = indices(order@);
        proof {
            assert(wide_keys(keys@) =~= start_keys(spans));
            lemma_stable_order_is(start_keys(spans), ord);
            assert(ord.skip(0) =~= ord);
        }
        let mut blocks: Vec<Vec<char>> = Vec::new();
        let mut m: usize = 0;
        while m < order.len()
            invariant
                m <= order@.len(),
                n == ls@.len(),
                lv == views(ls@),
                spans == symbol_spans(symbols@),
                spans_fit(content@, symbols@),
                lv == lines(content@),
                ord == indices(order@),
                is_stable_order(start_keys(spans), ord),
                views(blocks@) + blocks_in_order(ord.skip(m as int), spans, lv) == blocks_in_order(
                    ord,
                    spans,
                    lv,
                ),
            decreases order.len() - m,
        {
            proof {
                lemma_skip_first_of(ord, m as int);
                assert(0 <= ord[m as int] < symbols@.len());
            }
            let idx = order[m];
            let s = line_index_exec(symbols[idx].line_start);
            if s < n {
                let e = symbols[idx].line_end;
                let end = if e < n {
                    e
                } else {
                    n
                };
                let block = block_text(&ls, s, end);
                proof {
                    assert(views(blocks@.push(block)) =~= views(blocks@) + seq![block@]);
                }
                blocks.push(block);
            }
            m = m + 1;
        }
        proof {
            assert(ord.skip(m as int) =~= seq![]);
            assert(views(blocks@) + seq![] =~= views(blocks@));
        }
        let chunks = pack_blocks_exec(&blocks, &header, max_chars);
        if chunks.len() == 0 {
            let cn = if max_chars < c.len() {
                max_chars
            } else {
                c.len()
            };
            let t = slice_to_vec(&c, 0, cn);
            let mut out: Vec<String> = Vec::new();
            out.push(string_from_chars(&t));
            proof {
                assert(string_views(out@) =~= seq![content@.take(cn as int)]);
            }
            return out;
        }
        strings_of(&chunks)
    }
}


// ── Structured summaries ─────────────────────────────────────────────────────

/// Section headings of a structured summary, filled from the model's reply.
pub const SUMMARY_TEMPLATE: &'static str = "# Task Overview\n{task_overview}\n\n# Current State\n{current_state}\n\n# Important Discoveries\n{important_discoveries}\n\n# Context to Preserve\n{context_to_preserve}";

/// The value of the last line of `ls` that, trimmed, starts with `label`:
/// what follows the label, trimmed. Empty when no line has the label.
pub open spec fn labelled_value(ls: Seq<Seq<char>>, label: Seq<char>) -> Seq<char>
    decreases ls.len(),
{
    if ls.len() == 0 {
        seq![]
    } else if starts_with(trim(ls.last()), label) {
        trim(trim(ls.last()).skip(label.len() as int))
    } else {
        labelled_value(ls.drop_last(), label)
    }
}

/// The summary built from a reply in the `TASK_OVERVIEW:` / `CURRENT_STATE:` /
/// `IMPORTANT_DISCOVERIES:` / `CONTEXT_TO_PRESERVE:` line format.
pub open spec fn summary_of_reply(reply: Seq<char>) -> Seq<char> {
    let ls = lines(trim(reply));
    let t1 = replace_all(SUMMARY_TEMPLATE@, "{task_overview}"@, labelled_value(ls, "TASK_OVERVIEW:"@));
    let t2 = replace_all(t1, "{current_state}"@, labelled_value(ls, "CURRENT_STATE:"@));
    let t3 = replace_all(
        t2,
        "{important_discoveries}"@,
        labelled_value(ls, "IMPORTANT_DISCOVERIES:"@),
    );
    replace_all(t3, "{context_to_preserve}"@, labelled_value(ls, "CONTEXT_TO_PRESERVE:"@))
}

fn labelled_value_exec(ls: &Vec<Vec<char>>, label: &str) -> (r: Vec<char>)
    ensures
        r@ == labelled_value(views(ls@), label@),
{
    let ghost lv = views(ls@);
    let lab = chars_of(label);
    let mut value: Vec<char> = Vec::new();
    let mut k: usize = 0;
    proof {
        assert(lv.take(0) =~= seq![]);
    }
    while k < ls.len()
        invariant
            k <= ls@.len(),
            lv == views(ls@),
            lab@ == label@,
            value@ == labelled_value(lv.take(k as int), label@),
        decreases ls.len() - k,
    {
        proof {
            assert(lv.take(k + 1).drop_last() =~= lv.take(k as int));
            assert(lv.take(k + 1).last() == ls@[k as int]@);
        }
        let t = trimmed(ls[k].as_slice());
        if starts_with_chars(&t, &lab) {
            let rest = slice_to_vec(&t, lab.len(), t.len());
            proof {
                assert(rest@ =~= t@.skip(lab@.len() as int));
            }
            value = trimmed(&rest);
        }
        k = k + 1;
    }
    proof {
        assert(lv.take(k as int) =~= lv);
    }
    value
}

fn fill(text: &[char], slot: &str, value: &[char]) -> (r: Vec<char>)
    requires
        slot@.len() > 0,
    ensures
        r@ == replace_all(text@, slot@, value@),
{
    let s = chars_of(slot);
    replace_all_chars(text, &s, value)
}

impl ContextCompressor {
    /// The structured summary built from a compression reply: each labelled
    /// line fills its section of `SUMMARY_TEMPLATE`.
    pub fn summary_from_reply(reply: &str) -> (r: String)
        ensures
            r@ == summary_of_reply(reply@),
    {
        let rc = chars_of(reply);
        let t = trimmed(&rc);
        let ls = lines_of(&t);
        let a = labelled_value_exec(&ls, "TASK_OVERVIEW:");
        let b = labelled_value_exec(&ls, "CURRENT_STATE:");
        let c = labelled_value_exec(&ls, "IMPORTANT_DISCOVERIES:");
        let d = labelled_value_exec(&ls, "CONTEXT_TO_PRESERVE:");
        let template = chars_of(SUMMARY_TEMPLATE);
        proof {
            reveal_strlit("{task_overview}");
            reveal_strlit("{current_state}");
            reveal_strlit("{important_discoveries}");
            reveal_strlit("{context_to_preserve}");
        }
        let t1 = fill(&template, "{task_overview}", &a);
        let t2 = fill(&t1, "{current_state}", &b);
        let t3 = fill(&t2, "{important_discoveries}", &c);
        let t4 = fill(&t3, "{context_to_preserve}", &d);
        string_from_chars(&t4)
    }
}

} // verus!
