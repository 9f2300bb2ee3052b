//! Syntax-tree intelligence: symbols (functions, classes, imports, ...) read
//! from the concrete syntax trees that tree-sitter builds for 13 languages.
//!
//! The parser itself runs in tree-sitter; what it returns is handed to the
//! library as a `SyntaxNode` tree of plain values, and everything after the
//! parse (which nodes are symbols, what they are called, which lines they
//! span) is verified here.
use tree_sitter::Language as Grammar;
use vstd::prelude::*;

use crate::common::models::{symbol_kind_name, Symbol, SymbolKind};
use crate::text::{
    append_chars, append_str, byte_len_wide, char_is_uppercase, chars_eq_str, chars_of,
    copy_chars, decimal, decimal_usize, extension, extension_of, is_uppercase, join, join_chars,
    lines, lines_of, lowercase, lowercase_chars, string_from_chars, utf8_len, views,
};

verus! {

/// Supported languages for syntax-tree parsing.
#[derive(Debug, Clone, Copy, PartialEq, Eq, Hash, Structural)]
pub enum Language {
    Python,
    JavaScript,
    TypeScript,
    Go,
    Rust,
    Java,
    C,
    Cpp,
    Ruby,
    Php,
    CSharp,
    Html,
    Css,
}

/// The language for a lowercased file extension.
pub open spec fn language_for_ext(ext: Seq<char>) -> Option<Language> {
    if ext == "py"@ {
        Some(Language::Python)
    } else if ext == "js"@ || ext == "jsx"@ || ext == "mjs"@ || ext == "cjs"@ {
        Some(Language::JavaScript)
    } else if ext == "ts"@ || ext == "tsx"@ {
        Some(Language::TypeScript)
    } else if ext == "go"@ {
        Some(Language::Go)
    } else if ext == "rs"@ {
        Some(Language::Rust)
    } else if ext == "java"@ || ext == "kt"@ || ext == "kts"@ || ext == "swift"@ {
        Some(Language::Java)
    } else if ext == "c"@ || ext == "h"@ {
        Some(Language::C)
    } else if ext == "cpp"@ || ext == "cc"@ || ext == "cxx"@ || ext == "hpp"@ || ext == "hxx"@ {
        Some(Language::Cpp)
    } else if ext == "rb"@ || ext == "rake"@ || ext == "gemspec"@ {
        Some(Language::Ruby)
    } else if ext == "php"@ {
        Some(Language::Php)
    } else if ext == "cs"@ {
        Some(Language::CSharp)
    } else if ext == "html"@ || ext == "htm"@ || ext == "vue"@ || ext == "svelte"@ {
        Some(Language::Html)
    } else if ext == "css"@ || ext == "scss"@ {
        Some(Language::Css)
    } else {
        None
    }
}

/// The language for a lowercased repository language name.
pub open spec fn language_for_name(name: Seq<char>) -> Option<Language> {
    if name == "python"@ {
        Some(Language::Python)
    } else if name == "javascript"@ {
        Some(Language::JavaScript)
    } else if name == "typescript"@ {
        Some(Language::TypeScript)
    } else if name == "go"@ {
        Some(Language::Go)
    } else if name == "rust"@ {
        Some(Language::Rust)
    } else if name == "java"@ || name == "kotlin"@ || name == "swift"@ {
        Some(Language::Java)
    } else if name == "c"@ {
        Some(Language::C)
    } else if name == "c++"@ || name == "cpp"@ {
        Some(Language::Cpp)
    } else if name == "ruby"@ {
        Some(Language::Ruby)
    } else if name == "php"@ {
        Some(Language::Php)
    } else if name == "c#"@ || name == "csharp"@ {
        Some(Language::CSharp)
    } else if name == "html"@ {
        Some(Language::Html)
    } else if name == "css"@ || name == "scss"@ {
        Some(Language::Css)
    } else {
        None
    }
}

fn any_of(s: &[char], options: &[&str]) -> (b: bool)
    ensures
        b == exists|i: int| 0 <= i < options@.len() && s@ == (#[trigger] options@[i])@,
{
    let mut k: usize = 0;
    while k < options.len()
        invariant
            k <= options@.len(),
            forall|i: int| 0 <= i < k ==> s@ != (#[trigger] options@[i])@,
        decreases options.len() - k,
    {
        if chars_eq_str(s, options[k]) {
            return true;
        }
        k = k + 1;
    }
    false
}

impl Language {
    /// Detect language from file extension (case-insensitive).
    pub fn from_extension(ext: &str) -> (r: Option<Language>)
        ensures
            r == language_for_ext(lowercase(ext@)),
    {
        let e = lowercase_chars(ext);
        if chars_eq_str(&e, "py") {
            Some(Language::Python)
        } else if chars_eq_str(&e, "js") || chars_eq_str(&e, "jsx") || chars_eq_str(&e, "mjs")
            || chars_eq_str(&e, "cjs") {
            Some(Language::JavaScript)
        } else if chars_eq_str(&e, "ts") || chars_eq_str(&e, "tsx") {
            Some(Language::TypeScript)
        } else if chars_eq_str(&e, "go") {
            Some(Language::Go)
        } else if chars_eq_str(&e, "rs") {
            Some(Language::Rust)
        } else if chars_eq_str(&e, "java") || chars_eq_str(&e, "kt") || chars_eq_str(&e, "kts")
            || chars_eq_str(&e, "swift") {
            Some(Language::Java)
        } else if chars_eq_str(&e, "c") || chars_eq_str(&e, "h") {
            Some(Language::C)
        } else if chars_eq_str(&e, "cpp") || chars_eq_str(&e, "cc") || chars_eq_str(&e, "cxx")
            || chars_eq_str(&e, "hpp") || chars_eq_str(&e, "hxx") {
            Some(Language::Cpp)
        } else if chars_eq_str(&e, "rb") || chars_eq_str(&e, "rake") || chars_eq_str(
            &e,
            "gemspec",
        ) {
            Some(Language::Ruby)
        } else if chars_eq_str(&e, "php") {
            Some(Language::Php)
        } else if chars_eq_str(&e, "cs") {
            Some(Language::CSharp)
        } else if chars_eq_str(&e, "html") || chars_eq_str(&e, "htm") || chars_eq_str(&e, "vue")
            || chars_eq_str(&e, "svelte") {
            Some(Language::Html)
        } else if chars_eq_str(&e, "css") || chars_eq_str(&e, "scss") {
            Some(Language::Css)
        } else {
            None
        }
    }

    /// Get language from a repository's primary language name (case-insensitive).
    pub fn from_name(name: &str) -> (r: Option<Language>)
        ensures
            r == language_for_name(lowercase(name@)),
    {
        let n = lowercase_chars(name);
        if chars_eq_str(&n, "python") {
            Some(Language::Python)
        } else if chars_eq_str(&n, "javascript") {
            Some(Language::JavaScript)
        } else if chars_eq_str(&n, "typescript") {
            Some(Language::TypeScript)
        } else if chars_eq_str(&n, "go") {
            Some(Language::Go)
        } else if chars_eq_str(&n, "rust") {
            Some(Language::Rust)
        } else if chars_eq_str(&n, "java") || chars_eq_str(&n, "kotlin") || chars_eq_str(
            &n,
            "swift",
        ) {
            Some(Language::Java)
        } else if chars_eq_str(&n, "c") {
            Some(Language::C)
        } else if chars_eq_str(&n, "c++") || chars_eq_str(&n, "cpp") {
            Some(Language::Cpp)
        } else if chars_eq_str(&n, "ruby") {
            Some(Language::Ruby)
        } else if chars_eq_str(&n, "php") {
            Some(Language::Php)
        } else if chars_eq_str(&n, "c#") || chars_eq_str(&n, "csharp") {
            Some(Language::CSharp)
        } else if chars_eq_str(&n, "html") {
            Some(Language::Html)
        } else if chars_eq_str(&n, "css") || chars_eq_str(&n, "scss") {
            Some(Language::Css)
        } else {
            None
        }
    }
}

// ── Syntax trees ─────────────────────────────────────────────────────────────

/// A node of a concrete syntax tree, as plain values: its grammar kind, its
/// source text, the rows (from zero) where it starts and ends, its children.
#[derive(Debug)]
pub struct SyntaxNode {
    pub kind: String,
    pub text: String,
    pub start_row: usize,
    pub end_row: usize,
    pub children: Vec<SyntaxNode>,
}

/// What tree-sitter gives for `source` in the grammar of `language`: the
/// message of the grammar-loading error, or the root of the parse (`None`
/// when the parser returns no tree).
pub uninterp spec fn parsed_tree(language: Language, source: Seq<char>) -> Result<
    Option<SyntaxNode>,
    String,
>;

/// A tree-sitter grammar, carried through opaque.
#[verifier::external_type_specification]
#[verifier::external_body]
pub struct ExTreeSitterLanguage(Grammar);

/// A tree-sitter syntax node, carried through opaque.
#[verifier::external_type_specification]
#[verifier::external_body]
pub struct ExTreeSitterNode<'tree>(tree_sitter::Node<'tree>);

/// The tree-sitter grammar of each language.
#[verifier::external_body]
fn grammar(language: Language) -> Grammar {
    Grammar::from(match language {
        Language::Python => tree_sitter_python::LANGUAGE,
        Language::JavaScript => tree_sitter_javascript::LANGUAGE,
        Language::TypeScript => tree_sitter_typescript::LANGUAGE_TYPESCRIPT,
        Language::Go => tree_sitter_go::LANGUAGE,
        Language::Rust => tree_sitter_rust::LANGUAGE,
        Language::Java => tree_sitter_java::LANGUAGE,
        Language::C => tree_sitter_c::LANGUAGE,
        Language::Cpp => tree_sitter_cpp::LANGUAGE,
        Language::Ruby => tree_sitter_ruby::LANGUAGE,
        Language::Php => tree_sitter_php::LANGUAGE_PHP,
        Language::CSharp => tree_sitter_c_sharp::LANGUAGE,
        Language::Html => tree_sitter_html::LANGUAGE,
        Language::Css => tree_sitter_css::LANGUAGE,
    })
}

/// A tree-sitter node and its subtree, copied into plain values.
#[verifier::external_body]
fn syntax_node(node: tree_sitter::Node, source: &str) -> SyntaxNode {
    let mut cursor = node.walk();
    SyntaxNode {
        kind: node.kind().to_string(),
        text: source[node.byte_range()].to_string(),
        start_row: node.start_position().row,
        end_row: node.end_position().row,
        children: node.children(&mut cursor).map(|c| syntax_node(c, source)).collect(),
    }
}

/// Loads the grammar of `language` into a `tree_sitter::Parser` and parses
/// `source` with `Parser::parse`. The result is named `parsed_tree`: the
/// grammar-loading error's message, or the copied root (`None` when the
/// parser returns no tree). Nothing is claimed about the shape of the tree.
#[verifier::external_body]
fn parse_source(language: Language, source: &str) -> (r: Result<Option<SyntaxNode>, String>)
    ensures
        r == parsed_tree(language, source@),
{
    let mut parser = tree_sitter::Parser::new();
    if let Err(e) = parser.set_language(&grammar(language)) {
        return Err(e.to_string());
    }
    Ok(parser.parse(source, None).map(|tree| syntax_node(tree.root_node(), source)))
}

// ── Which nodes are symbols ──────────────────────────────────────────────────

/// Child kinds that carry a symbol's name.
pub open spec fn is_name_kind(k: Seq<char>) -> bool {
    ||| k == "name"@
    ||| k == "identifier"@
    ||| k == "property_identifier"@
    ||| k == "type_identifier"@
    ||| k == "tag_name"@
    ||| k == "class_name"@
    ||| k == "constant"@
}

/// Text of the first child whose kind carries a name.
pub open spec fn first_name_child(cs: Seq<SyntaxNode>) -> Option<Seq<char>>
    decreases cs.len(),
{
    if cs.len() == 0 {
        None
    } else if is_name_kind(cs[0].kind@) {
        Some(cs[0].text@)
    } else {
        first_name_child(cs.drop_first())
    }
}

/// The first line of `t` (all of `t` when it has no line).
pub open spec fn first_line(t: Seq<char>) -> Seq<char> {
    if lines(t).len() > 0 {
        lines(t)[0]
    } else {
        t
    }
}

/// The name of a node: its first name-carrying child's text, else its own
/// first line when that is at most 80 bytes.
pub open spec fn node_name(n: SyntaxNode) -> Option<Seq<char>> {
    match first_name_child(n.children@) {
        Some(name) => Some(name),
        None => if utf8_len(first_line(n.text@)) <= 80 {
            Some(first_line(n.text@))
        } else {
            None
        },
    }
}

pub open spec fn all_upper_or_underscore(s: Seq<char>) -> bool {
    forall|i: int| 0 <= i < s.len() ==> is_uppercase(#[trigger] s[i]) || s[i] == '_'
}

/// The symbol kind of a node of grammar kind `k` named `name`, in `lang`.
pub open spec fn symbol_kind_for(lang: Language, k: Seq<char>, name: Option<Seq<char>>) -> Option<
    SymbolKind,
> {
    match lang {
        Language::Python => if k == "function_definition"@ {
            Some(SymbolKind::Function)
        } else if k == "class_definition"@ {
            Some(SymbolKind::Class)
        } else if k == "import_statement"@ || k == "import_from_statement"@ {
            Some(SymbolKind::Import)
        } else {
            None
        },
        Language::JavaScript | Language::TypeScript => if k == "function_declaration"@ || k
            == "arrow_function"@ || k == "generator_function_declaration"@ {
            Some(SymbolKind::Function)
        } else if k == "class_declaration"@ {
            Some(SymbolKind::Class)
        } else if k == "method_definition"@ {
            Some(SymbolKind::Method)
        } else if k == "interface_declaration"@ {
            Some(SymbolKind::Interface)
        } else if k == "enum_declaration"@ {
            Some(SymbolKind::Enum)
        } else if k == "import_statement"@ {
            Some(SymbolKind::Import)
        } else if k == "lexical_declaration"@ && name is Some && all_upper_or_underscore(
            name->0,
        ) {
            Some(SymbolKind::Constant)
        } else {
            None
        },
        Language::Go => if k == "function_declaration"@ {
            Some(SymbolKind::Function)
        } else if k == "method_declaration"@ {
            Some(SymbolKind::Method)
        } else if k == "type_declaration"@ {
            Some(SymbolKind::Struct)
        } else if k == "import_declaration"@ {
            Some(SymbolKind::Import)
        } else {
            None
        },
        Language::Rust => if k == "function_item"@ {
            Some(SymbolKind::Function)
        } else if k == "struct_item"@ {
            Some(SymbolKind::Struct)
        } else if k == "enum_item"@ {
            Some(SymbolKind::Enum)
        } else if k == "impl_item"@ {
            Some(SymbolKind::Class)
        } else if k == "trait_item"@ {
            Some(SymbolKind::Interface)
        } else if k == "use_declaration"@ {
            Some(SymbolKind::Import)
        } else if k == "const_item"@ || k == "static_item"@ {
            Some(SymbolKind::Constant)
        } else {
            None
        },
        Language::Java => if k == "method_declaration"@ || k == "constructor_declaration"@ {
            Some(SymbolKind::Method)
        } else if k == "class_declaration"@ {
            Some(SymbolKind::Class)
        } else if k == "interface_declaration"@ {
            Some(SymbolKind::Interface)
        } else if k == "enum_declaration"@ {
            Some(SymbolKind::Enum)
        } else if k == "import_declaration"@ {
            Some(SymbolKind::Import)
        } else if k == "field_declaration"@ {
            Some(SymbolKind::Constant)
        } else {
            None
        },
        Language::C | Language::Cpp => if k == "function_definition"@ || k
            == "function_declarator"@ {
            Some(SymbolKind::Function)
        } else if k == "struct_specifier"@ {
            Some(SymbolKind::Struct)
        } else if k == "enum_specifier"@ {
            Some(SymbolKind::Enum)
        } else if k == "class_specifier"@ {
            Some(SymbolKind::Class)
        } else if k == "preproc_include"@ {
            Some(SymbolKind::Import)
        } else {
            None
        },
        Language::Ruby => if k == "method"@ || k == "singleton_method"@ {
            Some(SymbolKind::Function)
        } else if k == "class"@ || k == "module"@ {
            Some(SymbolKind::Class)
        } else if k == "call"@ && name is Some && (name->0 == "require"@ || name->0
            == "include"@ || name->0 == "require_relative"@) {
            Some(SymbolKind::Import)
        } else {
            None
        },
        Language::Php => if k == "function_definition"@ {
            Some(SymbolKind::Function)
        } else if k == "method_declaration"@ {
            Some(SymbolKind::Method)
        } else if k == "class_declaration"@ {
            Some(SymbolKind::Class)
        } else if k == "interface_declaration"@ || k == "trait_declaration"@ {
            Some(SymbolKind::Interface)
        } else if k == "enum_declaration"@ {
            Some(SymbolKind::Enum)
        } else if k == "namespace_use_declaration"@ {
            Some(SymbolKind::Import)
        } else {
            None
        },
        Language::CSharp => if k == "method_declaration"@ || k == "constructor_declaration"@ {
            Some(SymbolKind::Method)
        } else if k == "class_declaration"@ || k == "record_declaration"@ {
            Some(SymbolKind::Class)
        } else if k == "interface_declaration"@ {
            Some(SymbolKind::Interface)
        } else if k == "enum_declaration"@ {
            Some(SymbolKind::Enum)
        } else if k == "struct_declaration"@ {
            Some(SymbolKind::Struct)
        } else if k == "using_directive"@ {
            Some(SymbolKind::Import)
        } else if k == "property_declaration"@ {
            Some(SymbolKind::Constant)
        } else {
            None
        },
        Language::Html => if k == "element"@ || k == "script_element"@ || k == "style_element"@ {
            Some(SymbolKind::Struct)
        } else {
            None
        },
        Language::Css => if k == "rule_set"@ {
            Some(SymbolKind::Struct)
        } else if k == "import_statement"@ {
            Some(SymbolKind::Import)
        } else if k == "media_statement"@ || k == "keyframes_statement"@ {
            Some(SymbolKind::Function)
        } else {
            None
        },
    }
}

/// A symbol as plain values: name, kind, file path, first and last line.
pub type SymbolView = (Seq<char>, SymbolKind, Seq<char>, int, int);

pub open spec fn symbol_view(s: Symbol) -> SymbolView {
    (s.name@, s.kind, s.file_path@, s.line_start as int, s.line_end as int)
}

pub open spec fn symbol_views(v: Seq<Symbol>) -> Seq<SymbolView> {
    v.map_values(|s: Symbol| symbol_view(s))
}

/// One-based line number of a zero-based row (wrapping at the top of `usize`).
pub open spec fn line_number(row: usize) -> int {
    if row == usize::MAX {
        0
    } else {
        row + 1
    }
}

/// The symbol that a node itself stands for, if any.
pub open spec fn own_symbol(n: SyntaxNode, lang: Language, path: Seq<char>) -> Seq<SymbolView> {
    match symbol_kind_for(lang, n.kind@, node_name(n)) {
        Some(k) => match node_name(n) {
            Some(name) => seq![(name, k, path, line_number(n.start_row), line_number(n.end_row))],
            None => seq![],
        },
        None => seq![],
    }
}

/// The symbols of a subtree, in pre-order: the node's own, then each child's.
pub open spec fn node_symbols(n: SyntaxNode, lang: Language, path: Seq<char>) -> Seq<SymbolView>
    decreases n,
{
    own_symbol(n, lang, path) + forest_symbols(n.children@, lang, path)
}

/// The symbols of a sequence of subtrees, one after the other.
pub open spec fn forest_symbols(ns: Seq<SyntaxNode>, lang: Language, path: Seq<char>) -> Seq<
    SymbolView,
>
    decreases ns,
{
    if ns.len() == 0 {
        seq![]
    } else {
        forest_symbols(ns.drop_last(), lang, path) + node_symbols(ns.last(), lang, path)
    }
}

fn name_kind_exec(k: &[char]) -> (b: bool)
    ensures
        b == is_name_kind(k@),
{
    chars_eq_str(k, "name") || chars_eq_str(k, "identifier") || chars_eq_str(
        k,
        "property_identifier",
    ) || chars_eq_str(k, "type_identifier") || chars_eq_str(k, "tag_name") || chars_eq_str(
        k,
        "class_name",
    ) || chars_eq_str(k, "constant")
}

fn node_name_exec(n: &SyntaxNode) -> (r: Option<Vec<char>>)
    ensures
        match r {
            Some(v) => node_name(*n) == Some(v@),
            None => node_name(*n) is None,
        },
{
    let ghost cs = n.children@;
    let mut k: usize = 0;
    proof {
        assert(cs.skip(0) =~= cs);
    }
    while k < n.children.len()
        invariant
            k <= cs.len(),
            cs == n.children@,
            first_name_child(cs) == first_name_child(cs.skip(k as int)),
        decreases cs.len() - k,
    {
        proof {
            assert(cs.skip(k as int).drop_first() =~= cs.skip(k + 1));
            assert(cs.skip(k as int)[0] == cs[k as int]);
        }
        let kind = chars_of(n.children[k].kind.as_str());
        if name_kind_exec(&kind) {
            return Some(chars_of(n.children[k].text.as_str()));
        }
        k = k + 1;
    }
    proof {
        assert(cs.skip(k as int) =~= seq![]);
    }
    let t = chars_of(n.text.as_str());
    let ls = lines_of(&t);
    let first = if ls.len() > 0 {
        copy_chars(ls[0].as_slice())
    } else {
        t
    };
    if byte_len_wide(&first) <= 80 {
        Some(first)
    } else {
        None
    }
}

fn all_upper_exec(s: &[char]) -> (b: bool)
    ensures
        b == all_upper_or_underscore(s@),
{
    let mut k: usize = 0;
    while k < s.len()
        invariant
            k <= s@.len(),
            forall|i: int| 0 <= i < k ==> is_uppercase(#[trigger] s@[i]) || s@[i] == '_',
        decreases s.len() - k,
    {
        if !(char_is_uppercase(s[k]) || s[k] == '_') {
            return false;
        }
        k = k + 1;
    }
    true
}

fn symbol_kind_exec(lang: Language, k: &[char], name: &Option<Vec<char>>) -> (r: Option<SymbolKind>)
    ensures
        r == symbol_kind_for(
            lang,
            k@,
            match name {
                Some(v) => Some(v@),
                None => None,
            },
        ),
{
    match lang {
        Language::Python => {
            if chars_eq_str(k, "function_definition") {
                Some(SymbolKind::Function)
            } else if chars_eq_str(k, "class_definition") {
                Some(SymbolKind::Class)
            } else if chars_eq_str(k, "import_statement") || chars_eq_str(
                k,
                "import_from_statement",
            ) {
                Some(SymbolKind::Import)
            } else {
                None
            }
        },
        Language::JavaScript | Language::TypeScript => {
            if chars_eq_str(k, "function_declaration") || chars_eq_str(k, "arrow_function")
                || chars_eq_str(k, "generator_function_declaration") {
                Some(SymbolKind::Function)
            } else if chars_eq_str(k, "class_declaration") {
                Some(SymbolKind::Class)
            } else if chars_eq_str(k, "method_definition") {
                Some(SymbolKind::Method)
            } else if chars_eq_str(k, "interface_declaration") {
                Some(SymbolKind::Interface)
            } else if chars_eq_str(k, "enum_declaration") {
                Some(SymbolKind::Enum)
            } else if chars_eq_str(k, "import_statement") {
                Some(SymbolKind::Import)
            } else if chars_eq_str(k, "lexical_declaration") {
                match name {
                    Some(v) => if all_upper_exec(v.as_slice()) {
                        Some(SymbolKind::Constant)
                    } else {
                        None
                    },
                    None => None,
                }
            } else {
                None
            }
        },
        Language::Go => {
            if chars_eq_str(k, "function_declaration") {
                Some(SymbolKind::Function)
            } else if chars_eq_str(k, "method_declaration") {
                Some(SymbolKind::Method)
            } else if chars_eq_str(k, "type_declaration") {
                Some(SymbolKind::Struct)
            } else if chars_eq_str(k, "import_declaration") {
                Some(SymbolKind::Import)
            } else {
                None
            }
        },
        Language::Rust => {
            if chars_eq_str(k, "function_item") {
                Some(SymbolKind::Function)
            } else if chars_eq_str(k, "struct_item") {
                Some(SymbolKind::Struct)
            } else if chars_eq_str(k, "enum_item") {
                Some(SymbolKind::Enum)
            } else if chars_eq_str(k, "impl_item") {
                Some(SymbolKind::Class)
            } else if chars_eq_str(k, "trait_item") {
                Some(SymbolKind::Interface)
            } else if chars_eq_str(k, "use_declaration") {
                Some(SymbolKind::Import)
            } else if chars_eq_str(k, "const_item") || chars_eq_str(k, "static_item") {
                Some(SymbolKind::Constant)
            } else {
                None
            }
        },
        Language::Java => {
            if chars_eq_str(k, "method_declaration") || chars_eq_str(k, "constructor_declaration") {
                Some(SymbolKind::Method)
            } else if chars_eq_str(k, "class_declaration") {
                Some(SymbolKind::Class)
            } else if chars_eq_str(k, "interface_declaration") {
                Some(SymbolKind::Interface)
            } else if chars_eq_str(k, "enum_declaration") {
                Some(SymbolKind::Enum)
            } else if chars_eq_str(k, "import_declaration") {
                Some(SymbolKind::Import)
            } else if chars_eq_str(k, "field_declaration") {
                Some(SymbolKind::Constant)
            } else {
                None
            }
        },
        Language::C | Language::Cpp => {
            if chars_eq_str(k, "function_definition") || chars_eq_str(k, "function_declarator") {
                Some(SymbolKind::Function)
            } else if chars_eq_str(k, "struct_specifier") {
                Some(SymbolKind::Struct)
            } else if chars_eq_str(k, "enum_specifier") {
                Some(SymbolKind::Enum)
            } else if chars_eq_str(k, "class_specifier") {
                Some(SymbolKind::Class)
            } else if chars_eq_str(k, "preproc_include") {
                Some(SymbolKind::Import)
            } else {
                None
            }
        },
        Language::Ruby => {
            if chars_eq_str(k, "method") || chars_eq_str(k, "singleton_method") {
                Some(SymbolKind::Function)
            } else if chars_eq_str(k, "class") || chars_eq_str(k, "module") {
                Some(SymbolKind::Class)
            } else if chars_eq_str(k, "call") {
                match name {
                    Some(v) => if chars_eq_str(v.as_slice(), "require") || chars_eq_str(
                        v.as_slice(),
                        "include",
                    ) || chars_eq_str(v.as_slice(), "require_relative") {
                        Some(SymbolKind::Import)
                    } else {
                        None
                    },
                    None => None,
                }
            } else {
                None
            }
        },
        Language::Php => {
            if chars_eq_str(k, "function_definition") {
                Some(SymbolKind::Function)
            } else if chars_eq_str(k, "method_declaration") {
                Some(SymbolKind::Method)
            } else if chars_eq_str(k, "class_declaration") {
                Some(SymbolKind::Class)
            } else if chars_eq_str(k, "interface_declaration") || chars_eq_str(
                k,
                "trait_declaration",
            ) {
                Some(SymbolKind::Interface)
            } else if chars_eq_str(k, "enum_declaration") {
                Some(SymbolKind::Enum)
            } else if chars_eq_str(k, "namespace_use_declaration") {
                Some(SymbolKind::Import)
            } else {
                None
            }
        },
        Language::CSharp => {
            if chars_eq_str(k, "method_declaration") || chars_eq_str(k, "constructor_declaration") {
                Some(SymbolKind::Method)
            } else if chars_eq_str(k, "class_declaration") || chars_eq_str(
                k,
                "record_declaration",
            ) {
                Some(SymbolKind::Class)
            } else if chars_eq_str(k, "interface_declaration") {
                Some(SymbolKind::Interface)
            } else if chars_eq_str(k, "enum_declaration") {
                Some(SymbolKind::Enum)
            } else if chars_eq_str(k, "struct_declaration") {
                Some(SymbolKind::Struct)
            } else if chars_eq_str(k, "using_directive") {
                Some(SymbolKind::Import)
            } else if chars_eq_str(k, "property_declaration") {
                Some(SymbolKind::Constant)
            } else {
                None
            }
        },
        Language::Html => {
            if chars_eq_str(k, "element") || chars_eq_str(k, "script_element") || chars_eq_str(
                k,
                "style_element",
            ) {
                Some(SymbolKind::Struct)
            } else {
                None
            }
        },
        Language::Css => {
            if chars_eq_str(k, "rule_set") {
                Some(SymbolKind::Struct)
            } else if chars_eq_str(k, "import_statement") {
                Some(SymbolKind::Import)
            } else if chars_eq_str(k, "media_statement") || chars_eq_str(k, "keyframes_statement") {
                Some(SymbolKind::Function)
            } else {
                None
            }
        },
    }
}

fn line_number_exec(row: usize) -> (r: usize)
    ensures
        r == line_number(row),
{
    if row == usize::MAX {
        0
    } else {
        row + 1
    }
}

fn walk(node: &SyntaxNode, lang: Language, path: &str, out: &mut Vec<Symbol>)
    ensures
        symbol_views(final(out)@) == symbol_views(old(out)@) + node_symbols(*node, lang, path@),
    decreases node,
{
    let ghost before = symbol_views(out@);
    let kind = chars_of(node.kind.as_str());
    let name = node_name_exec(node);
    let sk = symbol_kind_exec(lang, &kind, &name);
    match sk {
        Some(k) => match &name {
            Some(v) => {
                let s = Symbol {
                    name: string_from_chars(v.as_slice()),
                    kind: k,
                    file_path: String::from_str(path),
                    line_start: line_number_exec(node.start_row),
                    line_end: line_number_exec(node.end_row),
                };
                proof {
                    assert(symbol_views(out@.push(s)) =~= symbol_views(out@) + seq![symbol_view(s)]);
                }
                out.push(s);
            },
            None => {},
        },
        None => {},
    }
    proof {
        assert(symbol_views(out@) =~= before + own_symbol(*node, lang, path@));
    }
    let ghost mid = symbol_views(out@);
    let ghost cs = node.children@;
    let mut i: usize = 0;
    proof {
        assert(cs.take(0) =~= seq![]);
        assert(mid + seq![] =~= mid);
    }
    while i < node.children.len()
        invariant
            i <= cs.len(),
            cs == node.children@,
            symbol_views(out@) == mid + forest_symbols(cs.take(i as int), lang, path@),
        decreases cs.len() - i,
    {
        proof {
            assert(cs.take(i + 1).drop_last() =~= cs.take(i as int));
            assert(cs.take(i + 1).last() == cs[i as int]);
            assert(decreases_to!(*node => node.children));
        }
        walk(&node.children[i], lang, path, out);
        i = i + 1;
    }
    proof {
        assert(cs.take(i as int) =~= cs);
    }
}

/// Syntax-tree intelligence engine.
pub struct AstIntel;

/// Error raised when a source file cannot be parsed.
#[derive(Debug, Clone)]
pub enum AstError {
    AstParse(String),
}

/// What symbol extraction gives for `source` at `path`: no symbols for an
/// extension without a parser; an error when the grammar cannot be loaded or
/// the parser returns no tree; else the symbols of the tree.
pub open spec fn extracted_symbols(source: Seq<char>, path: Seq<char>) -> Result<
    Seq<SymbolView>,
    Seq<char>,
> {
    match language_for_ext(lowercase(extension(path))) {
        None => Ok(seq![]),
        Some(lang) => match parsed_tree(lang, source) {
            Err(msg) => Err("Failed to set language: "@ + msg@),
            Ok(None) => Err("Parse failed"@),
            Ok(Some(root)) => Ok(node_symbols(root, lang, path)),
        },
    }
}

/// Names of the import symbols, in order.
pub open spec fn import_names(syms: Seq<SymbolView>) -> Seq<Seq<char>>
    decreases syms.len(),
{
    if syms.len() == 0 {
        seq![]
    } else if syms.last().1 == SymbolKind::Import {
        import_names(syms.drop_last()).push(syms.last().0)
    } else {
        import_names(syms.drop_last())
    }
}

/// `  Kind name (Lstart-end)`.
pub open spec fn summary_line(s: SymbolView) -> Seq<char> {
    "  "@ + symbol_kind_name(s.1) + " "@ + s.0 + " (L"@ + decimal(s.3 as nat) + "-"@ + decimal(
        s.4 as nat,
    ) + ")"@
}

/// One line per symbol for the first fifty, then `  ... +N more`.
pub open spec fn symbols_summary_text(syms: Seq<SymbolView>) -> Seq<char> {
    if syms.len() == 0 {
        "No symbols extracted."@
    } else {
        let n = if syms.len() < 50 {
            syms.len() as int
        } else {
            50
        };
        let shown = Seq::new(n as nat, |i: int| summary_line(syms[i]));
        if syms.len() > 50 {
            join(shown.push("  ... +"@ + decimal((syms.len() - 50) as nat) + " more"@), "\n"@)
        } else {
            join(shown, "\n"@)
        }
    }
}

pub open spec fn string_views(v: Seq<String>) -> Seq<Seq<char>> {
    v.map_values(|s: String| s@)
}

impl AstIntel {
    /// The symbols of a parsed tree of `lang` source from `file_path`, in pre-order.
    pub fn symbols_from_tree(root: &SyntaxNode, lang: Language, file_path: &str) -> (r: Vec<Symbol>)
        ensures
            symbol_views(r@) == node_symbols(*root, lang, file_path@),
    {
        let mut out: Vec<Symbol> = Vec::new();
        proof {
            assert(symbol_views(out@) =~= seq![]);
        }
        walk(root, lang, file_path, &mut out);
        proof {
            assert(seq![] + node_symbols(*root, lang, file_path@) =~= node_symbols(
                *root,
                lang,
                file_path@,
            ));
        }
        out
    }

    /// Extract symbols (functions, classes, methods, etc.) from source code.
    pub fn extract_symbols(source: &str, file_path: &str) -> (r: Result<Vec<Symbol>, AstError>)
        ensures
            match r {
                Ok(v) => extracted_symbols(source@, file_path@) == Ok::<Seq<SymbolView>, Seq<char>>(
                    symbol_views(v@),
                ),
                Err(AstError::AstParse(m)) => extracted_symbols(source@, file_path@) == Err::<
                    Seq<SymbolView>,
                    Seq<char>,
                >(m@),
            },
    {
        let ext = extension_of(file_path);
        let ext_text = string_from_chars(&ext);
        let lang = match Language::from_extension(ext_text.as_str()) {
            Some(l) => l,
            None => {
                let v: Vec<Symbol> = Vec::new();
                proof {
                    assert(symbol_views(v@) =~= seq![]);
                }
                return Ok(v);
            },
        };
        match parse_source(lang, source) {
            Err(msg) => {
                let mut m = chars_of("Failed to set language: ");
                append_str(&mut m, msg.as_str());
                Err(AstError::AstParse(string_from_chars(&m)))
            },
            Ok(None) => Err(AstError::AstParse(String::from_str("Parse failed"))),
            Ok(Some(root)) => Ok(Self::symbols_from_tree(&root, lang, file_path)),
        }
    }

    /// Names of the imports found in a file (empty when it cannot be parsed).
    pub fn count_imports(source: &str, file_path: &str) -> (r: Vec<String>)
        ensures
            string_views(r@) == match extracted_symbols(source@, file_path@) {
                Ok(syms) => import_names(syms),
                Err(_) => seq![],
            },
    {
        match Self::extract_symbols(source, file_path) {
            Ok(symbols) => {
                let ghost sv = symbol_views(symbols@);
                let mut out: Vec<String> = Vec::new();
                let mut k: usize = 0;
                while k < symbols.len()
                    invariant
                        k <= symbols@.len(),
                        sv == symbol_views(symbols@),
                        string_views(out@) == import_names(sv.take(k as int)),
                    decreases symbols.len() - k,
                {
                    proof {
                        assert(sv.take(k + 1).drop_last() =~= sv.take(k as int));
                        assert(sv.take(k + 1).last() == symbol_view(symbols@[k as int]));
                    }
                    if symbols[k].kind == SymbolKind::Import {
                        let n = symbols[k].name.clone();
                        proof {
                            assert(string_views(out@.push(n)) =~= string_views(out@).push(n@));
                        }
                        out.push(n);
                    }
                    k = k + 1;
                }
                proof {
                    assert(sv.take(k as int) =~= sv);
                }
                out
            },
            Err(_) => {
                let out: Vec<String> = Vec::new();
                proof {
                    assert(string_views(out@) =~= seq![]);
                }
                out
            },
        }
    }

    /// A compact listing of symbols for prompts.
    pub fn symbols_summary(symbols: &[Symbol]) -> (r: String)
        ensures
            r@ == symbols_summary_text(symbol_views(symbols@)),
    {
        let ghost sv = symbol_views(symbols@);
        if symbols.len() == 0 {
            return String::from_str("No symbols extracted.");
        }
        let n: usize = if symbols.len() < 50 {
            symbols.len()
        } else {
            50
        };
        let mut parts: Vec<Vec<char>> = Vec::new();
        let mut k: usize = 0;
        while k < n
            invariant
                n <= symbols@.len(),
                n == if sv.len() < 50 {
                    sv.len() as int
                } else {
                    50
                },
                sv == symbol_views(symbols@),
                k <= n,
                parts@.len() == k,
                forall|i: int| 0 <= i < k ==> (#[trigger] parts@[i])@ == summary_line(sv[i]),
            decreases n - k,
        {
            let s = &symbols[k];
            let mut line = chars_of("  ");
            append_str(&mut line, s.kind.name());
            append_str(&mut line, " ");
            append_str(&mut line, s.name.as_str());
            append_str(&mut line, " (L");
            let a = decimal_usize(s.line_start);
            append_chars(&mut line, &a);
            append_str(&mut line, "-");
            let b = decimal_usize(s.line_end);
            append_chars(&mut line, &b);
            append_str(&mut line, ")");
            parts.push(line);
            k = k + 1;
        }
        let ghost shown = Seq::new(n as nat, |i: int| summary_line(sv[i]));
        proof {
            assert(views(parts@) =~= shown);
        }
        if symbols.len() > 50 {
            let mut more = chars_of("  ... +");
            let d = decimal_usize(symbols.len() - 50);
            append_chars(&mut more, &d);
            append_str(&mut more, " more");
            parts.push(more);
            proof {
                assert(views(parts@) =~= shown.push(
                    "  ... +"@ + decimal((sv.len() - 50) as nat) + " more"@,
                ));
            }
        }
        let sep = chars_of("\n");
        let joined = join_chars(&parts, &sep);
        string_from_chars(&joined)
    }
}

} // verus!
