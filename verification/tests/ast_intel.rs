use contribai::analysis::ast_intel::{AstError, AstIntel, Language, SyntaxNode};
use contribai::common::models::{Symbol, SymbolKind};

#[test]
fn test_language_from_extension() {
    assert_eq!(Language::from_extension("py"), Some(Language::Python));
    assert_eq!(Language::from_extension("js"), Some(Language::JavaScript));
    assert_eq!(Language::from_extension("ts"), Some(Language::TypeScript));
    assert_eq!(Language::from_extension("go"), Some(Language::Go));
    assert_eq!(Language::from_extension("rs"), Some(Language::Rust));
    assert_eq!(Language::from_extension("java"), Some(Language::Java));
    assert_eq!(Language::from_extension("c"), Some(Language::C));
    assert_eq!(Language::from_extension("cpp"), Some(Language::Cpp));
    assert_eq!(Language::from_extension("rb"), Some(Language::Ruby));
    assert_eq!(Language::from_extension("php"), Some(Language::Php));
    assert_eq!(Language::from_extension("cs"), Some(Language::CSharp));
    assert_eq!(Language::from_extension("html"), Some(Language::Html));
    assert_eq!(Language::from_extension("css"), Some(Language::Css));
    assert_eq!(Language::from_extension("kt"), Some(Language::Java));
    assert_eq!(Language::from_extension("swift"), Some(Language::Java));
    assert_eq!(Language::from_extension("vue"), Some(Language::Html));
    assert_eq!(Language::from_extension("md"), None);
}

#[test]
fn test_extract_python_symbols() {
    let source = r#"
import os
from pathlib import Path

class MyClass:
    def __init__(self):
        pass

    def method(self):
        pass

def standalone_func():
    return 42

CONSTANT = "hello"
"#;
    let symbols = AstIntel::extract_symbols(source, "test.py").unwrap();

    let funcs: Vec<_> = symbols.iter().filter(|s| s.kind == SymbolKind::Function).collect();
    let classes: Vec<_> = symbols.iter().filter(|s| s.kind == SymbolKind::Class).collect();
    let imports: Vec<_> = symbols.iter().filter(|s| s.kind == SymbolKind::Import).collect();

    assert!(funcs.len() >= 1, "Should find standalone_func");
    assert_eq!(classes.len(), 1, "Should find MyClass");
    assert!(imports.len() >= 1, "Should find imports");
}

#[test]
fn test_extract_rust_symbols() {
    let source = r#"
use std::collections::HashMap;

const MAX_SIZE: usize = 100;

struct Config {
    name: String,
}

enum Status {
    Active,
    Inactive,
}

fn process(config: &Config) -> Status {
    Status::Active
}

impl Config {
    fn new(name: &str) -> Self {
        Self { name: name.to_string() }
    }
}
"#;
    let symbols = AstIntel::extract_symbols(source, "test.rs").unwrap();

    let has_struct = symbols.iter().any(|s| s.kind == SymbolKind::Struct && s.name == "Config");
    let has_enum = symbols.iter().any(|s| s.kind == SymbolKind::Enum && s.name == "Status");
    let has_func = symbols.iter().any(|s| s.kind == SymbolKind::Function && s.name == "process");
    let has_import = symbols.iter().any(|s| s.kind == SymbolKind::Import);

    assert!(has_struct, "Should find Config struct");
    assert!(has_enum, "Should find Status enum");
    assert!(has_func, "Should find process function");
    assert!(has_import, "Should find use declaration");
}

#[test]
fn test_extract_javascript_symbols() {
    let source = r#"
import { useState } from 'react';

class Component {
    render() { return null; }
}

function handleClick(event) {
    console.log(event);
}
"#;
    let symbols = AstIntel::extract_symbols(source, "test.js").unwrap();
    assert!(!symbols.is_empty(), "Should extract JS symbols");
}

#[test]
fn test_extract_ruby_symbols() {
    let source = r#"
require 'json'

module MyModule
  class MyClass
    def initialize(name)
      @name = name
    end

    def greet
      puts "Hello, #{@name}"
    end
  end
end
"#;
    let symbols = AstIntel::extract_symbols(source, "test.rb").unwrap();
    assert!(!symbols.is_empty(), "Should extract Ruby symbols");
}

#[test]
fn test_extract_php_symbols() {
    let source = r#"<?php
namespace App\Controllers;

use App\Models\User;

class UserController {
    public function index() {
        return User::all();
    }
}
"#;
    let symbols = AstIntel::extract_symbols(source, "test.php").unwrap();
    assert!(!symbols.is_empty(), "Should extract PHP symbols");
}

#[test]
fn test_extract_csharp_symbols() {
    let source = r#"
using System;
using System.Collections.Generic;

namespace MyApp {
    public class Program {
        public static void Main(string[] args) {
            Console.WriteLine("Hello");
        }
    }
}
"#;
    let symbols = AstIntel::extract_symbols(source, "test.cs").unwrap();
    assert!(!symbols.is_empty(), "Should extract C# symbols");
}

#[test]
fn test_unknown_extension() {
    let symbols = AstIntel::extract_symbols("hello", "test.unknown").unwrap();
    assert!(symbols.is_empty(), "Unknown extension should return empty");
}

#[test]
fn test_symbols_summary() {
    let symbols = vec![
        Symbol {
            name: "main".into(),
            kind: SymbolKind::Function,
            file_path: "main.rs".into(),
            line_start: 1,
            line_end: 10,
        },
        Symbol {
            name: "Config".into(),
            kind: SymbolKind::Struct,
            file_path: "config.rs".into(),
            line_start: 5,
            line_end: 20,
        },
    ];
    let summary = AstIntel::symbols_summary(&symbols);
    assert!(summary.contains("main"));
    assert!(summary.contains("Config"));
}

// ── Further cases ────────────────────────────────────────────────────────────

fn node(kind: &str, text: &str, start: usize, end: usize, children: Vec<SyntaxNode>) -> SyntaxNode {
    SyntaxNode { kind: kind.to_string(), text: text.to_string(), start_row: start, end_row: end, children }
}

#[test]
fn symbols_summary_exact_text() {
    let symbols = vec![Symbol {
        name: "main".into(),
        kind: SymbolKind::Function,
        file_path: "main.rs".into(),
        line_start: 1,
        line_end: 10,
    }];
    assert_eq!(AstIntel::symbols_summary(&symbols), "  Function main (L1-10)");
    assert_eq!(AstIntel::symbols_summary(&[]), "No symbols extracted.");
}

#[test]
fn symbols_summary_caps_at_fifty() {
    let symbols: Vec<Symbol> = (0..53)
        .map(|i| Symbol {
            name: format!("f{}", i),
            kind: SymbolKind::Function,
            file_path: String::new(),
            line_start: i,
            line_end: i,
        })
        .collect();
    let summary = AstIntel::symbols_summary(&symbols);
    assert_eq!(summary.lines().count(), 51);
    assert!(summary.ends_with("\n  ... +3 more"));
}

#[test]
fn symbols_from_tree_reads_names_kinds_and_lines() {
    let ident = node("identifier", "process", 4, 4, vec![]);
    let func = node("function_item", "fn process() {}", 4, 6, vec![ident]);
    let use_decl = node("use_declaration", "use std::fmt;", 0, 0, vec![]);
    let root = node("source_file", "...", 0, 7, vec![use_decl, func]);
    let symbols = AstIntel::symbols_from_tree(&root, Language::Rust, "lib.rs");
    assert_eq!(symbols.len(), 2);
    assert_eq!(symbols[0].kind, SymbolKind::Import);
    assert_eq!(symbols[0].name, "use std::fmt;");
    assert_eq!((symbols[0].line_start, symbols[0].line_end), (1, 1));
    assert_eq!(symbols[1].kind, SymbolKind::Function);
    assert_eq!(symbols[1].name, "process");
    assert_eq!((symbols[1].line_start, symbols[1].line_end), (5, 7));
    assert_eq!(symbols[1].file_path, "lib.rs");
}

#[test]
fn symbols_from_tree_skips_long_unnamed_nodes() {
    let long = "x".repeat(81);
    let root = node("function_item", &long, 0, 0, vec![]);
    assert!(AstIntel::symbols_from_tree(&root, Language::Rust, "a.rs").is_empty());
}

#[test]
fn javascript_constants_need_uppercase_names() {
    let upper = node("lexical_declaration", "const A = 1;", 0, 0, vec![node("identifier", "MAX_SIZE", 0, 0, vec![])]);
    let lower = node("lexical_declaration", "const a = 1;", 1, 1, vec![node("identifier", "size", 1, 1, vec![])]);
    let root = node("program", "", 0, 1, vec![upper, lower]);
    let symbols = AstIntel::symbols_from_tree(&root, Language::JavaScript, "a.js");
    assert_eq!(symbols.len(), 1);
    assert_eq!(symbols[0].kind, SymbolKind::Constant);
    assert_eq!(symbols[0].name, "MAX_SIZE");
}

#[test]
fn count_imports_lists_import_names() {
    let source = "use std::fmt;\nfn main() {}\n";
    let imports = AstIntel::count_imports(source, "main.rs");
    assert_eq!(imports, vec!["use std::fmt;".to_string()]);
    assert!(AstIntel::count_imports("x", "notes.txt").is_empty());
}

#[test]
fn language_from_name_is_case_insensitive() {
    assert_eq!(Language::from_name("Python"), Some(Language::Python));
    assert_eq!(Language::from_name("C++"), Some(Language::Cpp));
    assert_eq!(Language::from_name("C#"), Some(Language::CSharp));
    assert_eq!(Language::from_name("Kotlin"), Some(Language::Java));
    assert_eq!(Language::from_name("Haskell"), None);
    assert_eq!(Language::from_extension("PY"), Some(Language::Python));
}

#[test]
fn extract_symbols_error_type_is_usable() {
    let e = AstError::AstParse("Parse failed".to_string());
    match e {
        AstError::AstParse(m) => assert_eq!(m, "Parse failed"),
    }
}
