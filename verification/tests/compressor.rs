use contribai::analysis::compressor::ContextCompressor;
use contribai::common::models::{Symbol, SymbolKind};

#[test]
fn test_compress_text_small() {
    let c = ContextCompressor::new(100);
    let text = "hello world";
    assert_eq!(c.compress_text(text, None), text);
}

#[test]
fn test_compress_text_large() {
    let c = ContextCompressor::new(50); // 200 chars max
    let text = "a".repeat(1000);
    let result = c.compress_text(&text, None);
    assert!(result.len() < 500, "Expected < 500, got {}", result.len());
    assert!(result.contains("omitted"));
}

#[test]
fn test_compress_files_fits() {
    let c = ContextCompressor::new(10000);
    let files = vec![("a.py", "print('hello')"), ("b.py", "x = 1")];
    let result = c.compress_files(&files, 1000);
    assert_eq!(result.len(), 2);
}

#[test]
fn test_truncate_middle() {
    let text = "a".repeat(500);
    let result = ContextCompressor::truncate_middle(&text, 200);
    assert!(result.contains("omitted"), "Should contain omitted marker");
    assert!(result.len() < 500, "Expected < 500, got {}", result.len());
}

#[test]
fn test_extract_signatures_python_keeps_defs() {
    let c = ContextCompressor::default();
    let src = r#"import os
from typing import List

MAX_RETRIES = 3

class Foo:
    """Docstring — should be stripped."""

    def bar(self, x: int) -> str:
        return str(x)

    async def baz(self) -> None:
        pass

def standalone(y: float) -> float:
    # body comment — should not appear
    return y * 2.0
"#;
    let result = c.extract_signatures(src, "python");

    assert!(result.contains("import os"), "missing import os");
    assert!(result.contains("from typing import List"), "missing from-import");
    assert!(result.contains("MAX_RETRIES = 3"), "missing constant");
    assert!(result.contains("class Foo:"), "missing class Foo");
    assert!(result.contains("def bar(self, x: int) -> str:"), "missing def bar");
    assert!(result.contains("async def baz(self) -> None:"), "missing async def baz");
    assert!(result.contains("def standalone(y: float) -> float:"), "missing standalone");
    assert!(!result.contains("return str(x)"), "body should be stripped");
    assert!(!result.contains("body comment"), "comment should be stripped");
    assert!(!result.contains("Docstring"), "docstring should be stripped");
}

#[test]
fn test_extract_signatures_python_short_file_unchanged() {
    let c = ContextCompressor::default();
    let src = "x = 1\ny = 2\n";
    let result = c.extract_signatures(src, "python");
    assert!(result.len() <= src.len());
}

#[test]
fn test_extract_signatures_js_keeps_exports_and_classes() {
    let c = ContextCompressor::default();
    let src = r#"import { foo } from './foo';

export function greet(name: string): string {
    return `Hello, ${name}`;
}

export class MyService {
    private db: Database;

    constructor(db: Database) {
        this.db = db;
    }
}

export const handler = async (req: Request) => {
    // implementation
};

export type UserId = string;
export interface Config {
    debug: boolean;
}
"#;
    let result = c.extract_signatures(src, "typescript");

    assert!(result.contains("export function greet"), "missing greet fn");
    assert!(result.contains("export class MyService"), "missing class");
    assert!(result.contains("export const handler"), "missing const handler");
    assert!(result.contains("export type UserId"), "missing type alias");
    assert!(result.contains("export interface Config"), "missing interface");
    assert!(!result.contains("Hello,"), "body should be stripped");
    assert!(!result.contains("implementation"), "comment should be stripped");
}

#[test]
fn test_extract_signatures_rust_keeps_pub_items() {
    let c = ContextCompressor::default();
    let src = r#"use std::collections::HashMap;
use crate::core::error::Result;

pub struct Analyzer {
    config: Config,
}

pub enum Status {
    Active,
    Inactive,
}

pub trait Processor: Send + Sync {
    fn process(&self, input: &str) -> Result<String>;
}

impl Analyzer {
    pub fn new(config: Config) -> Self {
        Self { config }
    }

    pub async fn run(&self) -> Result<()> {
        // do work
        Ok(())
    }

    fn private_helper(&self) {}
}
"#;
    let result = c.extract_signatures(src, "rust");

    assert!(result.contains("use std::collections::HashMap"), "missing use");
    assert!(result.contains("pub struct Analyzer"), "missing struct");
    assert!(result.contains("pub enum Status"), "missing enum");
    assert!(result.contains("pub trait Processor"), "missing trait");
    assert!(result.contains("pub fn new"), "missing pub fn new");
    assert!(result.contains("pub async fn run"), "missing pub async fn run");
    assert!(!result.contains("do work"), "body comment should be stripped");
    assert!(!result.contains("Self { config }"), "impl body should be stripped");
}

#[test]
fn test_extract_signatures_unknown_language_short_file() {
    let c = ContextCompressor::default();
    let src = "line1\nline2\n";
    let result = c.extract_signatures(src, "cobol");
    assert_eq!(result, src);
}

#[test]
fn test_detect_language_mapping() {
    assert_eq!(ContextCompressor::detect_language("foo.rs"), "rust");
    assert_eq!(ContextCompressor::detect_language("bar.py"), "python");
    assert_eq!(ContextCompressor::detect_language("baz.ts"), "typescript");
    assert_eq!(ContextCompressor::detect_language("qux.js"), "javascript");
    assert_eq!(ContextCompressor::detect_language("main.go"), "go");
    assert_eq!(ContextCompressor::detect_language("App.java"), "java");
    assert_eq!(ContextCompressor::detect_language("unknown.xyz"), "unknown");
}

#[test]
fn test_compress_files_with_signatures_3tier() {
    let c = ContextCompressor::new(100);

    let big_py = format!(
        "import os\n\ndef foo():\n{}\n\ndef bar():\n{}\n",
        "    x = 1\n".repeat(50),
        "    y = 2\n".repeat(50),
    );
    let files = vec![("big.py", big_py.as_str()), ("tiny.py", "x = 1")];

    let result = c.compress_files_with_signatures(&files, 50);
    let tiny = result.iter().find(|(p, _)| p == "tiny.py");
    assert!(tiny.is_some(), "tiny.py should be in result");
    assert_eq!(tiny.unwrap().1, "x = 1");

    let big = result.iter().find(|(p, _)| p == "big.py");
    assert!(big.is_some(), "big.py should be in result (signatures or truncated)");
    let big_content = &big.unwrap().1;
    assert!(
        big_content.contains("def foo")
            || big_content.contains("def bar")
            || big_content.contains("omitted"),
        "Expected signatures or truncation marker, got: {}",
        &big_content[..big_content.len().min(200)]
    );
}

// ── Exact outputs ────────────────────────────────────────────────────────────

#[test]
fn truncate_middle_exact_layout() {
    let text = "a".repeat(500);
    let result = ContextCompressor::truncate_middle(&text, 200);
    let expected = format!(
        "{}\n\n... (360 chars / ~90 tokens omitted) ...\n\n{}",
        "a".repeat(120),
        "a".repeat(20)
    );
    assert_eq!(result, expected);
}

#[test]
fn truncate_middle_without_room_for_tail_keeps_prefix() {
    let text = "abcdefghij".repeat(10);
    let result = ContextCompressor::truncate_middle(&text, 50);
    assert_eq!(result, text[..50].to_string());
}

#[test]
fn truncate_middle_keeps_fitting_text() {
    assert_eq!(ContextCompressor::truncate_middle("short", 5), "short");
}

#[test]
fn compress_text_uses_explicit_budget() {
    let c = ContextCompressor::new(1000);
    let text = "b".repeat(300);
    let result = c.compress_text(&text, Some(50));
    assert_eq!(result, ContextCompressor::truncate_middle(&text, 200));
}

#[test]
fn compress_files_orders_smallest_first_and_stops_when_budget_is_spent() {
    let c = ContextCompressor::new(10); // 40 bytes in all
    let files = vec![("big", "0123456789012345678901234567890123456789xx"), ("small", "abc"), ("mid", "0123456789")];
    let result = c.compress_files(&files, 100);
    assert_eq!(result[0], ("small".to_string(), "abc".to_string()));
    assert_eq!(result[1], ("mid".to_string(), "0123456789".to_string()));
    // 27 bytes remain for the last file, which is cut without a tail
    assert_eq!(result[2].0, "big");
    assert_eq!(result[2].1, "012345678901234567890123456");
    assert_eq!(result.len(), 3);
}

#[test]
fn compress_files_keeps_order_of_equal_sizes() {
    let c = ContextCompressor::new(1000);
    let files = vec![("one", "aaa"), ("two", "bbb"), ("three", "cc")];
    let result = c.compress_files(&files, 100);
    let paths: Vec<&str> = result.iter().map(|(p, _)| p.as_str()).collect();
    assert_eq!(paths, vec!["three", "one", "two"]);
}

#[test]
fn extract_signatures_go_and_java() {
    let c = ContextCompressor::default();
    let go = "package main\n\nimport \"fmt\"\n\nfunc main() {\n    fmt.Println(1)\n}\n";
    assert_eq!(c.extract_signatures(go, "go"), "package main\nimport \"fmt\"\nfunc main() {");
    let java = "package x;\nimport y;\npublic class A {\n  int z = 1;\n}\n";
    assert_eq!(c.extract_signatures(java, "java"), "package x;\nimport y;\npublic class A {");
}

#[test]
fn extract_signatures_unknown_language_long_file() {
    let c = ContextCompressor::default();
    let src: String = (0..80).map(|i| format!("l{}\n", i)).collect();
    let result = c.extract_signatures(&src, "cobol");
    let head: Vec<String> = (0..50).map(|i| format!("l{}", i)).collect();
    let tail: Vec<String> = (60..80).map(|i| format!("l{}", i)).collect();
    let expected = format!("{}\n... (10 lines omitted) ...\n{}", head.join("\n"), tail.join("\n"));
    assert_eq!(result, expected);
}

#[test]
fn detect_language_of_path_without_dot() {
    assert_eq!(ContextCompressor::detect_language("Makefile"), "unknown");
    assert_eq!(ContextCompressor::detect_language("a.b/c.tsx"), "typescript");
}

fn sym(start: usize, end: usize) -> Symbol {
    Symbol {
        name: String::new(),
        kind: SymbolKind::Function,
        file_path: String::new(),
        line_start: start,
        line_end: end,
    }
}

#[test]
fn semantic_chunk_packs_whole_symbols_with_header() {
    let content = "use a;\nfn f() {\n}\nfn g() {\n}\n";
    let symbols = vec![sym(4, 5), sym(2, 3)];
    let chunks = ContextCompressor::semantic_chunk(content, &symbols, 100);
    assert_eq!(chunks, vec!["use a;\nfn f() {\n}\nfn g() {\n}".to_string()]);
}

#[test]
fn semantic_chunk_splits_when_budget_is_reached() {
    let content = "use a;\nfn f() {\n}\nfn g() {\n}\n";
    let symbols = vec![sym(2, 3), sym(4, 5)];
    let chunks = ContextCompressor::semantic_chunk(content, &symbols, 4); // 16 bytes
    assert_eq!(
        chunks,
        vec!["use a;\nfn f() {\n}".to_string(), "use a;\nfn g() {\n}".to_string()]
    );
}

#[test]
fn semantic_chunk_without_symbols_truncates() {
    let content = "x".repeat(10);
    let chunks = ContextCompressor::semantic_chunk(&content, &[], 100);
    assert_eq!(chunks, vec![content.clone()]);
}

#[test]
fn semantic_chunk_with_symbols_past_the_end_takes_prefix() {
    let content = "abcdef\nghij";
    let chunks = ContextCompressor::semantic_chunk(content, &[sym(9, 12)], 1);
    assert_eq!(chunks, vec!["abcd".to_string()]);
}

#[test]
fn summary_from_reply_fills_sections() {
    let reply = "  TASK_OVERVIEW: scan repo \nCURRENT_STATE: two bugs\nIMPORTANT_DISCOVERIES:  - null deref\nnoise\nCONTEXT_TO_PRESERVE: file a.rs\n";
    let s = ContextCompressor::summary_from_reply(reply);
    assert_eq!(
        s,
        "# Task Overview\nscan repo\n\n# Current State\ntwo bugs\n\n# Important Discoveries\n- null deref\n\n# Context to Preserve\nfile a.rs"
    );
}

#[test]
fn summary_from_reply_without_labels_leaves_sections_empty() {
    let s = ContextCompressor::summary_from_reply("nothing here");
    assert_eq!(
        s,
        "# Task Overview\n\n\n# Current State\n\n\n# Important Discoveries\n\n\n# Context to Preserve\n"
    );
}

#[test]
fn semantic_chunk_reads_symbol_lines_from_one() {
    let content = "import os\ndef foo():\n    return 1\n";
    let chunks = ContextCompressor::semantic_chunk(content, &[sym(2, 3)], 100);
    assert_eq!(chunks, vec!["import os\ndef foo():\n    return 1".to_string()]);
}
