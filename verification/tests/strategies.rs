use contribai::analysis::strategies::{detect_frameworks, Framework, FrameworkInfo, RepoFiles};

fn make_context(paths: &[&str], files: Vec<(&str, &str)>) -> RepoFiles {
    RepoFiles {
        file_tree: paths.iter().map(|p| p.to_string()).collect(),
        relevant_files: files
            .into_iter()
            .map(|(p, c)| (p.to_string(), c.to_string()))
            .collect(),
    }
}

#[test]
fn test_detect_django() {
    let ctx = make_context(&["manage.py", "app/settings.py"], vec![]);
    let detected = detect_frameworks(&ctx);
    assert!(!detected.is_empty());
    assert_eq!(detected[0].1.name, "Django");
}

#[test]
fn test_detect_react_jsx() {
    let ctx = make_context(&["src/App.jsx", "src/index.tsx"], vec![]);
    let detected = detect_frameworks(&ctx);
    assert!(!detected.is_empty());
    assert_eq!(detected[0].1.name, "React");
}

#[test]
fn test_detect_nextjs_via_package() {
    let ctx = make_context(
        &["package.json"],
        vec![("package.json", r#"{"dependencies": {"next": "14.0"}}"#)],
    );
    let detected = detect_frameworks(&ctx);
    assert!(!detected.is_empty());
    assert_eq!(detected[0].1.name, "Next.js");
}

#[test]
fn test_no_framework_detected() {
    let ctx = make_context(&["main.rs", "Cargo.toml"], vec![]);
    let detected = detect_frameworks(&ctx);
    assert!(detected.is_empty());
}

#[test]
fn react_prompt_names_the_framework() {
    let info = FrameworkInfo { name: "Next.js".to_string(), version: None, config_file: None };
    let p = Framework::React.analysis_prompt(&info);
    assert!(p.starts_with("Analyze this Next.js project for:\n1. Security"));
}

#[test]
fn framework_names() {
    assert_eq!(Framework::FastApi.name(), "FastAPI");
    assert_eq!(Framework::Express.name(), "Express");
}

#[test]
fn flask_detected_from_import() {
    let ctx = make_context(&["app.py"], vec![("app.py", "from flask import Flask\n")]);
    let detected = detect_frameworks(&ctx);
    assert_eq!(detected.len(), 1);
    assert_eq!(detected[0].0, Framework::Flask);
    assert_eq!(detected[0].1.config_file.as_deref(), Some("app.py"));
}

#[test]
fn critical_files_per_framework() {
    let ctx = make_context(
        &["proj/settings.py", "proj/urls.py", "app/views.py", "README.md", "app/routers/a.py"],
        vec![],
    );
    assert_eq!(
        Framework::Django.critical_files(&ctx),
        vec!["proj/settings.py", "proj/urls.py", "app/views.py"]
    );
    assert_eq!(Framework::FastApi.critical_files(&ctx), vec!["app/routers/a.py"]);
    let many: Vec<String> = (0..30).map(|i| format!("src/C{}.jsx", i)).collect();
    let react = RepoFiles { file_tree: many, relevant_files: vec![] };
    assert_eq!(Framework::React.critical_files(&react).len(), 20);
    assert_eq!(contribai::analysis::strategies::all_strategies().len(), 5);
}
