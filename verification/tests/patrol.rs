use contribai::common::models::{FeedbackAction, FeedbackItem};
use contribai::pr::patrol::{
    ci_monitor_step, extract_fixed_content, is_our_reply, is_review_bot, parse_classifications,
    plan_feedback, review_bot_login_list, skip_comment, CiOutcome, CiSnapshot, CiStep,
    FeedbackPlan,
};

#[test]
fn test_extract_fixed_content_plain() {
    let response = "def foo():\n    return 42\n";
    assert_eq!(extract_fixed_content(response), response.trim());
}

#[test]
fn test_extract_fixed_content_fenced() {
    let response = "```python\ndef foo():\n    return 42\n```";
    let result = extract_fixed_content(response);
    assert_eq!(result, "def foo():\n    return 42");
}

fn item(id: i64, action: FeedbackAction) -> FeedbackItem {
    FeedbackItem {
        comment_id: id,
        author: "maintainer".into(),
        body: "Please fix this".into(),
        action,
        file_path: Some("src/main.py".into()),
        line: Some(10),
        diff_hunk: None,
        is_inline: true,
        bot_context: None,
    }
}

#[test]
fn test_parse_classifications() {
    let feedback = vec![item(1, FeedbackAction::CodeChange)];
    let response = r#"[{"comment_number": 1, "action": "CODE_CHANGE"}]"#;
    let json_str = &response[response.find('[').unwrap()..=response.rfind(']').unwrap()];
    let items: Vec<serde_json::Value> = serde_json::from_str(json_str).unwrap();
    assert_eq!(items.len(), 1);
    assert_eq!(items[0]["action"], "CODE_CHANGE");
    let parsed = parse_classifications(response, &feedback);
    assert_eq!(parsed.len(), 1);
    assert_eq!(parsed[0].action, FeedbackAction::CodeChange);
}

#[test]
fn test_review_bot_detection() {
    let bots = review_bot_login_list();
    assert!(bots.contains(&"coderabbitai"));
    assert!(bots.contains(&"dependabot"));
    assert!(!bots.contains(&"real-user"));
}

#[test]
fn test_ci_outcome_variants() {
    let o = CiOutcome::Passed;
    assert_eq!(o, CiOutcome::Passed);

    let o = CiOutcome::Failed(vec!["lint".into(), "test".into()]);
    if let CiOutcome::Failed(names) = o {
        assert_eq!(names.len(), 2);
        assert!(names.contains(&"lint".to_string()));
    } else {
        panic!("Expected Failed variant");
    }

    assert_eq!(CiOutcome::Timeout, CiOutcome::Timeout);
    assert_eq!(CiOutcome::NoCi, CiOutcome::NoCi);
}

#[test]
fn test_ci_outcome_status_mapping() {
    let statuses = [
        (CiOutcome::Passed, "ci_passed"),
        (CiOutcome::Failed(vec![]), "ci_failed"),
        (CiOutcome::Timeout, "ci_timeout"),
        (CiOutcome::NoCi, "open"),
    ];
    for (outcome, expected) in statuses {
        let status = outcome.status();
        assert_eq!(status, expected, "Outcome {:?} should map to '{}'", outcome, expected);
    }
}

// ── Further cases ────────────────────────────────────────────────────────────

#[test]
fn fenced_reply_without_closing_fence_keeps_rest() {
    assert_eq!(extract_fixed_content("```rust\nfn a() {}\n"), "fn a() {}");
    assert_eq!(extract_fixed_content("  plain text \n"), "plain text");
}

#[test]
fn classification_reads_each_element() {
    let feedback = vec![item(1, FeedbackAction::CodeChange), item(2, FeedbackAction::CodeChange)];
    let response = r#"Here you go: [{"comment_number": 2, "action": "Question"}, {"comment_number": 5, "action": "reject"}, {"comment_number": 1, "action": "whatever"}] done"#;
    let parsed = parse_classifications(response, &feedback);
    assert_eq!(parsed.len(), 2);
    assert_eq!((parsed[0].comment_id, parsed[0].action), (2, FeedbackAction::Question));
    assert_eq!((parsed[1].comment_id, parsed[1].action), (1, FeedbackAction::AlreadyHandled));
}

#[test]
fn classification_falls_back_to_feedback() {
    let feedback = vec![item(7, FeedbackAction::Question)];
    let parsed = parse_classifications("no json here", &feedback);
    assert_eq!(parsed.len(), 1);
    assert_eq!(parsed[0].comment_id, 7);
    let parsed = parse_classifications("[not json]", &feedback);
    assert_eq!(parsed[0].action, FeedbackAction::Question);
}

#[test]
fn comment_filters() {
    assert!(is_review_bot("CodeRabbitAI"));
    assert!(!is_review_bot("alice"));
    assert!(is_our_reply("✅ Fixed in abc123"));
    assert!(!is_our_reply("please rename"));
    assert!(skip_comment("me", "hi", false, "me"));
    assert!(skip_comment("x", "hi", true, "me"));
    assert!(skip_comment("renovate", "hi", false, "me"));
    assert!(skip_comment("mybot[bot]", "hi", false, "me"));
    assert!(skip_comment("alice", "this was an auto-fix", false, "me"));
    assert!(!skip_comment("alice", "please rename", false, "me"));
}

#[test]
fn feedback_plans() {
    let fs = vec![item(1, FeedbackAction::Approve), item(2, FeedbackAction::StyleFix)];
    assert_eq!(plan_feedback(&fs), FeedbackPlan::Handle(vec![1]));
    let fs = vec![item(1, FeedbackAction::Question), item(2, FeedbackAction::Reject)];
    assert_eq!(plan_feedback(&fs), FeedbackPlan::Rejected);
    let fs = vec![item(1, FeedbackAction::Approve)];
    assert_eq!(plan_feedback(&fs), FeedbackPlan::NothingToDo);
}

fn snap(total: usize, failed: Vec<&str>, running: Vec<&str>) -> CiSnapshot {
    CiSnapshot {
        total,
        passed: vec![],
        failed: failed.into_iter().map(String::from).collect(),
        in_progress: running.into_iter().map(String::from).collect(),
    }
}

#[test]
fn ci_monitor_steps() {
    assert_eq!(ci_monitor_step(Some(snap(0, vec![], vec![])), false), CiStep::Finish(CiOutcome::NoCi));
    assert_eq!(ci_monitor_step(Some(snap(3, vec![], vec!["build"])), false), CiStep::Wait);
    assert_eq!(
        ci_monitor_step(Some(snap(3, vec![], vec!["build"])), true),
        CiStep::Finish(CiOutcome::Timeout)
    );
    assert_eq!(
        ci_monitor_step(Some(snap(3, vec!["lint"], vec![])), true),
        CiStep::Finish(CiOutcome::Failed(vec!["lint".to_string()]))
    );
    assert_eq!(ci_monitor_step(Some(snap(3, vec![], vec![])), false), CiStep::Finish(CiOutcome::Passed));
    assert_eq!(ci_monitor_step(None, false), CiStep::Wait);
    assert_eq!(ci_monitor_step(None, true), CiStep::Finish(CiOutcome::Timeout));
}

#[test]
fn code_fix_prompt_quotes_feedback_and_file() {
    let p = contribai::pr::patrol::code_fix_prompt("rename x", "let x = 1;");
    assert_eq!(
        p,
        "A maintainer left this review feedback:\n\n> rename x\n\nCurrent file content:\n```\nlet x = 1;\n```\n\nApply the MINIMUM change. Return the COMPLETE updated file content."
    );
}

#[test]
fn fix_worth_pushing_only_when_changed_and_nonempty() {
    assert!(contribai::pr::patrol::fix_is_worth_pushing("let y = 1;\n", "let x = 1;"));
    assert!(!contribai::pr::patrol::fix_is_worth_pushing("  let x = 1;\n", "let x = 1;"));
    assert!(!contribai::pr::patrol::fix_is_worth_pushing("   \n", "let x = 1;"));
}

#[test]
fn fix_commit_message_cuts_feedback_at_sixty_chars() {
    assert_eq!(contribai::pr::patrol::fix_commit_message("short"), "fix: address review feedback — short");
    let long = "a".repeat(80);
    let msg = contribai::pr::patrol::fix_commit_message(&long);
    assert_eq!(msg, format!("fix: address review feedback — {}", "a".repeat(60)));
}

#[test]
fn question_prompt_cuts_description() {
    let body = "d".repeat(2100);
    let p = contribai::pr::patrol::question_prompt("Fix bug", &body, "alice", "Why?");
    let expected = format!(
        "A maintainer asked on our PR:\nPR: Fix bug\nDescription: {}\n\nQuestion from @alice:\n> Why?\n\nWrite a concise, helpful reply (2-4 sentences).",
        "d".repeat(2000)
    );
    assert_eq!(p, expected);
}
