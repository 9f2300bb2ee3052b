use contribai::web::{
    constant_time_eq, default_limit, github_webhook, trigger_run, trigger_target, verify_api_key,
    verify_webhook_signature, AuthError, TriggerResponse, WebhookError, DASHBOARD_HTML,
};
use hmac::{Hmac, Mac};
use sha2::Sha256;

#[test]
fn test_constant_time_eq_equal() {
    assert!(constant_time_eq(b"hello", b"hello"));
}

#[test]
fn test_constant_time_eq_different_content() {
    assert!(!constant_time_eq(b"hello", b"world"));
}

#[test]
fn test_constant_time_eq_different_length() {
    assert!(!constant_time_eq(b"hello", b"helloworld"));
}

#[test]
fn test_constant_time_eq_empty() {
    assert!(constant_time_eq(b"", b""));
}

#[test]
fn test_verify_api_key_no_keys_configured() {
    assert!(verify_api_key(None, None, &[]).is_ok());
}

#[test]
fn test_verify_api_key_valid_header() {
    let keys = vec!["secret123".to_string()];
    assert!(verify_api_key(Some("secret123"), None, &keys).is_ok());
}

#[test]
fn test_verify_api_key_invalid_header() {
    let keys = vec!["secret123".to_string()];
    assert_eq!(verify_api_key(Some("wrong"), None, &keys), Err(AuthError::Forbidden));
}

#[test]
fn test_verify_api_key_via_query_param() {
    let keys = vec!["qparam-key".to_string()];
    assert!(verify_api_key(None, Some("qparam-key"), &keys).is_ok());
}

#[test]
fn test_verify_api_key_missing_key() {
    let keys = vec!["secret".to_string()];
    assert_eq!(verify_api_key(None, None, &keys), Err(AuthError::Unauthorized));
}

#[test]
fn test_verify_api_key_header_precedence_over_query() {
    let keys = vec!["header-key".to_string()];
    assert!(verify_api_key(Some("header-key"), Some("wrong-query"), &keys).is_ok());
}

fn sign(secret: &[u8], payload: &[u8]) -> String {
    let mut mac = Hmac::<Sha256>::new_from_slice(secret).unwrap();
    mac.update(payload);
    let result = mac.finalize().into_bytes();
    format!("sha256={}", hex::encode(result))
}

#[test]
fn test_verify_webhook_signature_valid() {
    let payload = b"hello world";
    let secret = "mysecret";
    let hex_sig = sign(secret.as_bytes(), payload);
    assert!(verify_webhook_signature(payload, &hex_sig, secret));
}

#[test]
fn test_verify_webhook_signature_wrong_secret() {
    let payload = b"hello world";
    let hex_sig = sign(b"mysecret", payload);
    assert!(!verify_webhook_signature(payload, &hex_sig, "wrongsecret"));
}

#[test]
fn test_verify_webhook_signature_missing_prefix() {
    assert!(!verify_webhook_signature(b"data", "abcdef1234", "secret"));
}

#[test]
fn test_verify_webhook_signature_tampered_payload() {
    let secret = "mysecret";
    let hex_sig = sign(secret.as_bytes(), b"original payload");
    assert!(!verify_webhook_signature(b"tampered payload", &hex_sig, secret));
}

#[test]
fn test_default_limit() {
    assert_eq!(default_limit(), 50);
}

#[test]
fn test_dashboard_html_nonempty() {
    assert!(!DASHBOARD_HTML.is_empty());
    assert!(DASHBOARD_HTML.contains("ContribAI"));
    assert!(DASHBOARD_HTML.contains("/api/health"));
    assert!(DASHBOARD_HTML.contains("/api/prs"));
}

#[test]
fn test_trigger_response_structure() {
    let r = TriggerResponse { status: "accepted", message: "test".into() };
    assert_eq!(r.status, "accepted");
}

// ── Further cases ────────────────────────────────────────────────────────────

#[test]
fn known_hmac_vector_verifies() {
    // RFC 4231 test case 2
    let sig = "sha256=5bdcc146bf60754e6a042426089575c75a003f089d2739839dec58b964ec3843";
    assert!(verify_webhook_signature(b"what do ya want for nothing?", sig, "Jefe"));
    let upper = sig.to_uppercase().replace("SHA256=", "sha256=");
    assert!(!verify_webhook_signature(b"what do ya want for nothing?", &upper, "Jefe"));
}

#[test]
fn auth_error_status_codes() {
    assert_eq!(AuthError::Unauthorized.status_code(), 401);
    assert_eq!(AuthError::Forbidden.status_code(), 403);
}

#[test]
fn trigger_endpoints_check_keys() {
    let keys = vec!["k".to_string()];
    let ok = trigger_run(Some("k"), None, &keys).unwrap();
    assert_eq!(ok.status, "accepted");
    assert_eq!(ok.message, "Pipeline run queued. Check /api/runs for progress.");
    assert_eq!(trigger_run(None, None, &keys).err(), Some(AuthError::Unauthorized));
    let t = trigger_target(None, Some("k"), &keys).unwrap();
    assert_eq!(t.message, "Targeted run queued.");
    assert_eq!(trigger_target(Some("x"), Some("k"), &keys).err(), Some(AuthError::Forbidden));
}

#[test]
fn webhook_without_secret_reads_event_and_action() {
    let body = br#"{"action":"opened","number":1}"#;
    let ack = github_webhook(None, Some("pull_request"), body, None).unwrap();
    assert_eq!(ack.event, "pull_request");
    assert_eq!(ack.action, "opened");
    let ack = github_webhook(None, None, b"{}", None).unwrap();
    assert_eq!((ack.event.as_str(), ack.action.as_str()), ("unknown", "unknown"));
    assert_eq!(github_webhook(None, None, b"not json", None).err(), Some(WebhookError::BadRequest));
}

#[test]
fn webhook_with_secret_checks_signature() {
    let body = br#"{"action":"closed"}"#;
    let sig = sign(b"s3", body);
    let ack = github_webhook(Some(&sig), Some("issues"), body, Some("s3")).unwrap();
    assert_eq!(ack.action, "closed");
    assert_eq!(github_webhook(None, Some("issues"), body, Some("s3")).err(), Some(WebhookError::Forbidden));
    assert_eq!(github_webhook(Some(&sig), None, body, Some("other")).err(), Some(WebhookError::Forbidden));
}
