use contribai::llm::provider::{
    api_key_env_var, gemini_endpoint, select_provider, token_is_fresh, ChatMessage, ProviderKind,
};
use contribai::llm::retry::{RetryPolicy, RetryStep};

#[test]
fn test_chat_message_constructors() {
    let user = ChatMessage::user("hello");
    assert_eq!(user.role, "user");
    assert_eq!(user.content, "hello");

    let system = ChatMessage::system("you are a bot");
    assert_eq!(system.role, "system");

    let assistant = ChatMessage::assistant("hi there");
    assert_eq!(assistant.role, "assistant");
}

#[test]
fn test_is_retryable() {
    assert!(RetryPolicy::is_retryable("rate limit exceeded"));
    assert!(RetryPolicy::is_retryable("server error 500"));
    assert!(RetryPolicy::is_retryable("Gemini HTTP error: timeout"));
    assert!(!RetryPolicy::is_retryable("GEMINI_API_KEY not set"));
    assert!(!RetryPolicy::is_retryable("Unknown LLM provider"));
}

#[test]
fn test_delay_exponential() {
    let r = RetryPolicy::with_config(3, 1000);
    let d0 = r.delay_ms(0);
    let d1 = r.delay_ms(1);
    let d2 = r.delay_ms(2);
    assert!(d0 >= 1000 && d0 <= 1500, "d0={}", d0);
    assert!(d1 >= 2000 && d1 <= 3000, "d1={}", d1);
    assert!(d2 >= 4000 && d2 <= 6000, "d2={}", d2);
}

#[test]
fn test_create_provider_unknown() {
    let err = select_provider("unknown").unwrap_err();
    assert_eq!(
        err,
        "Unknown LLM provider: unknown. Available: gemini, vertex, openai, anthropic, ollama"
    );
    assert_eq!(select_provider("vertex"), Ok(ProviderKind::Gemini));
    assert_eq!(select_provider("ollama"), Ok(ProviderKind::Ollama));
}

// ── Further cases ────────────────────────────────────────────────────────────

#[test]
fn exact_delays_and_cap() {
    let r = RetryPolicy::with_config(3, 1000);
    assert_eq!((r.delay_ms(0), r.delay_ms(1), r.delay_ms(2)), (1000, 2137, 4274));
    assert_eq!(r.delay_ms(5), 30_000);
    let d = RetryPolicy::new();
    assert_eq!((d.max_retries, d.base_delay_ms, d.max_delay_ms), (3, 1000, 30_000));
}

#[test]
fn retry_steps() {
    let r = RetryPolicy::with_config(2, 10);
    assert_eq!(r.after_failure(0, "rate limit exceeded (429)"), RetryStep::RetryAfter(10));
    assert_eq!(r.after_failure(1, "server error 500"), RetryStep::RetryAfter(27));
    assert_eq!(r.after_failure(2, "server error 500"), RetryStep::GiveUp);
    assert_eq!(r.after_failure(0, "GEMINI_API_KEY not set"), RetryStep::GiveUp);
}

#[test]
fn gemini_endpoints() {
    let (url, token) = gemini_endpoint("gemini-3-flash-preview", "", "proj", "global");
    assert!(token);
    assert_eq!(
        url,
        "https://aiplatform.googleapis.com/v1beta1/projects/proj/locations/global/publishers/google/models/gemini-3-flash-preview:generateContent"
    );
    let (url, _) = gemini_endpoint("gemini-2", "", "proj", "us-east1");
    assert_eq!(
        url,
        "https://us-east1-aiplatform.googleapis.com/v1/projects/proj/locations/us-east1/publishers/google/models/gemini-2:generateContent"
    );
    let (url, token) = gemini_endpoint("m", "KEY", "", "global");
    assert!(!token);
    assert_eq!(url, "https://generativelanguage.googleapis.com/v1beta/models/m:generateContent?key=KEY");
}

#[test]
fn keys_and_tokens() {
    assert_eq!(api_key_env_var("openai"), Some("OPENAI_API_KEY"));
    assert_eq!(api_key_env_var("ollama"), None);
    assert!(token_is_fresh(0));
    assert!(token_is_fresh(3299));
    assert!(!token_is_fresh(3300));
}
