//! Chat messages and the provider choices that do not need the network:
//! which provider a configuration names, where Gemini requests go, how long a
//! Vertex AI access token is reused, which messages each API is sent, and
//! what a failed API call is reported as.
use vstd::prelude::*;

use crate::text::{append_str, chars_eq_str, chars_of, contains_str, string_from_chars};

verus! {

/// Message in a chat conversation.
#[derive(Debug, Clone)]
pub struct ChatMessage {
    pub role: String,
    pub content: String,
}

impl ChatMessage {
    pub fn user(content: &str) -> (r: Self)
        ensures
            r.role@ == "user"@,
            r.content@ == content@,
    {
        ChatMessage { role: String::from_str("user"), content: String::from_str(content) }
    }

    pub fn system(content: &str) -> (r: Self)
        ensures
            r.role@ == "system"@,
            r.content@ == content@,
    {
        ChatMessage { role: String::from_str("system"), content: String::from_str(content) }
    }

    pub fn assistant(content: &str) -> (r: Self)
        ensures
            r.role@ == "assistant"@,
            r.content@ == content@,
    {
        ChatMessage { role: String::from_str("assistant"), content: String::from_str(content) }
    }
}

// ── Providers ────────────────────────────────────────────────────────────────

/// The LLM back ends.
#[derive(Debug, Clone, Copy, PartialEq, Eq, Structural)]
pub enum ProviderKind {
    Gemini,
    OpenAI,
    Anthropic,
    Ollama,
}

/// The back end a configured provider name selects (`vertex` is Gemini).
pub open spec fn provider_for(name: Seq<char>) -> Option<ProviderKind> {
    if name == "gemini"@ || name == "vertex"@ {
        Some(ProviderKind::Gemini)
    } else if name == "openai"@ {
        Some(ProviderKind::OpenAI)
    } else if name == "anthropic"@ {
        Some(ProviderKind::Anthropic)
    } else if name == "ollama"@ {
        Some(ProviderKind::Ollama)
    } else {
        None
    }
}

/// Choose the back end for a configured provider name; an unknown name is
/// refused with a message listing the known ones.
pub fn select_provider(name: &str) -> (r: Result<ProviderKind, String>)
    ensures
        match r {
            Ok(k) => provider_for(name@) == Some(k),
            Err(msg) => provider_for(name@) is None && msg@ == "Unknown LLM provider: "@ + name@
                + ". Available: gemini, vertex, openai, anthropic, ollama"@,
        },
{
    let n = chars_of(name);
    if chars_eq_str(&n, "gemini") || chars_eq_str(&n, "vertex") {
        Ok(ProviderKind::Gemini)
    } else if chars_eq_str(&n, "openai") {
        Ok(ProviderKind::OpenAI)
    } else if chars_eq_str(&n, "anthropic") {
        Ok(ProviderKind::Anthropic)
    } else if chars_eq_str(&n, "ollama") {
        Ok(ProviderKind::Ollama)
    } else {
        let mut m = chars_of("Unknown LLM provider: ");
        append_str(&mut m, name);
        append_str(&mut m, ". Available: gemini, vertex, openai, anthropic, ollama");
        Err(string_from_chars(&m))
    }
}

/// The environment variable that holds the API key of a provider, if any.
pub open spec fn api_key_variable(provider: Seq<char>) -> Option<Seq<char>> {
    if provider == "gemini"@ {
        Some("GEMINI_API_KEY"@)
    } else if provider == "openai"@ {
        Some("OPENAI_API_KEY"@)
    } else if provider == "anthropic"@ {
        Some("ANTHROPIC_API_KEY"@)
    } else {
        None
    }
}

/// The environment variable to read an empty API key from, for `provider`.
pub fn api_key_env_var(provider: &str) -> (r: Option<&'static str>)
    ensures
        match r {
            Some(v) => api_key_variable(provider@) == Some(v@),
            None => api_key_variable(provider@) is None,
        },
{
    let p = chars_of(provider);
    if chars_eq_str(&p, "gemini") {
        Some("GEMINI_API_KEY")
    } else if chars_eq_str(&p, "openai") {
        Some("OPENAI_API_KEY")
    } else if chars_eq_str(&p, "anthropic") {
        Some("ANTHROPIC_API_KEY")
    } else {
        None
    }
}

// ── Gemini endpoints ─────────────────────────────────────────────────────────

/// The `generateContent` URL of a Gemini model: through Vertex AI when a
/// project is set (preview models on `v1beta1`, others on `v1`; the
/// `global` location without a region prefix), else the public API with the key.
pub open spec fn gemini_url(
    model: Seq<char>,
    api_key: Seq<char>,
    vertex_project: Seq<char>,
    vertex_location: Seq<char>,
) -> Seq<char> {
    if vertex_project.len() > 0 {
        let version = if crate::text::contains(model, "preview"@) {
            "v1beta1"@
        } else {
            "v1"@
        };
        let host = if vertex_location == "global"@ {
            "aiplatform.googleapis.com"@
        } else {
            vertex_location + "-aiplatform.googleapis.com"@
        };
        "https://"@ + host + "/"@ + version + "/projects/"@ + vertex_project + "/locations/"@
            + vertex_location + "/publishers/google/models/"@ + model + ":generateContent"@
    } else {
        "https://generativelanguage.googleapis.com/v1beta/models/"@ + model
            + ":generateContent?key="@ + api_key
    }
}

/// Build the Gemini request URL; with Vertex AI the request also needs a
/// bearer token.
pub fn gemini_endpoint(model: &str, api_key: &str, vertex_project: &str, vertex_location: &str) -> (r:
    (String, bool))
    ensures
        r.0@ == gemini_url(model@, api_key@, vertex_project@, vertex_location@),
        r.1 == (vertex_project@.len() > 0),
{
    let project = chars_of(vertex_project);
    if project.len() > 0 {
        let m = chars_of(model);
        let version = if contains_str(&m, "preview") {
            "v1beta1"
        } else {
            "v1"
        };
        let loc = chars_of(vertex_location);
        let mut url = chars_of("https://");
        if chars_eq_str(&loc, "global") {
            append_str(&mut url, "aiplatform.googleapis.com");
        } else {
            append_str(&mut url, vertex_location);
            append_str(&mut url, "-aiplatform.googleapis.com");
        }
        append_str(&mut url, "/");
        append_str(&mut url, version);
        append_str(&mut url, "/projects/");
        append_str(&mut url, vertex_project);
        append_str(&mut url, "/locations/");
        append_str(&mut url, vertex_location);
        append_str(&mut url, "/publishers/google/models/");
        append_str(&mut url, model);
        append_str(&mut url, ":generateContent");
        proof {
            let host = if vertex_location@ == "global"@ {
                "aiplatform.googleapis.com"@
            } else {
                vertex_location@ + "-aiplatform.googleapis.com"@
            };
            assert(url@ =~= gemini_url(model@, api_key@, vertex_project@, vertex_location@));
        }
        (string_from_chars(&url), true)
    } else {
        let mut url = chars_of("https://generativelanguage.googleapis.com/v1beta/models/");
        append_str(&mut url, model);
        append_str(&mut url, ":generateContent?key=");
        append_str(&mut url, api_key);
        (string_from_chars(&url), false)
    }
}

/// Seconds a Vertex AI access token is reused (it lives an hour).
pub const TOKEN_REUSE_SECS: u64 = 3300;

/// A cached access token fetched `elapsed_secs` seconds ago is still used.
pub fn token_is_fresh(elapsed_secs: u64) -> (b: bool)
    ensures
        b == (elapsed_secs < 55 * 60),
{
    elapsed_secs < TOKEN_REUSE_SECS
}


// ── Request messages ─────────────────────────────────────────────────────────

pub type MessageView = (Seq<char>, Seq<char>);

pub open spec fn message_views(ms: Seq<ChatMessage>) -> Seq<MessageView> {
    ms.map_values(|m: ChatMessage| (m.role@, m.content@))
}

pub open spec fn has_system(ms: Seq<ChatMessage>) -> bool {
    exists|i: int| 0 <= i < ms.len() && #[trigger] ms[i].role@ == "system"@
}

/// The messages an OpenAI-style chat API (OpenAI, Ollama) is sent: the
/// system prompt first, unless a message already has the system role, then
/// the conversation.
pub open spec fn openai_messages(ms: Seq<ChatMessage>, system: Option<Seq<char>>) -> Seq<MessageView> {
    match system {
        Some(sys) => if has_system(ms) {
            message_views(ms)
        } else {
            seq![("system"@, sys)] + message_views(ms)
        },
        None => message_views(ms),
    }
}

fn copy_message(m: &ChatMessage) -> (r: ChatMessage)
    ensures
        r.role@ == m.role@,
        r.content@ == m.content@,
{
    ChatMessage { role: m.role.clone(), content: m.content.clone() }
}

fn any_system(messages: &[ChatMessage]) -> (r: bool)
    ensures
        r == has_system(messages@),
{
    let mut k: usize = 0;
    while k < messages.len()
        invariant
            k <= messages@.len(),
            forall|i: int| 0 <= i < k ==> #[trigger] messages@[i].role@ != "system"@,
        decreases messages.len() - k,
    {
        if chars_eq_str(chars_of(messages[k].role.as_str()).as_slice(), "system") {
            return true;
        }
        k = k + 1;
    }
    false
}

pub fn openai_style_messages(messages: &[ChatMessage], system: Option<&str>) -> (r: Vec<ChatMessage>)
    ensures
        message_views(r@) == openai_messages(
            messages@,
            match system {
                Some(s) => Some(s@),
                None => None,
            },
        ),
{
    let mut out: Vec<ChatMessage> = Vec::new();
    match system {
        Some(sys) => {
            if !any_system(messages) {
                out.push(ChatMessage::system(sys));
            }
        },
        None => {},
    }
    let ghost head = message_views(out@);
    let mut k: usize = 0;
    while k < messages.len()
        invariant
            k <= messages@.len(),
            head.len() <= 1,
            message_views(out@) == head + message_views(messages@.take(k as int)),
        decreases messages.len() - k,
    {
        let m = copy_message(&messages[k]);
        proof {
            assert(message_views(out@.push(m)) =~= message_views(out@).push((m.role@, m.content@)));
            assert(message_views(messages@.take(k + 1)) =~= message_views(messages@.take(k as int)).push(
                (m.role@, m.content@),
            ));
        }
        out.push(m);
        k = k + 1;
    }
    proof {
        assert(messages@.take(k as int) =~= messages@);
    }
    out
}

/// The messages the Anthropic API is sent: the conversation without its
/// system-role messages (the system prompt travels apart).
pub open spec fn anthropic_messages(ms: Seq<ChatMessage>) -> Seq<MessageView>
    decreases ms.len(),
{
    if ms.len() == 0 {
        seq![]
    } else if ms.last().role@ == "system"@ {
        anthropic_messages(ms.drop_last())
    } else {
        anthropic_messages(ms.drop_last()).push((ms.last().role@, ms.last().content@))
    }
}

pub fn anthropic_chat_messages(messages: &[ChatMessage]) -> (r: Vec<ChatMessage>)
    ensures
        message_views(r@) == anthropic_messages(messages@),
{
    let mut out: Vec<ChatMessage> = Vec::new();
    let mut k: usize = 0;
    proof {
        assert(message_views(out@) =~= seq![]);
    }
    while k < messages.len()
        invariant
            k <= messages@.len(),
            message_views(out@) == anthropic_messages(messages@.take(k as int)),
        decreases messages.len() - k,
    {
        proof {
            assert(messages@.take(k + 1).drop_last() =~= messages@.take(k as int));
        }
        if !chars_eq_str(chars_of(messages[k].role.as_str()).as_slice(), "system") {
            let m = copy_message(&messages[k]);
            proof {
                assert(message_views(out@.push(m)) =~= message_views(out@).push((m.role@, m.content@)));
            }
            out.push(m);
        }
        k = k + 1;
    }
    proof {
        assert(messages@.take(k as int) =~= messages@);
    }
    out
}

/// The Gemini role of a chat role: `model` for the assistant, `user`
/// otherwise.
pub fn gemini_role(role: &str) -> (r: &'static str)
    ensures
        r@ == if role@ == "assistant"@ {
            "model"@
        } else {
            "user"@
        },
{
    if chars_eq_str(chars_of(role).as_slice(), "assistant") {
        "model"
    } else {
        "user"
    }
}

// ── Failed calls ─────────────────────────────────────────────────────────────

/// What a non-success HTTP answer from a provider is reported as: a rate
/// limit for status 429, else the status (as `status_text` renders it) and
/// the API's message (`Unknown error` when it gave none). `None` for a
/// success status (200 to 299).
pub open spec fn api_failure(
    kind: ProviderKind,
    status: u16,
    status_text: Seq<char>,
    message: Option<Seq<char>>,
) -> Option<Seq<char>> {
    let msg = match message {
        Some(m) => m,
        None => "Unknown error"@,
    };
    let name = match kind {
        ProviderKind::Gemini => "Gemini"@,
        ProviderKind::OpenAI => "OpenAI"@,
        ProviderKind::Anthropic => "Anthropic"@,
        ProviderKind::Ollama => "Ollama"@,
    };
    let err_word = match kind {
        ProviderKind::Gemini => " API error "@,
        _ => " error "@,
    };
    if 200 <= status <= 299 {
        None
    } else if status == 429 {
        Some(name + " rate limit: "@ + msg)
    } else {
        Some(name + err_word + status_text + ": "@ + msg)
    }
}

pub fn api_failure_message(
    kind: ProviderKind,
    status: u16,
    status_text: &str,
    message: Option<&str>,
) -> (r: Option<String>)
    ensures
        match r {
            Some(e) => api_failure(
                kind,
                status,
                status_text@,
                match message {
                    Some(m) => Some(m@),
                    None => None,
                },
            ) == Some(e@),
            None => api_failure(
                kind,
                status,
                status_text@,
                match message {
                    Some(m) => Some(m@),
                    None => None,
                },
            ) is None,
        },
{
    if 200 <= status && status <= 299 {
        return None;
    }
    let mut out = chars_of(
        match kind {
            ProviderKind::Gemini => "Gemini",
            ProviderKind::OpenAI => "OpenAI",
            ProviderKind::Anthropic => "Anthropic",
            ProviderKind::Ollama => "Ollama",
        },
    );
    if status == 429 {
        append_str(&mut out, " rate limit: ");
    } else {
        append_str(
            &mut out,
            match kind {
                ProviderKind::Gemini => " API error ",
                _ => " error ",
            },
        );
        append_str(&mut out, status_text);
        append_str(&mut out, ": ");
    }
    match message {
        Some(m) => append_str(&mut out, m),
        None => append_str(&mut out, "Unknown error"),
    }
    Some(string_from_chars(&out))
}

} // verus!
