//! Web dashboard and REST API rules: API-key checks, GitHub webhook
//! signatures, the statistics and repository rankings the dashboard shows,
//! and the responses the handlers give.
//!
//! The HTTP server itself (routing, extraction of headers and query
//! parameters, JSON encoding) is plumbing around these functions.
use vstd::prelude::*;
use vstd::utf8::{encode_utf8, encode_utf8_decode_utf8};

use crate::orchestrator::memory::PrRecord;
use crate::ranking::{insert_ranked, is_ranked, is_total_preorder, lemma_ranked, ranked};
use crate::text::{chars_eq, chars_eq_str, chars_of, copy_chars, starts_with, starts_with_str, string_from_chars, views};

verus! {

// ── Constant-time comparison ─────────────────────────────────────────────────

/// Constant-time byte-slice equality to mitigate timing attacks: `true`
/// exactly when both slices have the same length and content.
pub fn constant_time_eq(a: &[u8], b: &[u8]) -> (r: bool)
    ensures
        r == (a@ == b@),
{
    if a.len() != b.len() {
        return false;
    }
    let mut acc: u8 = 0;
    let mut k: usize = 0;
    while k < a.len()
        invariant
            a@.len() == b@.len(),
            k <= a@.len(),
            (acc == 0) == (forall|i: int| 0 <= i < k ==> a@[i] == b@[i]),
        decreases a.len() - k,
    {
        let x = a[k];
        let y = b[k];
        let next = acc | (x ^ y);
        assert(next == 0 <==> (acc == 0 && x == y)) by (bit_vector)
            requires
                next == acc | (x ^ y),
        ;
        acc = next;
        k = k + 1;
        proof {
            if acc == 0 {
                assert forall|i: int| 0 <= i < k implies a@[i] == b@[i] by {
                    if i < k - 1 {
                    }
                }
            }
        }
    }
    proof {
        if acc == 0 {
            assert(a@ =~= b@);
        }
    }
    acc == 0
}

/// Equal strings have equal UTF-8 bytes, and the other way round.
proof fn lemma_bytes_match_text(a: Seq<char>, b: Seq<char>)
    ensures
        (encode_utf8(a) == encode_utf8(b)) == (a == b),
{
    encode_utf8_decode_utf8(a);
    encode_utf8_decode_utf8(b);
}

// ── API keys ─────────────────────────────────────────────────────────────────

/// Why a protected request is refused.
#[derive(Debug, Clone, Copy, PartialEq, Eq, Structural)]
pub enum AuthError {
    /// No key was presented (HTTP 401).
    Unauthorized,
    /// The key presented is not one of the configured keys (HTTP 403).
    Forbidden,
}

impl AuthError {
    /// The HTTP status code of the refusal.
    pub fn status_code(&self) -> (r: u16)
        ensures
            r == match self {
                AuthError::Unauthorized => 401u16,
                AuthError::Forbidden => 403u16,
            },
    {
        match self {
            AuthError::Unauthorized => 401,
            AuthError::Forbidden => 403,
        }
    }
}

pub open spec fn string_views(v: Seq<String>) -> Seq<Seq<char>> {
    v.map_values(|s: String| s@)
}

/// The outcome of an API-key check: open access when no keys are
/// configured; else the `X-API-Key` header, or failing that the `api_key`
/// query parameter, must equal one of the keys.
pub open spec fn api_key_outcome(
    header_key: Option<Seq<char>>,
    query_key: Option<Seq<char>>,
    api_keys: Seq<Seq<char>>,
) -> Result<(), AuthError> {
    if api_keys.len() == 0 {
        Ok(())
    } else {
        let provided = match header_key {
            Some(k) => Some(k),
            None => query_key,
        };
        match provided {
            None => Err(AuthError::Unauthorized),
            Some(k) => if api_keys.contains(k) {
                Ok(())
            } else {
                Err(AuthError::Forbidden)
            },
        }
    }
}

pub open spec fn opt_view(o: Option<&str>) -> Option<Seq<char>> {
    match o {
        Some(s) => Some(s@),
        None => None,
    }
}

/// Verify the API key of a request, given the `X-API-Key` header's text (if
/// present and readable) and the `api_key` query parameter (if any).
pub fn verify_api_key(header_key: Option<&str>, query_key: Option<&str>, api_keys: &[String]) -> (r:
    Result<(), AuthError>)
    ensures
        r == api_key_outcome(opt_view(header_key), opt_view(query_key), string_views(api_keys@)),
{
    if api_keys.len() == 0 {
        return Ok(());
    }
    let provided = match header_key {
        Some(k) => Some(k),
        None => query_key,
    };
    match provided {
        None => Err(AuthError::Unauthorized),
        Some(key) => {
            let kb = key.as_bytes();
            let mut k: usize = 0;
            while k < api_keys.len()
                invariant
                    k <= api_keys@.len(),
                    api_keys@.len() > 0,
                    match opt_view(header_key) {
                        Some(h) => h == key@,
                        None => opt_view(query_key) == Some(key@),
                    },
                    kb@ == encode_utf8(key@),
                    forall|i: int| 0 <= i < k ==> string_views(api_keys@)[i] != key@,
                decreases api_keys.len() - k,
            {
                let valid = api_keys[k].as_str();
                let vb = valid.as_bytes();
                let same = constant_time_eq(kb, vb);
                proof {
                    lemma_bytes_match_text(key@, valid@);
                    assert(string_views(api_keys@)[k as int] == valid@);
                }
                if same {
                    proof {
                        assert(vb@ == encode_utf8(valid@));
                        assert(key@ == valid@);
                        assert(string_views(api_keys@).contains(key@));
                    }
                    return Ok(());
                }
                k = k + 1;
            }
            Err(AuthError::Forbidden)
        },
    }
}

// ── Webhook signatures ───────────────────────────────────────────────────────

/// The HMAC-SHA256 tag that `hmac::Hmac::<sha2::Sha256>` computes over
/// `message` with `key`, or `None` when the key is refused.
pub uninterp spec fn hmac_sha256_tag(key: Seq<u8>, message: Seq<u8>) -> Option<Seq<u8>>;

/// Computes HMAC-SHA256 of `message` under `key` with `hmac::Hmac::<Sha256>`
/// (`new_from_slice`, `update`, `finalize`). The tag is named
/// `hmac_sha256_tag`; `new_from_slice` accepts keys of every length, so a tag
/// always comes back, of 32 bytes (the SHA-256 output size).
#[verifier::external_body]
fn hmac_sha256(key: &[u8], message: &[u8]) -> (r: Option<Vec<u8>>)
    ensures
        r matches Some(t) ==> hmac_sha256_tag(key@, message@) == Some(t@) && t@.len() == 32,
        r is None ==> hmac_sha256_tag(key@, message@) is None,
        r is Some,
{
    match <hmac::Hmac<sha2::Sha256> as hmac::Mac>::new_from_slice(key) {
        Ok(mut mac) => {
            hmac::Mac::update(&mut mac, message);
            Some(hmac::Mac::finalize(mac).into_bytes().to_vec())
        },
        Err(_) => None,
    }
}

pub open spec fn hex_digit(n: u8) -> char {
    if n < 10 {
        ('0' as u8 + n) as char
    } else {
        ('a' as u8 + (n - 10)) as char
    }
}

/// Lowercase hexadecimal rendering of bytes, two digits each, high first.
pub open spec fn hex_of(bytes: Seq<u8>) -> Seq<char>
    decreases bytes.len(),
{
    if bytes.len() == 0 {
        seq![]
    } else {
        hex_of(bytes.drop_last()) + seq![
            hex_digit(bytes.last() / 16),
            hex_digit(bytes.last() % 16),
        ]
    }
}

/// Calls `hex::encode`, which renders each byte as two lowercase hex digits.
#[verifier::external_body]
fn hex_encode(bytes: &[u8]) -> (r: String)
    ensures
        r@ == hex_of(bytes@),
{
    hex::encode(bytes)
}

/// A GitHub `X-Hub-Signature-256` value `sha256=<hex>` is valid for
/// `payload` under `secret` when the hex is that of the HMAC-SHA256 tag.
pub open spec fn signature_valid(payload: Seq<u8>, signature: Seq<char>, secret: Seq<char>) -> bool {
    &&& starts_with(signature, "sha256="@)
    &&& match hmac_sha256_tag(encode_utf8(secret), payload) {
        Some(tag) => hex_of(tag) == signature.skip(7),
        None => false,
    }
}

/// Verify a GitHub HMAC-SHA256 webhook signature (`sha256=<hex>`).
pub fn verify_webhook_signature(payload: &[u8], signature: &str, secret: &str) -> (b: bool)
    ensures
        b == signature_valid(payload@, signature@, secret@),
{
    let sig = chars_of(signature);
    proof {
        reveal_strlit("sha256=");
    }
    if !starts_with_str(&sig, "sha256=") {
        return false;
    }
    let expected = crate::text::slice_to_vec(&sig, 7, sig.len());
    let expected_text = string_from_chars(&expected);
    let tag = match hmac_sha256(secret.as_bytes(), payload) {
        Some(t) => t,
        None => return false,
    };
    let computed = hex_encode(&tag);
    proof {
        lemma_bytes_match_text(computed@, expected_text@);
        assert(expected@ =~= sig@.skip(7));
    }
    constant_time_eq(computed.as_str().as_bytes(), expected_text.as_str().as_bytes())
}

/// A signature made over a payload with a secret is accepted for that
/// payload and secret.
pub proof fn lemma_own_signature_verifies(payload: Seq<u8>, secret: Seq<char>, tag: Seq<u8>)
    requires
        hmac_sha256_tag(encode_utf8(secret), payload) == Some(tag),
    ensures
        signature_valid(payload, "sha256="@ + hex_of(tag), secret),
{
    reveal_strlit("sha256=");
    let sig = "sha256="@ + hex_of(tag);
    assert(sig.take(7) =~= "sha256="@);
    assert(sig.skip(7) =~= hex_of(tag));
}

// ── Webhook events ───────────────────────────────────────────────────────────

/// What `serde_json::from_slice` makes of a webhook body: `None` when it is
/// not JSON, else the `action` member when it is a string.
pub uninterp spec fn json_action(body: Seq<u8>) -> Option<Option<Seq<char>>>;

/// Parses `body` with `serde_json::from_slice` into a `serde_json::Value`
/// and reads its `action` member as a string. The outcome is named
/// `json_action`.
#[verifier::external_body]
fn parse_webhook_action(body: &[u8]) -> (r: Option<Option<String>>)
    ensures
        match r {
            None => json_action(body@) is None,
            Some(None) => json_action(body@) == Some(None::<Seq<char>>),
            Some(Some(a)) => json_action(body@) == Some(Some(a@)),
        },
{
    match serde_json::from_slice::<serde_json::Value>(body) {
        Ok(v) => Some(v.get("action").and_then(|a| a.as_str()).map(String::from)),
        Err(_) => None,
    }
}

/// Why a webhook delivery is refused.
#[derive(Debug, Clone, Copy, PartialEq, Eq, Structural)]
pub enum WebhookError {
    /// The signature does not match (HTTP 403).
    Forbidden,
    /// The body is not JSON (HTTP 400).
    BadRequest,
}

/// An accepted webhook delivery: its event and action (`unknown` when absent).
#[derive(Debug, Clone)]
pub struct WebhookAck {
    pub event: String,
    pub action: String,
}

pub open spec fn or_unknown(o: Option<Seq<char>>) -> Seq<char> {
    match o {
        Some(s) => s,
        None => "unknown"@,
    }
}

/// The outcome of a webhook delivery: refused when a secret is configured
/// and the signature (empty when absent) does not verify; refused when the
/// body is not JSON; else accepted with its event and action.
pub open spec fn webhook_outcome(
    signature: Option<Seq<char>>,
    event: Option<Seq<char>>,
    body: Seq<u8>,
    secret: Option<Seq<char>>,
) -> Result<(Seq<char>, Seq<char>), WebhookError> {
    if secret matches Some(s) && !signature_valid(
        body,
        match signature {
            Some(x) => x,
            None => seq![],
        },
        s,
    ) {
        Err(WebhookError::Forbidden)
    } else {
        match json_action(body) {
            None => Err(WebhookError::BadRequest),
            Some(action) => Ok((or_unknown(event), or_unknown(action))),
        }
    }
}

/// Receive a GitHub webhook delivery, given the `X-Hub-Signature-256` and
/// `X-GitHub-Event` headers' text, the raw body and the configured secret.
pub fn github_webhook(
    signature: Option<&str>,
    event: Option<&str>,
    body: &[u8],
    webhook_secret: Option<&str>,
) -> (r: Result<WebhookAck, WebhookError>)
    ensures
        match r {
            Ok(ack) => webhook_outcome(opt_view(signature), opt_view(event), body@, opt_view(webhook_secret))
                == Ok::<(Seq<char>, Seq<char>), WebhookError>((ack.event@, ack.action@)),
            Err(e) => webhook_outcome(opt_view(signature), opt_view(event), body@, opt_view(webhook_secret))
                == Err::<(Seq<char>, Seq<char>), WebhookError>(e),
        },
{
    if let Some(secret) = webhook_secret {
        let sig = match signature {
            Some(s) => s,
            None => "",
        };
        proof {
            reveal_strlit("");
            assert(""@ =~= seq![]);
        }
        if !verify_webhook_signature(body, sig, secret) {
            return Err(WebhookError::Forbidden);
        }
    }
    let action = match parse_webhook_action(body) {
        None => return Err(WebhookError::BadRequest),
        Some(a) => a,
    };
    let event_text = match event {
        Some(e) => String::from_str(e),
        None => String::from_str("unknown"),
    };
    let action_text = match action {
        Some(a) => a,
        None => String::from_str("unknown"),
    };
    Ok(WebhookAck { event: event_text, action: action_text })
}

// ── Query parameters and responses ───────────────────────────────────────────

/// Page size used when a request does not give one.
pub fn default_limit() -> (r: usize)
    ensures
        r == 50,
{
    50
}

/// `?limit=N` for listings.
#[derive(Debug, Clone)]
pub struct PaginationParams {
    pub limit: usize,
}

/// `?status=..&limit=N` for pull-request listings.
#[derive(Debug, Clone)]
pub struct PrFilterParams {
    pub status: Option<String>,
    pub limit: usize,
}

/// Body of a run trigger.
#[derive(Debug, Clone)]
pub struct TriggerRunBody {
    pub repo_url: Option<String>,
    pub dry_run: Option<bool>,
}

/// `GET /api/health` reply.
#[derive(Debug, Clone)]
pub struct HealthResponse {
    pub status: &'static str,
    pub version: &'static str,
    pub timestamp: String,
}

/// `GET /api/stats` reply.
#[derive(Debug, Clone)]
pub struct StatsResponse {
    pub total_prs: usize,
    pub total_repos: usize,
    pub merged_prs: usize,
    pub open_prs: usize,
    pub ci_passed: usize,
}

/// Reply to a run trigger.
#[derive(Debug, Clone)]
pub struct TriggerResponse {
    pub status: &'static str,
    pub message: String,
}

/// `POST /api/run`: accepted once the API key checks out.
pub fn trigger_run(header_key: Option<&str>, query_key: Option<&str>, api_keys: &[String]) -> (r:
    Result<TriggerResponse, AuthError>)
    ensures
        match r {
            Ok(resp) => api_key_outcome(opt_view(header_key), opt_view(query_key), string_views(api_keys@))
                is Ok && resp.status@ == "accepted"@ && resp.message@
                == "Pipeline run queued. Check /api/runs for progress."@,
            Err(e) => api_key_outcome(opt_view(header_key), opt_view(query_key), string_views(api_keys@))
                == Err::<(), AuthError>(e),
        },
{
    match verify_api_key(header_key, query_key, api_keys) {
        Err(e) => Err(e),
        Ok(()) => Ok(
            TriggerResponse {
                status: "accepted",
                message: String::from_str("Pipeline run queued. Check /api/runs for progress."),
            },
        ),
    }
}

/// `POST /api/run/target`: accepted once the API key checks out.
pub fn trigger_target(header_key: Option<&str>, query_key: Option<&str>, api_keys: &[String]) -> (r:
    Result<TriggerResponse, AuthError>)
    ensures
        match r {
            Ok(resp) => api_key_outcome(opt_view(header_key), opt_view(query_key), string_views(api_keys@))
                is Ok && resp.status@ == "accepted"@ && resp.message@ == "Targeted run queued."@,
            Err(e) => api_key_outcome(opt_view(header_key), opt_view(query_key), string_views(api_keys@))
                == Err::<(), AuthError>(e),
        },
{
    match verify_api_key(header_key, query_key, api_keys) {
        Err(e) => Err(e),
        Ok(()) => Ok(
            TriggerResponse { status: "accepted", message: String::from_str("Targeted run queued.") },
        ),
    }
}

// ── Dashboard ────────────────────────────────────────────────────────────────

/// The single-page HTML dashboard.
pub const DASHBOARD_HTML: &'static str = r#"<!DOCTYPE html>
<html lang="en">
<head>
  <meta charset="UTF-8">
  <meta name="viewport" content="width=device-width, initial-scale=1.0">
  <title>ContribAI Dashboard</title>
  <style>
    * { box-sizing: border-box; margin: 0; padding: 0; }
    body { font-family: 'Segoe UI', system-ui, sans-serif; background: #0d1117; color: #e6edf3; min-height: 100vh; }
    header { background: linear-gradient(135deg, #161b22 0%, #21262d 100%);
             border-bottom: 1px solid #30363d; padding: 1rem 2rem;
             display: flex; align-items: center; gap: 0.75rem; }
    header h1 { font-size: 1.4rem; font-weight: 700; color: #58a6ff; }
    header span { font-size: 0.8rem; color: #8b949e; background: #161b22;
                  padding: 0.2rem 0.6rem; border-radius: 20px; border: 1px solid #30363d; }
    .container { max-width: 1200px; margin: 0 auto; padding: 2rem; }
    .stats-grid { display: grid; grid-template-columns: repeat(auto-fit, minmax(180px, 1fr));
                  gap: 1rem; margin-bottom: 2rem; }
    .stat-card { background: #161b22; border: 1px solid #30363d; border-radius: 12px;
                 padding: 1.25rem; text-align: center; transition: border-color 0.2s; }
    .stat-card:hover { border-color: #58a6ff; }
    .stat-card .num { font-size: 2rem; font-weight: 700; color: #58a6ff; }
    .stat-card .label { font-size: 0.8rem; color: #8b949e; margin-top: 0.25rem; }
    .section { background: #161b22; border: 1px solid #30363d; border-radius: 12px;
               padding: 1.5rem; margin-bottom: 1.5rem; }
    .section h2 { font-size: 1rem; font-weight: 600; color: #c9d1d9;
                  margin-bottom: 1rem; border-bottom: 1px solid #21262d; padding-bottom: 0.5rem; }
    table { width: 100%; border-collapse: collapse; font-size: 0.875rem; }
    th { text-align: left; padding: 0.5rem; color: #8b949e;
         border-bottom: 1px solid #21262d; font-weight: 500; }
    td { padding: 0.5rem; border-bottom: 1px solid #21262d; color: #e6edf3; }
    tr:last-child td { border-bottom: none; }
    tr:hover td { background: #21262d; }
    .badge { display: inline-block; padding: 0.1rem 0.5rem; border-radius: 20px;
             font-size: 0.75rem; font-weight: 500; }
    .badge-open { background: #1f6feb33; color: #58a6ff; border: 1px solid #1f6feb; }
    .badge-merged { background: #238636; color: #aff2c0; }
    .badge-ci_passed { background: #13563b; color: #56d364; }
    .badge-ci_failed { background: #6e1c20; color: #f85149; }
    .btn { background: #238636; color: #fff; border: none; border-radius: 6px;
           padding: 0.5rem 1rem; cursor: pointer; font-size: 0.875rem;
           transition: background 0.2s; }
    .btn:hover { background: #2ea043; }
    .loading { color: #8b949e; text-align: center; padding: 2rem; }
    #status-dot { width: 8px; height: 8px; background: #56d364;
                  border-radius: 50%; display: inline-block; margin-right: 6px;
                  animation: pulse 2s infinite; }
    @keyframes pulse { 0%,100% { opacity:1; } 50% { opacity:0.4; } }
    .actions { display: flex; gap: 0.5rem; margin-bottom: 1.5rem; }
  </style>
</head>
<body>
<header>
  <h1>ContribAI</h1>
  <span><span id="status-dot"></span>Live</span>
  <span id="version-badge">v5.1.0</span>
</header>

<div class="container">
  <div class="stats-grid">
    <div class="stat-card"><div class="num" id="stat-total">-</div><div class="label">Total PRs</div></div>
    <div class="stat-card"><div class="num" id="stat-merged">-</div><div class="label">Merged</div></div>
    <div class="stat-card"><div class="num" id="stat-open">-</div><div class="label">Open</div></div>
    <div class="stat-card"><div class="num" id="stat-ci">-</div><div class="label">CI Passed</div></div>
    <div class="stat-card"><div class="num" id="stat-repos">-</div><div class="label">Repos Targeted</div></div>
  </div>

  <div class="actions">
    <button class="btn" onclick="triggerRun(false)">Run Now</button>
    <button class="btn" style="background:#30363d" onclick="triggerRun(true)">Dry Run</button>
  </div>

  <div class="section">
    <h2>Recent Pull Requests</h2>
    <div id="prs-table"><p class="loading">Loading...</p></div>
  </div>

  <div class="section">
    <h2>Top Repos</h2>
    <div id="repos-table"><p class="loading">Loading...</p></div>
  </div>
</div>

<script>
async function fetchStats() {
  const r = await fetch('/api/stats');
  const d = await r.json();
  document.getElementById('stat-total').textContent = d.total_prs;
  document.getElementById('stat-merged').textContent = d.merged_prs;
  document.getElementById('stat-open').textContent = d.open_prs;
  document.getElementById('stat-ci').textContent = d.ci_passed;
  document.getElementById('stat-repos').textContent = d.total_repos;
}

async function fetchPRs() {
  const r = await fetch('/api/prs?limit=20');
  const prs = await r.json();
  if (!prs.length) { document.getElementById('prs-table').innerHTML = '<p class="loading">No PRs yet.</p>'; return; }
  const rows = prs.map(p => {
    const badge = `<span class="badge badge-${p.status}">${p.status}</span>`;
    return `<tr><td><a href="${p.pr_url||'#'}" target="_blank" style="color:#58a6ff">#${p.pr_number}</a></td>
      <td>${p.repo}</td><td>${p.title||p.contribution_type||''}</td><td>${badge}</td></tr>`;
  }).join('');
  document.getElementById('prs-table').innerHTML =
    `<table><thead><tr><th>PR</th><th>Repo</th><th>Type</th><th>Status</th></tr></thead><tbody>${rows}</tbody></table>`;
}

async function fetchRepos() {
  const r = await fetch('/api/repos?limit=10');
  const repos = await r.json();
  if (!repos.length) { document.getElementById('repos-table').innerHTML = '<p class="loading">No repos yet.</p>'; return; }
  const rows = repos.map(r => `<tr><td>${r.repo}</td><td>${r.pr_count}</td></tr>`).join('');
  document.getElementById('repos-table').innerHTML =
    `<table><thead><tr><th>Repository</th><th>PRs Submitted</th></tr></thead><tbody>${rows}</tbody></table>`;
}

async function triggerRun(dryRun) {
  const r = await fetch('/api/run', { method: 'POST',
    headers: {'Content-Type':'application/json'},
    body: JSON.stringify({ dry_run: dryRun }) });
  const d = await r.json();
  alert(d.message);
}

async function init() {
  const h = await fetch('/api/health');
  const hd = await h.json();
  document.getElementById('version-badge').textContent = 'v' + hd.version;
  await Promise.all([fetchStats(), fetchPRs(), fetchRepos()]);
}

init();
setInterval(() => { fetchStats(); fetchPRs(); }, 30000);
</script>
</body>
</html>"#;


// ── Dashboard statistics ─────────────────────────────────────────────────────

/// Number of records whose status is one of `statuses`.
pub open spec fn count_status(prs: Seq<PrRecord>, statuses: Set<Seq<char>>) -> nat
    decreases prs.len(),
{
    if prs.len() == 0 {
        0
    } else {
        count_status(prs.drop_last(), statuses) + if statuses.contains(prs.last().status@) {
            1nat
        } else {
            0nat
        }
    }
}

/// The distinct repositories of the records, in order of first appearance.
pub open spec fn distinct_repos(prs: Seq<PrRecord>) -> Seq<Seq<char>>
    decreases prs.len(),
{
    if prs.len() == 0 {
        seq![]
    } else {
        let before = distinct_repos(prs.drop_last());
        if before.contains(prs.last().repo@) {
            before
        } else {
            before.push(prs.last().repo@)
        }
    }
}

pub(crate) fn repo_index(repos: &Vec<Vec<char>>, r: &Vec<char>) -> (i: Option<usize>)
    ensures
        match i {
            Some(j) => j < repos@.len() && views(repos@)[j as int] == r@,
            None => !views(repos@).contains(r@),
        },
{
    let mut k: usize = 0;
    while k < repos.len()
        invariant
            k <= repos@.len(),
            forall|j: int| 0 <= j < k ==> views(repos@)[j] != r@,
        decreases repos.len() - k,
    {
        if chars_eq(&repos[k], r) {
            return Some(k);
        }
        k = k + 1;
    }
    proof {
        if views(repos@).contains(r@) {
            let j = choose|j: int| 0 <= j < views(repos@).len() && views(repos@)[j] == r@;
            assert(views(repos@)[j] != r@);
        }
    }
    None
}

/// The dashboard's statistics over the recorded PRs.
pub fn stats_from_prs(prs: &[PrRecord]) -> (r: StatsResponse)
    ensures
        r.total_prs == prs@.len(),
        r.total_repos == distinct_repos(prs@).len(),
        r.merged_prs == count_status(prs@, set!["merged"@]),
        r.open_prs == count_status(prs@, set!["open"@, "ci_passed"@]),
        r.ci_passed == count_status(prs@, set!["ci_passed"@]),
{
    let mut merged: usize = 0;
    let mut open: usize = 0;
    let mut ci: usize = 0;
    let mut repos: Vec<Vec<char>> = Vec::new();
    let mut k: usize = 0;
    proof {
        reveal_strlit("merged");
        reveal_strlit("open");
        reveal_strlit("ci_passed");
        assert(views(repos@) =~= seq![]);
    }
    while k < prs.len()
        invariant
            k <= prs@.len(),
            merged <= k && open <= k && ci <= k,
            merged == count_status(prs@.take(k as int), set!["merged"@]),
            open == count_status(prs@.take(k as int), set!["open"@, "ci_passed"@]),
            ci == count_status(prs@.take(k as int), set!["ci_passed"@]),
            views(repos@) == distinct_repos(prs@.take(k as int)),
            repos@.len() <= k,
        decreases prs.len() - k,
    {
        proof {
            assert(prs@.take(k + 1).drop_last() =~= prs@.take(k as int));
            assert(prs@.take(k + 1).last() == prs@[k as int]);
        }
        let st = chars_of(prs[k].status.as_str());
        let is_merged = chars_eq_str(&st, "merged");
        let is_ci = chars_eq_str(&st, "ci_passed");
        let is_open = chars_eq_str(&st, "open");
        if is_merged {
            merged = merged + 1;
        }
        if is_open || is_ci {
            open = open + 1;
        }
        if is_ci {
            ci = ci + 1;
        }
        let rc = chars_of(prs[k].repo.as_str());
        if repo_index(&repos, &rc).is_none() {
            proof {
                assert(views(repos@.push(rc)) =~= views(repos@).push(rc@));
            }
            repos.push(rc);
        }
        k = k + 1;
    }
    proof {
        assert(prs@.take(k as int) =~= prs@);
        assert(views(repos@).len() == repos@.len());
    }
    StatsResponse { total_prs: prs.len(), total_repos: repos.len(), merged_prs: merged, open_prs: open, ci_passed: ci }
}

// ── Repository ranking ───────────────────────────────────────────────────────

/// How many records go to `repo`.
pub open spec fn pr_count(prs: Seq<PrRecord>, repo: Seq<char>) -> nat
    decreases prs.len(),
{
    if prs.len() == 0 {
        0
    } else {
        pr_count(prs.drop_last(), repo) + if prs.last().repo@ == repo {
            1nat
        } else {
            0nat
        }
    }
}

/// Entries ranked by count, larger first.
pub open spec fn by_count() -> spec_fn((Seq<char>, nat), (Seq<char>, nat)) -> bool {
    |a: (Seq<char>, nat), b: (Seq<char>, nat)| a.1 >= b.1
}

/// Each repository with its number of PRs, by first appearance.
pub open spec fn repo_counts(prs: Seq<PrRecord>) -> Seq<(Seq<char>, nat)> {
    distinct_repos(prs).map_values(|r: Seq<char>| (r, pr_count(prs, r)))
}

/// The ranking the dashboard shows: repositories by number of PRs, most
/// first, ties by first appearance, at most `limit` of them.
pub open spec fn repo_ranking(prs: Seq<PrRecord>, limit: nat) -> Seq<(Seq<char>, nat)> {
    let s = ranked(repo_counts(prs), by_count());
    if s.len() <= limit {
        s
    } else {
        s.take(limit as int)
    }
}

fn count_for(prs: &[PrRecord], repo: &Vec<char>) -> (r: usize)
    ensures
        r == pr_count(prs@, repo@),
{
    let mut n: usize = 0;
    let mut k: usize = 0;
    while k < prs.len()
        invariant
            k <= prs@.len(),
            n <= k,
            n == pr_count(prs@.take(k as int), repo@),
        decreases prs.len() - k,
    {
        proof {
            assert(prs@.take(k + 1).drop_last() =~= prs@.take(k as int));
        }
        if chars_eq(chars_of(prs[k].repo.as_str()).as_slice(), repo) {
            n = n + 1;
        }
        k = k + 1;
    }
    proof {
        assert(prs@.take(k as int) =~= prs@);
    }
    n
}

pub open spec fn ranked_views(v: Seq<(String, usize)>) -> Seq<(Seq<char>, nat)> {
    v.map_values(|e: (String, usize)| (e.0@, e.1 as nat))
}

pub open spec fn entry_views(v: Seq<(Vec<char>, usize)>) -> Seq<(Seq<char>, nat)> {
    v.map_values(|e: (Vec<char>, usize)| (e.0@, e.1 as nat))
}

fn insert_sorted(sorted: &mut Vec<(Vec<char>, usize)>, x: (Vec<char>, usize))
    ensures
        entry_views(final(sorted)@) == insert_ranked(entry_views(old(sorted)@), (x.0@, x.1 as nat), by_count()),
{
    let ghost xv = (x.0@, x.1 as nat);
    let ghost s0 = entry_views(sorted@);
    let mut j: usize = sorted.len();
    proof {
        assert(s0.take(j as int) =~= s0);
        assert(s0.skip(j as int) =~= seq![]);
        assert(insert_ranked(s0, xv, by_count()) + seq![] =~= insert_ranked(s0, xv, by_count()));
    }
    while j > 0 && sorted[j - 1].1 < x.1
        invariant
            j <= sorted@.len(),
            s0 == entry_views(sorted@),
            xv == (x.0@, x.1 as nat),
            insert_ranked(s0, xv, by_count()) == insert_ranked(s0.take(j as int), xv, by_count()) + s0.skip(j as int),
        decreases j,
    {
        proof {
            let t = s0.take(j as int);
            assert(t.last() == s0[j - 1]);
            assert(t.drop_last() =~= s0.take(j - 1));
            assert(s0[j - 1] == (sorted@[j - 1].0@, sorted@[j - 1].1 as nat));
            assert(insert_ranked(t, xv, by_count()) == insert_ranked(s0.take(j - 1), xv, by_count()).push(t.last()));
            assert(s0.skip(j - 1) =~= seq![s0[j - 1]] + s0.skip(j as int));
            assert(insert_ranked(s0.take(j - 1), xv, by_count()).push(t.last()) + s0.skip(j as int)
                =~= insert_ranked(s0.take(j - 1), xv, by_count()) + s0.skip(j - 1));
        }
        j = j - 1;
    }
    proof {
        let t = s0.take(j as int);
        if j > 0 {
            assert(t.last() == s0[j - 1]);
            assert(insert_ranked(t, xv, by_count()) == t.push(xv));
        } else {
            assert(insert_ranked(t, xv, by_count()) == seq![xv]);
            assert(t =~= seq![]);
            assert(t.push(xv) =~= seq![xv]);
        }
        assert(insert_ranked(s0, xv, by_count()) =~= s0.insert(j as int, xv));
    }
    sorted.insert(j, x);
    proof {
        assert(entry_views(sorted@) =~= s0.insert(j as int, xv));
    }
}

/// The dashboard's repository ranking: each repository with its number of
/// PRs, most first, ties by first appearance, at most `limit` entries.
pub fn repo_rankings(prs: &[PrRecord], limit: usize) -> (r: Vec<(String, usize)>)
    ensures
        ranked_views(r@) == repo_ranking(prs@, limit as nat),
{
    let mut repos: Vec<Vec<char>> = Vec::new();
    let mut k: usize = 0;
    proof {
        assert(views(repos@) =~= seq![]);
    }
    while k < prs.len()
        invariant
            k <= prs@.len(),
            views(repos@) == distinct_repos(prs@.take(k as int)),
        decreases prs.len() - k,
    {
        proof {
            assert(prs@.take(k + 1).drop_last() =~= prs@.take(k as int));
        }
        let rc = chars_of(prs[k].repo.as_str());
        if repo_index(&repos, &rc).is_none() {
            proof {
                assert(views(repos@.push(rc)) =~= views(repos@).push(rc@));
            }
            repos.push(rc);
        }
        k = k + 1;
    }
    proof {
        assert(prs@.take(k as int) =~= prs@);
    }
    let ghost counts = repo_counts(prs@);
    let mut sorted: Vec<(Vec<char>, usize)> = Vec::new();
    let mut i: usize = 0;
    proof {
        assert(entry_views(sorted@) =~= seq![]);
        assert(counts.take(0) =~= seq![]);
    }
    while i < repos.len()
        invariant
            i <= repos@.len(),
            views(repos@) == distinct_repos(prs@),
            counts == repo_counts(prs@),
            counts.len() == repos@.len(),
            entry_views(sorted@) == ranked(counts.take(i as int), by_count()),
        decreases repos.len() - i,
    {
        proof {
            assert(counts.take(i + 1).drop_last() =~= counts.take(i as int));
            assert(counts[i as int] == (views(repos@)[i as int], pr_count(prs@, views(repos@)[i as int])));
        }
        let c = count_for(prs, &repos[i]);
        let name = crate::text::copy_chars(&repos[i]);
        insert_sorted(&mut sorted, (name, c));
        i = i + 1;
    }
    proof {
        assert(counts.take(i as int) =~= counts);
    }
    let ghost full = entry_views(sorted@);
    let n = if sorted.len() <= limit {
        sorted.len()
    } else {
        limit
    };
    let mut out: Vec<(String, usize)> = Vec::new();
    let mut j: usize = 0;
    while j < n
        invariant
            j <= n,
            n <= sorted@.len(),
            full == entry_views(sorted@),
            ranked_views(out@) == full.take(j as int),
        decreases n - j,
    {
        let e = (string_from_chars(&sorted[j].0), sorted[j].1);
        proof {
            assert(ranked_views(out@).len() == j);
            assert(full[j as int] == (sorted@[j as int].0@, sorted@[j as int].1 as nat));
        }
        let ghost o0 = out@;
        out.push(e);
        proof {
            assert(out@.drop_last() == o0);
            assert forall|i: int| 0 <= i <= j implies #[trigger] ranked_views(out@)[i] == full.take(
                j as int + 1,
            )[i] by {
                if i < j {
                    assert(out@[i] == o0[i]);
                    assert(ranked_views(o0)[i] == full.take(j as int)[i]);
                }
            }
            assert(ranked_views(out@) =~= full.take(j as int + 1));
        }
        j = j + 1;
    }
    proof {
        if full.len() <= limit {
            assert(full.take(n as int) =~= full);
        }
    }
    out
}


/// Counts never increase along the sequence.
pub open spec fn count_sorted(s: Seq<(Seq<char>, nat)>) -> bool {
    forall|i: int, j: int| 0 <= i < j < s.len() ==> #[trigger] s[i].1 >= #[trigger] s[j].1
}

/// The dashboard's repository ranking lists repositories with the most PRs
/// first: along the ranking, the PR counts never increase.
pub proof fn lemma_ranking_most_first(prs: Seq<PrRecord>, limit: nat)
    ensures
        count_sorted(repo_ranking(prs, limit)),
{
    let s = ranked(repo_counts(prs), by_count());
    assert(is_total_preorder(by_count()));
    lemma_ranked(repo_counts(prs), by_count());
    assert(is_ranked(s, by_count()));
    if s.len() > limit {
        let t = s.take(limit as int);
        assert forall|i: int, j: int| 0 <= i < j < t.len() implies #[trigger] t[i].1 >= #[trigger] t[j].1 by {
            assert(t[i] == s[i] && t[j] == s[j]);
        }
    }
}

} // verus!
