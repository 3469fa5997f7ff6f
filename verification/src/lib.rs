//! Lifecycle manager and streaming protocol client for a local Ollama
//! inference server: service probing, platform launch/termination plans,
//! an NDJSON stream decoder, chat/embedding request building, and the
//! install workflow's decision logic.

use vstd::prelude::*;

pub mod chat;
pub mod install;
pub mod launch;
pub mod ndjson;
pub mod pull;
pub mod resolve;
pub mod status;
pub mod stream;
pub mod terminate;
pub mod textfmt;

verus! {

/// Seconds allowed for a liveness or model-list probe.
pub const PROBE_TIMEOUT_SECS: u64 = 15;

/// Seconds allowed for a synchronous or streaming chat call.
pub const CHAT_TIMEOUT_SECS: u64 = 120;

/// Seconds allowed for an embedding call.
pub const EMBEDDING_TIMEOUT_SECS: u64 = 30;

/// Seconds allowed for a model pull.
pub const PULL_TIMEOUT_SECS: u64 = 1800;

/// Seconds allowed for the release-archive download.
pub const ARCHIVE_TIMEOUT_SECS: u64 = 600;

/// The version endpoint: the lightweight liveness check.
pub fn api_version_url() -> (r: &'static str)
    ensures
        r@ == "http://127.0.0.1:11434/api/version"@,
{
    "http://127.0.0.1:11434/api/version"
}

/// The model-list endpoint.
pub fn api_tags_url() -> (r: &'static str)
    ensures
        r@ == "http://127.0.0.1:11434/api/tags"@,
{
    "http://127.0.0.1:11434/api/tags"
}

/// The chat endpoint, for both the synchronous and the streaming call.
pub fn api_chat_url() -> (r: &'static str)
    ensures
        r@ == "http://127.0.0.1:11434/api/chat"@,
{
    "http://127.0.0.1:11434/api/chat"
}

/// The embedding endpoint.
pub fn api_embeddings_url() -> (r: &'static str)
    ensures
        r@ == "http://127.0.0.1:11434/api/embeddings"@,
{
    "http://127.0.0.1:11434/api/embeddings"
}

/// The model-pull endpoint.
pub fn api_pull_url() -> (r: &'static str)
    ensures
        r@ == "http://127.0.0.1:11434/api/pull"@,
{
    "http://127.0.0.1:11434/api/pull"
}

/// Whether an HTTP status code counts as success.
pub open spec fn http_success(status: u16) -> bool {
    200 <= status < 300
}

/// Executable twin of `http_success`.
pub fn is_http_success(status: u16) -> (r: bool)
    ensures
        r == http_success(status),
{
    200 <= status && status < 300
}

} // verus!
