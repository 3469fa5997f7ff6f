//! Chat and embedding clients: request bodies built field by field with
//! defaults substituted, and response handling for the synchronous call.
//!
//! Fractional settings are held in thousandths, so a temperature of 0.2 is
//! the value 200; the body renders them back as decimal fractions.

use vstd::prelude::*;
use crate::http_success;
use crate::textfmt::{
    spec_dec, spec_escape, spec_milli, chars_to_string, push_dec, push_escaped, push_milli,
    push_str_chars,
};

verus! {

/// One turn of a conversation; immutable once constructed.
pub struct ChatMessage {
    pub role: String,
    pub content: String,
}

/// The reply a non-streaming chat call carries.
pub struct ChatResponse {
    pub message: ChatMessage,
}

/// Caller-supplied settings; an absent field takes its default.
pub struct ChatOptions {
    pub temperature_milli: Option<u32>,
    pub top_p_milli: Option<u32>,
    pub max_tokens: Option<u32>,
    pub repeat_penalty_milli: Option<u32>,
    pub repeat_last_n: Option<u32>,
}

/// Temperature 0.2, in thousandths.
pub const DEFAULT_TEMPERATURE_MILLI: u32 = 200;

/// Top-p 0.9, in thousandths.
pub const DEFAULT_TOP_P_MILLI: u32 = 900;

pub const DEFAULT_MAX_TOKENS: u32 = 4096;

/// Repeat penalty 1.1, in thousandths.
pub const DEFAULT_REPEAT_PENALTY_MILLI: u32 = 1100;

pub const DEFAULT_REPEAT_LAST_N: u32 = 64;

/// Context window sent with streaming requests.
pub const STREAM_NUM_CTX: u32 = 16384;

/// Every field settled, defaults in place of what was absent.
pub struct ResolvedOptions {
    pub temperature_milli: u32,
    pub top_p_milli: u32,
    pub max_tokens: u32,
    pub repeat_penalty_milli: u32,
    pub repeat_last_n: u32,
}

pub open spec fn spec_resolve(o: ChatOptions) -> ResolvedOptions {
    ResolvedOptions {
        temperature_milli: match o.temperature_milli {
            Some(t) => t,
            None => DEFAULT_TEMPERATURE_MILLI,
        },
        top_p_milli: match o.top_p_milli {
            Some(t) => t,
            None => DEFAULT_TOP_P_MILLI,
        },
        max_tokens: match o.max_tokens {
            Some(t) => t,
            None => DEFAULT_MAX_TOKENS,
        },
        repeat_penalty_milli: match o.repeat_penalty_milli {
            Some(t) => t,
            None => DEFAULT_REPEAT_PENALTY_MILLI,
        },
        repeat_last_n: match o.repeat_last_n {
            Some(t) => t,
            None => DEFAULT_REPEAT_LAST_N,
        },
    }
}

impl ChatOptions {
    /// All fields absent: every default applies.
    pub fn empty() -> (r: ChatOptions)
        ensures
            r.temperature_milli is None,
            r.top_p_milli is None,
            r.max_tokens is None,
            r.repeat_penalty_milli is None,
            r.repeat_last_n is None,
    {
        ChatOptions {
            temperature_milli: None,
            top_p_milli: None,
            max_tokens: None,
            repeat_penalty_milli: None,
            repeat_last_n: None,
        }
    }
}

/// Substitute the default for each absent field.
pub fn resolve_options(o: &ChatOptions) -> (r: ResolvedOptions)
    ensures
        r == spec_resolve(*o),
{
    ResolvedOptions {
        temperature_milli: match o.temperature_milli {
            Some(t) => t,
            None => DEFAULT_TEMPERATURE_MILLI,
        },
        top_p_milli: match o.top_p_milli {
            Some(t) => t,
            None => DEFAULT_TOP_P_MILLI,
        },
        max_tokens: match o.max_tokens {
            Some(t) => t,
            None => DEFAULT_MAX_TOKENS,
        },
        repeat_penalty_milli: match o.repeat_penalty_milli {
            Some(t) => t,
            None => DEFAULT_REPEAT_PENALTY_MILLI,
        },
        repeat_last_n: match o.repeat_last_n {
            Some(t) => t,
            None => DEFAULT_REPEAT_LAST_N,
        },
    }
}

/// One message as a JSON object.
pub open spec fn spec_message_json(role: Seq<char>, content: Seq<char>) -> Seq<char> {
    "{\"role\":\""@ + spec_escape(role) + "\",\"content\":\""@ + spec_escape(content) + "\"}"@
}

/// The conversation as a JSON array body, comma separated.
pub open spec fn spec_messages_json(ms: Seq<(Seq<char>, Seq<char>)>) -> Seq<char>
    decreases ms.len(),
{
    if ms.len() == 0 {
        Seq::empty()
    } else if ms.len() == 1 {
        spec_message_json(ms[0].0, ms[0].1)
    } else {
        spec_messages_json(ms.drop_last()) + ","@ + spec_message_json(
            ms.last().0,
            ms.last().1,
        )
    }
}

pub open spec fn spec_bool(b: bool) -> Seq<char> {
    if b {
        "true"@
    } else {
        "false"@
    }
}

/// The `options` object of a chat request; streaming requests also carry
/// the context window.
pub open spec fn spec_options_json(o: ResolvedOptions, stream: bool) -> Seq<char> {
    "{\"temperature\":"@ + spec_milli(o.temperature_milli as nat) + ",\"num_predict\":"@
        + spec_dec(o.max_tokens as nat) + (if stream {
        ",\"num_ctx\":"@ + spec_dec(STREAM_NUM_CTX as nat)
    } else {
        Seq::empty()
    }) + ",\"top_p\":"@ + spec_milli(o.top_p_milli as nat) + ",\"repeat_penalty\":"@
        + spec_milli(o.repeat_penalty_milli as nat) + ",\"repeat_last_n\":"@ + spec_dec(
        o.repeat_last_n as nat,
    ) + "}"@
}

/// A whole chat request body.
pub open spec fn spec_chat_body(
    model: Seq<char>,
    ms: Seq<(Seq<char>, Seq<char>)>,
    stream: bool,
    o: ResolvedOptions,
) -> Seq<char> {
    "{\"model\":\""@ + spec_escape(model) + "\",\"messages\":["@ + spec_messages_json(ms)
        + "],\"stream\":"@ + spec_bool(stream) + ",\"options\":"@ + spec_options_json(o, stream)
        + "}"@
}

pub open spec fn message_views(ms: Seq<ChatMessage>) -> Seq<(Seq<char>, Seq<char>)> {
    ms.map_values(|m: ChatMessage| (m.role@, m.content@))
}

/// Build the JSON body of a chat request: the conversation in order, the
/// streaming flag, and the options with defaults substituted field by
/// field.
pub fn build_chat_request(
    model: &str,
    messages: &Vec<ChatMessage>,
    stream: bool,
    options: &ChatOptions,
) -> (r: String)
    ensures
        r@ == spec_chat_body(model@, message_views(messages@), stream, spec_resolve(*options)),
{
    let o = resolve_options(options);
    let mut out: Vec<char> = Vec::new();
    push_str_chars(&mut out, "{\"model\":\"");
    push_escaped(&mut out, model);
    push_str_chars(&mut out, "\",\"messages\":[");
    let mut i: usize = 0;
    while i < messages.len()
        invariant
            i <= messages@.len(),
            out@ == "{\"model\":\""@ + spec_escape(model@) + "\",\"messages\":["@
                + spec_messages_json(message_views(messages@.take(i as int))),
        decreases messages@.len() - i,
    {
        if i > 0 {
            push_str_chars(&mut out, ",");
        }
        push_message(&mut out, &messages[i]);
        proof {
            let pre = message_views(messages@.take(i as int));
            let post = message_views(messages@.take(i + 1 as int));
            assert(post.drop_last() =~= pre);
            assert(post.last() == (messages@[i as int].role@, messages@[i as int].content@));
            if i == 0 {
                assert(spec_messages_json(post) == spec_message_json(
                    post[0].0,
                    post[0].1,
                ));
            }
            assert(out@ =~= "{\"model\":\""@ + spec_escape(model@) + "\",\"messages\":["@
                + spec_messages_json(post));
        }
        i = i + 1;
    }
    proof {
        assert(messages@.take(messages@.len() as int) =~= messages@);
    }
    push_str_chars(&mut out, "],\"stream\":");
    if stream {
        push_str_chars(&mut out, "true");
    } else {
        push_str_chars(&mut out, "false");
    }
    push_str_chars(&mut out, ",\"options\":");
    push_str_chars(&mut out, "{\"temperature\":");
    push_milli(&mut out, o.temperature_milli);
    push_str_chars(&mut out, ",\"num_predict\":");
    push_dec(&mut out, o.max_tokens as u64);
    if stream {
        push_str_chars(&mut out, ",\"num_ctx\":");
        push_dec(&mut out, STREAM_NUM_CTX as u64);
    }
    push_str_chars(&mut out, ",\"top_p\":");
    push_milli(&mut out, o.top_p_milli);
    push_str_chars(&mut out, ",\"repeat_penalty\":");
    push_milli(&mut out, o.repeat_penalty_milli);
    push_str_chars(&mut out, ",\"repeat_last_n\":");
    push_dec(&mut out, o.repeat_last_n as u64);
    push_str_chars(&mut out, "}");
    push_str_chars(&mut out, "}");
    proof {
        assert(out@ =~= spec_chat_body(
            model@,
            message_views(messages@),
            stream,
            spec_resolve(*options),
        ));
    }
    chars_to_string(&out)
}

/// One message appended as its JSON object.
fn push_message(out: &mut Vec<char>, m: &ChatMessage)
    ensures
        final(out)@ == old(out)@ + spec_message_json(m.role@, m.content@),
{
    push_str_chars(out, "{\"role\":\"");
    push_escaped(out, m.role.as_str());
    push_str_chars(out, "\",\"content\":\"");
    push_escaped(out, m.content.as_str());
    push_str_chars(out, "\"}");
    proof {
        assert(final(out)@ =~= old(out)@ + spec_message_json(m.role@, m.content@));
    }
}

/// The JSON body of an embedding request.
pub open spec fn spec_embedding_body(model: Seq<char>, prompt: Seq<char>) -> Seq<char> {
    "{\"model\":\""@ + spec_escape(model) + "\",\"prompt\":\""@ + spec_escape(prompt) + "\"}"@
}

pub fn build_embedding_request(model: &str, prompt: &str) -> (r: String)
    ensures
        r@ == spec_embedding_body(model@, prompt@),
{
    let mut out: Vec<char> = Vec::new();
    push_str_chars(&mut out, "{\"model\":\"");
    push_escaped(&mut out, model);
    push_str_chars(&mut out, "\",\"prompt\":\"");
    push_escaped(&mut out, prompt);
    push_str_chars(&mut out, "\"}");
    proof {
        assert(out@ =~= spec_embedding_body(model@, prompt@));
    }
    chars_to_string(&out)
}

/// Names what serde_json's `from_slice` yields for a non-streaming chat
/// response body: the text under `message.content`, or nothing when the
/// body is not JSON or lacks that string.
pub uninterp spec fn chat_reply_of(body: Seq<u8>) -> Option<Seq<char>>;

/// Relies on serde_json::from_slice on a Value, Value::get and
/// Value::as_str: reads the `message.content` string.
#[verifier::external_body]
fn parse_chat_reply(body: &[u8]) -> (r: Option<String>)
    ensures
        r is Some <==> chat_reply_of(body@) is Some,
        r matches Some(s) ==> chat_reply_of(body@) == Some(s@),
{
    match serde_json::from_slice::<serde_json::Value>(body) {
        Ok(data) => data
            .get("message")
            .and_then(|m| m.get("content"))
            .and_then(|c| c.as_str())
            .map(String::from),
        Err(_) => None,
    }
}

/// Settle a non-streaming chat call: the assistant reply on success, an
/// error naming the HTTP status when the server refused, an error when
/// the body carried no reply text.
pub fn chat_reply(status: u16, body: &[u8]) -> (r: Result<String, String>)
    ensures
        !http_success(status) ==> (r matches Err(e) && e@ == "Chat failed: HTTP "@ + spec_dec(
            status as nat,
        )),
        http_success(status) ==> match chat_reply_of(body@) {
            Some(reply) => (r matches Ok(s) && s@ == reply),
            None => (r matches Err(e) && e@ == "Failed to parse response"@),
        },
{
    if let Err(e) = chat_http_check(status) {
        return Err(e);
    }
    match parse_chat_reply(body) {
        Some(reply) => Ok(reply),
        None => Err(chars_to_string(&string_to_chars("Failed to parse response"))),
    }
}

/// The characters of a literal, as a vector.
fn string_to_chars(s: &str) -> (r: Vec<char>)
    ensures
        r@ == s@,
{
    let mut out: Vec<char> = Vec::new();
    push_str_chars(&mut out, s);
    proof {
        assert(out@ =~= s@);
    }
    out
}

/// Settle the transport outcome of a chat call before its body or
/// stream is read: an error naming the HTTP status when the server
/// refused.
pub fn chat_http_check(status: u16) -> (r: Result<(), String>)
    ensures
        http_success(status) <==> r is Ok,
        !http_success(status) ==> (r matches Err(e) && e@ == "Chat failed: HTTP "@ + spec_dec(
            status as nat,
        )),
{
    if 200 <= status && status < 300 {
        Ok(())
    } else {
        let mut out: Vec<char> = Vec::new();
        push_str_chars(&mut out, "Chat failed: HTTP ");
        push_dec(&mut out, status as u64);
        Err(chars_to_string(&out))
    }
}

/// Settle the transport outcome of an embedding call before its body is
/// read: an error naming the HTTP status when the server refused.
pub fn embedding_http_check(status: u16) -> (r: Result<(), String>)
    ensures
        http_success(status) <==> r is Ok,
        !http_success(status) ==> (r matches Err(e) && e@ == "Embedding failed: HTTP "@
            + spec_dec(status as nat)),
{
    if 200 <= status && status < 300 {
        Ok(())
    } else {
        let mut out: Vec<char> = Vec::new();
        push_str_chars(&mut out, "Embedding failed: HTTP ");
        push_dec(&mut out, status as u64);
        Err(chars_to_string(&out))
    }
}

} // verus!
