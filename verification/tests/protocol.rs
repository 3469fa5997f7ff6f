use ollama_service::chat::{
    build_chat_request, build_embedding_request, chat_http_check, chat_reply,
    embedding_http_check, ChatMessage, ChatOptions,
};
use ollama_service::pull::{build_pull_request, pull_http_check, PullSession};
use ollama_service::status::{ping_result, status_from};
use ollama_service::stream::ChatStream;
use ollama_service::{
    api_chat_url, api_embeddings_url, api_pull_url, api_tags_url, api_version_url,
    is_http_success,
};

#[test]
fn fixed_local_endpoints() {
    assert_eq!(api_version_url(), "http://127.0.0.1:11434/api/version");
    assert_eq!(api_tags_url(), "http://127.0.0.1:11434/api/tags");
    assert_eq!(api_chat_url(), "http://127.0.0.1:11434/api/chat");
    assert_eq!(api_embeddings_url(), "http://127.0.0.1:11434/api/embeddings");
    assert_eq!(api_pull_url(), "http://127.0.0.1:11434/api/pull");
}

#[test]
fn http_success_range() {
    assert!(is_http_success(200));
    assert!(is_http_success(299));
    assert!(!is_http_success(199));
    assert!(!is_http_success(300));
    assert!(!is_http_success(404));
}

#[test]
fn ping_reflects_status() {
    assert!(ping_result(Some(200)));
    assert!(ping_result(Some(204)));
    assert!(!ping_result(Some(404)));
    assert!(!ping_result(Some(500)));
    assert!(!ping_result(None));
}

#[test]
fn check_status_transport_failure() {
    let s = status_from(None, None, b"");
    assert!(!s.running);
    assert!(!s.models_available);
    assert!(s.models.is_empty());
}

#[test]
fn check_status_version_http_error() {
    let s = status_from(Some(500), Some(200), b"{\"models\":[{\"name\":\"m\"}]}");
    assert!(!s.running);
    assert!(!s.models_available);
    assert!(s.models.is_empty());
}

#[test]
fn check_status_tags_failure_still_running() {
    let s = status_from(Some(200), Some(500), b"");
    assert!(s.running);
    assert!(!s.models_available);
    assert!(s.models.is_empty());
    let s = status_from(Some(200), None, b"");
    assert!(s.running);
    assert!(!s.models_available);
}

#[test]
fn check_status_malformed_tags_body() {
    let s = status_from(Some(200), Some(200), b"not json at all");
    assert!(s.running);
    assert!(!s.models_available);
    assert!(s.models.is_empty());
}

#[test]
fn check_status_lists_models_in_order() {
    let body = b"{\"models\":[{\"name\":\"alpha\"},{\"size\":3},{\"name\":\"beta\"}]}";
    let s = status_from(Some(200), Some(200), body);
    assert!(s.running);
    assert!(s.models_available);
    assert_eq!(s.models, vec!["alpha".to_string(), "beta".to_string()]);
}

#[test]
fn check_status_empty_model_list() {
    let s = status_from(Some(200), Some(200), b"{\"models\":[]}");
    assert!(s.running);
    assert!(!s.models_available);
    assert!(s.models.is_empty());
}

#[test]
fn default_options_fill_chat_request() {
    let body = build_chat_request("m", &Vec::new(), false, &ChatOptions::empty());
    assert_eq!(
        body,
        "{\"model\":\"m\",\"messages\":[],\"stream\":false,\"options\":{\"temperature\":0.2,\
         \"num_predict\":4096,\"top_p\":0.9,\"repeat_penalty\":1.1,\"repeat_last_n\":64}}"
    );
}

#[test]
fn explicit_options_override_defaults() {
    let opts = ChatOptions {
        temperature_milli: Some(700),
        top_p_milli: Some(1000),
        max_tokens: Some(128),
        repeat_penalty_milli: Some(1250),
        repeat_last_n: Some(32),
    };
    let body = build_chat_request("m", &Vec::new(), false, &opts);
    assert!(body.contains("\"temperature\":0.7"));
    assert!(body.contains("\"top_p\":1,"));
    assert!(body.contains("\"num_predict\":128"));
    assert!(body.contains("\"repeat_penalty\":1.25"));
    assert!(body.contains("\"repeat_last_n\":32"));
}

#[test]
fn chat_request_carries_conversation_in_order() {
    let messages = vec![
        ChatMessage { role: "system".to_string(), content: "be brief".to_string() },
        ChatMessage { role: "user".to_string(), content: "hi".to_string() },
    ];
    let body = build_chat_request("model-x", &messages, false, &ChatOptions::empty());
    assert!(body.starts_with(
        "{\"model\":\"model-x\",\"messages\":[{\"role\":\"system\",\"content\":\"be brief\"},\
         {\"role\":\"user\",\"content\":\"hi\"}],\"stream\":false,"
    ));
}

#[test]
fn streaming_chat_request_sets_flag_and_context() {
    let body = build_chat_request("m", &Vec::new(), true, &ChatOptions::empty());
    assert!(body.contains("\"stream\":true"));
    assert!(body.contains("\"num_ctx\":16384"));
    let body = build_chat_request("m", &Vec::new(), false, &ChatOptions::empty());
    assert!(!body.contains("num_ctx"));
}

#[test]
fn chat_request_escapes_text() {
    let messages = vec![ChatMessage {
        role: "user".to_string(),
        content: "say \"hi\"\nback\\now\ttab".to_string(),
    }];
    let body = build_chat_request("m", &messages, false, &ChatOptions::empty());
    assert!(body.contains("say \\\"hi\\\"\\nback\\\\now\\ttab"));
    let parsed: serde_json::Value = serde_json::from_str(&body).unwrap();
    assert_eq!(
        parsed["messages"][0]["content"].as_str().unwrap(),
        "say \"hi\"\nback\\now\ttab"
    );
}

#[test]
fn chat_request_escapes_control_characters() {
    let messages = vec![ChatMessage {
        role: "user".to_string(),
        content: "a\u{1}b".to_string(),
    }];
    let body = build_chat_request("m", &messages, false, &ChatOptions::empty());
    assert!(body.contains("a\\u0001b"));
}

#[test]
fn chat_reply_http_error() {
    let r = chat_reply(500, b"{\"message\":{\"content\":\"hi\"}}");
    assert_eq!(r, Err("Chat failed: HTTP 500".to_string()));
}

#[test]
fn chat_http_check_messages() {
    assert!(chat_http_check(200).is_ok());
    assert_eq!(chat_http_check(502), Err("Chat failed: HTTP 502".to_string()));
}

#[test]
fn chat_reply_extracts_content() {
    let r = chat_reply(200, b"{\"message\":{\"role\":\"assistant\",\"content\":\"hello\"}}");
    assert_eq!(r, Ok("hello".to_string()));
}

#[test]
fn chat_reply_parse_failure() {
    let r = chat_reply(200, b"][ not json");
    assert_eq!(r, Err("Failed to parse response".to_string()));
    let r = chat_reply(200, b"{\"message\":{}}");
    assert_eq!(r, Err("Failed to parse response".to_string()));
}

#[test]
fn embedding_request_body() {
    let body = build_embedding_request("embed-model", "some text");
    assert_eq!(body, "{\"model\":\"embed-model\",\"prompt\":\"some text\"}");
    let parsed: serde_json::Value = serde_json::from_str(&body).unwrap();
    assert_eq!(parsed["model"].as_str().unwrap(), "embed-model");
}

#[test]
fn embedding_http_check_messages() {
    assert!(embedding_http_check(200).is_ok());
    assert_eq!(
        embedding_http_check(503),
        Err("Embedding failed: HTTP 503".to_string())
    );
}

#[test]
fn stream_concatenation_matches_sync_reply() {
    let mut s = ChatStream::new();
    let (chunks, err) = s.push(
        b"{\"message\":{\"role\":\"assistant\",\"content\":\"Hel\"},\"done\":false}\n\
          {\"message\":{\"role\":\"assistant\",\"content\":\"lo\"},\"done\":false}\n\
          {\"message\":{\"role\":\"assistant\",\"content\":\"!\"},\"done\":true}\n",
    );
    assert!(err.is_none());
    let streamed: String = chunks.iter().map(|c| c.content.as_str()).collect::<Vec<_>>().join("");
    assert_eq!(streamed, "Hello!");
    assert_eq!(chunks.iter().map(|c| c.done).collect::<Vec<_>>(), vec![false, false, true]);
    let sync = chat_reply(200, b"{\"message\":{\"content\":\"Hello!\"}}");
    assert_eq!(sync.unwrap(), streamed);
}

#[test]
fn stream_record_split_across_chunks() {
    let mut s = ChatStream::new();
    let (chunks, err) = s.push(b"{\"message\":{\"con");
    assert!(chunks.is_empty());
    assert!(err.is_none());
    let (chunks, err) = s.push(b"tent\":\"ok\"}}\n");
    assert!(err.is_none());
    assert_eq!(chunks.len(), 1);
    assert_eq!(chunks[0].content, "ok");
    assert!(!chunks[0].done);
}

#[test]
fn stream_accepts_crlf_line_endings() {
    let mut s = ChatStream::new();
    let (chunks, err) =
        s.push(b"{\"message\":{\"content\":\"a\"}}\r\n{\"message\":{\"content\":\"b\"}}\r\n");
    assert!(err.is_none());
    let contents: Vec<&str> = chunks.iter().map(|c| c.content.as_str()).collect();
    assert_eq!(contents, vec!["a", "b"]);
}

#[test]
fn stream_skips_malformed_records() {
    let mut s = ChatStream::new();
    let (chunks, err) =
        s.push(b"garbage\n{\"message\":{\"content\":\"a\"}}\nmore garbage\n{\"message\":{\"content\":\"b\"}}\n");
    assert!(err.is_none());
    let contents: Vec<&str> = chunks.iter().map(|c| c.content.as_str()).collect();
    assert_eq!(contents, vec!["a", "b"]);
}

#[test]
fn stream_records_without_content_emit_nothing() {
    let mut s = ChatStream::new();
    let (chunks, err) = s.push(b"{\"done\":true}\n{\"message\":{}}\n");
    assert!(err.is_none());
    assert!(chunks.is_empty());
}

#[test]
fn stream_error_aborts_call() {
    let mut s = ChatStream::new();
    let (chunks, err) = s.push(
        b"{\"message\":{\"content\":\"x\"}}\n{\"error\":\"boom\"}\n{\"message\":{\"content\":\"never\"}}\n",
    );
    assert_eq!(err, Some("Ollama error: boom".to_string()));
    let contents: Vec<&str> = chunks.iter().map(|c| c.content.as_str()).collect();
    assert_eq!(contents, vec!["x"]);
}

#[test]
fn stream_error_with_content_still_emits_that_chunk() {
    let mut s = ChatStream::new();
    let (chunks, err) = s.push(b"{\"message\":{\"content\":\"last\"},\"error\":\"bad\"}\n");
    assert_eq!(err, Some("Ollama error: bad".to_string()));
    assert_eq!(chunks.len(), 1);
    assert_eq!(chunks[0].content, "last");
}

#[test]
fn stream_non_string_error_field() {
    let mut s = ChatStream::new();
    let (_, err) = s.push(b"{\"error\":{\"code\":1}}\n");
    assert_eq!(err, Some("Ollama error: Unknown error".to_string()));
}

#[test]
fn pull_reports_progress_and_defaults() {
    let mut p = PullSession::new();
    let (updates, err) = p.push(
        b"{\"status\":\"pulling manifest\"}\n\
          {\"status\":\"downloading\",\"total\":100,\"completed\":40}\n",
    );
    assert!(err.is_none());
    assert_eq!(updates.len(), 2);
    assert_eq!(updates[0].status, "pulling manifest");
    assert_eq!(updates[0].total, 0);
    assert_eq!(updates[0].completed, 0);
    assert_eq!(updates[1].status, "downloading");
    assert_eq!(updates[1].total, 100);
    assert_eq!(updates[1].completed, 40);
}

#[test]
fn pull_error_aborts() {
    let mut p = PullSession::new();
    let (updates, err) = p.push(
        b"{\"status\":\"downloading\",\"total\":10,\"completed\":1}\n\
          {\"error\":\"no such model\"}\n\
          {\"status\":\"never seen\"}\n",
    );
    assert_eq!(err, Some("Ollama error: no such model".to_string()));
    assert_eq!(updates.len(), 2);
    assert_eq!(updates[1].status, "");
}

#[test]
fn pull_non_string_error_is_ignored() {
    let mut p = PullSession::new();
    let (updates, err) = p.push(b"{\"status\":\"a\",\"error\":7}\n{\"status\":\"b\"}\n");
    assert!(err.is_none());
    assert_eq!(updates.len(), 2);
}

#[test]
fn pull_request_body() {
    assert_eq!(
        build_pull_request("gemma3:1b"),
        "{\"name\":\"gemma3:1b\",\"stream\":true}"
    );
}

#[test]
fn pull_http_check_messages() {
    assert!(pull_http_check(200).is_ok());
    assert_eq!(
        pull_http_check(404),
        Err("Failed to download model: HTTP 404".to_string())
    );
}
