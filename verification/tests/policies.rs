use squid::api::{sort_models, ModelInfo};
use squid::audio::{decode_audio, TranscribeAudioRequest};
use squid::config::{Config, RagConfig};
use squid::path_policy::{
    any_prefix, glob_to_regex, normalize_path, parse_ignore_patterns, path_starts_with_exec, PathValidationError,
    PathValidator,
};
use squid::setup::{api_key_answer, default_embedding_url, initial_config, log_level_cursor, rag_settings, RagAnswers};

fn model(id: &str, name: &str, provider: &str) -> ModelInfo {
    ModelInfo {
        id: id.to_string(),
        name: name.to_string(),
        max_context_length: 8192,
        provider: provider.to_string(),
        model_type: None,
        pricing_model: None,
    }
}

#[test]
fn models_sorted_qwen_first_then_provider_then_name() {
    let sorted = sort_models(vec![
        model("llama-3", "Llama 3", "Meta"),
        model("mistral", "Mistral", "Mistral AI"),
        model("qwen2.5-coder", "Qwen Coder", "Qwen"),
        model("gemma", "Gemma", "Google"),
        model("my-qwen-tune", "A tune", "Local"),
        model("codellama", "Code Llama", "Meta"),
    ]);
    let ids: Vec<&str> = sorted.iter().map(|m| m.id.as_str()).collect();
    assert_eq!(ids, vec!["my-qwen-tune", "qwen2.5-coder", "gemma", "codellama", "llama-3", "mistral"]);
}

#[test]
fn audio_payloads_are_base64() {
    let ok = TranscribeAudioRequest {
        audio_base64: "aGVsbG8=".to_string(),
        mime_type: "audio/wav".to_string(),
        agent_id: "default".to_string(),
    };
    assert_eq!(decode_audio(&ok), Ok(b"hello".to_vec()));
    let bad = TranscribeAudioRequest { audio_base64: "not base64!".to_string(), ..ok };
    let err = decode_audio(&bad).unwrap_err();
    assert!(err.starts_with("Failed to decode audio: "));
    assert!(err.len() > "Failed to decode audio: ".len());
}

#[test]
fn init_defaults_and_answers() {
    assert_eq!(log_level_cursor("debug"), 3);
    assert_eq!(log_level_cursor("verbose"), 2);
    assert_eq!(default_embedding_url(false, "ignored", "http://127.0.0.1:1234/v1"), "http://127.0.0.1:1234");
    assert_eq!(default_embedding_url(false, "ignored", "http://host"), "http://host");
    assert_eq!(default_embedding_url(true, "http://emb", "http://host/v1"), "http://emb");
    assert_eq!(api_key_answer(Some(String::new())), None);
    assert_eq!(api_key_answer(Some("k".to_string())), Some("k".to_string()));
    let previous = RagConfig::default();
    let on = rag_settings(
        previous.clone(),
        Some(RagAnswers {
            embedding_url: "http://e".to_string(),
            embedding_model: "m".to_string(),
            documents_path: "docs".to_string(),
        }),
    );
    assert!(on.enabled);
    assert_eq!(on.embedding_model, "m");
    assert_eq!(on.chunk_size, previous.chunk_size);
    let off = rag_settings(previous.clone(), None);
    assert!(!off.enabled);
    assert_eq!(off.embedding_url, previous.embedding_url);
    let c = initial_config("http://api".to_string(), None, "warn".to_string(), off, "/home/u/p".to_string());
    assert_eq!(c.context_window, 32768);
    assert_eq!(c.config_dir, Some("/home/u/p".to_string()));
    assert_eq!(c.default_agent, Config::default().default_agent);
}

#[test]
fn paths_are_normalised_and_compared_by_component() {
    assert_eq!(normalize_path("/a/b/../c/./d"), "/a/c/d");
    assert_eq!(normalize_path("a/./b/"), "a/b");
    assert!(path_starts_with_exec("/work/src/a.rs", "/work"));
    assert!(!path_starts_with_exec("/workshop/a.rs", "/work"));
    assert!(any_prefix("/etc/passwd", &vec!["/var".to_string(), "/etc".to_string()]));
    assert!(!any_prefix("/home/u", &vec!["/var".to_string()]));
}

#[test]
fn globs_and_ignore_files() {
    assert_eq!(glob_to_regex("*.log"), "^[^/]*\\.log$");
    assert_eq!(glob_to_regex("**/build?"), "^.*/build[^/]$");
    assert_eq!(glob_to_regex("a+(b)"), "^a\\+\\(b\\)$");
    assert_eq!(parse_ignore_patterns("# secrets\n\n  *.log  \n.env\n"), vec!["*.log".to_string(), ".env".to_string()]);
    let v = PathValidator::with_ignore_patterns(
        vec!["*.log".to_string(), "**/secret/*".to_string()],
        Some("/home/u/p".to_string()),
        Some("/home/u".to_string()),
    );
    assert!(v.is_ignored("/home/u/p/out/run.log"));
    assert!(v.is_ignored("/home/u/p/secret/key"));
    assert!(!v.is_ignored("/home/u/p/src/main.rs"));
    assert!(v.matches_pattern("/x/y.log", "*.log"));
    assert_eq!(v.check_resolved("/home/u/p/src/main.rs", v.blacklist(), v.whitelist()).ok(), Some("/home/u/p/src/main.rs".to_string()));
    match v.check_resolved("/home/u/p/a.log", v.blacklist(), v.whitelist()) {
        Err(e @ PathValidationError::PathIgnored(_)) => {
            assert_eq!(e.message(), "Path is ignored by ignore file: /home/u/p/a.log")
        },
        _ => panic!("expected an ignored path"),
    }
    match v.check_resolved("/home/u/.ssh/id_rsa", v.blacklist(), v.whitelist()) {
        Err(PathValidationError::PathNotAllowed(m)) => assert_eq!(m, "Path is in blacklisted directory: /home/u/.ssh/id_rsa"),
        _ => panic!("expected a blacklisted path"),
    }
    match v.check_resolved("/opt/x", v.blacklist(), v.whitelist()) {
        Err(PathValidationError::PathNotAllowed(m)) => assert_eq!(m, "Path is not in whitelisted directory: /opt/x"),
        _ => panic!("expected a path outside the whitelist"),
    }
}

#[test]
fn models_of_the_same_rank_keep_their_order() {
    let sorted = sort_models(vec![
        model("b-2", "Same", "Acme"),
        model("a", "Alpha", "Acme"),
        model("b-1", "Same", "Acme"),
        model("b-3", "Same", "Acme"),
    ]);
    let ids: Vec<&str> = sorted.iter().map(|m| m.id.as_str()).collect();
    assert_eq!(ids, vec!["a", "b-2", "b-1", "b-3"]);
}
