use squid::config::{env_overrides, Config, RawEnv};

#[test]
fn test_default_config() {
    let config = Config::default();
    assert_eq!(config.api_url, "http://127.0.0.1:1234/v1");
    assert_eq!(config.api_key, None);
    assert_eq!(config.context_window, 8192);
    assert_eq!(config.log_level, "error");
    assert_eq!(config.version, None);
    assert_eq!(config.database_path, "squid.db");
    assert_eq!(config.working_dir, "./workspace");
    assert_eq!(config.rag.enabled, true);
    assert_eq!(config.rag.embedding_model, "text-embedding-nomic-embed-text-v1.5");
    assert_eq!(config.rag.chunk_size, 512);
}

#[test]
fn test_app_version() {
    let version = Config::app_version();
    assert!(!version.is_empty());
    assert_eq!(version, "0.3.0");
}

#[test]
fn test_is_version_current() {
    let mut config = Config::default();
    assert_eq!(config.is_version_current(), None);
    config.version = Some(Config::app_version());
    assert_eq!(config.is_version_current(), Some(true));
    config.version = Some("0.1.0".to_string());
    assert_eq!(config.is_version_current(), Some(false));
}

#[test]
fn test_version_warning() {
    let mut config = Config::default();
    assert!(config.version_warning().is_some());
    config.version = Some(Config::app_version());
    assert!(config.version_warning().is_none());
    config.version = Some("0.1.0".to_string());
    let warning = config.version_warning();
    assert!(warning.is_some());
    assert!(warning.unwrap().contains("0.1.0"));
}

#[test]
fn test_get_api_key_fallback() {
    let config = Config::default();
    assert_eq!(config.api_key_or(None), "not-needed");
}

#[test]
fn test_get_api_key_with_value() {
    let mut config = Config::default();
    config.api_key = Some("test-key".to_string());
    assert_eq!(config.api_key_or(None), "test-key");
}

fn empty_env() -> RawEnv {
    RawEnv {
        api_url: None,
        api_key: None,
        context_window: None,
        log_level: None,
        db_log_level: None,
        database_path: None,
        working_dir: None,
        rag_enabled: None,
        embedding_model: None,
        embedding_url: None,
        chunk_size: None,
        chunk_overlap: None,
        top_k: None,
        documents_path: None,
        server_allow_network: None,
        web_sounds: None,
        plugins_load_bundled: None,
        jobs_enabled: None,
        max_concurrent_jobs: None,
        jobs_max_cpu_percent: None,
        jobs_default_retries: None,
    }
}

#[test]
fn environment_values_parse_like_str_parse() {
    let mut raw = empty_env();
    raw.context_window = Some("+4096".to_string());
    raw.rag_enabled = Some("false".to_string());
    raw.chunk_size = Some("12x".to_string());
    raw.jobs_max_cpu_percent = Some("-5".to_string());
    raw.web_sounds = Some("True".to_string());
    raw.max_concurrent_jobs = Some("".to_string());
    raw.jobs_default_retries = Some("2147483648".to_string());
    let e = env_overrides(raw);
    assert_eq!(e.context_window, Some(4096));
    assert_eq!(e.rag_enabled, Some(false));
    assert_eq!(e.chunk_size, None);
    assert_eq!(e.jobs_max_cpu_percent, Some(-5));
    assert_eq!(e.web_sounds, None);
    assert_eq!(e.max_concurrent_jobs, None);
    assert_eq!(e.jobs_default_retries, None);
}

#[test]
fn environment_overrides_replace_file_settings() {
    let mut raw = empty_env();
    raw.api_url = Some("http://example:9/v1".to_string());
    raw.context_window = Some("1024".to_string());
    let mut config = Config::default();
    config.apply_env_overrides(env_overrides(raw));
    assert_eq!(config.api_url, "http://example:9/v1");
    assert_eq!(config.context_window, 1024);
    assert_eq!(config.log_level, "error");
}
