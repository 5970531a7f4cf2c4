use squid::config::Config;
use squid::doctor::{
    agent_models_result, api_connectivity_result, config_file_result, default_agent_result, extract_connection_error,
    models_url, summarize, verdict, working_directory_result, ApiProbe, Check, CheckKind, CheckResult, Doctor,
};

#[test]
fn test_check_result_display() {
    let pass = CheckResult::pass("Test passed".to_string());
    assert_eq!(pass.to_display_string(), "✓ Test passed");
    let warn = CheckResult::warn("Test warning".to_string());
    assert_eq!(warn.to_display_string(), "⚠️  Test warning");
    let fail = CheckResult::fail("Test failed".to_string());
    assert_eq!(fail.to_display_string(), "✗ Test failed");
}

#[test]
fn test_extract_connection_error() {
    let error_msg = "test error";
    assert!(!error_msg.is_empty());
    assert_eq!(extract_connection_error(false, false, false, error_msg), "test error");
    assert_eq!(extract_connection_error(false, false, true, error_msg), "Request error: test error");
    assert_eq!(
        extract_connection_error(true, true, true, error_msg),
        "Connection refused - is the API server running?"
    );
}

#[test]
fn doctor_runs_seven_checks_in_order() {
    let d = Doctor::new();
    assert_eq!(d.checks.len(), 7);
    assert_eq!(d.checks[0].name(), "Configuration file");
    assert_eq!(d.checks[6].name(), "Working directory");
    assert_eq!(d.checks[4].description(), "Verify all models declared in agent files are available from the API");
}

#[test]
fn summary_counts_and_verdict() {
    let rs = vec![
        CheckResult::pass("a".to_string()),
        CheckResult::warn("b".to_string()),
        CheckResult::pass("c".to_string()),
    ];
    let s = summarize(&rs);
    assert_eq!((s.passed, s.warned, s.failed), (2, 1, 0));
    assert_eq!(verdict(s), "✓ All critical checks passed (with warnings)");
}

#[test]
fn config_file_check_outcomes() {
    assert_eq!(config_file_result(false, true).to_display_string(), "⚠️  No config file found, using environment variables");
    assert_eq!(
        config_file_result(false, false).to_display_string(),
        "✗ No configuration file found. Run 'squid init' to create one"
    );
}

#[test]
fn default_agent_check_without_agents_fails() {
    let config = Config::default();
    assert_eq!(
        default_agent_result(&config).to_display_string(),
        "✗ No agents loaded. Cannot validate default agent."
    );
}

#[test]
fn models_url_adds_one_slash() {
    assert_eq!(models_url("http://h/v1"), "http://h/v1/models");
    assert_eq!(models_url("http://h/v1/"), "http://h/v1/models");
}

#[test]
fn api_check_reports_model_count() {
    let r = api_connectivity_result("http://h", ApiProbe::Models { count: 12 });
    assert_eq!(r.to_display_string(), "✓ API is reachable at http://h (12 models available)");
}

#[test]
fn working_directory_missing_is_a_warning() {
    assert_eq!(
        working_directory_result("/w", false, false).to_display_string(),
        "⚠️  Working directory does not exist: /w (will be created when needed)"
    );
}

#[test]
fn agent_models_check_with_fetch_error() {
    let agents = Vec::new();
    let r = agent_models_result(&agents, &Err("HTTP 500".to_string()));
    assert_eq!(r.to_display_string(), "✗ Cannot fetch models from API: HTTP 500");
    let r2 = agent_models_result(&agents, &Ok(vec!["m".to_string()]));
    assert_eq!(r2.to_display_string(), "⚠️  No models declared in any agent files");
    let _ = CheckKind::ConfigFile;
}
