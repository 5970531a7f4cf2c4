use squid::agent::{AgentConfig, AgentPermissions};
use squid::config::Config;
use squid::jobs::{
    after_failure, check_cpu_usage, check_trigger, check_within_workspace, complete_job, job_session_id,
    new_background_job, pause_job, restores_as_one_off, resume_job, run_timeout, select_system_prompt,
    timeout_message, validate_create_job, validate_cron_expression, BackgroundJob, CreateJobRequest,
    JobExecutionRequest, JobPayload, PromptSource, RetryDecision,
};

fn payload(agent: &str, message: &str) -> JobPayload {
    JobPayload { agent_id: agent.to_string(), message: message.to_string(), system_prompt: None, file_path: None, session_id: None }
}

fn job(schedule: &str) -> BackgroundJob {
    BackgroundJob {
        id: Some(1),
        name: "Test".to_string(),
        schedule_type: schedule.to_string(),
        cron_expression: if schedule == "cron" { Some("0 0 9 * * *".to_string()) } else { None },
        priority: 5,
        max_cpu_percent: 70,
        status: "pending".to_string(),
        last_run: None,
        next_run: None,
        retries: 0,
        max_retries: 3,
        payload: "{}".to_string(),
        result: None,
        error_message: None,
        is_active: true,
        timeout_seconds: 3600,
    }
}

#[test]
fn test_job_execution_request_clone() {
    let req = JobExecutionRequest {
        job_id: 42,
        job_name: "Test Job".to_string(),
        payload: payload("shakespeare", "Say hello"),
        max_cpu_percent: 70,
        max_retries: 3,
        schedule_type: "once".to_string(),
        timeout_seconds: 3600,
    };
    let cloned = req.clone();
    assert_eq!(cloned.job_id, req.job_id);
    assert_eq!(cloned.job_name, req.job_name);
    assert_eq!(cloned.payload.agent_id, req.payload.agent_id);
    assert_eq!(cloned.max_cpu_percent, req.max_cpu_percent);
    assert_eq!(cloned.max_retries, req.max_retries);
    assert_eq!(cloned.schedule_type, req.schedule_type);
    assert_eq!(cloned.timeout_seconds, req.timeout_seconds);
}

#[test]
fn test_job_request_with_all_fields() {
    let payload = JobPayload {
        agent_id: "code-auditor".to_string(),
        message: "Review this code".to_string(),
        system_prompt: Some("Custom prompt".to_string()),
        file_path: Some("src/main.rs".to_string()),
        session_id: Some("test-123".to_string()),
    };
    let req = JobExecutionRequest {
        job_id: 10,
        job_name: "Code Review".to_string(),
        payload,
        max_cpu_percent: 50,
        max_retries: 5,
        schedule_type: "cron".to_string(),
        timeout_seconds: 7200,
    };
    assert_eq!(req.job_id, 10);
    assert_eq!(req.payload.system_prompt, Some("Custom prompt".to_string()));
    assert_eq!(req.payload.file_path, Some("src/main.rs".to_string()));
    assert_eq!(req.payload.session_id, Some("test-123".to_string()));
    assert_eq!(req.max_retries, 5);
    assert_eq!(req.schedule_type, "cron");
    assert_eq!(req.timeout_seconds, 7200);
}

#[test]
fn test_job_status_transitions() {
    let valid_statuses = ["pending", "running", "completed", "failed", "cancelled"];
    for status in valid_statuses {
        assert!(!status.is_empty());
    }
}

#[test]
fn test_schedule_types() {
    assert_eq!("once", "once");
    assert_eq!("cron", "cron");
    assert_ne!("once", "cron");
}

#[test]
fn test_job_name_special_characters() {
    let req = JobExecutionRequest {
        job_id: 1,
        job_name: "Daily Review (Mon-Fri)".to_string(),
        payload: payload("test", "test"),
        max_cpu_percent: 50,
        max_retries: 3,
        schedule_type: "cron".to_string(),
        timeout_seconds: 3600,
    };
    let cloned = req.clone();
    assert_eq!(cloned.job_name, "Daily Review (Mon-Fri)");
}

#[test]
fn test_empty_payload_message() {
    let req = JobExecutionRequest {
        job_id: 1,
        job_name: "Empty".to_string(),
        payload: payload("test", ""),
        max_cpu_percent: 50,
        max_retries: 0,
        schedule_type: "once".to_string(),
        timeout_seconds: 3600,
    };
    assert_eq!(req.payload.message, "");
    assert_eq!(req.max_retries, 0);
}

#[test]
fn test_max_retries_boundary() {
    let zero_retries = JobExecutionRequest {
        job_id: 1,
        job_name: "No retries".to_string(),
        payload: payload("test", "test"),
        max_cpu_percent: 50,
        max_retries: 0,
        schedule_type: "once".to_string(),
        timeout_seconds: 3600,
    };
    assert_eq!(zero_retries.max_retries, 0);
    let high_retries = JobExecutionRequest {
        job_id: 2,
        job_name: "Many retries".to_string(),
        payload: payload("test", "test"),
        max_cpu_percent: 50,
        max_retries: 100,
        schedule_type: "once".to_string(),
        timeout_seconds: 3600,
    };
    assert_eq!(high_retries.max_retries, 100);
}

#[test]
fn test_max_cpu_percent_boundary() {
    let req_min = JobExecutionRequest {
        job_id: 1,
        job_name: "Low CPU".to_string(),
        payload: payload("test", "test"),
        max_cpu_percent: 1,
        max_retries: 3,
        schedule_type: "once".to_string(),
        timeout_seconds: 3600,
    };
    let req_max = JobExecutionRequest {
        job_id: 2,
        job_name: "High CPU".to_string(),
        payload: payload("test", "test"),
        max_cpu_percent: 100,
        max_retries: 3,
        schedule_type: "once".to_string(),
        timeout_seconds: 3600,
    };
    assert_eq!(req_min.max_cpu_percent, 1);
    assert_eq!(req_max.max_cpu_percent, 100);
}

#[test]
fn test_timeout_validation_zero_means_no_timeout() {
    let req = JobExecutionRequest {
        job_id: 1,
        job_name: "Test".to_string(),
        payload: payload("test", "test"),
        max_cpu_percent: 70,
        max_retries: 3,
        schedule_type: "once".to_string(),
        timeout_seconds: 0,
    };
    assert_eq!(req.timeout_seconds, 0);
    assert!(!(req.timeout_seconds > 0));
    assert_eq!(run_timeout(req.timeout_seconds), None);
}

#[test]
fn test_timeout_validation_positive_value_enables_timeout() {
    let req = JobExecutionRequest {
        job_id: 1,
        job_name: "Test".to_string(),
        payload: payload("test", "test"),
        max_cpu_percent: 70,
        max_retries: 3,
        schedule_type: "once".to_string(),
        timeout_seconds: 30,
    };
    assert_eq!(req.timeout_seconds, 30);
    assert!(req.timeout_seconds > 0);
    assert_eq!(run_timeout(req.timeout_seconds), Some(30));
}

#[test]
fn test_timeout_error_message_format() {
    let timeout_seconds = 120;
    let expected_msg = timeout_message(timeout_seconds);
    assert_eq!(expected_msg, format!("Job timed out after {} seconds", timeout_seconds));
    assert!(expected_msg.contains("timed out"));
    assert!(expected_msg.contains("120 seconds"));
}

#[test]
fn test_timeout_duration_conversion() {
    let timeout_seconds: i64 = 3600;
    let duration = std::time::Duration::from_secs(run_timeout(timeout_seconds).unwrap());
    assert_eq!(duration.as_secs(), 3600);
    let timeout_seconds_small: i64 = 5;
    let duration_small = std::time::Duration::from_secs(run_timeout(timeout_seconds_small).unwrap());
    assert_eq!(duration_small.as_secs(), 5);
}

#[test]
fn test_agent_validation_requires_valid_agent_id() {
    let p = JobPayload {
        agent_id: "test-agent".to_string(),
        message: "Test".to_string(),
        system_prompt: None,
        file_path: None,
        session_id: None,
    };
    assert_eq!(p.agent_id, "test-agent");
    assert!(!p.agent_id.is_empty());
}

#[test]
fn test_agent_validation_empty_agent_id() {
    let p = JobPayload {
        agent_id: "".to_string(),
        message: "Test".to_string(),
        system_prompt: None,
        file_path: None,
        session_id: None,
    };
    assert!(p.agent_id.is_empty());
}

#[test]
fn test_trigger_job_validates_cron_type() {
    let j = job("cron");
    assert_eq!(j.schedule_type, "cron");
    assert!(check_trigger(&j).is_ok());
}

#[test]
fn test_trigger_job_once_type_should_not_be_triggered() {
    let j = job("once");
    assert_eq!(j.schedule_type, "once");
    assert_eq!(check_trigger(&j), Err("Only cron jobs can be manually triggered".to_string()));
}

#[test]
fn test_validate_cron_expression_valid_6_field_formats() {
    assert!(validate_cron_expression("0 0 9 * * Mon-Fri").is_ok());
    assert!(validate_cron_expression("0 */15 * * * *").is_ok());
    assert!(validate_cron_expression("0 0 0 * * *").is_ok());
    assert!(validate_cron_expression("0 30 8 * * *").is_ok());
    assert!(validate_cron_expression("0 0 */2 * * *").is_ok());
}

#[test]
fn test_validate_cron_expression_rejects_5_field_format() {
    assert!(validate_cron_expression("0 9 * * 1-5").is_err());
    assert!(validate_cron_expression("*/15 * * * *").is_err());
    assert!(validate_cron_expression("0 0 * * *").is_err());
}

#[test]
fn test_validate_cron_expression_invalid_syntax() {
    assert!(validate_cron_expression("invalid").is_err());
    assert!(validate_cron_expression("").is_err());
}

#[test]
fn test_validate_cron_expression_invalid_values() {
    assert!(validate_cron_expression("60 0 9 * * *").is_err());
    assert!(validate_cron_expression("0 60 9 * * *").is_err());
    assert!(validate_cron_expression("0 0 24 * * *").is_err());
    assert!(validate_cron_expression("0 0 9 32 * *").is_err());
    assert!(validate_cron_expression("0 0 9 * 13 *").is_err());
}

#[test]
fn test_validate_cron_expression_special_characters() {
    assert!(validate_cron_expression("0 0/5 * * * *").is_ok());
    assert!(validate_cron_expression("0 0 9-17 * * *").is_ok());
    assert!(validate_cron_expression("0 0 9,12,15 * * *").is_ok());
}

#[test]
fn cron_error_message_explains_the_format() {
    let e = validate_cron_expression("invalid").unwrap_err();
    assert_eq!(
        e,
        "Invalid cron expression: ParseSchedule. Expected format: 'sec min hour day month dayofweek' (e.g., '0 0 9 * * Mon-Fri' for weekdays at 9 AM)"
    );
}

fn request(schedule: &str, cron: Option<&str>, agent: &str) -> CreateJobRequest {
    CreateJobRequest {
        name: "Job".to_string(),
        schedule_type: schedule.to_string(),
        cron_expression: cron.map(|c| c.to_string()),
        priority: None,
        max_cpu_percent: None,
        max_retries: None,
        timeout_seconds: None,
        payload: payload(agent, "hi"),
    }
}

fn config_with_agent(id: &str) -> Config {
    let mut c = Config::default();
    c.agents.insert(
        id.to_string(),
        AgentConfig {
            name: id.to_string(),
            enabled: true,
            description: String::new(),
            model: "m".to_string(),
            prompt: None,
            pricing_model: None,
            context_window: None,
            permissions: AgentPermissions::new(),
            use_tools: true,
            suggestions: Vec::new(),
        },
    );
    c
}

#[test]
fn create_job_validation_order() {
    let c = config_with_agent("a");
    assert_eq!(validate_create_job(&request("weekly", None, "a"), &c), Err("schedule_type must be 'cron' or 'once'".to_string()));
    assert_eq!(validate_create_job(&request("cron", None, "a"), &c), Err("cron_expression is required for cron jobs".to_string()));
    assert!(validate_create_job(&request("cron", Some("0 9 * * 1-5"), "a"), &c).unwrap_err().starts_with("Invalid cron expression"));
    assert_eq!(validate_create_job(&request("once", None, "zzz"), &c), Err("Agent 'zzz' not found".to_string()));
    assert!(validate_create_job(&request("once", None, "a"), &c).is_ok());
    assert!(validate_create_job(&request("cron", Some("0 0 9 * * *"), "a"), &c).is_ok());
}

#[test]
fn new_job_defaults() {
    let j = new_background_job(&request("once", None, "a"), "{}".to_string(), 3600);
    assert_eq!((j.priority, j.max_cpu_percent, j.max_retries, j.retries), (5, 50, 3, 0));
    assert_eq!(j.status, "pending");
    assert!(j.is_active);
    assert_eq!(j.timeout_seconds, 3600);
}

#[test]
fn completing_keeps_only_cron_jobs_active() {
    let mut c = job("cron");
    complete_job(&mut c, "cron", Some("r".to_string()), None);
    assert!(c.is_active);
    assert_eq!(c.status, "completed");
    let mut o = job("once");
    complete_job(&mut o, "once", None, None);
    assert!(!o.is_active);
}

#[test]
fn pause_then_resume_restores_the_job() {
    let mut j = job("cron");
    pause_job(&mut j);
    assert!(!j.is_active);
    resume_job(&mut j);
    assert!(j.is_active);
    assert_eq!(j.status, "pending");
}

#[test]
fn retries_until_the_limit() {
    match after_failure(1, 3) {
        RetryDecision::Retry { message } => assert_eq!(message, "Retrying (1/3)"),
        RetryDecision::GiveUp => panic!("should retry"),
    }
    assert!(matches!(after_failure(3, 3), RetryDecision::GiveUp));
}

#[test]
fn session_id_and_prompt_choice() {
    let p = payload("rev", "m");
    assert_eq!(job_session_id(&p, 1700000000), "job-rev-1700000000");
    assert_eq!(job_session_id(&p, -5), "job-rev--5");
    assert!(matches!(select_system_prompt(&p, &None), PromptSource::DefaultAsk));
    match select_system_prompt(&p, &Some("agent prompt".to_string())) {
        PromptSource::Agent(s) => assert_eq!(s, "agent prompt"),
        _ => panic!("expected the agent prompt"),
    }
}

#[test]
fn cpu_and_workspace_checks() {
    assert!(check_cpu_usage(30, 50));
    assert!(!check_cpu_usage(50, 50));
    assert!(check_within_workspace("/work/src/a.rs", "/work", "src/a.rs").is_ok());
    assert_eq!(
        check_within_workspace("/etc/passwd", "/work", "../../etc/passwd"),
        Err("Access denied: path '../../etc/passwd' is outside workspace".to_string())
    );
    assert!(check_within_workspace("/workshop/x", "/work", "x").is_err());
    assert!(restores_as_one_off(&job("once")));
}
