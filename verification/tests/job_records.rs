use squid::jobs::{
    cancel_job, check_cpu_usage, complete_job, fail_job, increment_retries, pause_job, resume_job, BackgroundJob,
    JobResponse,
};

fn stored_job(name: &str, schedule: &str, status: &str, retries: i32, max_retries: i32) -> BackgroundJob {
    BackgroundJob {
        id: None,
        name: name.to_string(),
        schedule_type: schedule.to_string(),
        cron_expression: if schedule == "cron" { Some("0 0 9 * * *".to_string()) } else { None },
        priority: 5,
        max_cpu_percent: 50,
        status: status.to_string(),
        last_run: None,
        next_run: None,
        retries,
        max_retries,
        payload: r#"{}"#.to_string(),
        result: None,
        error_message: None,
        is_active: true,
        timeout_seconds: 3600,
    }
}

#[test]
fn test_background_job_complete_deactivates_one_off() {
    let mut job = stored_job("One-off", "once", "pending", 0, 3);
    complete_job(&mut job, "once", Some("result".to_string()), None);
    assert_eq!(job.status, "completed");
    assert!(!job.is_active);
    assert_eq!(job.result, Some("result".to_string()));
}

#[test]
fn test_background_job_complete_keeps_cron_active() {
    let mut job = stored_job("Cron Job", "cron", "running", 0, 3);
    complete_job(&mut job, "cron", Some("result".to_string()), None);
    assert_eq!(job.status, "completed");
    assert!(job.is_active);
}

#[test]
fn test_background_job_retries() {
    let mut job = stored_job("Retry Test", "once", "pending", 0, 3);
    increment_retries(&mut job);
    increment_retries(&mut job);
    assert_eq!(job.retries, 2);
    fail_job(&mut job, "timeout".to_string());
    assert_eq!(job.status, "failed");
    assert_eq!(job.error_message, Some("timeout".to_string()));
}

#[test]
fn test_background_job_cancel() {
    let mut job = stored_job("Cancel Me", "once", "pending", 0, 3);
    cancel_job(&mut job);
    assert_eq!(job.status, "cancelled");
    assert!(!job.is_active);
}

#[test]
fn test_pause_job_sets_inactive() {
    let mut job = stored_job("Pausable Cron", "cron", "pending", 0, 3);
    pause_job(&mut job);
    assert!(!job.is_active);
}

#[test]
fn test_resume_job_sets_active() {
    let mut job = stored_job("Resumable Cron", "cron", "pending", 0, 3);
    pause_job(&mut job);
    assert!(!job.is_active);
    resume_job(&mut job);
    assert!(job.is_active);
}

#[test]
fn test_pause_only_affects_cron_jobs() {
    let mut job = stored_job("One-off", "once", "pending", 0, 3);
    pause_job(&mut job);
    assert!(job.is_active);
}

#[test]
fn test_job_retry_increments_correctly() {
    let mut job = stored_job("Retry Test", "once", "pending", 0, 3);
    increment_retries(&mut job);
    assert_eq!(job.retries, 1);
    increment_retries(&mut job);
    assert_eq!(job.retries, 2);
    increment_retries(&mut job);
    assert_eq!(job.retries, 3);
}

#[test]
fn test_job_max_retries_check() {
    let mut job = stored_job("Max Retries", "once", "pending", 0, 2);
    increment_retries(&mut job);
    increment_retries(&mut job);
    assert_eq!(job.retries, 2);
    assert!(job.retries >= job.max_retries);
}

#[test]
fn test_job_retries_reset_on_completion() {
    let mut job = stored_job("Retry Reset", "cron", "running", 2, 3);
    complete_job(&mut job, "cron", Some("success".to_string()), None);
    assert_eq!(job.status, "completed");
    assert_eq!(job.retries, 2);
}

#[test]
fn test_cpu_check_within_limit() {
    let mut sys = sysinfo::System::new_all().expect("system information");
    sys.refresh_cpu_all();
    let cpu = sys.global_cpu_usage() as i32;
    assert!(check_cpu_usage(cpu, 100));
}

#[test]
fn test_cpu_check_below_threshold() {
    let mut sys = sysinfo::System::new_all().expect("system information");
    sys.refresh_cpu_all();
    let cpu = sys.global_cpu_usage() as i32;
    assert!(check_cpu_usage(cpu, cpu + 50));
}

#[test]
fn failing_a_job_clears_its_result() {
    let mut job = stored_job("F", "cron", "running", 1, 3);
    job.result = Some("old".to_string());
    fail_job(&mut job, "boom".to_string());
    assert_eq!(job.result, None);
    assert!(job.is_active);
    assert_eq!(job.retries, 1);
}

#[test]
fn test_job_response_serialization() {
    let job = BackgroundJob {
        id: Some(42),
        name: "Test Job".to_string(),
        schedule_type: "cron".to_string(),
        cron_expression: Some("0 * * * *".to_string()),
        priority: 5,
        max_cpu_percent: 70,
        status: "pending".to_string(),
        last_run: None,
        next_run: Some("2026-04-08T10:00:00Z".to_string()),
        retries: 0,
        max_retries: 3,
        payload: r#"{"agent_id":"test","message":"hello"}"#.to_string(),
        result: None,
        error_message: None,
        is_active: true,
        timeout_seconds: 3600,
    };
    let response = JobResponse::from(&job);
    assert_eq!(response.id, 42);
    assert_eq!(response.name, "Test Job");
    assert_eq!(response.schedule_type, "cron");
    assert_eq!(response.status, "pending");
    assert!(response.is_active);
    let payload: serde_json::Value = serde_json::from_str(&response.payload).unwrap();
    assert_eq!(payload["agent_id"], "test");
}

#[test]
fn responses_drop_what_is_not_json() {
    let mut job = stored_job("J", "once", "completed", 0, 3);
    job.payload = "not json".to_string();
    job.result = Some("plain text".to_string());
    let r = JobResponse::from(&job);
    assert_eq!(r.id, 0);
    assert_eq!(r.payload, "{}");
    assert_eq!(r.result, None);
    job.result = Some(r#"{"ok":true}"#.to_string());
    assert_eq!(JobResponse::from(&job).result, Some(r#"{"ok":true}"#.to_string()));
}
