use squid::envinfo::{format_env_context, sanitize_path, EnvContextConfig, EnvSnapshot};

fn snapshot() -> EnvSnapshot {
    EnvSnapshot {
        os_name: Some("Linux".to_string()),
        os_version: None,
        kernel_version: Some("6.1".to_string()),
        cpu_brand: None,
        platform: "linux".to_string(),
        arch: "x86_64".to_string(),
        family: "unix".to_string(),
        hostname: Some("box".to_string()),
        working_dir: Some("/home/u/proj".to_string()),
        home: Some("/home/u".to_string()),
        local_time: "2024-01-01 10:00:00.000 +01:00".to_string(),
        utc_time: "2024-01-01 09:00:00.000 +00:00".to_string(),
        timestamp: 1704099600,
        timezone: "+01:00".to_string(),
    }
}

#[test]
fn test_get_env_context_default() {
    let context = format_env_context(&snapshot(), &EnvContextConfig::default());
    assert!(context.contains("<env>"));
    assert!(context.contains("</env>"));
    assert!(context.contains("OS:"));
    assert!(context.contains("Unix Timestamp:"));
    assert!(!context.contains("Hostname:"));
    assert!(!context.contains("Working Directory:"));
}

#[test]
fn test_get_env_context_with_sensitive_data() {
    let config = EnvContextConfig { include_hostname: true, include_working_dir: true, sanitize_paths: true };
    let context = format_env_context(&snapshot(), &config);
    assert!(context.contains("<env>"));
    assert!(context.contains("OS:"));
    assert!(context.contains("Hostname: box"));
    assert!(context.contains("Working Directory: ~/proj"));
    assert!(context.contains("OS Version: unknown"));
    assert!(context.contains("CPU Architecture: x86_64"));
    assert!(context.contains("Unix Timestamp: 1704099600"));
}

#[test]
fn test_sanitize_path() {
    assert_eq!(sanitize_path("/home/u/projects/myapp", Some("/home/u")), "~/projects/myapp");
}

#[test]
fn test_sanitize_path_no_home() {
    let path = "/tmp/some/path";
    assert_eq!(sanitize_path(path, None), path);
    assert_eq!(sanitize_path(path, Some("/home/u")), path);
}
