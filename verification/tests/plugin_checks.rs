use squid::config::Config;
use squid::plugins::{
    plugin_timeout_message, to_plugin_system_config, DiscoveredPlugin, PluginCallError, PluginContext, PluginManager,
    PluginMetadata, PluginRegistry, PluginSource, PluginSystemConfig, SecurityRequirements,
};
use squid::schema::SchemaValidator;

fn metadata(id: &str, title: &str, description: &str, input_schema: &str) -> PluginMetadata {
    PluginMetadata {
        id: id.to_string(),
        title: title.to_string(),
        description: description.to_string(),
        version: "0.1.0".to_string(),
        api_version: "1.0".to_string(),
        security: SecurityRequirements { requires: vec![], network: false, file_write: false },
        input_schema: input_schema.to_string(),
        output_schema: "{}".to_string(),
        plugin_path: String::new(),
        is_global: false,
    }
}

fn context(working_dir: &str, write: bool) -> PluginContext {
    let mut config = PluginSystemConfig::default();
    config.working_dir = working_dir.to_string();
    PluginContext::new(
        &config,
        "test-plugin".to_string(),
        false,
        write,
        vec![],
        Some("/home/user/project".to_string()),
        Some("/home/user".to_string()),
    )
}

const PERSON_SCHEMA: &str =
    r#"{"type":"object","properties":{"name":{"type":"string"},"age":{"type":"number"}},"required":["name"]}"#;

#[test]
fn test_tool_name_generation() {
    let m = metadata("test-plugin", "Test Plugin", "A test plugin", "{}");
    assert_eq!(m.tool_name(), "plugin:test-plugin");
}

#[test]
fn test_plugin_tool_name_format() {
    let m = metadata("my-plugin", "My Plugin", "Test", "{}");
    assert_eq!(m.tool_name(), "plugin:my-plugin");
}

#[test]
fn test_registry_creation() {
    let registry = PluginRegistry::new();
    assert_eq!(registry.plugin_count(), 0);
}

#[test]
fn test_plugin_registry_discovery() {
    let mut registry = PluginRegistry::new();
    let found = vec![
        DiscoveredPlugin { metadata: metadata("plugin1", "Test Plugin", "A test plugin", "{}"), source: PluginSource::Workspace, index_exists: true },
        DiscoveredPlugin { metadata: metadata("plugin2", "Test Plugin", "A test plugin", "{}"), source: PluginSource::Workspace, index_exists: true },
    ];
    let count = registry.discover(found);
    assert_eq!(count, 2);
    assert_eq!(registry.plugin_count(), 2);
    assert!(registry.has_plugin("plugin1"));
    assert!(registry.has_plugin("plugin2"));
}

#[test]
fn registry_prefers_workspace_over_global_for_same_plugin_id() {
    let mut registry = PluginRegistry::new();
    let found = vec![
        DiscoveredPlugin { metadata: metadata("shared", "global version", "", "{}"), source: PluginSource::Global, index_exists: true },
        DiscoveredPlugin { metadata: metadata("shared", "workspace version", "", "{}"), source: PluginSource::Workspace, index_exists: true },
    ];
    registry.discover(found);
    let m = registry.get_plugin("shared").expect("plugin should exist");
    assert_eq!(m.title, "workspace version");
    assert!(!m.is_global);
    let mut other_order = PluginRegistry::new();
    other_order.discover(vec![
        DiscoveredPlugin { metadata: metadata("shared", "workspace version", "", "{}"), source: PluginSource::Workspace, index_exists: true },
        DiscoveredPlugin { metadata: metadata("shared", "global version", "", "{}"), source: PluginSource::Global, index_exists: true },
    ]);
    assert_eq!(other_order.get_plugin("shared").unwrap().title, "workspace version");
    assert_eq!(other_order.plugin_count(), 1);
}

#[test]
fn test_json_schema_validation() {
    let validator = SchemaValidator::new(PERSON_SCHEMA).unwrap();
    assert!(validator.validate(r#"{"name":"Alice","age":30}"#).is_ok());
    assert!(validator.validate(r#"{"age":30}"#).is_err());
}

#[test]
fn test_valid_data() {
    let validator = SchemaValidator::new(PERSON_SCHEMA).unwrap();
    assert!(validator.validate(r#"{"name":"Alice","age":30}"#).is_ok());
}

#[test]
fn test_invalid_data_missing_required() {
    let schema = r#"{"type":"object","properties":{"name":{"type":"string"}},"required":["name"]}"#;
    let validator = SchemaValidator::new(schema).unwrap();
    let result = validator.validate(r#"{"age":30}"#);
    assert!(result.is_err());
    let errors = result.unwrap_err();
    assert!(!errors.is_empty());
}

#[test]
fn test_invalid_data_wrong_type() {
    let schema = r#"{"type":"object","properties":{"age":{"type":"number"}}}"#;
    let validator = SchemaValidator::new(schema).unwrap();
    assert!(validator.validate(r#"{"age":"not a number"}"#).is_err());
}

#[test]
fn test_is_valid() {
    let validator = SchemaValidator::new(r#"{"type":"string"}"#).unwrap();
    assert!(validator.is_valid(r#""hello""#));
    assert!(!validator.is_valid("123"));
}

#[test]
fn schema_validator_accepts_valid_and_rejects_invalid_data() {
    let schema = r#"{"type":"object","properties":{"name":{"type":"string"},"count":{"type":"number"}},"required":["name"]}"#;
    let validator = SchemaValidator::new(schema).expect("compile schema");
    assert!(validator.validate(r#"{"name":"ok","count":1}"#).is_ok());
    let errors = validator.validate(r#"{"count":1}"#).expect_err("missing required property should fail");
    assert!(!errors.is_empty());
}

#[test]
fn schema_errors_and_non_json_text() {
    match SchemaValidator::new("{not json") {
        Err(e) => assert!(e.starts_with("Failed to compile JSON schema: ")),
        Ok(_) => panic!("a text that is not JSON is no schema"),
    }
    match SchemaValidator::new(r#"{"type":"no-such-type"}"#) {
        Err(e) => assert!(e.starts_with("Failed to compile JSON schema: ")),
        Ok(_) => panic!("an unknown type does not compile"),
    }
    let v = SchemaValidator::new(r#"{"type":"string"}"#).unwrap();
    assert!(v.validate_text("not json").is_none());
    assert!(!v.is_valid("not json"));
    let errors = v.validate("1").unwrap_err();
    assert_eq!(errors.len(), 1);
    assert!(errors[0].starts_with(": "));
}

#[test]
fn test_write_file_permission_denied() {
    let ctx = context(".", false);
    let result = ctx.prepare_write("test.txt");
    assert!(result.is_err());
    assert!(result.unwrap_err().contains("file_write permission"));
}

#[test]
fn test_context_write_file_permission_denied() {
    let ctx = context(".", false);
    let result = ctx.prepare_write("test-output.txt");
    assert!(result.is_err());
    assert!(result.unwrap_err().contains("file_write permission"));
}

#[test]
fn test_project_dir() {
    let ctx = context(".", false);
    assert!(!ctx.project_dir().is_empty());
}

#[test]
fn test_project_dir_always_returns_dot() {
    for working_dir in ["/absolute/path", "./relative/path", "workspace"] {
        let ctx = context(working_dir, false);
        assert_eq!(ctx.project_dir(), ".");
    }
}

#[test]
fn test_resolve_path_relative() {
    let ctx = context(".", false);
    let resolved = ctx.resolve_path("src/main.rs");
    assert!(resolved.contains("src"));
    assert_eq!(resolved, "/home/user/project/./src/main.rs");
}

#[test]
fn test_resolve_path_absolute() {
    let ctx = context("./workspace", false);
    let absolute_path = "/absolute/path/file.txt";
    assert_eq!(ctx.resolve_path(absolute_path), absolute_path);
}

#[test]
fn test_system_paths_blocked_by_validator() {
    let ctx = context(".", false);
    let v = ctx.validator();
    for path in ["/etc/passwd", "/etc/shadow", "/root/.ssh/id_rsa"] {
        let result = v.check_resolved(path, v.blacklist(), v.whitelist());
        assert!(result.is_err(), "System path should be blocked: {}", path);
        let err = format!("Access denied: {}", result.unwrap_err().message());
        assert!(err.contains("Access denied") || err.contains("Permission denied") || err.contains("Failed to read"));
    }
}

#[test]
fn writes_and_network_follow_the_permissions() {
    let ctx = context("out", true);
    assert_eq!(ctx.prepare_write("a.txt"), Ok("/home/user/project/out/a.txt".to_string()));
    assert_eq!(ctx.check_network(), Err("Plugin does not have network permission".to_string()));
    assert_eq!(ctx.log("hi"), "[Plugin:test-plugin] hi");
}

#[test]
fn plugin_settings_follow_the_configuration() {
    let mut c = Config::default();
    c.plugins.load_global = false;
    c.plugins.default_timeout_seconds = 12;
    c.working_dir = "/srv".to_string();
    let p = to_plugin_system_config(&c, Some("/opt/bundled".to_string()));
    assert!(!p.load_global);
    assert!(p.load_workspace);
    assert_eq!(p.default_timeout_seconds, 12);
    assert_eq!(p.working_dir, "/srv");
    assert_eq!(p.bundled_plugins_dir, Some("/opt/bundled".to_string()));
    assert_eq!(p.ignore_file_name, ".squidignore");
    assert_eq!(plugin_timeout_message("echo", 30), "Plugin 'echo' exceeded timeout of 30s");
}

#[test]
fn calls_are_checked_before_they_run() {
    let mut m = PluginManager::new(PluginSystemConfig::default());
    let schema = r#"{"type":"object","properties":{"message":{"type":"string"}},"required":["message"]}"#;
    m.initialize(vec![
        DiscoveredPlugin { metadata: metadata("echo", "Echo", "echo plugin", schema), source: PluginSource::Bundled, index_exists: true },
        DiscoveredPlugin { metadata: metadata("broken", "Broken", "", r#"{"type":"no-such-type"}"#), source: PluginSource::Bundled, index_exists: true },
    ]);
    assert!(matches!(m.prepare_call("echo", "{}"), Err(PluginCallError::InvalidToolName)));
    match m.prepare_call("plugin:missing", "{}") {
        Err(PluginCallError::NotFound { message }) => assert_eq!(message, "Plugin 'missing' not found"),
        _ => panic!("expected not found"),
    }
    match m.prepare_call("plugin:broken", "{}") {
        Err(PluginCallError::BadSchema { message }) => assert!(message.starts_with("Failed to compile JSON schema: ")),
        _ => panic!("expected a bad schema"),
    }
    match m.prepare_call("plugin:echo", r#"{"message":1}"#) {
        Err(PluginCallError::InvalidInput { details }) => assert!(!details.is_empty()),
        _ => panic!("expected invalid input"),
    }
    assert_eq!(m.prepare_call("plugin:echo", r#"{"message":"hello"}"#).ok().map(|p| p.id.clone()), Some("echo".to_string()));
    assert!(m.prepare_call_text("plugin:echo", "{oops").is_none());
}

#[test]
fn call_errors_carry_their_texts() {
    assert_eq!(PluginCallError::InvalidToolName.message(), "Invalid plugin tool name");
    assert_eq!(PluginCallError::NotFound { message: "Plugin 'x' not found".to_string() }.message(), "Plugin 'x' not found");
    assert_eq!(PluginCallError::InvalidInput { details: vec!["/a: bad".to_string()] }.message(), "Input validation failed");
}

#[test]
fn the_global_manager_is_set_up_once() {
    let mut slot: Option<PluginManager> = None;
    let mut off = PluginSystemConfig::default();
    off.enabled = false;
    assert_eq!(squid::plugins::initialize(&mut slot, off, vec![]), Ok(()));
    assert!(slot.is_none());
    let first = vec![DiscoveredPlugin { metadata: metadata("echo", "Echo", "", "{}"), source: PluginSource::Bundled, index_exists: true }];
    assert_eq!(squid::plugins::initialize(&mut slot, PluginSystemConfig::default(), first), Ok(()));
    assert_eq!(slot.as_ref().unwrap().plugin_count(), 1);
    assert_eq!(
        squid::plugins::initialize(&mut slot, PluginSystemConfig::default(), vec![]),
        Err("Plugin manager already initialized".to_string())
    );
    assert_eq!(slot.as_ref().unwrap().plugin_count(), 1);
}

#[test]
fn violations_read_path_then_message() {
    let lines = squid::schema::violation_messages(&vec![
        ("/age".to_string(), "\"x\" is not of type \"number\"".to_string()),
        ("".to_string(), "\"name\" is a required property".to_string()),
    ]);
    assert_eq!(lines, vec!["/age: \"x\" is not of type \"number\"".to_string(), ": \"name\" is a required property".to_string()]);
}
