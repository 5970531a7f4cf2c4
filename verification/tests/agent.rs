use squid::agent::{choose_agents_dir, register_agent_file, split_frontmatter, AgentMetadata, AgentPermissions, AgentsConfig};

fn metadata(name: &str, model: &str) -> AgentMetadata {
    AgentMetadata {
        name: name.to_string(),
        enabled: true,
        description: String::new(),
        model: model.to_string(),
        context_window: None,
        pricing_model: None,
        permissions: AgentPermissions::new(),
        use_tools: true,
        suggestions: Vec::new(),
    }
}

/// An agent file as `parse_agent_file` reads it: the front matter split off by
/// the library, then read as YAML.
fn parse(content: &str) -> Option<(serde_yaml::Value, String)> {
    let (yaml, prompt) = split_frontmatter(content)?;
    let value: serde_yaml::Value = serde_yaml::from_str(&yaml).ok()?;
    Some((value, prompt))
}

fn strings(v: &serde_yaml::Value) -> Vec<String> {
    v.as_sequence().unwrap().iter().map(|s| s.as_str().unwrap().to_string()).collect()
}

#[test]
fn test_parse_agent_file_valid() {
    let content = r#"---
name: Test Agent
enabled: true
description: A test agent
model: test-model
permissions:
  - read_file
  - write_file
suggestions:
  - Test suggestion 1
---
You are a test agent prompt.
"#;
    let result = parse(content);
    assert!(result.is_some());
    let (metadata, prompt) = result.unwrap();
    assert_eq!(metadata["name"].as_str(), Some("Test Agent"));
    assert_eq!(metadata["enabled"].as_bool(), Some(true));
    assert_eq!(metadata["description"].as_str(), Some("A test agent"));
    assert_eq!(metadata["model"].as_str(), Some("test-model"));
    assert_eq!(strings(&metadata["permissions"]), vec!["read_file", "write_file"]);
    assert_eq!(strings(&metadata["suggestions"]), vec!["Test suggestion 1"]);
    assert_eq!(prompt, "You are a test agent prompt.");
}

#[test]
fn test_parse_agent_file_no_prompt() {
    let content = r#"---
name: No Prompt Agent
enabled: true
description: An agent without a prompt
model: test-model
permissions: []
---
"#;
    let result = parse(content);
    assert!(result.is_some());
    let (metadata, prompt) = result.unwrap();
    assert_eq!(metadata["name"].as_str(), Some("No Prompt Agent"));
    assert_eq!(prompt, "");
}

#[test]
fn test_parse_agent_file_use_tools_false() {
    let content = r#"---
name: No Tools Agent
enabled: true
description: An agent without tools
model: test-model
use_tools: false
permissions: []
---
You cannot use tools.
"#;
    let result = parse(content);
    assert!(result.is_some());
    let (metadata, _) = result.unwrap();
    assert_eq!(metadata["use_tools"].as_bool(), Some(false));
}

#[test]
fn test_parse_agent_file_invalid_no_frontmatter() {
    let content = "Just plain text without frontmatter";
    assert!(parse(content).is_none());
    assert!(split_frontmatter(content).is_none());
}

#[test]
fn test_parse_agent_file_invalid_yaml() {
    let content = r#"---
name: [invalid yaml
---
Prompt
"#;
    assert!(split_frontmatter(content).is_some());
    assert!(parse(content).is_none());
}

#[test]
fn test_parse_agent_file_empty_permissions() {
    let content = r#"---
name: Empty Perms Agent
enabled: true
description: An agent with no permissions
model: test-model
permissions: []
---
Test prompt.
"#;
    let result = parse(content);
    assert!(result.is_some());
    let (metadata, _) = result.unwrap();
    assert!(strings(&metadata["permissions"]).is_empty());
}

#[test]
fn test_parse_agent_file_with_context_window() {
    let content = r#"---
name: Context Agent
enabled: true
description: An agent with custom context window
model: test-model
context_window: 16384
pricing_model: gpt-4o-mini
permissions:
  - read_file
---
Test prompt.
"#;
    let result = parse(content);
    assert!(result.is_some());
    let (metadata, _) = result.unwrap();
    assert_eq!(metadata["context_window"].as_u64(), Some(16384));
    assert_eq!(metadata["pricing_model"].as_str(), Some("gpt-4o-mini"));
}

#[test]
fn frontmatter_split_edges() {
    let (yaml, prompt) = split_frontmatter("---\nname: Test\nmodel: m\n---\n\nYou are helpful.\n").unwrap();
    assert_eq!(yaml, "\nname: Test\nmodel: m");
    assert_eq!(prompt, "You are helpful.");
    assert!(split_frontmatter("---\nname: x\n").is_none());
}

#[test]
fn agent_files_register_by_stem() {
    let mut agents = AgentsConfig::new();
    register_agent_file(&mut agents, "agents/auditor.md", Some((metadata("Auditor", "m1"), "Review.".to_string())));
    register_agent_file(&mut agents, "agents/notes.txt", Some((metadata("Notes", "m2"), String::new())));
    register_agent_file(&mut agents, "agents/broken.md", None);
    assert_eq!(agents.agents.len(), 1);
    assert_eq!(agents.agents[0].0, "auditor");
    assert_eq!(agents.agents[0].1.prompt, Some("Review.".to_string()));
    register_agent_file(&mut agents, "other/auditor.md", Some((metadata("Auditor 2", "m3"), String::new())));
    assert_eq!(agents.agents.len(), 1);
    assert_eq!(agents.agents[0].1.model, "m3");
    assert_eq!(agents.agents[0].1.prompt, None);
}

#[test]
fn agents_directory_resolution() {
    assert_eq!(choose_agents_dir(Some("/env".to_string()), Some("/cfg"), true, true, None), "/env");
    assert_eq!(choose_agents_dir(None, Some("/cfg"), true, true, None), "/cfg/agents");
    assert_eq!(choose_agents_dir(None, Some("/cfg"), false, true, None), "agents");
    assert_eq!(choose_agents_dir(None, None, false, false, Some("/b".to_string())), "/b");
    assert_eq!(choose_agents_dir(None, None, false, false, None), "agents");
}

#[test]
fn test_get_agents_dir_from_env() {
    assert_eq!(choose_agents_dir(None, None, false, true, None), "agents");
    assert_eq!(choose_agents_dir(Some("/custom/agents".to_string()), None, false, true, None), "/custom/agents");
}

#[test]
fn test_get_agents_dir_from_config() {
    let result = choose_agents_dir(None, Some("/tmp/squid_test_config"), true, false, None);
    assert_eq!(result, "/tmp/squid_test_config/agents");
}

#[test]
fn test_get_agents_dir_default() {
    assert_eq!(choose_agents_dir(None, None, false, false, None), "agents");
}
