use squid::chat::{loaded_thinking_steps, ThinkingStep};

fn reasoning(content: &str) -> ThinkingStep {
    ThinkingStep {
        step_type: "reasoning".to_string(),
        step_order: 0,
        content: Some(content.to_string()),
        tool_name: None,
        tool_arguments: None,
        tool_result: None,
        tool_error: None,
        content_before_tool: None,
    }
}

#[test]
fn test_empty_reasoning_steps_filtered() {
    let loaded = loaded_thinking_steps(vec![reasoning("")]);
    assert!(loaded.is_none());
}

#[test]
fn test_whitespace_reasoning_steps_filtered() {
    let loaded = loaded_thinking_steps(vec![reasoning("   \n\t  ")]);
    assert!(loaded.is_none());
}

#[test]
fn test_valid_reasoning_preserved() {
    let loaded = loaded_thinking_steps(vec![reasoning("This is valid reasoning content")]);
    assert!(loaded.is_some());
    let steps = loaded.unwrap();
    assert_eq!(steps.len(), 1);
    assert_eq!(steps[0].step_type, "reasoning");
    assert_eq!(steps[0].content.as_ref().unwrap(), "This is valid reasoning content");
}

#[test]
fn tool_steps_need_a_tool_name_and_order_is_kept() {
    let mut named = reasoning("");
    named.step_type = "tool".to_string();
    named.content = None;
    named.tool_name = Some("read_file".to_string());
    named.step_order = 2;
    let mut unnamed = named.clone();
    unnamed.tool_name = None;
    let mut other = reasoning("");
    other.step_type = "note".to_string();
    other.step_order = 3;
    let mut first = reasoning(" kept ");
    first.step_order = 1;
    let loaded = loaded_thinking_steps(vec![first, unnamed, named, reasoning(" "), other]).unwrap();
    let orders: Vec<i32> = loaded.iter().map(|s| s.step_order).collect();
    assert_eq!(orders, vec![1, 2, 3]);
    assert_eq!(loaded[1].tool_name, Some("read_file".to_string()));
}
