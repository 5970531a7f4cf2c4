use squid::llm::{
    combine_prompts, compose_user_message, rendered_or, enhance_file_content, full_question, get_review_prompt_for_file,
    should_enable_rag, strip_reasoning_blocks, ReviewPrompt,
};

#[test]
fn test_strip_reasoning_blocks_single() {
    let content = "Hello <think>internal reasoning here</think> world!";
    assert_eq!(strip_reasoning_blocks(content), "Hello  world!");
}

#[test]
fn test_strip_reasoning_blocks_multiple() {
    let content = "Start <think>first thought</think> middle <think>second thought</think> end";
    assert_eq!(strip_reasoning_blocks(content), "Start  middle  end");
}

#[test]
fn test_strip_reasoning_blocks_empty() {
    let content = "Hello <think></think> world!";
    assert_eq!(strip_reasoning_blocks(content), "Hello  world!");
}

#[test]
fn test_strip_reasoning_blocks_no_blocks() {
    let content = "Hello world!";
    assert_eq!(strip_reasoning_blocks(content), "Hello world!");
}

#[test]
fn test_strip_reasoning_blocks_malformed() {
    let content = "Hello <think>unclosed reasoning";
    assert_eq!(strip_reasoning_blocks(content), "Hello <think>unclosed reasoning");
}

#[test]
fn test_strip_reasoning_blocks_with_newlines() {
    let content = "Text before\n<think>\nMulti-line\nreasoning\n</think>\nText after";
    assert_eq!(strip_reasoning_blocks(content), "Text before\n\nText after");
}

#[test]
fn stripping_twice_changes_nothing() {
    let once = strip_reasoning_blocks("a <think>x</think> b <think>y");
    assert_eq!(strip_reasoning_blocks(&once), once);
}

#[test]
fn review_prompt_by_name_and_extension() {
    assert_eq!(get_review_prompt_for_file("src/main.rs"), ReviewPrompt::Rust);
    assert_eq!(get_review_prompt_for_file("deploy/Dockerfile.prod"), ReviewPrompt::Docker);
    assert_eq!(get_review_prompt_for_file("Makefile"), ReviewPrompt::Makefile);
    assert_eq!(get_review_prompt_for_file("notes.unknown"), ReviewPrompt::General);
}

#[test]
fn user_message_with_and_without_file() {
    assert_eq!(compose_user_message("Why?", None, None), "User query: Why?");
    assert_eq!(
        compose_user_message("Why?", Some("fn main() {}"), Some("a.rs")),
        "Here is the content of the file 'a.rs':\n\n```\nfn main() {}\n```\n\nUser query: Why?"
    );
}

#[test]
fn question_assembly() {
    assert_eq!(full_question("explain", Some("briefly")), "explain briefly");
    assert_eq!(combine_prompts("P", None, "T", None), "P\n\nT");
    assert_eq!(combine_prompts("P {{x}}", Some("P 1".to_string()), "T", None), "P 1\n\nT");
    assert_eq!(rendered_or("T {{x}}", Some("T 2".to_string())), "T 2");
    assert_eq!(rendered_or("T {{x}}", None), "T {{x}}");
    assert_eq!(
        enhance_file_content(Some("ctx".to_string()), Some("file".to_string())),
        Some("ctx\n\n# Provided File:\n\nfile".to_string())
    );
    assert!(!should_enable_rag(true, true, true));
    assert!(should_enable_rag(false, true, false));
    assert!(should_enable_rag(true, false, false));
}

#[test]
fn stripping_twice_changes_nothing_more() {
    for s in [
        "  <think>a</think> answer <think>b</think>  ",
        "<think>unclosed answer",
        "x</think> y <think>z",
        "\n<think>\n</think>\n",
    ] {
        let once = strip_reasoning_blocks(s);
        assert_eq!(strip_reasoning_blocks(&once), once);
    }
}
