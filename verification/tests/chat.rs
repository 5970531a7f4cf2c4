use squid::chat::{
    build_chat_user_message, get_tool_description, history_for_request, merge_tool_call_delta, resolve_tool_call,
    session_preview, session_title, should_record_usage, take_tag_blocks, validate_attachments, FileAttachment,
    HistoryEntry, LiveTranscript, StreamAccumulator, StreamEvent, ToolCallDraft, ToolOutcome, ToolPermission,
};

#[test]
fn tool_call_fragments_are_assembled() {
    let mut drafts: Vec<ToolCallDraft> = Vec::new();
    merge_tool_call_delta(&mut drafts, 1, Some("call_b".to_string()), Some("grep".to_string()), Some("{\"p".to_string()));
    merge_tool_call_delta(&mut drafts, 1, None, None, Some("at\":1}".to_string()));
    merge_tool_call_delta(&mut drafts, 0, Some("call_a".to_string()), Some("read_file".to_string()), None);
    assert_eq!(drafts.len(), 2);
    assert_eq!(drafts[0].id, "call_a");
    assert_eq!(drafts[0].name, "read_file");
    assert_eq!(drafts[0].arguments, "");
    assert_eq!(drafts[1].arguments, "{\"pat\":1}");
}

#[test]
fn tagged_blocks_are_taken_out() {
    let (rest, inner) = take_tag_blocks("a<think> x </think>b<think>  </think>c", "<think>", "</think>");
    assert_eq!(rest, "abc");
    assert_eq!(inner, vec![" x ".to_string()]);
    let (rest2, inner2) = take_tag_blocks("</think>a<think>b", "<think>", "</think>");
    assert_eq!(rest2, "</think>a<think>b");
    assert!(inner2.is_empty());
    let (again, more) = take_tag_blocks(&rest, "<think>", "</think>");
    assert_eq!(again, rest);
    assert!(more.is_empty());
}

#[test]
fn stream_accumulator_collects_steps_in_order() {
    let mut acc = StreamAccumulator::new();
    acc.apply(&StreamEvent::Content { text: "Hi <think>plan".to_string() });
    assert!(acc.steps.is_empty());
    acc.apply(&StreamEvent::Content { text: " it</think> there".to_string() });
    assert_eq!(acc.steps.len(), 1);
    assert_eq!(acc.steps[0].content, Some("plan it".to_string()));
    assert_eq!(acc.steps[0].step_order, 0);
    acc.apply(&StreamEvent::ToolInvocationCompleted {
        name: "grep".to_string(),
        arguments: "{}".to_string(),
        result: Some("ok".to_string()),
        error: None,
    });
    assert_eq!(acc.steps.len(), 2);
    assert_eq!(acc.steps[1].step_type, "tool");
    assert_eq!(acc.steps[1].step_order, 1);
    assert_eq!(acc.steps[1].content_before_tool, Some("Hi <think>plan it</think> there".to_string()));
    acc.apply(&StreamEvent::Usage { input_tokens: 10, output_tokens: 5, reasoning_tokens: 0, cache_tokens: 0 });
    acc.apply(&StreamEvent::Usage { input_tokens: 1, output_tokens: 1, reasoning_tokens: 0, cache_tokens: 0 });
    assert_eq!((acc.input_tokens, acc.output_tokens), (11, 6));
    assert!(!acc.needs_usage_estimate());
    acc.apply(&StreamEvent::Content { text: " <tool_call>x</tool_call>!".to_string() });
    let reply = acc.finish();
    assert_eq!(reply.content, "Hi  there !");
    assert!(reply.save);
    assert_eq!(reply.steps.unwrap().len(), 2);
    assert!(should_record_usage(11, 0));
    assert!(!should_record_usage(0, 0));
}

#[test]
fn empty_stream_is_not_saved() {
    let acc = StreamAccumulator::new();
    assert!(acc.needs_usage_estimate());
    let reply = acc.finish();
    assert!(!reply.save);
    assert!(reply.steps.is_none());
}

#[test]
fn live_transcript_removes_reasoning() {
    let mut t = LiveTranscript::new();
    t.absorb("Answer <think>why");
    assert_eq!(t.content, "Answer <think>why");
    t.absorb("</think> done");
    assert_eq!(t.content, "Answer  done");
    assert_eq!(t.steps.len(), 1);
}

#[test]
fn tool_calls_resolve_by_permission() {
    assert!(matches!(resolve_tool_call("bash", ToolPermission::Allowed, None), ToolOutcome::Run));
    match resolve_tool_call("bash", ToolPermission::Denied { reason: "no".to_string() }, None) {
        ToolOutcome::Skipped { reason } => assert_eq!(reason, "no"),
        _ => panic!("expected skip"),
    }
    assert!(matches!(resolve_tool_call("bash", ToolPermission::NeedsApproval, Some(true)), ToolOutcome::Run));
    match resolve_tool_call("bash", ToolPermission::NeedsApproval, None) {
        ToolOutcome::Rejected { message } => assert_eq!(message, "Tool 'bash' was not executed because you rejected it."),
        _ => panic!("expected rejection"),
    }
    assert_eq!(get_tool_description("grep"), "Search for a pattern in files using regex");
    assert_eq!(get_tool_description("x"), "Execute tool: x");
}

#[test]
fn history_keeps_user_and_assistant_messages() {
    let msgs = vec![
        HistoryEntry { role: "system".to_string(), content: "s".to_string() },
        HistoryEntry { role: "user".to_string(), content: "q1".to_string() },
        HistoryEntry { role: "assistant".to_string(), content: "a1".to_string() },
        HistoryEntry { role: "user".to_string(), content: "q2".to_string() },
    ];
    let h = history_for_request(&msgs, true);
    assert_eq!(h.len(), 2);
    assert_eq!(h[1].content, "a1");
    assert_eq!(history_for_request(&msgs, false).len(), 3);
}

#[test]
fn chat_message_with_files() {
    let files = vec![FileAttachment { filename: "a.txt".to_string(), content: "A".to_string() }];
    assert_eq!(
        build_chat_user_message("ENV", &files, "q"),
        "ENV\n\nHere is the content of 'a.txt':\n\n```\nA\n```\n\nUser query: q"
    );
    assert_eq!(build_chat_user_message("ENV", &Vec::new(), "q"), "ENV\n\nUser query: q");
}

#[test]
fn attachments_over_ten_megabytes_are_refused() {
    let big = FileAttachment { filename: "big.bin".to_string(), content: "x".repeat(10 * 1024 * 1024 + 1) };
    let ok = FileAttachment { filename: "ok".to_string(), content: "x".to_string() };
    assert!(validate_attachments(&vec![ok.clone()]).is_ok());
    assert_eq!(
        validate_attachments(&vec![ok, big]),
        Err("File 'big.bin' exceeds size limit of 10MB (10485761 bytes > 10485760 bytes)".to_string())
    );
}

#[test]
fn titles_and_previews_are_cut_by_bytes() {
    let long = "a".repeat(120);
    let t = session_title(&long);
    assert_eq!(t.len(), 100);
    assert!(t.ends_with("..."));
    assert_eq!(session_title("short"), "short");
    assert_eq!(session_preview(&long).len(), 103);
}

#[test]
fn a_tool_round_is_added_to_the_next_request() {
    use_tool_round();
}

fn use_tool_round() {
    let mut messages = vec![squid::chat::RequestMessage::User { content: "hi".to_string() }];
    let calls = vec![
        ToolCallDraft { id: "c1".to_string(), name: "read_file".to_string(), arguments: "{}".to_string() },
        ToolCallDraft { id: "c2".to_string(), name: "grep".to_string(), arguments: "{}".to_string() },
    ];
    squid::chat::add_tool_round(&mut messages, calls, vec!["one".to_string(), "two".to_string()]);
    assert_eq!(messages.len(), 4);
    match &messages[1] {
        squid::chat::RequestMessage::Assistant { content, tool_calls } => {
            assert!(content.is_none());
            assert_eq!(tool_calls.len(), 2);
        }
        _ => panic!("expected the assistant's turn"),
    }
    match &messages[3] {
        squid::chat::RequestMessage::Tool { content, tool_call_id } => {
            assert_eq!(content, "two");
            assert_eq!(tool_call_id, "c2");
        }
        _ => panic!("expected a tool message"),
    }
}
