use squid::api::{
    approval_response, approval_scope, default_page, default_page_size, find_model_metadata, is_embedding_model,
    model_for_request, model_info, paginate, validate_session_title, ApprovalStep, ModelMetadata, UpdateSessionRequest,
};

#[test]
fn pages_of_a_list() {
    let items: Vec<u32> = (0..7).collect();
    let (p1, total, pages) = paginate(items.clone(), 1, 3);
    assert_eq!(p1, vec![0, 1, 2]);
    assert_eq!((total, pages), (7, 3));
    let (p3, _, _) = paginate(items.clone(), 3, 3);
    assert_eq!(p3, vec![6]);
    let (p9, _, _) = paginate(items.clone(), 9, 3);
    assert!(p9.is_empty());
    let (p0, _, _) = paginate(items, 0, 3);
    assert_eq!(p0, vec![0, 1, 2]);
    assert_eq!((default_page(), default_page_size()), (1, 50));
}

#[test]
fn session_titles_are_trimmed_and_required() {
    assert_eq!(validate_session_title(&UpdateSessionRequest { title: "  New  ".to_string() }), Ok("New".to_string()));
    assert_eq!(
        validate_session_title(&UpdateSessionRequest { title: "   ".to_string() }),
        Err("Title cannot be empty".to_string())
    );
}

fn meta(name: &str, aliases: Option<Vec<String>>) -> ModelMetadata {
    ModelMetadata {
        name: name.to_string(),
        max_context_length: 32768,
        provider: "Qwen".to_string(),
        aliases,
        model_type: None,
        pricing_model: None,
    }
}

#[test]
fn model_metadata_lookup() {
    let entries = vec![
        ("qwen2.5-coder".to_string(), meta("Qwen Coder", None)),
        ("llama".to_string(), meta("Llama", Some(vec!["meta-llama-3".to_string()]))),
    ];
    assert_eq!(find_model_metadata(&entries, "llama"), Some(1));
    assert_eq!(find_model_metadata(&entries, "qwen2.5-coder-7b-instruct"), Some(0));
    assert_eq!(find_model_metadata(&entries, "meta-llama-3"), Some(1));
    assert_eq!(find_model_metadata(&entries, "mistral"), None);
    let info = model_info("mistral", None, 8192, &Some("default".to_string()));
    assert_eq!(info.name, "mistral");
    assert_eq!(info.provider, "Unknown");
    assert_eq!(info.max_context_length, 8192);
    assert!(is_embedding_model("text-embedding-nomic"));
    assert!(!is_embedding_model("qwen"));
    assert_eq!(model_for_request(&None, "m"), "m");
}

#[test]
fn approvals() {
    assert_eq!(approval_scope("", "bash"), "bash");
    assert_eq!(approval_scope("bash:ls", "bash"), "bash:ls");
    let r = approval_response(ApprovalStep::SaveFailed { error: "disk".to_string() });
    assert!(!r.success);
    assert_eq!(r.message, "Approval processed but failed to save to config: disk");
    assert!(approval_response(ApprovalStep::Done).success);
}

#[test]
fn server_address_and_approval_expiry() {
    assert_eq!(squid::api::bind_address(false, 3000), "127.0.0.1:3000");
    assert_eq!(squid::api::bind_address(true, 8080), "0.0.0.0:8080");
    assert!(squid::api::approval_kept(299));
    assert!(!squid::api::approval_kept(300));
}
