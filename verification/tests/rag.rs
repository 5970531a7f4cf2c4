use squid::rag::{
    retrieved_context, RetrievedChunk,
    index_action, supported_extensions, DocumentManager, FileEventKind, IndexAction, IndexStats,
    WatchAction,
};

#[test]
fn test_document_manager_new() {
    let manager = DocumentManager::new(512, 50);
    assert_eq!(manager.chunk_size, 512);
    assert_eq!(manager.chunk_overlap, 50);
}

#[test]
fn test_supported_extensions() {
    let manager = DocumentManager::new(512, 50);
    assert!(manager.is_supported_extension("test.md"));
    assert!(manager.is_supported_extension("test.rs"));
    assert!(manager.is_supported_extension("test.py"));
    assert!(manager.is_supported_extension("test.js"));
    assert!(manager.is_supported_extension("test.ts"));
    assert!(manager.is_supported_extension("test.jsx"));
    assert!(manager.is_supported_extension("test.tsx"));
    assert!(manager.is_supported_extension("test.json"));
    assert!(manager.is_supported_extension("test.yaml"));
    assert!(manager.is_supported_extension("test.yml"));
    assert!(!manager.is_supported_extension("test.exe"));
    assert!(!manager.is_supported_extension("test.bin"));
    assert!(!manager.is_supported_extension("test.pdf"));
    assert!(!manager.is_supported_extension("test"));
}

#[test]
fn test_supported_extensions_constant() {
    let exts = supported_extensions();
    assert!(exts.contains(&"md"));
    assert!(exts.contains(&"rs"));
    assert!(exts.contains(&"py"));
    assert!(exts.contains(&"js"));
    assert!(exts.contains(&"json"));
    assert!(!exts.contains(&"exe"));
    assert!(!exts.contains(&"bin"));
    assert!(!exts.contains(&"pdf"));
}

#[test]
fn test_document_manager_empty_text() {
    let manager = DocumentManager::new(512, 50);
    let result = manager.chunk_text("");
    assert!(result.is_ok());
    assert_eq!(result.unwrap().len(), 0);
}

#[test]
fn test_document_manager_small_text() {
    let manager = DocumentManager::new(1000, 100);
    let text = "Small text.";
    let chunks = manager.chunk_text(text).unwrap();
    assert_eq!(chunks.len(), 1);
    assert_eq!(chunks[0].index, 0);
    assert_eq!(chunks[0].text, text);
}

#[test]
fn test_document_manager_chunking() {
    let manager = DocumentManager::new(100, 20);
    let text = "This is a test document. ".repeat(50);
    let chunks = manager.chunk_text(&text).unwrap();
    assert!(!chunks.is_empty());
    for chunk in &chunks {
        assert!(!chunk.text.is_empty());
        assert!(chunk.tokens > 0);
    }
}

#[test]
fn test_document_manager_chunking_with_overlap() {
    let manager = DocumentManager::new(50, 10);
    let text = "Word ".repeat(100);
    let chunks = manager.chunk_text(&text).unwrap();
    assert!(chunks.len() > 1);
    for (i, chunk) in chunks.iter().enumerate() {
        assert_eq!(chunk.index, i);
    }
}

#[test]
fn test_chunk_indices_are_sequential() {
    let manager = DocumentManager::new(50, 10);
    let text = "Word ".repeat(100);
    let chunks = manager.chunk_text(&text).unwrap();
    for (i, chunk) in chunks.iter().enumerate() {
        assert_eq!(chunk.index, i);
    }
}

#[test]
fn windows_overlap_by_the_configured_amount() {
    let manager = DocumentManager::new(50, 10);
    let text = "Word ".repeat(100);
    let chunks = manager.chunk_text(&text).unwrap();
    for c in &chunks {
        assert!(c.tokens <= 50);
    }
}

#[test]
fn overlap_not_below_size_is_refused_without_looping() {
    let manager = DocumentManager::new(10, 10);
    let text = "Word ".repeat(100);
    assert!(manager.try_chunk_text(&text).is_none());
    assert!(manager.try_chunk_text("Hi").is_some());
}

#[test]
fn test_content_hash() {
    let manager = DocumentManager::new(512, 50);
    let hash1 = manager.calculate_content_hash("test content");
    let hash2 = manager.calculate_content_hash("test content");
    let hash3 = manager.calculate_content_hash("different content");
    assert_eq!(hash1, hash2);
    assert_ne!(hash1, hash3);
    let hash_empty = manager.calculate_content_hash("");
    assert_eq!(hash_empty, "e3b0c44298fc1c149afbf4c8996fb92427ae41e4649b934ca495991b7852b855");
    assert_eq!(hash1.len(), 64);
}

#[test]
fn index_decisions() {
    assert_eq!(index_action(0, None, "h"), IndexAction::NothingToIndex);
    assert_eq!(index_action(2, Some("h"), "h"), IndexAction::Unchanged);
    assert_eq!(index_action(2, Some("g"), "h"), IndexAction::Reindex);
    assert_eq!(index_action(2, None, "h"), IndexAction::Index);
    let mut s = IndexStats::new();
    s.record(true);
    s.record(false);
    assert_eq!((s.files_processed, s.files_failed), (1, 1));
}

#[test]
fn watcher_actions() {
    let m = DocumentManager::new(512, 50);
    assert!(matches!(m.watch_action(FileEventKind::Modify, "docs/a.md", true), WatchAction::Index));
    assert!(matches!(m.watch_action(FileEventKind::Create, "docs/a.exe", true), WatchAction::Ignore));
    match m.watch_action(FileEventKind::Remove, "docs/a.md", false) {
        WatchAction::Remove { filename } => assert_eq!(filename, "a.md"),
        _ => panic!("expected removal"),
    }
}

#[test]
fn test_chunk_token_counts_are_positive() {
    let manager = DocumentManager::new(100, 20);
    let text = "This is a test. ".repeat(20);
    let chunks = manager.chunk_text(&text).unwrap();
    for chunk in chunks {
        assert!(chunk.tokens > 0, "All chunks should have positive token count");
    }
}

#[test]
fn test_document_manager_with_special_characters() {
    let manager = DocumentManager::new(512, 50);
    let text = "Special chars: !@#$%^&*()_+-=[]{}|;':\",./<>?\n\t\r";
    let chunks = manager.chunk_text(text).unwrap();
    assert!(!chunks.is_empty());
    assert!(chunks[0].text.contains("Special chars"));
}

#[test]
fn test_document_manager_with_unicode() {
    let manager = DocumentManager::new(512, 50);
    let text = "Unicode: 你好世界 🌍 émojis ñ café";
    let chunks = manager.chunk_text(text).unwrap();
    assert!(!chunks.is_empty());
    assert!(chunks[0].text.contains("你好世界"));
    assert!(chunks[0].text.contains("🌍"));
}

#[test]
fn test_hash_consistency_across_calls() {
    let manager = DocumentManager::new(512, 50);
    let content = "Consistent content";
    let hashes: Vec<String> = (0..5).map(|_| manager.calculate_content_hash(content)).collect();
    for hash in &hashes {
        assert_eq!(hash, &hashes[0]);
    }
}

#[test]
fn retrieved_context_lists_sources_in_order() {
    assert_eq!(retrieved_context(&vec![]), "");
    let chunks = vec![
        RetrievedChunk { filename: "a.md".to_string(), relevance: "0.912".to_string(), chunk_text: "alpha".to_string() },
        RetrievedChunk { filename: "b.rs".to_string(), relevance: "0.500".to_string(), chunk_text: "beta".to_string() },
    ];
    assert_eq!(
        retrieved_context(&chunks),
        "# Retrieved Context\n\n## Source 1: a.md (relevance: 0.912)\n\nalpha\n\n## Source 2: b.rs (relevance: 0.500)\n\nbeta\n\n"
    );
}

#[test]
fn test_process_document() {
    let manager = DocumentManager::new(100, 20);
    let content = "This is test content. ".repeat(50);
    let (read_content, chunks) = manager.process_document(content.clone()).unwrap();
    assert_eq!(read_content, content);
    assert!(!chunks.is_empty());
    for chunk in chunks {
        assert!(!chunk.text.is_empty());
        assert!(chunk.tokens > 0);
    }
    let never_advances = DocumentManager::new(10, 10);
    assert!(never_advances.try_process_document(content).is_none());
}
