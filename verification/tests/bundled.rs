use squid::bundled::{choose_bundled_dir, is_in_target_dir, needs_write, sha256, Existing};

#[test]
fn test_is_in_target_dir() {
    assert!(is_in_target_dir("/home/user/project/target/debug/plugins"));
    assert!(is_in_target_dir("C:/Users/user/target/release/agents"));
    assert!(!is_in_target_dir("/home/user/.local/share/squid/bundled/plugins"));
}

#[test]
fn embedded_files_written_only_when_different() {
    assert!(needs_write(Existing::Absent, b"x"));
    assert!(needs_write(Existing::Unreadable, b"x"));
    assert!(!needs_write(Existing::Bytes(b"hello"), b"hello"));
    assert!(needs_write(Existing::Bytes(b"hello"), b"world"));
}

#[test]
fn bundled_dir_preference() {
    assert_eq!(choose_bundled_dir(Some("/d".to_string()), true, Some("/p/target/x".to_string()), true), Some("/d".to_string()));
    assert_eq!(choose_bundled_dir(Some("/d".to_string()), false, Some("/p/target/x".to_string()), true), Some("/p/target/x".to_string()));
    assert_eq!(choose_bundled_dir(None, false, Some("/p/out/x".to_string()), true), None);
}

#[test]
fn test_sha256_different_inputs() {
    let a = sha256(b"hello");
    let b = sha256(b"world");
    assert_ne!(a, b);
}

#[test]
fn test_sha256_same_inputs() {
    let a = sha256(b"hello");
    let b = sha256(b"hello");
    assert_eq!(a, b);
    assert_eq!(a.len(), 32);
    assert_eq!(a[0], 0x2c);
}
