use squid::plugins::{get_global_plugins_dir, get_workspace_plugins_dir};

#[test]
fn test_workspace_dir() {
    let dir = get_workspace_plugins_dir();
    assert_eq!(dir, "./plugins");
}

#[test]
fn global_dir_under_home() {
    assert!(get_global_plugins_dir(None).is_none());
    assert!(get_global_plugins_dir(Some("/home/u".to_string())).is_some());
}
