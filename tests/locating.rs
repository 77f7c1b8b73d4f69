use pi_finder::locator::{join_dir, resolve_directories, split_search_path};

#[test]
fn search_path_duplicates_dropped_first_kept() {
    let dirs = resolve_directories(None, Some("/usr/bin:/usr/local/bin:/usr/bin"));
    assert_eq!(
        dirs,
        vec![
            "/usr/share/applications".to_string(),
            "/usr/bin".to_string(),
            "/usr/local/bin".to_string()
        ]
    );
    assert_eq!(dirs.iter().filter(|d| d.as_str() == "/usr/bin").count(), 1);
}

#[test]
fn home_directory_adds_user_applications() {
    let dirs = resolve_directories(Some("/home/u"), None);
    assert_eq!(
        dirs,
        vec![
            "/usr/share/applications".to_string(),
            "/home/u/.local/share/applications".to_string()
        ]
    );
}

#[test]
fn join_does_not_double_the_slash() {
    assert_eq!(join_dir("/home/u/", ".local/share/applications"), "/home/u/.local/share/applications");
    assert_eq!(join_dir("", "x"), "x");
    assert_eq!(join_dir("/", "x"), "/x");
}

#[test]
fn nothing_known_gives_system_directory_only() {
    assert_eq!(resolve_directories(None, None), vec!["/usr/share/applications".to_string()]);
}

#[test]
fn empty_search_path_pieces_are_kept_once() {
    assert_eq!(
        split_search_path("a::b:a:"),
        vec!["a".to_string(), String::new(), "b".to_string()]
    );
    assert_eq!(split_search_path(""), vec![String::new()]);
}
