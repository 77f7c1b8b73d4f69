use pi_finder::catalog::{get_matching, matches_lowered, Catalog, DirListing, FileEntry};
use pi_finder::item::Item;
use pi_finder::rank::{goes_before, MatcherOutput};

fn path_item(name: &str) -> Item {
    Item::Path { name: name.to_string(), dir: "/usr/bin".to_string() }
}

fn desktop_item(name: &str, short: &str) -> Item {
    Item::Desktop {
        name: name.to_string(),
        filename: short.to_string(),
        terminal: false,
        program: short.to_string(),
        args: Vec::new(),
        working_dir: None,
        dir: "/usr/share/applications".to_string(),
    }
}

fn names(items: &[Item]) -> Vec<String> {
    items.iter().map(|i| i.name().to_string()).collect()
}

fn path_listing(dir: &str, files: &[&str]) -> DirListing {
    DirListing {
        dir: dir.to_string(),
        files: files.iter().map(|f| FileEntry { name: f.to_string(), contents: None }).collect(),
    }
}

fn desktop_file(file: &str, body: &str) -> FileEntry {
    FileEntry { name: file.to_string(), contents: Some(body.as_bytes().to_vec()) }
}

#[test]
fn exact_match_beats_shorter_path_item() {
    let out = MatcherOutput { items: vec![path_item("fire"), desktop_item("Firefox", "firefox")], search_term: "firefox" }
        .output();
    assert_eq!(names(&out), vec!["Firefox".to_string(), "fire".to_string()]);
    assert!(out[0].is_desktop());
}

#[test]
fn exact_path_item_beats_desktop_item() {
    let out = MatcherOutput { items: vec![desktop_item("Firefox Web", "firefox-web"), path_item("firefox")], search_term: "firefox" }
        .output();
    assert_eq!(names(&out), vec!["firefox".to_string(), "Firefox Web".to_string()]);
}

#[test]
fn desktop_before_path_whatever_the_length() {
    let out = MatcherOutput {
        items: vec![path_item("ed"), desktop_item("A very long editor name", "editor")],
        search_term: "e",
    }
    .output();
    assert_eq!(names(&out), vec!["A very long editor name".to_string(), "ed".to_string()]);
}

#[test]
fn shorter_name_first_ties_keep_catalog_order() {
    let out = MatcherOutput {
        items: vec![path_item("vimdiff"), path_item("vi2"), path_item("vim"), path_item("vi1")],
        search_term: "v",
    }
    .output();
    assert_eq!(
        names(&out),
        vec!["vi2".to_string(), "vim".to_string(), "vi1".to_string(), "vimdiff".to_string()]
    );
}

#[test]
fn length_is_counted_in_bytes() {
    let out = MatcherOutput { items: vec![path_item("éé"), path_item("abc")], search_term: "q" }.output();
    assert_eq!(names(&out), vec!["abc".to_string(), "éé".to_string()]);
}

#[test]
fn comparator_is_strict() {
    let a = path_item("abc");
    let q = "x".to_string();
    assert!(!goes_before(&a, &a, &q));
    assert!(goes_before(&desktop_item("zzzz", "z"), &a, &q));
    assert!(!goes_before(&a, &desktop_item("zzzz", "z"), &q));
}

#[test]
fn forty_matches_return_twenty_five() {
    let files: Vec<String> = (0..40).map(|i| format!("tool{}", i)).collect();
    let refs: Vec<&str> = files.iter().map(|f| f.as_str()).collect();
    let catalog = Catalog::build(&vec![path_listing("/usr/bin", &refs)]);
    assert_eq!(catalog.items().len(), 40);
    assert_eq!(get_matching(&catalog, "tool").len(), 25);
}

#[test]
fn fewer_matches_are_all_returned() {
    let catalog = Catalog::build(&vec![path_listing("/usr/bin", &["ls", "lsblk", "cat"])]);
    assert_eq!(names(&get_matching(&catalog, "ls")), vec!["ls".to_string(), "lsblk".to_string()]);
}

#[test]
fn search_filters_case_insensitively() {
    let catalog = Catalog::build(&vec![
        DirListing {
            dir: "/usr/share/applications".to_string(),
            files: vec![desktop_file("firefox.desktop", "[Desktop Entry]\nName=Firefox\nExec=firefox %u\n")],
        },
        path_listing("/usr/bin", &["fire", "cat"]),
    ]);
    let out = get_matching(&catalog, "FIRE");
    assert_eq!(names(&out), vec!["Firefox".to_string(), "fire".to_string()]);
    let exact = get_matching(&catalog, "firefox");
    assert_eq!(names(&exact), vec!["Firefox".to_string()]);
    assert!(get_matching(&catalog, "zzz").is_empty());
}

#[test]
fn search_matches_identifier_as_well_as_name() {
    let catalog = Catalog::build(&vec![DirListing {
        dir: "/apps".to_string(),
        files: vec![desktop_file("org.gnome.Terminal.desktop", "[Desktop Entry]\nName=Console\nExec=gnome-terminal\n")],
    }]);
    let out = get_matching(&catalog, "gnome");
    assert_eq!(names(&out), vec!["Console".to_string()]);
    assert_eq!(out[0].short_name(), "org.gnome.Terminal");
}

#[test]
fn search_is_deterministic() {
    let catalog = Catalog::build(&vec![path_listing("/bin", &["aa", "ab", "ba", "a"])]);
    let first = names(&get_matching(&catalog, "a"));
    let second = names(&get_matching(&catalog, "a"));
    assert_eq!(first, second);
    assert_eq!(first, vec!["a".to_string(), "aa".to_string(), "ab".to_string(), "ba".to_string()]);
}

#[test]
fn catalog_keeps_directory_then_file_order() {
    let catalog = Catalog::build(&vec![
        path_listing("/one", &["b", "a"]),
        DirListing { dir: "/apps".to_string(), files: vec![desktop_file("bad.desktop", "[Desktop Entry]\nName=Bad\n")] },
        path_listing("/two", &["c"]),
    ]);
    assert_eq!(names(catalog.items()), vec!["b".to_string(), "a".to_string(), "c".to_string()]);
    assert!(catalog.items().iter().all(|i| !i.short_name().is_empty()));
}

#[test]
fn lowered_matching_uses_name_or_identifier() {
    assert!(matches_lowered("fox", "firefox", "x"));
    assert!(matches_lowered("fox", "browser", "firefox"));
    assert!(!matches_lowered("fox", "browser", "web"));
    assert!(matches_lowered("", "a", "b"));
}

#[test]
fn catalog_never_holds_an_empty_identifier() {
    let catalog = Catalog::build(&vec![
        DirListing {
            dir: "/apps".to_string(),
            files: vec![
                desktop_file(".desktop", "[Desktop Entry]\nName=Hidden\nExec=hidden\n"),
                desktop_file("shown.desktop", "[Desktop Entry]\nName=Shown\nExec=shown\n"),
            ],
        },
        path_listing("/bin", &["", "sh"]),
    ]);
    assert_eq!(names(catalog.items()), vec!["Shown".to_string(), "sh".to_string()]);
    let out = get_matching(&catalog, "s");
    assert!(out.iter().all(|i| !i.short_name().is_empty()));
    assert_eq!(names(&out), vec!["Shown".to_string(), "sh".to_string()]);
}
