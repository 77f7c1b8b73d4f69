use pi_finder::command::command_tokens;
use pi_finder::item::{is_desktop_file, strip_desktop_suffix, Item};

fn desktop_fields(it: &Item) -> (String, String, bool, String, Vec<String>, Option<String>, String) {
    match it {
        Item::Desktop { name, filename, terminal, program, args, working_dir, dir } => (
            name.clone(),
            filename.clone(),
            *terminal,
            program.clone(),
            args.clone(),
            working_dir.clone(),
            dir.clone(),
        ),
        Item::Path { .. } => panic!("expected a desktop item"),
    }
}

fn s(x: &str) -> Option<String> {
    Some(x.to_string())
}

#[test]
fn placeholders_leave_program_without_arguments() {
    let it = Item::from_attributes("vim", "/usr/share/applications", s("Vim"), s("vim %F %f"), None, None)
        .expect("entry kept");
    let (name, short, terminal, program, args, wd, dir) = desktop_fields(&it);
    assert_eq!(name, "Vim");
    assert_eq!(short, "vim");
    assert!(!terminal);
    assert_eq!(program, "vim");
    assert!(args.is_empty());
    assert_eq!(wd, None);
    assert_eq!(dir, "/usr/share/applications");
}

#[test]
fn placeholders_stripped_from_parsed_file() {
    let bytes = b"[Desktop Entry]\nName=Vim\nExec=vim %F %f\n";
    let it = Item::new("vim.desktop", "/usr/share/applications", Some(&bytes[..])).expect("entry kept");
    let (name, short, _, program, args, _, _) = desktop_fields(&it);
    assert_eq!(name, "Vim");
    assert_eq!(short, "vim");
    assert_eq!(program, "vim");
    assert!(args.is_empty());
}

#[test]
fn only_placeholders_discards_entry() {
    assert!(Item::from_attributes("x", "/d", s("X"), s("%f %F"), None, None).is_none());
    let bytes = b"[Desktop Entry]\nName=X\nExec=%f %F\n";
    assert!(Item::new("x.desktop", "/d", Some(&bytes[..])).is_none());
}

#[test]
fn url_placeholders_are_stripped_too() {
    let toks = command_tokens("browser %u --new %U");
    assert_eq!(toks, vec!["browser".to_string(), "--new".to_string()]);
}

#[test]
fn stripping_twice_changes_nothing() {
    let once = command_tokens("app %f -a %F b %u");
    let twice = command_tokens(&once.join(" "));
    assert_eq!(once, vec!["app".to_string(), "-a".to_string(), "b".to_string()]);
    assert_eq!(twice, once);
}

#[test]
fn double_space_gives_empty_token() {
    let toks = command_tokens("vim  -x");
    assert_eq!(toks, vec!["vim".to_string(), String::new(), "-x".to_string()]);
}

#[test]
fn missing_name_or_exec_discards_entry() {
    assert!(Item::from_attributes("a", "/d", None, s("a"), None, None).is_none());
    assert!(Item::from_attributes("a", "/d", s("A"), None, None, None).is_none());
    let no_name = b"[Desktop Entry]\nExec=a\n";
    assert!(Item::new("a.desktop", "/d", Some(&no_name[..])).is_none());
    let no_exec = b"[Desktop Entry]\nName=A\n";
    assert!(Item::new("a.desktop", "/d", Some(&no_exec[..])).is_none());
}

#[test]
fn terminal_only_for_literal_true() {
    let yes = Item::from_attributes("t", "/d", s("T"), s("htop"), s("true"), None).unwrap();
    assert!(desktop_fields(&yes).2);
    let upper = Item::from_attributes("t", "/d", s("T"), s("htop"), s("True"), None).unwrap();
    assert!(!desktop_fields(&upper).2);
    let no = Item::from_attributes("t", "/d", s("T"), s("htop"), s("false"), None).unwrap();
    assert!(!desktop_fields(&no).2);
}

#[test]
fn parsed_file_keeps_all_attributes() {
    let bytes = b"[Desktop Entry]\nName=Top\nExec=htop -d 10 %U\nTerminal=true\nPath=/tmp\n";
    let it = Item::new("htop.desktop", "/apps", Some(&bytes[..])).unwrap();
    let (name, short, terminal, program, args, wd, dir) = desktop_fields(&it);
    assert_eq!(name, "Top");
    assert_eq!(short, "htop");
    assert!(terminal);
    assert_eq!(program, "htop");
    assert_eq!(args, vec!["-d".to_string(), "10".to_string()]);
    assert_eq!(wd, s("/tmp"));
    assert_eq!(dir, "/apps");
}

#[test]
fn attributes_of_other_sections_are_ignored() {
    let bytes = b"[Other]\nName=A\nExec=a\n";
    assert!(Item::new("a.desktop", "/d", Some(&bytes[..])).is_none());
}

#[test]
fn unreadable_or_malformed_desktop_file_is_discarded() {
    assert!(Item::new("a.desktop", "/d", None).is_none());
    let bad = b"[Desktop Entry]\nName=\xff\xfe\nExec=a\n";
    assert!(Item::new("a.desktop", "/d", Some(&bad[..])).is_none());
}

#[test]
fn other_files_become_path_items() {
    let it = Item::new("htop", "/usr/bin", None).unwrap();
    assert!(!it.is_desktop());
    assert_eq!(it.name(), "htop");
    assert_eq!(it.short_name(), "htop");
    assert_eq!(it.dir(), "/usr/bin");
}

#[test]
fn desktop_suffix_recognised() {
    assert!(is_desktop_file("firefox.desktop"));
    assert!(!is_desktop_file("firefox.desktop.bak"));
    assert!(!is_desktop_file("desktop"));
}

#[test]
fn render_shows_name_and_directory() {
    let it = Item::from_attributes("firefox", "/usr/share/applications", s("Firefox"), s("firefox %u"), None, None)
        .unwrap();
    assert_eq!(it.render(), "Firefox (/usr/share/applications)");
    assert_eq!(it.short_name(), "firefox");
    assert!(it.is_desktop());
}

#[test]
fn empty_name_or_program_discards_entry() {
    assert!(Item::from_attributes("a", "/d", s(""), s("a"), None, None).is_none());
    assert!(Item::from_attributes("a", "/d", s("A"), s(""), None, None).is_none());
    assert!(Item::from_attributes("a", "/d", s("A"), s(" a"), None, None).is_none());
    let kept = Item::from_attributes("a", "/d", s("A"), s("a "), None, None).unwrap();
    assert_eq!(desktop_fields(&kept).4, vec![String::new()]);
}

#[test]
fn suffix_stripped_once() {
    assert_eq!(strip_desktop_suffix("firefox.desktop"), "firefox");
    assert_eq!(strip_desktop_suffix("a.desktop.desktop"), "a.desktop");
    assert_eq!(strip_desktop_suffix("htop"), "htop");
}

#[test]
fn bare_suffix_or_empty_name_gives_no_item() {
    let bytes = b"[Desktop Entry]\nName=A\nExec=a\n";
    assert!(Item::new(".desktop", "/d", Some(&bytes[..])).is_none());
    assert!(Item::new("", "/d", None).is_none());
    assert!(Item::from_attributes("", "/d", s("A"), s("a"), None, None).is_none());
}
