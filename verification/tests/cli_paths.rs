use mcgen::cli::{same_text, Cli, CliError, DEFAULT_DIR};
use mcgen::path::push_self;
use mcgen::gradle::Platform;

fn cli(dir: &str) -> Cli {
    Cli {
        group: "g".to_string(),
        name: "Proj".to_string(),
        version: "1.19.2".to_string(),
        dir: dir.to_string(),
        kotlin: true,
        gradle_dist: None,
        overwrite: false,
    }
}

#[test]
fn push_self_appends_and_copies() {
    let mut p = "/home/u".to_string();
    let r = push_self(&mut p, "IdeaProjects", Platform::Unix);
    assert_eq!(p, "/home/u/IdeaProjects");
    assert_eq!(r, p);
    let mut p = "/home/u/".to_string();
    assert_eq!(push_self(&mut p, "x", Platform::Unix), "/home/u/x");
    let mut p = String::new();
    assert_eq!(push_self(&mut p, "x", Platform::Unix), "x");
    let mut p = "/home/u".to_string();
    assert_eq!(push_self(&mut p, "/etc", Platform::Unix), "/etc");
    let mut p = "a".to_string();
    assert_eq!(push_self(&mut p, "", Platform::Unix), "a/");
}

#[test]
fn push_self_agrees_with_pathbuf() {
    for (base, part) in [("/home/u", "x"), ("/home/u/", "x"), ("", "x"), ("a", ""), ("a", "/b"), ("a/b", "c/d")] {
        let mut p = base.to_string();
        let mut pb = std::path::PathBuf::from(base);
        pb.push(part);
        assert_eq!(push_self(&mut p, part, Platform::Unix), pb.to_str().unwrap());
    }
}

#[test]
fn default_dir_goes_below_home() {
    let mut c = cli(DEFAULT_DIR);
    assert_eq!(c.change_path(Some("/home/u".to_string()), Platform::Unix), Ok(()));
    assert_eq!(c.dir, "/home/u/IdeaProjects/Proj");
    assert_eq!(c.name, "Proj");
}

#[test]
fn other_dirs_stay() {
    let mut c = cli("/work/proj");
    assert_eq!(c.change_path(Some("/home/u".to_string()), Platform::Unix), Ok(()));
    assert_eq!(c.dir, "/work/proj");
    assert_eq!(c.change_path(None, Platform::Unix), Ok(()));
    assert_eq!(c.dir, "/work/proj");
}

#[test]
fn default_dir_needs_home() {
    let mut c = cli(DEFAULT_DIR);
    assert_eq!(c.change_path(None, Platform::Unix), Err(CliError::NoHomeDir));
    assert_eq!(c.dir, DEFAULT_DIR);
}

#[test]
fn same_text_compares_texts() {
    assert!(same_text("~/IdeaProjects", DEFAULT_DIR));
    assert!(!same_text("~/IdeaProject", DEFAULT_DIR));
}

#[test]
fn windows_paths_join_with_backslash() {
    let mut p = "C:\\Users\\u".to_string();
    assert_eq!(push_self(&mut p, "IdeaProjects", Platform::Windows), "C:\\Users\\u\\IdeaProjects");
    let mut p = "C:\\Users\\u\\".to_string();
    assert_eq!(push_self(&mut p, "x", Platform::Windows), "C:\\Users\\u\\x");
    let mut p = "C:/Users/u/".to_string();
    assert_eq!(push_self(&mut p, "x", Platform::Windows), "C:/Users/u/x");
    let mut p = "C:".to_string();
    assert_eq!(push_self(&mut p, "x", Platform::Windows), "C:x");
    let mut p = String::new();
    assert_eq!(push_self(&mut p, "x", Platform::Windows), "x");
}

#[test]
fn windows_rooted_and_prefixed_parts() {
    let mut p = "C:\\Users\\u".to_string();
    assert_eq!(push_self(&mut p, "\\windows", Platform::Windows), "C:\\windows");
    let mut p = "C:\\Users\\u".to_string();
    assert_eq!(push_self(&mut p, "D:\\games", Platform::Windows), "D:\\games");
    let mut p = "C:\\Users\\u".to_string();
    assert_eq!(push_self(&mut p, "\\\\server\\share", Platform::Windows), "\\\\server\\share");
    let mut p = "rel".to_string();
    assert_eq!(push_self(&mut p, "/x", Platform::Windows), "/x");
}

#[test]
fn default_dir_goes_below_windows_home() {
    let mut c = cli(DEFAULT_DIR);
    assert_eq!(c.change_path(Some("C:\\Users\\u".to_string()), Platform::Windows), Ok(()));
    assert_eq!(c.dir, "C:\\Users\\u\\IdeaProjects\\Proj");
}

#[test]
fn home_is_needed_only_for_the_default_dir() {
    assert!(cli(DEFAULT_DIR).needs_home());
    assert!(!cli("/work/proj").needs_home());
}

fn win(base: &str, part: &str) -> String {
    let mut p = base.to_string();
    push_self(&mut p, part, Platform::Windows)
}

#[test]
fn windows_rooted_part_keeps_any_prefix() {
    assert_eq!(win(r"\\server\share\dir", r"\x"), r"\\server\share\x");
    assert_eq!(win(r"\\server\share", "x"), r"\\server\share\x");
    assert_eq!(win(r"\\.\COM1", r"\x"), r"\\.\COM1\x");
    assert_eq!(win(r"C:\a", r"\\x"), r"C:\\x");
    assert_eq!(win(r"C:\a", "//server/share"), "//server/share");
    assert_eq!(win("rel", r"\x"), r"\x");
}

#[test]
fn windows_verbatim_paths_are_normalized() {
    assert_eq!(win(r"\\?\C:\a\b", r"..\c"), r"\\?\C:\a\c");
    assert_eq!(win(r"\\?\C:\a", r".\b\."), r"\\?\C:\a\b");
    assert_eq!(win(r"\\?\C:\a", "b/c"), r"\\?\C:\a\b\c");
    assert_eq!(win(r"\\?\C:\a", r"\x"), r"\\?\C:\x");
    assert_eq!(win(r"\\?\C:\a\", "b"), r"\\?\C:\a\b");
    assert_eq!(win(r"\\?\C:\a", "../.."), r"\\?\C:\");
    assert_eq!(win(r"\\?\UNC\srv\share\a", "b"), r"\\?\UNC\srv\share\a\b");
    assert_eq!(win(r"\\?\C:\a", ""), r"\\?\C:\a\");
}
