use pinit_core::ignore::{format_git_rel, ignored_in_output, should_always_ignore};

#[test]
fn format_git_rel_adds_trailing_slash_for_dirs() {
    assert_eq!(format_git_rel("a/b", true), "a/b/");
    assert_eq!(format_git_rel("a/b/", true), "a/b/");
    assert_eq!(format_git_rel("a/b", false), "a/b");
}

#[test]
fn format_git_rel_uses_forward_slashes() {
    assert_eq!(format_git_rel("a\\b", false), "a/b");
    assert_eq!(format_git_rel("", true), "/");
}

#[test]
fn always_ignores_ds_store_and_git() {
    assert!(should_always_ignore(".DS_Store"));
    assert!(should_always_ignore("a/b/.DS_Store"));
    assert!(should_always_ignore(".git"));
    assert!(should_always_ignore(".git/config"));
    assert!(!should_always_ignore("a/.git/config"));
    assert!(!should_always_ignore("./.git/config"));
    assert!(!should_always_ignore("/.git"));
    assert!(!should_always_ignore(".gitignore"));
    assert!(!should_always_ignore("src/main.rs"));
    assert!(!should_always_ignore(""));
}

#[test]
fn oracle_output_gives_the_ignored_paths_in_order() {
    let out: Vec<char> = ".gitignore:1:*.log\ta.log\n::\tsrc/\r\n\nno tab here\n.gitignore:2:target/\ttarget/"
        .chars()
        .collect();
    assert_eq!(ignored_in_output(&out), vec!["a.log", "target/"]);
    assert_eq!(ignored_in_output(&Vec::new()), Vec::<String>::new());
}
