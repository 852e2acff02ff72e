use pinit_core::merge::merge_file;

fn merged(path: &str, dest: &str, src: &str) -> String {
    let out = merge_file(path, dest.as_bytes(), src.as_bytes()).expect("merge available");
    String::from_utf8(out).expect("utf-8")
}

#[test]
fn env_merge_keeps_destination_value_and_appends_missing_key() {
    assert_eq!(
        merged(".env", "A=dest\n", "A=template\nB=template\n"),
        "A=dest\nB=template\n"
    );
}

#[test]
fn toml_merge_retains_value_and_adds_key_inside_table() {
    let out = merged("config.toml", "[a]\nx = 1\n", "[a]\nx = 9\nz = 3\n");
    assert_eq!(out, "[a]\nx = 1\nz = 3\n");
}

#[test]
fn rust_merge_inserts_import_after_preamble_and_appends_function() {
    let out = merged(
        "lib.rs",
        "use std::io;\n\nfn foo() {}\n",
        "use std::io;\nuse std::fmt;\n\nfn foo() {}\nfn bar() {}\n",
    );
    assert_eq!(out, "use std::io;\nuse std::fmt;\n\n\nfn foo() {}\n\nfn bar() {}\n");
    assert_eq!(out.matches("use std::fmt;").count(), 1);
    assert_eq!(out.matches("fn bar() {}").count(), 1);
    assert!(out.ends_with("fn bar() {}\n"));
    assert_eq!(out.matches("use std::io;").count(), 1);
    assert_eq!(out.matches("fn foo").count(), 1);
}

#[test]
fn merge_lines_appends_missing_exact_lines() {
    assert_eq!(merged("notes.txt", "a\nb", "b\nc\n"), "a\nb\nc\n");
}

#[test]
fn merge_yaml_inserts_missing_mapping_keys() {
    let out = merged("config.yaml", "a:\n  x: 1\n", "a:\n  x: 2\n  y: 3\nb: 4\n");
    assert!(out.contains("x: 1"));
    assert!(out.contains("y: 3"));
    assert!(out.contains("b: 4"));
    assert!(!out.contains("x: 2"));
}

#[test]
fn merge_markdown_appends_missing_heading_sections() {
    let out = merged(
        "README.md",
        "# Title\n\nIntro.\n\n## Keep\n\nText.\n",
        "# Title\n\nIntro.\n\n## New Section\n\nStuff.\n",
    );
    assert_eq!(
        out,
        "# Title\n\nIntro.\n\n## Keep\n\nText.\n\n## New Section\n\nStuff.\n"
    );
}

#[test]
fn merge_html_appends_missing_assets() {
    let out = merged(
        "index.html",
        "<!doctype html>\n<html><head>\n<script src=\"a.js\"></script>\n</head><body></body></html>\n",
        "<!doctype html>\n<html><head>\n<script src=\"b.js\"></script>\n<link rel=\"stylesheet\" href=\"x.css\">\n</head><body></body></html>\n",
    );
    assert!(out.contains("script src=\"a.js\""));
    assert!(out.contains("script src=\"b.js\""));
    assert!(out.contains("href=\"x.css\""));
}

#[test]
fn merge_binary_file_is_unavailable() {
    assert!(merge_file("bin.dat", &[0xff, 0x00, 0xfe], &[1, 2, 3, 4]).is_none());
}
