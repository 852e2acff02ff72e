use pinit_core::merge::yaml::{merge_loaded, YamlMerge, YamlValue};
use pinit_core::apply::{apply_existing_file, FileWrite, Outcome};
use pinit_core::{ApplyOptions, ApplyReport, ExistingFileAction, FixedAction};

/// Applies one template file over one destination file with the answer
/// `Merge`, and gives the content of the destination afterwards.
fn run_merge(file_name: &str, dest: &[u8], template: &[u8]) -> (String, ApplyReport) {
    let mut decider = FixedAction(ExistingFileAction::Merge);
    let options = ApplyOptions::default();
    let dest_path = format!("/dest/{file_name}");
    let plan = apply_existing_file(file_name, &dest_path, template, dest, &options, &mut decider);
    let mut report = ApplyReport::default();
    report.record(plan.outcome);
    let content = match plan.write {
        FileWrite::Replace(bytes) => {
            assert_eq!(plan.outcome, Outcome::Updated);
            bytes
        }
        FileWrite::Nothing => dest.to_vec(),
        other => panic!("unexpected write {:?}", other),
    };
    (String::from_utf8(content).unwrap_or_default(), report)
}

#[test]
fn merge_envrc_adds_missing_without_duplicate_vars() {
    let (out, report) = run_merge(
        ".envrc",
        b"export FOO=dest\nuse flake\n",
        b"export FOO=template\nexport BAR=template\nuse flake\n",
    );
    assert_eq!(report.updated_files, 1);
    assert!(out.contains("export FOO=dest\n"));
    assert!(out.contains("export BAR=template\n"));
    assert!(!out.contains("export FOO=template\n"));
    assert_eq!(out, "export FOO=dest\nuse flake\n\nexport BAR=template\n");
}

#[test]
fn merge_toml_inserts_missing_keys_recursively() {
    let (out, report) = run_merge(
        "config.toml",
        b"[a]\nx = 1\n\n[b]\ny = 2\n",
        b"[a]\nx = 9\nz = 3\n\n[c]\nk = 1\n",
    );
    assert_eq!(report.updated_files, 1);
    assert!(out.contains("x = 1"));
    assert!(out.contains("z = 3"));
    assert!(out.contains("[c]"));
    assert!(out.contains("k = 1"));
    assert!(!out.contains("x = 9"));
    assert!(out.contains("y = 2"));
}

#[test]
fn merge_toml_ignores_type_mismatches_but_inserts_other_keys() {
    let (out, report) = run_merge("config.toml", b"a = 1\n", b"b = 2\n[a]\nx = 2\n");
    assert_eq!(report.updated_files, 1);
    assert!(out.contains("a = 1"));
    assert!(out.contains("b = 2"));
    assert!(!out.contains("x = 2"));
}

#[test]
fn merge_toml_invalid_document_is_unavailable() {
    let (out, report) = run_merge("config.toml", b"a = \n", b"b = 2\n");
    assert_eq!(report.skipped_files, 1);
    assert_eq!(out, "a = \n");
}

#[test]
fn merge_lines_no_new_lines_results_in_skip_after_merge() {
    let (out, report) = run_merge("notes.txt", b"a\nb\n", b"a\nb");
    assert_eq!(report.updated_files, 0);
    assert_eq!(report.skipped_files, 1);
    assert_eq!(out, "a\nb\n");
}

#[test]
fn merge_lines_adds_a_repeated_template_line_once_and_keeps_carriage_returns() {
    let (out, _) = run_merge("notes.txt", b"a\r\nb", b"a\nc\nc\nb\r");
    assert_eq!(out, "a\r\nb\nc\nb\r\n");
    let (out, report) = run_merge("list.txt", b"a\n", b"x\nx\ny\na\nx\n");
    assert_eq!(out, "a\nx\ny\n");
    assert_eq!(report.updated_files, 1);
}

#[test]
fn merge_env_no_missing_keys_results_in_skip_after_merge() {
    let (out, report) = run_merge(".env", b"A=dest\n", b"A=template\n");
    assert_eq!(report.updated_files, 0);
    assert_eq!(report.skipped_files, 1);
    assert_eq!(out, "A=dest\n");
}

#[test]
fn merge_env_skips_invalid_and_duplicate_keys_from_template() {
    let (out, report) = run_merge(
        ".env",
        b"A=dest\n",
        b"# comment\n\nexport A=template\nB=2\n=bad\n1BAD=3\n_OK=4\n",
    );
    assert_eq!(report.updated_files, 1);
    assert!(out.contains("A=dest\n"));
    assert!(out.contains("B=2\n"));
    assert!(out.contains("_OK=4\n"));
    assert!(!out.contains("export A=template\n"));
    assert!(!out.contains("1BAD=3\n"));
    assert!(!out.contains("=bad\n"));
    assert_eq!(out, "A=dest\nB=2\n_OK=4\n");
}

#[test]
fn merge_env_with_comment_and_nothing_missing_changes_nothing() {
    let (out, report) = run_merge(".env", b"# comment\nA=dest\n", b"A=template\n");
    assert_eq!(report.updated_files, 0);
    assert_eq!(report.skipped_files, 1);
    assert_eq!(out, "# comment\nA=dest\n");
}

#[test]
fn merge_env_keeps_comments_and_blank_lines_of_the_destination() {
    let (out, report) = run_merge(".env.local", b"# settings\n\nA=dest", b"B=2\n");
    assert_eq!(report.updated_files, 1);
    assert_eq!(out, "# settings\n\nA=dest\nB=2\n");
}

#[test]
fn merge_env_with_malformed_destination_line_is_unavailable() {
    let (out, report) = run_merge(".env", b"A=dest\nnot an assignment\n", b"B=2\n");
    assert_eq!(report.updated_files, 0);
    assert_eq!(report.skipped_files, 1);
    assert_eq!(out, "A=dest\nnot an assignment\n");
    let (_, report) = run_merge(".env", b"1BAD=x\n", b"B=2\n");
    assert_eq!(report.skipped_files, 1);
}

#[test]
fn merge_binary_file_unavailable_skips() {
    let dest_bytes = vec![0xff, 0x00, 0xfe];
    let tpl_bytes = vec![0x01, 0x02, 0x03, 0x04];
    let mut decider = FixedAction(ExistingFileAction::Merge);
    let plan = apply_existing_file(
        "bin.dat",
        "/dest/bin.dat",
        &tpl_bytes,
        &dest_bytes,
        &ApplyOptions::default(),
        &mut decider,
    );
    assert_eq!(plan.outcome, Outcome::Skipped);
    assert!(matches!(plan.write, FileWrite::Nothing));
}

#[test]
fn merge_python_inserts_imports_and_appends_defs() {
    let (out, _) = run_merge(
        "main.py",
        b"import os\n\n\ndef foo():\n    return 1\n",
        b"import sys\n\n\ndef bar():\n    return 2\n",
    );
    assert!(out.contains("import os\n"));
    assert!(out.contains("import sys\n"));
    assert!(out.contains("def foo():\n"));
    assert!(out.contains("def bar():\n"));
    assert!(out.find("import sys").unwrap() < out.find("def foo").unwrap());
}

#[test]
fn merge_python_inserts_import_after_shebang() {
    let (out, report) = run_merge(
        "main.py",
        b"#!/usr/bin/env python3\nimport os\n\n\ndef foo():\n    return 1\n",
        b"import sys\n",
    );
    assert_eq!(report.updated_files, 1);
    assert!(out.starts_with("#!/usr/bin/env python3\n"));
    assert!(out.contains("import os\n"));
    assert!(out.contains("import sys\n"));
    assert!(out.find("import sys").unwrap() > out.find("#!/usr/bin/env python3").unwrap());
    assert!(out.find("import sys").unwrap() < out.find("def foo").unwrap());
}

#[test]
fn merge_javascript_inserts_imports_and_appends_exported_items() {
    let (out, _) = run_merge(
        "main.js",
        b"import a from 'a';\n\nfunction foo() { return 1; }\n",
        b"import b from 'b';\n\nexport function bar() { return 2; }\n",
    );
    assert!(out.contains("import a from 'a';\n"));
    assert!(out.contains("import b from 'b';\n"));
    assert!(out.contains("function foo()"));
    assert!(out.contains("export function bar()"));
    assert!(out.find("import b").unwrap() < out.find("function foo").unwrap());
}

#[test]
fn merge_typescript_inserts_imports_and_appends_types() {
    let (out, _) = run_merge(
        "main.ts",
        b"import { A } from 'a';\n\ninterface Foo { a: string }\n",
        b"import { B } from 'b';\n\ntype Bar = { b: number }\n",
    );
    assert!(out.contains("import { A } from 'a';\n"));
    assert!(out.contains("import { B } from 'b';\n"));
    assert!(out.contains("interface Foo"));
    assert!(out.contains("type Bar"));
    assert!(out.find("import { B }").unwrap() < out.find("interface Foo").unwrap());
}

#[test]
fn merge_typescript_export_statement_names_are_detected_via_declaration() {
    let (out, report) = run_merge(
        "main.ts",
        b"export function foo() { return 1; }\n",
        b"export function foo() { return 2; }\nexport function bar() { return 3; }\n",
    );
    assert_eq!(report.updated_files, 1);
    assert!(out.contains("export function foo"));
    assert!(out.contains("export function bar"));
    assert_eq!(out.matches("export function foo").count(), 1);
}

#[test]
fn merge_tsx_inserts_imports() {
    let (out, report) = run_merge(
        "main.tsx",
        b"import React from 'react';\n\nexport function A() { return null; }\n",
        b"import X from 'x';\n\nexport function B() { return null; }\n",
    );
    assert_eq!(report.updated_files, 1);
    assert!(out.contains("import React"));
    assert!(out.contains("import X"));
    assert!(out.contains("export function B"));
}

#[test]
fn merge_php_inserts_use_after_namespace_and_appends_functions() {
    let (out, _) = run_merge(
        "main.php",
        b"<?php\nnamespace Foo;\nuse A\\B;\n\nfunction foo(): void {}\n",
        b"<?php\nnamespace Foo;\nuse C\\D;\n\nfunction bar(): void {}\n",
    );
    assert!(out.contains("namespace Foo;"));
    assert!(out.contains("use A\\B;"));
    assert!(out.contains("use C\\D;"));
    assert!(out.contains("function foo"));
    assert!(out.contains("function bar"));
    assert!(out.find("use C\\D").unwrap() < out.find("function foo").unwrap());
    assert_eq!(out.matches("namespace Foo;").count(), 1);
}

#[test]
fn merge_css_appends_missing_rules() {
    let (out, _) = run_merge("styles.css", b".a { color: red; }\n", b".b { color: blue; }\n");
    assert_eq!(out, ".a { color: red; }\n\n.b { color: blue; }\n");
}

#[test]
fn merge_css_appends_missing_rules_and_inserts_newline() {
    let (out, report) = run_merge(
        "styles.css",
        b"body { color: red; }",
        b"/* comment */\nbody { color: red; }\nhtml { color: blue; }\n",
    );
    assert_eq!(report.updated_files, 1);
    assert_eq!(out, "body { color: red; }\n\nhtml { color: blue; }\n");
}

#[test]
fn merge_css_no_additions_results_in_skip_after_merge() {
    let (out, report) = run_merge(
        "styles.css",
        b"/* keep */\nbody { color: red; }\n",
        b"body { color: red; }\n",
    );
    assert_eq!(report.updated_files, 0);
    assert_eq!(report.skipped_files, 1);
    assert_eq!(out, "/* keep */\nbody { color: red; }\n");
}

#[test]
fn merge_css_finds_a_rule_again_whatever_its_white_space() {
    let (out, report) = run_merge(
        "styles.css",
        b"/* keep */\nbody { color: red; }\n",
        b"body {  color: red;  }\n",
    );
    assert_eq!(report.updated_files, 0);
    assert_eq!(report.skipped_files, 1);
    assert_eq!(out, "/* keep */\nbody { color: red; }\n");
}

#[test]
fn merge_bash_appends_missing_function() {
    let (out, _) = run_merge("script.sh", b"foo() { echo foo; }\n", b"bar() { echo bar; }\n");
    assert_eq!(out, "foo() { echo foo; }\n\nbar() { echo bar; }\n");
}

#[test]
fn merge_zsh_appends_missing_function() {
    let (out, _) = run_merge("script.zsh", b"foo() { echo foo; }\n", b"bar() { echo bar; }\n");
    assert!(out.contains("foo()"));
    assert!(out.contains("bar()"));
}

#[test]
fn merge_lua_appends_missing_function() {
    let (out, _) = run_merge(
        "script.lua",
        b"function foo()\n  return 1\nend\n",
        b"function bar()\n  return 2\nend\n",
    );
    assert!(out.contains("function foo()"));
    assert!(out.contains("function bar()"));
}

#[test]
fn merge_ruby_appends_missing_class() {
    let (out, _) = run_merge("script.rb", b"class Foo\nend\n", b"class Bar\nend\n");
    assert!(out.contains("class Foo"));
    assert!(out.contains("class Bar"));
}

#[test]
fn merge_ruby_treats_require_as_import_like() {
    let (out, report) = run_merge(
        "main.rb",
        b"require 'a'\n\nclass Foo\nend\n",
        b"require 'b'\n\nclass Bar\nend\n",
    );
    assert_eq!(report.updated_files, 1);
    assert!(out.contains("require 'a'"));
    assert!(out.contains("require 'b'"));
    assert!(out.find("require 'b'").unwrap() < out.find("class Foo").unwrap());
}

#[test]
fn merge_ruby_call_is_not_treated_as_require_import() {
    let (out, report) = run_merge("main.rb", b"require 'a'\n", b"puts 'hi'\nrequire 'a'\n");
    assert_eq!(report.updated_files, 0);
    assert_eq!(report.skipped_files, 1);
    assert_eq!(out, "require 'a'\n");
}

#[test]
fn merge_rust_inserts_use_and_appends_functions() {
    let (out, report) = run_merge(
        "lib.rs",
        b"use std::fmt;\n\nfn foo() {}\n",
        b"use std::io;\n\nfn bar() {}\n",
    );
    assert_eq!(report.updated_files, 1);
    assert!(out.contains("use std::fmt;"));
    assert!(out.contains("use std::io;"));
    assert!(out.find("use std::io").unwrap() < out.find("fn foo").unwrap());
    assert!(out.contains("fn bar"));
}

#[test]
fn merge_rust_skips_already_present_imports_and_named_items() {
    let (out, report) = run_merge(
        "lib.rs",
        b"use std::io;\n\nfn foo() {}\n",
        b"use std::io;\nuse std::fmt;\n\nfn foo() {}\nfn bar() {}\n",
    );
    assert_eq!(report.updated_files, 1);
    assert!(out.contains("use std::io;"));
    assert!(out.contains("use std::fmt;"));
    assert_eq!(out.matches("use std::io;").count(), 1);
    assert!(out.contains("fn foo()"));
    assert!(out.contains("fn bar()"));
    assert_eq!(out.matches("fn foo").count(), 1);
}

#[test]
fn merge_rust_no_additions_results_in_skip_after_merge() {
    let (out, report) = run_merge(
        "lib.rs",
        b"use std::fmt;\n\nfn foo() {}\n",
        b"use std::fmt;\nfn foo() {}\n",
    );
    assert_eq!(report.updated_files, 0);
    assert_eq!(report.skipped_files, 1);
    assert_eq!(out, "use std::fmt;\n\nfn foo() {}\n");
}

#[test]
fn merge_rust_takes_a_repeated_template_item_once() {
    let (out, _) = run_merge("lib.rs", b"fn foo() {}\n", b"fn bar() {}\nfn bar() { }\n");
    assert_eq!(out, "fn foo() {}\n\nfn bar() {}\n");
}

#[test]
fn merge_markdown_appends_setext_sections_and_ignores_empty_atx_titles() {
    let (out, report) = run_merge(
        "README.md",
        b"dest",
        b"Title\n=====\n\nbody\n\n## ###\n\nSub\n----\n\nmore\n",
    );
    assert_eq!(report.updated_files, 1);
    assert!(out.starts_with("dest\n"));
    assert!(out.contains("Title\n====="));
    assert!(out.contains("Sub\n----"));
}

#[test]
fn merge_markdown_no_additions_results_in_skip_after_merge() {
    let (out, report) = run_merge("README.md", b"Title\n=====\n\nkeep\n", b"Title\n=====\n");
    assert_eq!(report.updated_files, 0);
    assert_eq!(report.skipped_files, 1);
    assert_eq!(out, "Title\n=====\n\nkeep\n");
}

#[test]
fn merge_markdown_adds_a_repeated_heading_once() {
    let (out, _) = run_merge("notes.markdown", b"# A\n", b"# B\n\nx\n\n# B\n\ny\n");
    assert_eq!(out, "# A\n\n# B\n\nx\n");
}

#[test]
fn merge_html_appends_missing_assets_and_inserts_newline() {
    let (out, report) = run_merge(
        "index.html",
        b"<link rel=\"stylesheet\" href=\"a.css\">",
        b"<link rel=\"stylesheet\" href=\"a.css\">\n<script src=\"b.js\"></script>\n",
    );
    assert_eq!(report.updated_files, 1);
    assert!(out.contains("href=\"a.css\""));
    assert!(out.contains("src=\"b.js\""));
    assert!(out.ends_with('\n'));
    assert_eq!(
        out,
        "<link rel=\"stylesheet\" href=\"a.css\">\n\n<script src=\"b.js\"></script>\n"
    );
}

#[test]
fn merge_html_no_additions_results_in_skip_after_merge() {
    let (out, report) = run_merge(
        "index.html",
        b"<script src=\"a.js\"></script>",
        b"<script src=\"a.js\"></script>\n",
    );
    assert_eq!(report.updated_files, 0);
    assert_eq!(report.skipped_files, 1);
    assert_eq!(out, "<script src=\"a.js\"></script>");
}

#[test]
fn merge_html_finds_an_asset_again_whatever_its_quotes() {
    let (out, report) = run_merge(
        "index.htm",
        b"<p>keep</p>\n<script src='a.js'></script>\n",
        b"<script SRC=\"a.js\"></script>\n",
    );
    assert_eq!(report.updated_files, 0);
    assert_eq!(report.skipped_files, 1);
    assert_eq!(out, "<p>keep</p>\n<script src='a.js'></script>\n");
}

#[test]
fn merge_yaml_keeps_destination_values() {
    let (out, report) = run_merge("config.yml", b"a:\n  x: 1\nc: 5\n", b"a:\n  x: 2\n  y: 3\nb: 4\nc:\n  d: 1\n");
    assert_eq!(report.updated_files, 1);
    assert!(out.contains("x: 1"));
    assert!(out.contains("y: 3"));
    assert!(out.contains("b: 4"));
    assert!(out.contains("c: 5"));
    assert!(!out.contains("x: 2"));
    assert!(!out.contains("d: 1"));
}

#[test]
fn merge_markdown_adds_a_section_with_the_sections_within_it() {
    let (out, report) = run_merge(
        "README.md",
        b"# X\n",
        b"# A\n\ntext\n\n## B\n\nmore\n\n# C\n",
    );
    assert_eq!(report.updated_files, 1);
    assert_eq!(out, "# X\n\n# A\n\ntext\n\n## B\n\nmore\n\n# C\n");
}

#[test]
fn merge_markdown_adds_a_deeper_section_of_a_known_heading() {
    let (out, _) = run_merge("README.md", b"# A\n", b"# A\n\n## B\n\nmore\n");
    assert_eq!(out, "# A\n\n## B\n\nmore\n");
}

#[test]
fn merge_markdown_adds_an_unknown_section_whole() {
    let (out, _) = run_merge("README.md", b"## B\n", b"# A\n\n## B\n\nmore\n\n## D\n");
    assert_eq!(out, "## B\n\n# A\n\n## B\n\nmore\n\n## D\n");
}

#[test]
fn merge_yaml_without_additions_gives_the_destination_as_it_is() {
    let dest = b"# mine\na:   1\nb:\n    c: 2\n";
    let (out, report) = run_merge("config.yaml", dest, b"a: 5\nb:\n  c: 9\n");
    assert_eq!(report.updated_files, 0);
    assert_eq!(report.skipped_files, 1);
    assert_eq!(out.as_bytes(), dest);
    assert_eq!(
        pinit_core::merge::merge_file("config.yaml", dest, b"a: 5\n"),
        Some(dest.to_vec())
    );
}

#[test]
fn merge_toml_without_additions_gives_the_destination_as_it_is() {
    let dest = b"# mine\n[a]\nx   =   1\n";
    let (out, report) = run_merge("config.toml", dest, b"[a]\nx = 9\n");
    assert_eq!(report.updated_files, 0);
    assert_eq!(report.skipped_files, 1);
    assert_eq!(out.as_bytes(), dest);
    assert_eq!(
        pinit_core::merge::merge_file("config.toml", dest, b"[a]\nx = 9\n"),
        Some(dest.to_vec())
    );
}

#[test]
fn yaml_merges_are_planned_before_anything_is_written() {
    let plan = pinit_core::merge::yaml::plan_yaml_merge;
    assert!(matches!(plan(&[0xff], b"a: 1\n"), YamlMerge::Unavailable));
    assert!(matches!(plan(b"a: 1\n", &[0xff]), YamlMerge::Unavailable));
    assert!(matches!(plan(b"a: [1\n", b"a: 1\n"), YamlMerge::Unavailable));
    assert!(matches!(plan(b"a: 1\n", b"a: 2\n"), YamlMerge::Unchanged));
    assert!(matches!(plan(b"- 1\n", b"a: 2\n"), YamlMerge::Unchanged));
    match plan(b"a: 1\n", b"a: 2\nb: 3\n") {
        YamlMerge::Changed(YamlValue::Mapping(pairs)) => {
            assert_eq!(pairs.len(), 2);
            assert!(matches!(&pairs[0], (YamlValue::String(k), YamlValue::Int(1)) if k == "a"));
            assert!(matches!(&pairs[1], (YamlValue::String(k), YamlValue::Int(3)) if k == "b"));
        }
        other => panic!("unexpected {:?}", other),
    }
    assert!(matches!(merge_loaded(None, Some(YamlValue::Null)), YamlMerge::Unavailable));
    assert!(matches!(merge_loaded(Some(YamlValue::Null), None), YamlMerge::Unavailable));
    assert!(matches!(
        merge_loaded(Some(YamlValue::Int(1)), Some(YamlValue::Int(2))),
        YamlMerge::Unchanged
    ));
}
