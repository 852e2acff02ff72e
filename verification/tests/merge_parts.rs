use pinit_core::chars;
use pinit_core::ignore::{sort_entries, TemplateEntry};
use pinit_core::apply::EntryKind;
use pinit_core::merge::env::{env_key, envrc_var, is_env_ident, is_inert, merge_env, merge_envrc};
use pinit_core::merge::lines::merge_lines;
use pinit_core::merge::source::{
    language_rules, merge_named_top_level, ts_import_insertion_byte, ts_item_name,
    ts_top_level_items, LangMergeRules,
};
use pinit_core::merge::syntax::{parse, Grammar, SyntaxNode};
use pinit_core::merge::toml::merge_toml_table;
use pinit_core::merge::yaml::{merge_yaml_value, values_equal, YamlValue};
use pinit_core::merge::{merge_file, merge_strategy, Strategy};
use pinit_core::relpath::{path_extension, path_file_name};

fn c(s: &str) -> Vec<char> {
    s.chars().collect()
}

fn st(v: Vec<char>) -> String {
    v.into_iter().collect()
}

fn opt(v: Option<Vec<char>>) -> Option<String> {
    v.map(st)
}

#[test]
fn text_is_cut_and_trimmed_as_strings_are() {
    let lines = |s: &str| -> Vec<String> { chars::lines(&c(s)).into_iter().map(st).collect() };
    for text in ["", "a", "a\n", "a\r\n", "a\r", "\n", "\n\n", "a\n\nb", "a\r\r\nb\r", "\r\n\r"] {
        let expected: Vec<String> = text.lines().map(|l| l.to_string()).collect();
        assert_eq!(lines(text), expected, "lines of {:?}", text);
    }
    for text in ["", " ", " a ", "\u{a0}a\u{3000}", "\ta b\r\n", "\u{85}x\u{2028}", "x\u{200b}", "\u{1680}\u{2003}"] {
        assert_eq!(st(chars::trim(&c(text))), text.trim(), "trim of {:?}", text);
        assert_eq!(st(chars::trim_start(&c(text))), text.trim_start());
        assert_eq!(st(chars::trim_end(&c(text))), text.trim_end());
        let words: Vec<String> = chars::split_whitespace(&c(text)).into_iter().map(st).collect();
        let expected: Vec<String> = text.split_whitespace().map(|w| w.to_string()).collect();
        assert_eq!(words, expected);
    }
    assert_eq!(st(chars::normalize_ws(&c("  a \n\t b  c "))), "a b c");
    assert_eq!(st(chars::to_ascii_lowercase(&c("AbC-\u{c9}Z"))), "abc-\u{c9}z");
    assert!(chars::eq_ignore_ascii_case(&c("beginOptional"), &c("BEGINOPTIONAL")));
    assert!(chars::contains(&c("abcabd"), &c("abd")));
    assert!(chars::contains(&c("abc"), &c("")));
    assert!(!chars::contains(&c("abc"), &c("abcd")));
    assert_eq!(chars::find_from(&c("abcabd"), &c("ab"), 1), Some(3));
    assert_eq!(chars::find_from(&c("ab"), &c(""), 2), Some(2));
    assert_eq!(chars::find_from(&c("ab"), &c(""), 3), None);
    assert_eq!(chars::find_from(&c("ab"), &c("b"), 5), None);
    let pieces: Vec<String> = chars::split_char(&c("a//b/"), '/').into_iter().map(st).collect();
    assert_eq!(pieces, vec!["a", "", "b", ""]);
    assert_eq!(st(chars::from_i64(-120)), "-120");
    assert_eq!(st(chars::from_u64(0)), "0");
    assert_eq!(st(chars::from_u64(u64::MAX)), "18446744073709551615");
    assert_eq!(chars::decode(&[0xc3, 0xa9]), Some(vec!['\u{e9}']));
    assert_eq!(chars::decode(&[0xc3]), None);
    assert_eq!(chars::encode(&c("\u{e9}\u{20ac}")), "\u{e9}\u{20ac}".as_bytes());
    assert_eq!(chars::to_string(&c("h\u{e9}")), "h\u{e9}");
    assert_eq!(st(chars::decode_lossy(&[b'a', 0xff, b'b'])), "a\u{fffd}b");
}

#[test]
fn paths_give_their_names_and_extensions() {
    let name = |p: &str| opt(path_file_name(&c(p)));
    let ext = |p: &str| opt(path_extension(&c(p)));
    assert_eq!(name("a/b.txt"), Some("b.txt".to_string()));
    assert_eq!(name("a/b/"), Some("b".to_string()));
    assert_eq!(name("a/."), Some("a".to_string()));
    assert_eq!(name("a/.."), None);
    assert_eq!(name("/"), None);
    assert_eq!(name(""), None);
    assert_eq!(name("."), None);
    assert_eq!(ext("a/b.tar.gz"), Some("gz".to_string()));
    assert_eq!(ext(".env"), None);
    assert_eq!(ext(".env.local"), Some("local".to_string()));
    assert_eq!(ext("a."), Some("".to_string()));
    assert_eq!(ext("a"), None);
    assert_eq!(ext("a.b/c"), None);
}

#[test]
fn strategies_are_chosen_by_name_and_extension() {
    assert_eq!(merge_strategy(".envrc"), Strategy::Envrc);
    assert_eq!(merge_strategy("app/.envrc"), Strategy::Envrc);
    assert_eq!(merge_strategy(".env"), Strategy::Env);
    assert_eq!(merge_strategy("a/.env.production"), Strategy::Env);
    assert_eq!(merge_strategy(".envx"), Strategy::Lines);
    assert_eq!(merge_strategy("x.env"), Strategy::Lines);
    assert_eq!(merge_strategy("Cargo.TOML"), Strategy::Toml);
    assert_eq!(merge_strategy("a.yml"), Strategy::Yaml);
    assert_eq!(merge_strategy("a.yaml"), Strategy::Yaml);
    assert_eq!(merge_strategy("a.rs"), Strategy::Source(Grammar::Rust));
    assert_eq!(merge_strategy("a.php"), Strategy::Source(Grammar::Php));
    assert_eq!(merge_strategy("a.py"), Strategy::Source(Grammar::Python));
    for p in ["a.js", "a.mjs", "a.cjs"] {
        assert_eq!(merge_strategy(p), Strategy::Source(Grammar::JavaScript));
    }
    assert_eq!(merge_strategy("a.ts"), Strategy::Source(Grammar::TypeScript));
    assert_eq!(merge_strategy("a.tsx"), Strategy::Source(Grammar::Tsx));
    assert_eq!(merge_strategy("a.css"), Strategy::Css);
    assert_eq!(merge_strategy("a.md"), Strategy::Markdown);
    assert_eq!(merge_strategy("a.markdown"), Strategy::Markdown);
    assert_eq!(merge_strategy("a.lua"), Strategy::Source(Grammar::Lua));
    assert_eq!(merge_strategy("a.sh"), Strategy::Source(Grammar::Bash));
    assert_eq!(merge_strategy("a.bash"), Strategy::Source(Grammar::Bash));
    assert_eq!(merge_strategy("a.zsh"), Strategy::Source(Grammar::Zsh));
    assert_eq!(merge_strategy("a.rb"), Strategy::Source(Grammar::Ruby));
    assert_eq!(merge_strategy("a.html"), Strategy::Html);
    assert_eq!(merge_strategy("a.HTM"), Strategy::Html);
    assert_eq!(merge_strategy("a.txt"), Strategy::Lines);
    assert_eq!(merge_strategy("Makefile"), Strategy::Lines);
}

#[test]
fn env_lines_are_told_apart() {
    let key = |l: &str| opt(env_key(&c(l)));
    assert_eq!(key("A=1"), Some("A".to_string()));
    assert_eq!(key("  export   B = 2"), Some("B".to_string()));
    assert_eq!(key("exportC=1"), Some("exportC".to_string()));
    assert_eq!(key("_x9=="), Some("_x9".to_string()));
    assert_eq!(key("# A=1"), None);
    assert_eq!(key("   "), None);
    assert_eq!(key("A"), None);
    assert_eq!(key("=1"), None);
    assert_eq!(key("9A=1"), None);
    assert_eq!(key("A B=1"), None);
    assert_eq!(key("\u{c9}=1"), None);
    assert!(is_inert(&c(" # c")));
    assert!(is_inert(&c("")));
    assert!(!is_inert(&c("A")));
    assert!(is_env_ident(&c("_")));
    assert!(!is_env_ident(&c("")));
    assert!(!is_env_ident(&c("a-b")));

    let var = |l: &str| opt(envrc_var(&c(l)));
    assert_eq!(var("export FOO=1"), Some("FOO".to_string()));
    assert_eq!(var("exportFOO=1"), Some("exportFOO".to_string()));
    assert_eq!(var("exported=1"), Some("exported".to_string()));
    assert_eq!(var("export\tFOO=1"), Some("FOO".to_string()));
    assert_eq!(var("export"), None);
    assert_eq!(var("  BAR = 2"), Some("BAR".to_string()));
    assert_eq!(var("use flake"), None);
    assert_eq!(var("# export FOO=1"), None);
    assert_eq!(var("PATH_add bin=x y=1"), None);

    assert_eq!(merge_env(b"", b"A=1\n"), Some(b"A=1\n".to_vec()));
    assert_eq!(merge_env(b"A=1", b"B=2\nB=3\n"), Some(b"A=1\nB=2\nB=3\n".to_vec()));
    assert_eq!(merge_env(b"A", b"B=2\n"), None);
    assert_eq!(merge_env(&[0xff], b"B=2\n"), None);
    assert_eq!(merge_env(b"A=1\n", &[0xff]), None);
    assert_eq!(merge_envrc(b"", b"a\n"), Some(b"\na\n".to_vec()));
    assert_eq!(merge_envrc(b"x", b"x\n"), Some(b"x".to_vec()));
    assert_eq!(merge_envrc(b"export A=1\n", b"A=2\nuse nix\n"), Some(b"export A=1\n\nuse nix\n".to_vec()));
    assert_eq!(merge_lines(b"", b""), Some(Vec::new()));
    assert_eq!(merge_lines(b"", b"a"), Some(b"a\n".to_vec()));
    assert_eq!(merge_lines(b"\xff", b"a"), None);
}

fn table_of(doc: &toml_edit::DocumentMut) -> Vec<String> {
    doc.as_table().iter().map(|(k, _)| k.to_string()).collect()
}

#[test]
fn toml_tables_are_merged_key_by_key() {
    let mut dest: toml_edit::DocumentMut =
        "v = 1\n\n[a]\nx = 1\n\n[t.u]\n".parse().unwrap();
    let src: toml_edit::DocumentMut =
        "[a]\nx = 9\nz = 3\n\n[v]\ninner = 1\n\n[c]\nk = 1\n\n[t.u]\ndeep = 1\n\n[t]\nw = 2\n"
            .parse()
            .unwrap();
    assert!(merge_toml_table(dest.as_table_mut(), src.as_table()));
    assert_eq!(table_of(&dest), vec!["v", "a", "t", "c"]);
    assert_eq!(dest["v"].as_integer(), Some(1));
    assert_eq!(dest["a"]["x"].as_integer(), Some(1));
    assert_eq!(dest["a"]["z"].as_integer(), Some(3));
    assert_eq!(dest["c"]["k"].as_integer(), Some(1));
    assert_eq!(dest["t"]["u"]["deep"].as_integer(), Some(1));
    assert_eq!(dest["t"]["w"].as_integer(), Some(2));

    let mut again: toml_edit::DocumentMut = src.to_string().parse().unwrap();
    assert!(!merge_toml_table(again.as_table_mut(), src.as_table()));
    assert_eq!(again.to_string(), src.to_string());

    assert_eq!(
        merge_file("c.toml", b"# note\na = 1 # one\n", b"a = 2\nb = { x = 1 }\n"),
        Some(b"# note\na = 1 # one\nb = { x = 1 }\n".to_vec())
    );
}

fn ys(s: &str) -> YamlValue {
    YamlValue::String(s.to_string())
}

#[test]
fn yaml_values_merge_mapping_by_mapping() {
    let dest = YamlValue::Mapping(vec![
        (ys("a"), YamlValue::Mapping(vec![(ys("x"), YamlValue::Int(1))])),
        (YamlValue::Float("0".to_string()), ys("zero")),
        (ys("list"), YamlValue::Sequence(vec![YamlValue::Int(1)])),
    ]);
    let src = YamlValue::Mapping(vec![
        (
            ys("a"),
            YamlValue::Mapping(vec![(ys("x"), YamlValue::Int(2)), (ys("y"), YamlValue::Null)]),
        ),
        (YamlValue::Float("-0".to_string()), ys("minus zero")),
        (ys("list"), YamlValue::Mapping(vec![(ys("k"), YamlValue::Bool(true))])),
        (YamlValue::Int(7), ys("seven")),
    ]);
    let merged = merge_yaml_value(dest, &src);
    let expected = YamlValue::Mapping(vec![
        (
            ys("a"),
            YamlValue::Mapping(vec![(ys("x"), YamlValue::Int(1)), (ys("y"), YamlValue::Null)]),
        ),
        (YamlValue::Float("0".to_string()), ys("zero")),
        (ys("list"), YamlValue::Sequence(vec![YamlValue::Int(1)])),
        (YamlValue::Int(7), ys("seven")),
    ]);
    assert!(values_equal(&merged, &expected), "{:?}", merged);
    assert!(!values_equal(&merged, &src));
    assert!(values_equal(&merge_yaml_value(YamlValue::Int(1), &src), &YamlValue::Int(1)));
    assert!(values_equal(&merge_yaml_value(ys("s"), &YamlValue::Int(2)), &ys("s")));
    assert!(!values_equal(&YamlValue::Int(1), &ys("1")));
    assert!(!values_equal(
        &YamlValue::Sequence(vec![YamlValue::Int(1)]),
        &YamlValue::Sequence(vec![YamlValue::Int(1), YamlValue::Int(2)])
    ));
}

fn node(kind: &str, named: bool, field: Option<&str>, start: usize, end: usize, children: Vec<SyntaxNode>) -> SyntaxNode {
    SyntaxNode { kind: c(kind), named, field: field.map(c), start_byte: start, end_byte: end, children }
}

#[test]
fn named_merge_works_on_any_tree() {
    // dest: "use a;\nfn f() {}"          src: "use b;\nfn f() {}\nfn g() {}\n"
    let dest = b"use a;\nfn f() {}";
    let src = b"use b;\nfn f() {}\nfn g() {}\n";
    let dest_root = node(
        "source_file",
        true,
        None,
        0,
        16,
        vec![
            node("use_declaration", true, None, 0, 6, vec![]),
            node("function_item", true, None, 7, 16, vec![node("identifier", true, Some("name"), 10, 11, vec![])]),
        ],
    );
    let src_root = node(
        "source_file",
        true,
        None,
        0,
        27,
        vec![
            node("use_declaration", true, None, 0, 6, vec![]),
            node("function_item", true, None, 7, 16, vec![node("identifier", true, Some("name"), 10, 11, vec![])]),
            node(";", false, None, 16, 17, vec![]),
            node("function_item", true, None, 17, 26, vec![node("identifier", true, None, 20, 21, vec![])]),
            node("function_item", true, None, 900, 901, vec![]),
        ],
    );
    let rules = language_rules(Grammar::Rust);
    let items = ts_top_level_items(&src_root, src, &rules, false);
    assert_eq!(items.len(), 4);
    assert!(items[0].is_import && !items[0].is_named);
    assert_eq!(items[1].name.clone().map(st), Some("f".to_string()));
    assert_eq!(items[2].name.clone().map(st), Some("g".to_string()));
    assert_eq!(st(items[2].text.clone()), "fn g() {}");
    assert_eq!(items[3].name, None);
    assert_eq!(st(items[3].text.clone()), "");
    assert_eq!(ts_item_name(&src_root.children[1], src).map(st), Some("f".to_string()));
    assert_eq!(ts_import_insertion_byte(&ts_top_level_items(&dest_root, dest, &rules, false)), 6);

    let out = merge_named_top_level(dest, src, &dest_root, &src_root, &rules);
    assert_eq!(String::from_utf8(out).unwrap(), "use a;\nuse b;\n\nfn f() {}\n\nfn g() {}\n");

    let none = LangMergeRules { import_like: vec![], named_like: vec![c("")], skip_if_dest_has_namespace: false };
    assert_eq!(merge_named_top_level(dest, src, &dest_root, &src_root, &none), dest);
}

#[test]
fn parsers_give_trees_of_the_text() {
    let tree = parse(Grammar::Rust, &c("fn a() {}\n")).expect("tree");
    assert_eq!(st(tree.kind.clone()), "source_file");
    assert_eq!(tree.start_byte, 0);
    assert_eq!(tree.end_byte, 10);
    assert_eq!(tree.children.len(), 1);
    let f = &tree.children[0];
    assert_eq!(st(f.kind.clone()), "function_item");
    assert!(f.named);
    assert_eq!((f.start_byte, f.end_byte), (0, 9));
    let name = f.children.iter().find(|n| n.field.clone().map(st).as_deref() == Some("name")).unwrap();
    assert_eq!(st(name.kind.clone()), "identifier");
    assert_eq!((name.start_byte, name.end_byte), (3, 4));
    assert!(f.children.iter().any(|n| !n.named));
}

#[test]
fn entries_are_visited_in_the_order_of_their_paths() {
    let e = |rel: &str, kind| TemplateEntry { rel: rel.to_string(), kind };
    let sorted = sort_entries(vec![
        e("b", EntryKind::File),
        e("a/z", EntryKind::Dir),
        e("B", EntryKind::File),
        e("a", EntryKind::Dir),
        e("\u{e9}", EntryKind::File),
        e("b", EntryKind::Dir),
        e("a.txt", EntryKind::File),
    ]);
    let seen: Vec<(String, EntryKind)> = sorted.into_iter().map(|t| (t.rel, t.kind)).collect();
    let mut names: Vec<&str> = vec!["b", "a/z", "B", "a", "\u{e9}", "b", "a.txt"];
    names.sort();
    assert_eq!(seen.iter().map(|(n, _)| n.as_str()).collect::<Vec<_>>(), names);
    assert_eq!(seen[4], ("b".to_string(), EntryKind::File));
    assert_eq!(seen[5], ("b".to_string(), EntryKind::Dir));
}
