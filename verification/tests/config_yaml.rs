use pinit_core::config::yaml::{
    config_format, load_config, parse_yaml, yaml_as_bool, yaml_as_string, yaml_as_vec_of_strings,
    yaml_get, yaml_get_string, yaml_to_config, yaml_to_hooks, yaml_to_license,
    yaml_to_override_rules, ConfigFormat, YamlNode,
};
use pinit_core::config::{
    Config, ConfigError, GitProtocol, HookRunOn, OverrideAction, TargetDef, TemplateDef,
};

fn key(s: &str) -> YamlNode {
    YamlNode::String(s.to_string())
}

fn text(s: &str) -> YamlNode {
    YamlNode::String(s.to_string())
}

fn no_toml() -> Result<Config, String> {
    Err("not toml".to_string())
}

fn load_yaml(content: &str) -> Result<(String, Config), ConfigError> {
    load_config("pinit.yaml", content, no_toml())
}

#[test]
fn yaml_value_string_coercions() {
    assert_eq!(yaml_as_string(&YamlNode::Boolean(true)).as_deref(), Some("true"));
    assert_eq!(yaml_as_string(&YamlNode::Boolean(false)).as_deref(), Some("false"));
    assert_eq!(yaml_as_string(&YamlNode::Integer(42)).as_deref(), Some("42"));
    assert_eq!(yaml_as_string(&YamlNode::Integer(-7)).as_deref(), Some("-7"));
    assert_eq!(
        yaml_as_string(&YamlNode::Integer(i64::MIN)).as_deref(),
        Some("-9223372036854775808")
    );
    assert!(yaml_as_string(&YamlNode::Real(std::f64::consts::PI.to_string()))
        .unwrap()
        .starts_with("3.14"));
    assert_eq!(yaml_as_string(&YamlNode::Other), None);

    let seq = YamlNode::Array(vec![YamlNode::Integer(1), YamlNode::Boolean(false)]);
    assert_eq!(
        yaml_as_vec_of_strings(&seq).unwrap(),
        vec!["1".to_string(), "false".to_string()]
    );

    let bad = YamlNode::Array(vec![YamlNode::Hash(Vec::new())]);
    assert!(yaml_as_vec_of_strings(&bad).is_none());
    assert!(yaml_as_vec_of_strings(&text("x")).is_none());
    assert_eq!(yaml_as_bool(&YamlNode::Boolean(true)), Some(true));
    assert_eq!(yaml_as_bool(&text("true")), None);
}

#[test]
fn yaml_to_config_handles_sources_templates_targets_and_recipes() {
    let mut root = Vec::new();
    root.push((key("base_template"), text("common")));

    let lic_map = vec![(key("id"), text("MIT")), (key("path"), text("LICENSES/MIT.txt"))];
    root.push((key("license"), YamlNode::Hash(lic_map)));

    let src_ok = vec![
        (key("name"), text("local")),
        (key("path"), text("/tmp/templates")),
        (key("git_protocol"), text("https")),
    ];
    let src_missing_name = YamlNode::Hash(Vec::new());
    root.push((
        key("sources"),
        YamlNode::Array(vec![YamlNode::Hash(src_ok), text("not-a-map"), src_missing_name]),
    ));

    let detailed = vec![(key("source"), text("local")), (key("path"), text("common"))];
    let templates = vec![
        (key("rust"), text("rust")),
        (key("common"), YamlNode::Hash(detailed)),
        (key("bad"), YamlNode::Hash(Vec::new())),
    ];
    root.push((key("templates"), YamlNode::Hash(templates)));

    let targets = vec![
        (key("rust"), YamlNode::Array(vec![text("common"), text("rust")])),
        (key("bad"), text("no")),
    ];
    root.push((key("targets"), YamlNode::Hash(targets)));

    let fs_ok = vec![
        (key("root"), text("/tmp")),
        (key("include"), YamlNode::Array(vec![text("README.md")])),
    ];
    let recipe_map = vec![
        (key("templates"), YamlNode::Array(vec![text("rust")])),
        (key("files"), YamlNode::Array(vec![YamlNode::Hash(fs_ok), text("bad")])),
    ];
    let recipes = vec![(key("r1"), YamlNode::Hash(recipe_map)), (key("bad"), text("no"))];
    root.push((key("recipes"), YamlNode::Hash(recipes)));

    let cfg = yaml_to_config("x", &YamlNode::Hash(root)).unwrap();
    assert_eq!(cfg.base_template.as_deref(), Some("common"));
    assert_eq!(cfg.license.as_ref().unwrap().spdx(), "MIT");
    assert_eq!(cfg.license.as_ref().unwrap().output_path(), "LICENSES/MIT.txt");
    assert_eq!(cfg.sources.len(), 1);
    assert_eq!(cfg.sources[0].git_protocol, Some(GitProtocol::Https));
    assert_eq!(cfg.sources[0].path.as_deref(), Some("/tmp/templates"));
    assert!(cfg.templates.contains_key("rust"));
    assert!(cfg.templates.contains_key("common"));
    assert!(!cfg.templates.contains_key("bad"));
    assert!(matches!(
        cfg.templates.get("common"),
        Some(TemplateDef::Detailed { source: Some(s), path }) if s == "local" && path == "common"
    ));
    assert_eq!(
        cfg.targets.get("rust").unwrap().templates(),
        &["common".to_string(), "rust".to_string()]
    );
    assert!(!cfg.targets.contains_key("bad"));
    assert!(cfg.recipes.contains_key("r1"));
    assert!(!cfg.recipes.contains_key("bad"));
    assert_eq!(cfg.recipes.get("r1").unwrap().files.len(), 1);
    assert_eq!(cfg.recipes.get("r1").unwrap().files[0].includes, vec!["README.md"]);
}

#[test]
fn parses_yaml_and_resolves_target() {
    let yaml = r#"
base_template: common
license: MIT
templates:
  common: common
  rust: rust
targets:
  rust: [common, rust]
"#;
    let (path, cfg) = load_yaml(yaml).unwrap();
    assert_eq!(path, "pinit.yaml");
    let resolved = cfg.resolve_recipe("rust").unwrap();
    assert_eq!(resolved.templates, vec!["common".to_string(), "rust".to_string()]);
    assert_eq!(cfg.license.as_ref().unwrap().spdx(), "MIT");
    assert!(resolved.overrides.is_empty());
}

#[test]
fn parses_yaml_hooks() {
    let yaml = r#"
templates:
  rust: rust
hooks:
  after_all:
    - command: [echo, done]
      run_on: [update]
      cwd: sub
      allow_failure: true
      env:
        B: 2
        A: one
recipes:
  rust:
    templates: [rust]
    hooks:
      after_recipe:
        - command: [cargo, fmt]
          run_on: [init, Update]
"#;
    let (_, cfg) = load_yaml(yaml).unwrap();
    assert_eq!(cfg.hooks.after_all.len(), 1);
    let h = &cfg.hooks.after_all[0];
    assert_eq!(h.command, vec!["echo", "done"]);
    assert_eq!(h.run_on, vec![HookRunOn::Update]);
    assert_eq!(h.cwd.as_deref(), Some("sub"));
    assert!(h.allow_failure);
    assert_eq!(h.env.len(), 2);
    assert_eq!(h.env.name_at(0), "A");
    assert_eq!(h.env.get("B").unwrap(), "2");
    let r = cfg.recipes.get("rust").unwrap();
    assert_eq!(r.hooks.after_recipe.len(), 1);
    assert_eq!(r.hooks.after_recipe[0].run_on, vec![HookRunOn::Init, HookRunOn::Update]);
}

#[test]
fn invalid_hook_run_on_errors() {
    let yaml = r#"
hooks:
  after_all:
    - command: [echo, done]
      run_on: [sometimes]
"#;
    let err = load_yaml(yaml).unwrap_err();
    assert!(matches!(err, ConfigError::InvalidConfig { .. }));
    assert_eq!(
        err.message(),
        "pinit.yaml: hooks.after_all[0].run_on has invalid value 'sometimes'"
    );
}

#[test]
fn the_first_invalid_run_on_word_is_named_in_lower_case() {
    let yaml = r#"
hooks:
  after_all:
    - command: [echo, done]
      run_on: [init, Sometimes, never]
"#;
    let err = load_yaml(yaml).unwrap_err();
    assert!(matches!(err, ConfigError::InvalidConfig { .. }));
    assert_eq!(
        err.message(),
        "pinit.yaml: hooks.after_all[0].run_on has invalid value 'sometimes'"
    );
}

#[test]
fn yaml_hooks_are_held_to_their_form() {
    let list = |items: Vec<YamlNode>| YamlNode::Array(items);
    let message = |y: &YamlNode| match yaml_to_hooks("p", "hooks.after_all", y) {
        Err(ConfigError::InvalidConfig { message, .. }) => message,
        other => panic!("unexpected {:?}", other),
    };
    assert_eq!(message(&text("x")), "hooks.after_all must be a list");
    assert_eq!(message(&list(vec![text("x")])), "hooks.after_all[0] must be a mapping");
    let no_command = YamlNode::Hash(vec![(key("run_on"), list(vec![text("init")]))]);
    assert_eq!(
        message(&list(vec![no_command])),
        "hooks.after_all[0].command must be a non-empty list"
    );
    let ok = || {
        YamlNode::Hash(vec![
            (key("command"), list(vec![text("echo")])),
            (key("run_on"), list(vec![text("init")])),
        ])
    };
    let empty_run_on = YamlNode::Hash(vec![
        (key("command"), list(vec![text("echo")])),
        (key("run_on"), list(vec![])),
    ]);
    assert_eq!(
        message(&list(vec![ok(), empty_run_on])),
        "hooks.after_all[1].run_on must be a non-empty list"
    );
    let bad_allow = YamlNode::Hash(vec![
        (key("command"), list(vec![text("echo")])),
        (key("run_on"), list(vec![text("init")])),
        (key("allow_failure"), text("yes")),
    ]);
    assert_eq!(
        message(&list(vec![ok(), ok(), bad_allow])),
        "hooks.after_all[2].allow_failure must be a boolean"
    );
    assert_eq!(yaml_to_hooks("p", "l", &list(vec![ok(), ok()])).unwrap().len(), 2);
}

#[test]
fn parses_yaml_license_detailed() {
    let yaml = r#"
license:
  spdx: MIT
  year: "2025"
  name: Clay
  output: LICENSES/MIT.txt
  args:
    files: "this software"
templates:
  rust: rust
"#;
    let (_, cfg) = load_yaml(yaml).unwrap();
    let lic = cfg.license.unwrap();
    assert_eq!(lic.spdx(), "MIT");
    assert_eq!(lic.output_path(), "LICENSES/MIT.txt");
    let args = lic.template_args();
    assert_eq!(args.get("year").unwrap(), "2025");
    assert_eq!(args.get("fullname").unwrap(), "Clay");
    assert_eq!(args.get("files").unwrap(), "this software");
}

#[test]
fn yaml_license_alias_keys_are_supported() {
    let yaml = r#"
license:
  id: MIT
  path: LICENSES/MIT.txt
  year: 2025
  name: Clay
templates:
  rust: rust
"#;
    let (_, cfg) = load_yaml(yaml).unwrap();
    let lic = cfg.license.unwrap();
    assert_eq!(lic.spdx(), "MIT");
    assert_eq!(lic.output_path(), "LICENSES/MIT.txt");
    let args = lic.template_args();
    assert_eq!(args.get("year").unwrap(), "2025");
    assert_eq!(args.get("fullname").unwrap(), "Clay");
    assert!(yaml_to_license(&YamlNode::Hash(vec![(key("name"), text("x"))])).is_none());
    assert!(yaml_to_license(&YamlNode::Other).is_none());
}

#[test]
fn yaml_overrides_are_parsed() {
    let yaml = r#"
overrides:
  - path: ".editorconfig"
    action: skip
  - pattern: dropped
    action: sometimes
  - action: merge
  - pattern: plain
templates:
  common: common
  rust: rust
targets:
  rust:
    templates: [common, rust]
    overrides:
      - pattern: ".gitignore"
        action: overwrite
recipes:
  full:
    templates: [rust]
    overrides:
      - path: Cargo.toml
        action: MERGE
"#;
    let (_, cfg) = load_yaml(yaml).unwrap();
    assert_eq!(cfg.overrides.len(), 2);
    assert_eq!(cfg.overrides[1].pattern, "plain");
    assert_eq!(cfg.overrides[1].action, OverrideAction::Overwrite);
    let resolved = cfg.resolve_recipe("rust").unwrap();
    assert_eq!(resolved.overrides.len(), 3);
    assert_eq!(resolved.overrides[0].pattern, ".editorconfig");
    assert_eq!(resolved.overrides[0].action, OverrideAction::Skip);
    assert_eq!(resolved.overrides[2].pattern, ".gitignore");
    assert!(matches!(cfg.targets.get("rust"), Some(TargetDef::Detailed(_))));
    let recipe = cfg.resolve_recipe("full").unwrap();
    assert_eq!(recipe.overrides.len(), 3);
    assert_eq!(recipe.overrides[2].pattern, "Cargo.toml");
    assert_eq!(recipe.overrides[2].action, OverrideAction::Merge);
    assert!(yaml_to_override_rules(&text("x")).is_none());
}

#[test]
fn load_config_yaml_root_not_mapping_errors() {
    let err = load_yaml("- a\n- b\n").unwrap_err();
    assert!(matches!(err, ConfigError::YamlRootNotMapping { ref path } if path == "pinit.yaml"));
    let err = parse_yaml("p.yml", "").unwrap_err();
    assert!(matches!(err, ConfigError::ParseYaml { ref message, .. } if message == "empty YAML document"));
    let err = parse_yaml("p.yml", "a: [1, 2\n").unwrap_err();
    assert!(matches!(err, ConfigError::ParseYaml { .. }));
}

#[test]
fn load_config_invalid_toml_errors() {
    let err = load_config("pinit.toml", "this is not toml = ", Err("expected a value".to_string()))
        .unwrap_err();
    assert!(matches!(
        err,
        ConfigError::ParseToml { ref path, ref source } if path == "pinit.toml" && source == "expected a value"
    ));
}

#[test]
fn load_config_unknown_extension_falls_back_to_toml_then_yaml() {
    let mut from_toml = Config::default();
    from_toml.base_template = Some("common".to_string());
    let (_, cfg) = load_config("pinit.conf", "ignored: true\n", Ok(from_toml)).unwrap();
    assert_eq!(cfg.base_template.as_deref(), Some("common"));

    let (_, cfg) = load_config("pinit.conf", "base_template: other\n", no_toml()).unwrap();
    assert_eq!(cfg.base_template.as_deref(), Some("other"));

    let mut from_toml = Config::default();
    from_toml.base_template = Some("common".to_string());
    let (_, cfg) = load_config("pinit.YAML", "base_template: other\n", Ok(from_toml)).unwrap();
    assert_eq!(cfg.base_template.as_deref(), Some("other"));

    assert_eq!(config_format("a/b/pinit.TOML"), ConfigFormat::Toml);
    assert_eq!(config_format("pinit.yml"), ConfigFormat::Yaml);
    assert_eq!(config_format("pinit"), ConfigFormat::Either);
    assert_eq!(config_format(".toml"), ConfigFormat::Either);
}

#[test]
fn yaml_lookups_take_the_first_entry_with_a_text_key() {
    let map = vec![
        (YamlNode::Integer(1), text("number key")),
        (key("a"), YamlNode::Integer(5)),
        (key("a"), text("second")),
    ];
    assert!(matches!(yaml_get(&map, "a"), Some(YamlNode::Integer(5))));
    assert!(yaml_get(&map, "1").is_none());
    assert_eq!(yaml_get_string(&map, "a").as_deref(), Some("5"));
    assert_eq!(yaml_get_string(&map, "b"), None);
}
