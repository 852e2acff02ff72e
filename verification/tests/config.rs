use pinit_core::config::{
    clone_hook_set, config_paths, validate_config, validate_hook_set, validate_hooks_list, Config,
    ConfigError, FileSetDef, GitProtocol, HookDef, HookRunOn, HookSet, LicenseDef,
    LicenseDetailed, OverrideAction, OverrideRule, RecipeDef, ResolvedKind, TargetDef,
    TargetDetailed, TemplateDef,
};
use pinit_core::namemap::NameMap;
use pinit_core::resolve::ResolveError;
use pinit_core::{ApplyError, ExistingFileAction};

fn s(x: &str) -> String {
    x.to_string()
}

fn names(xs: &[&str]) -> Vec<String> {
    xs.iter().map(|x| x.to_string()).collect()
}

fn hook(command: &[&str], run_on: &[HookRunOn]) -> HookDef {
    HookDef {
        command: names(command),
        run_on: run_on.to_vec(),
        cwd: None,
        env: NameMap::new(),
        allow_failure: false,
    }
}

fn rule(pattern: &str, action: OverrideAction) -> OverrideRule {
    OverrideRule { pattern: s(pattern), action }
}

fn recipe(templates: &[&str]) -> RecipeDef {
    RecipeDef {
        templates: names(templates),
        files: Vec::new(),
        overrides: Vec::new(),
        hooks: HookSet::default(),
    }
}

#[test]
fn covers_display_and_small_helpers() {
    assert_eq!(ExistingFileAction::Overwrite.as_str(), "overwrite");
    assert_eq!(ExistingFileAction::Merge.as_str(), "merge");
    assert_eq!(ExistingFileAction::Skip.as_str(), "skip");

    let e = ApplyError::TemplateDirNotFound(s("x"));
    assert!(e.message().contains("template directory not found"));
    assert_eq!(e.message(), "template directory not found: x");

    let e = ApplyError::TemplateDirNotDir(s("x"));
    assert!(e.message().contains("template path is not a directory"));

    let e = ApplyError::DestDirNotDir(s("x"));
    assert!(e.message().contains("destination is not a directory"));

    let e = ApplyError::SymlinkNotSupported(s("x"));
    assert!(e.message().contains("symlinks are not supported"));

    let e = ApplyError::GitIgnoreFailed {
        cmd: "git".into(),
        status: 128,
        stderr: "no".into(),
    };
    assert!(e.message().contains("git ignore check failed"));
    assert_eq!(e.message(), "git ignore check failed (128) running git: no");

    let e = ApplyError::Io {
        path: s("x"),
        source: s("boom"),
    };
    assert!(e.message().contains("boom"));
    assert_eq!(e.message(), "x: boom");

    let e = ConfigError::NotFound;
    assert!(e.message().contains("no config file found"));

    let e = ConfigError::ParseYaml {
        path: s("x"),
        message: "bad".into(),
    };
    assert!(e.message().contains("bad"));
    assert_eq!(
        ConfigError::YamlRootNotMapping { path: s("p.yaml") }.message(),
        "p.yaml: YAML root must be a mapping"
    );

    let e = ResolveError::UnknownTemplate("nope".into());
    assert!(e.message().contains("unknown template"));

    let e = ResolveError::SourcePathMissing { source: "s".into() };
    assert!(e.message().contains("missing 'path'"));
    assert_eq!(
        ResolveError::GitCommandFailed { cmd: s("git x"), status: -1, stderr: s("e") }.message(),
        "git failed (-1) running git x: e"
    );
}

#[test]
fn parses_toml_and_resolves_target() {
    let mut cfg = Config::default();
    cfg.base_template = Some(s("common"));
    cfg.templates.insert(s("common"), TemplateDef::Path(s("common")));
    cfg.templates.insert(s("rust"), TemplateDef::Path(s("rust")));
    cfg.targets.insert(s("rust"), TargetDef::Templates(names(&["common", "rust"])));

    let resolved = cfg.resolve_recipe("rust").unwrap();
    assert_eq!(resolved.templates, vec!["common".to_string(), "rust".to_string()]);
    assert!(resolved.overrides.is_empty());
    assert_eq!(resolved.kind, ResolvedKind::Target);
    assert_eq!(resolved.name, "rust");
}

#[test]
fn recipe_can_be_defined_inline_with_filesets() {
    let mut cfg = Config::default();
    let mut r = recipe(&[]);
    r.files.push(FileSetDef {
        root: s("/tmp"),
        includes: names(&["README.md", ".github/workflows/*.yml"]),
        dest_prefix: None,
    });
    cfg.recipes.insert(s("rust-lite"), r);

    let resolved = cfg.resolve_recipe("rust-lite").unwrap();
    assert!(resolved.templates.is_empty());
    assert_eq!(resolved.files.len(), 1);
    assert_eq!(resolved.files[0].includes.len(), 2);
    assert_eq!(resolved.kind, ResolvedKind::Recipe);
}

#[test]
fn parses_toml_hooks() {
    let mut cfg = Config::default();
    cfg.hooks.after_all.push(hook(&["echo", "done"], &[HookRunOn::Update]));
    let mut r = recipe(&["rust"]);
    r.hooks.after_recipe.push(hook(&["cargo", "fmt"], &[HookRunOn::Init]));
    cfg.recipes.insert(s("rust"), r);

    assert_eq!(cfg.hooks.after_all.len(), 1);
    assert_eq!(cfg.hooks.after_all[0].command, vec!["echo", "done"]);
    assert_eq!(cfg.recipes.get("rust").unwrap().hooks.after_recipe.len(), 1);
    assert!(validate_config("pinit.toml", &cfg).is_ok());
    let resolved = cfg.resolve_recipe("rust").unwrap();
    assert_eq!(resolved.hooks.after_recipe[0].command, vec!["cargo", "fmt"]);
    assert_eq!(resolved.hooks.after_recipe[0].run_on, vec![HookRunOn::Init]);
    let copy = clone_hook_set(&cfg.hooks);
    assert_eq!(copy.after_all[0].command, vec!["echo", "done"]);
}

#[test]
fn parses_toml_license_detailed_with_defaults() {
    let lic = LicenseDef::Detailed(LicenseDetailed {
        spdx: s("MIT"),
        output: None,
        year: Some(s("2025")),
        name: Some(s("Clay")),
        args: NameMap::new(),
    });
    assert_eq!(lic.spdx(), "MIT");
    assert_eq!(lic.output_path(), "LICENSE");
    let args = lic.template_args();
    assert_eq!(args.get("year").unwrap(), "2025");
    assert_eq!(args.get("fullname").unwrap(), "Clay");
    assert_eq!(args.get("copyright holders").unwrap(), "Clay");
    assert_eq!(args.len(), 3);
}

#[test]
fn license_args_win_over_year_and_name() {
    let mut given = NameMap::new();
    given.insert(s("year"), s("1999"));
    given.insert(s("fullname"), s("Someone"));
    let lic = LicenseDef::Detailed(LicenseDetailed {
        spdx: s("MIT"),
        output: Some(s("LICENSES/MIT.txt")),
        year: Some(s("2025")),
        name: Some(s("Clay")),
        args: given,
    });
    assert_eq!(lic.output_path(), "LICENSES/MIT.txt");
    let args = lic.template_args();
    assert_eq!(args.get("year").unwrap(), "1999");
    assert_eq!(args.get("fullname").unwrap(), "Someone");
    assert_eq!(args.get("copyright holders").unwrap(), "Clay");
}

#[test]
fn toml_license_string_form_is_supported() {
    let mut cfg = Config::default();
    cfg.license = Some(LicenseDef::Spdx(s("MIT")));
    cfg.templates.insert(s("rust"), TemplateDef::Path(s("/tmp/rust")));
    let lic = cfg.license.unwrap();
    assert_eq!(lic.spdx(), "MIT");
    assert_eq!(lic.output_path(), "LICENSE");
    assert!(lic.template_args().is_empty());
}

#[test]
fn toml_overrides_are_parsed_for_targets_and_recipes() {
    let mut cfg = Config::default();
    cfg.overrides.push(rule(".editorconfig", OverrideAction::Skip));
    cfg.templates.insert(s("common"), TemplateDef::Path(s("/tmp/common")));
    cfg.templates.insert(s("rust"), TemplateDef::Path(s("/tmp/rust")));
    cfg.targets.insert(
        s("rust"),
        TargetDef::Detailed(TargetDetailed {
            templates: names(&["common", "rust"]),
            overrides: vec![rule(".gitignore", OverrideAction::Overwrite)],
        }),
    );
    let mut full = recipe(&["rust"]);
    full.overrides.push(rule("Cargo.toml", OverrideAction::Merge));
    cfg.recipes.insert(s("full"), full);

    let resolved = cfg.resolve_recipe("rust").unwrap();
    assert_eq!(resolved.overrides.len(), 2);
    assert_eq!(resolved.overrides[0].pattern, ".editorconfig");
    assert_eq!(resolved.overrides[0].action, OverrideAction::Skip);
    assert_eq!(resolved.overrides[1].pattern, ".gitignore");
    assert_eq!(resolved.overrides[1].action, OverrideAction::Overwrite);

    let recipe = cfg.resolve_recipe("full").unwrap();
    assert_eq!(recipe.overrides.len(), 2);
    assert_eq!(recipe.overrides[0].pattern, ".editorconfig");
    assert_eq!(recipe.overrides[1].pattern, "Cargo.toml");
}

#[test]
fn a_template_name_resolves_with_the_base_template_first() {
    let mut cfg = Config::default();
    cfg.base_template = Some(s("common"));
    cfg.overrides.push(rule("x", OverrideAction::Merge));
    cfg.templates.insert(s("common"), TemplateDef::Path(s("/c")));
    cfg.templates.insert(s("rust"), TemplateDef::Path(s("/r")));

    let r = cfg.resolve_recipe("rust").unwrap();
    assert_eq!(r.templates, vec!["common", "rust"]);
    assert_eq!(r.kind, ResolvedKind::Template);
    assert_eq!(r.overrides.len(), 1);
    let c = cfg.resolve_recipe("common").unwrap();
    assert_eq!(c.templates, vec!["common"]);
    assert!(cfg.resolve_recipe("nope").is_none());

    cfg.recipes.insert(s("rust"), recipe(&["a", "b"]));
    let r = cfg.resolve_recipe("rust").unwrap();
    assert_eq!(r.kind, ResolvedKind::Recipe);
    assert_eq!(r.templates, vec!["a", "b"]);
}

#[test]
fn hooks_need_a_command_and_a_run_on() {
    let ok = hook(&["echo"], &[HookRunOn::Init]);
    let no_command = hook(&[], &[HookRunOn::Init]);
    let no_run_on = hook(&["echo"], &[]);

    assert!(validate_hooks_list("p", "hooks.after_all", &vec![]).is_ok());
    match validate_hooks_list("p", "hooks.after_all", &vec![ok, no_run_on, no_command]) {
        Err(ConfigError::InvalidConfig { path, message }) => {
            assert_eq!(path, "p");
            assert_eq!(message, "hooks.after_all[1].run_on must be a non-empty list");
        }
        other => panic!("unexpected {:?}", other),
    }

    let mut set = HookSet::default();
    set.after_recipe.push(hook(&[], &[]));
    set.after_all.push(hook(&[], &[]));
    match validate_hook_set("p", "hooks", &set) {
        Err(ConfigError::InvalidConfig { message, .. }) => {
            assert_eq!(message, "hooks.after_recipe[0].command must be a non-empty list");
        }
        other => panic!("unexpected {:?}", other),
    }
}

#[test]
fn empty_hook_command_errors() {
    let mut cfg = Config::default();
    let mut bad = recipe(&[]);
    bad.hooks.after_dir_create.push(hook(&[], &[HookRunOn::Init]));
    cfg.recipes.insert(s("zeta"), recipe(&[]));
    cfg.recipes.insert(s("beta"), bad);
    let mut worse = recipe(&[]);
    worse.hooks.after_all.push(hook(&["x"], &[]));
    cfg.recipes.insert(s("gamma"), worse);
    match validate_config("pinit.toml", &cfg) {
        Err(ConfigError::InvalidConfig { path, message }) => {
            assert_eq!(path, "pinit.toml");
            assert_eq!(
                message,
                "recipes.beta.hooks.after_dir_create[0].command must be a non-empty list"
            );
        }
        other => panic!("unexpected {:?}", other),
    }
    cfg.hooks.after_all.push(hook(&[], &[HookRunOn::Init]));
    let err = validate_config("pinit.toml", &cfg).unwrap_err();
    assert_eq!(
        err.message(),
        "pinit.toml: hooks.after_all[0].command must be a non-empty list"
    );
}

#[test]
fn git_protocol_is_parsed_without_regard_to_case() {
    assert_eq!(GitProtocol::parse("ssh"), Some(GitProtocol::Ssh));
    assert_eq!(GitProtocol::parse("HTTPS"), Some(GitProtocol::Https));
    assert_eq!(GitProtocol::parse("git"), None);
    assert_eq!(OverrideAction::default(), OverrideAction::Overwrite);
}

#[test]
fn config_paths_prefer_xdg_over_home() {
    assert_eq!(
        config_paths(Some("/x"), Some("/h")),
        vec!["/x/pinit/pinit.toml", "/x/pinit/pinit.yaml", "/x/pinit/pinit.yml"]
    );
    assert_eq!(
        config_paths(None, Some("/h")),
        vec![
            "/h/.config/pinit/pinit.toml",
            "/h/.config/pinit/pinit.yaml",
            "/h/.config/pinit/pinit.yml"
        ]
    );
    assert!(config_paths(None, None).is_empty());
}

#[test]
fn name_map_keeps_names_in_order_and_replaces_values() {
    let mut m: NameMap<u32> = NameMap::new();
    assert!(m.is_empty());
    assert_eq!(m.insert(s("b"), 2), None);
    assert_eq!(m.insert(s("a"), 1), None);
    assert_eq!(m.insert(s("c"), 3), None);
    assert_eq!(m.insert(s("ab"), 4), None);
    assert_eq!(m.insert(s("b"), 5), Some(2));
    assert_eq!(m.len(), 4);
    let listed: Vec<(String, u32)> = (0..m.len()).map(|i| (m.name_at(i).clone(), *m.value_at(i))).collect();
    assert_eq!(listed, vec![(s("a"), 1), (s("ab"), 4), (s("b"), 5), (s("c"), 3)]);
    assert_eq!(m.get("ab"), Some(&4));
    assert_eq!(m.get("x"), None);
    assert!(m.contains_key("c"));
    assert!(!m.contains_key(""));
    assert_eq!(m.index_of("b"), Some(2));
}
