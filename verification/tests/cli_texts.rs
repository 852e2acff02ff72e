use pinit_core::cli::{
    apply_summary, build_args, built_binary, combined_overrides, config_listing, default_action,
    default_filter, diff_report, expand_tilde, git_init_args, git_init_next, license_file_bytes,
    license_output_error, new_dir_step, override_action_from_arg, stack_options,
    template_display_name, ApplyArgs, CallOutcome, CliDecider, GitInitNext, GitInitStep, NewArgs,
    OverrideActionArg,
};
use pinit_core::config::{
    Config, FileSetDef, HookSet, OverrideAction, OverrideRule, RecipeDef, TargetDef, TemplateDef,
};
use pinit_core::{ApplyReport, ExistingFileAction, ExistingFileDecider, ExistingFileDecisionContext};

fn s(x: &str) -> String {
    x.to_string()
}

fn ctx<'a>(name: Option<&'a str>, rel: &'a str, merge: Option<&'a [u8]>) -> ExistingFileDecisionContext<'a> {
    ExistingFileDecisionContext {
        template_name: name,
        template_index: name.map(|_| 0),
        rel_path: rel,
        dest_path: "/d",
        src_bytes: b"new",
        dest_bytes: b"old",
        merge_bytes: merge,
    }
}

#[test]
fn summary_lines() {
    let r = ApplyReport { created_files: 3, updated_files: 10, skipped_files: 0, ignored_paths: 7 };
    assert_eq!(
        apply_summary(false, r),
        "created 3 file(s), updated 10 file(s), skipped 0 file(s)"
    );
    assert_eq!(
        apply_summary(true, r),
        "dry-run: would create 3 file(s), update 10 file(s), skip 0 file(s)"
    );
}

#[test]
fn default_filters_by_verbosity() {
    assert_eq!(default_filter(0), "warn,pinit=warn,pinit_core=warn");
    assert_eq!(default_filter(1), "warn,pinit=info,pinit_core=info");
    assert_eq!(default_filter(2), "warn,pinit=debug,pinit_core=debug");
    assert_eq!(default_filter(9), "warn,pinit=trace,pinit_core=trace");
}

#[test]
fn flags_choose_the_default_action() {
    assert_eq!(default_action(true, true), ExistingFileAction::Overwrite);
    assert_eq!(default_action(false, true), ExistingFileAction::Skip);
    assert_eq!(default_action(false, false), ExistingFileAction::Merge);
    let args = ApplyArgs {
        template: s("t"),
        dest_dir: None,
        dry_run: false,
        yes: false,
        overwrite: false,
        merge: true,
        skip: false,
        overrides: vec![],
        override_action: None,
    };
    assert_eq!(args.default_action(), ExistingFileAction::Merge);
    assert!(args.non_interactive());
    let new = NewArgs {
        template: s("t"),
        dir: s("d"),
        dry_run: true,
        yes: false,
        overwrite: false,
        merge: false,
        skip: false,
        overrides: vec![],
        override_action: None,
        git: false,
        no_git: false,
        branch: s("main"),
    };
    assert!(new.non_interactive());
    assert_eq!(new.default_action(), ExistingFileAction::Merge);
}

#[test]
fn command_line_overrides_follow_those_of_the_configuration() {
    let resolved = vec![OverrideRule { pattern: s("a"), action: OverrideAction::Skip }];
    let out = combined_overrides(&resolved, &vec![s("b"), s("c")], Some(OverrideActionArg::Merge));
    let seen: Vec<(String, OverrideAction)> = out.into_iter().map(|r| (r.pattern, r.action)).collect();
    assert_eq!(
        seen,
        vec![
            (s("a"), OverrideAction::Skip),
            (s("b"), OverrideAction::Merge),
            (s("c"), OverrideAction::Merge)
        ]
    );
    assert_eq!(override_action_from_arg(None), OverrideAction::Overwrite);
    assert_eq!(override_action_from_arg(Some(OverrideActionArg::Skip)), OverrideAction::Skip);
    assert_eq!(combined_overrides(&resolved, &vec![], None).len(), 1);
}

#[test]
fn the_last_matching_rule_decides() {
    let rules = || {
        vec![
            OverrideRule { pattern: s("**/*.md"), action: OverrideAction::Skip },
            OverrideRule { pattern: s("docs/**"), action: OverrideAction::Merge },
            OverrideRule { pattern: s("docs/keep.md"), action: OverrideAction::Overwrite },
        ]
    };
    let d = CliDecider::new(ExistingFileAction::Skip, false, rules());
    assert_eq!(d.override_action(&ctx(Some("t"), "README.md", None)), Some(ExistingFileAction::Skip));
    assert_eq!(
        d.override_action(&ctx(Some("t"), "./docs/a.md", Some(b"m"))),
        Some(ExistingFileAction::Merge)
    );
    assert_eq!(d.override_action(&ctx(Some("t"), "docs/a.md", None)), Some(ExistingFileAction::Skip));
    assert_eq!(
        d.override_action(&ctx(Some("t"), "docs/keep.md", None)),
        Some(ExistingFileAction::Overwrite)
    );
    assert_eq!(d.override_action(&ctx(Some("t"), "src/main.rs", None)), None);
    assert_eq!(d.override_action(&ctx(None, "README.md", None)), None);

    assert_eq!(d.decide_unprompted(&ctx(Some("t"), "src/main.rs", None)), None);
    let mut quiet = CliDecider::new(ExistingFileAction::Merge, true, rules());
    assert_eq!(
        quiet.decide_unprompted(&ctx(Some("t"), "src/main.rs", Some(b"m"))),
        Some(ExistingFileAction::Merge)
    );
    assert_eq!(
        quiet.decide_unprompted(&ctx(Some("t"), "src/main.rs", None)),
        Some(ExistingFileAction::Skip)
    );
    assert_eq!(quiet.decide(ctx(None, "README.md", Some(b"m"))), ExistingFileAction::Merge);
    let mut asks = CliDecider::new(ExistingFileAction::Overwrite, false, vec![]);
    assert_eq!(asks.decide(ctx(Some("t"), "x", None)), ExistingFileAction::Skip);
}

#[test]
fn stack_options_name_the_template() {
    let o = stack_options(true, "rust", 2);
    assert!(o.dry_run);
    assert_eq!(o.template_name.as_deref(), Some("rust"));
    assert_eq!(o.template_index, Some(2));
}

#[test]
fn git_init_falls_back_to_plain_init_and_checkout() {
    assert_eq!(
        git_init_args(GitInitStep::InitWithBranch, "main"),
        vec!["init", "--initial-branch", "main"]
    );
    assert_eq!(git_init_args(GitInitStep::PlainInit, "main"), vec!["init"]);
    assert_eq!(git_init_args(GitInitStep::CheckoutBranch, "dev"), vec!["checkout", "-B", "dev"]);

    let ok = CallOutcome::Ran { success: true, code: Some(0), stderr: vec![] };
    let failed = CallOutcome::Ran { success: false, code: Some(129), stderr: b" unknown option \n".to_vec() };
    let killed = CallOutcome::Ran { success: false, code: None, stderr: vec![] };
    let missing = CallOutcome::NotRun(s("No such file"));

    assert!(matches!(git_init_next(GitInitStep::InitWithBranch, &ok, "main"), GitInitNext::Done));
    assert!(matches!(
        git_init_next(GitInitStep::InitWithBranch, &failed, "main"),
        GitInitNext::Run(GitInitStep::PlainInit)
    ));
    assert!(matches!(
        git_init_next(GitInitStep::PlainInit, &ok, "main"),
        GitInitNext::Run(GitInitStep::CheckoutBranch)
    ));
    assert!(matches!(git_init_next(GitInitStep::CheckoutBranch, &ok, "main"), GitInitNext::Done));

    let fail = |step, outcome: &CallOutcome| match git_init_next(step, outcome, "main") {
        GitInitNext::Fail(m) => m,
        other => panic!("unexpected {:?}", other),
    };
    assert_eq!(fail(GitInitStep::InitWithBranch, &missing), "failed to run git: No such file");
    assert_eq!(fail(GitInitStep::PlainInit, &missing), "failed to run git init: No such file");
    assert_eq!(fail(GitInitStep::CheckoutBranch, &missing), "failed to run git checkout: No such file");
    assert_eq!(fail(GitInitStep::PlainInit, &failed), "git init failed (129): unknown option");
    assert_eq!(fail(GitInitStep::CheckoutBranch, &killed), "git checkout -B main failed (1): ");
}

#[test]
fn new_directories_must_be_empty() {
    assert_eq!(new_dir_step("proj", false, false, true), Ok(true));
    assert_eq!(new_dir_step("proj", true, true, true), Ok(false));
    assert_eq!(
        new_dir_step("proj", true, false, false),
        Err(s("destination is not a directory: proj"))
    );
    assert_eq!(
        new_dir_step("proj", true, true, false),
        Err(s("destination already exists and is not empty: proj"))
    );
}

#[test]
fn license_files_end_in_a_line_feed() {
    assert_eq!(license_file_bytes("MIT"), b"MIT\n");
    assert_eq!(license_file_bytes("MIT\n"), b"MIT\n");
    assert_eq!(license_file_bytes(""), b"\n");
    assert_eq!(license_output_error("LICENSE"), None);
    assert_eq!(
        license_output_error("/etc/LICENSE"),
        Some(s("license.output must be a relative path, got /etc/LICENSE"))
    );
    assert_eq!(template_display_name("/tmp/templates/rust"), "rust");
    assert_eq!(template_display_name("rust/"), "rust");
    assert_eq!(template_display_name(".."), "..");
    assert_eq!(template_display_name("/"), "/");
}

#[test]
fn diffs_are_shown_or_explained() {
    let out = diff_report("dest", "template", b"a\nb\n", b"a\nc\n");
    assert!(out.starts_with("--- dest\n+++ template\n"));
    assert!(out.contains("-b\n"));
    assert!(out.contains("+c\n"));
    assert_eq!(diff_report("dest", "template", b"a\n", b"a\n"), "(no textual changes)\n");
    assert_eq!(diff_report("dest", "merged", &[0xff, 0xfe], b"a"), "(binary dest; 2 bytes)\n");
    assert_eq!(
        diff_report("dest", "merged", b"a", &[0xff]),
        "(binary template/merged; 1 bytes)\n"
    );
    let big = vec![b'x'; 200_001];
    assert_eq!(
        diff_report("dest", "merged", &big, b"a"),
        "(diff too large: 200001 \u{2192} 1 bytes)\n"
    );
    let edge = vec![b'x'; 200_000];
    assert!(diff_report("dest", "merged", &edge, &edge).starts_with("(no textual"));
}

#[test]
fn configurations_are_listed_in_the_order_of_their_names() {
    let mut cfg = Config::default();
    assert_eq!(config_listing("/c/pinit.toml", &cfg), "config: /c/pinit.toml\n");
    cfg.templates.insert(s("rust"), TemplateDef::Detailed { source: Some(s("local")), path: s("rust") });
    cfg.templates.insert(s("common"), TemplateDef::Path(s("/t/common")));
    cfg.templates.insert(s("web"), TemplateDef::Detailed { source: None, path: s("/w") });
    cfg.targets.insert(s("all"), TargetDef::Templates(vec![s("common"), s("rust")]));
    cfg.recipes.insert(
        s("lite"),
        RecipeDef {
            templates: vec![],
            files: vec![FileSetDef { root: s("/r"), includes: vec![], dest_prefix: None }],
            overrides: vec![],
            hooks: HookSet::default(),
        },
    );
    cfg.recipes.insert(
        s("full"),
        RecipeDef {
            templates: vec![s("common"), s("rust"), s("web")],
            files: vec![],
            overrides: vec![],
            hooks: HookSet::default(),
        },
    );
    assert_eq!(
        config_listing("p", &cfg),
        "config: p\n\
         \ntemplates:\n\
         \x20 common (source: -, path: /t/common)\n\
         \x20 rust (source: local, path: rust)\n\
         \x20 web (source: -, path: /w)\n\
         \ntargets:\n\
         \x20 all = common + rust\n\
         \nrecipes:\n\
         \x20 full (templates: common + rust + web, filesets: 0)\n\
         \x20 lite (templates: -, filesets: 1)\n"
    );
}

#[test]
fn tools_find_their_paths() {
    assert_eq!(built_binary("/w", "release"), "/w/target/release/pinit");
    assert_eq!(built_binary("/w/", "dev"), "/w/target/dev/pinit");
    assert_eq!(build_args("release"), vec!["build", "-p", "pinit-cli", "--release"]);
    assert_eq!(build_args("dev"), vec!["build", "-p", "pinit-cli", "--profile", "dev"]);
    assert_eq!(expand_tilde("~/.bin", Some("/home/u")), Some(s("/home/u/.bin")));
    assert_eq!(expand_tilde("~", Some("/home/u")), Some(s("/home/u")));
    assert_eq!(expand_tilde("~/.bin", None), None);
    assert_eq!(expand_tilde("/opt/bin", None), Some(s("/opt/bin")));
    assert_eq!(expand_tilde("~x", None), Some(s("~x")));
}

#[test]
fn an_empty_diff_is_shown_as_no_changes() {
    assert_eq!(pinit_core::cli::shown_diff(String::new()), "(no textual changes)\n");
    assert_eq!(pinit_core::cli::shown_diff(" \n\t\n".to_string()), "(no textual changes)\n");
    assert_eq!(pinit_core::cli::shown_diff("--- a\n+++ b\n".to_string()), "--- a\n+++ b\n");
}
