use pinit_core::cli::{prompt_step, rel_path_for_match, CliDecider, PromptStep};
use pinit_core::config::{OverrideAction, OverrideRule};
use pinit_core::glob::{glob_match, glob_match_segment};
use pinit_core::{ExistingFileAction, ExistingFileDecider, ExistingFileDecisionContext};

#[test]
fn override_rules_bypass_prompt_and_respect_merge_availability() {
    let mut decider = CliDecider::new(
        ExistingFileAction::Skip,
        false,
        vec![
            OverrideRule {
                pattern: "a.txt".to_string(),
                action: OverrideAction::Overwrite,
            },
            OverrideRule {
                pattern: "b.txt".to_string(),
                action: OverrideAction::Merge,
            },
        ],
    );

    let ctx_overwrite = ExistingFileDecisionContext {
        template_name: Some("rust"),
        template_index: Some(1),
        rel_path: "a.txt",
        dest_path: "/tmp/a.txt",
        src_bytes: b"new",
        dest_bytes: b"old",
        merge_bytes: None,
    };
    assert_eq!(decider.decide(ctx_overwrite), ExistingFileAction::Overwrite);

    let ctx_merge_unavailable = ExistingFileDecisionContext {
        template_name: Some("rust"),
        template_index: Some(1),
        rel_path: "b.txt",
        dest_path: "/tmp/b.txt",
        src_bytes: b"new",
        dest_bytes: b"old",
        merge_bytes: None,
    };
    assert_eq!(
        decider.decide(ctx_merge_unavailable),
        ExistingFileAction::Skip
    );
}

#[test]
fn glob_segments_and_double_star() {
    assert!(glob_match("a.txt", "a.txt"));
    assert!(!glob_match("a.txt", "b.txt"));
    assert!(glob_match("*.txt", "a.txt"));
    assert!(!glob_match("*.txt", "dir/a.txt"));
    assert!(glob_match("**/*.txt", "dir/sub/a.txt"));
    assert!(glob_match("**/*.txt", "a.txt"));
    assert!(glob_match("src/**", "src"));
    assert!(glob_match("src/**", "src/a/b"));
    assert!(glob_match(".github\\workflows\\*.yml", ".github/workflows/ci.yml"));
    assert!(glob_match("/a/?.rs", "a/b.rs"));
    assert!(!glob_match("a/?.rs", "a/bc.rs"));
    assert!(glob_match("", ""));
    assert!(!glob_match("", "a"));
}

#[test]
fn glob_segment_wildcards() {
    assert!(glob_match_segment(b"a*b*c", b"aXXbYYc"));
    assert!(glob_match_segment(b"*", b""));
    assert!(glob_match_segment(b"a*", b"a"));
    assert!(!glob_match_segment(b"a*b", b"aXc"));
    assert!(glob_match_segment(b"?", b"x"));
    assert!(!glob_match_segment(b"?", b""));
    assert!(glob_match_segment(b"**", b"anything"));
    assert!(glob_match_segment(b"a*b", b"abab"));
}

#[test]
fn rel_path_for_match_strips_leading_dot_and_slash() {
    assert_eq!(rel_path_for_match("./a/b"), "a/b");
    assert_eq!(rel_path_for_match("././a"), "a");
    assert_eq!(rel_path_for_match("/a"), "a");
    assert_eq!(rel_path_for_match(".\\a\\b"), "a/b");
    assert_eq!(rel_path_for_match(".//a"), "a");
    assert_eq!(rel_path_for_match("a/./b"), "a/./b");
}

#[test]
fn prompt_lines_choose_actions() {
    assert!(matches!(prompt_step("\n", true), PromptStep::Answer(ExistingFileAction::Merge)));
    assert!(matches!(prompt_step(" M \n", true), PromptStep::Answer(ExistingFileAction::Merge)));
    assert!(matches!(prompt_step("m", false), PromptStep::MergeUnavailable));
    assert!(matches!(prompt_step("o\n", false), PromptStep::Answer(ExistingFileAction::Overwrite)));
    assert!(matches!(prompt_step("S\n", false), PromptStep::Answer(ExistingFileAction::Skip)));
    assert!(matches!(prompt_step("d\n", false), PromptStep::ShowDiffs));
    match prompt_step(" What \n", true) {
        PromptStep::Unknown(c) => assert_eq!(c, "what"),
        other => panic!("unexpected step {:?}", other),
    }
}

struct Always(ExistingFileAction);

impl ExistingFileDecider for Always {
    fn decide(&mut self, _ctx: ExistingFileDecisionContext<'_>) -> ExistingFileAction {
        self.0
    }
}

#[test]
fn a_decider_can_be_written_outside_the_library() {
    let mut d = Always(ExistingFileAction::Merge);
    let ctx = ExistingFileDecisionContext {
        template_name: None,
        template_index: None,
        rel_path: "a",
        dest_path: "/tmp/a",
        src_bytes: b"x",
        dest_bytes: b"y",
        merge_bytes: None,
    };
    assert_eq!(d.decide(ctx), ExistingFileAction::Merge);
}
