//! What the command line decides: the arguments, the decider that answers
//! from them, and the texts that are shown. Reading and printing is left
//! to the program.

use crate::apply::{
    strings, ApplyOptions, ApplyReport, DecisionView, ExistingFileAction, ExistingFileDecider,
    ExistingFileDecisionContext,
};
use crate::chars;
use crate::config::{
    clone_rules, rule_views, Config, ConfigView, OverrideAction, OverrideRule, RecipeView,
    TargetView, TemplateDefView,
};
use crate::glob::{glob_match, glob_matches};
use crate::relpath;
use crate::text;
use vstd::prelude::*;
use vstd::slice::slice_to_vec;
use vstd::string::StringSliceAdditionalSpecFns;
use vstd::utf8::{decode_utf8, encode_utf8, valid_utf8};

verus! {

/// The action that `--override-action` names.
#[derive(Clone, Copy, Debug, PartialEq, Eq, Structural)]
pub enum OverrideActionArg {
    Overwrite,
    Merge,
    Skip,
}

/// The arguments of `apply`.
#[derive(Debug)]
pub struct ApplyArgs {
    /// Template/recipe name from config, or a path to a template directory.
    pub template: String,
    /// Destination directory (default: current directory).
    pub dest_dir: Option<String>,
    /// Print what would change without writing.
    pub dry_run: bool,
    /// Non-interactive; apply the selected behavior to all files.
    pub yes: bool,
    /// When a file exists, overwrite it.
    pub overwrite: bool,
    /// When a file exists, attempt an additive merge (default).
    pub merge: bool,
    /// When a file exists, skip it.
    pub skip: bool,
    /// Patterns of paths that get the override action.
    pub overrides: Vec<String>,
    /// The action for the override patterns.
    pub override_action: Option<OverrideActionArg>,
}

/// The arguments of `new`.
#[derive(Debug)]
pub struct NewArgs {
    pub template: String,
    pub dir: String,
    /// Print what would change without writing.
    pub dry_run: bool,
    /// Non-interactive; apply the selected behavior to all files.
    pub yes: bool,
    /// When a file exists, overwrite it.
    pub overwrite: bool,
    /// When a file exists, attempt an additive merge (default).
    pub merge: bool,
    /// When a file exists, skip it.
    pub skip: bool,
    /// Patterns of paths that get the override action.
    pub overrides: Vec<String>,
    /// The action for the override patterns.
    pub override_action: Option<OverrideActionArg>,
    /// Initialize a git repository (default: on).
    pub git: bool,
    /// Do not initialize a git repository.
    pub no_git: bool,
    /// Initial branch name (default: main).
    pub branch: String,
}

/// What the program is asked to do.
#[derive(Debug)]
pub enum Command {
    /// Apply a template directory into a destination directory.
    Apply(ApplyArgs),
    /// List available recipes/templates.
    List,
    /// Create a new project directory from a recipe/template.
    New(NewArgs),
    /// Print the version.
    Version,
}

/// The command line.
#[derive(Debug)]
pub struct Cli {
    /// Increase verbosity (-v, -vv, -vvv).
    pub verbose: u8,
    /// Config file path (overrides default discovery).
    pub config: Option<String>,
    pub command: Option<Command>,
}

/// The action for existing files that the flags ask for: `--overwrite`
/// before `--skip`, and a merge without either.
pub open spec fn action_of_flags(overwrite: bool, skip: bool) -> ExistingFileAction {
    if overwrite {
        ExistingFileAction::Overwrite
    } else if skip {
        ExistingFileAction::Skip
    } else {
        ExistingFileAction::Merge
    }
}

/// The answer that the flags choose where no question is asked: overwrite
/// with `--overwrite`, skip with `--skip`, else merge.
pub fn default_action(overwrite: bool, skip: bool) -> (a: ExistingFileAction)
    ensures
        a == action_of_flags(overwrite, skip),
{
    if overwrite {
        ExistingFileAction::Overwrite
    } else if skip {
        ExistingFileAction::Skip
    } else {
        ExistingFileAction::Merge
    }
}

impl ApplyArgs {
    /// The answer that the flags choose where no question is asked.
    pub fn default_action(&self) -> (a: ExistingFileAction)
        ensures
            a == action_of_flags(self.overwrite, self.skip),
    {
        default_action(self.overwrite, self.skip)
    }

    /// Whether no question is asked: with `--yes` and with each of the
    /// flags that choose an action.
    pub fn non_interactive(&self) -> (b: bool)
        ensures
            b == (self.yes || self.overwrite || self.merge || self.skip),
    {
        self.yes || self.overwrite || self.merge || self.skip
    }
}

impl NewArgs {
    /// The answer that the flags choose where no question is asked.
    pub fn default_action(&self) -> (a: ExistingFileAction)
        ensures
            a == action_of_flags(self.overwrite, self.skip),
    {
        default_action(self.overwrite, self.skip)
    }

    /// Whether no question is asked: in a dry run, with `--yes` and with
    /// each of the flags that choose an action.
    pub fn non_interactive(&self) -> (b: bool)
        ensures
            b == (self.dry_run || self.yes || self.overwrite || self.merge || self.skip),
    {
        self.dry_run || self.yes || self.overwrite || self.merge || self.skip
    }
}

/// The action of the override rules of the command line: overwrite where none
/// is named.
pub open spec fn action_of_arg(action: Option<OverrideActionArg>) -> OverrideAction {
    match action {
        Some(OverrideActionArg::Merge) => OverrideAction::Merge,
        Some(OverrideActionArg::Skip) => OverrideAction::Skip,
        _ => OverrideAction::Overwrite,
    }
}

/// The action of the override rules of the command line.
pub fn override_action_from_arg(action: Option<OverrideActionArg>) -> (r: OverrideAction)
    ensures
        r == action_of_arg(action),
{
    match action {
        Some(OverrideActionArg::Merge) => OverrideAction::Merge,
        Some(OverrideActionArg::Skip) => OverrideAction::Skip,
        _ => OverrideAction::Overwrite,
    }
}

/// The rules of the command line: one for each pattern, with the action.
pub open spec fn rules_of_patterns(patterns: Seq<String>, action: OverrideAction) -> Seq<
    (Seq<char>, OverrideAction),
> {
    patterns.map_values(|p: String| (p@, action))
}

/// The override rules of a run: those of the configuration, then one for
/// each pattern of the command line.
pub fn combined_overrides(
    resolved: &Vec<OverrideRule>,
    patterns: &Vec<String>,
    action: Option<OverrideActionArg>,
) -> (r: Vec<OverrideRule>)
    ensures
        rule_views(r@) == rule_views(resolved@) + rules_of_patterns(
            patterns@,
            action_of_arg(action),
        ),
{
    let mut out = clone_rules(resolved);
    let act = override_action_from_arg(action);
    let mut i: usize = 0;
    assert(rule_views(out@) + rules_of_patterns(patterns@.take(0), act) =~= rule_views(out@));
    while i < patterns.len()
        invariant
            i <= patterns.len(),
            rule_views(out@) == rule_views(resolved@) + rules_of_patterns(
                patterns@.take(i as int),
                act,
            ),
        decreases patterns.len() - i,
    {
        let ghost before = rule_views(out@);
        out.push(OverrideRule { pattern: patterns[i].clone(), action: act });
        assert(rule_views(out@) =~= before.push((patterns@[i as int]@, act)));
        assert(rules_of_patterns(patterns@.take(i + 1), act) =~= rules_of_patterns(
            patterns@.take(i as int),
            act,
        ).push((patterns@[i as int]@, act)));
        i += 1;
    }
    assert(patterns@.take(patterns.len() as int) =~= patterns@);
    out
}

/// The text without the `./` at its start, however many there are.
pub open spec fn without_dot_slash(s: Seq<char>) -> Seq<char>
    decreases s.len(),
{
    if s.len() >= 2 && s[0] == '.' && s[1] == '/' {
        without_dot_slash(s.skip(2))
    } else {
        s
    }
}

/// A path as the override patterns see it: with `/` for `\`, and without
/// `./` and `/` at its start.
pub open spec fn match_path(path: Seq<char>) -> Seq<char> {
    let s = without_dot_slash(text::replace_char(path, '\\', '/'));
    s.skip(text::skip_char(s, '/', 0))
}

/// The path as the override patterns are matched against it.
pub fn rel_path_for_match(path: &str) -> (r: String)
    ensures
        r@ == match_path(path@),
{
    let v = chars::replace_char(&chars::from_str(path), '\\', '/');
    let mut start: usize = 0;
    assert(v@.skip(0) =~= v@);
    while v.len() - start >= 2 && v[start] == '.' && v[start + 1] == '/'
        invariant
            start <= v.len(),
            without_dot_slash(v@) == without_dot_slash(v@.skip(start as int)),
        decreases v.len() - start,
    {
        assert(v@.skip(start as int).skip(2) =~= v@.skip(start + 2));
        start += 2;
    }
    let s = chars::slice(&v, start, v.len());
    assert(s@ =~= v@.skip(start as int));
    let a = chars::skip_char(&s, '/', 0);
    let t = chars::slice(&s, a, s.len());
    assert(t@ =~= s@.skip(a as int));
    chars::to_string(&t)
}

/// The action of the last rule whose pattern matches the path.
pub open spec fn last_match(rules: Seq<OverrideRule>, path: Seq<char>) -> Option<OverrideAction>
    decreases rules.len(),
{
    if rules.len() == 0 {
        None
    } else if glob_matches(rules.last().pattern@, path) {
        Some(rules.last().action)
    } else {
        last_match(rules.drop_last(), path)
    }
}

/// What an override action asks for: a merge only where there are merged
/// bytes, a skip else.
pub open spec fn action_of_override(
    action: OverrideAction,
    merge_available: bool,
) -> ExistingFileAction {
    match action {
        OverrideAction::Overwrite => ExistingFileAction::Overwrite,
        OverrideAction::Skip => ExistingFileAction::Skip,
        OverrideAction::Merge => if merge_available {
            ExistingFileAction::Merge
        } else {
            ExistingFileAction::Skip
        },
    }
}

/// The answer that the override rules give to a conflict. They apply only
/// where a named template is applied.
pub open spec fn override_of(rules: Seq<OverrideRule>, ctx: DecisionView) -> Option<
    ExistingFileAction,
> {
    if ctx.template_name is None || rules.len() == 0 {
        None
    } else {
        match last_match(rules, match_path(ctx.rel_path)) {
            Some(a) => Some(action_of_override(a, ctx.merge_bytes is Some)),
            None => None,
        }
    }
}

/// The answer that is given without asking: that of the override rules; or
/// else, for a decider that does not ask, its default action, with a skip
/// in place of a merge that is not available.
pub open spec fn unprompted(
    default_action: ExistingFileAction,
    non_interactive: bool,
    rules: Seq<OverrideRule>,
    ctx: DecisionView,
) -> Option<ExistingFileAction> {
    match override_of(rules, ctx) {
        Some(a) => Some(a),
        None => if non_interactive {
            if default_action == ExistingFileAction::Merge && ctx.merge_bytes is None {
                Some(ExistingFileAction::Skip)
            } else {
                Some(default_action)
            }
        } else {
            None
        },
    }
}

/// The decider of the command line.
#[derive(Debug)]
pub struct CliDecider {
    pub default_action: ExistingFileAction,
    pub non_interactive: bool,
    pub overrides: Vec<OverrideRule>,
}

impl CliDecider {
    /// A decider with its default answer, whether it may ask, and its
    /// override rules.
    pub fn new(
        default_action: ExistingFileAction,
        non_interactive: bool,
        overrides: Vec<OverrideRule>,
    ) -> (r: Self)
        ensures
            r.default_action == default_action,
            r.non_interactive == non_interactive,
            r.overrides == overrides,
    {
        CliDecider { default_action, non_interactive, overrides }
    }

    /// The answer of the override rules, if a rule matches.
    pub fn override_action(&self, ctx: &ExistingFileDecisionContext<'_>) -> (r: Option<
        ExistingFileAction,
    >)
        ensures
            r == override_of(self.overrides@, ctx@),
    {
        if ctx.template_name.is_none() || self.overrides.len() == 0 {
            return None;
        }
        let rel = rel_path_for_match(ctx.rel_path);
        let mut i: usize = self.overrides.len();
        assert(self.overrides@.take(i as int) =~= self.overrides@);
        while i > 0
            invariant
                i <= self.overrides.len(),
                ctx@.template_name is Some,
                self.overrides@.len() > 0,
                rel@ == match_path(ctx.rel_path@),
                last_match(self.overrides@, rel@) == last_match(
                    self.overrides@.take(i as int),
                    rel@,
                ),
            decreases i,
        {
            let rule = &self.overrides[i - 1];
            assert(self.overrides@.take(i as int).last() == *rule);
            assert(self.overrides@.take(i as int).drop_last() =~= self.overrides@.take(i - 1));
            if glob_match(rule.pattern.as_str(), rel.as_str()) {
                let action = match rule.action {
                    OverrideAction::Overwrite => ExistingFileAction::Overwrite,
                    OverrideAction::Skip => ExistingFileAction::Skip,
                    OverrideAction::Merge => {
                        if ctx.merge_bytes.is_some() {
                            ExistingFileAction::Merge
                        } else {
                            ExistingFileAction::Skip
                        }
                    },
                };
                return Some(action);
            }
            i -= 1;
        }
        None
    }

    /// The answer that is given without asking; nothing where the decider
    /// has to ask.
    pub fn decide_unprompted(&self, ctx: &ExistingFileDecisionContext<'_>) -> (r: Option<
        ExistingFileAction,
    >)
        ensures
            r == unprompted(self.default_action, self.non_interactive, self.overrides@, ctx@),
    {
        match self.override_action(ctx) {
            Some(a) => Some(a),
            None => {
                if self.non_interactive {
                    if self.default_action == ExistingFileAction::Merge && ctx.merge_bytes.is_none() {
                        Some(ExistingFileAction::Skip)
                    } else {
                        Some(self.default_action)
                    }
                } else {
                    None
                }
            },
        }
    }
}

impl ExistingFileDecider for CliDecider {
    /// The answer that is given without asking. Where the decider would
    /// have to ask, it skips: the library has no one to ask.
    open spec fn answers(&self, ctx: DecisionView, action: ExistingFileAction) -> bool {
        action == match unprompted(
            self.default_action,
            self.non_interactive,
            self.overrides@,
            ctx,
        ) {
            Some(a) => a,
            None => ExistingFileAction::Skip,
        }
    }

    fn decide(&mut self, ctx: ExistingFileDecisionContext<'_>) -> (action: ExistingFileAction)
        ensures
            *final(self) == *old(self),
    {
        match self.decide_unprompted(&ctx) {
            Some(a) => a,
            None => ExistingFileAction::Skip,
        }
    }
}

/// What follows from a line typed at the prompt.
#[derive(Debug)]
pub enum PromptStep {
    /// The conflict is decided.
    Answer(ExistingFileAction),
    /// A merge was asked for and there is none: say so and ask again.
    MergeUnavailable,
    /// Show the diffs and ask again.
    ShowDiffs,
    /// The choice is not known: say so and ask again.
    Unknown(String),
}

/// A step of the prompt as a mathematical value.
pub ghost enum PromptStepView {
    Answer(ExistingFileAction),
    MergeUnavailable,
    ShowDiffs,
    Unknown(Seq<char>),
}

impl View for PromptStep {
    type V = PromptStepView;

    open spec fn view(&self) -> PromptStepView {
        match self {
            PromptStep::Answer(a) => PromptStepView::Answer(*a),
            PromptStep::MergeUnavailable => PromptStepView::MergeUnavailable,
            PromptStep::ShowDiffs => PromptStepView::ShowDiffs,
            PromptStep::Unknown(c) => PromptStepView::Unknown(c@),
        }
    }
}

/// The step for a line: the line is trimmed and put in lower case; nothing
/// and `m` ask for a merge, `o` for an overwrite, `s` for a skip and `d`
/// for the diffs.
pub open spec fn step_of_line(line: Seq<char>, merge_available: bool) -> PromptStepView {
    let choice = text::to_ascii_lowercase(text::trim(line));
    if choice.len() == 0 || choice == "m"@ {
        if merge_available {
            PromptStepView::Answer(ExistingFileAction::Merge)
        } else {
            PromptStepView::MergeUnavailable
        }
    } else if choice == "o"@ {
        PromptStepView::Answer(ExistingFileAction::Overwrite)
    } else if choice == "s"@ {
        PromptStepView::Answer(ExistingFileAction::Skip)
    } else if choice == "d"@ {
        PromptStepView::ShowDiffs
    } else {
        PromptStepView::Unknown(choice)
    }
}

/// Reads one line that the user typed at the prompt.
pub fn prompt_step(line: &str, merge_available: bool) -> (step: PromptStep)
    ensures
        step@ == step_of_line(line@, merge_available),
{
    let choice = chars::to_ascii_lowercase(&chars::trim(&chars::from_str(line)));
    if choice.len() == 0 || chars::eq_str(&choice, "m") {
        if merge_available {
            PromptStep::Answer(ExistingFileAction::Merge)
        } else {
            PromptStep::MergeUnavailable
        }
    } else if chars::eq_str(&choice, "o") {
        PromptStep::Answer(ExistingFileAction::Overwrite)
    } else if chars::eq_str(&choice, "s") {
        PromptStep::Answer(ExistingFileAction::Skip)
    } else if chars::eq_str(&choice, "d") {
        PromptStep::ShowDiffs
    } else {
        PromptStep::Unknown(chars::to_string(&choice))
    }
}

/// The line that sums up a run.
pub open spec fn summary_text(dry_run: bool, report: ApplyReport) -> Seq<char> {
    if dry_run {
        "dry-run: would create "@ + text::decimal(report.created_files as nat)
            + " file(s), update "@ + text::decimal(report.updated_files as nat)
            + " file(s), skip "@ + text::decimal(report.skipped_files as nat) + " file(s)"@
    } else {
        "created "@ + text::decimal(report.created_files as nat) + " file(s), updated "@
            + text::decimal(report.updated_files as nat) + " file(s), skipped "@ + text::decimal(
            report.skipped_files as nat,
        ) + " file(s)"@
    }
}

/// The line that sums up an application.
pub fn apply_summary(dry_run: bool, report: ApplyReport) -> (r: String)
    ensures
        r@ == summary_text(dry_run, report),
{
    let mut v = if dry_run {
        chars::from_str("dry-run: would create ")
    } else {
        chars::from_str("created ")
    };
    chars::append(&mut v, &chars::from_u64(report.created_files as u64));
    chars::append_str(
        &mut v,
        if dry_run {
            " file(s), update "
        } else {
            " file(s), updated "
        },
    );
    chars::append(&mut v, &chars::from_u64(report.updated_files as u64));
    chars::append_str(
        &mut v,
        if dry_run {
            " file(s), skip "
        } else {
            " file(s), skipped "
        },
    );
    chars::append(&mut v, &chars::from_u64(report.skipped_files as u64));
    chars::append_str(&mut v, " file(s)");
    chars::to_string(&v)
}

/// The log level of a verbosity.
pub open spec fn level_of(verbosity: u8) -> Seq<char> {
    if verbosity == 0 {
        "warn"@
    } else if verbosity == 1 {
        "info"@
    } else if verbosity == 2 {
        "debug"@
    } else {
        "trace"@
    }
}

/// The log filter that is used where the environment sets none.
pub fn default_filter(verbosity: u8) -> (r: String)
    ensures
        r@ == "warn,pinit="@ + level_of(verbosity) + ",pinit_core="@ + level_of(verbosity),
{
    let level = if verbosity == 0 {
        "warn"
    } else if verbosity == 1 {
        "info"
    } else if verbosity == 2 {
        "debug"
    } else {
        "trace"
    };
    let mut v = chars::from_str("warn,pinit=");
    chars::append_str(&mut v, level);
    chars::append_str(&mut v, ",pinit_core=");
    chars::append_str(&mut v, level);
    chars::to_string(&v)
}

/// The bytes of a license file: the text, with a line feed at its end.
pub fn license_file_bytes(text: &str) -> (r: Vec<u8>)
    ensures
        r@ == if encode_utf8(text@).len() > 0 && encode_utf8(text@).last() == 10u8 {
            encode_utf8(text@)
        } else {
            encode_utf8(text@).push(10u8)
        },
{
    let mut bytes = slice_to_vec(text.as_bytes());
    let n = bytes.len();
    if !(n > 0 && bytes[n - 1] == 10u8) {
        bytes.push(10u8);
    }
    bytes
}

/// The output path of a license must be relative; nothing else is said of
/// it.
pub fn license_output_error(rel_path: &str) -> (r: Option<String>)
    ensures
        match r {
            Some(m) => relpath::is_absolute(rel_path@) && m@
                == "license.output must be a relative path, got "@ + rel_path@,
            None => !relpath::is_absolute(rel_path@),
        },
{
    let p = chars::from_str(rel_path);
    if relpath::path_is_absolute(&p) {
        let mut m = chars::from_str("license.output must be a relative path, got ");
        chars::append(&mut m, &p);
        Some(chars::to_string(&m))
    } else {
        None
    }
}

/// What to do about the directory of a new project.
///
/// A directory that is there must be a directory and be empty; one that is
/// not there is to be created.
pub fn new_dir_step(dir: &str, exists: bool, is_dir: bool, is_empty: bool) -> (r: Result<
    bool,
    String,
>)
    ensures
        match r {
            Ok(create) => create == !exists && (exists ==> is_dir && is_empty),
            Err(m) => exists && if !is_dir {
                m@ == "destination is not a directory: "@ + dir@
            } else {
                !is_empty && m@ == "destination already exists and is not empty: "@ + dir@
            },
        },
{
    if !exists {
        return Ok(true);
    }
    if !is_dir {
        let mut m = chars::from_str("destination is not a directory: ");
        chars::append_str(&mut m, dir);
        return Err(chars::to_string(&m));
    }
    if !is_empty {
        let mut m = chars::from_str("destination already exists and is not empty: ");
        chars::append_str(&mut m, dir);
        return Err(chars::to_string(&m));
    }
    Ok(false)
}

/// The name under which a template directory that is given by its path is
/// applied: the last name of the path, or the path where it has none.
pub fn template_display_name(template: &str) -> (r: String)
    ensures
        r@ == match relpath::file_name(template@) {
            Some(n) => n,
            None => template@,
        },
{
    let p = chars::from_str(template);
    match relpath::path_file_name(&p) {
        Some(n) => chars::to_string(&n),
        None => template.to_owned(),
    }
}

/// The unified diff of two texts, line by line, under two labels.
pub uninterp spec fn unified_diff_text(
    old_label: Seq<char>,
    new_label: Seq<char>,
    old: Seq<char>,
    new: Seq<char>,
) -> Seq<char>;

/// `similar::TextDiff::from_lines`, then `unified_diff`, `header` and
/// `to_string`: the unified diff of the two texts, with the labels in its
/// header. The same texts and labels give the same diff.
#[verifier::external_body]
fn unified_diff(old_label: &str, new_label: &str, old: &str, new: &str) -> (r: String)
    ensures
        r@ == unified_diff_text(old_label@, new_label@, old@, new@),
{
    similar::TextDiff::from_lines(old, new).unified_diff().header(old_label, new_label).to_string()
}

/// The greatest size of a file of which a diff is shown.
pub const MAX_DIFF_BYTES: usize = 200000;

/// What is shown for a unified diff: the diff, or a line that says that
/// there is none where it holds white space only.
pub open spec fn shown(diff: Seq<char>) -> Seq<char> {
    if text::trim(diff).len() == 0 {
        "(no textual changes)\n"@
    } else {
        diff
    }
}

/// What is shown as the diff of two files.
pub open spec fn diff_text(
    old_label: Seq<char>,
    new_label: Seq<char>,
    old: Seq<u8>,
    new: Seq<u8>,
) -> Seq<char> {
    if old.len() > MAX_DIFF_BYTES || new.len() > MAX_DIFF_BYTES {
        "(diff too large: "@ + text::decimal(old.len()) + " \u{2192} "@ + text::decimal(new.len())
            + " bytes)\n"@
    } else if !valid_utf8(old) {
        "(binary dest; "@ + text::decimal(old.len()) + " bytes)\n"@
    } else if !valid_utf8(new) {
        "(binary template/merged; "@ + text::decimal(new.len()) + " bytes)\n"@
    } else {
        shown(unified_diff_text(old_label, new_label, decode_utf8(old), decode_utf8(new)))
    }
}

/// The text to show for a unified diff.
pub fn shown_diff(diff: String) -> (r: String)
    ensures
        r@ == shown(diff@),
{
    let trimmed = chars::trim(&chars::from_str(diff.as_str()));
    if trimmed.len() == 0 {
        "(no textual changes)\n".to_owned()
    } else {
        diff
    }
}

/// The text to show as the diff of two files: the unified diff of two
/// texts, or a line that says why there is none.
pub fn diff_report(
    old_label: &str,
    new_label: &str,
    old_bytes: &[u8],
    new_bytes: &[u8],
) -> (r: String)
    ensures
        r@ == diff_text(old_label@, new_label@, old_bytes@, new_bytes@),
{
    if old_bytes.len() > MAX_DIFF_BYTES || new_bytes.len() > MAX_DIFF_BYTES {
        let mut m = chars::from_str("(diff too large: ");
        chars::append(&mut m, &chars::from_u64(old_bytes.len() as u64));
        chars::append_str(&mut m, " \u{2192} ");
        chars::append(&mut m, &chars::from_u64(new_bytes.len() as u64));
        chars::append_str(&mut m, " bytes)\n");
        return chars::to_string(&m);
    }
    let old = match chars::decode(old_bytes) {
        Some(t) => t,
        None => {
            let mut m = chars::from_str("(binary dest; ");
            chars::append(&mut m, &chars::from_u64(old_bytes.len() as u64));
            chars::append_str(&mut m, " bytes)\n");
            return chars::to_string(&m);
        },
    };
    let new = match chars::decode(new_bytes) {
        Some(t) => t,
        None => {
            let mut m = chars::from_str("(binary template/merged; ");
            chars::append(&mut m, &chars::from_u64(new_bytes.len() as u64));
            chars::append_str(&mut m, " bytes)\n");
            return chars::to_string(&m);
        },
    };
    shown_diff(
        unified_diff(
            old_label,
            new_label,
            chars::to_string(&old).as_str(),
            chars::to_string(&new).as_str(),
        ),
    )
}

/// The options under which a template of a stack is applied.
pub fn stack_options(dry_run: bool, name: &str, index: usize) -> (r: ApplyOptions)
    ensures
        r.dry_run == dry_run,
        r.name() == Some(name@),
        r.template_index == Some(index),
{
    ApplyOptions { dry_run, template_name: Some(name.to_owned()), template_index: Some(index) }
}

/// A git call of the making of a repository.
#[derive(Clone, Copy, Debug, PartialEq, Eq, Structural)]
pub enum GitInitStep {
    /// `git init --initial-branch <branch>`.
    InitWithBranch,
    /// `git init`, for a git that does not know `--initial-branch`.
    PlainInit,
    /// `git checkout -B <branch>`.
    CheckoutBranch,
}

/// What follows a git call of the making of a repository.
#[derive(Debug)]
pub enum GitInitNext {
    Run(GitInitStep),
    Done,
    Fail(String),
}

/// What follows a call of git, as a mathematical value.
pub ghost enum GitInitNextView {
    Run(GitInitStep),
    Done,
    Fail(Seq<char>),
}

impl View for GitInitNext {
    type V = GitInitNextView;

    open spec fn view(&self) -> GitInitNextView {
        match self {
            GitInitNext::Run(s) => GitInitNextView::Run(*s),
            GitInitNext::Done => GitInitNextView::Done,
            GitInitNext::Fail(m) => GitInitNextView::Fail(m@),
        }
    }
}

/// How a call of a program ended.
#[derive(Debug)]
pub enum CallOutcome {
    /// The program could not be run; the text says why.
    NotRun(String),
    /// The program ran: whether it succeeded, its exit status if it has
    /// one, and its error output.
    Ran { success: bool, code: Option<i32>, stderr: Vec<u8> },
}

/// The arguments of a git call of the making of a repository.
pub fn git_init_args(step: GitInitStep, branch: &str) -> (r: Vec<String>)
    ensures
        strings(r@) == match step {
            GitInitStep::InitWithBranch => seq!["init"@, "--initial-branch"@, branch@],
            GitInitStep::PlainInit => seq!["init"@],
            GitInitStep::CheckoutBranch => seq!["checkout"@, "-B"@, branch@],
        },
{
    let mut v: Vec<String> = Vec::new();
    match step {
        GitInitStep::InitWithBranch => {
            v.push("init".to_owned());
            v.push("--initial-branch".to_owned());
            v.push(branch.to_owned());
            assert(strings(v@) =~= seq!["init"@, "--initial-branch"@, branch@]);
        },
        GitInitStep::PlainInit => {
            v.push("init".to_owned());
            assert(strings(v@) =~= seq!["init"@]);
        },
        GitInitStep::CheckoutBranch => {
            v.push("checkout".to_owned());
            v.push("-B".to_owned());
            v.push(branch.to_owned());
            assert(strings(v@) =~= seq!["checkout"@, "-B"@, branch@]);
        },
    }
    v
}

/// The exit status in decimal digits: 1 where the call has given none.
pub open spec fn status_text(code: Option<i32>) -> Seq<char> {
    text::signed_decimal(crate::ignore::status_of(code) as int)
}

/// What follows a git call. A repository is made with its branch in one
/// call; a git that refuses that makes it plainly and the branch is checked
/// out after. A call that cannot be run, and a failure of the plain way,
/// ends the making with a message.
pub open spec fn git_init_after(
    step: GitInitStep,
    outcome: CallOutcome,
    branch: Seq<char>,
) -> GitInitNextView {
    match (step, outcome) {
        (GitInitStep::InitWithBranch, CallOutcome::NotRun(e)) => GitInitNextView::Fail(
            "failed to run git: "@ + e@,
        ),
        (GitInitStep::InitWithBranch, CallOutcome::Ran { success, .. }) => if success {
            GitInitNextView::Done
        } else {
            GitInitNextView::Run(GitInitStep::PlainInit)
        },
        (GitInitStep::PlainInit, CallOutcome::NotRun(e)) => GitInitNextView::Fail(
            "failed to run git init: "@ + e@,
        ),
        (GitInitStep::PlainInit, CallOutcome::Ran { success, code, stderr }) => if success {
            GitInitNextView::Run(GitInitStep::CheckoutBranch)
        } else {
            GitInitNextView::Fail(
                "git init failed ("@ + status_text(code) + "): "@ + text::trim(
                    text::lossy_text(stderr@),
                ),
            )
        },
        (GitInitStep::CheckoutBranch, CallOutcome::NotRun(e)) => GitInitNextView::Fail(
            "failed to run git checkout: "@ + e@,
        ),
        (GitInitStep::CheckoutBranch, CallOutcome::Ran { success, code, stderr }) => if success {
            GitInitNextView::Done
        } else {
            GitInitNextView::Fail(
                "git checkout -B "@ + branch + " failed ("@ + status_text(code) + "): "@
                    + text::trim(text::lossy_text(stderr@)),
            )
        },
    }
}

fn failure_tail(m: &mut Vec<char>, code: Option<i32>, stderr: &Vec<u8>)
    ensures
        final(m)@ == old(m)@ + status_text(code) + "): "@ + text::trim(text::lossy_text(stderr@)),
{
    let status: i32 = match code {
        Some(c) => c,
        None => 1,
    };
    chars::append(m, &chars::from_i64(status as i64));
    chars::append_str(m, "): ");
    chars::append(m, &chars::trim(&chars::decode_lossy(stderr.as_slice())));
}

/// Says what follows a call of git when a repository is set up: the next
/// call, the end, or the failure with its message.
pub fn git_init_next(step: GitInitStep, outcome: &CallOutcome, branch: &str) -> (r: GitInitNext)
    ensures
        r@ == git_init_after(step, *outcome, branch@),
{
    match outcome {
        CallOutcome::NotRun(e) => {
            let mut m = match step {
                GitInitStep::InitWithBranch => chars::from_str("failed to run git: "),
                GitInitStep::PlainInit => chars::from_str("failed to run git init: "),
                GitInitStep::CheckoutBranch => chars::from_str("failed to run git checkout: "),
            };
            chars::append_str(&mut m, e.as_str());
            GitInitNext::Fail(chars::to_string(&m))
        },
        CallOutcome::Ran { success, code, stderr } => {
            match step {
                GitInitStep::InitWithBranch => {
                    if *success {
                        GitInitNext::Done
                    } else {
                        GitInitNext::Run(GitInitStep::PlainInit)
                    }
                },
                GitInitStep::PlainInit => {
                    if *success {
                        GitInitNext::Run(GitInitStep::CheckoutBranch)
                    } else {
                        let mut m = chars::from_str("git init failed (");
                        failure_tail(&mut m, *code, stderr);
                        GitInitNext::Fail(chars::to_string(&m))
                    }
                },
                GitInitStep::CheckoutBranch => {
                    if *success {
                        GitInitNext::Done
                    } else {
                        let mut m = chars::from_str("git checkout -B ");
                        chars::append_str(&mut m, branch);
                        chars::append_str(&mut m, " failed (");
                        failure_tail(&mut m, *code, stderr);
                        GitInitNext::Fail(chars::to_string(&m))
                    }
                },
            }
        },
    }
}

/// Where the built program lies below the root of the workspace.
pub fn built_binary(root: &str, profile: &str) -> (r: String)
    ensures
        r@ == crate::resolve::joined(
            crate::resolve::joined(crate::resolve::joined(root@, "target"@), profile@),
            "pinit"@,
        ),
{
    let target = crate::resolve::join_path(root, "target");
    let dir = crate::resolve::join_path(target.as_str(), profile);
    crate::resolve::join_path(dir.as_str(), "pinit")
}

/// The arguments of the cargo call that builds the program.
pub fn build_args(profile: &str) -> (r: Vec<String>)
    ensures
        strings(r@) == if profile@ == "release"@ {
            seq!["build"@, "-p"@, "pinit-cli"@, "--release"@]
        } else {
            seq!["build"@, "-p"@, "pinit-cli"@, "--profile"@, profile@]
        },
{
    let mut v: Vec<String> = Vec::new();
    v.push("build".to_owned());
    v.push("-p".to_owned());
    v.push("pinit-cli".to_owned());
    if chars::eq_str(&chars::from_str(profile), "release") {
        v.push("--release".to_owned());
        assert(strings(v@) =~= seq!["build"@, "-p"@, "pinit-cli"@, "--release"@]);
    } else {
        v.push("--profile".to_owned());
        v.push(profile.to_owned());
        assert(strings(v@) =~= seq!["build"@, "-p"@, "pinit-cli"@, "--profile"@, profile@]);
    }
    v
}

/// A path with the home directory in place of a `~` at its start.
pub open spec fn tilde_expanded(path: Seq<char>, home: Option<Seq<char>>) -> Option<Seq<char>> {
    if text::starts_with(path, "~/"@) {
        match home {
            Some(h) => Some(crate::resolve::joined(h, path.skip(2))),
            None => None,
        }
    } else if path == "~"@ {
        home
    } else {
        Some(path)
    }
}

/// Puts the home directory in place of a `~` at the start of a path;
/// nothing where it is needed and not known.
pub fn expand_tilde(path: &str, home: Option<&str>) -> (r: Option<String>)
    ensures
        match r {
            Some(p) => tilde_expanded(
                path@,
                match home {
                    Some(h) => Some(h@),
                    None => None,
                },
            ) == Some(p@),
            None => tilde_expanded(
                path@,
                match home {
                    Some(h) => Some(h@),
                    None => None,
                },
            ) is None,
        },
{
    let p = chars::from_str(path);
    proof {
        reveal_strlit("~/");
    }
    if chars::starts_with(&p, &chars::from_str("~/")) {
        match home {
            Some(h) => {
                let rest = chars::slice(&p, 2, p.len());
                assert(rest@ =~= path@.skip(2));
                Some(crate::resolve::join_path(h, chars::to_string(&rest).as_str()))
            },
            None => None,
        }
    } else if chars::eq_str(&p, "~") {
        match home {
            Some(h) => Some(h.to_owned()),
            None => None,
        }
    } else {
        Some(path.to_owned())
    }
}

/// The line of a template in the listing.
pub open spec fn template_line(name: Seq<char>, def: TemplateDefView) -> Seq<char> {
    let (source, path) = match def {
        TemplateDefView::Path(p) => ("-"@, p),
        TemplateDefView::Detailed { source, path } => (
            match source {
                Some(s) => s,
                None => "-"@,
            },
            path,
        ),
    };
    "  "@ + name + " (source: "@ + source + ", path: "@ + path + ")\n"@
}

/// The line of a target in the listing.
pub open spec fn target_line(name: Seq<char>, target: TargetView) -> Seq<char> {
    let templates = match target {
        TargetView::Templates(t) => t,
        TargetView::Detailed { templates, .. } => templates,
    };
    "  "@ + name + " = "@ + text::join(templates, " + "@) + "\n"@
}

/// The line of a recipe in the listing.
pub open spec fn recipe_line(name: Seq<char>, recipe: RecipeView) -> Seq<char> {
    "  "@ + name + " (templates: "@ + (if recipe.templates.len() == 0 {
        "-"@
    } else {
        text::join(recipe.templates, " + "@)
    }) + ", filesets: "@ + text::decimal(recipe.files.len()) + ")\n"@
}

/// The lines of a listing for the first `n` templates.
pub open spec fn template_lines(entries: Seq<(Seq<char>, TemplateDefView)>, n: int) -> Seq<char>
    decreases n,
{
    if n <= 0 || n > entries.len() {
        Seq::empty()
    } else {
        template_lines(entries, n - 1) + template_line(entries[n - 1].0, entries[n - 1].1)
    }
}

/// The lines of a listing for the first `n` targets.
pub open spec fn target_lines(entries: Seq<(Seq<char>, TargetView)>, n: int) -> Seq<char>
    decreases n,
{
    if n <= 0 || n > entries.len() {
        Seq::empty()
    } else {
        target_lines(entries, n - 1) + target_line(entries[n - 1].0, entries[n - 1].1)
    }
}

/// The lines of a listing for the first `n` recipes.
pub open spec fn recipe_lines(entries: Seq<(Seq<char>, RecipeView)>, n: int) -> Seq<char>
    decreases n,
{
    if n <= 0 || n > entries.len() {
        Seq::empty()
    } else {
        recipe_lines(entries, n - 1) + recipe_line(entries[n - 1].0, entries[n - 1].1)
    }
}

/// The listing of a configuration: its path, and under a heading each the
/// templates, the targets and the recipes that it has, in the order of
/// their names.
pub open spec fn listing(path: Seq<char>, cfg: ConfigView) -> Seq<char> {
    "config: "@ + path + "\n"@ + (if cfg.templates.len() > 0 {
        "\ntemplates:\n"@ + template_lines(cfg.templates, cfg.templates.len() as int)
    } else {
        Seq::empty()
    }) + (if cfg.targets.len() > 0 {
        "\ntargets:\n"@ + target_lines(cfg.targets, cfg.targets.len() as int)
    } else {
        Seq::empty()
    }) + (if cfg.recipes.len() > 0 {
        "\nrecipes:\n"@ + recipe_lines(cfg.recipes, cfg.recipes.len() as int)
    } else {
        Seq::empty()
    })
}

fn joined_names(names: &[String]) -> (r: Vec<char>)
    ensures
        r@ == text::join(strings(names@), " + "@),
{
    let mut words: Vec<Vec<char>> = Vec::new();
    let mut i: usize = 0;
    while i < names.len()
        invariant
            i <= names.len(),
            words@.len() == i,
            forall|j: int| 0 <= j < i ==> (#[trigger] words@[j])@ == names@[j]@,
        decreases names.len() - i,
    {
        words.push(chars::from_str(names[i].as_str()));
        i += 1;
    }
    assert(text::views(words@) =~= strings(names@));
    chars::join(&words, &chars::from_str(" + "))
}

/// The text that lists a configuration.
pub fn config_listing(path: &str, cfg: &Config) -> (r: String)
    ensures
        r@ == listing(path@, cfg@),
{
    let mut out = chars::from_str("config: ");
    chars::append_str(&mut out, path);
    chars::append_str(&mut out, "\n");
    let nt = cfg.templates.len();
    if nt > 0 {
        chars::append_str(&mut out, "\ntemplates:\n");
        let ghost base = out@;
        let mut i: usize = 0;
        assert(base + template_lines(cfg@.templates, 0) =~= base);
        while i < nt
            invariant
                i <= nt,
                nt == cfg.templates.names().len(),
                nt == cfg.templates.values().len(),
                nt == cfg@.templates.len(),
                out@ == base + template_lines(cfg@.templates, i as int),
            decreases nt - i,
        {
            assert(cfg@.templates[i as int] == (
                cfg.templates.names()[i as int],
                cfg.templates.values()[i as int]@,
            ));
            let ghost before = out@;
            let def = cfg.templates.value_at(i);
            chars::append_str(&mut out, "  ");
            chars::append_str(&mut out, cfg.templates.name_at(i).as_str());
            chars::append_str(&mut out, " (source: ");
            chars::append_str(
                &mut out,
                match def.source() {
                    Some(s) => s,
                    None => "-",
                },
            );
            chars::append_str(&mut out, ", path: ");
            chars::append_str(&mut out, def.path());
            chars::append_str(&mut out, ")\n");
            assert(out@ =~= before + template_line(
                cfg@.templates[i as int].0,
                cfg@.templates[i as int].1,
            ));
            assert(out@ =~= base + template_lines(cfg@.templates, i + 1));
            i += 1;
        }
    }
    let ng = cfg.targets.len();
    if ng > 0 {
        chars::append_str(&mut out, "\ntargets:\n");
        let ghost base = out@;
        let mut i: usize = 0;
        assert(base + target_lines(cfg@.targets, 0) =~= base);
        while i < ng
            invariant
                i <= ng,
                ng == cfg.targets.names().len(),
                ng == cfg.targets.values().len(),
                ng == cfg@.targets.len(),
                out@ == base + target_lines(cfg@.targets, i as int),
            decreases ng - i,
        {
            assert(cfg@.targets[i as int] == (
                cfg.targets.names()[i as int],
                cfg.targets.values()[i as int]@,
            ));
            let ghost before = out@;
            let target = cfg.targets.value_at(i);
            chars::append_str(&mut out, "  ");
            chars::append_str(&mut out, cfg.targets.name_at(i).as_str());
            chars::append_str(&mut out, " = ");
            chars::append(&mut out, &joined_names(target.templates()));
            chars::append_str(&mut out, "\n");
            assert(out@ =~= before + target_line(cfg@.targets[i as int].0, cfg@.targets[i as int].1));
            assert(out@ =~= base + target_lines(cfg@.targets, i + 1));
            i += 1;
        }
    }
    let nr = cfg.recipes.len();
    if nr > 0 {
        chars::append_str(&mut out, "\nrecipes:\n");
        let ghost base = out@;
        let mut i: usize = 0;
        assert(base + recipe_lines(cfg@.recipes, 0) =~= base);
        while i < nr
            invariant
                i <= nr,
                nr == cfg.recipes.names().len(),
                nr == cfg.recipes.values().len(),
                nr == cfg@.recipes.len(),
                out@ == base + recipe_lines(cfg@.recipes, i as int),
            decreases nr - i,
        {
            assert(cfg@.recipes[i as int] == (
                cfg.recipes.names()[i as int],
                cfg.recipes.values()[i as int]@,
            ));
            let ghost before = out@;
            let recipe = cfg.recipes.value_at(i);
            assert(recipe@.files.len() == recipe.files@.len());
            assert(recipe@.templates.len() == recipe.templates@.len());
            chars::append_str(&mut out, "  ");
            chars::append_str(&mut out, cfg.recipes.name_at(i).as_str());
            chars::append_str(&mut out, " (templates: ");
            if recipe.templates.len() == 0 {
                chars::append_str(&mut out, "-");
            } else {
                chars::append(&mut out, &joined_names(recipe.templates.as_slice()));
            }
            chars::append_str(&mut out, ", filesets: ");
            chars::append(&mut out, &chars::from_u64(recipe.files.len() as u64));
            chars::append_str(&mut out, ")\n");
            assert(out@ =~= before + recipe_line(cfg@.recipes[i as int].0, cfg@.recipes[i as int].1));
            assert(out@ =~= base + recipe_lines(cfg@.recipes, i + 1));
            i += 1;
        }
    }
    assert(out@ =~= listing(path@, cfg@));
    chars::to_string(&out)
}

} // verus!
