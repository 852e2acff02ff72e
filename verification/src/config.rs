//! The configuration: templates, targets, recipes, overrides, hooks and the
//! license, and how a name resolves to a stack of templates.

pub mod yaml;

use crate::apply::strings;
use crate::chars;
use crate::namemap::{map_entries, NameMap};
use crate::text;
use vstd::prelude::*;

verus! {

/// When a hook should run.
#[derive(Clone, Copy, Debug, PartialEq, Eq, Structural)]
pub enum HookRunOn {
    Init,
    Update,
}

/// Git transport protocol for shorthand repository identifiers.
#[derive(Clone, Copy, Debug, PartialEq, Eq, Structural)]
pub enum GitProtocol {
    Ssh,
    Https,
}

impl GitProtocol {
    /// The protocol that a word names, without regard to case.
    pub open spec fn parsed(s: Seq<char>) -> Option<GitProtocol> {
        if text::to_ascii_lowercase(s) == "ssh"@ {
            Some(GitProtocol::Ssh)
        } else if text::to_ascii_lowercase(s) == "https"@ {
            Some(GitProtocol::Https)
        } else {
            None
        }
    }

    /// The protocol that a word names, without regard to case.
    pub fn parse(s: &str) -> (r: Option<GitProtocol>)
        ensures
            r == Self::parsed(s@),
    {
        let lower = chars::to_ascii_lowercase(&chars::from_str(s));
        if chars::eq_str(&lower, "ssh") {
            Some(GitProtocol::Ssh)
        } else if chars::eq_str(&lower, "https") {
            Some(GitProtocol::Https)
        } else {
            None
        }
    }
}

/// Action to take when an override rule matches.
#[derive(Clone, Copy, Debug, PartialEq, Eq, Structural)]
pub enum OverrideAction {
    Overwrite,
    Merge,
    Skip,
}

impl Default for OverrideAction {
    fn default() -> (r: Self)
        ensures
            r == OverrideAction::Overwrite,
    {
        OverrideAction::Overwrite
    }
}

/// Override rule for a specific path or glob.
#[derive(Debug)]
pub struct OverrideRule {
    pub pattern: String,
    pub action: OverrideAction,
}

impl View for OverrideRule {
    type V = (Seq<char>, OverrideAction);

    open spec fn view(&self) -> (Seq<char>, OverrideAction) {
        (self.pattern@, self.action)
    }
}

/// The rules as pairs of pattern and action.
pub open spec fn rule_views(rules: Seq<OverrideRule>) -> Seq<(Seq<char>, OverrideAction)> {
    rules.map_values(|r: OverrideRule| r@)
}

/// What kind of config entry resolved to a template stack.
#[derive(Clone, Copy, Debug, PartialEq, Eq, Structural)]
pub enum ResolvedKind {
    Recipe,
    Target,
    Template,
}

/// Template source definition (local path or git repository).
#[derive(Debug)]
pub struct Source {
    pub name: String,
    pub path: Option<String>,
    pub repo: Option<String>,
    pub git_ref: Option<String>,
    pub git_protocol: Option<GitProtocol>,
    pub subdir: Option<String>,
}

/// A source as a mathematical value.
pub ghost struct SourceView {
    pub name: Seq<char>,
    pub path: Option<Seq<char>>,
    pub repo: Option<Seq<char>>,
    pub git_ref: Option<Seq<char>>,
    pub git_protocol: Option<GitProtocol>,
    pub subdir: Option<Seq<char>>,
}

impl View for Source {
    type V = SourceView;

    open spec fn view(&self) -> SourceView {
        SourceView {
            name: self.name@,
            path: opt_text(self.path),
            repo: opt_text(self.repo),
            git_ref: opt_text(self.git_ref),
            git_protocol: self.git_protocol,
            subdir: opt_text(self.subdir),
        }
    }
}

/// The sources as mathematical values.
pub open spec fn source_views(v: Seq<Source>) -> Seq<SourceView> {
    v.map_values(|s: Source| s@)
}

/// Template definition that resolves to a directory.
#[derive(Debug)]
pub enum TemplateDef {
    Path(String),
    Detailed { source: Option<String>, path: String },
}

/// A template definition as a mathematical value.
pub ghost enum TemplateDefView {
    Path(Seq<char>),
    Detailed { source: Option<Seq<char>>, path: Seq<char> },
}

impl View for TemplateDef {
    type V = TemplateDefView;

    open spec fn view(&self) -> TemplateDefView {
        match self {
            TemplateDef::Path(p) => TemplateDefView::Path(p@),
            TemplateDef::Detailed { source, path } => TemplateDefView::Detailed {
                source: opt_text(*source),
                path: path@,
            },
        }
    }
}

/// The text of a string that may be absent.
pub open spec fn opt_text(o: Option<String>) -> Option<Seq<char>> {
    match o {
        Some(s) => Some(s@),
        None => None,
    }
}

impl TemplateDef {
    /// The path of the template.
    pub open spec fn path_text(self) -> Seq<char> {
        match self {
            TemplateDef::Path(p) => p@,
            TemplateDef::Detailed { path, .. } => path@,
        }
    }

    /// The name of the template's source, if it names one.
    pub open spec fn source_text(self) -> Option<Seq<char>> {
        match self {
            TemplateDef::Path(_) => None,
            TemplateDef::Detailed { source, .. } => opt_text(source),
        }
    }

    /// The path of the template, as the configuration gives it.
    pub fn path(&self) -> (p: &str)
        ensures
            p@ == self.path_text(),
    {
        match self {
            TemplateDef::Path(path) => path.as_str(),
            TemplateDef::Detailed { path, .. } => path.as_str(),
        }
    }

    /// The name of the source that the template's path is relative to.
    pub fn source(&self) -> (s: Option<&str>)
        ensures
            match s {
                Some(n) => self.source_text() == Some(n@),
                None => self.source_text() is None,
            },
    {
        match self {
            TemplateDef::Path(_) => None,
            TemplateDef::Detailed { source, .. } => match source {
                Some(s) => Some(s.as_str()),
                None => None,
            },
        }
    }
}

/// Detailed target definition with template list and overrides.
#[derive(Debug)]
pub struct TargetDetailed {
    pub templates: Vec<String>,
    pub overrides: Vec<OverrideRule>,
}

/// Target definition that can be a simple template list or a detailed
/// object.
#[derive(Debug)]
pub enum TargetDef {
    Templates(Vec<String>),
    Detailed(TargetDetailed),
}

/// A target as a mathematical value.
pub ghost enum TargetView {
    Templates(Seq<Seq<char>>),
    Detailed { templates: Seq<Seq<char>>, overrides: Seq<(Seq<char>, OverrideAction)> },
}

impl View for TargetDef {
    type V = TargetView;

    open spec fn view(&self) -> TargetView {
        match self {
            TargetDef::Templates(items) => TargetView::Templates(strings(items@)),
            TargetDef::Detailed(d) => TargetView::Detailed {
                templates: strings(d.templates@),
                overrides: rule_views(d.overrides@),
            },
        }
    }
}

impl TargetDef {
    /// The names of the target's templates.
    pub open spec fn template_names(self) -> Seq<String> {
        match self {
            TargetDef::Templates(items) => items@,
            TargetDef::Detailed(def) => def.templates@,
        }
    }

    /// The target's override rules.
    pub open spec fn override_rules(self) -> Seq<OverrideRule> {
        match self {
            TargetDef::Templates(_) => Seq::empty(),
            TargetDef::Detailed(def) => def.overrides@,
        }
    }

    /// The names of the target's templates, in their order.
    pub fn templates(&self) -> (r: &[String])
        ensures
            r@ == self.template_names(),
    {
        match self {
            TargetDef::Templates(items) => items.as_slice(),
            TargetDef::Detailed(def) => def.templates.as_slice(),
        }
    }

    /// The target's own override rules.
    pub fn overrides(&self) -> (r: Vec<OverrideRule>)
        ensures
            r@ == self.override_rules(),
    {
        match self {
            TargetDef::Templates(_) => Vec::new(),
            TargetDef::Detailed(def) => clone_rules(&def.overrides),
        }
    }
}

/// File set definition for inline recipes.
#[derive(Debug)]
pub struct FileSetDef {
    pub root: String,
    pub includes: Vec<String>,
    pub dest_prefix: Option<String>,
}

/// A set of files as a mathematical value.
pub ghost struct FileSetView {
    pub root: Seq<char>,
    pub includes: Seq<Seq<char>>,
    pub dest_prefix: Option<Seq<char>>,
}

impl View for FileSetDef {
    type V = FileSetView;

    open spec fn view(&self) -> FileSetView {
        FileSetView {
            root: self.root@,
            includes: strings(self.includes@),
            dest_prefix: opt_text(self.dest_prefix),
        }
    }
}

/// The sets of files as mathematical values.
pub open spec fn fileset_views(v: Seq<FileSetDef>) -> Seq<FileSetView> {
    v.map_values(|f: FileSetDef| f@)
}

/// Hook command definition.
#[derive(Debug)]
pub struct HookDef {
    pub command: Vec<String>,
    pub run_on: Vec<HookRunOn>,
    pub cwd: Option<String>,
    pub env: NameMap<String>,
    pub allow_failure: bool,
}

/// A hook as a mathematical value.
pub ghost struct HookView {
    pub command: Seq<Seq<char>>,
    pub run_on: Seq<HookRunOn>,
    pub cwd: Option<Seq<char>>,
    pub env: Seq<(Seq<char>, Seq<char>)>,
    pub allow_failure: bool,
}

/// The entries of a map of texts.
pub open spec fn text_entries(m: NameMap<String>) -> Seq<(Seq<char>, Seq<char>)> {
    map_entries(m.pairs(), |s: String| s@)
}

impl View for HookDef {
    type V = HookView;

    open spec fn view(&self) -> HookView {
        HookView {
            command: strings(self.command@),
            run_on: self.run_on@,
            cwd: opt_text(self.cwd),
            env: text_entries(self.env),
            allow_failure: self.allow_failure,
        }
    }
}

/// The hooks as mathematical values.
pub open spec fn hook_views(v: Seq<HookDef>) -> Seq<HookView> {
    v.map_values(|h: HookDef| h@)
}

/// Global or recipe-scoped hook configuration.
#[derive(Debug)]
pub struct HookSet {
    pub after_dir_create: Vec<HookDef>,
    pub after_recipe: Vec<HookDef>,
    pub after_all: Vec<HookDef>,
}

/// The hooks of the three stages, as mathematical values.
pub ghost struct HookSetView {
    pub after_dir_create: Seq<HookView>,
    pub after_recipe: Seq<HookView>,
    pub after_all: Seq<HookView>,
}

impl View for HookSet {
    type V = HookSetView;

    open spec fn view(&self) -> HookSetView {
        HookSetView {
            after_dir_create: hook_views(self.after_dir_create@),
            after_recipe: hook_views(self.after_recipe@),
            after_all: hook_views(self.after_all@),
        }
    }
}

/// No hook at any stage.
pub open spec fn no_hooks() -> HookSetView {
    HookSetView {
        after_dir_create: Seq::empty(),
        after_recipe: Seq::empty(),
        after_all: Seq::empty(),
    }
}

impl Default for HookSet {
    fn default() -> (r: Self)
        ensures
            r@ == no_hooks(),
    {
        let r = HookSet {
            after_dir_create: Vec::new(),
            after_recipe: Vec::new(),
            after_all: Vec::new(),
        };
        assert(r@.after_dir_create =~= Seq::<HookView>::empty());
        assert(r@.after_recipe =~= Seq::<HookView>::empty());
        assert(r@.after_all =~= Seq::<HookView>::empty());
        r
    }
}

/// Recipe definition made of template names and/or file sets.
#[derive(Debug)]
pub struct RecipeDef {
    pub templates: Vec<String>,
    pub files: Vec<FileSetDef>,
    pub overrides: Vec<OverrideRule>,
    pub hooks: HookSet,
}

/// A recipe as a mathematical value.
pub ghost struct RecipeView {
    pub templates: Seq<Seq<char>>,
    pub files: Seq<FileSetView>,
    pub overrides: Seq<(Seq<char>, OverrideAction)>,
    pub hooks: HookSetView,
}

impl View for RecipeDef {
    type V = RecipeView;

    open spec fn view(&self) -> RecipeView {
        RecipeView {
            templates: strings(self.templates@),
            files: fileset_views(self.files@),
            overrides: rule_views(self.overrides@),
            hooks: self.hooks@,
        }
    }
}

/// Detailed SPDX license configuration and template arguments.
#[derive(Debug)]
pub struct LicenseDetailed {
    /// SPDX license identifier, e.g. `MIT`, `Apache-2.0`.
    pub spdx: String,
    /// Destination path relative to the project root. Default: `LICENSE`.
    pub output: Option<String>,
    /// Convenience: fills the SPDX `year` template variable.
    pub year: Option<String>,
    /// Convenience: fills the SPDX `fullname` template variable.
    pub name: Option<String>,
    /// SPDX template variables by name, e.g. `copyright holders`.
    pub args: NameMap<String>,
}

/// License configuration for optional SPDX rendering.
#[derive(Debug)]
pub enum LicenseDef {
    Spdx(String),
    Detailed(LicenseDetailed),
}

/// A license definition as a mathematical value.
pub ghost enum LicenseView {
    Spdx(Seq<char>),
    Detailed {
        spdx: Seq<char>,
        output: Option<Seq<char>>,
        year: Option<Seq<char>>,
        name: Option<Seq<char>>,
        args: Seq<(Seq<char>, Seq<char>)>,
    },
}

impl View for LicenseDef {
    type V = LicenseView;

    open spec fn view(&self) -> LicenseView {
        match self {
            LicenseDef::Spdx(s) => LicenseView::Spdx(s@),
            LicenseDef::Detailed(d) => LicenseView::Detailed {
                spdx: d.spdx@,
                output: opt_text(d.output),
                year: opt_text(d.year),
                name: opt_text(d.name),
                args: text_entries(d.args),
            },
        }
    }
}

impl LicenseDef {
    /// The SPDX identifier of the license.
    pub open spec fn spdx_id(self) -> Seq<char> {
        match self {
            LicenseDef::Spdx(s) => s@,
            LicenseDef::Detailed(d) => d.spdx@,
        }
    }

    /// The path of the license file: `LICENSE` where none is given.
    pub open spec fn output(self) -> Seq<char> {
        match self {
            LicenseDef::Spdx(_) => "LICENSE"@,
            LicenseDef::Detailed(d) => match d.output {
                Some(p) => p@,
                None => "LICENSE"@,
            },
        }
    }

    /// The value of a template argument: the one given under `args`, or
    /// else the year for `year` and the name for `fullname` and
    /// `copyright holders`.
    pub open spec fn arg(self, key: Seq<char>) -> Option<Seq<char>> {
        match self {
            LicenseDef::Spdx(_) => None,
            LicenseDef::Detailed(d) => {
                if d.args.has(key) {
                    opt_text(d.args.value_of(key))
                } else if key == "year"@ {
                    opt_text(d.year)
                } else if key == "fullname"@ || key == "copyright holders"@ {
                    opt_text(d.name)
                } else {
                    None
                }
            },
        }
    }

    /// The SPDX identifier of the license.
    pub fn spdx(&self) -> (s: &str)
        ensures
            s@ == self.spdx_id(),
    {
        match self {
            LicenseDef::Spdx(s) => s.as_str(),
            LicenseDef::Detailed(d) => d.spdx.as_str(),
        }
    }

    /// Where the license text goes, relative to the project root.
    pub fn output_path(&self) -> (p: String)
        ensures
            p@ == self.output(),
    {
        match self {
            LicenseDef::Spdx(_) => "LICENSE".to_owned(),
            LicenseDef::Detailed(d) => match &d.output {
                Some(p) => p.clone(),
                None => "LICENSE".to_owned(),
            },
        }
    }

    /// The arguments for the license template.
    pub fn template_args(&self) -> (args: NameMap<String>)
        ensures
            forall|key: Seq<char>| opt_text(#[trigger] args.value_of(key)) == self.arg(key),
    {
        match self {
            LicenseDef::Spdx(_) => {
                let args: NameMap<String> = NameMap::new();
                assert forall|key: Seq<char>| opt_text(#[trigger] args.value_of(key))
                    is None by {
                    args.lemma_lengths();
                }
                args
            },
            LicenseDef::Detailed(d) => {
                let mut args = d.args.duplicate();
                proof {
                    reveal_strlit("year");
                    reveal_strlit("fullname");
                    reveal_strlit("copyright holders");
                    args.lemma_lengths();
                    d.args.lemma_lengths();
                    assert("year"@.len() == 4);
                    assert("fullname"@.len() == 8);
                    assert("copyright holders"@.len() == 17);
                }
                match &d.year {
                    Some(year) => {
                        if !args.contains_key("year") {
                            args.insert("year".to_owned(), year.clone());
                        }
                    },
                    None => {},
                }
                match &d.name {
                    Some(name) => {
                        if !args.contains_key("fullname") {
                            args.insert("fullname".to_owned(), name.clone());
                        }
                        if !args.contains_key("copyright holders") {
                            args.insert("copyright holders".to_owned(), name.clone());
                        }
                    },
                    None => {},
                }
                proof {
                    assert forall|key: Seq<char>| opt_text(#[trigger] args.value_of(key))
                        == self.arg(key) by {
                        args.lemma_lengths();
                        d.args.lemma_has(key);
                        args.lemma_has(key);
                    }
                }
                args
            },
        }
    }
}

/// Recipe resolved to concrete template names and file sets.
#[derive(Debug)]
pub struct ResolvedRecipe {
    pub name: String,
    pub templates: Vec<String>,
    pub files: Vec<FileSetDef>,
    pub overrides: Vec<OverrideRule>,
    pub hooks: HookSet,
    pub kind: ResolvedKind,
}

/// A resolved recipe as a mathematical value.
pub ghost struct ResolvedView {
    pub name: Seq<char>,
    pub templates: Seq<Seq<char>>,
    pub files: Seq<FileSetView>,
    pub overrides: Seq<OverrideRule>,
    pub hooks: HookSetView,
    pub kind: ResolvedKind,
}

impl View for ResolvedRecipe {
    type V = ResolvedView;

    open spec fn view(&self) -> ResolvedView {
        ResolvedView {
            name: self.name@,
            templates: strings(self.templates@),
            files: fileset_views(self.files@),
            overrides: self.overrides@,
            hooks: self.hooks@,
            kind: self.kind,
        }
    }
}

/// Parsed configuration file contents.
#[derive(Debug)]
pub struct Config {
    pub base_template: Option<String>,
    pub license: Option<LicenseDef>,
    pub hooks: HookSet,
    pub sources: Vec<Source>,
    pub templates: NameMap<TemplateDef>,
    pub targets: NameMap<TargetDef>,
    pub overrides: Vec<OverrideRule>,
    pub recipes: NameMap<RecipeDef>,
}

/// The templates with their names, in the order of the names.
pub open spec fn template_entries(m: NameMap<TemplateDef>) -> Seq<(Seq<char>, TemplateDefView)> {
    map_entries(m.pairs(), |d: TemplateDef| d@)
}

/// The targets with their names, in the order of the names.
pub open spec fn target_entries(m: NameMap<TargetDef>) -> Seq<(Seq<char>, TargetView)> {
    map_entries(m.pairs(), |d: TargetDef| d@)
}

/// The recipes with their names, in the order of the names.
pub open spec fn recipe_entries(m: NameMap<RecipeDef>) -> Seq<(Seq<char>, RecipeView)> {
    map_entries(m.pairs(), |d: RecipeDef| d@)
}

/// A configuration as a mathematical value.
pub ghost struct ConfigView {
    pub base_template: Option<Seq<char>>,
    pub license: Option<LicenseView>,
    pub hooks: HookSetView,
    pub sources: Seq<SourceView>,
    pub templates: Seq<(Seq<char>, TemplateDefView)>,
    pub targets: Seq<(Seq<char>, TargetView)>,
    pub overrides: Seq<(Seq<char>, OverrideAction)>,
    pub recipes: Seq<(Seq<char>, RecipeView)>,
}

impl View for Config {
    type V = ConfigView;

    open spec fn view(&self) -> ConfigView {
        ConfigView {
            base_template: opt_text(self.base_template),
            license: match self.license {
                Some(l) => Some(l@),
                None => None,
            },
            hooks: self.hooks@,
            sources: source_views(self.sources@),
            templates: template_entries(self.templates),
            targets: target_entries(self.targets),
            overrides: rule_views(self.overrides@),
            recipes: recipe_entries(self.recipes),
        }
    }
}

impl Default for Config {
    fn default() -> (r: Self)
        ensures
            r.base_template is None,
            r.license is None,
            r.hooks@ == no_hooks(),
            r.sources@.len() == 0,
            r.templates.names().len() == 0,
            r.targets.names().len() == 0,
            r.overrides@.len() == 0,
            r.recipes.names().len() == 0,
    {
        Config {
            base_template: None,
            license: None,
            hooks: HookSet::default(),
            sources: Vec::new(),
            templates: NameMap::new(),
            targets: NameMap::new(),
            overrides: Vec::new(),
            recipes: NameMap::new(),
        }
    }
}

/// Errors encountered while loading configuration.
#[derive(Debug)]
pub enum ConfigError {
    NotFound,
    Io { path: String, source: String },
    ParseToml { path: String, source: String },
    ParseYaml { path: String, message: String },
    YamlRootNotMapping { path: String },
    InvalidConfig { path: String, message: String },
}

/// An error as a mathematical value.
pub ghost enum ConfigErrorView {
    NotFound,
    Io { path: Seq<char>, source: Seq<char> },
    ParseToml { path: Seq<char>, source: Seq<char> },
    ParseYaml { path: Seq<char>, message: Seq<char> },
    YamlRootNotMapping { path: Seq<char> },
    InvalidConfig { path: Seq<char>, message: Seq<char> },
}

impl View for ConfigError {
    type V = ConfigErrorView;

    open spec fn view(&self) -> ConfigErrorView {
        match self {
            ConfigError::NotFound => ConfigErrorView::NotFound,
            ConfigError::Io { path, source } => ConfigErrorView::Io { path: path@, source: source@ },
            ConfigError::ParseToml { path, source } => ConfigErrorView::ParseToml {
                path: path@,
                source: source@,
            },
            ConfigError::ParseYaml { path, message } => ConfigErrorView::ParseYaml {
                path: path@,
                message: message@,
            },
            ConfigError::YamlRootNotMapping { path } => ConfigErrorView::YamlRootNotMapping {
                path: path@,
            },
            ConfigError::InvalidConfig { path, message } => ConfigErrorView::InvalidConfig {
                path: path@,
                message: message@,
            },
        }
    }
}

/// The message of an error.
pub open spec fn config_error_text(e: ConfigErrorView) -> Seq<char> {
    match e {
        ConfigErrorView::NotFound => "no config file found"@,
        ConfigErrorView::Io { path, source } => path + ": "@ + source,
        ConfigErrorView::ParseToml { path, source } => path + ": "@ + source,
        ConfigErrorView::ParseYaml { path, message } => path + ": "@ + message,
        ConfigErrorView::YamlRootNotMapping { path } => path + ": YAML root must be a mapping"@,
        ConfigErrorView::InvalidConfig { path, message } => path + ": "@ + message,
    }
}

impl ConfigError {
    /// The message of the error.
    pub fn message(&self) -> (m: String)
        ensures
            m@ == config_error_text(self@),
    {
        let mut v: Vec<char> = Vec::new();
        match self {
            ConfigError::NotFound => {
                chars::append_str(&mut v, "no config file found");
            },
            ConfigError::Io { path, source } => {
                chars::append_str(&mut v, path.as_str());
                chars::append_str(&mut v, ": ");
                chars::append_str(&mut v, source.as_str());
            },
            ConfigError::ParseToml { path, source } => {
                chars::append_str(&mut v, path.as_str());
                chars::append_str(&mut v, ": ");
                chars::append_str(&mut v, source.as_str());
            },
            ConfigError::ParseYaml { path, message } => {
                chars::append_str(&mut v, path.as_str());
                chars::append_str(&mut v, ": ");
                chars::append_str(&mut v, message.as_str());
            },
            ConfigError::YamlRootNotMapping { path } => {
                chars::append_str(&mut v, path.as_str());
                chars::append_str(&mut v, ": YAML root must be a mapping");
            },
            ConfigError::InvalidConfig { path, message } => {
                chars::append_str(&mut v, path.as_str());
                chars::append_str(&mut v, ": ");
                chars::append_str(&mut v, message.as_str());
            },
        }
        assert(v@ =~= config_error_text(self@));
        chars::to_string(&v)
    }
}

/// The first hook of a list, from index `from` on, that has no command or
/// no `run_on`, or the number of hooks.
pub open spec fn first_bad_hook(hooks: Seq<HookView>, from: int) -> int
    decreases hooks.len() - from,
{
    if 0 <= from < hooks.len() && hooks[from].command.len() > 0 && hooks[from].run_on.len() > 0 {
        first_bad_hook(hooks, from + 1)
    } else {
        from
    }
}

/// What is wrong with a list of hooks, if anything: the first hook without
/// a command or without a `run_on` is named.
pub open spec fn hooks_fault(label: Seq<char>, hooks: Seq<HookView>) -> Option<Seq<char>> {
    let i = first_bad_hook(hooks, 0);
    if 0 <= i < hooks.len() {
        if hooks[i].command.len() == 0 {
            Some(
                label + "["@ + text::decimal(i as nat) + "].command must be a non-empty list"@,
            )
        } else {
            Some(label + "["@ + text::decimal(i as nat) + "].run_on must be a non-empty list"@)
        }
    } else {
        None
    }
}

/// What is wrong with a set of hooks, if anything: the lists are looked at
/// in the order `after_dir_create`, `after_recipe`, `after_all`.
pub open spec fn hook_set_fault(label: Seq<char>, hooks: HookSetView) -> Option<Seq<char>> {
    match hooks_fault(label + ".after_dir_create"@, hooks.after_dir_create) {
        Some(m) => Some(m),
        None => match hooks_fault(label + ".after_recipe"@, hooks.after_recipe) {
            Some(m) => Some(m),
            None => hooks_fault(label + ".after_all"@, hooks.after_all),
        },
    }
}

/// The first recipe, from index `from` on in the order of the names, whose
/// hooks have a fault, or the number of recipes.
pub open spec fn first_bad_recipe(recipes: Seq<(Seq<char>, RecipeView)>, from: int) -> int
    decreases recipes.len() - from,
{
    if 0 <= from < recipes.len() && hook_set_fault(
        "recipes."@ + recipes[from].0 + ".hooks"@,
        recipes[from].1.hooks,
    ) is None {
        first_bad_recipe(recipes, from + 1)
    } else {
        from
    }
}

/// What is wrong with a configuration, if anything: the hooks of the
/// configuration come first, then those of the recipes in the order of
/// their names.
pub open spec fn config_fault(cfg: ConfigView) -> Option<Seq<char>> {
    match hook_set_fault("hooks"@, cfg.hooks) {
        Some(m) => Some(m),
        None => {
            let i = first_bad_recipe(cfg.recipes, 0);
            if 0 <= i < cfg.recipes.len() {
                hook_set_fault("recipes."@ + cfg.recipes[i].0 + ".hooks"@, cfg.recipes[i].1.hooks)
            } else {
                None
            }
        },
    }
}

fn invalid(path: &str, message: Vec<char>) -> (e: ConfigError)
    ensures
        e@ == (ConfigErrorView::InvalidConfig { path: path@, message: message@ }),
{
    ConfigError::InvalidConfig { path: path.to_owned(), message: chars::to_string(&message) }
}

/// Holds a list of hooks to the rules: the error names the first hook that
/// breaks one.
pub fn validate_hooks_list(path: &str, label: &str, hooks: &Vec<HookDef>) -> (r: Result<
    (),
    ConfigError,
>)
    ensures
        match r {
            Ok(_) => hooks_fault(label@, hook_views(hooks@)) is None,
            Err(e) => hooks_fault(label@, hook_views(hooks@)) is Some && e@
                == (ConfigErrorView::InvalidConfig {
                path: path@,
                message: hooks_fault(label@, hook_views(hooks@))->0,
            }),
        },
{
    let mut i: usize = 0;
    while i < hooks.len()
        invariant
            i <= hooks.len(),
            first_bad_hook(hook_views(hooks@), 0) == first_bad_hook(hook_views(hooks@), i as int),
        decreases hooks.len() - i,
    {
        assert(hook_views(hooks@)[i as int] == hooks@[i as int]@);
        assert(hooks@[i as int]@.command.len() == hooks@[i as int].command@.len());
        if hooks[i].command.len() == 0 || hooks[i].run_on.len() == 0 {
            let mut m = chars::from_str(label);
            m.push('[');
            chars::append(&mut m, &chars::from_u64(i as u64));
            if hooks[i].command.len() == 0 {
                chars::append_str(&mut m, "].command must be a non-empty list");
            } else {
                chars::append_str(&mut m, "].run_on must be a non-empty list");
            }
            proof {
                reveal_strlit("[");
                assert("["@ =~= seq!['[']);
                assert(m@ =~= hooks_fault(label@, hook_views(hooks@))->0);
            }
            return Err(invalid(path, m));
        }
        i += 1;
    }
    Ok(())
}

/// Holds the hooks of the three stages to the rules, stage by stage.
pub fn validate_hook_set(path: &str, label: &str, hooks: &HookSet) -> (r: Result<(), ConfigError>)
    ensures
        match r {
            Ok(_) => hook_set_fault(label@, hooks@) is None,
            Err(e) => hook_set_fault(label@, hooks@) is Some && e@ == (ConfigErrorView::InvalidConfig {
                path: path@,
                message: hook_set_fault(label@, hooks@)->0,
            }),
        },
{
    let mut l1 = chars::from_str(label);
    chars::append_str(&mut l1, ".after_dir_create");
    match validate_hooks_list(path, chars::to_string(&l1).as_str(), &hooks.after_dir_create) {
        Err(e) => {
            return Err(e);
        },
        Ok(_) => {},
    }
    let mut l2 = chars::from_str(label);
    chars::append_str(&mut l2, ".after_recipe");
    match validate_hooks_list(path, chars::to_string(&l2).as_str(), &hooks.after_recipe) {
        Err(e) => {
            return Err(e);
        },
        Ok(_) => {},
    }
    let mut l3 = chars::from_str(label);
    chars::append_str(&mut l3, ".after_all");
    validate_hooks_list(path, chars::to_string(&l3).as_str(), &hooks.after_all)
}

/// Checks the hooks of a configuration: each must have a command and say
/// when it runs.
pub fn validate_config(path: &str, cfg: &Config) -> (r: Result<(), ConfigError>)
    ensures
        match r {
            Ok(_) => config_fault(cfg@) is None,
            Err(e) => config_fault(cfg@) is Some && e@ == (ConfigErrorView::InvalidConfig {
                path: path@,
                message: config_fault(cfg@)->0,
            }),
        },
{
    match validate_hook_set(path, "hooks", &cfg.hooks) {
        Err(e) => {
            return Err(e);
        },
        Ok(_) => {},
    }
    let n = cfg.recipes.len();
    let mut i: usize = 0;
    while i < n
        invariant
            i <= n,
            n == cfg.recipes.names().len(),
            n == cfg.recipes.values().len(),
            n == cfg@.recipes.len(),
            hook_set_fault("hooks"@, cfg.hooks@) is None,
            first_bad_recipe(cfg@.recipes, 0) == first_bad_recipe(cfg@.recipes, i as int),
        decreases n - i,
    {
        assert(cfg@.recipes[i as int] == (
            cfg.recipes.names()[i as int],
            cfg.recipes.values()[i as int]@,
        ));
        let mut label = chars::from_str("recipes.");
        chars::append_str(&mut label, cfg.recipes.name_at(i).as_str());
        chars::append_str(&mut label, ".hooks");
        match validate_hook_set(
            path,
            chars::to_string(&label).as_str(),
            &cfg.recipes.value_at(i).hooks,
        ) {
            Err(e) => {
                return Err(e);
            },
            Ok(_) => {},
        }
        i += 1;
    }
    Ok(())
}

/// A copy of the strings.
pub fn clone_strings(v: &Vec<String>) -> (r: Vec<String>)
    ensures
        r@ == v@,
{
    let mut r: Vec<String> = Vec::new();
    let mut i: usize = 0;
    while i < v.len()
        invariant
            i <= v.len(),
            r@ == v@.take(i as int),
        decreases v.len() - i,
    {
        r.push(v[i].clone());
        assert(r@ =~= v@.take(i + 1));
        i += 1;
    }
    assert(v@.take(v.len() as int) =~= v@);
    r
}

/// A copy of a string that may be absent.
pub fn clone_text(o: &Option<String>) -> (r: Option<String>)
    ensures
        r == *o,
{
    match o {
        Some(s) => Some(s.clone()),
        None => None,
    }
}

/// A copy of the rules.
pub fn clone_rules(v: &Vec<OverrideRule>) -> (r: Vec<OverrideRule>)
    ensures
        r@ == v@,
{
    let mut r: Vec<OverrideRule> = Vec::new();
    let mut i: usize = 0;
    while i < v.len()
        invariant
            i <= v.len(),
            r@ == v@.take(i as int),
        decreases v.len() - i,
    {
        r.push(OverrideRule { pattern: v[i].pattern.clone(), action: v[i].action });
        assert(r@ =~= v@.take(i + 1));
        i += 1;
    }
    assert(v@.take(v.len() as int) =~= v@);
    r
}

/// A copy of the sets of files.
pub fn clone_filesets(v: &Vec<FileSetDef>) -> (r: Vec<FileSetDef>)
    ensures
        fileset_views(r@) == fileset_views(v@),
{
    let mut r: Vec<FileSetDef> = Vec::new();
    let mut i: usize = 0;
    while i < v.len()
        invariant
            i <= v.len(),
            r@.len() == i,
            forall|j: int| 0 <= j < i ==> (#[trigger] r@[j])@ == v@[j]@,
        decreases v.len() - i,
    {
        let f = FileSetDef {
            root: v[i].root.clone(),
            includes: clone_strings(&v[i].includes),
            dest_prefix: clone_text(&v[i].dest_prefix),
        };
        r.push(f);
        i += 1;
    }
    assert(fileset_views(r@) =~= fileset_views(v@));
    r
}

/// A copy of the stages.
pub fn clone_run_on(v: &Vec<HookRunOn>) -> (r: Vec<HookRunOn>)
    ensures
        r@ == v@,
{
    let mut r: Vec<HookRunOn> = Vec::new();
    let mut i: usize = 0;
    while i < v.len()
        invariant
            i <= v.len(),
            r@ == v@.take(i as int),
        decreases v.len() - i,
    {
        r.push(v[i]);
        assert(r@ =~= v@.take(i + 1));
        i += 1;
    }
    assert(v@.take(v.len() as int) =~= v@);
    r
}

/// A copy of the hooks.
pub fn clone_hooks(v: &Vec<HookDef>) -> (r: Vec<HookDef>)
    ensures
        hook_views(r@) == hook_views(v@),
{
    let mut r: Vec<HookDef> = Vec::new();
    let mut i: usize = 0;
    while i < v.len()
        invariant
            i <= v.len(),
            r@.len() == i,
            forall|j: int| 0 <= j < i ==> (#[trigger] r@[j])@ == v@[j]@,
        decreases v.len() - i,
    {
        let h = HookDef {
            command: clone_strings(&v[i].command),
            run_on: clone_run_on(&v[i].run_on),
            cwd: clone_text(&v[i].cwd),
            env: v[i].env.duplicate(),
            allow_failure: v[i].allow_failure,
        };
        r.push(h);
        i += 1;
    }
    assert(hook_views(r@) =~= hook_views(v@));
    r
}

/// A copy of the hooks of the three stages.
pub fn clone_hook_set(h: &HookSet) -> (r: HookSet)
    ensures
        r@ == h@,
{
    HookSet {
        after_dir_create: clone_hooks(&h.after_dir_create),
        after_recipe: clone_hooks(&h.after_recipe),
        after_all: clone_hooks(&h.after_all),
    }
}

fn append_rules(out: &mut Vec<OverrideRule>, more: &Vec<OverrideRule>)
    ensures
        final(out)@ == old(out)@ + more@,
{
    let mut i: usize = 0;
    while i < more.len()
        invariant
            i <= more.len(),
            out@ == old(out)@ + more@.take(i as int),
        decreases more.len() - i,
    {
        out.push(OverrideRule { pattern: more[i].pattern.clone(), action: more[i].action });
        assert(out@ =~= old(out)@ + more@.take(i + 1));
        i += 1;
    }
    assert(more@.take(more.len() as int) =~= more@);
}

impl Config {
    /// The templates that the name of a template stands for: the base
    /// template, unless the name is its own, and then the template.
    pub open spec fn template_stack(self, name: Seq<char>) -> Seq<Seq<char>> {
        match self.base_template {
            Some(base) => if base@ != name {
                seq![base@, name]
            } else {
                seq![name]
            },
            None => seq![name],
        }
    }

    /// What a name resolves to. A recipe comes before a target of the same
    /// name and a target before a template. The rules of the configuration
    /// come before those of the recipe or target.
    pub open spec fn resolved(self, name: Seq<char>) -> Option<ResolvedView> {
        if self.recipes.has(name) {
            let def = self.recipes.value_of(name)->0;
            Some(
                ResolvedView {
                    name,
                    templates: strings(def.templates@),
                    files: fileset_views(def.files@),
                    overrides: self.overrides@ + def.overrides@,
                    hooks: def.hooks@,
                    kind: ResolvedKind::Recipe,
                },
            )
        } else if self.targets.has(name) {
            let def = self.targets.value_of(name)->0;
            Some(
                ResolvedView {
                    name,
                    templates: strings(def.template_names()),
                    files: Seq::empty(),
                    overrides: self.overrides@ + def.override_rules(),
                    hooks: no_hooks(),
                    kind: ResolvedKind::Target,
                },
            )
        } else if self.templates.has(name) {
            Some(
                ResolvedView {
                    name,
                    templates: self.template_stack(name),
                    files: Seq::empty(),
                    overrides: self.overrides@,
                    hooks: no_hooks(),
                    kind: ResolvedKind::Template,
                },
            )
        } else {
            None
        }
    }

    /// Resolve a recipe/target/template name into concrete templates and
    /// file sets.
    pub fn resolve_recipe(&self, name: &str) -> (r: Option<ResolvedRecipe>)
        ensures
            match r {
                Some(res) => self.resolved(name@) == Some(res@),
                None => self.resolved(name@) is None,
            },
    {
        match self.recipes.get(name) {
            Some(def) => {
                let mut overrides = clone_rules(&self.overrides);
                append_rules(&mut overrides, &def.overrides);
                let res = ResolvedRecipe {
                    name: name.to_owned(),
                    templates: clone_strings(&def.templates),
                    files: clone_filesets(&def.files),
                    overrides,
                    hooks: clone_hook_set(&def.hooks),
                    kind: ResolvedKind::Recipe,
                };
                return Some(res);
            },
            None => {},
        }
        match self.targets.get(name) {
            Some(def) => {
                let mut overrides = clone_rules(&self.overrides);
                let own = def.overrides();
                append_rules(&mut overrides, &own);
                let names = def.templates();
                let mut templates: Vec<String> = Vec::new();
                let mut i: usize = 0;
                while i < names.len()
                    invariant
                        i <= names.len(),
                        templates@ == names@.take(i as int),
                    decreases names.len() - i,
                {
                    templates.push(names[i].clone());
                    assert(templates@ =~= names@.take(i + 1));
                    i += 1;
                }
                assert(names@.take(names.len() as int) =~= names@);
                let files: Vec<FileSetDef> = Vec::new();
                assert(fileset_views(files@) =~= Seq::<FileSetView>::empty());
                let res = ResolvedRecipe {
                    name: name.to_owned(),
                    templates,
                    files,
                    overrides,
                    hooks: HookSet::default(),
                    kind: ResolvedKind::Target,
                };
                return Some(res);
            },
            None => {},
        }
        if self.templates.contains_key(name) {
            let mut templates: Vec<String> = Vec::new();
            match &self.base_template {
                Some(base) => {
                    if !chars::eq_str(&chars::from_str(base.as_str()), name) {
                        templates.push(base.clone());
                    }
                },
                None => {},
            }
            templates.push(name.to_owned());
            assert(strings(templates@) =~= self.template_stack(name@));
            let files: Vec<FileSetDef> = Vec::new();
            assert(fileset_views(files@) =~= Seq::<FileSetView>::empty());
            let res = ResolvedRecipe {
                name: name.to_owned(),
                templates,
                files,
                overrides: clone_rules(&self.overrides),
                hooks: HookSet::default(),
                kind: ResolvedKind::Template,
            };
            return Some(res);
        }
        None
    }
}

/// The places where the configuration is looked for, in their order:
/// `pinit.toml`, `pinit.yaml` and `pinit.yml` in the `pinit` directory of
/// the XDG configuration home, or else of `.config` in the home directory.
pub open spec fn config_places(xdg: Option<Seq<char>>, home: Option<Seq<char>>) -> Seq<Seq<char>> {
    match xdg {
        Some(x) => seq![
            x + "/pinit/pinit.toml"@,
            x + "/pinit/pinit.yaml"@,
            x + "/pinit/pinit.yml"@,
        ],
        None => match home {
            Some(h) => seq![
                h + "/.config/pinit/pinit.toml"@,
                h + "/.config/pinit/pinit.yaml"@,
                h + "/.config/pinit/pinit.yml"@,
            ],
            None => Seq::empty(),
        },
    }
}

fn place(root: &str, rest: &str) -> (r: String)
    ensures
        r@ == root@ + rest@,
{
    let mut v = chars::from_str(root);
    chars::append_str(&mut v, rest);
    chars::to_string(&v)
}

/// Default configuration search paths in priority order, from the values of
/// `XDG_CONFIG_HOME` and `HOME`.
pub fn config_paths(xdg: Option<&str>, home: Option<&str>) -> (r: Vec<String>)
    ensures
        strings(r@) == config_places(
            match xdg {
                Some(x) => Some(x@),
                None => None,
            },
            match home {
                Some(h) => Some(h@),
                None => None,
            },
        ),
{
    let mut out: Vec<String> = Vec::new();
    match xdg {
        Some(x) => {
            out.push(place(x, "/pinit/pinit.toml"));
            out.push(place(x, "/pinit/pinit.yaml"));
            out.push(place(x, "/pinit/pinit.yml"));
            assert(strings(out@) =~= config_places(Some(x@), None));
        },
        None => {
            match home {
                Some(h) => {
                    out.push(place(h, "/.config/pinit/pinit.toml"));
                    out.push(place(h, "/.config/pinit/pinit.yaml"));
                    out.push(place(h, "/.config/pinit/pinit.yml"));
                    assert(strings(out@) =~= config_places(None, Some(h@)));
                },
                None => {
                    assert(strings(out@) =~= Seq::<Seq<char>>::empty());
                },
            }
        },
    }
    out
}

} // verus!
