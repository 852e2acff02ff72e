//! The apply engine: what happens to one entry of a template tree.
//!
//! The engine reads no file and writes none. The caller lists a directory,
//! asks the ignore oracle, reads the two files of a conflict and hands the
//! plain values in; the engine says what to count and what to write.

use crate::chars;
use crate::ignore::{
    always_ignored, entry_views, format_git_rel, git_rel, should_always_ignore, TemplateEntry,
};
use crate::merge::{merge_allows, merge_file};
use crate::resolve::{join_path, joined};
use crate::text;
use vstd::prelude::*;
use vstd::slice::slice_to_vec;

verus! {

/// Action to take when the destination file already exists.
#[derive(Clone, Copy, Debug, PartialEq, Eq, Structural)]
pub enum ExistingFileAction {
    Overwrite,
    Merge,
    Skip,
}

impl ExistingFileAction {
    /// The action's name in lower case.
    pub open spec fn label(self) -> Seq<char> {
        match self {
            ExistingFileAction::Overwrite => "overwrite"@,
            ExistingFileAction::Merge => "merge"@,
            ExistingFileAction::Skip => "skip"@,
        }
    }

    /// String label used for diagnostics.
    pub fn as_str(self) -> (s: &'static str)
        ensures
            s@ == self.label(),
    {
        match self {
            ExistingFileAction::Overwrite => "overwrite",
            ExistingFileAction::Merge => "merge",
            ExistingFileAction::Skip => "skip",
        }
    }
}

/// Context describing an existing destination file and its candidate
/// replacements.
pub struct ExistingFileDecisionContext<'a> {
    /// The name of the template that is applied, if it has one.
    pub template_name: Option<&'a str>,
    /// The place of the template in its stack, if it has one.
    pub template_index: Option<usize>,
    /// Relative path within the destination.
    pub rel_path: &'a str,
    /// Destination path on disk.
    pub dest_path: &'a str,
    /// Bytes from the template.
    pub src_bytes: &'a [u8],
    /// Bytes from the destination.
    pub dest_bytes: &'a [u8],
    /// Merged bytes, if a merge could produce them.
    pub merge_bytes: Option<&'a [u8]>,
}

/// A conflict as a mathematical value: the texts and bytes of the context.
pub ghost struct DecisionView {
    pub template_name: Option<Seq<char>>,
    pub template_index: Option<usize>,
    pub rel_path: Seq<char>,
    pub dest_path: Seq<char>,
    pub src_bytes: Seq<u8>,
    pub dest_bytes: Seq<u8>,
    pub merge_bytes: Option<Seq<u8>>,
}

impl<'a> View for ExistingFileDecisionContext<'a> {
    type V = DecisionView;

    open spec fn view(&self) -> DecisionView {
        DecisionView {
            template_name: match self.template_name {
                Some(n) => Some(n@),
                None => None,
            },
            template_index: self.template_index,
            rel_path: self.rel_path@,
            dest_path: self.dest_path@,
            src_bytes: self.src_bytes@,
            dest_bytes: self.dest_bytes@,
            merge_bytes: match self.merge_bytes {
                Some(b) => Some(b@),
                None => None,
            },
        }
    }
}

/// Decide what to do when a destination file already exists.
pub trait ExistingFileDecider {
    /// Whether the decider, in this state, may give this answer to this
    /// conflict. A decider that says nothing of itself may give any.
    open spec fn answers(&self, ctx: DecisionView, action: ExistingFileAction) -> bool {
        true
    }

    fn decide(&mut self, ctx: ExistingFileDecisionContext<'_>) -> (action: ExistingFileAction)
        ensures
            old(self).answers(ctx@, action),
    ;
}

/// Decider that always skips existing files.
#[derive(Clone, Copy, Debug)]
pub struct SkipExisting;

impl ExistingFileDecider for SkipExisting {
    open spec fn answers(&self, ctx: DecisionView, action: ExistingFileAction) -> bool {
        action == ExistingFileAction::Skip
    }

    fn decide(&mut self, ctx: ExistingFileDecisionContext<'_>) -> (action: ExistingFileAction) {
        ExistingFileAction::Skip
    }
}

impl Default for SkipExisting {
    fn default() -> (r: Self)
        ensures
            r == SkipExisting,
    {
        SkipExisting
    }
}

/// Decider that gives one fixed answer to every conflict.
#[derive(Clone, Copy, Debug)]
pub struct FixedAction(pub ExistingFileAction);

impl ExistingFileDecider for FixedAction {
    open spec fn answers(&self, ctx: DecisionView, action: ExistingFileAction) -> bool {
        action == self.0
    }

    fn decide(&mut self, ctx: ExistingFileDecisionContext<'_>) -> (action: ExistingFileAction)
        ensures
            *final(self) == *old(self),
    {
        self.0
    }
}

/// Options that control template application.
#[derive(Debug)]
pub struct ApplyOptions {
    /// When true, compute changes but do not write to disk.
    pub dry_run: bool,
    /// The name of the template that is applied, for the decider.
    pub template_name: Option<String>,
    /// The place of the template in its stack, for the decider.
    pub template_index: Option<usize>,
}

impl ApplyOptions {
    /// The template's name as a text.
    pub open spec fn name(self) -> Option<Seq<char>> {
        match self.template_name {
            Some(n) => Some(n@),
            None => None,
        }
    }
}

impl Default for ApplyOptions {
    fn default() -> (r: Self)
        ensures
            !r.dry_run,
            r.template_name is None,
            r.template_index is None,
    {
        ApplyOptions { dry_run: false, template_name: None, template_index: None }
    }
}

/// What became of one path of the template.
#[derive(Clone, Copy, Debug, PartialEq, Eq, Structural)]
pub enum Outcome {
    Created,
    Updated,
    Skipped,
    Ignored,
}

/// Summary of work performed during template application.
#[derive(Clone, Copy, Debug, PartialEq, Eq, Structural)]
pub struct ApplyReport {
    /// Files created because they did not exist in the destination.
    pub created_files: usize,
    /// Files updated after an overwrite or merge action.
    pub updated_files: usize,
    /// Files skipped due to identical contents or a skip decision.
    pub skipped_files: usize,
    /// Paths ignored by the always-ignore rules or by the ignore oracle.
    pub ignored_paths: usize,
}

impl ApplyReport {
    /// The number of paths counted under an outcome.
    pub open spec fn count(self, outcome: Outcome) -> nat {
        match outcome {
            Outcome::Created => self.created_files as nat,
            Outcome::Updated => self.updated_files as nat,
            Outcome::Skipped => self.skipped_files as nat,
            Outcome::Ignored => self.ignored_paths as nat,
        }
    }

    /// The number of paths counted in all.
    pub open spec fn total(self) -> nat {
        (self.created_files + self.updated_files + self.skipped_files + self.ignored_paths) as nat
    }

    /// The report of one path with the given outcome.
    pub fn single(outcome: Outcome) -> (r: Self)
        ensures
            r.count(outcome) == 1,
            r.total() == 1,
    {
        match outcome {
            Outcome::Created => ApplyReport {
                created_files: 1,
                updated_files: 0,
                skipped_files: 0,
                ignored_paths: 0,
            },
            Outcome::Updated => ApplyReport {
                created_files: 0,
                updated_files: 1,
                skipped_files: 0,
                ignored_paths: 0,
            },
            Outcome::Skipped => ApplyReport {
                created_files: 0,
                updated_files: 0,
                skipped_files: 1,
                ignored_paths: 0,
            },
            Outcome::Ignored => ApplyReport {
                created_files: 0,
                updated_files: 0,
                skipped_files: 0,
                ignored_paths: 1,
            },
        }
    }

    /// Counts one more path under its outcome: that count grows by one and
    /// no other count changes.
    pub fn record(&mut self, outcome: Outcome)
        requires
            old(self).count(outcome) < usize::MAX,
        ensures
            final(self).count(outcome) == old(self).count(outcome) + 1,
            forall|o: Outcome| o != outcome ==> final(self).count(o) == old(self).count(o),
    {
        match outcome {
            Outcome::Created => {
                self.created_files = self.created_files + 1;
            },
            Outcome::Updated => {
                self.updated_files = self.updated_files + 1;
            },
            Outcome::Skipped => {
                self.skipped_files = self.skipped_files + 1;
            },
            Outcome::Ignored => {
                self.ignored_paths = self.ignored_paths + 1;
            },
        }
    }

    /// Whether the counts of `other` can be added to those of `self`.
    pub open spec fn can_absorb(self, other: ApplyReport) -> bool {
        forall|o: Outcome| self.count(o) + other.count(o) <= usize::MAX
    }

    /// Adds the counts of another report, as a stack of templates does with
    /// the report of each.
    pub fn absorb(&mut self, other: &ApplyReport)
        requires
            old(self).can_absorb(*other),
        ensures
            forall|o: Outcome| final(self).count(o) == old(self).count(o) + other.count(o),
    {
        assert(self.count(Outcome::Created) + other.count(Outcome::Created) <= usize::MAX);
        assert(self.count(Outcome::Updated) + other.count(Outcome::Updated) <= usize::MAX);
        assert(self.count(Outcome::Skipped) + other.count(Outcome::Skipped) <= usize::MAX);
        assert(self.count(Outcome::Ignored) + other.count(Outcome::Ignored) <= usize::MAX);
        self.created_files = self.created_files + other.created_files;
        self.updated_files = self.updated_files + other.updated_files;
        self.skipped_files = self.skipped_files + other.skipped_files;
        self.ignored_paths = self.ignored_paths + other.ignored_paths;
    }

    /// The sum of two reports, or nothing where a count does not fit.
    pub fn checked_absorb(&mut self, other: &ApplyReport) -> (ok: bool)
        ensures
            ok == old(self).can_absorb(*other),
            ok ==> forall|o: Outcome| final(self).count(o) == old(self).count(o) + other.count(o),
            !ok ==> *final(self) == *old(self),
    {
        let fits = self.created_files <= usize::MAX - other.created_files && self.updated_files
            <= usize::MAX - other.updated_files && self.skipped_files <= usize::MAX
            - other.skipped_files && self.ignored_paths <= usize::MAX - other.ignored_paths;
        if fits {
            assert forall|o: Outcome| self.count(o) + other.count(o) <= usize::MAX by {
                match o {
                    Outcome::Created => {},
                    Outcome::Updated => {},
                    Outcome::Skipped => {},
                    Outcome::Ignored => {},
                }
            }
            self.absorb(other);
            true
        } else {
            proof {
                if self.created_files > usize::MAX - other.created_files {
                    assert(self.count(Outcome::Created) + other.count(Outcome::Created)
                        > usize::MAX);
                } else if self.updated_files > usize::MAX - other.updated_files {
                    assert(self.count(Outcome::Updated) + other.count(Outcome::Updated)
                        > usize::MAX);
                } else if self.skipped_files > usize::MAX - other.skipped_files {
                    assert(self.count(Outcome::Skipped) + other.count(Outcome::Skipped)
                        > usize::MAX);
                } else {
                    assert(self.count(Outcome::Ignored) + other.count(Outcome::Ignored)
                        > usize::MAX);
                }
            }
            false
        }
    }
}

impl Default for ApplyReport {
    fn default() -> (r: Self)
        ensures
            r.total() == 0,
    {
        ApplyReport { created_files: 0, updated_files: 0, skipped_files: 0, ignored_paths: 0 }
    }
}

/// Errors that end the application of a template directory.
#[derive(Debug)]
pub enum ApplyError {
    TemplateDirNotFound(String),
    TemplateDirNotDir(String),
    DestDirNotDir(String),
    SymlinkNotSupported(String),
    GitIgnoreFailed { cmd: String, status: i32, stderr: String },
    Io { path: String, source: String },
}

/// An error as a mathematical value.
pub ghost enum ApplyErrorView {
    TemplateDirNotFound(Seq<char>),
    TemplateDirNotDir(Seq<char>),
    DestDirNotDir(Seq<char>),
    SymlinkNotSupported(Seq<char>),
    GitIgnoreFailed { cmd: Seq<char>, status: i32, stderr: Seq<char> },
    Io { path: Seq<char>, source: Seq<char> },
}

impl View for ApplyError {
    type V = ApplyErrorView;

    open spec fn view(&self) -> ApplyErrorView {
        match self {
            ApplyError::TemplateDirNotFound(p) => ApplyErrorView::TemplateDirNotFound(p@),
            ApplyError::TemplateDirNotDir(p) => ApplyErrorView::TemplateDirNotDir(p@),
            ApplyError::DestDirNotDir(p) => ApplyErrorView::DestDirNotDir(p@),
            ApplyError::SymlinkNotSupported(p) => ApplyErrorView::SymlinkNotSupported(p@),
            ApplyError::GitIgnoreFailed { cmd, status, stderr } => ApplyErrorView::GitIgnoreFailed {
                cmd: cmd@,
                status: *status,
                stderr: stderr@,
            },
            ApplyError::Io { path, source } => ApplyErrorView::Io { path: path@, source: source@ },
        }
    }
}

/// The message of an error.
pub open spec fn apply_error_text(e: ApplyErrorView) -> Seq<char> {
    match e {
        ApplyErrorView::TemplateDirNotFound(p) => "template directory not found: "@ + p,
        ApplyErrorView::TemplateDirNotDir(p) => "template path is not a directory: "@ + p,
        ApplyErrorView::DestDirNotDir(p) => "destination is not a directory: "@ + p,
        ApplyErrorView::SymlinkNotSupported(p) => "symlinks are not supported (yet): "@ + p,
        ApplyErrorView::GitIgnoreFailed { cmd, status, stderr } => {
            "git ignore check failed ("@ + text::signed_decimal(status as int) + ") running "@
                + cmd + ": "@ + stderr
        },
        ApplyErrorView::Io { path, source } => path + ": "@ + source,
    }
}

impl ApplyError {
    /// The message of the error.
    pub fn message(&self) -> (m: String)
        ensures
            m@ == apply_error_text(self@),
    {
        let mut v: Vec<char> = Vec::new();
        match self {
            ApplyError::TemplateDirNotFound(p) => {
                chars::append_str(&mut v, "template directory not found: ");
                chars::append_str(&mut v, p.as_str());
            },
            ApplyError::TemplateDirNotDir(p) => {
                chars::append_str(&mut v, "template path is not a directory: ");
                chars::append_str(&mut v, p.as_str());
            },
            ApplyError::DestDirNotDir(p) => {
                chars::append_str(&mut v, "destination is not a directory: ");
                chars::append_str(&mut v, p.as_str());
            },
            ApplyError::SymlinkNotSupported(p) => {
                chars::append_str(&mut v, "symlinks are not supported (yet): ");
                chars::append_str(&mut v, p.as_str());
            },
            ApplyError::GitIgnoreFailed { cmd, status, stderr } => {
                chars::append_str(&mut v, "git ignore check failed (");
                chars::append(&mut v, &chars::from_i64(*status as i64));
                chars::append_str(&mut v, ") running ");
                chars::append_str(&mut v, cmd.as_str());
                chars::append_str(&mut v, ": ");
                chars::append_str(&mut v, stderr.as_str());
            },
            ApplyError::Io { path, source } => {
                chars::append_str(&mut v, path.as_str());
                chars::append_str(&mut v, ": ");
                chars::append_str(&mut v, source.as_str());
            },
        }
        assert(v@ =~= apply_error_text(self@));
        chars::to_string(&v)
    }
}

/// What a template entry is on disk, not following links.
#[derive(Clone, Copy, Debug, PartialEq, Eq, Structural)]
pub enum EntryKind {
    File,
    Dir,
    Symlink,
    Other,
}

/// What to do with an entry of a template directory.
#[derive(Clone, Copy, Debug, PartialEq, Eq, Structural)]
pub enum EntryStep {
    /// Pass over it without counting it.
    Nothing,
    /// Count it as ignored; do not enter it.
    Ignore,
    /// Apply the directory's own entries.
    Descend,
    /// Apply the file.
    Apply,
}

/// The texts of the strings.
pub open spec fn strings(v: Seq<String>) -> Seq<Seq<char>> {
    v.map_values(|s: String| s@)
}

/// The step for an entry that is no link. The always-ignore rules come
/// first, then the oracle's answer, then the kind of the entry.
pub open spec fn step_of(rel: Seq<char>, kind: EntryKind, ignored: Seq<Seq<char>>) -> EntryStep {
    if rel.len() == 0 {
        EntryStep::Nothing
    } else if always_ignored(rel) {
        EntryStep::Ignore
    } else if ignored.contains(git_rel(rel, kind == EntryKind::Dir)) {
        EntryStep::Ignore
    } else if kind == EntryKind::Dir {
        EntryStep::Descend
    } else if kind == EntryKind::File {
        EntryStep::Apply
    } else {
        EntryStep::Nothing
    }
}

fn holds_string(list: &Vec<String>, s: &String) -> (r: bool)
    ensures
        r == strings(list@).contains(s@),
{
    let mut i: usize = 0;
    while i < list.len()
        invariant
            i <= list.len(),
            forall|j: int| 0 <= j < i ==> strings(list@)[j] != s@,
        decreases list.len() - i,
    {
        if list[i] == *s {
            assert(strings(list@)[i as int] == s@);
            return true;
        }
        i += 1;
    }
    false
}

fn entry_step(rel: &str, kind: EntryKind, ignored: &Vec<String>) -> (step: EntryStep)
    ensures
        step == step_of(rel@, kind, strings(ignored@)),
{
    if rel.is_empty() {
        return EntryStep::Nothing;
    }
    if should_always_ignore(rel) {
        return EntryStep::Ignore;
    }
    let query = format_git_rel(rel, kind == EntryKind::Dir);
    if holds_string(ignored, &query) {
        return EntryStep::Ignore;
    }
    if kind == EntryKind::Dir {
        EntryStep::Descend
    } else if kind == EntryKind::File {
        EntryStep::Apply
    } else {
        EntryStep::Nothing
    }
}

/// Says what to do with one entry of a template directory.
///
/// `path` is the entry's path on disk and `rel` its path below the
/// template's root; `ignored` holds the oracle's answer for the entry's
/// directory. A link ends the application. A path that the always-ignore
/// rules match is ignored whatever the oracle says, and nothing of it
/// reaches a merge or the decider.
pub fn plan_entry(path: &str, rel: &str, kind: EntryKind, ignored: &Vec<String>) -> (r: Result<
    EntryStep,
    ApplyError,
>)
    ensures
        match r {
            Ok(step) => kind != EntryKind::Symlink && step == step_of(rel@, kind, strings(ignored@)),
            Err(e) => kind == EntryKind::Symlink && (e matches ApplyError::SymlinkNotSupported(p)
                && p@ == path@),
        },
        kind != EntryKind::Symlink && rel@.len() > 0 && always_ignored(rel@) ==> r == Ok::<
            EntryStep,
            ApplyError,
        >(EntryStep::Ignore),
{
    if kind == EntryKind::Symlink {
        return Err(ApplyError::SymlinkNotSupported(path.to_owned()));
    }
    Ok(entry_step(rel, kind, ignored))
}

/// The index of the first link among the entries from `from` on, or the
/// number of entries.
pub open spec fn first_symlink(entries: Seq<(Seq<char>, EntryKind)>, from: int) -> int
    decreases entries.len() - from,
{
    if 0 <= from < entries.len() && entries[from].1 != EntryKind::Symlink {
        first_symlink(entries, from + 1)
    } else {
        from
    }
}

/// The steps for the entries of a directory that holds no link.
pub open spec fn level_steps(entries: Seq<(Seq<char>, EntryKind)>, ignored: Seq<Seq<char>>) -> Seq<
    EntryStep,
> {
    Seq::new(entries.len(), |i: int| step_of(entries[i].0, entries[i].1, ignored))
}

/// Says what to do with the entries of one directory of the template, in
/// their order.
///
/// `root` is the template's root and `ignored` the oracle's answer for the
/// directory. A link among the entries ends the application: the error
/// names the first, and no step is handed out, so that nothing of a
/// directory with a link in it is applied.
pub fn plan_level(root: &str, entries: &Vec<TemplateEntry>, ignored: &Vec<String>) -> (r: Result<
    Vec<EntryStep>,
    ApplyError,
>)
    ensures
        match r {
            Ok(steps) => first_symlink(entry_views(entries@), 0) >= entries@.len() && steps@
                == level_steps(entry_views(entries@), strings(ignored@)),
            Err(e) => first_symlink(entry_views(entries@), 0) < entries@.len() && e@
                == ApplyErrorView::SymlinkNotSupported(
                joined(root@, entry_views(entries@)[first_symlink(entry_views(entries@), 0)].0),
            ),
        },
{
    let ghost vs = entry_views(entries@);
    let mut i: usize = 0;
    while i < entries.len()
        invariant
            i <= entries.len(),
            vs == entry_views(entries@),
            first_symlink(vs, 0) == first_symlink(vs, i as int),
            forall|j: int| 0 <= j < i ==> vs[j].1 != EntryKind::Symlink,
        decreases entries.len() - i,
    {
        assert(vs[i as int] == (entries@[i as int].rel@, entries@[i as int].kind));
        if entries[i].kind == EntryKind::Symlink {
            return Err(
                ApplyError::SymlinkNotSupported(join_path(root, entries[i].rel.as_str())),
            );
        }
        i += 1;
    }
    let mut steps: Vec<EntryStep> = Vec::new();
    let mut k: usize = 0;
    while k < entries.len()
        invariant
            k <= entries.len(),
            vs == entry_views(entries@),
            steps@.len() == k,
            forall|j: int|
                0 <= j < k ==> steps@[j] == step_of(vs[j].0, vs[j].1, strings(ignored@)),
        decreases entries.len() - k,
    {
        assert(vs[k as int] == (entries@[k as int].rel@, entries@[k as int].kind));
        let e = &entries[k];
        steps.push(entry_step(e.rel.as_str(), e.kind, ignored));
        k += 1;
    }
    assert(steps@ =~= level_steps(vs, strings(ignored@)));
    Ok(steps)
}

/// The template's root must be there, be no link and be a directory.
pub fn check_template_dir(path: &str, found: Option<EntryKind>) -> (r: Result<(), ApplyError>)
    ensures
        match r {
            Ok(_) => found == Some(EntryKind::Dir),
            Err(ApplyError::TemplateDirNotFound(p)) => found is None && p@ == path@,
            Err(ApplyError::SymlinkNotSupported(p)) => found == Some(EntryKind::Symlink) && p@
                == path@,
            Err(ApplyError::TemplateDirNotDir(p)) => (found == Some(EntryKind::File) || found
                == Some(EntryKind::Other)) && p@ == path@,
            Err(_) => false,
        },
{
    match found {
        None => Err(ApplyError::TemplateDirNotFound(path.to_owned())),
        Some(EntryKind::Symlink) => Err(ApplyError::SymlinkNotSupported(path.to_owned())),
        Some(EntryKind::Dir) => Ok(()),
        Some(_) => Err(ApplyError::TemplateDirNotDir(path.to_owned())),
    }
}

/// The destination's root, where it is there, must be no link and be a
/// directory. The answer says whether to create it: where it is not there
/// and the run is no dry run.
pub fn check_dest_dir(path: &str, found: Option<EntryKind>, options: &ApplyOptions) -> (r: Result<
    bool,
    ApplyError,
>)
    ensures
        match r {
            Ok(create) => (found is None || found == Some(EntryKind::Dir)) && create == (found is None
                && !options.dry_run),
            Err(ApplyError::SymlinkNotSupported(p)) => found == Some(EntryKind::Symlink) && p@
                == path@,
            Err(ApplyError::DestDirNotDir(p)) => (found == Some(EntryKind::File) || found == Some(
                EntryKind::Other,
            )) && p@ == path@,
            Err(_) => false,
        },
{
    match found {
        None => Ok(!options.dry_run),
        Some(EntryKind::Symlink) => Err(ApplyError::SymlinkNotSupported(path.to_owned())),
        Some(EntryKind::Dir) => Ok(false),
        Some(_) => Err(ApplyError::DestDirNotDir(path.to_owned())),
    }
}

/// What to write for a file.
#[derive(Debug)]
pub enum FileWrite {
    /// Leave the destination as it is.
    Nothing,
    /// Copy the template file to the destination, which has no such file.
    Copy,
    /// Write the bytes to the destination, which has no such file.
    Create(Vec<u8>),
    /// Write the bytes over the destination file and keep its permission
    /// bits.
    Replace(Vec<u8>),
}

/// A write as a mathematical value.
pub ghost enum WriteView {
    Nothing,
    Copy,
    Create(Seq<u8>),
    Replace(Seq<u8>),
}

/// What the engine says of one file: under what to count it, and what to
/// write.
#[derive(Debug)]
pub struct FilePlan {
    pub outcome: Outcome,
    pub write: FileWrite,
}

/// A plan as a mathematical value.
pub ghost struct PlanView {
    pub outcome: Outcome,
    pub write: WriteView,
}

impl View for FilePlan {
    type V = PlanView;

    open spec fn view(&self) -> PlanView {
        PlanView {
            outcome: self.outcome,
            write: match self.write {
                FileWrite::Nothing => WriteView::Nothing,
                FileWrite::Copy => WriteView::Copy,
                FileWrite::Create(b) => WriteView::Create(b@),
                FileWrite::Replace(b) => WriteView::Replace(b@),
            },
        }
    }
}

/// The bytes that an action asks to write: the template's for `Overwrite`,
/// the merged bytes for `Merge` where there are any, none else.
pub open spec fn resolved(
    action: ExistingFileAction,
    src: Seq<u8>,
    merge: Option<Seq<u8>>,
) -> Option<Seq<u8>> {
    match action {
        ExistingFileAction::Overwrite => Some(src),
        ExistingFileAction::Merge => merge,
        ExistingFileAction::Skip => None,
    }
}

/// The plan that counts a file as skipped and writes nothing.
pub open spec fn skip_plan() -> PlanView {
    PlanView { outcome: Outcome::Skipped, write: WriteView::Nothing }
}

/// The plan for a file that differs from the destination's, once the
/// decider has answered. Bytes equal to the destination's are no update.
pub open spec fn existing_plan(
    src: Seq<u8>,
    dest: Seq<u8>,
    merge: Option<Seq<u8>>,
    action: ExistingFileAction,
    dry_run: bool,
) -> PlanView {
    match resolved(action, src, merge) {
        None => skip_plan(),
        Some(out) => {
            if out == dest {
                skip_plan()
            } else {
                PlanView {
                    outcome: Outcome::Updated,
                    write: if dry_run {
                        WriteView::Nothing
                    } else {
                        WriteView::Replace(out)
                    },
                }
            }
        },
    }
}

/// The plan for a file that the destination does not have.
pub open spec fn new_plan(dry_run: bool) -> PlanView {
    PlanView {
        outcome: Outcome::Created,
        write: if dry_run {
            WriteView::Nothing
        } else {
            WriteView::Copy
        },
    }
}

/// The content of the destination file once the plan has been carried out.
pub open spec fn content_after(plan: PlanView, src: Seq<u8>, dest: Option<Seq<u8>>) -> Option<
    Seq<u8>,
> {
    match plan.write {
        WriteView::Nothing => dest,
        WriteView::Copy => Some(src),
        WriteView::Create(b) => Some(b),
        WriteView::Replace(b) => Some(b),
    }
}

/// Whether two files hold the same bytes.
pub fn bytes_eq(a: &[u8], b: &[u8]) -> (r: bool)
    ensures
        r == (a@ == b@),
{
    if a.len() != b.len() {
        return false;
    }
    let mut i: usize = 0;
    while i < a.len()
        invariant
            i <= a.len(),
            a.len() == b.len(),
            forall|j: int| 0 <= j < i ==> a@[j] == b@[j],
        decreases a.len() - i,
    {
        if a[i] != b[i] {
            return false;
        }
        i += 1;
    }
    assert(a@ =~= b@);
    true
}

/// The bytes to write for an action, if any.
pub fn resolve_action(
    action: ExistingFileAction,
    src_bytes: &[u8],
    merge_bytes: Option<Vec<u8>>,
) -> (r: Option<Vec<u8>>)
    ensures
        match r {
            Some(out) => resolved(
                action,
                src_bytes@,
                match merge_bytes {
                    Some(m) => Some(m@),
                    None => None,
                },
            ) == Some(out@),
            None => resolved(
                action,
                src_bytes@,
                match merge_bytes {
                    Some(m) => Some(m@),
                    None => None,
                },
            ) is None,
        },
{
    match action {
        ExistingFileAction::Overwrite => Some(slice_to_vec(src_bytes)),
        ExistingFileAction::Merge => merge_bytes,
        ExistingFileAction::Skip => None,
    }
}

/// The bytes, where there are any.
pub open spec fn bytes_view(b: Option<Vec<u8>>) -> Option<Seq<u8>> {
    match b {
        Some(v) => Some(v@),
        None => None,
    }
}

/// The conflict as the decider is shown it.
pub open spec fn conflict(
    options: ApplyOptions,
    rel_path: Seq<char>,
    dest_path: Seq<char>,
    src: Seq<u8>,
    dest: Seq<u8>,
    merge: Option<Seq<u8>>,
) -> DecisionView {
    DecisionView {
        template_name: options.name(),
        template_index: options.template_index,
        rel_path,
        dest_path,
        src_bytes: src,
        dest_bytes: dest,
        merge_bytes: merge,
    }
}

/// Plans a file that the destination has, the merge being done.
///
/// Files with the same bytes are skipped and the decider is not asked.
/// Otherwise the decider is asked once, with the merged bytes if there are
/// any, and the plan is `existing_plan` of its answer.
pub fn decide_existing<D: ExistingFileDecider>(
    rel_path: &str,
    dest_path: &str,
    src_bytes: &[u8],
    dest_bytes: &[u8],
    merge_bytes: Option<Vec<u8>>,
    options: &ApplyOptions,
    decider: &mut D,
) -> (plan: FilePlan)
    ensures
        src_bytes@ == dest_bytes@ ==> plan@ == skip_plan() && *final(decider) == *old(decider),
        src_bytes@ != dest_bytes@ ==> exists|action: ExistingFileAction|
            #![auto]
            old(decider).answers(
                conflict(*options, rel_path@, dest_path@, src_bytes@, dest_bytes@, bytes_view(merge_bytes)),
                action,
            ) && plan@ == existing_plan(
                src_bytes@,
                dest_bytes@,
                bytes_view(merge_bytes),
                action,
                options.dry_run,
            ),
{
    if bytes_eq(src_bytes, dest_bytes) {
        return FilePlan { outcome: Outcome::Skipped, write: FileWrite::Nothing };
    }
    let ctx = ExistingFileDecisionContext {
        template_name: match &options.template_name {
            Some(n) => Some(n.as_str()),
            None => None,
        },
        template_index: options.template_index,
        rel_path,
        dest_path,
        src_bytes,
        dest_bytes,
        merge_bytes: match &merge_bytes {
            Some(m) => Some(m.as_slice()),
            None => None,
        },
    };
    assert(ctx@ == conflict(
        *options,
        rel_path@,
        dest_path@,
        src_bytes@,
        dest_bytes@,
        bytes_view(merge_bytes),
    ));
    let action = decider.decide(ctx);
    let plan = match resolve_action(action, src_bytes, merge_bytes) {
        None => FilePlan { outcome: Outcome::Skipped, write: FileWrite::Nothing },
        Some(out) => {
            if bytes_eq(out.as_slice(), dest_bytes) {
                FilePlan { outcome: Outcome::Skipped, write: FileWrite::Nothing }
            } else if options.dry_run {
                FilePlan { outcome: Outcome::Updated, write: FileWrite::Nothing }
            } else {
                FilePlan { outcome: Outcome::Updated, write: FileWrite::Replace(out) }
            }
        },
    };
    assert(plan@ == existing_plan(
        src_bytes@,
        dest_bytes@,
        bytes_view(merge_bytes),
        action,
        options.dry_run,
    ));
    plan
}

/// Plans a file that the destination has.
///
/// Files with the same bytes are skipped: no merge is made and the decider
/// is not asked. Otherwise the files are merged as their path says, the
/// decider is asked once, and the plan is `existing_plan` of its answer.
pub fn apply_existing_file<D: ExistingFileDecider>(
    rel_path: &str,
    dest_path: &str,
    src_bytes: &[u8],
    dest_bytes: &[u8],
    options: &ApplyOptions,
    decider: &mut D,
) -> (plan: FilePlan)
    ensures
        src_bytes@ == dest_bytes@ ==> plan@ == skip_plan() && *final(decider) == *old(decider),
        src_bytes@ != dest_bytes@ ==> exists|merge: Option<Seq<u8>>, action: ExistingFileAction|
            #![auto]
            merge_allows(rel_path@, dest_bytes@, src_bytes@, merge) && old(decider).answers(
                conflict(*options, rel_path@, dest_path@, src_bytes@, dest_bytes@, merge),
                action,
            ) && plan@ == existing_plan(src_bytes@, dest_bytes@, merge, action, options.dry_run),
{
    if bytes_eq(src_bytes, dest_bytes) {
        return FilePlan { outcome: Outcome::Skipped, write: FileWrite::Nothing };
    }
    let merge_bytes = merge_file(rel_path, dest_bytes, src_bytes);
    let ghost merge = bytes_view(merge_bytes);
    let plan = decide_existing(
        rel_path,
        dest_path,
        src_bytes,
        dest_bytes,
        merge_bytes,
        options,
        decider,
    );
    proof {
        let action = choose|action: ExistingFileAction|
            #![auto]
            old(decider).answers(
                conflict(*options, rel_path@, dest_path@, src_bytes@, dest_bytes@, merge),
                action,
            ) && plan@ == existing_plan(src_bytes@, dest_bytes@, merge, action, options.dry_run);
        assert(merge_allows(rel_path@, dest_bytes@, src_bytes@, merge) && old(decider).answers(
            conflict(*options, rel_path@, dest_path@, src_bytes@, dest_bytes@, merge),
            action,
        ) && plan@ == existing_plan(src_bytes@, dest_bytes@, merge, action, options.dry_run));
    }
    plan
}

/// Plans a file that the destination does not have: it is created, by a
/// copy of the template file unless the run is a dry run.
pub fn apply_new_file(options: &ApplyOptions) -> (plan: FilePlan)
    ensures
        plan@ == new_plan(options.dry_run),
{
    if options.dry_run {
        FilePlan { outcome: Outcome::Created, write: FileWrite::Nothing }
    } else {
        FilePlan { outcome: Outcome::Created, write: FileWrite::Copy }
    }
}

/// What to do with a generated file before the destination is looked at.
#[derive(Clone, Copy, Debug, PartialEq, Eq, Structural)]
pub enum GeneratedStep {
    /// The path is empty: nothing is done and nothing is counted.
    Nothing,
    /// The always-ignore rules match the path.
    Ignore,
    /// Go on with the destination.
    Apply,
}

/// The step for a generated file, before the oracle is asked: the
/// always-ignore rules come first.
pub open spec fn generated_step(rel: Seq<char>) -> GeneratedStep {
    if rel.len() == 0 {
        GeneratedStep::Nothing
    } else if always_ignored(rel) {
        GeneratedStep::Ignore
    } else {
        GeneratedStep::Apply
    }
}

/// Says whether a generated file at this path is passed over, ignored, or
/// applied if the oracle does not ignore it.
pub fn plan_generated(rel_path: &str) -> (step: GeneratedStep)
    ensures
        step == generated_step(rel_path@),
{
    if rel_path.is_empty() {
        GeneratedStep::Nothing
    } else if should_always_ignore(rel_path) {
        GeneratedStep::Ignore
    } else {
        GeneratedStep::Apply
    }
}

/// Whether the oracle's answer holds the path of a generated file.
pub fn generated_is_ignored(rel_path: &str, ignored: &Vec<String>) -> (r: bool)
    ensures
        r == strings(ignored@).contains(git_rel(rel_path@, false)),
{
    let query = format_git_rel(rel_path, false);
    holds_string(ignored, &query)
}

/// The plan for generated content where the destination has a file with
/// other content: only `Overwrite` writes; a merge is not on offer, so
/// `Merge` skips as `Skip` does.
pub open spec fn generated_existing_plan(
    contents: Seq<u8>,
    action: ExistingFileAction,
    dry_run: bool,
) -> PlanView {
    match action {
        ExistingFileAction::Overwrite => PlanView {
            outcome: Outcome::Updated,
            write: if dry_run {
                WriteView::Nothing
            } else {
                WriteView::Replace(contents)
            },
        },
        _ => skip_plan(),
    }
}

/// The plan for generated content where the destination has no such file.
pub open spec fn generated_new_plan(contents: Seq<u8>, dry_run: bool) -> PlanView {
    PlanView {
        outcome: Outcome::Created,
        write: if dry_run {
            WriteView::Nothing
        } else {
            WriteView::Create(contents)
        },
    }
}

/// Plans a generated file, its path being neither empty nor ignored.
///
/// Without a file at the destination the content is created. A file with
/// the same bytes is skipped and the decider is not asked. Otherwise the
/// decider is asked once, without merged bytes, and the plan is
/// `generated_existing_plan` of its answer.
pub fn decide_generated<D: ExistingFileDecider>(
    rel_path: &str,
    dest_path: &str,
    contents: &[u8],
    dest_bytes: Option<&[u8]>,
    options: &ApplyOptions,
    decider: &mut D,
) -> (plan: FilePlan)
    ensures
        dest_bytes is None ==> plan@ == generated_new_plan(contents@, options.dry_run)
            && *final(decider) == *old(decider),
        dest_bytes matches Some(d) && d@ == contents@ ==> plan@ == skip_plan() && *final(decider)
            == *old(decider),
        dest_bytes is Some && dest_bytes->0@ != contents@ ==> exists|action: ExistingFileAction|
            #![auto]
            old(decider).answers(
                conflict(*options, rel_path@, dest_path@, contents@, dest_bytes->0@, None),
                action,
            ) && plan@ == generated_existing_plan(contents@, action, options.dry_run),
{
    let dest = match dest_bytes {
        None => {
            return if options.dry_run {
                FilePlan { outcome: Outcome::Created, write: FileWrite::Nothing }
            } else {
                FilePlan { outcome: Outcome::Created, write: FileWrite::Create(slice_to_vec(contents)) }
            };
        },
        Some(d) => d,
    };
    if bytes_eq(dest, contents) {
        return FilePlan { outcome: Outcome::Skipped, write: FileWrite::Nothing };
    }
    let ctx = ExistingFileDecisionContext {
        template_name: match &options.template_name {
            Some(n) => Some(n.as_str()),
            None => None,
        },
        template_index: options.template_index,
        rel_path,
        dest_path,
        src_bytes: contents,
        dest_bytes: dest,
        merge_bytes: None,
    };
    assert(ctx@ == conflict(*options, rel_path@, dest_path@, contents@, dest@, None));
    let action = decider.decide(ctx);
    let plan = match action {
        ExistingFileAction::Overwrite => {
            if options.dry_run {
                FilePlan { outcome: Outcome::Updated, write: FileWrite::Nothing }
            } else {
                FilePlan {
                    outcome: Outcome::Updated,
                    write: FileWrite::Replace(slice_to_vec(contents)),
                }
            }
        },
        _ => FilePlan { outcome: Outcome::Skipped, write: FileWrite::Nothing },
    };
    assert(plan@ == generated_existing_plan(contents@, action, options.dry_run));
    plan
}

/// Ignore precedence. A path that the always-ignore rules match is ignored
/// whatever it is on disk and whatever the oracle says of it, and so is a
/// path that the oracle reports: neither reaches a merge or the decider.
pub proof fn law_ignored_is_never_applied(rel: Seq<char>, kind: EntryKind, ignored: Seq<Seq<char>>)
    requires
        rel.len() > 0,
    ensures
        always_ignored(rel) ==> step_of(rel, kind, ignored) == EntryStep::Ignore,
        always_ignored(rel) ==> generated_step(rel) == GeneratedStep::Ignore,
        ignored.contains(git_rel(rel, kind == EntryKind::Dir)) ==> step_of(rel, kind, ignored)
            == EntryStep::Ignore,
{
}

/// No-op detection. Where the bytes that the chosen action asks to write
/// are the destination's own, the file counts as skipped and nothing is
/// written, whatever the action; a file counts as updated only where the
/// bytes to write differ from the destination's.
pub proof fn law_no_op_is_skipped(
    src: Seq<u8>,
    dest: Seq<u8>,
    merge: Option<Seq<u8>>,
    action: ExistingFileAction,
    dry_run: bool,
)
    ensures
        resolved(action, src, merge) == Some(dest) ==> existing_plan(
            src,
            dest,
            merge,
            action,
            dry_run,
        ) == skip_plan(),
        existing_plan(src, dest, merge, action, dry_run).outcome == Outcome::Updated ==> resolved(
            action,
            src,
            merge,
        ) is Some && resolved(action, src, merge)->0 != dest,
        existing_plan(src, dest, merge, action, dry_run).write matches WriteView::Replace(out)
            ==> out != dest,
{
}

/// Dry-run purity. A dry run counts every file as the real run does and
/// writes nothing.
pub proof fn law_dry_run_counts_alike(
    src: Seq<u8>,
    dest: Seq<u8>,
    merge: Option<Seq<u8>>,
    action: ExistingFileAction,
)
    ensures
        existing_plan(src, dest, merge, action, true).outcome == existing_plan(
            src,
            dest,
            merge,
            action,
            false,
        ).outcome,
        existing_plan(src, dest, merge, action, true).write == WriteView::Nothing,
        new_plan(true).outcome == new_plan(false).outcome,
        new_plan(true).write == WriteView::Nothing,
        generated_existing_plan(src, action, true).outcome == generated_existing_plan(
            src,
            action,
            false,
        ).outcome,
        generated_existing_plan(src, action, true).write == WriteView::Nothing,
        generated_new_plan(src, true).outcome == generated_new_plan(src, false).outcome,
        generated_new_plan(src, true).write == WriteView::Nothing,
{
}

/// The plan of a template file against a destination that may or may not
/// hold the file, the decider answering `action`.
pub open spec fn file_plan(
    src: Seq<u8>,
    dest: Option<Seq<u8>>,
    merge: Option<Seq<u8>>,
    action: ExistingFileAction,
    dry_run: bool,
) -> PlanView {
    match dest {
        None => new_plan(dry_run),
        Some(d) => if src == d {
            skip_plan()
        } else {
            existing_plan(src, d, merge, action, dry_run)
        },
    }
}

/// Idempotence. After a file has been applied with the answer `Overwrite`
/// and the plan carried out, the destination holds the template's bytes, so
/// that applying the same file again skips it, whatever the decider and the
/// merge would say.
pub proof fn law_overwrite_twice_skips(
    src: Seq<u8>,
    dest: Option<Seq<u8>>,
    merge: Option<Seq<u8>>,
    merge_again: Option<Seq<u8>>,
    action_again: ExistingFileAction,
    dry_run_again: bool,
)
    ensures
        content_after(file_plan(src, dest, merge, ExistingFileAction::Overwrite, false), src, dest)
            == Some(src),
        file_plan(
            src,
            content_after(
                file_plan(src, dest, merge, ExistingFileAction::Overwrite, false),
                src,
                dest,
            ),
            merge_again,
            action_again,
            dry_run_again,
        ) == skip_plan(),
{
}

/// How many of the outcomes are `outcome`.
pub open spec fn tally(outcomes: Seq<Outcome>, outcome: Outcome) -> nat
    decreases outcomes.len(),
{
    if outcomes.len() == 0 {
        0
    } else {
        tally(outcomes.drop_last(), outcome) + if outcomes.last() == outcome {
            1nat
        } else {
            0nat
        }
    }
}

/// The outcomes of applying the files of a template a second time, after a
/// first application that answered `Overwrite` for each and was carried
/// out. File `i` has the bytes `srcs[i]`; the destination held `dests[i]`
/// before the first application.
pub open spec fn outcomes_again(
    srcs: Seq<Seq<u8>>,
    dests: Seq<Option<Seq<u8>>>,
    merges: Seq<Option<Seq<u8>>>,
    merges_again: Seq<Option<Seq<u8>>>,
    actions_again: Seq<ExistingFileAction>,
    dry_run_again: bool,
) -> Seq<Outcome> {
    Seq::new(
        srcs.len(),
        |i: int|
            file_plan(
                srcs[i],
                content_after(
                    file_plan(srcs[i], dests[i], merges[i], ExistingFileAction::Overwrite, false),
                    srcs[i],
                    dests[i],
                ),
                merges_again[i],
                actions_again[i],
                dry_run_again,
            ).outcome,
    )
}

proof fn lemma_tally_of_skipped(outcomes: Seq<Outcome>)
    requires
        forall|i: int| 0 <= i < outcomes.len() ==> outcomes[i] == Outcome::Skipped,
    ensures
        tally(outcomes, Outcome::Created) == 0,
        tally(outcomes, Outcome::Updated) == 0,
        tally(outcomes, Outcome::Skipped) == outcomes.len(),
    decreases outcomes.len(),
{
    if outcomes.len() > 0 {
        lemma_tally_of_skipped(outcomes.drop_last());
    }
}

/// Idempotence of a run. A second application of the same files, after a
/// first with the answer `Overwrite`, creates and updates nothing: every
/// file is skipped.
pub proof fn law_second_run_changes_nothing(
    srcs: Seq<Seq<u8>>,
    dests: Seq<Option<Seq<u8>>>,
    merges: Seq<Option<Seq<u8>>>,
    merges_again: Seq<Option<Seq<u8>>>,
    actions_again: Seq<ExistingFileAction>,
    dry_run_again: bool,
)
    ensures
        tally(
            outcomes_again(srcs, dests, merges, merges_again, actions_again, dry_run_again),
            Outcome::Created,
        ) == 0,
        tally(
            outcomes_again(srcs, dests, merges, merges_again, actions_again, dry_run_again),
            Outcome::Updated,
        ) == 0,
        tally(
            outcomes_again(srcs, dests, merges, merges_again, actions_again, dry_run_again),
            Outcome::Skipped,
        ) == srcs.len(),
{
    let again = outcomes_again(srcs, dests, merges, merges_again, actions_again, dry_run_again);
    assert forall|i: int| 0 <= i < again.len() implies again[i] == Outcome::Skipped by {
        law_overwrite_twice_skips(
            srcs[i],
            dests[i],
            merges[i],
            merges_again[i],
            actions_again[i],
            dry_run_again,
        );
    }
    lemma_tally_of_skipped(again);
}

/// The outcomes of applying the files of one template directory. File `i`
/// has the bytes `srcs[i]`, the destination holds `dests[i]` at its path,
/// the merge gives `merges[i]` and the decider answers `actions[i]`.
pub open spec fn run_outcomes(
    srcs: Seq<Seq<u8>>,
    dests: Seq<Option<Seq<u8>>>,
    merges: Seq<Option<Seq<u8>>>,
    actions: Seq<ExistingFileAction>,
    dry_run: bool,
) -> Seq<Outcome> {
    Seq::new(
        srcs.len(),
        |i: int| file_plan(srcs[i], dests[i], merges[i], actions[i], dry_run).outcome,
    )
}

/// Dry-run purity of a run. The tree is planned before anything is written
/// and without regard to the kind of run, so that a dry run and a real run
/// apply the same files. Against the same destination, with the same
/// answers of the decider, the dry run gives the outcomes of the real run,
/// file by file, so that the two reports agree; and it writes no file.
pub proof fn law_dry_run_reports_alike(
    srcs: Seq<Seq<u8>>,
    dests: Seq<Option<Seq<u8>>>,
    merges: Seq<Option<Seq<u8>>>,
    actions: Seq<ExistingFileAction>,
)
    ensures
        run_outcomes(srcs, dests, merges, actions, true) == run_outcomes(
            srcs,
            dests,
            merges,
            actions,
            false,
        ),
        forall|i: int|
            0 <= i < srcs.len() ==> (#[trigger] file_plan(
                srcs[i],
                dests[i],
                merges[i],
                actions[i],
                true,
            )).write == WriteView::Nothing,
{
    assert(run_outcomes(srcs, dests, merges, actions, true) =~= run_outcomes(
        srcs,
        dests,
        merges,
        actions,
        false,
    ));
}

} // verus!
