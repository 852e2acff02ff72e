//! The walk over a template tree.
//!
//! A tree is planned before anything of it is applied. The caller lists one
//! directory at a time and hands its entries in, with the oracle's answer
//! for them; the walk says which directory to list next and keeps what
//! becomes of each path, in the order in which the paths are visited:
//! depth first, a directory's entries in the order given. A link in a
//! directory that is entered ends the walk with an error and without a
//! plan. The plan does not depend on whether the run is a dry run.

use crate::apply::{
    first_symlink, level_steps, plan_level, strings, ApplyError, ApplyErrorView, EntryKind,
    EntryStep,
};
use crate::ignore::{entry_views, TemplateEntry};
use crate::resolve::joined;
use vstd::prelude::*;

verus! {

/// What becomes of a planned path.
#[derive(Clone, Copy, Debug, PartialEq, Eq, Structural)]
pub enum Planned {
    /// The path is counted as ignored.
    Ignored,
    /// The file is applied.
    File,
}

/// A path of the template with what becomes of it.
#[derive(Debug)]
pub struct PlannedPath {
    pub rel: String,
    pub what: Planned,
}

impl View for PlannedPath {
    type V = (Seq<char>, Planned);

    open spec fn view(&self) -> (Seq<char>, Planned) {
        (self.rel@, self.what)
    }
}

/// The planned paths as mathematical values.
pub open spec fn planned_views(paths: Seq<PlannedPath>) -> Seq<(Seq<char>, Planned)> {
    paths.map_values(|p: PlannedPath| p@)
}

/// A directory whose entries the walk is going through: the entries, the
/// step for each, and the index of the entry that comes next.
#[derive(Debug)]
pub struct WalkFrame {
    pub entries: Vec<TemplateEntry>,
    pub steps: Vec<EntryStep>,
    pub next: usize,
}

/// A frame as a mathematical value.
pub ghost struct FrameView {
    pub entries: Seq<(Seq<char>, EntryKind)>,
    pub steps: Seq<EntryStep>,
    pub next: int,
}

impl View for WalkFrame {
    type V = FrameView;

    open spec fn view(&self) -> FrameView {
        FrameView { entries: entry_views(self.entries@), steps: self.steps@, next: self.next as int }
    }
}

/// The frames as mathematical values.
pub open spec fn frame_views(frames: Seq<WalkFrame>) -> Seq<FrameView> {
    frames.map_values(|f: WalkFrame| f@)
}

/// Whether a frame has an entry left.
pub open spec fn has_next(f: FrameView) -> bool {
    0 <= f.next < f.steps.len() && f.next < f.entries.len()
}

/// What the walk asks for next.
#[derive(Debug)]
pub enum WalkNext {
    /// List the directory at this path below the root and enter it.
    List(String),
    /// Every directory has been gone through.
    Done,
}

/// Where a walk stands after it has gone on as far as it can without a
/// listing: its frames, its planned paths, and the directory to list, if
/// the walk is not done.
pub ghost struct WalkView {
    pub stack: Seq<FrameView>,
    pub planned: Seq<(Seq<char>, Planned)>,
    pub list: Option<Seq<char>>,
}

/// Goes through the entries of the innermost directory, and of those
/// around it once it is done, up to the next directory to descend into. An
/// entry to ignore and a file to apply are planned in their order; an entry
/// that is neither is passed over.
pub open spec fn gone_on(stack: Seq<FrameView>, planned: Seq<(Seq<char>, Planned)>) -> WalkView
    decreases
            stack.len(),
            if stack.len() > 0 && has_next(stack.last()) {
                stack.last().steps.len() - stack.last().next
            } else {
                0
            },
{
    if stack.len() == 0 {
        WalkView { stack, planned, list: None }
    } else if !has_next(stack.last()) {
        gone_on(stack.drop_last(), planned)
    } else {
        let top = stack.last();
        let rel = top.entries[top.next].0;
        let rest = stack.drop_last().push(
            FrameView { entries: top.entries, steps: top.steps, next: top.next + 1 },
        );
        match top.steps[top.next] {
            EntryStep::Nothing => gone_on(rest, planned),
            EntryStep::Ignore => gone_on(rest, planned.push((rel, Planned::Ignored))),
            EntryStep::Apply => gone_on(rest, planned.push((rel, Planned::File))),
            EntryStep::Descend => WalkView { stack: rest, planned, list: Some(rel) },
        }
    }
}

/// What is planned stays planned. Going on adds paths behind those that the
/// walk has planned and changes none of them; and it ends either at a
/// directory to list or with no directory left.
pub proof fn law_gone_on_keeps_planned(stack: Seq<FrameView>, planned: Seq<(Seq<char>, Planned)>)
    ensures
        planned.is_prefix_of(gone_on(stack, planned).planned),
        gone_on(stack, planned).list is None ==> gone_on(stack, planned).stack.len() == 0,
        gone_on(stack, planned).stack.len() <= stack.len(),
    decreases
            stack.len(),
            if stack.len() > 0 && has_next(stack.last()) {
                stack.last().steps.len() - stack.last().next
            } else {
                0
            },
{
    if stack.len() == 0 {
    } else if !has_next(stack.last()) {
        law_gone_on_keeps_planned(stack.drop_last(), planned);
    } else {
        let top = stack.last();
        let rel = top.entries[top.next].0;
        let rest = stack.drop_last().push(
            FrameView { entries: top.entries, steps: top.steps, next: top.next + 1 },
        );
        match top.steps[top.next] {
            EntryStep::Nothing => {
                law_gone_on_keeps_planned(rest, planned);
            },
            EntryStep::Ignore => {
                let more = planned.push((rel, Planned::Ignored));
                law_gone_on_keeps_planned(rest, more);
                assert(planned.is_prefix_of(more));
            },
            EntryStep::Apply => {
                let more = planned.push((rel, Planned::File));
                law_gone_on_keeps_planned(rest, more);
                assert(planned.is_prefix_of(more));
            },
            EntryStep::Descend => {},
        }
    }
}

/// A directory as it is handed to the walk: its entries in the order in
/// which they are visited, and the oracle's answer for them.
pub ghost struct LevelView {
    pub entries: Seq<(Seq<char>, EntryKind)>,
    pub ignored: Seq<Seq<char>>,
}

/// Where a walk stands after the directories from index `i` on have been
/// entered one after the other, the walk going on after each. A link in one
/// of them leaves nothing.
pub open spec fn walked(
    stack: Seq<FrameView>,
    planned: Seq<(Seq<char>, Planned)>,
    levels: Seq<LevelView>,
    i: int,
) -> Option<WalkView>
    decreases levels.len() - i,
{
    if i < 0 || i >= levels.len() {
        Some(WalkView { stack, planned, list: None })
    } else if first_symlink(levels[i].entries, 0) < levels[i].entries.len() {
        None
    } else {
        let entered = stack.push(
            FrameView {
                entries: levels[i].entries,
                steps: level_steps(levels[i].entries, levels[i].ignored),
                next: 0,
            },
        );
        walked(
            gone_on(entered, planned).stack,
            gone_on(entered, planned).planned,
            levels,
            i + 1,
        )
    }
}

/// The plan of a tree whose directories are entered in the given order: what
/// the walk has planned once no directory is left; none where a directory
/// holds a link.
pub open spec fn tree_plan(levels: Seq<LevelView>) -> Option<Seq<(Seq<char>, Planned)>> {
    match walked(Seq::empty(), Seq::empty(), levels, 0) {
        Some(w) => if w.stack.len() == 0 {
            Some(w.planned)
        } else {
            None
        },
        None => None,
    }
}

/// A link leaves no plan. Where a directory that the walk enters holds a
/// link, the tree has no plan, whatever was planned before the link was
/// met: nothing of the tree is applied.
pub proof fn law_a_link_leaves_no_plan(levels: Seq<LevelView>, k: int)
    requires
        0 <= k < levels.len(),
        first_symlink(levels[k].entries, 0) < levels[k].entries.len(),
    ensures
        tree_plan(levels) is None,
{
    lemma_walked_to_a_link(Seq::empty(), Seq::empty(), levels, 0, k);
}

proof fn lemma_walked_to_a_link(
    stack: Seq<FrameView>,
    planned: Seq<(Seq<char>, Planned)>,
    levels: Seq<LevelView>,
    i: int,
    k: int,
)
    requires
        0 <= i <= k < levels.len(),
        first_symlink(levels[k].entries, 0) < levels[k].entries.len(),
    ensures
        walked(stack, planned, levels, i) is None,
    decreases k - i,
{
    if i < k && !(first_symlink(levels[i].entries, 0) < levels[i].entries.len()) {
        let entered = stack.push(
            FrameView {
                entries: levels[i].entries,
                steps: level_steps(levels[i].entries, levels[i].ignored),
                next: 0,
            },
        );
        lemma_walked_to_a_link(
            gone_on(entered, planned).stack,
            gone_on(entered, planned).planned,
            levels,
            i + 1,
            k,
        );
    }
}

/// A walk over the tree of a template.
#[derive(Debug)]
pub struct TreeWalk {
    /// The template's root.
    pub root: String,
    /// The directories that are being gone through, the innermost last.
    pub stack: Vec<WalkFrame>,
    /// What has been planned so far, in the order of the walk.
    pub planned: Vec<PlannedPath>,
}

impl TreeWalk {
    /// A walk that has not begun: the caller lists the root and enters it.
    pub fn new(root: String) -> (walk: Self)
        ensures
            walk.root == root,
            walk.stack@.len() == 0,
            walk.planned@.len() == 0,
    {
        TreeWalk { root, stack: Vec::new(), planned: Vec::new() }
    }

    /// Enters a directory: `entries` are its entries in the order in which
    /// they are to be visited, `ignored` is the oracle's answer for them.
    ///
    /// A link among the entries ends the walk: the error names the first,
    /// and the walk is given up with all that it has planned, so that
    /// nothing of a tree with a link in a directory that is entered is
    /// applied. Otherwise the directory becomes the innermost, with the
    /// step for each of its entries.
    pub fn enter(self, entries: Vec<TemplateEntry>, ignored: &Vec<String>) -> (r: Result<
        TreeWalk,
        ApplyError,
    >)
        ensures
            match r {
                Ok(walk) => first_symlink(entry_views(entries@), 0) >= entries@.len() && walk.root
                    == self.root && walk.planned == self.planned && frame_views(walk.stack@)
                    == frame_views(self.stack@).push(
                    FrameView {
                        entries: entry_views(entries@),
                        steps: level_steps(entry_views(entries@), strings(ignored@)),
                        next: 0,
                    },
                ),
                Err(e) => first_symlink(entry_views(entries@), 0) < entries@.len() && e@
                    == ApplyErrorView::SymlinkNotSupported(
                    joined(
                        self.root@,
                        entry_views(entries@)[first_symlink(entry_views(entries@), 0)].0,
                    ),
                ),
            },
    {
        let steps = match plan_level(self.root.as_str(), &entries, ignored) {
            Ok(steps) => steps,
            Err(e) => {
                return Err(e);
            },
        };
        let mut walk = self;
        let ghost before = frame_views(walk.stack@);
        let frame = WalkFrame { entries, steps, next: 0 };
        let ghost fv = frame@;
        walk.stack.push(frame);
        assert(frame_views(walk.stack@) =~= before.push(fv));
        Ok(walk)
    }

    /// Goes on with the walk up to the next directory to list, or to its
    /// end.
    pub fn advance(&mut self) -> (next: WalkNext)
        ensures
            final(self).root == old(self).root,
            gone_on(frame_views(old(self).stack@), planned_views(old(self).planned@)) == (WalkView {
                stack: frame_views(final(self).stack@),
                planned: planned_views(final(self).planned@),
                list: match next {
                    WalkNext::List(rel) => Some(rel@),
                    WalkNext::Done => None,
                },
            }),
    {
        let ghost start = gone_on(
            frame_views(old(self).stack@),
            planned_views(old(self).planned@),
        );
        loop
            invariant
                self.root == old(self).root,
                start == gone_on(
                    frame_views(old(self).stack@),
                    planned_views(old(self).planned@),
                ),
                gone_on(frame_views(self.stack@), planned_views(self.planned@)) == start,
            decreases
                    self.stack@.len(),
                    if self.stack@.len() > 0 && has_next(self.stack@.last()@) {
                        self.stack@.last().steps@.len() - self.stack@.last().next
                    } else {
                        0
                    },
        {
            let ghost stack0 = frame_views(self.stack@);
            let ghost planned0 = planned_views(self.planned@);
            let mut frame = match self.stack.pop() {
                None => {
                    assert(stack0.len() == 0);
                    assert(frame_views(self.stack@) =~= stack0);
                    return WalkNext::Done;
                },
                Some(f) => f,
            };
            assert(stack0.last() == frame@);
            assert(frame_views(self.stack@) =~= stack0.drop_last());
            if frame.next >= frame.steps.len() || frame.next >= frame.entries.len() {
                continue ;
            }
            let ghost top = frame@;
            assert(has_next(top));
            let step = frame.steps[frame.next];
            let rel = frame.entries[frame.next].rel.clone();
            assert(top.entries[top.next].0 == rel@);
            assert(top.steps[top.next] == step);
            frame.next = frame.next + 1;
            let ghost fv = frame@;
            assert(fv == (FrameView { entries: top.entries, steps: top.steps, next: top.next + 1 }));
            let ghost below = frame_views(self.stack@);
            self.stack.push(frame);
            assert(frame_views(self.stack@) =~= stack0.drop_last().push(fv));
            match step {
                EntryStep::Nothing => {},
                EntryStep::Ignore => {
                    self.planned.push(PlannedPath { rel, what: Planned::Ignored });
                    assert(planned_views(self.planned@) =~= planned0.push(
                        (rel@, Planned::Ignored),
                    ));
                },
                EntryStep::Apply => {
                    self.planned.push(PlannedPath { rel, what: Planned::File });
                    assert(planned_views(self.planned@) =~= planned0.push((rel@, Planned::File)));
                },
                EntryStep::Descend => {
                    return WalkNext::List(rel);
                },
            }
        }
    }

    /// The plan of the whole tree, once the walk is done: what becomes of
    /// each path, in the order of the walk. A walk that is not done, or that
    /// a link has ended, has no plan.
    pub fn finish(self) -> (r: Option<Vec<PlannedPath>>)
        ensures
            match r {
                Some(paths) => self.stack@.len() == 0 && paths == self.planned,
                None => self.stack@.len() > 0,
            },
    {
        if self.stack.len() == 0 {
            Some(self.planned)
        } else {
            None
        }
    }
}

} // verus!
