//! The ignore policy: paths that are never applied, and the questions to
//! and answers of the destination's ignore oracle.

use crate::apply::{strings, ApplyError, EntryKind};
use crate::chars;
use crate::namemap::{lemma_lex_total, lemma_lex_trans, less, lex_lt};
use crate::relpath;
use crate::text;
use vstd::prelude::*;

verus! {

/// A path that is never applied: one whose file name is `.DS_Store`, and
/// one whose first name is `.git`.
pub open spec fn always_ignored(rel: Seq<char>) -> bool {
    relpath::file_name(rel) == Some(".DS_Store"@) || (!relpath::is_absolute(rel)
        && relpath::first_name_is(rel, ".git"@))
}

/// The path as the oracle is asked about it: with `/` for every `\`, and
/// with a `/` at the end of a directory.
pub open spec fn git_rel(rel: Seq<char>, is_dir: bool) -> Seq<char> {
    let s = text::replace_char(rel, '\\', '/');
    if is_dir && !(s.len() > 0 && s.last() == '/') {
        s.push('/')
    } else {
        s
    }
}

/// Whether a path below the template's root is never applied.
pub fn should_always_ignore(rel: &str) -> (r: bool)
    ensures
        r == always_ignored(rel@),
{
    let path = chars::from_str(rel);
    let ds = match relpath::path_file_name(&path) {
        Some(n) => chars::eq_str(&n, ".DS_Store"),
        None => false,
    };
    if ds {
        return true;
    }
    !relpath::path_is_absolute(&path) && relpath::path_first_name_is(&path, ".git")
}

/// The path as the oracle is asked about it.
pub fn format_git_rel(rel: &str, is_dir: bool) -> (r: String)
    ensures
        r@ == git_rel(rel@, is_dir),
{
    let path = chars::from_str(rel);
    let mut s = chars::replace_char(&path, '\\', '/');
    let n = s.len();
    if is_dir && !(n > 0 && s[n - 1] == '/') {
        s.push('/');
    }
    chars::to_string(&s)
}

/// An entry of a template directory: its path below the template's root and
/// what it is on disk.
#[derive(Debug)]
pub struct TemplateEntry {
    pub rel: String,
    pub kind: EntryKind,
}

/// The questions to the oracle for the entries of one directory, in their
/// order: one for each entry with a path.
pub open spec fn queries_of(entries: Seq<TemplateEntry>) -> Seq<Seq<char>>
    decreases entries.len(),
{
    if entries.len() == 0 {
        Seq::empty()
    } else {
        let rest = queries_of(entries.drop_last());
        let e = entries.last();
        if e.rel@.len() == 0 {
            rest
        } else {
            rest.push(git_rel(e.rel@, e.kind == EntryKind::Dir))
        }
    }
}

/// The questions to the oracle for one directory of the template. The
/// oracle is asked once for the whole directory.
pub fn ignore_queries(entries: &Vec<TemplateEntry>) -> (r: Vec<String>)
    ensures
        strings(r@) == queries_of(entries@),
{
    let mut out: Vec<String> = Vec::new();
    let mut i: usize = 0;
    while i < entries.len()
        invariant
            i <= entries.len(),
            strings(out@) == queries_of(entries@.take(i as int)),
        decreases entries.len() - i,
    {
        assert(entries@.take(i + 1).drop_last() =~= entries@.take(i as int));
        assert(entries@.take(i + 1).last() == entries@[i as int]);
        let e = &entries[i];
        if !e.rel.as_str().is_empty() {
            let ghost before = strings(out@);
            let q = format_git_rel(e.rel.as_str(), e.kind == EntryKind::Dir);
            out.push(q);
            assert(strings(out@) =~= before.push(q@));
        }
        i += 1;
    }
    assert(entries@.take(entries.len() as int) =~= entries@);
    out
}

/// The path that a line of the oracle's answer reports as ignored. A line
/// holds what matched, a tab, and the path; a line that starts with `::`
/// reports a path that nothing matched.
pub open spec fn ignored_of_line(line: Seq<char>) -> Option<Seq<char>> {
    match text::split_once(line, '\t') {
        None => None,
        Some((left, path)) => if text::starts_with(left, "::"@) {
            None
        } else {
            Some(path)
        },
    }
}

/// The paths that the lines report as ignored, in their order.
pub open spec fn ignored_of_lines(ls: Seq<Seq<char>>) -> Seq<Seq<char>>
    decreases ls.len(),
{
    if ls.len() == 0 {
        Seq::empty()
    } else {
        match ignored_of_line(ls.last()) {
            Some(p) => ignored_of_lines(ls.drop_last()).push(p),
            None => ignored_of_lines(ls.drop_last()),
        }
    }
}

/// The exit status of the oracle as a number: 1 where it has given none.
pub open spec fn status_of(code: Option<i32>) -> i32 {
    match code {
        Some(c) => c,
        None => 1,
    }
}

/// The oracle has failed where it did not succeed and its status is not 1,
/// the status that says that no path is ignored.
pub open spec fn oracle_failed(success: bool, code: Option<i32>) -> bool {
    !success && status_of(code) != 1
}

fn ignored_path(line: &Vec<char>) -> (r: Option<Vec<char>>)
    ensures
        match r {
            Some(p) => ignored_of_line(line@) == Some(p@),
            None => ignored_of_line(line@) is None,
        },
{
    match chars::split_once(line, '\t') {
        None => None,
        Some((left, path)) => {
            let marker = chars::from_str("::");
            if chars::starts_with(&left, &marker) {
                None
            } else {
                Some(path)
            }
        },
    }
}

/// The paths that the oracle's output reports as ignored, in their order.
pub fn ignored_in_output(output: &Vec<char>) -> (paths: Vec<String>)
    ensures
        strings(paths@) == ignored_of_lines(text::lines(output@)),
{
    let ls = chars::lines(output);
    let ghost all = text::views(ls@);
    let mut paths: Vec<String> = Vec::new();
    let mut i: usize = 0;
    while i < ls.len()
        invariant
            i <= ls.len(),
            all == text::views(ls@),
            strings(paths@) == ignored_of_lines(all.take(i as int)),
        decreases ls.len() - i,
    {
        assert(all.take(i + 1).drop_last() =~= all.take(i as int));
        assert(all.take(i + 1).last() == ls@[i as int]@);
        match ignored_path(&ls[i]) {
            Some(p) => {
                let ghost before = strings(paths@);
                let ps = chars::to_string(&p);
                paths.push(ps);
                assert(strings(paths@) =~= before.push(p@));
            },
            None => {},
        }
        i += 1;
    }
    assert(all.take(ls.len() as int) =~= all);
    paths
}

/// Reads the answer of the ignore oracle.
///
/// A failed oracle gives the error with its command, status and error
/// output. Otherwise the result holds the paths that the output reports as
/// ignored.
pub fn ignored_set(success: bool, code: Option<i32>, stdout: &[u8], stderr: &[u8]) -> (r: Result<
    Vec<String>,
    ApplyError,
>)
    ensures
        match r {
            Ok(paths) => !oracle_failed(success, code) && strings(paths@) == ignored_of_lines(
                text::lines(text::lossy_text(stdout@)),
            ),
            Err(ApplyError::GitIgnoreFailed { cmd, status, stderr: message }) => oracle_failed(
                success,
                code,
            ) && cmd@ == "git check-ignore --stdin --verbose --non-matching"@ && status
                == status_of(code) && message@ == text::trim(text::lossy_text(stderr@)),
            Err(_) => false,
        },
{
    let status = match code {
        Some(c) => c,
        None => 1,
    };
    if !success && status != 1 {
        let message = chars::trim(&chars::decode_lossy(stderr));
        return Err(
            ApplyError::GitIgnoreFailed {
                cmd: "git check-ignore --stdin --verbose --non-matching".to_owned(),
                status,
                stderr: chars::to_string(&message),
            },
        );
    }
    Ok(ignored_in_output(&chars::decode_lossy(stdout)))
}

/// Whether the oracle is asked for a destination, by what the destination
/// was before the run: only a directory that was there can hold ignore
/// rules. A destination that the run is to create goes without the oracle,
/// in a dry run as in a real one.
pub fn oracle_is_asked(found: Option<EntryKind>) -> (r: bool)
    ensures
        r == (found == Some(EntryKind::Dir)),
{
    match found {
        Some(EntryKind::Dir) => true,
        _ => false,
    }
}

/// Whether the destination lies in a work tree: the probe succeeded and
/// printed `true`.
pub fn worktree_detected(success: bool, stdout: &[u8]) -> (r: bool)
    ensures
        r == (success && text::trim(text::lossy_text(stdout@)) == "true"@),
{
    if !success {
        return false;
    }
    let out = chars::trim(&chars::decode_lossy(stdout));
    chars::eq_str(&out, "true")
}

/// The entries as pairs of path and kind.
pub open spec fn entry_views(entries: Seq<TemplateEntry>) -> Seq<(Seq<char>, EntryKind)> {
    entries.map_values(|e: TemplateEntry| (e.rel@, e.kind))
}

/// `x` put behind the last entry of `s` whose path does not come after its
/// own.
pub open spec fn insert_by_path(
    s: Seq<(Seq<char>, EntryKind)>,
    x: (Seq<char>, EntryKind),
) -> Seq<(Seq<char>, EntryKind)>
    decreases s.len(),
{
    if s.len() == 0 {
        seq![x]
    } else if !lex_lt(x.0, s.last().0) {
        s.push(x)
    } else {
        insert_by_path(s.drop_last(), x).push(s.last())
    }
}

/// The entries in the order of their paths; entries with one path keep
/// their order.
pub open spec fn sorted_by_path(s: Seq<(Seq<char>, EntryKind)>) -> Seq<(Seq<char>, EntryKind)>
    decreases s.len(),
{
    if s.len() == 0 {
        Seq::empty()
    } else {
        insert_by_path(sorted_by_path(s.drop_last()), s.last())
    }
}

/// No entry comes before one that stands before it.
pub open spec fn in_path_order(s: Seq<(Seq<char>, EntryKind)>) -> bool {
    forall|i: int, j: int| 0 <= i < j < s.len() ==> !lex_lt(s[j].0, s[i].0)
}

/// Inserting into ordered entries gives ordered entries that hold the same
/// and the new one.
pub proof fn lemma_insert_by_path_ordered(s: Seq<(Seq<char>, EntryKind)>, x: (Seq<char>, EntryKind))
    requires
        in_path_order(s),
    ensures
        in_path_order(insert_by_path(s, x)),
        insert_by_path(s, x).len() == s.len() + 1,
        insert_by_path(s, x).to_multiset() == s.to_multiset().insert(x),
        forall|k: int|
            0 <= k < insert_by_path(s, x).len() ==> insert_by_path(s, x)[k] == x || s.contains(
                #[trigger] insert_by_path(s, x)[k],
            ),
    decreases s.len(),
{
    broadcast use vstd::seq_lib::group_to_multiset_ensures;

    let r = insert_by_path(s, x);
    if s.len() == 0 {
        assert(r =~= Seq::<(Seq<char>, EntryKind)>::empty().push(x));
    } else if !lex_lt(x.0, s.last().0) {
        assert forall|i: int, j: int| 0 <= i < j < r.len() implies !lex_lt(r[j].0, r[i].0) by {
            if j == s.len() && i < s.len() - 1 {
                // x is not before the last, and the last is not before s[i].
                assert(!lex_lt(s[s.len() - 1].0, s[i].0));
                if lex_lt(x.0, s[i].0) {
                    lemma_lex_total(s.last().0, x.0);
                    if lex_lt(s.last().0, x.0) {
                        lemma_lex_trans(s.last().0, x.0, s[i].0);
                    }
                }
            }
        }
        assert forall|k: int| 0 <= k < r.len() implies r[k] == x || s.contains(#[trigger] r[k]) by {
            if k < s.len() {
                assert(s[k] == r[k]);
            }
        }
    } else {
        let t = s.drop_last();
        assert forall|i: int, j: int| 0 <= i < j < t.len() implies !lex_lt(t[j].0, t[i].0) by {
            assert(t[i] == s[i] && t[j] == s[j]);
        }
        lemma_insert_by_path_ordered(t, x);
        let u = insert_by_path(t, x);
        assert(r =~= u.push(s.last()));
        assert(s =~= t.push(s.last()));
        assert forall|i: int, j: int| 0 <= i < j < r.len() implies !lex_lt(r[j].0, r[i].0) by {
            if j == u.len() {
                if u[i] == x {
                    lemma_lex_total(x.0, s.last().0);
                } else {
                    assert(t.contains(u[i]));
                    let m = choose|m: int| 0 <= m < t.len() && t[m] == u[i];
                    assert(s[m] == u[i]);
                    assert(!lex_lt(s[s.len() - 1].0, s[m].0));
                }
            }
        }
        assert forall|k: int| 0 <= k < r.len() implies r[k] == x || s.contains(#[trigger] r[k]) by {
            if k < u.len() {
                if u[k] != x {
                    assert(t.contains(u[k]));
                    let m = choose|m: int| 0 <= m < t.len() && t[m] == u[k];
                    assert(s[m] == u[k]);
                }
            } else {
                assert(s[s.len() - 1] == r[k]);
            }
        }
    }
}

/// Sorting gives the same entries, in the order of their paths.
pub proof fn lemma_sorted_by_path(s: Seq<(Seq<char>, EntryKind)>)
    ensures
        in_path_order(sorted_by_path(s)),
        sorted_by_path(s).len() == s.len(),
        sorted_by_path(s).to_multiset() == s.to_multiset(),
    decreases s.len(),
{
    broadcast use vstd::seq_lib::group_to_multiset_ensures;

    if s.len() > 0 {
        lemma_sorted_by_path(s.drop_last());
        lemma_insert_by_path_ordered(sorted_by_path(s.drop_last()), s.last());
        assert(s =~= s.drop_last().push(s.last()));
    }
}

/// The entries of a directory in the order in which they are visited: by
/// their paths, so that a run gives the same result each time.
pub fn sort_entries(entries: Vec<TemplateEntry>) -> (r: Vec<TemplateEntry>)
    ensures
        entry_views(r@) == sorted_by_path(entry_views(entries@)),
        in_path_order(entry_views(r@)),
        entry_views(r@).to_multiset() == entry_views(entries@).to_multiset(),
{
    let ghost all = entry_views(entries@);
    let mut rest = entries;
    let mut out: Vec<TemplateEntry> = Vec::new();
    let ghost mut done: int = 0;
    assert(all.take(0) =~= Seq::<(Seq<char>, EntryKind)>::empty());
    assert(entry_views(out@) =~= Seq::<(Seq<char>, EntryKind)>::empty());
    while rest.len() > 0
        invariant
            0 <= done <= all.len(),
            done + rest@.len() == all.len(),
            entry_views(rest@) == all.skip(done),
            entry_views(out@) == sorted_by_path(all.take(done)),
        decreases rest.len(),
    {
        let ghost rest0 = rest@;
        let e = rest.remove(0);
        let ghost ev = (e.rel@, e.kind);
        proof {
            assert(entry_views(rest0)[0] == (rest0[0].rel@, rest0[0].kind));
            assert(entry_views(rest@) =~= entry_views(rest0).skip(1));
            assert(all.skip(done).skip(1) =~= all.skip(done + 1));
            assert(ev == all.skip(done)[0]);
            assert(ev == all[done]);
            assert(all.take(done + 1).drop_last() =~= all.take(done));
            assert(all.take(done + 1).last() == ev);
            assert(entry_views(rest@) =~= all.skip(done + 1));
        }
        let ghost ov = entry_views(out@);
        let key = chars::from_str(e.rel.as_str());
        let mut p: usize = out.len();
        assert(ov.take(p as int) =~= ov);
        assert(insert_by_path(ov, ev) =~= insert_by_path(ov.take(p as int), ev) + ov.skip(p as int));
        while p > 0 && before(&key, &out[p - 1].rel)
            invariant
                p <= out.len(),
                ov == entry_views(out@),
                key@ == ev.0,
                insert_by_path(ov, ev) == insert_by_path(ov.take(p as int), ev) + ov.skip(p as int),
            decreases p,
        {
            assert(ov[p - 1] == (out@[p - 1].rel@, out@[p - 1].kind));
            assert(ov.take(p as int).drop_last() =~= ov.take(p - 1));
            assert(ov.take(p as int).last() == ov[p - 1]);
            assert(insert_by_path(ov.take(p - 1), ev).push(ov[p - 1]) + ov.skip(p as int)
                =~= insert_by_path(ov.take(p - 1), ev) + ov.skip(p - 1));
            p -= 1;
        }
        proof {
            if p > 0 {
                assert(ov[p - 1] == (out@[p - 1].rel@, out@[p - 1].kind));
                assert(ov.take(p as int).last() == ov[p - 1]);
            }
            assert(insert_by_path(ov.take(p as int), ev) =~= ov.take(p as int).push(ev));
        }
        out.insert(p, e);
        proof {
            assert(entry_views(out@) =~= ov.take(p as int).push(ev) + ov.skip(p as int));
            done = done + 1;
        }
    }
    proof {
        assert(all.take(all.len() as int) =~= all);
        lemma_sorted_by_path(all);
    }
    out
}

fn before(key: &Vec<char>, other: &String) -> (r: bool)
    ensures
        r == lex_lt(key@, other@),
{
    less(key, &chars::from_str(other.as_str()))
}

} // verus!
