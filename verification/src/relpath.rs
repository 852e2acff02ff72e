//! Relative paths as text, with `/` between the names.

use crate::chars;
use crate::text;
use vstd::prelude::*;

verus! {

/// A piece between two `/` that names nothing: the empty piece and `.`.
pub open spec fn is_skipped_piece(p: Seq<char>) -> bool {
    p.len() == 0 || p == seq!['.']
}

/// The last piece that names something, unless it is `..`.
pub open spec fn last_name(pieces: Seq<Seq<char>>) -> Option<Seq<char>>
    decreases pieces.len(),
{
    if pieces.len() == 0 {
        None
    } else if is_skipped_piece(pieces.last()) {
        last_name(pieces.drop_last())
    } else if pieces.last() == seq!['.', '.'] {
        None
    } else {
        Some(pieces.last())
    }
}

/// The final name of a path, if it ends in one.
pub open spec fn file_name(path: Seq<char>) -> Option<Seq<char>> {
    last_name(text::split_char(path, '/'))
}

/// What follows the last `.` of a file name, unless that `.` is its first
/// character.
pub open spec fn name_extension(name: Seq<char>) -> Option<Seq<char>> {
    let d = text::rfind_char(name, '.', name.len() as int);
    if d <= 0 {
        None
    } else {
        Some(name.skip(d + 1))
    }
}

/// The extension of the final name of a path.
pub open spec fn extension(path: Seq<char>) -> Option<Seq<char>> {
    match file_name(path) {
        Some(name) => name_extension(name),
        None => None,
    }
}

/// Whether the path is relative and its first name is `name`.
pub open spec fn first_name_is(path: Seq<char>, name: Seq<char>) -> bool {
    text::split_char(path, '/')[0] == name
}

/// A path that starts at the root.
pub open spec fn is_absolute(path: Seq<char>) -> bool {
    path.len() > 0 && path[0] == '/'
}

/// The last name of a path, if it ends in one.
pub fn path_file_name(path: &Vec<char>) -> (r: Option<Vec<char>>)
    ensures
        match r {
            Some(n) => file_name(path@) == Some(n@),
            None => file_name(path@) is None,
        },
{
    let pieces = chars::split_char(path, '/');
    let ghost all = text::views(pieces@);
    let mut i: usize = pieces.len();
    assert(all.take(i as int) =~= all);
    while i > 0
        invariant
            i <= pieces.len(),
            all == text::views(pieces@),
            all == text::split_char(path@, '/'),
            last_name(all) == last_name(all.take(i as int)),
        decreases i,
    {
        let p = &pieces[i - 1];
        assert(all.take(i as int).last() == p@);
        assert(all.take(i as int).drop_last() =~= all.take(i - 1));
        if p.len() == 0 || (p.len() == 1 && p[0] == '.') {
            assert(p.len() == 1 && p[0] == '.' ==> p@ =~= seq!['.']);
            i -= 1;
        } else {
            assert(!(p@ =~= seq!['.']));
            if p.len() == 2 && p[0] == '.' && p[1] == '.' {
                assert(p@ =~= seq!['.', '.']);
                return None;
            }
            assert(!(p@ =~= seq!['.', '.']));
            return Some(chars::clone(p));
        }
    }
    None
}

/// The extension of the path's file name, without its dot.
pub fn path_extension(path: &Vec<char>) -> (r: Option<Vec<char>>)
    ensures
        match r {
            Some(e) => extension(path@) == Some(e@),
            None => extension(path@) is None,
        },
{
    match path_file_name(path) {
        None => None,
        Some(name) => {
            match chars::rfind_char(&name, '.', name.len()) {
                None => None,
                Some(d) => {
                    if d == 0 {
                        None
                    } else {
                        let e = chars::slice(&name, d + 1, name.len());
                        assert(e@ =~= name@.skip(d + 1));
                        Some(e)
                    }
                },
            }
        },
    }
}

/// Whether the first name of the path is `name`.
pub fn path_first_name_is(path: &Vec<char>, name: &str) -> (r: bool)
    ensures
        r == first_name_is(path@, name@),
{
    let pieces = chars::split_char(path, '/');
    proof {
        lemma_split_char_nonempty(path@, '/');
    }
    assert(text::views(pieces@)[0] == pieces@[0]@);
    chars::eq_str(&pieces[0], name)
}

/// Whether the path starts at the root.
pub fn path_is_absolute(path: &Vec<char>) -> (r: bool)
    ensures
        r == is_absolute(path@),
{
    path.len() > 0 && path[0] == '/'
}

/// A split has at least one piece.
pub proof fn lemma_split_char_nonempty(s: Seq<char>, c: char)
    ensures
        text::split_char(s, c).len() > 0,
{
}

} // verus!
