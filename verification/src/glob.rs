//! Glob patterns for paths.
//!
//! A pattern and a path are cut at `/`. In a segment `*` stands for any
//! bytes and `?` for one byte; the segment `**` stands for any number of
//! segments.

use crate::chars;
use crate::text;
use vstd::prelude::*;
use vstd::utf8::encode_utf8;

verus! {

/// The byte `*`.
pub const STAR: u8 = 42;

/// The byte `?`.
pub const QUESTION: u8 = 63;

/// Whether the pattern from index `i` on matches the text from index `j` on.
pub open spec fn matches_from(pat: Seq<u8>, txt: Seq<u8>, i: int, j: int) -> bool
    decreases pat.len() - i, txt.len() - j,
{
    if i < 0 || j < 0 {
        false
    } else if i >= pat.len() {
        j >= txt.len()
    } else if pat[i] == STAR {
        matches_from(pat, txt, i + 1, j) || (j < txt.len() && matches_from(pat, txt, i, j + 1))
    } else if j < txt.len() && (pat[i] == QUESTION || pat[i] == txt[j]) {
        matches_from(pat, txt, i + 1, j + 1)
    } else {
        false
    }
}

/// Whether a pattern segment matches a path segment.
pub open spec fn segment_matches(pat: Seq<u8>, txt: Seq<u8>) -> bool {
    matches_from(pat, txt, 0, 0)
}

/// The segment `**`.
pub open spec fn is_double_star(seg: Seq<u8>) -> bool {
    seg.len() == 2 && seg[0] == STAR && seg[1] == STAR
}

/// Whether the pattern segments from index `i` on match the path segments
/// from index `j` on.
pub open spec fn segments_from(pats: Seq<Seq<u8>>, paths: Seq<Seq<u8>>, i: int, j: int) -> bool
    decreases pats.len() - i, paths.len() - j,
{
    if i < 0 || j < 0 {
        false
    } else if i >= pats.len() {
        j >= paths.len()
    } else if is_double_star(pats[i]) {
        segments_from(pats, paths, i + 1, j) || (j < paths.len() && segments_from(
            pats,
            paths,
            i,
            j + 1,
        ))
    } else if j < paths.len() && segment_matches(pats[i], paths[j]) {
        segments_from(pats, paths, i + 1, j + 1)
    } else {
        false
    }
}

/// Whether the pattern's segments match the path's segments: `**` stands for
/// any number of segments, every other segment for one that it matches.
pub open spec fn segments_match(pats: Seq<Seq<u8>>, paths: Seq<Seq<u8>>) -> bool {
    segments_from(pats, paths, 0, 0)
}

/// The segments of a path: it is cut at `/` after the `/` at its start have
/// been dropped.
pub open spec fn path_segments(path: Seq<char>) -> Seq<Seq<u8>> {
    text::split_char(path.skip(text::skip_char(path, '/', 0)), '/').map_values(
        |p: Seq<char>| encode_utf8(p),
    )
}

/// Whether a glob pattern matches a path. A `\` of the pattern counts as
/// `/`.
pub open spec fn glob_matches(pattern: Seq<char>, path: Seq<char>) -> bool {
    segments_match(path_segments(text::replace_char(pattern, '\\', '/')), path_segments(path))
}

/// The byte sequences of the vectors.
pub open spec fn byte_views(v: Seq<Vec<u8>>) -> Seq<Seq<u8>> {
    v.map_values(|x: Vec<u8>| x@)
}

/// Whether a pattern segment matches a path segment: `*` stands for any
/// bytes, `?` for one byte, every other byte for itself.
pub fn glob_match_segment(pattern: &[u8], text: &[u8]) -> (r: bool)
    ensures
        r == segment_matches(pattern@, text@),
{
    let n = text.len();
    let m = pattern.len();
    // `row[j]` says whether the pattern from `i` on matches the text from
    // `j` on, and `end` says so for the empty rest of the text.
    let mut row: Vec<bool> = Vec::new();
    let mut j: usize = 0;
    while j < n
        invariant
            j <= n,
            n == text@.len(),
            m == pattern@.len(),
            row@.len() == j,
            forall|k: int| 0 <= k < j ==> row@[k] == matches_from(pattern@, text@, m as int, k),
        decreases n - j,
    {
        row.push(false);
        j += 1;
    }
    let mut end: bool = true;
    let mut i: usize = m;
    while i > 0
        invariant
            i <= m,
            n == text@.len(),
            m == pattern@.len(),
            row@.len() == n,
            forall|k: int| 0 <= k < n ==> row@[k] == matches_from(pattern@, text@, i as int, k),
            end == matches_from(pattern@, text@, i as int, n as int),
        decreases i,
    {
        i -= 1;
        let p = pattern[i];
        let star = p == STAR;
        let new_end = star && end;
        let mut next: Vec<bool> = Vec::new();
        let mut f: usize = 0;
        while f < n
            invariant
                f <= n,
                next@.len() == f,
            decreases n - f,
        {
            next.push(false);
            f += 1;
        }
        let mut k: usize = n;
        let mut after: bool = new_end;
        while k > 0
            invariant
                k <= n,
                i < m,
                n == text@.len(),
                m == pattern@.len(),
                p == pattern@[i as int],
                star == (p == STAR),
                row@.len() == n,
                next@.len() == n,
                forall|x: int|
                    0 <= x < n ==> row@[x] == matches_from(pattern@, text@, i as int + 1, x),
                end == matches_from(pattern@, text@, i as int + 1, n as int),
                new_end == matches_from(pattern@, text@, i as int, n as int),
                forall|x: int| k <= x < n ==> next@[x] == matches_from(pattern@, text@, i as int, x),
                after == matches_from(pattern@, text@, i as int, k as int),
            decreases k,
        {
            k -= 1;
            let below = if k + 1 < n {
                row[k + 1]
            } else {
                end
            };
            let value = if star {
                row[k] || after
            } else if p == QUESTION || p == text[k] {
                below
            } else {
                false
            };
            next.set(k, value);
            after = value;
        }
        row = next;
        end = new_end;
    }
    if n == 0 {
        end
    } else {
        row[0]
    }
}

fn double_star(seg: &Vec<u8>) -> (r: bool)
    ensures
        r == is_double_star(seg@),
{
    seg.len() == 2 && seg[0] == STAR && seg[1] == STAR
}

/// Whether the segments of a pattern match the segments of a path.
pub fn glob_match_segments(patterns: &Vec<Vec<u8>>, paths: &Vec<Vec<u8>>) -> (r: bool)
    ensures
        r == segments_match(byte_views(patterns@), byte_views(paths@)),
{
    let ghost ps = byte_views(patterns@);
    let ghost xs = byte_views(paths@);
    let n = paths.len();
    let m = patterns.len();
    let mut row: Vec<bool> = Vec::new();
    let mut j: usize = 0;
    while j < n
        invariant
            j <= n,
            n == xs.len(),
            m == ps.len(),
            row@.len() == j,
            forall|k: int| 0 <= k < j ==> row@[k] == segments_from(ps, xs, m as int, k),
        decreases n - j,
    {
        row.push(false);
        j += 1;
    }
    let mut end: bool = true;
    let mut i: usize = m;
    while i > 0
        invariant
            i <= m,
            ps == byte_views(patterns@),
            xs == byte_views(paths@),
            n == xs.len(),
            m == ps.len(),
            row@.len() == n,
            forall|k: int| 0 <= k < n ==> row@[k] == segments_from(ps, xs, i as int, k),
            end == segments_from(ps, xs, i as int, n as int),
        decreases i,
    {
        i -= 1;
        assert(ps[i as int] == patterns@[i as int]@);
        let star = double_star(&patterns[i]);
        let new_end = star && end;
        let mut next: Vec<bool> = Vec::new();
        let mut f: usize = 0;
        while f < n
            invariant
                f <= n,
                next@.len() == f,
            decreases n - f,
        {
            next.push(false);
            f += 1;
        }
        let mut k: usize = n;
        let mut after: bool = new_end;
        while k > 0
            invariant
                k <= n,
                i < m,
                ps == byte_views(patterns@),
                xs == byte_views(paths@),
                n == xs.len(),
                m == ps.len(),
                star == is_double_star(ps[i as int]),
                row@.len() == n,
                next@.len() == n,
                forall|x: int| 0 <= x < n ==> row@[x] == segments_from(ps, xs, i as int + 1, x),
                end == segments_from(ps, xs, i as int + 1, n as int),
                new_end == segments_from(ps, xs, i as int, n as int),
                forall|x: int| k <= x < n ==> next@[x] == segments_from(ps, xs, i as int, x),
                after == segments_from(ps, xs, i as int, k as int),
            decreases k,
        {
            k -= 1;
            assert(ps[i as int] == patterns@[i as int]@);
            assert(xs[k as int] == paths@[k as int]@);
            let below = if k + 1 < n {
                row[k + 1]
            } else {
                end
            };
            let value = if star {
                row[k] || after
            } else if glob_match_segment(patterns[i].as_slice(), paths[k].as_slice()) {
                below
            } else {
                false
            };
            next.set(k, value);
            after = value;
        }
        row = next;
        end = new_end;
    }
    if n == 0 {
        end
    } else {
        row[0]
    }
}

fn segments_of(path: &Vec<char>) -> (r: Vec<Vec<u8>>)
    ensures
        byte_views(r@) == path_segments(path@),
{
    let start = chars::skip_char(path, '/', 0);
    let rest = chars::slice(path, start, path.len());
    assert(rest@ =~= path@.skip(start as int));
    let pieces = chars::split_char(&rest, '/');
    let mut out: Vec<Vec<u8>> = Vec::new();
    let mut i: usize = 0;
    while i < pieces.len()
        invariant
            i <= pieces.len(),
            out@.len() == i,
            forall|j: int| 0 <= j < i ==> (#[trigger] out@[j])@ == encode_utf8(pieces@[j]@),
        decreases pieces.len() - i,
    {
        out.push(chars::encode(&pieces[i]));
        i += 1;
    }
    assert(byte_views(out@) =~= text::views(pieces@).map_values(|p: Seq<char>| encode_utf8(p)));
    out
}

/// Whether a glob pattern matches a path.
pub fn glob_match(pattern: &str, path: &str) -> (r: bool)
    ensures
        r == glob_matches(pattern@, path@),
{
    let pat = chars::replace_char(&chars::from_str(pattern), '\\', '/');
    let pats = segments_of(&pat);
    let paths = segments_of(&chars::from_str(path));
    glob_match_segments(&pats, &paths)
}

} // verus!
