//! The fallback merge: a file is a list of lines, and the lines of the
//! template that the destination lacks are added at its end.

use crate::chars;
use crate::text;
use vstd::prelude::*;
use vstd::slice::slice_to_vec;
use vstd::utf8::{decode_utf8, decode_utf8_encode_utf8, encode_utf8, valid_utf8};

verus! {

/// A text that ends in a line feed, unless it is empty.
pub open spec fn with_final_newline(s: Seq<char>) -> Seq<char> {
    if s.len() > 0 && s.last() != '\n' {
        s.push('\n')
    } else {
        s
    }
}

/// The lines one after the other, each followed by a line feed.
pub open spec fn join_lines(ls: Seq<Seq<char>>) -> Seq<char>
    decreases ls.len(),
{
    if ls.len() == 0 {
        Seq::empty()
    } else {
        join_lines(ls.drop_last()) + ls.last().push('\n')
    }
}

/// The candidates that `have` does not hold, each once, in the order in
/// which they first occur.
pub open spec fn missing(have: Seq<Seq<char>>, candidates: Seq<Seq<char>>) -> Seq<Seq<char>>
    decreases candidates.len(),
{
    if candidates.len() == 0 {
        Seq::empty()
    } else {
        let rest = missing(have, candidates.drop_last());
        if have.contains(candidates.last()) || rest.contains(candidates.last()) {
            rest
        } else {
            rest.push(candidates.last())
        }
    }
}

/// The destination text with the missing template lines at its end. Where no
/// line is missing the destination stands unchanged.
pub open spec fn merged_text(dest: Seq<char>, src: Seq<char>) -> Seq<char> {
    let add = missing(text::lines(dest), text::lines(src));
    if add.len() == 0 {
        dest
    } else {
        with_final_newline(dest) + join_lines(add)
    }
}

/// What the line merge gives for two files: nothing unless both are UTF-8.
pub open spec fn merged_lines(dest: Seq<u8>, src: Seq<u8>) -> Option<Seq<u8>> {
    if valid_utf8(dest) && valid_utf8(src) {
        Some(encode_utf8(merged_text(decode_utf8(dest), decode_utf8(src))))
    } else {
        None
    }
}

/// Every line that the merge adds is a line of the template that the
/// destination does not have.
pub proof fn lemma_missing_sound(have: Seq<Seq<char>>, candidates: Seq<Seq<char>>, i: int)
    requires
        0 <= i < missing(have, candidates).len(),
    ensures
        candidates.contains(missing(have, candidates)[i]),
        !have.contains(missing(have, candidates)[i]),
    decreases candidates.len(),
{
    if candidates.len() > 0 {
        let rest = missing(have, candidates.drop_last());
        if i < rest.len() {
            lemma_missing_sound(have, candidates.drop_last(), i);
            let x = rest[i];
            let j = choose|j: int| 0 <= j < candidates.drop_last().len() && candidates.drop_last()[j] == x;
            assert(candidates[j] == x);
        } else {
            assert(candidates[candidates.len() - 1] == candidates.last());
        }
    }
}

/// No line is added twice, and every line of the template that the
/// destination does not have is added.
pub proof fn lemma_missing_complete(have: Seq<Seq<char>>, candidates: Seq<Seq<char>>)
    ensures
        forall|i: int, j: int|
            0 <= i < j < missing(have, candidates).len() ==> missing(have, candidates)[i]
                != missing(have, candidates)[j],
        forall|k: int|
            0 <= k < candidates.len() && !have.contains(candidates[k]) ==> missing(
                have,
                candidates,
            ).contains(#[trigger] candidates[k]),
    decreases candidates.len(),
{
    if candidates.len() > 0 {
        let front = candidates.drop_last();
        let rest = missing(have, front);
        let last = candidates.last();
        let all = missing(have, candidates);
        lemma_missing_complete(have, front);
        assert forall|k: int|
            0 <= k < candidates.len() && !have.contains(candidates[k]) implies all.contains(
            #[trigger] candidates[k],
        ) by {
            if k < front.len() {
                assert(front[k] == candidates[k]);
                let at = choose|at: int| 0 <= at < rest.len() && rest[at] == front[k];
                assert(all[at] == candidates[k]);
            } else if rest.contains(last) {
                let at = choose|at: int| 0 <= at < rest.len() && rest[at] == last;
                assert(all[at] == last);
            } else {
                assert(all[rest.len() as int] == last);
            }
        }
    }
}

/// The merged text begins with the destination text: nothing of it is
/// removed, rewritten or moved.
pub proof fn lemma_merged_text_keeps_destination(dest: Seq<char>, src: Seq<char>)
    ensures
        dest.is_prefix_of(merged_text(dest, src)),
{
    let add = missing(text::lines(dest), text::lines(src));
    if add.len() > 0 {
        assert((with_final_newline(dest) + join_lines(add)).subrange(0, dest.len() as int)
            =~= dest);
    } else {
        assert(dest.subrange(0, dest.len() as int) =~= dest);
    }
}

/// The candidates that `have` does not hold, each once, in the order in
/// which they first occur.
pub fn missing_lines(have: &Vec<Vec<char>>, candidates: &Vec<Vec<char>>) -> (r: Vec<Vec<char>>)
    ensures
        text::views(r@) == missing(text::views(have@), text::views(candidates@)),
{
    let mut r: Vec<Vec<char>> = Vec::new();
    let mut i: usize = 0;
    let ghost cs = text::views(candidates@);
    while i < candidates.len()
        invariant
            i <= candidates.len(),
            cs == text::views(candidates@),
            text::views(r@) == missing(text::views(have@), cs.take(i as int)),
        decreases candidates.len() - i,
    {
        assert(cs.take(i + 1).drop_last() =~= cs.take(i as int));
        assert(cs.take(i + 1).last() == candidates@[i as int]@);
        if !chars::list_contains(have, &candidates[i]) && !chars::list_contains(&r, &candidates[i])
        {
            let ghost before = text::views(r@);
            r.push(chars::slice(&candidates[i], 0, candidates[i].len()));
            assert(candidates@[i as int]@.subrange(0, candidates@[i as int]@.len() as int)
                =~= candidates@[i as int]@);
            assert(text::views(r@) =~= before.push(candidates@[i as int]@));
        }
        i += 1;
    }
    assert(cs.take(candidates.len() as int) =~= cs);
    r
}

/// Adds a line feed to a text that has characters and does not end in one.
pub fn end_with_newline(out: &mut Vec<char>)
    ensures
        final(out)@ == with_final_newline(old(out)@),
{
    let n = out.len();
    if n > 0 && out[n - 1] != '\n' {
        out.push('\n');
    }
}

/// Adds each line, followed by a line feed, at the end of `out`.
pub fn append_lines(out: &mut Vec<char>, ls: &Vec<Vec<char>>)
    ensures
        final(out)@ == old(out)@ + join_lines(text::views(ls@)),
{
    let mut i: usize = 0;
    let ghost all = text::views(ls@);
    assert(old(out)@ + join_lines(all.take(0)) =~= old(out)@);
    while i < ls.len()
        invariant
            i <= ls.len(),
            all == text::views(ls@),
            out@ == old(out)@ + join_lines(all.take(i as int)),
        decreases ls.len() - i,
    {
        assert(all.take(i + 1).drop_last() =~= all.take(i as int));
        assert(all.take(i + 1).last() == ls@[i as int]@);
        chars::append(out, &ls[i]);
        out.push('\n');
        assert(out@ =~= old(out)@ + join_lines(all.take(i + 1)));
        i += 1;
    }
    assert(all.take(ls.len() as int) =~= all);
}

/// Merges two files line by line.
///
/// Gives nothing where one of the files is not UTF-8. Otherwise the result
/// is the destination followed by the lines of the template that are not
/// among its own, each once; the destination itself where there is no such
/// line.
pub fn merge_lines(dest_bytes: &[u8], src_bytes: &[u8]) -> (r: Option<Vec<u8>>)
    ensures
        match r {
            Some(out) => merged_lines(dest_bytes@, src_bytes@) == Some(out@),
            None => merged_lines(dest_bytes@, src_bytes@) is None,
        },
{
    let dest = match chars::decode(dest_bytes) {
        Some(d) => d,
        None => { return None; },
    };
    let src = match chars::decode(src_bytes) {
        Some(s) => s,
        None => { return None; },
    };
    let have = chars::lines(&dest);
    let candidates = chars::lines(&src);
    let add = missing_lines(&have, &candidates);
    if add.len() == 0 {
        proof {
            decode_utf8_encode_utf8(dest_bytes@);
        }
        return Some(slice_to_vec(dest_bytes));
    }
    let mut out = dest;
    end_with_newline(&mut out);
    append_lines(&mut out, &add);
    Some(chars::encode(&out))
}

} // verus!
