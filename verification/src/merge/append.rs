//! Adding blocks of text at the end of a file.

use crate::chars;
use crate::text;
use vstd::prelude::*;
use vstd::slice::slice_to_vec;
use vstd::utf8::encode_utf8;

verus! {

/// The bytes with a line feed at their end, unless there are none.
pub open spec fn bytes_with_final_newline(b: Seq<u8>) -> Seq<u8> {
    if b.len() > 0 && b.last() != 10u8 {
        b.push(10u8)
    } else {
        b
    }
}

/// A text without the white space at its end, followed by a line feed.
pub open spec fn trimmed_line(t: Seq<char>) -> Seq<u8> {
    encode_utf8(text::trim_end(t)).push(10u8)
}

/// One `trimmed_line` after the other.
pub open spec fn trimmed_lines(texts: Seq<Seq<char>>) -> Seq<u8>
    decreases texts.len(),
{
    if texts.len() == 0 {
        Seq::empty()
    } else {
        trimmed_lines(texts.drop_last()) + trimmed_line(texts.last())
    }
}

/// Each text as a block: an empty line, then its `trimmed_line`.
pub open spec fn blocks(texts: Seq<Seq<char>>) -> Seq<u8>
    decreases texts.len(),
{
    if texts.len() == 0 {
        Seq::empty()
    } else {
        blocks(texts.drop_last()) + seq![10u8] + trimmed_line(texts.last())
    }
}

/// The file with the blocks at its end; the file itself where there is no
/// block to add.
pub open spec fn with_blocks(dest: Seq<u8>, texts: Seq<Seq<char>>) -> Seq<u8> {
    if texts.len() == 0 {
        dest
    } else {
        bytes_with_final_newline(dest) + blocks(texts)
    }
}

/// The destination is a prefix of what `with_blocks` gives.
pub proof fn lemma_with_blocks_keeps_destination(dest: Seq<u8>, texts: Seq<Seq<char>>)
    ensures
        dest.is_prefix_of(with_blocks(dest, texts)),
        texts.len() == 0 ==> with_blocks(dest, texts) == dest,
{
    assert(with_blocks(dest, texts).subrange(0, dest.len() as int) =~= dest);
}

/// Ends the bytes with a line feed, where they hold any and do not end with
/// one.
pub fn end_bytes_with_newline(out: &mut Vec<u8>)
    ensures
        final(out)@ == bytes_with_final_newline(old(out)@),
{
    let n = out.len();
    if n > 0 && out[n - 1] != 10u8 {
        out.push(10u8);
    }
}

/// Adds the bytes of `part` at the end.
pub fn append_bytes(out: &mut Vec<u8>, part: &[u8])
    ensures
        final(out)@ == old(out)@ + part@,
{
    let mut i: usize = 0;
    while i < part.len()
        invariant
            i <= part.len(),
            out@ == old(out)@ + part@.take(i as int),
        decreases part.len() - i,
    {
        assert((old(out)@ + part@.take(i as int)).push(part@[i as int]) =~= old(out)@
            + part@.take(i + 1));
        out.push(part[i]);
        i += 1;
    }
    assert(part@.take(part.len() as int) =~= part@);
}

/// Adds a text as one line: without the white space at its end, and with a
/// line feed.
pub fn append_trimmed_line(out: &mut Vec<u8>, t: &Vec<char>)
    ensures
        final(out)@ == old(out)@ + trimmed_line(t@),
{
    let trimmed = chars::trim_end(t);
    let enc = chars::encode(&trimmed);
    append_bytes(out, enc.as_slice());
    out.push(10u8);
    assert(out@ =~= old(out)@ + trimmed_line(t@));
}

/// Adds each text as one line.
pub fn append_trimmed_lines(out: &mut Vec<u8>, texts: &Vec<Vec<char>>)
    ensures
        final(out)@ == old(out)@ + trimmed_lines(text::views(texts@)),
{
    let ghost all = text::views(texts@);
    let mut i: usize = 0;
    assert(old(out)@ + trimmed_lines(all.take(0)) =~= old(out)@);
    while i < texts.len()
        invariant
            i <= texts.len(),
            all == text::views(texts@),
            out@ == old(out)@ + trimmed_lines(all.take(i as int)),
        decreases texts.len() - i,
    {
        assert(all.take(i + 1).drop_last() =~= all.take(i as int));
        assert(all.take(i + 1).last() == texts@[i as int]@);
        append_trimmed_line(out, &texts[i]);
        assert(out@ =~= old(out)@ + trimmed_lines(all.take(i + 1)));
        i += 1;
    }
    assert(all.take(texts.len() as int) =~= all);
}

/// Adds each text as a block: behind an empty line, trimmed at its end.
pub fn append_blocks(out: &mut Vec<u8>, texts: &Vec<Vec<char>>)
    ensures
        final(out)@ == old(out)@ + blocks(text::views(texts@)),
{
    let ghost all = text::views(texts@);
    let mut i: usize = 0;
    assert(old(out)@ + blocks(all.take(0)) =~= old(out)@);
    while i < texts.len()
        invariant
            i <= texts.len(),
            all == text::views(texts@),
            out@ == old(out)@ + blocks(all.take(i as int)),
        decreases texts.len() - i,
    {
        assert(all.take(i + 1).drop_last() =~= all.take(i as int));
        assert(all.take(i + 1).last() == texts@[i as int]@);
        out.push(10u8);
        append_trimmed_line(out, &texts[i]);
        assert(out@ =~= old(out)@ + blocks(all.take(i + 1)));
        i += 1;
    }
    assert(all.take(texts.len() as int) =~= all);
}

/// The file with the blocks at its end.
pub fn add_blocks(dest: &[u8], texts: &Vec<Vec<char>>) -> (r: Vec<u8>)
    ensures
        r@ == with_blocks(dest@, text::views(texts@)),
{
    let mut out = slice_to_vec(dest);
    if texts.len() == 0 {
        return out;
    }
    end_bytes_with_newline(&mut out);
    append_blocks(&mut out, texts);
    out
}

/// A block of text with the key by which it is found again.
#[derive(Debug)]
pub struct KeyedText {
    pub key: Vec<char>,
    pub text: Vec<char>,
}

impl View for KeyedText {
    type V = (Seq<char>, Seq<char>);

    open spec fn view(&self) -> (Seq<char>, Seq<char>) {
        (self.key@, self.text@)
    }
}

/// The items as pairs of key and text.
pub open spec fn keyed_views(items: Seq<KeyedText>) -> Seq<(Seq<char>, Seq<char>)> {
    items.map_values(|k: KeyedText| k@)
}

/// The keys of the items, in their order.
pub open spec fn keys_of_items(items: Seq<(Seq<char>, Seq<char>)>) -> Seq<Seq<char>> {
    items.map_values(|k: (Seq<char>, Seq<char>)| k.0)
}

/// The texts of the items whose key `have` does not hold, in their order.
pub open spec fn keyed_missing(have: Seq<Seq<char>>, items: Seq<(Seq<char>, Seq<char>)>) -> Seq<
    Seq<char>,
>
    decreases items.len(),
{
    if items.len() == 0 {
        Seq::empty()
    } else {
        let rest = keyed_missing(have, items.drop_last());
        if have.contains(items.last().0) {
            rest
        } else {
            rest.push(items.last().1)
        }
    }
}

/// Every text that `keyed_missing` gives belongs to an item whose key
/// `have` does not hold.
pub proof fn lemma_keyed_missing_sound(
    have: Seq<Seq<char>>,
    items: Seq<(Seq<char>, Seq<char>)>,
    i: int,
)
    requires
        0 <= i < keyed_missing(have, items).len(),
    ensures
        exists|j: int|
            0 <= j < items.len() && (#[trigger] items[j]).1 == keyed_missing(have, items)[i]
                && !have.contains(items[j].0),
    decreases items.len(),
{
    if items.len() > 0 {
        let rest = keyed_missing(have, items.drop_last());
        if i < rest.len() {
            lemma_keyed_missing_sound(have, items.drop_last(), i);
            let j = choose|j: int|
                0 <= j < items.drop_last().len() && (#[trigger] items.drop_last()[j]).1 == rest[i]
                    && !have.contains(items.drop_last()[j].0);
            assert(items[j] == items.drop_last()[j]);
        } else {
            assert(items[items.len() - 1] == items.last());
        }
    }
}

/// The keys of the items, in their order.
pub fn item_keys(items: &Vec<KeyedText>) -> (r: Vec<Vec<char>>)
    ensures
        text::views(r@) == keys_of_items(keyed_views(items@)),
{
    let mut r: Vec<Vec<char>> = Vec::new();
    let mut i: usize = 0;
    while i < items.len()
        invariant
            i <= items.len(),
            r@.len() == i,
            forall|j: int| 0 <= j < i ==> (#[trigger] r@[j])@ == items@[j].key@,
        decreases items.len() - i,
    {
        r.push(chars::clone(&items[i].key));
        i += 1;
    }
    assert(text::views(r@) =~= keys_of_items(keyed_views(items@)));
    r
}

/// The texts of the items whose key `have` does not hold, in their order.
pub fn missing_keyed(have: &Vec<Vec<char>>, items: &Vec<KeyedText>) -> (r: Vec<Vec<char>>)
    ensures
        text::views(r@) == keyed_missing(text::views(have@), keyed_views(items@)),
{
    let ghost all = keyed_views(items@);
    let mut r: Vec<Vec<char>> = Vec::new();
    let mut i: usize = 0;
    while i < items.len()
        invariant
            i <= items.len(),
            all == keyed_views(items@),
            text::views(r@) == keyed_missing(text::views(have@), all.take(i as int)),
        decreases items.len() - i,
    {
        assert(all.take(i + 1).drop_last() =~= all.take(i as int));
        assert(all.take(i + 1).last() == items@[i as int]@);
        if !chars::list_contains(have, &items[i].key) {
            let ghost before = text::views(r@);
            r.push(chars::clone(&items[i].text));
            assert(text::views(r@) =~= before.push(items@[i as int].text@));
        }
        i += 1;
    }
    assert(all.take(items.len() as int) =~= all);
    r
}

} // verus!
