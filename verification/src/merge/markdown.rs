//! The merge of Markdown files by their heading sections.
//!
//! A section runs from a heading to the next heading that is not deeper,
//! so that it holds the sections of the headings below its own. A section
//! of the template whose heading the destination does not have is added at
//! the destination's end, and the sections within it are not added again.

use crate::chars;
use crate::merge::append::{add_blocks, with_blocks};
use crate::merge::source::parse_both;
use crate::merge::syntax::{
    all_nodes, derefs, holding, node_text, nodes_holding, parsed, text_of, Grammar, SyntaxNode,
};
use crate::text;
use vstd::prelude::*;
use vstd::slice::slice_subrange;
use vstd::utf8::{decode_utf8, valid_utf8};

verus! {

/// A heading: where it starts, its title with white space normalized, and
/// its level.
#[derive(Debug)]
pub struct Heading {
    pub start: usize,
    pub key: Vec<char>,
    pub level: usize,
}

/// A heading as a mathematical value.
pub ghost struct HeadingView {
    pub start: int,
    pub key: Seq<char>,
    pub level: int,
}

impl View for Heading {
    type V = HeadingView;

    open spec fn view(&self) -> HeadingView {
        HeadingView { start: self.start as int, key: self.key@, level: self.level as int }
    }
}

/// The headings as mathematical values.
pub open spec fn heading_views(hs: Seq<Heading>) -> Seq<HeadingView> {
    hs.map_values(|h: Heading| h@)
}

/// A heading section of the template.
#[derive(Debug)]
pub struct MdSection {
    /// The title of the section's heading.
    pub heading_key: Vec<char>,
    /// The titles of the deeper headings within the section.
    pub heading_keys_in_section: Vec<Vec<char>>,
    /// The text from the heading to the end of the section.
    pub text: Vec<char>,
}

/// A section as a mathematical value.
pub ghost struct SectionView {
    pub key: Seq<char>,
    pub inner: Seq<Seq<char>>,
    pub text: Seq<char>,
}

impl View for MdSection {
    type V = SectionView;

    open spec fn view(&self) -> SectionView {
        SectionView {
            key: self.heading_key@,
            inner: text::views(self.heading_keys_in_section@),
            text: self.text@,
        }
    }
}

/// The sections as mathematical values.
pub open spec fn section_views(ss: Seq<MdSection>) -> Seq<SectionView> {
    ss.map_values(|s: MdSection| s@)
}

/// The line at an index; the empty line where there is none.
pub open spec fn line_at(ls: Seq<Seq<char>>, i: int) -> Seq<char> {
    if 0 <= i < ls.len() {
        ls[i]
    } else {
        Seq::empty()
    }
}

/// The title of an ATX heading line that starts with `#`, and the number of
/// its leading `#`; nothing where no title is left.
pub open spec fn atx_heading(first: Seq<char>) -> Option<(Seq<char>, int)> {
    let hashes = text::skip_char(first, '#', 0);
    let rest = text::trim(first.skip(hashes));
    let title = text::trim(rest.take(text::skip_char_back(rest, '#', rest.len() as int)));
    if title.len() == 0 {
        None
    } else {
        Some((text::normalize_ws(title), hashes))
    }
}

/// The key and level of the heading that a text is. A line that starts with
/// `#` is an ATX heading. Any other is taken by its underline: `=` gives
/// level 1 and `-` level 2.
pub open spec fn heading_of_text(t: Seq<char>) -> Option<(Seq<char>, int)> {
    let ls = text::lines(t);
    let first = text::trim(line_at(ls, 0));
    if first.len() > 0 && first[0] == '#' {
        atx_heading(first)
    } else {
        let underline = text::trim(line_at(ls, 1));
        if text::all_are(underline, '=') {
            Some((text::normalize_ws(first), 1))
        } else if text::all_are(underline, '-') {
            Some((text::normalize_ws(first), 2))
        } else {
            None
        }
    }
}

/// The title and the level of the heading that a node covers.
pub open spec fn heading_key_and_level(node: SyntaxNode, bytes: Seq<u8>) -> Option<(Seq<char>, int)> {
    match text_of(node, bytes) {
        Some(t) => heading_of_text(t),
        None => None,
    }
}

/// The headings that the nodes are, in their order.
pub open spec fn heading_entries(nodes: Seq<SyntaxNode>, bytes: Seq<u8>) -> Seq<HeadingView>
    decreases nodes.len(),
{
    if nodes.len() == 0 {
        Seq::empty()
    } else {
        let rest = heading_entries(nodes.drop_last(), bytes);
        match heading_key_and_level(nodes.last(), bytes) {
            Some((key, level)) => rest.push(
                HeadingView { start: nodes.last().start_byte as int, key, level },
            ),
            None => rest,
        }
    }
}

/// The headings of a parsed file, in the order of the tree walk.
pub open spec fn headings(root: SyntaxNode, bytes: Seq<u8>) -> Seq<HeadingView> {
    heading_entries(holding(all_nodes(root), "heading"@), bytes)
}

/// The titles of the headings, in their order.
pub open spec fn heading_keys(hs: Seq<HeadingView>) -> Seq<Seq<char>> {
    hs.map_values(|h: HeadingView| h.key)
}

/// `x` put behind the last heading of `s` that does not start after it.
pub open spec fn insert_by_start(s: Seq<HeadingView>, x: HeadingView) -> Seq<HeadingView>
    decreases s.len(),
{
    if s.len() == 0 {
        seq![x]
    } else if s.last().start <= x.start {
        s.push(x)
    } else {
        insert_by_start(s.drop_last(), x).push(s.last())
    }
}

/// The headings in the order of their start; headings with one start keep
/// their order.
pub open spec fn sorted_by_start(s: Seq<HeadingView>) -> Seq<HeadingView>
    decreases s.len(),
{
    if s.len() == 0 {
        Seq::empty()
    } else {
        insert_by_start(sorted_by_start(s.drop_last()), s.last())
    }
}

/// The index of the first heading from `from` on that is not deeper than
/// `level`, or the number of headings: where a section of that level ends.
pub open spec fn section_end(sorted: Seq<HeadingView>, level: int, from: int) -> int
    decreases sorted.len() - from,
{
    if 0 <= from < sorted.len() && sorted[from].level > level {
        section_end(sorted, level, from + 1)
    } else {
        from
    }
}

/// The titles of the headings from index `a` up to `b`.
pub open spec fn keys_between(sorted: Seq<HeadingView>, a: int, b: int) -> Seq<Seq<char>>
    decreases b - a,
{
    if a < 0 || a >= b || b > sorted.len() {
        Seq::empty()
    } else {
        keys_between(sorted, a, b - 1).push(sorted[b - 1].key)
    }
}

/// The text of a section: the bytes from its heading to its end. A range
/// outside the file has no text.
pub open spec fn section_text(bytes: Seq<u8>, start: int, next: int) -> Seq<char> {
    if 0 <= start <= next <= bytes.len() {
        text::lossy_text(bytes.subrange(start, next))
    } else {
        Seq::empty()
    }
}

/// The sections of the first `n` of the sorted headings. A section runs
/// from its heading to the next heading of the same or a higher level, or
/// to the end of the file, and holds the deeper headings between them.
pub open spec fn sections_upto(sorted: Seq<HeadingView>, bytes: Seq<u8>, n: int) -> Seq<SectionView>
    decreases n,
{
    if n <= 0 || n > sorted.len() {
        Seq::empty()
    } else {
        let end = section_end(sorted, sorted[n - 1].level, n);
        let next = if 0 <= end < sorted.len() {
            sorted[end].start
        } else {
            bytes.len() as int
        };
        sections_upto(sorted, bytes, n - 1).push(
            SectionView {
                key: sorted[n - 1].key,
                inner: keys_between(sorted, n, end),
                text: section_text(bytes, sorted[n - 1].start, next),
            },
        )
    }
}

/// The sections of a document, in the order of the text.
pub open spec fn sections(root: SyntaxNode, bytes: Seq<u8>) -> Seq<SectionView> {
    let sorted = sorted_by_start(headings(root, bytes));
    sections_upto(sorted, bytes, sorted.len() as int)
}

/// The headings known after the sections have been taken one by one, and
/// the texts of the sections whose heading was not known when they came. A
/// section that is taken makes its own heading and the headings within it
/// known.
pub open spec fn fresh_sections(have: Seq<Seq<char>>, ss: Seq<SectionView>) -> (
    Seq<Seq<char>>,
    Seq<Seq<char>>,
)
    decreases ss.len(),
{
    if ss.len() == 0 {
        (have, Seq::empty())
    } else {
        let (h, t) = fresh_sections(have, ss.drop_last());
        if h.contains(ss.last().key) {
            (h, t)
        } else {
            (h.push(ss.last().key) + ss.last().inner, t.push(ss.last().text))
        }
    }
}

/// The merge of two parsed Markdown files.
pub open spec fn merged_sections(
    dest_bytes: Seq<u8>,
    src_bytes: Seq<u8>,
    dest_root: SyntaxNode,
    src_root: SyntaxNode,
) -> Seq<u8> {
    with_blocks(
        dest_bytes,
        fresh_sections(heading_keys(headings(dest_root, dest_bytes)), sections(src_root, src_bytes)).1,
    )
}

/// The merge of two documents: the destination with the template's sections
/// whose heading it lacks, where both are UTF-8 and parse.
pub open spec fn merged_markdown(dest: Seq<u8>, src: Seq<u8>) -> Option<Seq<u8>> {
    if valid_utf8(dest) && valid_utf8(src) && parsed(Grammar::Markdown, decode_utf8(dest)) is Some
        && parsed(Grammar::Markdown, decode_utf8(src)) is Some {
        Some(
            merged_sections(
                dest,
                src,
                parsed(Grammar::Markdown, decode_utf8(dest))->0,
                parsed(Grammar::Markdown, decode_utf8(src))->0,
            ),
        )
    } else {
        None
    }
}

fn line_or_empty(ls: &Vec<Vec<char>>, i: usize) -> (r: Vec<char>)
    ensures
        r@ == line_at(text::views(ls@), i as int),
{
    if i < ls.len() {
        assert(text::views(ls@)[i as int] == ls@[i as int]@);
        chars::clone(&ls[i])
    } else {
        Vec::new()
    }
}

fn atx_heading_of(first: &Vec<char>) -> (r: Option<(Vec<char>, usize)>)
    ensures
        match r {
            Some((k, l)) => atx_heading(first@) == Some((k@, l as int)),
            None => atx_heading(first@) is None,
        },
{
    let hashes = chars::skip_char(first, '#', 0);
    let after = chars::slice(first, hashes, first.len());
    assert(after@ =~= first@.skip(hashes as int));
    let rest = chars::trim(&after);
    let cut = chars::skip_char_back(&rest, '#', rest.len());
    let head = chars::slice(&rest, 0, cut);
    assert(head@ =~= rest@.take(cut as int));
    let title = chars::trim(&head);
    if title.len() == 0 {
        None
    } else {
        Some((chars::normalize_ws(&title), hashes))
    }
}

fn heading_of(t: &Vec<char>) -> (r: Option<(Vec<char>, usize)>)
    ensures
        match r {
            Some((k, l)) => heading_of_text(t@) == Some((k@, l as int)),
            None => heading_of_text(t@) is None,
        },
{
    let ls = chars::lines(t);
    let line0 = line_or_empty(&ls, 0);
    let first = chars::trim(&line0);
    if first.len() > 0 && first[0] == '#' {
        return atx_heading_of(&first);
    }
    let line1 = line_or_empty(&ls, 1);
    let underline = chars::trim(&line1);
    if chars::all_are(&underline, '=') {
        Some((chars::normalize_ws(&first), 1))
    } else if chars::all_are(&underline, '-') {
        Some((chars::normalize_ws(&first), 2))
    } else {
        None
    }
}

/// The title and the level of the heading that a node covers.
pub fn markdown_heading_key_and_level(node: &SyntaxNode, bytes: &[u8]) -> (r: Option<
    (Vec<char>, usize),
>)
    ensures
        match r {
            Some((k, l)) => heading_key_and_level(*node, bytes@) == Some((k@, l as int)),
            None => heading_key_and_level(*node, bytes@) is None,
        },
{
    match node_text(node, bytes) {
        Some(t) => heading_of(&t),
        None => None,
    }
}

/// The headings of a parsed file, in the order of the tree walk.
pub fn markdown_headings(root: &SyntaxNode, bytes: &[u8]) -> (r: Vec<Heading>)
    ensures
        heading_views(r@) == headings(*root, bytes@),
{
    let nodes = nodes_holding(root, "heading");
    let ghost ns = derefs(nodes@);
    let mut out: Vec<Heading> = Vec::new();
    let mut i: usize = 0;
    while i < nodes.len()
        invariant
            i <= nodes.len(),
            ns == derefs(nodes@),
            heading_views(out@) == heading_entries(ns.take(i as int), bytes@),
        decreases nodes.len() - i,
    {
        assert(ns.take(i + 1).drop_last() =~= ns.take(i as int));
        assert(ns.take(i + 1).last() == *nodes@[i as int]);
        match markdown_heading_key_and_level(nodes[i], bytes) {
            Some((key, level)) => {
                let ghost before = heading_views(out@);
                let h = Heading { start: nodes[i].start_byte, key, level };
                let ghost hv = h@;
                out.push(h);
                assert(heading_views(out@) =~= before.push(hv));
            },
            None => {},
        }
        i += 1;
    }
    assert(ns.take(nodes.len() as int) =~= ns);
    out
}

/// The titles of the headings of a parsed file.
pub fn markdown_heading_set(root: &SyntaxNode, bytes: &[u8]) -> (r: Vec<Vec<char>>)
    ensures
        text::views(r@) == heading_keys(headings(*root, bytes@)),
{
    let hs = markdown_headings(root, bytes);
    let mut out: Vec<Vec<char>> = Vec::new();
    let mut i: usize = 0;
    while i < hs.len()
        invariant
            i <= hs.len(),
            out@.len() == i,
            forall|j: int| 0 <= j < i ==> (#[trigger] out@[j])@ == hs@[j].key@,
        decreases hs.len() - i,
    {
        out.push(chars::clone(&hs[i].key));
        i += 1;
    }
    assert(text::views(out@) =~= heading_keys(heading_views(hs@)));
    out
}

fn sort_headings(hs: &Vec<Heading>) -> (r: Vec<Heading>)
    ensures
        heading_views(r@) == sorted_by_start(heading_views(hs@)),
{
    let ghost vs = heading_views(hs@);
    let mut out: Vec<Heading> = Vec::new();
    let mut i: usize = 0;
    while i < hs.len()
        invariant
            i <= hs.len(),
            vs == heading_views(hs@),
            heading_views(out@) == sorted_by_start(vs.take(i as int)),
        decreases hs.len() - i,
    {
        assert(vs.take(i + 1).drop_last() =~= vs.take(i as int));
        assert(vs.take(i + 1).last() == hs@[i as int]@);
        let h = Heading { start: hs[i].start, key: chars::clone(&hs[i].key), level: hs[i].level };
        let ghost hv = h@;
        assert(hv == hs@[i as int]@);
        let ghost ov = heading_views(out@);
        let mut p: usize = out.len();
        assert(ov.take(p as int) =~= ov);
        assert(insert_by_start(ov, hv) =~= insert_by_start(ov.take(p as int), hv) + ov.skip(
            p as int,
        ));
        while p > 0 && out[p - 1].start > h.start
            invariant
                p <= out.len(),
                ov == heading_views(out@),
                hv == h@,
                insert_by_start(ov, hv) == insert_by_start(ov.take(p as int), hv) + ov.skip(
                    p as int,
                ),
            decreases p,
        {
            assert(ov[p - 1] == out@[p - 1]@);
            assert(ov.take(p as int).drop_last() =~= ov.take(p - 1));
            assert(ov.take(p as int).last() == ov[p - 1]);
            assert(insert_by_start(ov.take(p - 1), hv).push(ov[p - 1]) + ov.skip(p as int)
                =~= insert_by_start(ov.take(p - 1), hv) + ov.skip(p - 1));
            p -= 1;
        }
        proof {
            if p > 0 {
                assert(ov[p - 1] == out@[p - 1]@);
                assert(ov.take(p as int).last() == ov[p - 1]);
            }
            assert(insert_by_start(ov.take(p as int), hv) =~= ov.take(p as int).push(hv));
        }
        out.insert(p, h);
        assert(heading_views(out@) =~= ov.take(p as int).push(hv) + ov.skip(p as int));
        i += 1;
    }
    assert(vs.take(hs.len() as int) =~= vs);
    out
}

/// The heading sections of a parsed file, in the order of the text.
pub fn markdown_sections(root: &SyntaxNode, bytes: &[u8]) -> (r: Vec<MdSection>)
    ensures
        section_views(r@) == sections(*root, bytes@),
{
    let found = markdown_headings(root, bytes);
    let sorted = sort_headings(&found);
    let ghost sv = heading_views(sorted@);
    let mut out: Vec<MdSection> = Vec::new();
    let mut i: usize = 0;
    while i < sorted.len()
        invariant
            i <= sorted.len(),
            sv == heading_views(sorted@),
            section_views(out@) == sections_upto(sv, bytes@, i as int),
        decreases sorted.len() - i,
    {
        assert(sv[i as int] == sorted@[i as int]@);
        let start = sorted[i].start;
        let level = sorted[i].level;
        let mut inner: Vec<Vec<char>> = Vec::new();
        let mut j: usize = i + 1;
        assert(text::views(inner@) =~= keys_between(sv, i + 1, j as int));
        while j < sorted.len() && sorted[j].level > level
            invariant
                i + 1 <= j <= sorted.len(),
                sv == heading_views(sorted@),
                section_end(sv, level as int, i + 1) == section_end(sv, level as int, j as int),
                text::views(inner@) == keys_between(sv, i + 1, j as int),
            decreases sorted.len() - j,
        {
            assert(sv[j as int] == sorted@[j as int]@);
            let ghost before = text::views(inner@);
            inner.push(chars::clone(&sorted[j].key));
            assert(text::views(inner@) =~= before.push(sv[j as int].key));
            j += 1;
        }
        proof {
            if j < sorted.len() {
                assert(sv[j as int] == sorted@[j as int]@);
            }
            assert(section_end(sv, level as int, j as int) == j);
        }
        let next = if j < sorted.len() {
            sorted[j].start
        } else {
            bytes.len()
        };
        let text = if start <= next && next <= bytes.len() {
            chars::decode_lossy(slice_subrange(bytes, start, next))
        } else {
            Vec::new()
        };
        let section = MdSection {
            heading_key: chars::clone(&sorted[i].key),
            heading_keys_in_section: inner,
            text,
        };
        let ghost before = section_views(out@);
        let ghost secv = section@;
        out.push(section);
        assert(section_views(out@) =~= before.push(secv));
        i += 1;
    }
    out
}

/// Merges two parsed Markdown files: each section of the template whose
/// heading is neither in the destination nor in a section added before it
/// is added at the destination's end, with the deeper sections within it.
pub fn merge_markdown_sections(
    dest_bytes: &[u8],
    src_bytes: &[u8],
    dest_root: &SyntaxNode,
    src_root: &SyntaxNode,
) -> (out: Vec<u8>)
    ensures
        out@ == merged_sections(dest_bytes@, src_bytes@, *dest_root, *src_root),
{
    let mut have = markdown_heading_set(dest_root, dest_bytes);
    let src_sections = markdown_sections(src_root, src_bytes);
    let ghost have0 = text::views(have@);
    let ghost ss = section_views(src_sections@);
    let mut add: Vec<Vec<char>> = Vec::new();
    let mut i: usize = 0;
    while i < src_sections.len()
        invariant
            i <= src_sections.len(),
            ss == section_views(src_sections@),
            fresh_sections(have0, ss.take(i as int)).0 == text::views(have@),
            fresh_sections(have0, ss.take(i as int)).1 == text::views(add@),
        decreases src_sections.len() - i,
    {
        assert(ss.take(i + 1).drop_last() =~= ss.take(i as int));
        assert(ss.take(i + 1).last() == src_sections@[i as int]@);
        let section = &src_sections[i];
        if !chars::list_contains(&have, &section.heading_key) {
            let ghost hb = text::views(have@);
            let ghost ab = text::views(add@);
            let ghost inner = text::views(section.heading_keys_in_section@);
            have.push(chars::clone(&section.heading_key));
            add.push(chars::clone(&section.text));
            assert(text::views(have@) =~= hb.push(section.heading_key@) + inner.take(0));
            assert(text::views(add@) =~= ab.push(section.text@));
            let mut k: usize = 0;
            while k < section.heading_keys_in_section.len()
                invariant
                    k <= section.heading_keys_in_section.len(),
                    inner == text::views(section.heading_keys_in_section@),
                    text::views(have@) == hb.push(section.heading_key@) + inner.take(k as int),
                decreases section.heading_keys_in_section.len() - k,
            {
                let ghost before = text::views(have@);
                have.push(chars::clone(&section.heading_keys_in_section[k]));
                assert(inner[k as int] == section.heading_keys_in_section@[k as int]@);
                assert(text::views(have@) =~= before.push(inner[k as int]));
                assert(inner.take(k + 1) =~= inner.take(k as int).push(inner[k as int]));
                k += 1;
            }
            assert(inner.take(inner.len() as int) =~= inner);
        }
        i += 1;
    }
    assert(ss.take(src_sections.len() as int) =~= ss);
    add_blocks(dest_bytes, &add)
}

/// Merges two documents.
pub fn merge_markdown(dest_bytes: &[u8], src_bytes: &[u8]) -> (r: Option<Vec<u8>>)
    ensures
        match r {
            Some(out) => merged_markdown(dest_bytes@, src_bytes@) == Some(out@),
            None => merged_markdown(dest_bytes@, src_bytes@) is None,
        },
{
    match parse_both(Grammar::Markdown, dest_bytes, src_bytes) {
        None => None,
        Some((dest_root, src_root)) => Some(
            merge_markdown_sections(dest_bytes, src_bytes, &dest_root, &src_root),
        ),
    }
}

} // verus!
