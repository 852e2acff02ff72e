//! The merge of style sheets: a rule of the template that the destination
//! lacks is added at its end.

use crate::chars;
use crate::merge::append::{
    add_blocks, item_keys, keyed_missing, keyed_views, keys_of_items, missing_keyed, with_blocks,
    KeyedText,
};
use crate::merge::source::{any_contained, contains_any, parse_both};
use crate::merge::syntax::{node_text_or_empty, parsed, text_or_empty, Grammar, SyntaxNode};
use crate::text;
use vstd::prelude::*;
use vstd::utf8::{decode_utf8, valid_utf8};

verus! {

/// The named nodes among `children` whose kind holds one of `kinds`, each
/// with its text and, as its key, that text with white space normalized.
pub open spec fn text_items(children: Seq<SyntaxNode>, bytes: Seq<u8>, kinds: Seq<Seq<char>>) -> Seq<
    (Seq<char>, Seq<char>),
>
    decreases children.len(),
{
    if children.len() == 0 {
        Seq::empty()
    } else {
        let rest = text_items(children.drop_last(), bytes, kinds);
        let node = children.last();
        if node.named && any_contained(text::to_ascii_lowercase(node.kind@), kinds) {
            rest.push((text::normalize_ws(text_or_empty(node, bytes)), text_or_empty(node, bytes)))
        } else {
            rest
        }
    }
}

/// The merge of two parsed files by the text of their top-level blocks.
pub open spec fn merged_text_blocks(
    dest_bytes: Seq<u8>,
    src_bytes: Seq<u8>,
    dest_root: SyntaxNode,
    src_root: SyntaxNode,
    kinds: Seq<Seq<char>>,
) -> Seq<u8> {
    with_blocks(
        dest_bytes,
        keyed_missing(
            keys_of_items(text_items(dest_root.children@, dest_bytes, kinds)),
            text_items(src_root.children@, src_bytes, kinds),
        ),
    )
}

/// The kinds of the top-level blocks of a style sheet.
pub open spec fn css_kinds() -> Seq<Seq<char>> {
    seq!["rule"@, "at_rule"@]
}

/// The merge of two style sheets: the destination with the template's rules
/// that it lacks, where both are UTF-8 and parse.
pub open spec fn merged_css(dest: Seq<u8>, src: Seq<u8>) -> Option<Seq<u8>> {
    if valid_utf8(dest) && valid_utf8(src) && parsed(Grammar::Css, decode_utf8(dest)) is Some
        && parsed(Grammar::Css, decode_utf8(src)) is Some {
        Some(
            merged_text_blocks(
                dest,
                src,
                parsed(Grammar::Css, decode_utf8(dest))->0,
                parsed(Grammar::Css, decode_utf8(src))->0,
                css_kinds(),
            ),
        )
    } else {
        None
    }
}

/// The named children of the root whose kind holds one of `kinds`, each
/// with its text and, as its key, that text with white space normalized.
pub fn ts_text_items(root: &SyntaxNode, bytes: &[u8], kinds: &Vec<Vec<char>>) -> (r: Vec<KeyedText>)
    ensures
        keyed_views(r@) == text_items(root.children@, bytes@, text::views(kinds@)),
{
    let ghost cs = root.children@;
    let mut out: Vec<KeyedText> = Vec::new();
    let mut i: usize = 0;
    while i < root.children.len()
        invariant
            i <= root.children.len(),
            cs == root.children@,
            keyed_views(out@) == text_items(cs.take(i as int), bytes@, text::views(kinds@)),
        decreases root.children.len() - i,
    {
        assert(cs.take(i + 1).drop_last() =~= cs.take(i as int));
        assert(cs.take(i + 1).last() == cs[i as int]);
        let child = &root.children[i];
        if child.named {
            let kind_lower = chars::to_ascii_lowercase(&child.kind);
            if contains_any(&kind_lower, kinds) {
                let t = node_text_or_empty(child, bytes);
                let item = KeyedText { key: chars::normalize_ws(&t), text: t };
                let ghost before = keyed_views(out@);
                let ghost iv = item@;
                out.push(item);
                assert(keyed_views(out@) =~= before.push(iv));
            }
        }
        i += 1;
    }
    assert(cs.take(root.children.len() as int) =~= cs);
    out
}

/// Merges two parsed files by the text of their top-level blocks: a block
/// of the template whose text, white space apart, is no block of the
/// destination is added at the destination's end.
pub fn merge_text_top_level(
    dest_bytes: &[u8],
    src_bytes: &[u8],
    dest_root: &SyntaxNode,
    src_root: &SyntaxNode,
    kinds: &Vec<Vec<char>>,
) -> (out: Vec<u8>)
    ensures
        out@ == merged_text_blocks(
            dest_bytes@,
            src_bytes@,
            *dest_root,
            *src_root,
            text::views(kinds@),
        ),
{
    let dest_items = ts_text_items(dest_root, dest_bytes, kinds);
    let dest_keys = item_keys(&dest_items);
    let src_items = ts_text_items(src_root, src_bytes, kinds);
    let add = missing_keyed(&dest_keys, &src_items);
    add_blocks(dest_bytes, &add)
}

/// Merges two style sheets.
pub fn merge_css(dest_bytes: &[u8], src_bytes: &[u8]) -> (r: Option<Vec<u8>>)
    ensures
        match r {
            Some(out) => merged_css(dest_bytes@, src_bytes@) == Some(out@),
            None => merged_css(dest_bytes@, src_bytes@) is None,
        },
{
    match parse_both(Grammar::Css, dest_bytes, src_bytes) {
        None => None,
        Some((dest_root, src_root)) => {
            let mut kinds: Vec<Vec<char>> = Vec::new();
            kinds.push(chars::from_str("rule"));
            kinds.push(chars::from_str("at_rule"));
            assert(text::views(kinds@) =~= css_kinds());
            Some(merge_text_top_level(dest_bytes, src_bytes, &dest_root, &src_root, &kinds))
        },
    }
}

} // verus!
