//! The merge of HTML files by their assets: the `script` elements with a
//! `src` and the `link` elements with an `href`. An asset of the template
//! that the destination does not have is added at the destination's end.

use crate::chars;
use crate::merge::append::{
    add_blocks, item_keys, keyed_missing, keyed_views, keys_of_items, missing_keyed, with_blocks,
    KeyedText,
};
use crate::merge::source::parse_both;
use crate::merge::syntax::{
    all_nodes, child_of_kind, derefs, holding, kind_index, lemma_kind_index_bounds, node_text,
    nodes_holding, parsed, text_of, Grammar, SyntaxNode,
};
use crate::text;
use vstd::prelude::*;
use vstd::utf8::{decode_utf8, valid_utf8};

verus! {

/// A single or a double quote.
pub open spec fn is_quote(c: char) -> bool {
    c == '"' || c == '\''
}

/// The first index at or after `from` that holds no quote, or the length of
/// `s`.
pub open spec fn skip_quotes(s: Seq<char>, from: int) -> int
    decreases s.len() - from,
{
    if 0 <= from < s.len() && is_quote(s[from]) {
        skip_quotes(s, from + 1)
    } else {
        from
    }
}

/// The least `end <= to` such that `s[end..to]` holds quotes only.
pub open spec fn skip_quotes_back(s: Seq<char>, to: int) -> int
    decreases to,
{
    if 0 < to <= s.len() && is_quote(s[to - 1]) {
        skip_quotes_back(s, to - 1)
    } else {
        to
    }
}

/// The text without the quotes at its start and at its end.
pub open spec fn trim_quotes(s: Seq<char>) -> Seq<char> {
    let t = s.skip(skip_quotes(s, 0));
    t.take(skip_quotes_back(t, t.len() as int))
}

/// The index of the first named child from `from` on that is a start tag or
/// a self-closing tag, or the number of children.
pub open spec fn tag_index(children: Seq<SyntaxNode>, from: int) -> int
    decreases children.len() - from,
{
    if 0 <= from < children.len() && !(children[from].named && (children[from].kind@
        == "start_tag"@ || children[from].kind@ == "self_closing_tag"@)) {
        tag_index(children, from + 1)
    } else {
        from
    }
}

/// The greatest index below `to` of a named child of kind `k1` or `k2`,
/// or -1.
pub open spec fn last_of_kinds(children: Seq<SyntaxNode>, k1: Seq<char>, k2: Seq<char>, to: int) -> int
    decreases to,
{
    if to <= 0 || to > children.len() {
        -1
    } else if children[to - 1].named && (children[to - 1].kind@ == k1 || children[to - 1].kind@
        == k2) {
        to - 1
    } else {
        last_of_kinds(children, k1, k2, to - 1)
    }
}

/// The name of a tag, in lower case.
pub open spec fn tag_name_of(tag: SyntaxNode, bytes: Seq<u8>) -> Option<Seq<char>> {
    let i = kind_index(tag.children@, "tag_name"@, 0);
    if 0 <= i < tag.children@.len() {
        match text_of(tag.children@[i], bytes) {
            Some(t) => Some(text::to_ascii_lowercase(t)),
            None => None,
        }
    } else {
        None
    }
}

/// The name of an attribute, in lower case: that of its last name node.
pub open spec fn attr_name_text(attr: SyntaxNode, bytes: Seq<u8>) -> Option<Seq<char>> {
    let i = last_of_kinds(
        attr.children@,
        "attribute_name"@,
        "attribute_name"@,
        attr.children@.len() as int,
    );
    if 0 <= i < attr.children@.len() {
        match text_of(attr.children@[i], bytes) {
            Some(t) => Some(text::to_ascii_lowercase(t)),
            None => None,
        }
    } else {
        None
    }
}

/// The value of an attribute, trimmed: that of its last value node.
pub open spec fn attr_value_text(attr: SyntaxNode, bytes: Seq<u8>) -> Option<Seq<char>> {
    let i = last_of_kinds(
        attr.children@,
        "attribute_value"@,
        "quoted_attribute_value"@,
        attr.children@.len() as int,
    );
    if 0 <= i < attr.children@.len() {
        match text_of(attr.children@[i], bytes) {
            Some(t) => Some(text::trim(t)),
            None => None,
        }
    } else {
        None
    }
}

/// The value, without quotes, of the first attribute from `from` on that is
/// named `name`. An attribute without a name before it ends the search with
/// nothing, and so does a missing value.
pub open spec fn attr_value_from(
    children: Seq<SyntaxNode>,
    name: Seq<char>,
    bytes: Seq<u8>,
    from: int,
) -> Option<Seq<char>>
    decreases children.len() - from,
{
    if from < 0 || from >= children.len() {
        None
    } else if !(children[from].named && children[from].kind@ == "attribute"@) {
        attr_value_from(children, name, bytes, from + 1)
    } else {
        match attr_name_text(children[from], bytes) {
            None => None,
            Some(n) => {
                if n != name {
                    attr_value_from(children, name, bytes, from + 1)
                } else {
                    match attr_value_text(children[from], bytes) {
                        None => None,
                        Some(v) => Some(trim_quotes(v)),
                    }
                }
            },
        }
    }
}

/// The asset that an element is: its key, `script:` or `link:` before the
/// address with white space normalized, and its text.
pub open spec fn asset_of(node: SyntaxNode, bytes: Seq<u8>) -> Option<(Seq<char>, Seq<char>)> {
    let ti = tag_index(node.children@, 0);
    if !(0 <= ti < node.children@.len()) {
        None
    } else {
        let tag = node.children@[ti];
        match tag_name_of(tag, bytes) {
            None => None,
            Some(name) => {
                if name == "script"@ {
                    match (attr_value_from(tag.children@, "src"@, bytes, 0), text_of(node, bytes)) {
                        (Some(v), Some(t)) => Some(("script:"@ + text::normalize_ws(v), t)),
                        _ => None,
                    }
                } else if name == "link"@ {
                    match (attr_value_from(tag.children@, "href"@, bytes, 0), text_of(node, bytes)) {
                        (Some(v), Some(t)) => Some(("link:"@ + text::normalize_ws(v), t)),
                        _ => None,
                    }
                } else {
                    None
                }
            },
        }
    }
}

/// The assets that the nodes are, in their order.
pub open spec fn asset_entries(nodes: Seq<SyntaxNode>, bytes: Seq<u8>) -> Seq<(Seq<char>, Seq<char>)>
    decreases nodes.len(),
{
    if nodes.len() == 0 {
        Seq::empty()
    } else {
        let rest = asset_entries(nodes.drop_last(), bytes);
        match asset_of(nodes.last(), bytes) {
            Some(a) => rest.push(a),
            None => rest,
        }
    }
}

/// The assets of a parsed file, in the order of the tree walk.
pub open spec fn assets(root: SyntaxNode, bytes: Seq<u8>) -> Seq<(Seq<char>, Seq<char>)> {
    asset_entries(holding(all_nodes(root), "element"@), bytes)
}

/// The merge of two parsed HTML files.
pub open spec fn merged_assets(
    dest_bytes: Seq<u8>,
    src_bytes: Seq<u8>,
    dest_root: SyntaxNode,
    src_root: SyntaxNode,
) -> Seq<u8> {
    with_blocks(
        dest_bytes,
        keyed_missing(keys_of_items(assets(dest_root, dest_bytes)), assets(src_root, src_bytes)),
    )
}

/// The merge of two pages: the destination with the template's assets that it
/// lacks, where both are UTF-8 and parse.
pub open spec fn merged_html(dest: Seq<u8>, src: Seq<u8>) -> Option<Seq<u8>> {
    if valid_utf8(dest) && valid_utf8(src) && parsed(Grammar::Html, decode_utf8(dest)) is Some
        && parsed(Grammar::Html, decode_utf8(src)) is Some {
        Some(
            merged_assets(
                dest,
                src,
                parsed(Grammar::Html, decode_utf8(dest))->0,
                parsed(Grammar::Html, decode_utf8(src))->0,
            ),
        )
    } else {
        None
    }
}

fn strip_quotes(v: &Vec<char>) -> (r: Vec<char>)
    ensures
        r@ == trim_quotes(v@),
{
    let mut a: usize = 0;
    while a < v.len() && (v[a] == '"' || v[a] == '\'')
        invariant
            a <= v.len(),
            skip_quotes(v@, 0) == skip_quotes(v@, a as int),
        decreases v.len() - a,
    {
        a += 1;
    }
    let t = chars::slice(v, a, v.len());
    assert(t@ =~= v@.skip(a as int));
    let mut b: usize = t.len();
    while b > 0 && (t[b - 1] == '"' || t[b - 1] == '\'')
        invariant
            b <= t.len(),
            skip_quotes_back(t@, t@.len() as int) == skip_quotes_back(t@, b as int),
        decreases b,
    {
        b -= 1;
    }
    let r = chars::slice(&t, 0, b);
    assert(r@ =~= t@.take(b as int));
    r
}

/// The first named child of an element that is a start tag or a
/// self-closing tag.
pub fn find_html_start_tag<'a>(node: &'a SyntaxNode) -> (r: Option<&'a SyntaxNode>)
    ensures
        match r {
            Some(t) => tag_index(node.children@, 0) < node.children@.len() && *t
                == node.children@[tag_index(node.children@, 0)],
            None => tag_index(node.children@, 0) >= node.children@.len(),
        },
        0 <= tag_index(node.children@, 0),
{
    let mut i: usize = 0;
    while i < node.children.len()
        invariant
            i <= node.children.len(),
            tag_index(node.children@, 0) == tag_index(node.children@, i as int),
        decreases node.children.len() - i,
    {
        let c = &node.children[i];
        if c.named && (chars::eq_str(&c.kind, "start_tag") || chars::eq_str(
            &c.kind,
            "self_closing_tag",
        )) {
            return Some(c);
        }
        i += 1;
    }
    None
}

fn last_child_of_kinds<'a>(node: &'a SyntaxNode, k1: &str, k2: &str) -> (r: Option<&'a SyntaxNode>)
    ensures
        match r {
            Some(c) => 0 <= last_of_kinds(node.children@, k1@, k2@, node.children@.len() as int)
                < node.children@.len() && *c == node.children@[last_of_kinds(
                node.children@,
                k1@,
                k2@,
                node.children@.len() as int,
            )],
            None => last_of_kinds(node.children@, k1@, k2@, node.children@.len() as int) == -1,
        },
{
    let mut i: usize = node.children.len();
    while i > 0
        invariant
            i <= node.children.len(),
            last_of_kinds(node.children@, k1@, k2@, node.children@.len() as int) == last_of_kinds(
                node.children@,
                k1@,
                k2@,
                i as int,
            ),
        decreases i,
    {
        let c = &node.children[i - 1];
        if c.named && (chars::eq_str(&c.kind, k1) || chars::eq_str(&c.kind, k2)) {
            return Some(c);
        }
        i -= 1;
    }
    None
}

/// The name of a tag.
pub fn html_tag_name(tag: &SyntaxNode, bytes: &[u8]) -> (r: Option<Vec<char>>)
    ensures
        match r {
            Some(n) => tag_name_of(*tag, bytes@) == Some(n@),
            None => tag_name_of(*tag, bytes@) is None,
        },
{
    proof {
        lemma_kind_index_bounds(tag.children@, "tag_name"@, 0);
    }
    match child_of_kind(tag, "tag_name") {
        None => None,
        Some(c) => {
            match node_text(c, bytes) {
                Some(t) => Some(chars::to_ascii_lowercase(&t)),
                None => None,
            }
        },
    }
}

fn attribute_name(attr: &SyntaxNode, bytes: &[u8]) -> (r: Option<Vec<char>>)
    ensures
        match r {
            Some(n) => attr_name_text(*attr, bytes@) == Some(n@),
            None => attr_name_text(*attr, bytes@) is None,
        },
{
    match last_child_of_kinds(attr, "attribute_name", "attribute_name") {
        None => None,
        Some(c) => {
            match node_text(c, bytes) {
                Some(t) => Some(chars::to_ascii_lowercase(&t)),
                None => None,
            }
        },
    }
}

fn attribute_value(attr: &SyntaxNode, bytes: &[u8]) -> (r: Option<Vec<char>>)
    ensures
        match r {
            Some(n) => attr_value_text(*attr, bytes@) == Some(n@),
            None => attr_value_text(*attr, bytes@) is None,
        },
{
    match last_child_of_kinds(attr, "attribute_value", "quoted_attribute_value") {
        None => None,
        Some(c) => {
            match node_text(c, bytes) {
                Some(t) => Some(chars::trim(&t)),
                None => None,
            }
        },
    }
}

/// The value of the first attribute of a tag with the given name, without its
/// quotes.
pub fn html_attr_value(tag: &SyntaxNode, attr_name: &str, bytes: &[u8]) -> (r: Option<Vec<char>>)
    ensures
        match r {
            Some(v) => attr_value_from(tag.children@, attr_name@, bytes@, 0) == Some(v@),
            None => attr_value_from(tag.children@, attr_name@, bytes@, 0) is None,
        },
{
    let mut i: usize = 0;
    while i < tag.children.len()
        invariant
            i <= tag.children.len(),
            attr_value_from(tag.children@, attr_name@, bytes@, 0) == attr_value_from(
                tag.children@,
                attr_name@,
                bytes@,
                i as int,
            ),
        decreases tag.children.len() - i,
    {
        let c = &tag.children[i];
        if c.named && chars::eq_str(&c.kind, "attribute") {
            let name = match attribute_name(c, bytes) {
                Some(n) => n,
                None => { return None; },
            };
            if chars::eq_str(&name, attr_name) {
                return match attribute_value(c, bytes) {
                    Some(v) => Some(strip_quotes(&v)),
                    None => None,
                };
            }
        }
        i += 1;
    }
    None
}

fn keyed(prefix: &str, address: &Vec<char>, text: Vec<char>) -> (r: KeyedText)
    ensures
        r@ == (prefix@ + text::normalize_ws(address@), text@),
{
    let mut key = chars::from_str(prefix);
    let norm = chars::normalize_ws(address);
    chars::append(&mut key, &norm);
    KeyedText { key, text }
}

/// The asset that an element names: a script with a `src`, or a link with an
/// `href`; its key and its text.
pub fn html_asset_from_element(node: &SyntaxNode, bytes: &[u8]) -> (r: Option<KeyedText>)
    ensures
        match r {
            Some(a) => asset_of(*node, bytes@) == Some(a@),
            None => asset_of(*node, bytes@) is None,
        },
{
    let tag = match find_html_start_tag(node) {
        Some(t) => t,
        None => { return None; },
    };
    let name = match html_tag_name(tag, bytes) {
        Some(n) => n,
        None => { return None; },
    };
    if chars::eq_str(&name, "script") {
        let v = match html_attr_value(tag, "src", bytes) {
            Some(v) => v,
            None => { return None; },
        };
        match node_text(node, bytes) {
            Some(t) => Some(keyed("script:", &v, t)),
            None => None,
        }
    } else if chars::eq_str(&name, "link") {
        let v = match html_attr_value(tag, "href", bytes) {
            Some(v) => v,
            None => { return None; },
        };
        match node_text(node, bytes) {
            Some(t) => Some(keyed("link:", &v, t)),
            None => None,
        }
    } else {
        None
    }
}

/// The assets of a parsed file, in the order of the tree walk.
pub fn html_assets(root: &SyntaxNode, bytes: &[u8]) -> (r: Vec<KeyedText>)
    ensures
        keyed_views(r@) == assets(*root, bytes@),
{
    let nodes = nodes_holding(root, "element");
    let ghost ns = derefs(nodes@);
    let mut out: Vec<KeyedText> = Vec::new();
    let mut i: usize = 0;
    while i < nodes.len()
        invariant
            i <= nodes.len(),
            ns == derefs(nodes@),
            keyed_views(out@) == asset_entries(ns.take(i as int), bytes@),
        decreases nodes.len() - i,
    {
        assert(ns.take(i + 1).drop_last() =~= ns.take(i as int));
        assert(ns.take(i + 1).last() == *nodes@[i as int]);
        match html_asset_from_element(nodes[i], bytes) {
            Some(a) => {
                let ghost before = keyed_views(out@);
                let ghost av = a@;
                out.push(a);
                assert(keyed_views(out@) =~= before.push(av));
            },
            None => {},
        }
        i += 1;
    }
    assert(ns.take(nodes.len() as int) =~= ns);
    out
}

/// The keys of the assets of a parsed file.
pub fn html_asset_keys(root: &SyntaxNode, bytes: &[u8]) -> (r: Vec<Vec<char>>)
    ensures
        text::views(r@) == keys_of_items(assets(*root, bytes@)),
{
    let found = html_assets(root, bytes);
    item_keys(&found)
}

/// Merges two parsed HTML files: each asset of the template whose key is
/// no key of an asset of the destination is added at the destination's end.
pub fn merge_html_assets(
    dest_bytes: &[u8],
    src_bytes: &[u8],
    dest_root: &SyntaxNode,
    src_root: &SyntaxNode,
) -> (out: Vec<u8>)
    ensures
        out@ == merged_assets(dest_bytes@, src_bytes@, *dest_root, *src_root),
{
    let dest_keys = html_asset_keys(dest_root, dest_bytes);
    let src_assets = html_assets(src_root, src_bytes);
    let add = missing_keyed(&dest_keys, &src_assets);
    add_blocks(dest_bytes, &add)
}

/// Merges two pages.
pub fn merge_html(dest_bytes: &[u8], src_bytes: &[u8]) -> (r: Option<Vec<u8>>)
    ensures
        match r {
            Some(out) => merged_html(dest_bytes@, src_bytes@) == Some(out@),
            None => merged_html(dest_bytes@, src_bytes@) is None,
        },
{
    match parse_both(Grammar::Html, dest_bytes, src_bytes) {
        None => None,
        Some((dest_root, src_root)) => Some(
            merge_html_assets(dest_bytes, src_bytes, &dest_root, &src_root),
        ),
    }
}

} // verus!
