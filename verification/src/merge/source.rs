//! The merge of source files by their top-level items.
//!
//! Both files are parsed. An import of the template that the destination
//! lacks is put after the destination's leading imports and comments; a
//! named declaration that it lacks is added at its end. Nothing that stands
//! in the destination is changed.

use crate::chars;
use crate::merge::append::{
    append_blocks, append_bytes, append_trimmed_lines, blocks, bytes_with_final_newline,
    end_bytes_with_newline, trimmed_lines,
};
use crate::merge::syntax::{
    child_by_field, child_of_kind, field_index, kind_index, lemma_field_index_bounds,
    lemma_kind_index_bounds, node_text, node_text_or_empty, parse, parsed, text_of, text_or_empty,
    Grammar, SyntaxNode,
};
use crate::text;
use vstd::prelude::*;
use vstd::slice::{slice_subrange, slice_to_vec};
use vstd::utf8::{decode_utf8, valid_utf8};

verus! {

/// What tells the items of a language apart: parts of node kinds.
#[derive(Debug)]
pub struct LangMergeRules {
    /// A kind that holds one of these is an import.
    pub import_like: Vec<Vec<char>>,
    /// A kind that holds one of these, and is no import, is a named
    /// declaration.
    pub named_like: Vec<Vec<char>>,
    /// Leave the template's namespace nodes out where the destination
    /// declares a namespace.
    pub skip_if_dest_has_namespace: bool,
}

/// The rules of a language as a mathematical value.
pub ghost struct RulesView {
    pub import_like: Seq<Seq<char>>,
    pub named_like: Seq<Seq<char>>,
    pub skip_if_dest_has_namespace: bool,
}

impl View for LangMergeRules {
    type V = RulesView;

    open spec fn view(&self) -> RulesView {
        RulesView {
            import_like: text::views(self.import_like@),
            named_like: text::views(self.named_like@),
            skip_if_dest_has_namespace: self.skip_if_dest_has_namespace,
        }
    }
}

/// A direct child of the root of a parsed file, as the merge reads it.
#[derive(Debug)]
pub struct TopLevelItem {
    pub kind: Vec<char>,
    pub kind_lower: Vec<char>,
    pub end_byte: usize,
    pub text: Vec<char>,
    pub name: Option<Vec<char>>,
    pub is_namespace: bool,
    pub is_import: bool,
    pub is_named: bool,
}

/// A top-level item as a mathematical value.
pub ghost struct ItemView {
    pub kind: Seq<char>,
    pub kind_lower: Seq<char>,
    pub end_byte: int,
    pub text: Seq<char>,
    pub name: Option<Seq<char>>,
    pub is_namespace: bool,
    pub is_import: bool,
    pub is_named: bool,
}

impl View for TopLevelItem {
    type V = ItemView;

    open spec fn view(&self) -> ItemView {
        ItemView {
            kind: self.kind@,
            kind_lower: self.kind_lower@,
            end_byte: self.end_byte as int,
            text: self.text@,
            name: match self.name {
                Some(n) => Some(n@),
                None => None,
            },
            is_namespace: self.is_namespace,
            is_import: self.is_import,
            is_named: self.is_named,
        }
    }
}

/// The items as mathematical values.
pub open spec fn item_views(items: Seq<TopLevelItem>) -> Seq<ItemView> {
    items.map_values(|i: TopLevelItem| i@)
}

/// That by which an item is found again: an import by its text with white
/// space normalized, a named declaration by its kind and name.
pub enum ItemKey {
    Text(Seq<char>),
    Named { kind: Seq<char>, name: Seq<char> },
}

/// That by which an item is found again.
#[derive(Debug)]
pub enum TsKey {
    Text(Vec<char>),
    Named { kind: Vec<char>, name: Vec<char> },
}

impl View for TsKey {
    type V = ItemKey;

    open spec fn view(&self) -> ItemKey {
        match self {
            TsKey::Text(t) => ItemKey::Text(t@),
            TsKey::Named { kind, name } => ItemKey::Named { kind: kind@, name: name@ },
        }
    }
}

/// The keys as mathematical values.
pub open spec fn key_views(keys: Seq<TsKey>) -> Seq<ItemKey> {
    keys.map_values(|k: TsKey| k@)
}

/// Whether the text holds one of the needles; an empty needle counts for
/// nothing.
pub open spec fn any_contained(haystack: Seq<char>, needles: Seq<Seq<char>>) -> bool {
    exists|i: int|
        0 <= i < needles.len() && (#[trigger] needles[i]).len() > 0 && text::contains(
            haystack,
            needles[i],
        )
}

/// A kind that declares a namespace: it holds `namespace` and not `use`.
pub open spec fn is_namespace_kind(kind_lower: Seq<char>) -> bool {
    text::contains(kind_lower, "namespace"@) && !text::contains(kind_lower, "use"@)
}

/// A call whose first identifier is `require` or `require_relative`.
pub open spec fn is_require_call(node: SyntaxNode, bytes: Seq<u8>) -> bool {
    let i = kind_index(node.children@, "identifier"@, 0);
    &&& i < node.children@.len()
    &&& text_of(node.children@[i], bytes) matches Some(t)
    &&& (text::trim(t) == "require"@ || text::trim(t) == "require_relative"@)
}

/// Whether a node imports: its kind holds one of the language's words for
/// imports, or it is a call of `require` in a language that imports so.
pub open spec fn import_like(
    node: SyntaxNode,
    kind_lower: Seq<char>,
    rules: RulesView,
    bytes: Seq<u8>,
) -> bool {
    ||| any_contained(kind_lower, rules.import_like)
    ||| (rules.import_like.contains("require"@) && (kind_lower == "call"@ || kind_lower
        == "command"@) && is_require_call(node, bytes))
}

/// The name of a declaration: the text of its `name` field; else the name of
/// the node in its `declaration` field; else the text of its first
/// identifier.
pub open spec fn item_name(node: SyntaxNode, bytes: Seq<u8>) -> Option<Seq<char>>
    decreases node,
{
    let ni = field_index(node.children@, "name"@, 0);
    if 0 <= ni < node.children@.len() {
        text_of(node.children@[ni], bytes)
    } else {
        let di = field_index(node.children@, "declaration"@, 0);
        let inner = if 0 <= di < node.children@.len() {
            item_name(node.children@[di], bytes)
        } else {
            None
        };
        if inner is Some {
            inner
        } else {
            let ii = kind_index(node.children@, "identifier"@, 0);
            if 0 <= ii < node.children@.len() {
                text_of(node.children@[ii], bytes)
            } else {
                None
            }
        }
    }
}

/// The item that a node is.
pub open spec fn item_of(node: SyntaxNode, bytes: Seq<u8>, rules: RulesView) -> ItemView {
    let kind_lower = text::to_ascii_lowercase(node.kind@);
    let is_import = import_like(node, kind_lower, rules, bytes);
    let is_named = !is_import && any_contained(kind_lower, rules.named_like);
    ItemView {
        kind: node.kind@,
        kind_lower,
        end_byte: node.end_byte as int,
        text: text_or_empty(node, bytes),
        name: if is_named {
            item_name(node, bytes)
        } else {
            None
        },
        is_namespace: is_namespace_kind(kind_lower),
        is_import,
        is_named,
    }
}

/// The items of the named nodes among `children`; with `skip_namespaces`,
/// without the namespace nodes.
pub open spec fn top_level_items(
    children: Seq<SyntaxNode>,
    bytes: Seq<u8>,
    rules: RulesView,
    skip_namespaces: bool,
) -> Seq<ItemView>
    decreases children.len(),
{
    if children.len() == 0 {
        Seq::empty()
    } else {
        let rest = top_level_items(children.drop_last(), bytes, rules, skip_namespaces);
        let item = item_of(children.last(), bytes, rules);
        if !children.last().named || (skip_namespaces && item.is_namespace) {
            rest
        } else {
            rest.push(item)
        }
    }
}

/// Whether one of the items declares a namespace.
pub open spec fn has_namespace(items: Seq<ItemView>) -> bool {
    exists|i: int| 0 <= i < items.len() && (#[trigger] items[i]).is_namespace
}

/// An item that may stand before the imports: a namespace, an import, a
/// comment or a shebang line.
pub open spec fn in_preamble(item: ItemView) -> bool {
    ||| item.is_namespace
    ||| item.is_import
    ||| text::contains(item.kind_lower, "comment"@)
    ||| text::contains(item.kind_lower, "shebang"@)
    ||| text::contains(item.kind_lower, "hash_bang"@)
}

/// The number of items from `from` on that are all `in_preamble`.
pub open spec fn preamble_end(items: Seq<ItemView>, from: int) -> int
    decreases items.len() - from,
{
    if 0 <= from < items.len() && in_preamble(items[from]) {
        preamble_end(items, from + 1)
    } else {
        from
    }
}

/// The byte after the last item of the leading preamble; 0 without one.
pub open spec fn insertion_byte(items: Seq<ItemView>) -> int {
    let n = preamble_end(items, 0);
    if 0 < n <= items.len() {
        items[n - 1].end_byte
    } else {
        0
    }
}

/// The keys under which the destination holds an item.
pub open spec fn keys_of(items: Seq<ItemView>) -> Seq<ItemKey>
    decreases items.len(),
{
    if items.len() == 0 {
        Seq::empty()
    } else {
        let rest = keys_of(items.drop_last());
        let item = items.last();
        let with_text = if item.is_import {
            rest.push(ItemKey::Text(text::normalize_ws(item.text)))
        } else {
            rest
        };
        if item.is_named && item.name is Some {
            with_text.push(ItemKey::Named { kind: item.kind, name: item.name->0 })
        } else {
            with_text
        }
    }
}

/// What the template adds: the keys known so far, and the texts of the
/// missing imports and of the missing named declarations.
pub ghost struct Pending {
    pub keys: Seq<ItemKey>,
    pub imports: Seq<Seq<char>>,
    pub named: Seq<Seq<char>>,
}

/// One template item after the other: an item whose key is known is passed
/// over; another becomes known and its text is kept.
pub open spec fn collect_missing(keys: Seq<ItemKey>, items: Seq<ItemView>) -> Pending
    decreases items.len(),
{
    if items.len() == 0 {
        Pending { keys, imports: Seq::empty(), named: Seq::empty() }
    } else {
        let p = collect_missing(keys, items.drop_last());
        let item = items.last();
        if item.is_import {
            let key = ItemKey::Text(text::normalize_ws(item.text));
            if p.keys.contains(key) {
                p
            } else {
                Pending { keys: p.keys.push(key), imports: p.imports.push(item.text), named: p.named }
            }
        } else if item.is_named && item.name is Some {
            let key = ItemKey::Named { kind: item.kind, name: item.name->0 };
            if p.keys.contains(key) {
                p
            } else {
                Pending { keys: p.keys.push(key), imports: p.imports, named: p.named.push(item.text) }
            }
        } else {
            p
        }
    }
}

/// The file with the imports put in at byte `at`, each on a line of its own.
pub open spec fn with_imports(dest: Seq<u8>, at: int, imports: Seq<Seq<char>>) -> Seq<u8> {
    if imports.len() == 0 {
        dest
    } else {
        let a = if at < 0 {
            0
        } else if at > dest.len() {
            dest.len() as int
        } else {
            at
        };
        bytes_with_final_newline(dest.take(a)) + trimmed_lines(imports) + dest.skip(a)
    }
}

/// The file with the named declarations at its end, an empty line before
/// each.
pub open spec fn with_named(out: Seq<u8>, named: Seq<Seq<char>>) -> Seq<u8> {
    if named.len() == 0 {
        out
    } else {
        bytes_with_final_newline(out) + blocks(named)
    }
}

/// The merge of two parsed source files.
pub open spec fn merged_items(
    dest_bytes: Seq<u8>,
    src_bytes: Seq<u8>,
    dest_root: SyntaxNode,
    src_root: SyntaxNode,
    rules: RulesView,
) -> Seq<u8> {
    let dest_items = top_level_items(dest_root.children@, dest_bytes, rules, false);
    let src_items = top_level_items(
        src_root.children@,
        src_bytes,
        rules,
        rules.skip_if_dest_has_namespace && has_namespace(dest_items),
    );
    let p = collect_missing(keys_of(dest_items), src_items);
    with_named(with_imports(dest_bytes, insertion_byte(dest_items), p.imports), p.named)
}

/// Additivity of the merge. The merged file is the destination with text
/// put in at one place and text put behind its end: every byte of the
/// destination stays, in its order.
pub proof fn lemma_merged_items_keeps_destination(
    dest_bytes: Seq<u8>,
    src_bytes: Seq<u8>,
    dest_root: SyntaxNode,
    src_root: SyntaxNode,
    rules: RulesView,
)
    ensures
        exists|at: int, put_in: Seq<u8>, put_behind: Seq<u8>|
            0 <= at <= dest_bytes.len() && #[trigger] with_parts(dest_bytes, at, put_in, put_behind)
                == merged_items(dest_bytes, src_bytes, dest_root, src_root, rules),
{
    let dest_items = top_level_items(dest_root.children@, dest_bytes, rules, false);
    let src_items = top_level_items(
        src_root.children@,
        src_bytes,
        rules,
        rules.skip_if_dest_has_namespace && has_namespace(dest_items),
    );
    let p = collect_missing(keys_of(dest_items), src_items);
    let raw = insertion_byte(dest_items);
    let at = if raw < 0 {
        0
    } else if raw > dest_bytes.len() {
        dest_bytes.len() as int
    } else {
        raw
    };
    let head = dest_bytes.take(at);
    let put_in = if p.imports.len() == 0 {
        Seq::<u8>::empty()
    } else {
        bytes_with_final_newline(head).skip(at) + trimmed_lines(p.imports)
    };
    let mid = with_imports(dest_bytes, raw, p.imports);
    assert(mid =~= head + put_in + dest_bytes.skip(at));
    let put_behind = if p.named.len() == 0 {
        Seq::<u8>::empty()
    } else {
        bytes_with_final_newline(mid).skip(mid.len() as int) + blocks(p.named)
    };
    assert(with_named(mid, p.named) =~= mid + put_behind);
    assert(with_parts(dest_bytes, at, put_in, put_behind) =~= merged_items(
        dest_bytes,
        src_bytes,
        dest_root,
        src_root,
        rules,
    ));
}

/// A file with text put in at a place and text put behind its end.
pub open spec fn with_parts(dest: Seq<u8>, at: int, put_in: Seq<u8>, put_behind: Seq<u8>) -> Seq<u8> {
    dest.take(at) + put_in + dest.skip(at) + put_behind
}

/// Whether the text holds one of the needles.
pub fn contains_any(haystack: &Vec<char>, needles: &Vec<Vec<char>>) -> (r: bool)
    ensures
        r == any_contained(haystack@, text::views(needles@)),
{
    let ghost ns = text::views(needles@);
    let mut i: usize = 0;
    while i < needles.len()
        invariant
            i <= needles.len(),
            ns == text::views(needles@),
            forall|j: int| 0 <= j < i ==> !((#[trigger] ns[j]).len() > 0 && text::contains(haystack@, ns[j])),
        decreases needles.len() - i,
    {
        assert(ns[i as int] == needles@[i as int]@);
        if needles[i].len() > 0 && chars::contains(haystack, &needles[i]) {
            return true;
        }
        i += 1;
    }
    false
}

fn contains_str(haystack: &Vec<char>, needle: &str) -> (r: bool)
    ensures
        r == text::contains(haystack@, needle@),
{
    let n = chars::from_str(needle);
    chars::contains(haystack, &n)
}

fn list_has_str(list: &Vec<Vec<char>>, s: &str) -> (r: bool)
    ensures
        r == text::views(list@).contains(s@),
{
    let v = chars::from_str(s);
    chars::list_contains(list, &v)
}

fn require_call(node: &SyntaxNode, bytes: &[u8]) -> (r: bool)
    ensures
        r == is_require_call(*node, bytes@),
{
    match child_of_kind(node, "identifier") {
        None => false,
        Some(child) => {
            match node_text(child, bytes) {
                None => false,
                Some(t) => {
                    let name = chars::trim(&t);
                    chars::eq_str(&name, "require") || chars::eq_str(&name, "require_relative")
                },
            }
        },
    }
}

/// Whether a node imports.
pub fn ts_is_import_like(
    node: &SyntaxNode,
    kind_lower: &Vec<char>,
    rules: &LangMergeRules,
    bytes: &[u8],
) -> (r: bool)
    ensures
        r == import_like(*node, kind_lower@, rules@, bytes@),
{
    if contains_any(kind_lower, &rules.import_like) {
        return true;
    }
    if list_has_str(&rules.import_like, "require") && (chars::eq_str(kind_lower, "call")
        || chars::eq_str(kind_lower, "command")) {
        return require_call(node, bytes);
    }
    false
}

/// The name that a declaration declares, if it has one.
pub fn ts_item_name(node: &SyntaxNode, bytes: &[u8]) -> (r: Option<Vec<char>>)
    ensures
        match r {
            Some(n) => item_name(*node, bytes@) == Some(n@),
            None => item_name(*node, bytes@) is None,
        },
    decreases node,
{
    proof {
        lemma_field_index_bounds(node.children@, "name"@, 0);
        lemma_field_index_bounds(node.children@, "declaration"@, 0);
        lemma_kind_index_bounds(node.children@, "identifier"@, 0);
    }
    match child_by_field(node, "name") {
        Some(name) => {
            return node_text(name, bytes);
        },
        None => {},
    }
    match child_by_field(node, "declaration") {
        Some(decl) => {
            match ts_item_name(decl, bytes) {
                Some(n) => {
                    return Some(n);
                },
                None => {},
            }
        },
        None => {},
    }
    match child_of_kind(node, "identifier") {
        Some(id) => node_text(id, bytes),
        None => None,
    }
}

fn top_level_item(node: &SyntaxNode, bytes: &[u8], rules: &LangMergeRules) -> (r: TopLevelItem)
    ensures
        r@ == item_of(*node, bytes@, rules@),
{
    let kind = chars::clone(&node.kind);
    let kind_lower = chars::to_ascii_lowercase(&node.kind);
    let text = node_text_or_empty(node, bytes);
    let is_namespace = contains_str(&kind_lower, "namespace") && !contains_str(&kind_lower, "use");
    let is_import = ts_is_import_like(node, &kind_lower, rules, bytes);
    let is_named = !is_import && contains_any(&kind_lower, &rules.named_like);
    let name = if is_named {
        ts_item_name(node, bytes)
    } else {
        None
    };
    TopLevelItem {
        kind,
        kind_lower,
        end_byte: node.end_byte,
        text,
        name,
        is_namespace,
        is_import,
        is_named,
    }
}

/// The named children of the root as top-level items. With
/// `dest_has_namespace`, a language that asks for it leaves the template's
/// namespace out.
pub fn ts_top_level_items(
    root: &SyntaxNode,
    bytes: &[u8],
    rules: &LangMergeRules,
    dest_has_namespace: bool,
) -> (r: Vec<TopLevelItem>)
    ensures
        item_views(r@) == top_level_items(
            root.children@,
            bytes@,
            rules@,
            rules.skip_if_dest_has_namespace && dest_has_namespace,
        ),
{
    let skip = rules.skip_if_dest_has_namespace && dest_has_namespace;
    let mut out: Vec<TopLevelItem> = Vec::new();
    let mut i: usize = 0;
    let ghost cs = root.children@;
    while i < root.children.len()
        invariant
            i <= root.children.len(),
            cs == root.children@,
            item_views(out@) == top_level_items(cs.take(i as int), bytes@, rules@, skip),
        decreases root.children.len() - i,
    {
        assert(cs.take(i + 1).drop_last() =~= cs.take(i as int));
        assert(cs.take(i + 1).last() == cs[i as int]);
        let child = &root.children[i];
        if child.named {
            let item = top_level_item(child, bytes, rules);
            if !(skip && item.is_namespace) {
                let ghost before = item_views(out@);
                let ghost iv = item@;
                out.push(item);
                assert(item_views(out@) =~= before.push(iv));
            }
        }
        i += 1;
    }
    assert(cs.take(root.children.len() as int) =~= cs);
    out
}

fn item_in_preamble(item: &TopLevelItem) -> (r: bool)
    ensures
        r == in_preamble(item@),
{
    item.is_namespace || item.is_import || contains_str(&item.kind_lower, "comment")
        || contains_str(&item.kind_lower, "shebang") || contains_str(
        &item.kind_lower,
        "hash_bang",
    )
}

/// The byte behind the preamble, where imports are put in: 0 where there is
/// no preamble.
pub fn ts_import_insertion_byte(items: &Vec<TopLevelItem>) -> (r: usize)
    ensures
        r == insertion_byte(item_views(items@)),
{
    let ghost vs = item_views(items@);
    let mut insert_after: usize = 0;
    let mut i: usize = 0;
    while i < items.len() && item_in_preamble(&items[i])
        invariant
            i <= items.len(),
            vs == item_views(items@),
            preamble_end(vs, 0) == preamble_end(vs, i as int),
            i == 0 ==> insert_after == 0,
            i > 0 ==> insert_after == vs[i - 1].end_byte,
        decreases items.len() - i,
    {
        assert(vs[i as int] == items@[i as int]@);
        insert_after = items[i].end_byte;
        i += 1;
    }
    proof {
        if i < items.len() {
            assert(vs[i as int] == items@[i as int]@);
        }
    }
    insert_after
}

fn any_namespace(items: &Vec<TopLevelItem>) -> (r: bool)
    ensures
        r == has_namespace(item_views(items@)),
{
    let ghost vs = item_views(items@);
    let mut i: usize = 0;
    while i < items.len()
        invariant
            i <= items.len(),
            vs == item_views(items@),
            forall|j: int| 0 <= j < i ==> !(#[trigger] vs[j]).is_namespace,
        decreases items.len() - i,
    {
        assert(vs[i as int] == items@[i as int]@);
        if items[i].is_namespace {
            return true;
        }
        i += 1;
    }
    false
}

fn key_eq(a: &TsKey, b: &TsKey) -> (r: bool)
    ensures
        r == (a@ == b@),
{
    match (a, b) {
        (TsKey::Text(x), TsKey::Text(y)) => chars::eq(x, y),
        (TsKey::Named { kind: k1, name: n1 }, TsKey::Named { kind: k2, name: n2 }) => chars::eq(
            k1,
            k2,
        ) && chars::eq(n1, n2),
        _ => false,
    }
}

fn keys_contain(keys: &Vec<TsKey>, key: &TsKey) -> (r: bool)
    ensures
        r == key_views(keys@).contains(key@),
{
    let ghost ks = key_views(keys@);
    let mut i: usize = 0;
    while i < keys.len()
        invariant
            i <= keys.len(),
            ks == key_views(keys@),
            forall|j: int| 0 <= j < i ==> ks[j] != key@,
        decreases keys.len() - i,
    {
        assert(ks[i as int] == keys@[i as int]@);
        if key_eq(&keys[i], key) {
            return true;
        }
        i += 1;
    }
    false
}

fn text_key(item: &TopLevelItem) -> (r: TsKey)
    ensures
        r@ == ItemKey::Text(text::normalize_ws(item@.text)),
{
    TsKey::Text(chars::normalize_ws(&item.text))
}

fn dest_keys(items: &Vec<TopLevelItem>) -> (r: Vec<TsKey>)
    ensures
        key_views(r@) == keys_of(item_views(items@)),
{
    let ghost vs = item_views(items@);
    let mut keys: Vec<TsKey> = Vec::new();
    let mut i: usize = 0;
    while i < items.len()
        invariant
            i <= items.len(),
            vs == item_views(items@),
            key_views(keys@) == keys_of(vs.take(i as int)),
        decreases items.len() - i,
    {
        assert(vs.take(i + 1).drop_last() =~= vs.take(i as int));
        assert(vs.take(i + 1).last() == items@[i as int]@);
        let item = &items[i];
        if item.is_import {
            let ghost before = key_views(keys@);
            let k = text_key(item);
            let ghost kv = k@;
            keys.push(k);
            assert(key_views(keys@) =~= before.push(kv));
        }
        if item.is_named {
            match &item.name {
                Some(name) => {
                    let ghost before = key_views(keys@);
                    let k = TsKey::Named { kind: chars::clone(&item.kind), name: chars::clone(name) };
                    let ghost kv = k@;
                    keys.push(k);
                    assert(key_views(keys@) =~= before.push(kv));
                },
                None => {},
            }
        }
        i += 1;
    }
    assert(vs.take(items.len() as int) =~= vs);
    keys
}

/// Merges two parsed source files.
///
/// `dest_root` and `src_root` are the trees of `dest_bytes` and
/// `src_bytes`. The result is the destination with the template's missing
/// imports after its preamble and the template's missing named declarations
/// at its end; the destination itself where nothing is missing.
pub fn merge_named_top_level(
    dest_bytes: &[u8],
    src_bytes: &[u8],
    dest_root: &SyntaxNode,
    src_root: &SyntaxNode,
    rules: &LangMergeRules,
) -> (out: Vec<u8>)
    ensures
        out@ == merged_items(dest_bytes@, src_bytes@, *dest_root, *src_root, rules@),
{
    let dest_items = ts_top_level_items(dest_root, dest_bytes, rules, false);
    let dest_has_namespace = any_namespace(&dest_items);
    let at = ts_import_insertion_byte(&dest_items);
    let mut keys = dest_keys(&dest_items);
    let src_items = ts_top_level_items(src_root, src_bytes, rules, dest_has_namespace);

    let ghost keys0 = key_views(keys@);
    let ghost vs = item_views(src_items@);
    let mut imports: Vec<Vec<char>> = Vec::new();
    let mut named: Vec<Vec<char>> = Vec::new();
    let mut i: usize = 0;
    while i < src_items.len()
        invariant
            i <= src_items.len(),
            vs == item_views(src_items@),
            collect_missing(keys0, vs.take(i as int)).keys == key_views(keys@),
            collect_missing(keys0, vs.take(i as int)).imports == text::views(imports@),
            collect_missing(keys0, vs.take(i as int)).named == text::views(named@),
        decreases src_items.len() - i,
    {
        assert(vs.take(i + 1).drop_last() =~= vs.take(i as int));
        assert(vs.take(i + 1).last() == src_items@[i as int]@);
        let item = &src_items[i];
        let ghost kb = key_views(keys@);
        let ghost ib = text::views(imports@);
        let ghost nb = text::views(named@);
        if item.is_import {
            let k = text_key(item);
            if !keys_contain(&keys, &k) {
                let ghost kv = k@;
                keys.push(k);
                imports.push(chars::clone(&item.text));
                assert(key_views(keys@) =~= kb.push(kv));
                assert(text::views(imports@) =~= ib.push(item@.text));
            }
        } else if item.is_named {
            match &item.name {
                Some(name) => {
                    let k = TsKey::Named { kind: chars::clone(&item.kind), name: chars::clone(name) };
                    if !keys_contain(&keys, &k) {
                        let ghost kv = k@;
                        keys.push(k);
                        named.push(chars::clone(&item.text));
                        assert(key_views(keys@) =~= kb.push(kv));
                        assert(text::views(named@) =~= nb.push(item@.text));
                    }
                },
                None => {},
            }
        }
        i += 1;
    }
    assert(vs.take(src_items.len() as int) =~= vs);

    let mut out: Vec<u8> = Vec::new();
    if imports.len() == 0 {
        append_bytes(&mut out, dest_bytes);
        assert(out@ =~= dest_bytes@);
    } else {
        let a = if at > dest_bytes.len() {
            dest_bytes.len()
        } else {
            at
        };
        append_bytes(&mut out, slice_subrange(dest_bytes, 0, a));
        assert(out@ =~= dest_bytes@.take(a as int));
        end_bytes_with_newline(&mut out);
        append_trimmed_lines(&mut out, &imports);
        append_bytes(&mut out, slice_subrange(dest_bytes, a, dest_bytes.len()));
        assert(dest_bytes@.subrange(a as int, dest_bytes@.len() as int) =~= dest_bytes@.skip(
            a as int,
        ));
    }
    if named.len() > 0 {
        end_bytes_with_newline(&mut out);
        append_blocks(&mut out, &named);
    }
    out
}

fn push_word(list: &mut Vec<Vec<char>>, word: &str)
    ensures
        text::views(final(list)@) == text::views(old(list)@).push(word@),
{
    list.push(chars::from_str(word));
    assert(text::views(list@) =~= text::views(old(list)@).push(word@));
}

/// The parts of node kinds that mark an import in a language.
pub open spec fn import_words(grammar: Grammar) -> Seq<Seq<char>> {
    match grammar {
        Grammar::Rust => seq!["use"@],
        Grammar::Php => seq!["use"@, "namespace"@],
        Grammar::Python => seq!["import"@],
        Grammar::JavaScript => seq!["import"@],
        Grammar::TypeScript => seq!["import"@],
        Grammar::Tsx => seq!["import"@],
        Grammar::Lua => Seq::empty(),
        Grammar::Bash => Seq::empty(),
        Grammar::Zsh => Seq::empty(),
        Grammar::Ruby => seq!["require"@],
        _ => Seq::empty(),
    }
}

/// The parts of node kinds that mark a named declaration in a language.
pub open spec fn named_words(grammar: Grammar) -> Seq<Seq<char>> {
    match grammar {
        Grammar::Rust => seq!["function"@, "struct"@, "enum"@, "trait"@, "type"@, "const"@, "static"@, "mod"@],
        Grammar::Php => seq!["function"@, "class"@, "interface"@, "trait"@, "enum"@],
        Grammar::Python => seq!["function"@, "class"@],
        Grammar::JavaScript => seq!["export"@, "function"@, "class"@],
        Grammar::TypeScript => seq!["export"@, "function"@, "class"@, "interface"@, "type"@, "enum"@],
        Grammar::Tsx => seq!["export"@, "function"@, "class"@, "interface"@, "type"@, "enum"@],
        Grammar::Lua => seq!["function"@],
        Grammar::Bash => seq!["function"@],
        Grammar::Zsh => seq!["function"@],
        Grammar::Ruby => seq!["class"@, "module"@, "method"@, "def"@],
        _ => Seq::empty(),
    }
}

/// The rules of a language. A grammar that is no programming language has
/// none: nothing in it is an import or a named declaration.
pub open spec fn rules_of(grammar: Grammar) -> RulesView {
    RulesView {
        import_like: import_words(grammar),
        named_like: named_words(grammar),
        skip_if_dest_has_namespace: grammar == Grammar::Php,
    }
}

fn import_word_list(grammar: Grammar) -> (r: Vec<Vec<char>>)
    ensures
        text::views(r@) == import_words(grammar),
{
    let mut r: Vec<Vec<char>> = Vec::new();
    match grammar {
        Grammar::Rust => {
            push_word(&mut r, "use");
        },
        Grammar::Php => {
            push_word(&mut r, "use");
            push_word(&mut r, "namespace");
        },
        Grammar::Python => {
            push_word(&mut r, "import");
        },
        Grammar::JavaScript => {
            push_word(&mut r, "import");
        },
        Grammar::TypeScript => {
            push_word(&mut r, "import");
        },
        Grammar::Tsx => {
            push_word(&mut r, "import");
        },
        Grammar::Lua => {
        },
        Grammar::Bash => {
        },
        Grammar::Zsh => {
        },
        Grammar::Ruby => {
            push_word(&mut r, "require");
        },
        _ => {},
    }
    assert(text::views(r@) =~= import_words(grammar));
    r
}

fn named_word_list(grammar: Grammar) -> (r: Vec<Vec<char>>)
    ensures
        text::views(r@) == named_words(grammar),
{
    let mut r: Vec<Vec<char>> = Vec::new();
    match grammar {
        Grammar::Rust => {
            push_word(&mut r, "function");
            push_word(&mut r, "struct");
            push_word(&mut r, "enum");
            push_word(&mut r, "trait");
            push_word(&mut r, "type");
            push_word(&mut r, "const");
            push_word(&mut r, "static");
            push_word(&mut r, "mod");
        },
        Grammar::Php => {
            push_word(&mut r, "function");
            push_word(&mut r, "class");
            push_word(&mut r, "interface");
            push_word(&mut r, "trait");
            push_word(&mut r, "enum");
        },
        Grammar::Python => {
            push_word(&mut r, "function");
            push_word(&mut r, "class");
        },
        Grammar::JavaScript => {
            push_word(&mut r, "export");
            push_word(&mut r, "function");
            push_word(&mut r, "class");
        },
        Grammar::TypeScript => {
            push_word(&mut r, "export");
            push_word(&mut r, "function");
            push_word(&mut r, "class");
            push_word(&mut r, "interface");
            push_word(&mut r, "type");
            push_word(&mut r, "enum");
        },
        Grammar::Tsx => {
            push_word(&mut r, "export");
            push_word(&mut r, "function");
            push_word(&mut r, "class");
            push_word(&mut r, "interface");
            push_word(&mut r, "type");
            push_word(&mut r, "enum");
        },
        Grammar::Lua => {
            push_word(&mut r, "function");
        },
        Grammar::Bash => {
            push_word(&mut r, "function");
        },
        Grammar::Zsh => {
            push_word(&mut r, "function");
        },
        Grammar::Ruby => {
            push_word(&mut r, "class");
            push_word(&mut r, "module");
            push_word(&mut r, "method");
            push_word(&mut r, "def");
        },
        _ => {},
    }
    assert(text::views(r@) =~= named_words(grammar));
    r
}

/// The rules by which files of a language are merged.
pub fn language_rules(grammar: Grammar) -> (r: LangMergeRules)
    ensures
        r@ == rules_of(grammar),
{
    LangMergeRules {
        import_like: import_word_list(grammar),
        named_like: named_word_list(grammar),
        skip_if_dest_has_namespace: match grammar {
            Grammar::Php => true,
            _ => false,
        },
    }
}

/// What the merge of two source files of a language gives: nothing unless
/// both are UTF-8 and both parse.
pub open spec fn merged_source(grammar: Grammar, dest: Seq<u8>, src: Seq<u8>) -> Option<Seq<u8>> {
    if valid_utf8(dest) && valid_utf8(src) && parsed(grammar, decode_utf8(dest)) is Some && parsed(
        grammar,
        decode_utf8(src),
    ) is Some {
        Some(
            merged_items(
                dest,
                src,
                parsed(grammar, decode_utf8(dest))->0,
                parsed(grammar, decode_utf8(src))->0,
                rules_of(grammar),
            ),
        )
    } else {
        None
    }
}

/// The trees of two files, where both are UTF-8 and both parse.
pub fn parse_both(grammar: Grammar, dest_bytes: &[u8], src_bytes: &[u8]) -> (r: Option<
    (SyntaxNode, SyntaxNode),
>)
    ensures
        r is Some <==> valid_utf8(dest_bytes@) && valid_utf8(src_bytes@) && parsed(
            grammar,
            decode_utf8(dest_bytes@),
        ) is Some && parsed(grammar, decode_utf8(src_bytes@)) is Some,
        r matches Some((d, s)) ==> parsed(grammar, decode_utf8(dest_bytes@)) == Some(d) && parsed(
            grammar,
            decode_utf8(src_bytes@),
        ) == Some(s),
{
    let dest = match chars::decode(dest_bytes) {
        Some(d) => d,
        None => { return None; },
    };
    let src = match chars::decode(src_bytes) {
        Some(s) => s,
        None => { return None; },
    };
    let dest_root = match parse(grammar, &dest) {
        Some(t) => t,
        None => { return None; },
    };
    let src_root = match parse(grammar, &src) {
        Some(t) => t,
        None => { return None; },
    };
    Some((dest_root, src_root))
}

/// Merges two source files of a language by their top-level items.
pub fn merge_source(grammar: Grammar, dest_bytes: &[u8], src_bytes: &[u8]) -> (r: Option<Vec<u8>>)
    ensures
        match r {
            Some(out) => merged_source(grammar, dest_bytes@, src_bytes@) == Some(out@),
            None => merged_source(grammar, dest_bytes@, src_bytes@) is None,
        },
{
    match parse_both(grammar, dest_bytes, src_bytes) {
        None => None,
        Some((dest_root, src_root)) => {
            let rules = language_rules(grammar);
            Some(merge_named_top_level(dest_bytes, src_bytes, &dest_root, &src_root, &rules))
        },
    }
}

/// Merges two Rust files.
pub fn merge_rust(dest_bytes: &[u8], src_bytes: &[u8]) -> (r: Option<Vec<u8>>)
    ensures
        match r {
            Some(out) => merged_source(Grammar::Rust, dest_bytes@, src_bytes@) == Some(out@),
            None => merged_source(Grammar::Rust, dest_bytes@, src_bytes@) is None,
        },
{
    merge_source(Grammar::Rust, dest_bytes, src_bytes)
}

/// Merges two PHP files.
pub fn merge_php(dest_bytes: &[u8], src_bytes: &[u8]) -> (r: Option<Vec<u8>>)
    ensures
        match r {
            Some(out) => merged_source(Grammar::Php, dest_bytes@, src_bytes@) == Some(out@),
            None => merged_source(Grammar::Php, dest_bytes@, src_bytes@) is None,
        },
{
    merge_source(Grammar::Php, dest_bytes, src_bytes)
}

/// Merges two Python files.
pub fn merge_python(dest_bytes: &[u8], src_bytes: &[u8]) -> (r: Option<Vec<u8>>)
    ensures
        match r {
            Some(out) => merged_source(Grammar::Python, dest_bytes@, src_bytes@) == Some(out@),
            None => merged_source(Grammar::Python, dest_bytes@, src_bytes@) is None,
        },
{
    merge_source(Grammar::Python, dest_bytes, src_bytes)
}

/// Merges two JavaScript files.
pub fn merge_javascript(dest_bytes: &[u8], src_bytes: &[u8]) -> (r: Option<Vec<u8>>)
    ensures
        match r {
            Some(out) => merged_source(Grammar::JavaScript, dest_bytes@, src_bytes@) == Some(out@),
            None => merged_source(Grammar::JavaScript, dest_bytes@, src_bytes@) is None,
        },
{
    merge_source(Grammar::JavaScript, dest_bytes, src_bytes)
}

/// Merges two TypeScript files.
pub fn merge_typescript(dest_bytes: &[u8], src_bytes: &[u8]) -> (r: Option<Vec<u8>>)
    ensures
        match r {
            Some(out) => merged_source(Grammar::TypeScript, dest_bytes@, src_bytes@) == Some(out@),
            None => merged_source(Grammar::TypeScript, dest_bytes@, src_bytes@) is None,
        },
{
    merge_source(Grammar::TypeScript, dest_bytes, src_bytes)
}

/// Merges two TSX files.
pub fn merge_tsx(dest_bytes: &[u8], src_bytes: &[u8]) -> (r: Option<Vec<u8>>)
    ensures
        match r {
            Some(out) => merged_source(Grammar::Tsx, dest_bytes@, src_bytes@) == Some(out@),
            None => merged_source(Grammar::Tsx, dest_bytes@, src_bytes@) is None,
        },
{
    merge_source(Grammar::Tsx, dest_bytes, src_bytes)
}

/// Merges two Lua files.
pub fn merge_lua(dest_bytes: &[u8], src_bytes: &[u8]) -> (r: Option<Vec<u8>>)
    ensures
        match r {
            Some(out) => merged_source(Grammar::Lua, dest_bytes@, src_bytes@) == Some(out@),
            None => merged_source(Grammar::Lua, dest_bytes@, src_bytes@) is None,
        },
{
    merge_source(Grammar::Lua, dest_bytes, src_bytes)
}

/// Merges two Ruby files.
pub fn merge_ruby(dest_bytes: &[u8], src_bytes: &[u8]) -> (r: Option<Vec<u8>>)
    ensures
        match r {
            Some(out) => merged_source(Grammar::Ruby, dest_bytes@, src_bytes@) == Some(out@),
            None => merged_source(Grammar::Ruby, dest_bytes@, src_bytes@) is None,
        },
{
    merge_source(Grammar::Ruby, dest_bytes, src_bytes)
}

/// Merges two Bash files.
pub fn merge_bash(dest_bytes: &[u8], src_bytes: &[u8]) -> (r: Option<Vec<u8>>)
    ensures
        match r {
            Some(out) => merged_source(Grammar::Bash, dest_bytes@, src_bytes@) == Some(out@),
            None => merged_source(Grammar::Bash, dest_bytes@, src_bytes@) is None,
        },
{
    merge_source(Grammar::Bash, dest_bytes, src_bytes)
}

/// Merges two Zsh files.
pub fn merge_zsh(dest_bytes: &[u8], src_bytes: &[u8]) -> (r: Option<Vec<u8>>)
    ensures
        match r {
            Some(out) => merged_source(Grammar::Zsh, dest_bytes@, src_bytes@) == Some(out@),
            None => merged_source(Grammar::Zsh, dest_bytes@, src_bytes@) is None,
        },
{
    merge_source(Grammar::Zsh, dest_bytes, src_bytes)
}

} // verus!
