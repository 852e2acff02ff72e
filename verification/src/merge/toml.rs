//! The merge of TOML files.
//!
//! Both files are parsed into documents. The merge goes through the keys of
//! the template's table: an item whose key the destination's table lacks is
//! copied into it; where both hold a table under the key, the two tables
//! are merged in turn; any other item of the template is passed over, so
//! that the destination's item stays. The copies are made in the
//! destination document itself, so that what stands there keeps its form.

use crate::apply::strings;
use crate::chars;
use vstd::prelude::*;
use vstd::slice::slice_to_vec;
use vstd::utf8::{decode_utf8, encode_utf8, valid_utf8};

verus! {

#[verifier::external_type_specification]
#[verifier::external_body]
pub struct ExTable(toml_edit::Table);

#[verifier::external_type_specification]
#[verifier::external_body]
pub struct ExDocument(toml_edit::DocumentMut);

/// The document that a text is, if it is a TOML document.
pub uninterp spec fn toml_doc(text: Seq<char>) -> Option<toml_edit::DocumentMut>;

/// The text of a document.
pub uninterp spec fn doc_text(doc: toml_edit::DocumentMut) -> Seq<char>;

/// The root table of a document.
pub uninterp spec fn doc_root(doc: toml_edit::DocumentMut) -> toml_edit::Table;

/// The document with another table as its root.
pub uninterp spec fn doc_with_root(
    doc: toml_edit::DocumentMut,
    root: toml_edit::Table,
) -> toml_edit::DocumentMut;

/// The keys of a table, in the order in which the table hands them out.
pub uninterp spec fn table_keys(table: toml_edit::Table) -> Seq<Seq<char>>;

/// The table that a table holds under a key, where it holds one there.
pub uninterp spec fn table_sub(table: toml_edit::Table, key: Seq<char>) -> Option<
    toml_edit::Table,
>;

/// The table with another table under a key that held one.
pub uninterp spec fn table_with_sub(
    table: toml_edit::Table,
    key: Seq<char>,
    sub: toml_edit::Table,
) -> toml_edit::Table;

/// The table with a copy of the item that `from` holds under the key.
pub uninterp spec fn table_with_item(
    table: toml_edit::Table,
    key: Seq<char>,
    from: toml_edit::Table,
) -> toml_edit::Table;

/// How deep the tables within a table are nested.
pub uninterp spec fn table_depth(table: toml_edit::Table) -> nat;

/// `toml_edit::DocumentMut::from_str`: the document that the text is, or
/// nothing where it does not parse. The same text gives the same document.
#[verifier::external_body]
fn toml_parse(text: &str) -> (r: Option<toml_edit::DocumentMut>)
    ensures
        r == toml_doc(text@),
{
    text.parse::<toml_edit::DocumentMut>().ok()
}

/// `toml_edit::DocumentMut::to_string`: the text of the document.
#[verifier::external_body]
fn doc_render(doc: &toml_edit::DocumentMut) -> (r: String)
    ensures
        r@ == doc_text(*doc),
{
    doc.to_string()
}

/// `toml_edit::DocumentMut::as_table`: the root table of the document.
#[verifier::external_body]
fn doc_table(doc: &toml_edit::DocumentMut) -> (r: &toml_edit::Table)
    ensures
        *r == doc_root(*doc),
{
    doc.as_table()
}

/// `toml_edit::DocumentMut::as_table_mut`: the root table of the document,
/// to be changed in its place.
#[verifier::external_body]
fn doc_table_mut(doc: &mut toml_edit::DocumentMut) -> (r: &mut toml_edit::Table)
    ensures
        *r == doc_root(*old(doc)),
        *final(doc) == doc_with_root(*old(doc), *final(r)),
{
    doc.as_table_mut()
}

/// `toml_edit::Table::iter`: the keys of the items of the table, in its
/// order.
#[verifier::external_body]
fn table_key_list(table: &toml_edit::Table) -> (r: Vec<String>)
    ensures
        strings(r@) == table_keys(*table),
{
    table.iter().map(|(key, _)| key.to_owned()).collect()
}

/// `toml_edit::Table::contains_key`: whether the table holds an item under
/// the key.
#[verifier::external_body]
fn table_has(table: &toml_edit::Table, key: &str) -> (r: bool)
    ensures
        r == table_keys(*table).contains(key@),
{
    table.contains_key(key)
}

/// `toml_edit::Table::get` and `Item::as_table`: the table under the key,
/// where the item there is a table. It is nested less deeply than the table
/// that holds it.
#[verifier::external_body]
fn sub_table<'a>(table: &'a toml_edit::Table, key: &str) -> (r: Option<&'a toml_edit::Table>)
    ensures
        match r {
            Some(sub) => table_sub(*table, key@) == Some(*sub) && table_depth(*sub) < table_depth(
                *table,
            ),
            None => table_sub(*table, key@) is None,
        },
{
    table.get(key)?.as_table()
}

/// `toml_edit::Table::get_mut` and `Item::as_table_mut`: the table under
/// the key, to be changed in its place. The table around it keeps its keys.
#[verifier::external_body]
fn sub_table_mut<'a>(table: &'a mut toml_edit::Table, key: &str) -> (r: &'a mut toml_edit::Table)
    requires
        table_sub(*old(table), key@) is Some,
    ensures
        table_sub(*old(table), key@) == Some(*r),
        *final(table) == table_with_sub(*old(table), key@, *final(r)),
        table_keys(*final(table)) == table_keys(*old(table)),
{
    table.get_mut(key).unwrap().as_table_mut().unwrap()
}

/// `toml_edit::Table::insert` of a clone of the item that `from` holds
/// under the key. The table then holds the key beside those that it held.
#[verifier::external_body]
fn insert_item(table: &mut toml_edit::Table, key: &str, from: &toml_edit::Table)
    requires
        table_keys(*from).contains(key@),
    ensures
        *final(table) == table_with_item(*old(table), key@, *from),
        forall|k: Seq<char>|
            table_keys(*final(table)).contains(k) <==> table_keys(*old(table)).contains(k) || k
                == key@,
{
    table.insert(key, from.get(key).unwrap().clone());
}

/// The merge of the first `n` items of the template's table into the
/// destination's table, and whether anything was copied. `fuel` bounds the
/// depth of the template's tables.
pub open spec fn merged_upto(
    dest: toml_edit::Table,
    src: toml_edit::Table,
    n: int,
    fuel: nat,
) -> (toml_edit::Table, bool)
    decreases fuel, n,
{
    if n <= 0 || n > table_keys(src).len() {
        (dest, false)
    } else {
        let before = merged_upto(dest, src, n - 1, fuel);
        let key = table_keys(src)[n - 1];
        if !table_keys(before.0).contains(key) {
            (table_with_item(before.0, key, src), true)
        } else {
            match (table_sub(before.0, key), table_sub(src, key)) {
                (Some(d), Some(s)) => if fuel > 0 {
                    let within = merged_upto(
                        d,
                        s,
                        table_keys(s).len() as int,
                        (fuel - 1) as nat,
                    );
                    (table_with_sub(before.0, key, within.0), before.1 || within.1)
                } else {
                    before
                },
                _ => before,
            }
        }
    }
}

/// The merge of the template's table into the destination's table, and
/// whether anything was copied.
pub open spec fn merged_tables(dest: toml_edit::Table, src: toml_edit::Table) -> (
    toml_edit::Table,
    bool,
) {
    merged_upto(dest, src, table_keys(src).len() as int, table_depth(src))
}

/// The merge of two TOML documents, where both are UTF-8 and parse: the
/// destination's own bytes where the template has no item to copy, and else
/// the text of the destination document with the merged table as its root.
pub open spec fn merged_toml(dest: Seq<u8>, src: Seq<u8>) -> Option<Seq<u8>> {
    if valid_utf8(dest) && valid_utf8(src) && toml_doc(decode_utf8(dest)) is Some && toml_doc(
        decode_utf8(src),
    ) is Some {
        let d = toml_doc(decode_utf8(dest))->0;
        let s = toml_doc(decode_utf8(src))->0;
        let merged = merged_tables(doc_root(d), doc_root(s));
        if merged.1 {
            Some(encode_utf8(doc_text(doc_with_root(d, merged.0))))
        } else {
            Some(dest)
        }
    } else {
        None
    }
}

/// Merges a table of the template into a table of the destination; `fuel`
/// bounds how deep the template's tables are nested.
fn merge_tables(
    dest: &mut toml_edit::Table,
    src: &toml_edit::Table,
    Ghost(fuel): Ghost<nat>,
) -> (changed: bool)
    requires
        table_depth(*src) <= fuel,
    ensures
        merged_upto(*old(dest), *src, table_keys(*src).len() as int, fuel) == (
            *final(dest),
            changed,
        ),
        forall|k: Seq<char>|
            table_keys(*old(dest)).contains(k) ==> table_keys(*final(dest)).contains(k),
        forall|k: Seq<char>| table_keys(*src).contains(k) ==> table_keys(*final(dest)).contains(k),
    decreases fuel,
{
    let keys = table_key_list(src);
    let mut changed = false;
    let mut i: usize = 0;
    while i < keys.len()
        invariant
            i <= keys.len(),
            strings(keys@) == table_keys(*src),
            table_depth(*src) <= fuel,
            merged_upto(*old(dest), *src, i as int, fuel) == (*dest, changed),
            forall|k: Seq<char>| table_keys(*old(dest)).contains(k) ==> table_keys(*dest).contains(k),
            forall|j: int| 0 <= j < i ==> table_keys(*dest).contains(#[trigger] table_keys(*src)[j]),
        decreases keys.len() - i,
    {
        let key = keys[i].as_str();
        assert(strings(keys@)[i as int] == key@);
        assert(table_keys(*src)[i as int] == key@);
        assert(table_keys(*src).contains(key@));
        if !table_has(dest, key) {
            insert_item(dest, key, src);
            changed = true;
        } else {
            match sub_table(src, key) {
                Some(within) => {
                    if sub_table(dest, key).is_some() {
                        let sub = sub_table_mut(dest, key);
                        let more = merge_tables(sub, within, Ghost((fuel - 1) as nat));
                        changed = changed || more;
                    }
                },
                None => {},
            }
        }
        i += 1;
    }
    assert forall|k: Seq<char>| table_keys(*src).contains(k) implies table_keys(*dest).contains(
        k,
    ) by {
        let j = choose|j: int| 0 <= j < table_keys(*src).len() && table_keys(*src)[j] == k;
        assert(table_keys(*dest).contains(table_keys(*src)[j]));
    }
    changed
}

/// Merges the template's table into the destination's table and says
/// whether anything was copied.
///
/// The merge only adds: every key of the destination's table is a key of
/// the merged table, and so is every key of the template's table.
pub fn merge_toml_table(dest: &mut toml_edit::Table, src: &toml_edit::Table) -> (changed: bool)
    ensures
        merged_tables(*old(dest), *src) == (*final(dest), changed),
        forall|k: Seq<char>|
            table_keys(*old(dest)).contains(k) ==> table_keys(*final(dest)).contains(k),
        forall|k: Seq<char>| table_keys(*src).contains(k) ==> table_keys(*final(dest)).contains(k),
{
    merge_tables(dest, src, Ghost(table_depth(*src)))
}

/// Merges two TOML files.
///
/// Gives nothing where one of the files is not UTF-8 or no TOML document,
/// and the destination's own bytes where the template has no item to copy.
/// Otherwise the result is the text of the destination document with the
/// template's missing items copied into it.
pub fn merge_toml(dest_bytes: &[u8], src_bytes: &[u8]) -> (r: Option<Vec<u8>>)
    ensures
        match r {
            Some(out) => merged_toml(dest_bytes@, src_bytes@) == Some(out@),
            None => merged_toml(dest_bytes@, src_bytes@) is None,
        },
{
    let dest = match chars::decode(dest_bytes) {
        Some(d) => d,
        None => { return None; },
    };
    let src = match chars::decode(src_bytes) {
        Some(s) => s,
        None => { return None; },
    };
    let dest_text = chars::to_string(&dest);
    let src_text = chars::to_string(&src);
    let mut dest_doc = match toml_parse(dest_text.as_str()) {
        Some(d) => d,
        None => { return None; },
    };
    let src_doc = match toml_parse(src_text.as_str()) {
        Some(s) => s,
        None => { return None; },
    };
    let src_root = doc_table(&src_doc);
    let root = doc_table_mut(&mut dest_doc);
    let changed = merge_toml_table(root, src_root);
    if !changed {
        return Some(slice_to_vec(dest_bytes));
    }
    let merged = doc_render(&dest_doc);
    Some(chars::encode(&chars::from_str(merged.as_str())))
}

} // verus!
