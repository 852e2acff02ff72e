//! The merge of YAML files.
//!
//! A document is read into a `YamlValue`. The merge adds to each mapping of
//! the destination the entries of the template's mapping whose key it does
//! not hold, and leaves every other value of the destination as it is.

use crate::chars;
use rust_yaml::{Emitter, Value};
use vstd::prelude::*;
use vstd::slice::slice_to_vec;
use vstd::utf8::{decode_utf8, valid_utf8};

verus! {

/// A value of a YAML document. A float stands as the text of the number.
#[derive(Debug)]
pub enum YamlValue {
    Null,
    Bool(bool),
    Int(i64),
    Float(String),
    String(String),
    Sequence(Vec<YamlValue>),
    Mapping(Vec<(YamlValue, YamlValue)>),
}

/// A YAML value as the merge tells values apart.
pub ghost enum YamlView {
    Null,
    Bool(bool),
    Int(int),
    Float(Seq<char>),
    String(Seq<char>),
    Sequence(Seq<YamlView>),
    Mapping(Seq<(YamlView, YamlView)>),
}

/// The text of a float as a key: zero and negative zero are one key.
pub open spec fn float_key(t: Seq<char>) -> Seq<char> {
    if t == "-0"@ {
        "0"@
    } else {
        t
    }
}

/// The views of the first `n` values.
pub open spec fn items_view(items: Seq<YamlValue>, n: int) -> Seq<YamlView>
    decreases items, n,
{
    if n <= 0 || n > items.len() {
        Seq::empty()
    } else {
        items_view(items, n - 1).push(value_view(items[n - 1]))
    }
}

/// The views of the first `n` entries.
pub open spec fn pairs_view(pairs: Seq<(YamlValue, YamlValue)>, n: int) -> Seq<(YamlView, YamlView)>
    decreases pairs, n,
{
    if n <= 0 || n > pairs.len() {
        Seq::empty()
    } else {
        pairs_view(pairs, n - 1).push((value_view(pairs[n - 1].0), value_view(pairs[n - 1].1)))
    }
}

/// A YAML value as a mathematical value. A float stands by its text, with
/// `-0` as `0`.
pub open spec fn value_view(v: YamlValue) -> YamlView
    decreases v, 0int,
{
    match v {
        YamlValue::Null => YamlView::Null,
        YamlValue::Bool(b) => YamlView::Bool(b),
        YamlValue::Int(i) => YamlView::Int(i as int),
        YamlValue::Float(t) => YamlView::Float(float_key(t@)),
        YamlValue::String(s) => YamlView::String(s@),
        YamlValue::Sequence(items) => YamlView::Sequence(items_view(items@, items@.len() as int)),
        YamlValue::Mapping(pairs) => YamlView::Mapping(pairs_view(pairs@, pairs@.len() as int)),
    }
}

impl View for YamlValue {
    type V = YamlView;

    open spec fn view(&self) -> YamlView {
        value_view(*self)
    }
}

/// The index of the first entry from `from` on with the key, or the number
/// of entries.
pub open spec fn key_index(pairs: Seq<(YamlView, YamlView)>, key: YamlView, from: int) -> int
    decreases pairs.len() - from,
{
    if 0 <= from < pairs.len() && pairs[from].0 != key {
        key_index(pairs, key, from + 1)
    } else {
        from
    }
}

/// The destination value with what the template adds to it. Two mappings
/// are merged entry by entry; any other pair of values gives the
/// destination's.
pub open spec fn merge_value(dest: YamlView, src: YamlView) -> YamlView
    decreases src, 0int,
{
    match (dest, src) {
        (YamlView::Mapping(d), YamlView::Mapping(s)) => YamlView::Mapping(
            merge_pairs(d, s, s.len() as int),
        ),
        _ => dest,
    }
}

/// The destination's entries after the first `n` entries of the template
/// have been taken: an entry with a new key is added at the end; under a
/// key that is there, the two values are merged.
pub open spec fn merge_pairs(
    d: Seq<(YamlView, YamlView)>,
    s: Seq<(YamlView, YamlView)>,
    n: int,
) -> Seq<(YamlView, YamlView)>
    decreases s, n,
{
    if n <= 0 || n > s.len() {
        d
    } else {
        let m = merge_pairs(d, s, n - 1);
        let i = key_index(m, s[n - 1].0, 0);
        if 0 <= i < m.len() {
            m.update(i, (m[i].0, merge_value(m[i].1, s[n - 1].1)))
        } else {
            m.push(s[n - 1])
        }
    }
}

/// The items as mathematical values.
pub open spec fn item_views(items: Seq<YamlValue>) -> Seq<YamlView> {
    items_view(items, items.len() as int)
}

/// The entries as mathematical values.
pub open spec fn pair_views(pairs: Seq<(YamlValue, YamlValue)>) -> Seq<(YamlView, YamlView)> {
    pairs_view(pairs, pairs.len() as int)
}

/// The views of the first `n` items are the views of those items, one by one.
pub proof fn lemma_items_view(items: Seq<YamlValue>, n: int)
    requires
        0 <= n <= items.len(),
    ensures
        items_view(items, n).len() == n,
        forall|i: int| 0 <= i < n ==> (#[trigger] items_view(items, n)[i]) == items[i]@,
        items_view(items.take(n), n) == items_view(items, n),
    decreases n,
{
    if n > 0 {
        lemma_items_view(items, n - 1);
        lemma_items_view(items.take(n), n - 1);
        assert(items.take(n).take(n - 1) =~= items.take(n - 1));
        assert(items_view(items.take(n), n) =~= items_view(items, n));
    } else {
        assert(items_view(items.take(n), n) =~= items_view(items, n));
    }
}

/// The views of the first `n` entries are the views of those entries, one by
/// one.
pub proof fn lemma_pairs_view(pairs: Seq<(YamlValue, YamlValue)>, n: int)
    requires
        0 <= n <= pairs.len(),
    ensures
        pairs_view(pairs, n).len() == n,
        forall|i: int|
            0 <= i < n ==> (#[trigger] pairs_view(pairs, n)[i]) == (pairs[i].0@, pairs[i].1@),
        pairs_view(pairs.take(n), n) == pairs_view(pairs, n),
    decreases n,
{
    if n > 0 {
        lemma_pairs_view(pairs, n - 1);
        lemma_pairs_view(pairs.take(n), n - 1);
        assert(pairs.take(n).take(n - 1) =~= pairs.take(n - 1));
        assert(pairs_view(pairs.take(n), n) =~= pairs_view(pairs, n));
    } else {
        assert(pairs_view(pairs.take(n), n) =~= pairs_view(pairs, n));
    }
}

/// What the merge keeps: a mapping keeps each of its entries at its place,
/// under its key, with a value that is kept in turn; any other value stays
/// what it was.
pub open spec fn kept(before: YamlView, after: YamlView) -> bool
    decreases before,
{
    match before {
        YamlView::Mapping(b) => {
            &&& after is Mapping
            &&& b.len() <= after->Mapping_0.len()
            &&& forall|i: int|
                0 <= i < b.len() ==> (#[trigger] after->Mapping_0[i]).0 == b[i].0 && kept(
                    b[i].1,
                    after->Mapping_0[i].1,
                )
        },
        _ => after == before,
    }
}

/// Every value keeps itself.
pub proof fn lemma_kept_refl(a: YamlView)
    ensures
        kept(a, a),
    decreases a,
{
    match a {
        YamlView::Mapping(b) => {
            assert forall|i: int| 0 <= i < b.len() implies (#[trigger] b[i]).0 == b[i].0 && kept(
                b[i].1,
                b[i].1,
            ) by {
                lemma_kept_refl(b[i].1);
            }
        },
        _ => {},
    }
}

/// `kept` is transitive.
pub proof fn lemma_kept_trans(a: YamlView, b: YamlView, c: YamlView)
    requires
        kept(a, b),
        kept(b, c),
    ensures
        kept(a, c),
    decreases a,
{
    match a {
        YamlView::Mapping(x) => {
            let y = b->Mapping_0;
            let z = c->Mapping_0;
            assert forall|i: int| 0 <= i < x.len() implies (#[trigger] z[i]).0 == x[i].0 && kept(
                x[i].1,
                z[i].1,
            ) by {
                assert(y[i].0 == x[i].0 && kept(x[i].1, y[i].1));
                assert(z[i].0 == y[i].0 && kept(y[i].1, z[i].1));
                lemma_kept_trans(x[i].1, y[i].1, z[i].1);
            }
        },
        _ => {},
    }
}

/// Merging template entries into a mapping keeps the mapping.
pub proof fn lemma_merge_pairs_keeps(
    d: Seq<(YamlView, YamlView)>,
    s: Seq<(YamlView, YamlView)>,
    n: int,
)
    ensures
        kept(YamlView::Mapping(d), YamlView::Mapping(merge_pairs(d, s, n))),
    decreases s, n,
{
    if n <= 0 || n > s.len() {
        lemma_kept_refl(YamlView::Mapping(d));
    } else {
        let m = merge_pairs(d, s, n - 1);
        lemma_merge_pairs_keeps(d, s, n - 1);
        let i = key_index(m, s[n - 1].0, 0);
        let r = merge_pairs(d, s, n);
        if 0 <= i < m.len() {
            lemma_merge_keeps(m[i].1, s[n - 1].1);
            assert forall|j: int| 0 <= j < m.len() implies (#[trigger] r[j]).0 == m[j].0 && kept(
                m[j].1,
                r[j].1,
            ) by {
                if j != i {
                    lemma_kept_refl(m[j].1);
                }
            }
        } else {
            assert forall|j: int| 0 <= j < m.len() implies (#[trigger] r[j]).0 == m[j].0 && kept(
                m[j].1,
                r[j].1,
            ) by {
                lemma_kept_refl(m[j].1);
            }
        }
        assert(kept(YamlView::Mapping(m), YamlView::Mapping(r)));
        lemma_kept_trans(YamlView::Mapping(d), YamlView::Mapping(m), YamlView::Mapping(r));
    }
}

/// Additivity of the merge. Every entry of a mapping of the destination
/// stands in the merged value at its place, under its key; its value is the
/// one it had, or, for a mapping, that mapping with entries added. Whatever
/// is no mapping is unchanged.
pub proof fn lemma_merge_keeps(dest: YamlView, src: YamlView)
    ensures
        kept(dest, merge_value(dest, src)),
    decreases src, 0int,
{
    match (dest, src) {
        (YamlView::Mapping(d), YamlView::Mapping(s)) => {
            lemma_merge_pairs_keeps(d, s, s.len() as int);
        },
        _ => {
            lemma_kept_refl(dest);
        },
    }
}

/// A new entry comes from the template. Each entry of the merged mapping
/// behind the destination's own stands under a key of the template that the
/// destination does not hold.
pub proof fn lemma_merge_pairs_adds(
    d: Seq<(YamlView, YamlView)>,
    s: Seq<(YamlView, YamlView)>,
    n: int,
    i: int,
)
    requires
        0 <= n <= s.len(),
        d.len() <= i < merge_pairs(d, s, n).len(),
    ensures
        exists|j: int| 0 <= j < n && merge_pairs(d, s, n)[i].0 == (#[trigger] s[j]).0,
        key_index(d, merge_pairs(d, s, n)[i].0, 0) >= d.len(),
    decreases n,
{
    lemma_merge_pairs_keeps(d, s, n - 1);
    lemma_merge_pairs_keeps(d, s, n);
    let m = merge_pairs(d, s, n - 1);
    let r = merge_pairs(d, s, n);
    let k = key_index(m, s[n - 1].0, 0);
    if i < m.len() {
        lemma_merge_pairs_adds(d, s, n - 1, i);
        let j = choose|j: int| 0 <= j < n - 1 && m[i].0 == (#[trigger] s[j]).0;
        assert(r[i].0 == m[i].0);
        assert(r[i].0 == s[j].0);
    } else {
        assert(r[i] == s[n - 1]);
        lemma_key_index_bounds(m, s[n - 1].0, 0);
        lemma_key_index_prefix(d, m, s[n - 1].0, 0);
    }
}

/// `key_index` lies between `from` and the number of entries, and at an entry
/// with the key where it is an index.
pub proof fn lemma_key_index_bounds(pairs: Seq<(YamlView, YamlView)>, key: YamlView, from: int)
    requires
        0 <= from <= pairs.len(),
    ensures
        from <= key_index(pairs, key, from) <= pairs.len(),
        key_index(pairs, key, from) < pairs.len() ==> pairs[key_index(pairs, key, from)].0 == key,
    decreases pairs.len() - from,
{
    if from < pairs.len() && pairs[from].0 != key {
        lemma_key_index_bounds(pairs, key, from + 1);
    }
}

/// Where `m` begins with the keys of `d`, a key found among those of `d` is
/// found at the same place in `m`, and a key not found in `m` is not in `d`.
pub proof fn lemma_key_index_prefix(
    d: Seq<(YamlView, YamlView)>,
    m: Seq<(YamlView, YamlView)>,
    key: YamlView,
    from: int,
)
    requires
        0 <= from <= d.len() <= m.len(),
        forall|i: int| 0 <= i < d.len() ==> (#[trigger] m[i]).0 == d[i].0,
    ensures
        key_index(d, key, from) < d.len() ==> key_index(m, key, from) == key_index(d, key, from),
        key_index(d, key, from) >= d.len() ==> key_index(m, key, from) >= d.len(),
    decreases d.len() - from,
{
    if from < d.len() {
        assert(m[from].0 == d[from].0);
        if d[from].0 != key {
            lemma_key_index_prefix(d, m, key, from + 1);
        }
    } else {
        lemma_key_index_bounds(m, key, from);
    }
}

#[verifier::external_type_specification]
#[verifier::external_body]
pub struct ExValue(rust_yaml::Value);

/// Copies a `rust_yaml::Value`, variant by variant; a float as the text
/// that `to_string` gives of it.
#[verifier::external_body]
fn value_image(value: &Value) -> YamlValue {
    match value {
        Value::Null => YamlValue::Null,
        Value::Bool(b) => YamlValue::Bool(*b),
        Value::Int(i) => YamlValue::Int(*i),
        Value::Float(f) => YamlValue::Float(f.to_string()),
        Value::String(s) => YamlValue::String(s.clone()),
        Value::Sequence(items) => YamlValue::Sequence(items.iter().map(value_image).collect()),
        Value::Mapping(map) => YamlValue::Mapping(
            map.iter().map(|(k, v)| (value_image(k), value_image(v))).collect(),
        ),
    }
}

/// Builds the `rust_yaml::Value` that a `YamlValue` stands for; nothing
/// where the text of a float is no number.
#[verifier::external_body]
fn value_back(value: &YamlValue) -> Option<Value> {
    Some(match value {
        YamlValue::Null => Value::Null,
        YamlValue::Bool(b) => Value::Bool(*b),
        YamlValue::Int(i) => Value::Int(*i),
        YamlValue::Float(t) => Value::Float(t.parse().ok()?),
        YamlValue::String(s) => Value::String(s.clone()),
        YamlValue::Sequence(items) => Value::Sequence(
            items.iter().map(value_back).collect::<Option<_>>()?,
        ),
        YamlValue::Mapping(pairs) => Value::Mapping(
            pairs.iter().map(|(k, v)| Some((value_back(k)?, value_back(v)?))).collect::<Option<_>>()?,
        ),
    })
}

/// The value of the document that a YAML text holds, if the text loads.
pub uninterp spec fn yaml_value(text: Seq<char>) -> Option<YamlValue>;

/// `rust_yaml::Yaml::load_str` with the default configuration: the value of
/// the document, or nothing where the text does not load. The same text
/// gives the same value.
#[verifier::external_body]
fn yaml_load(text: &str) -> (r: Option<YamlValue>)
    ensures
        r == yaml_value(text@),
{
    let value = rust_yaml::Yaml::new().load_str(text).ok()?;
    Some(value_image(&value))
}

/// `rust_yaml::BasicEmitter::emit`: the bytes of a document that holds the
/// value, or nothing where the emitter fails. Nothing is claimed of the
/// bytes: the emitter names repeated values in an order that is not fixed.
#[verifier::external_body]
fn yaml_emit(value: &YamlValue) -> Option<Vec<u8>> {
    let mut out = Vec::new();
    rust_yaml::BasicEmitter::new().emit(&value_back(value)?, &mut out).ok()?;
    Some(out)
}

fn float_key_of(t: &String) -> (r: Vec<char>)
    ensures
        r@ == float_key(t@),
{
    let v = chars::from_str(t.as_str());
    if chars::eq_str(&v, "-0") {
        chars::from_str("0")
    } else {
        v
    }
}

/// A copy of the value.
#[verifier::loop_isolation(false)]
pub fn clone_value(v: &YamlValue) -> (r: YamlValue)
    ensures
        r@ == v@,
    decreases v,
{
    match v {
        YamlValue::Null => YamlValue::Null,
        YamlValue::Bool(b) => YamlValue::Bool(*b),
        YamlValue::Int(i) => YamlValue::Int(*i),
        YamlValue::Float(t) => YamlValue::Float(t.clone()),
        YamlValue::String(s) => YamlValue::String(s.clone()),
        YamlValue::Sequence(items) => {
            let mut out: Vec<YamlValue> = Vec::new();
            let mut i: usize = 0;
            while i < items.len()
                invariant
                    i <= items.len(),
                    out@.len() == i,
                    forall|j: int| 0 <= j < i ==> (#[trigger] out@[j])@ == items@[j]@,
                decreases items.len() - i,
            {
                out.push(clone_value(&items[i]));
                i += 1;
            }
            proof {
                lemma_items_view(items@, items@.len() as int);
                lemma_items_view(out@, out@.len() as int);
                assert(item_views(out@) =~= item_views(items@));
            }
            YamlValue::Sequence(out)
        },
        YamlValue::Mapping(pairs) => {
            let out = clone_pairs(pairs);
            YamlValue::Mapping(out)
        },
    }
}

#[verifier::loop_isolation(false)]
fn clone_pairs(pairs: &Vec<(YamlValue, YamlValue)>) -> (out: Vec<(YamlValue, YamlValue)>)
    ensures
        pair_views(out@) == pair_views(pairs@),
    decreases pairs,
{
    let mut out: Vec<(YamlValue, YamlValue)> = Vec::new();
    let mut i: usize = 0;
    while i < pairs.len()
        invariant
            i <= pairs.len(),
            out@.len() == i,
            forall|j: int|
                0 <= j < i ==> (#[trigger] out@[j]).0@ == pairs@[j].0@ && out@[j].1@
                    == pairs@[j].1@,
        decreases pairs.len() - i,
    {
        let k = clone_value(&pairs[i].0);
        let v = clone_value(&pairs[i].1);
        out.push((k, v));
        i += 1;
    }
    proof {
        lemma_pairs_view(pairs@, pairs@.len() as int);
        lemma_pairs_view(out@, out@.len() as int);
        assert(pair_views(out@) =~= pair_views(pairs@));
    }
    out
}

/// Whether two values are the same key.
#[verifier::loop_isolation(false)]
pub fn values_equal(a: &YamlValue, b: &YamlValue) -> (r: bool)
    ensures
        r == (a@ == b@),
    decreases a,
{
    match (a, b) {
        (YamlValue::Null, YamlValue::Null) => true,
        (YamlValue::Bool(x), YamlValue::Bool(y)) => *x == *y,
        (YamlValue::Int(x), YamlValue::Int(y)) => *x == *y,
        (YamlValue::Float(x), YamlValue::Float(y)) => {
            let kx = float_key_of(x);
            let ky = float_key_of(y);
            chars::eq(&kx, &ky)
        },
        (YamlValue::String(x), YamlValue::String(y)) => *x == *y,
        (YamlValue::Sequence(x), YamlValue::Sequence(y)) => {
            proof {
                lemma_items_view(x@, x@.len() as int);
                lemma_items_view(y@, y@.len() as int);
            }
            if x.len() != y.len() {
                return false;
            }
            let mut i: usize = 0;
            while i < x.len()
                invariant
                    i <= x.len(),
                    x.len() == y.len(),
                    forall|j: int| 0 <= j < i ==> x@[j]@ == y@[j]@,
                decreases x.len() - i,
            {
                if !values_equal(&x[i], &y[i]) {
                    proof {
                        lemma_items_view(x@, x@.len() as int);
                        lemma_items_view(y@, y@.len() as int);
                        assert(item_views(x@)[i as int] != item_views(y@)[i as int]);
                    }
                    return false;
                }
                i += 1;
            }
            proof {
                lemma_items_view(x@, x@.len() as int);
                lemma_items_view(y@, y@.len() as int);
                assert(item_views(x@) =~= item_views(y@));
            }
            true
        },
        (YamlValue::Mapping(x), YamlValue::Mapping(y)) => {
            proof {
                lemma_pairs_view(x@, x@.len() as int);
                lemma_pairs_view(y@, y@.len() as int);
            }
            if x.len() != y.len() {
                return false;
            }
            let mut i: usize = 0;
            while i < x.len()
                invariant
                    i <= x.len(),
                    x.len() == y.len(),
                    forall|j: int| 0 <= j < i ==> x@[j].0@ == y@[j].0@ && x@[j].1@ == y@[j].1@,
                decreases x.len() - i,
            {
                if !values_equal(&x[i].0, &y[i].0) || !values_equal(&x[i].1, &y[i].1) {
                    proof {
                        lemma_pairs_view(x@, x@.len() as int);
                        lemma_pairs_view(y@, y@.len() as int);
                        assert(pair_views(x@)[i as int] != pair_views(y@)[i as int]);
                    }
                    return false;
                }
                i += 1;
            }
            proof {
                lemma_pairs_view(x@, x@.len() as int);
                lemma_pairs_view(y@, y@.len() as int);
                assert(pair_views(x@) =~= pair_views(y@));
            }
            true
        },
        _ => false,
    }
}

fn find_key(pairs: &Vec<(YamlValue, YamlValue)>, key: &YamlValue) -> (r: Option<usize>)
    ensures
        match r {
            Some(i) => i == key_index(pair_views(pairs@), key@, 0) && i < pairs.len(),
            None => key_index(pair_views(pairs@), key@, 0) >= pairs.len(),
        },
{
    let ghost pv = pair_views(pairs@);
    proof {
        lemma_pairs_view(pairs@, pairs@.len() as int);
    }
    let mut i: usize = 0;
    while i < pairs.len()
        invariant
            i <= pairs.len(),
            pv == pair_views(pairs@),
            pv.len() == pairs@.len(),
            forall|j: int| 0 <= j < pv.len() ==> (#[trigger] pv[j]) == (pairs@[j].0@, pairs@[j].1@),
            key_index(pv, key@, 0) == key_index(pv, key@, i as int),
        decreases pairs.len() - i,
    {
        assert(pv[i as int].0 == pairs@[i as int].0@);
        if values_equal(&pairs[i].0, key) {
            return Some(i);
        }
        i += 1;
    }
    None
}

/// The destination's entries with what the template's entries add.
#[verifier::loop_isolation(false)]
fn merge_yaml_pairs(d: Vec<(YamlValue, YamlValue)>, s: &Vec<(YamlValue, YamlValue)>) -> (r: Vec<
    (YamlValue, YamlValue),
>)
    ensures
        pair_views(r@) == merge_pairs(pair_views(d@), pair_views(s@), s@.len() as int),
    decreases s,
{
    let ghost dv = pair_views(d@);
    let ghost sv = pair_views(s@);
    proof {
        lemma_pairs_view(s@, s@.len() as int);
    }
    let mut m = d;
    let mut n: usize = 0;
    while n < s.len()
        invariant
            n <= s.len(),
            sv == pair_views(s@),
            sv.len() == s@.len(),
            forall|j: int| 0 <= j < sv.len() ==> (#[trigger] sv[j]) == (s@[j].0@, s@[j].1@),
            pair_views(m@) == merge_pairs(dv, sv, n as int),
        decreases s.len() - n,
    {
        let ghost mv = pair_views(m@);
        proof {
            lemma_pairs_view(m@, m@.len() as int);
        }
        assert(sv[n as int] == (s@[n as int].0@, s@[n as int].1@));
        match find_key(&m, &s[n].0) {
            Some(i) => {
                let (k0, v0) = m.remove(i);
                let merged = merge_yaml_value(v0, &s[n].1);
                m.insert(i, (k0, merged));
                proof {
                    lemma_pairs_view(m@, m@.len() as int);
                    assert(pair_views(m@) =~= mv.update(
                        i as int,
                        (mv[i as int].0, merge_value(mv[i as int].1, sv[n as int].1)),
                    ));
                }
            },
            None => {
                let k = clone_value(&s[n].0);
                let v = clone_value(&s[n].1);
                m.push((k, v));
                proof {
                    lemma_pairs_view(m@, m@.len() as int);
                    assert(pair_views(m@) =~= mv.push(sv[n as int]));
                }
            },
        }
        n += 1;
    }
    m
}

/// Merges the template's value into the destination's.
///
/// Two mappings give the destination's mapping with the template's missing
/// entries behind its own, and with the values under a common key merged
/// in turn. Any other two values give the destination's value.
pub fn merge_yaml_value(dest: YamlValue, src: &YamlValue) -> (r: YamlValue)
    ensures
        r@ == merge_value(dest@, src@),
    decreases src,
{
    proof {
        lemma_view_is_mapping(dest);
        lemma_view_is_mapping(*src);
    }
    match src {
        YamlValue::Mapping(s) => {
            proof {
                lemma_pairs_view(s@, s@.len() as int);
            }
            match dest {
                YamlValue::Mapping(d) => YamlValue::Mapping(merge_yaml_pairs(d, s)),
                other => other,
            }
        },
        _ => dest,
    }
}

/// A value is a mapping where its view is one.
pub proof fn lemma_view_is_mapping(v: YamlValue)
    ensures
        v@ is Mapping <==> v is Mapping,
{
    match v {
        YamlValue::Null => {},
        YamlValue::Bool(_) => {},
        YamlValue::Int(_) => {},
        YamlValue::Float(_) => {},
        YamlValue::String(_) => {},
        YamlValue::Sequence(_) => {},
        YamlValue::Mapping(_) => {},
    }
}

/// What the merge of two YAML files comes to before anything is written.
#[derive(Debug)]
pub enum YamlMerge {
    /// A file is not UTF-8 or does not load: there is no merge.
    Unavailable,
    /// The template adds nothing: the destination stands as it is.
    Unchanged,
    /// The merged value, which differs from the destination's.
    Changed(YamlValue),
}

/// A planned merge as a mathematical value.
pub ghost enum YamlMergeView {
    Unavailable,
    Unchanged,
    Changed(YamlView),
}

impl View for YamlMerge {
    type V = YamlMergeView;

    open spec fn view(&self) -> YamlMergeView {
        match self {
            YamlMerge::Unavailable => YamlMergeView::Unavailable,
            YamlMerge::Unchanged => YamlMergeView::Unchanged,
            YamlMerge::Changed(v) => YamlMergeView::Changed(v@),
        }
    }
}

/// The planned merge of two loaded documents: none where one did not load,
/// no change where the merged value is the destination's own.
pub open spec fn merge_of_values(dest: Option<YamlValue>, src: Option<YamlValue>) -> YamlMergeView {
    match (dest, src) {
        (Some(d), Some(s)) => if merge_value(d@, s@) == d@ {
            YamlMergeView::Unchanged
        } else {
            YamlMergeView::Changed(merge_value(d@, s@))
        },
        _ => YamlMergeView::Unavailable,
    }
}

/// The planned merge of two files.
pub open spec fn planned_yaml(dest: Seq<u8>, src: Seq<u8>) -> YamlMergeView {
    if valid_utf8(dest) && valid_utf8(src) {
        merge_of_values(yaml_value(decode_utf8(dest)), yaml_value(decode_utf8(src)))
    } else {
        YamlMergeView::Unavailable
    }
}

/// What the merge of two files may give. There is none where the merge is
/// unavailable. Where the template adds nothing, it is the destination's own
/// bytes. Where the value changes, the bytes are those that the emitter
/// writes for the merged value, of which nothing is said.
pub open spec fn yaml_merge_allows(dest: Seq<u8>, src: Seq<u8>, merged: Option<Seq<u8>>) -> bool {
    match planned_yaml(dest, src) {
        YamlMergeView::Unavailable => merged is None,
        YamlMergeView::Unchanged => merged == Some(dest),
        YamlMergeView::Changed(_) => true,
    }
}

/// Plans the merge of two loaded documents.
pub fn merge_loaded(dest: Option<YamlValue>, src: Option<YamlValue>) -> (r: YamlMerge)
    ensures
        r@ == merge_of_values(dest, src),
{
    match (dest, src) {
        (Some(d), Some(s)) => {
            let before = clone_value(&d);
            let merged = merge_yaml_value(d, &s);
            if values_equal(&merged, &before) {
                YamlMerge::Unchanged
            } else {
                YamlMerge::Changed(merged)
            }
        },
        _ => YamlMerge::Unavailable,
    }
}

/// Plans the merge of two YAML files: loads both and merges their values.
pub fn plan_yaml_merge(dest_bytes: &[u8], src_bytes: &[u8]) -> (r: YamlMerge)
    ensures
        r@ == planned_yaml(dest_bytes@, src_bytes@),
{
    let dest = match chars::decode(dest_bytes) {
        Some(d) => d,
        None => { return YamlMerge::Unavailable; },
    };
    let src = match chars::decode(src_bytes) {
        Some(s) => s,
        None => { return YamlMerge::Unavailable; },
    };
    let dest_text = chars::to_string(&dest);
    let src_text = chars::to_string(&src);
    let dest_value = yaml_load(dest_text.as_str());
    let src_value = yaml_load(src_text.as_str());
    merge_loaded(dest_value, src_value)
}

/// Merges two YAML files.
///
/// Gives nothing where one of the files is not UTF-8 or does not load, and
/// the destination's own bytes where the template adds nothing. Otherwise
/// the merged value is written anew: the result is what the emitter makes
/// of `merge_yaml_value` of the two documents, or nothing where it fails.
pub fn merge_yaml(dest_bytes: &[u8], src_bytes: &[u8]) -> (r: Option<Vec<u8>>)
    ensures
        yaml_merge_allows(
            dest_bytes@,
            src_bytes@,
            match r {
                Some(out) => Some(out@),
                None => None,
            },
        ),
        r is Some ==> valid_utf8(dest_bytes@) && valid_utf8(src_bytes@),
{
    match plan_yaml_merge(dest_bytes, src_bytes) {
        YamlMerge::Unavailable => None,
        YamlMerge::Unchanged => Some(slice_to_vec(dest_bytes)),
        YamlMerge::Changed(merged) => yaml_emit(&merged),
    }
}

} // verus!
