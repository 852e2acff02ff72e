//! The configuration as a YAML document.
//!
//! A document is read into a `YamlNode`. What a key does not hold in the
//! form that is asked for is passed over; only hooks are held to their
//! form.

use crate::apply::strings;
use crate::chars;
use crate::config::{
    config_fault, fileset_views, hook_views, no_hooks, opt_text, recipe_entries, rule_views,
    source_views, target_entries, template_entries, text_entries, validate_config, Config,
    ConfigError, ConfigErrorView, ConfigView, FileSetDef, FileSetView, GitProtocol, HookDef,
    HookRunOn, HookSet, HookSetView, HookView, LicenseDef, LicenseDetailed, LicenseView,
    OverrideAction, OverrideRule, RecipeDef, RecipeView, Source, SourceView, TargetDef,
    TargetDetailed, TargetView, TemplateDef, TemplateDefView,
};
use crate::relpath;
use crate::namemap::{lemma_put_map, map_entries, put, NameMap};
use crate::text;
use vstd::prelude::*;

verus! {

/// A node of a YAML document. A float stands as its text.
#[derive(Debug)]
pub enum YamlNode {
    Real(String),
    Integer(i64),
    String(String),
    Boolean(bool),
    Array(Vec<YamlNode>),
    Hash(Vec<(YamlNode, YamlNode)>),
    /// A null, an alias, or what the loader could not read.
    Other,
}

#[verifier::external_type_specification]
#[verifier::external_body]
pub struct ExYaml(yaml_rust2::Yaml);

/// The documents of a YAML text, or the message of the loader's error.
pub uninterp spec fn yaml_documents(text: Seq<char>) -> Result<Vec<YamlNode>, String>;

/// Copies a `yaml_rust2::Yaml`, variant by variant; a mapping as its
/// entries in their order.
#[verifier::external_body]
fn yaml_image(node: &yaml_rust2::Yaml) -> YamlNode {
    match node {
        yaml_rust2::Yaml::Real(s) => YamlNode::Real(s.clone()),
        yaml_rust2::Yaml::Integer(i) => YamlNode::Integer(*i),
        yaml_rust2::Yaml::String(s) => YamlNode::String(s.clone()),
        yaml_rust2::Yaml::Boolean(b) => YamlNode::Boolean(*b),
        yaml_rust2::Yaml::Array(items) => YamlNode::Array(items.iter().map(yaml_image).collect()),
        yaml_rust2::Yaml::Hash(map) => YamlNode::Hash(
            map.iter().map(|(k, v)| (yaml_image(k), yaml_image(v))).collect(),
        ),
        _ => YamlNode::Other,
    }
}

/// `yaml_rust2::YamlLoader::load_from_str`: the documents of the text, or
/// the message of the error. The same text gives the same documents.
#[verifier::external_body]
fn load_documents(text: &str) -> (r: Result<Vec<YamlNode>, String>)
    ensures
        r == yaml_documents(text@),
{
    match yaml_rust2::YamlLoader::load_from_str(text) {
        Ok(docs) => Ok(docs.iter().map(yaml_image).collect()),
        Err(e) => Err(e.to_string()),
    }
}

/// The index of the first entry from `from` on whose key is the text
/// `key`, or the number of entries.
pub open spec fn get_index(pairs: Seq<(YamlNode, YamlNode)>, key: Seq<char>, from: int) -> int
    decreases pairs.len() - from,
{
    if 0 <= from < pairs.len() && !(pairs[from].0 matches YamlNode::String(s) && s@ == key) {
        get_index(pairs, key, from + 1)
    } else {
        from
    }
}

/// The value under a key of a mapping.
pub open spec fn get(pairs: Seq<(YamlNode, YamlNode)>, key: Seq<char>) -> Option<YamlNode> {
    let i = get_index(pairs, key, 0);
    if 0 <= i < pairs.len() {
        Some(pairs[i].1)
    } else {
        None
    }
}

/// A scalar as text: a string as it is, a number in its digits, a boolean
/// as `true` or `false`.
pub open spec fn text_of(y: YamlNode) -> Option<Seq<char>> {
    match y {
        YamlNode::String(s) => Some(s@),
        YamlNode::Integer(i) => Some(text::signed_decimal(i as int)),
        YamlNode::Real(f) => Some(f@),
        YamlNode::Boolean(b) => Some(
            if b {
                "true"@
            } else {
                "false"@
            },
        ),
        _ => None,
    }
}

/// The texts of the first `n` items, if each is a scalar.
pub open spec fn texts_upto(items: Seq<YamlNode>, n: int) -> Option<Seq<Seq<char>>>
    decreases n,
{
    if n <= 0 || n > items.len() {
        Some(Seq::empty())
    } else {
        match (texts_upto(items, n - 1), text_of(items[n - 1])) {
            (Some(ts), Some(t)) => Some(ts.push(t)),
            _ => None,
        }
    }
}

/// A list of scalars as texts.
pub open spec fn texts_of(y: YamlNode) -> Option<Seq<Seq<char>>> {
    match y {
        YamlNode::Array(items) => texts_upto(items@, items@.len() as int),
        _ => None,
    }
}

/// The truth value of a node that is one.
pub open spec fn bool_of(y: YamlNode) -> Option<bool> {
    match y {
        YamlNode::Boolean(b) => Some(b),
        _ => None,
    }
}

/// The entries of a node that is a mapping.
pub open spec fn pairs_of(y: YamlNode) -> Option<Seq<(YamlNode, YamlNode)>> {
    match y {
        YamlNode::Hash(m) => Some(m@),
        _ => None,
    }
}

/// The items of a node that is a list.
pub open spec fn items_of(y: YamlNode) -> Option<Seq<YamlNode>> {
    match y {
        YamlNode::Array(a) => Some(a@),
        _ => None,
    }
}

/// The text of the scalar under a key.
pub open spec fn get_text(pairs: Seq<(YamlNode, YamlNode)>, key: Seq<char>) -> Option<Seq<char>> {
    match get(pairs, key) {
        Some(y) => text_of(y),
        None => None,
    }
}

/// The texts of the list of scalars under a key.
pub open spec fn get_texts(pairs: Seq<(YamlNode, YamlNode)>, key: Seq<char>) -> Option<
    Seq<Seq<char>>,
> {
    match get(pairs, key) {
        Some(y) => texts_of(y),
        None => None,
    }
}

/// The texts under a key; none where the key is absent or holds something
/// else.
pub open spec fn get_texts_or_none(pairs: Seq<(YamlNode, YamlNode)>, key: Seq<char>) -> Seq<
    Seq<char>,
> {
    match get_texts(pairs, key) {
        Some(t) => t,
        None => Seq::empty(),
    }
}

/// The entries of the mapping under a key.
pub open spec fn get_pairs(pairs: Seq<(YamlNode, YamlNode)>, key: Seq<char>) -> Option<
    Seq<(YamlNode, YamlNode)>,
> {
    match get(pairs, key) {
        Some(y) => pairs_of(y),
        None => None,
    }
}

/// The items of the list under a key.
pub open spec fn get_items(pairs: Seq<(YamlNode, YamlNode)>, key: Seq<char>) -> Option<
    Seq<YamlNode>,
> {
    match get(pairs, key) {
        Some(y) => items_of(y),
        None => None,
    }
}

/// The first of two values that is there.
pub open spec fn or_else<T>(a: Option<T>, b: Option<T>) -> Option<T> {
    match a {
        Some(x) => Some(x),
        None => b,
    }
}

/// The value under a key of a mapping.
pub fn yaml_get<'a>(map: &'a Vec<(YamlNode, YamlNode)>, key: &str) -> (r: Option<&'a YamlNode>)
    ensures
        match r {
            Some(y) => get(map@, key@) == Some(*y),
            None => get(map@, key@) is None,
        },
{
    let mut i: usize = 0;
    while i < map.len()
        invariant
            i <= map.len(),
            get_index(map@, key@, 0) == get_index(map@, key@, i as int),
        decreases map.len() - i,
    {
        let hit = match &map[i].0 {
            YamlNode::String(s) => chars::eq_str(&chars::from_str(s.as_str()), key),
            _ => false,
        };
        if hit {
            return Some(&map[i].1);
        }
        i += 1;
    }
    None
}

/// The text of a scalar: of a string, a number or a truth value.
pub fn yaml_as_string(y: &YamlNode) -> (r: Option<String>)
    ensures
        match r {
            Some(s) => text_of(*y) == Some(s@),
            None => text_of(*y) is None,
        },
{
    match y {
        YamlNode::String(s) => Some(s.clone()),
        YamlNode::Integer(i) => Some(chars::to_string(&chars::from_i64(*i))),
        YamlNode::Real(f) => Some(f.clone()),
        YamlNode::Boolean(b) => Some(
            if *b {
                "true".to_owned()
            } else {
                "false".to_owned()
            },
        ),
        _ => None,
    }
}

/// The texts of a list of scalars.
#[verifier::loop_isolation(false)]
pub fn yaml_as_vec_of_strings(y: &YamlNode) -> (r: Option<Vec<String>>)
    ensures
        match r {
            Some(v) => texts_of(*y) == Some(strings(v@)),
            None => texts_of(*y) is None,
        },
{
    match y {
        YamlNode::Array(seq) => {
            let mut out: Vec<String> = Vec::new();
            let mut i: usize = 0;
            assert(strings(out@) =~= Seq::<Seq<char>>::empty());
            while i < seq.len()
                invariant
                    i <= seq.len(),
                    texts_upto(seq@, i as int) == Some(strings(out@)),
                decreases seq.len() - i,
            {
                match yaml_as_string(&seq[i]) {
                    Some(s) => {
                        let ghost before = strings(out@);
                        out.push(s);
                        assert(strings(out@) =~= before.push(s@));
                    },
                    None => {
                        assert(texts_upto(seq@, i + 1) is None);
                        proof {
                            lemma_texts_none(seq@, i + 1, seq@.len() as int);
                        }
                        return None;
                    },
                }
                i += 1;
            }
            Some(out)
        },
        _ => None,
    }
}

/// Once an item is no scalar, no longer list of items has texts.
pub proof fn lemma_texts_none(items: Seq<YamlNode>, n: int, m: int)
    requires
        0 < n <= m <= items.len(),
        texts_upto(items, n) is None,
    ensures
        texts_upto(items, m) is None,
    decreases m - n,
{
    if n < m {
        lemma_texts_none(items, n, m - 1);
    }
}

/// The truth value of a node that is one.
pub fn yaml_as_bool(y: &YamlNode) -> (r: Option<bool>)
    ensures
        r == bool_of(*y),
{
    match y {
        YamlNode::Boolean(b) => Some(*b),
        _ => None,
    }
}

/// The entries of a node that is a mapping.
pub fn yaml_as_mapping(y: &YamlNode) -> (r: Option<&Vec<(YamlNode, YamlNode)>>)
    ensures
        match r {
            Some(m) => pairs_of(*y) == Some(m@),
            None => pairs_of(*y) is None,
        },
{
    match y {
        YamlNode::Hash(m) => Some(m),
        _ => None,
    }
}

/// The items of the list under a key.
pub fn yaml_get_seq<'a>(map: &'a Vec<(YamlNode, YamlNode)>, key: &str) -> (r: Option<
    &'a Vec<YamlNode>,
>)
    ensures
        match r {
            Some(v) => get_items(map@, key@) == Some(v@),
            None => get_items(map@, key@) is None,
        },
{
    match yaml_get(map, key) {
        Some(YamlNode::Array(seq)) => Some(seq),
        _ => None,
    }
}

/// The entries of the mapping under a key.
pub fn yaml_get_mapping<'a>(map: &'a Vec<(YamlNode, YamlNode)>, key: &str) -> (r: Option<
    &'a Vec<(YamlNode, YamlNode)>,
>)
    ensures
        match r {
            Some(v) => get_pairs(map@, key@) == Some(v@),
            None => get_pairs(map@, key@) is None,
        },
{
    match yaml_get(map, key) {
        Some(YamlNode::Hash(m)) => Some(m),
        _ => None,
    }
}

/// The text of the scalar under a key.
pub fn yaml_get_string(map: &Vec<(YamlNode, YamlNode)>, key: &str) -> (r: Option<String>)
    ensures
        opt_text(r) == get_text(map@, key@),
{
    match yaml_get(map, key) {
        Some(y) => yaml_as_string(y),
        None => None,
    }
}

/// The texts under a key.
pub fn yaml_get_vec_of_strings(map: &Vec<(YamlNode, YamlNode)>, key: &str) -> (r: Option<
    Vec<String>,
>)
    ensures
        match r {
            Some(v) => get_texts(map@, key@) == Some(strings(v@)),
            None => get_texts(map@, key@) is None,
        },
{
    match yaml_get(map, key) {
        Some(y) => yaml_as_vec_of_strings(y),
        None => None,
    }
}

fn texts_or_none(map: &Vec<(YamlNode, YamlNode)>, key: &str) -> (r: Vec<String>)
    ensures
        strings(r@) == get_texts_or_none(map@, key@),
{
    match yaml_get_vec_of_strings(map, key) {
        Some(v) => v,
        None => {
            let v: Vec<String> = Vec::new();
            assert(strings(v@) =~= Seq::<Seq<char>>::empty());
            v
        },
    }
}

/// The action that a word names, without regard to case.
pub open spec fn action_named(word: Seq<char>) -> Option<OverrideAction> {
    let w = text::to_ascii_lowercase(word);
    if w == "overwrite"@ {
        Some(OverrideAction::Overwrite)
    } else if w == "merge"@ {
        Some(OverrideAction::Merge)
    } else if w == "skip"@ {
        Some(OverrideAction::Skip)
    } else {
        None
    }
}

/// The rule that an item of `overrides` is: a mapping with a `path` or a
/// `pattern`, and with an `action` that names one, or with none, which
/// stands for overwriting.
pub open spec fn rule_of(item: YamlNode) -> Option<(Seq<char>, OverrideAction)> {
    match pairs_of(item) {
        None => None,
        Some(map) => match or_else(get_text(map, "path"@), get_text(map, "pattern"@)) {
            None => None,
            Some(pattern) => match get_text(map, "action"@) {
                None => Some((pattern, OverrideAction::Overwrite)),
                Some(word) => match action_named(word) {
                    Some(a) => Some((pattern, a)),
                    None => None,
                },
            },
        },
    }
}

/// The rules among the first `n` items.
pub open spec fn rules_upto(items: Seq<YamlNode>, n: int) -> Seq<(Seq<char>, OverrideAction)>
    decreases n,
{
    if n <= 0 || n > items.len() {
        Seq::empty()
    } else {
        match rule_of(items[n - 1]) {
            Some(r) => rules_upto(items, n - 1).push(r),
            None => rules_upto(items, n - 1),
        }
    }
}

/// The rules of a list; an item that is no rule is passed over.
pub open spec fn rules_of(y: YamlNode) -> Option<Seq<(Seq<char>, OverrideAction)>> {
    match y {
        YamlNode::Array(items) => Some(rules_upto(items@, items@.len() as int)),
        _ => None,
    }
}

/// The override rules under a key; none where the key is absent or holds no
/// list.
pub open spec fn get_rules(pairs: Seq<(YamlNode, YamlNode)>, key: Seq<char>) -> Seq<
    (Seq<char>, OverrideAction),
> {
    match get(pairs, key) {
        Some(y) => match rules_of(y) {
            Some(r) => r,
            None => Seq::empty(),
        },
        None => Seq::empty(),
    }
}

fn action_of_word(word: &str) -> (r: Option<OverrideAction>)
    ensures
        r == action_named(word@),
{
    let w = chars::to_ascii_lowercase(&chars::from_str(word));
    if chars::eq_str(&w, "overwrite") {
        Some(OverrideAction::Overwrite)
    } else if chars::eq_str(&w, "merge") {
        Some(OverrideAction::Merge)
    } else if chars::eq_str(&w, "skip") {
        Some(OverrideAction::Skip)
    } else {
        None
    }
}

fn yaml_to_rule(item: &YamlNode) -> (r: Option<OverrideRule>)
    ensures
        match r {
            Some(rule) => rule_of(*item) == Some(rule@),
            None => rule_of(*item) is None,
        },
{
    let map = match yaml_as_mapping(item) {
        Some(m) => m,
        None => {
            return None;
        },
    };
    let pattern = match yaml_get_string(map, "path") {
        Some(p) => p,
        None => match yaml_get_string(map, "pattern") {
            Some(p) => p,
            None => {
                return None;
            },
        },
    };
    let action = match yaml_get_string(map, "action") {
        None => OverrideAction::Overwrite,
        Some(word) => match action_of_word(word.as_str()) {
            Some(a) => a,
            None => {
                return None;
            },
        },
    };
    Some(OverrideRule { pattern, action })
}

/// Reads the override rules under a key.
pub fn yaml_to_override_rules(y: &YamlNode) -> (r: Option<Vec<OverrideRule>>)
    ensures
        match r {
            Some(v) => rules_of(*y) == Some(rule_views(v@)),
            None => rules_of(*y) is None,
        },
{
    let seq = match y {
        YamlNode::Array(seq) => seq,
        _ => {
            return None;
        },
    };
    let mut out: Vec<OverrideRule> = Vec::new();
    let mut i: usize = 0;
    assert(rule_views(out@) =~= Seq::<(Seq<char>, OverrideAction)>::empty());
    while i < seq.len()
        invariant
            i <= seq.len(),
            rule_views(out@) == rules_upto(seq@, i as int),
        decreases seq.len() - i,
    {
        match yaml_to_rule(&seq[i]) {
            Some(rule) => {
                let ghost before = rule_views(out@);
                let ghost rv = rule@;
                out.push(rule);
                assert(rule_views(out@) =~= before.push(rv));
            },
            None => {},
        }
        i += 1;
    }
    Some(out)
}

fn rules_under(map: &Vec<(YamlNode, YamlNode)>, key: &str) -> (r: Vec<OverrideRule>)
    ensures
        rule_views(r@) == get_rules(map@, key@),
{
    let found = match yaml_get(map, key) {
        Some(y) => yaml_to_override_rules(y),
        None => None,
    };
    match found {
        Some(v) => v,
        None => {
            let v: Vec<OverrideRule> = Vec::new();
            assert(rule_views(v@) =~= Seq::<(Seq<char>, OverrideAction)>::empty());
            v
        },
    }
}

/// When a hook runs, by its word, without regard to case.
pub open spec fn run_on_named(word: Seq<char>) -> Option<HookRunOn> {
    let w = text::to_ascii_lowercase(word);
    if w == "init"@ {
        Some(HookRunOn::Init)
    } else if w == "update"@ {
        Some(HookRunOn::Update)
    } else {
        None
    }
}

/// The `run_on` of the first `n` words, or the first word, in lower case,
/// that names none.
pub open spec fn run_on_upto(words: Seq<Seq<char>>, n: int) -> Result<Seq<HookRunOn>, Seq<char>>
    decreases n,
{
    if n <= 0 || n > words.len() {
        Ok(Seq::empty())
    } else {
        match run_on_upto(words, n - 1) {
            Err(w) => Err(w),
            Ok(v) => match run_on_named(words[n - 1]) {
                Some(r) => Ok(v.push(r)),
                None => Err(text::to_ascii_lowercase(words[n - 1])),
            },
        }
    }
}

/// The entries of a mapping whose key and value are scalars, as a map of
/// texts: a later entry replaces an earlier one of the same name.
pub open spec fn env_upto(pairs: Seq<(YamlNode, YamlNode)>, n: int) -> Seq<(Seq<char>, Seq<char>)>
    decreases n,
{
    if n <= 0 || n > pairs.len() {
        Seq::empty()
    } else {
        match (text_of(pairs[n - 1].0), text_of(pairs[n - 1].1)) {
            (Some(k), Some(v)) => put(env_upto(pairs, n - 1), k, v),
            _ => env_upto(pairs, n - 1),
        }
    }
}

/// The environment under a key, as pairs of name and value.
pub open spec fn get_env(pairs: Seq<(YamlNode, YamlNode)>, key: Seq<char>) -> Seq<
    (Seq<char>, Seq<char>),
> {
    match get_pairs(pairs, key) {
        Some(e) => env_upto(e, e.len() as int),
        None => Seq::empty(),
    }
}

/// The label of an item of a list of hooks.
pub open spec fn item_label(label: Seq<char>, idx: int) -> Seq<char> {
    label + "["@ + text::decimal(idx as nat) + "]"@
}

/// The hook that an item of a list is, or what is wrong with it. An item
/// must be a mapping with a `command` and a `run_on` that are lists of
/// scalars and hold at least one; each word of `run_on` must be `init` or
/// `update`; `allow_failure`, where it is there, must be a boolean.
pub open spec fn hook_of(label: Seq<char>, idx: int, item: YamlNode) -> Result<HookView, Seq<char>> {
    let here = item_label(label, idx);
    match pairs_of(item) {
        None => Err(here + " must be a mapping"@),
        Some(map) => match get_texts(map, "command"@) {
            None => Err(here + ".command must be a non-empty list"@),
            Some(command) => if command.len() == 0 {
                Err(here + ".command must be a non-empty list"@)
            } else {
                match get_texts(map, "run_on"@) {
                    None => Err(here + ".run_on must be a non-empty list"@),
                    Some(words) => if words.len() == 0 {
                        Err(here + ".run_on must be a non-empty list"@)
                    } else {
                        match run_on_upto(words, words.len() as int) {
                            Err(w) => Err(here + ".run_on has invalid value '"@ + w + "'"@),
                            Ok(run_on) => {
                                let allow = match get(map, "allow_failure"@) {
                                    Some(v) => bool_of(v),
                                    None => Some(false),
                                };
                                match allow {
                                    None => Err(here + ".allow_failure must be a boolean"@),
                                    Some(allow_failure) => Ok(
                                        HookView {
                                            command,
                                            run_on,
                                            cwd: get_text(map, "cwd"@),
                                            env: get_env(map, "env"@),
                                            allow_failure,
                                        },
                                    ),
                                }
                            },
                        }
                    },
                }
            },
        },
    }
}

/// The hooks of the first `n` items, or the fault of the first item that
/// has one.
pub open spec fn hooks_upto(label: Seq<char>, items: Seq<YamlNode>, n: int) -> Result<
    Seq<HookView>,
    Seq<char>,
>
    decreases n,
{
    if n <= 0 || n > items.len() {
        Ok(Seq::empty())
    } else {
        match hooks_upto(label, items, n - 1) {
            Err(m) => Err(m),
            Ok(v) => match hook_of(label, n - 1, items[n - 1]) {
                Ok(h) => Ok(v.push(h)),
                Err(m) => Err(m),
            },
        }
    }
}

/// The hooks of a list.
pub open spec fn hooks_of(label: Seq<char>, y: YamlNode) -> Result<Seq<HookView>, Seq<char>> {
    match y {
        YamlNode::Array(items) => hooks_upto(label, items@, items@.len() as int),
        _ => Err(label + " must be a list"@),
    }
}

/// The hooks of the list under a key, or what is wrong with the first faulty
/// item.
pub open spec fn get_hooks(pairs: Seq<(YamlNode, YamlNode)>, key: Seq<char>, label: Seq<char>) -> Result<
    Seq<HookView>,
    Seq<char>,
> {
    match get(pairs, key) {
        Some(v) => hooks_of(label, v),
        None => Ok(Seq::empty()),
    }
}

/// The hooks of a mapping with the lists `after_dir_create`, `after_recipe`
/// and `after_all`, or the first fault among them in that order.
pub open spec fn hook_set_of(pairs: Seq<(YamlNode, YamlNode)>) -> Result<HookSetView, Seq<char>> {
    match get_hooks(pairs, "after_dir_create"@, "hooks.after_dir_create"@) {
        Err(m) => Err(m),
        Ok(a) => match get_hooks(pairs, "after_recipe"@, "hooks.after_recipe"@) {
            Err(m) => Err(m),
            Ok(b) => match get_hooks(pairs, "after_all"@, "hooks.after_all"@) {
                Err(m) => Err(m),
                Ok(c) => Ok(HookSetView { after_dir_create: a, after_recipe: b, after_all: c }),
            },
        },
    }
}

fn invalid_config(path: &str, message: Vec<char>) -> (e: ConfigError)
    ensures
        e@ == (ConfigErrorView::InvalidConfig { path: path@, message: message@ }),
{
    ConfigError::InvalidConfig { path: path.to_owned(), message: chars::to_string(&message) }
}

fn with_suffix(here: &Vec<char>, suffix: &str) -> (r: Vec<char>)
    ensures
        r@ == here@ + suffix@,
{
    let mut m = chars::clone(here);
    chars::append_str(&mut m, suffix);
    m
}

fn run_on_words(words: &Vec<String>) -> (r: Result<Vec<HookRunOn>, Vec<char>>)
    ensures
        match r {
            Ok(v) => run_on_upto(strings(words@), words@.len() as int) == Ok::<
                Seq<HookRunOn>,
                Seq<char>,
            >(v@),
            Err(w) => run_on_upto(strings(words@), words@.len() as int) == Err::<
                Seq<HookRunOn>,
                Seq<char>,
            >(w@),
        },
{
    let ghost ws = strings(words@);
    let mut out: Vec<HookRunOn> = Vec::new();
    let mut i: usize = 0;
    while i < words.len()
        invariant
            i <= words.len(),
            ws == strings(words@),
            run_on_upto(ws, i as int) == Ok::<Seq<HookRunOn>, Seq<char>>(out@),
        decreases words.len() - i,
    {
        assert(ws[i as int] == words@[i as int]@);
        let lower = chars::to_ascii_lowercase(&chars::from_str(words[i].as_str()));
        if chars::eq_str(&lower, "init") {
            out.push(HookRunOn::Init);
        } else if chars::eq_str(&lower, "update") {
            out.push(HookRunOn::Update);
        } else {
            proof {
                lemma_run_on_err(ws, i + 1, ws.len() as int);
            }
            return Err(lower);
        }
        i += 1;
    }
    Ok(out)
}

/// The first word that names no `run_on` stays the fault of longer lists.
pub proof fn lemma_run_on_err(words: Seq<Seq<char>>, n: int, m: int)
    requires
        0 < n <= m <= words.len(),
        run_on_upto(words, n) is Err,
    ensures
        run_on_upto(words, m) == run_on_upto(words, n),
    decreases m - n,
{
    if n < m {
        lemma_run_on_err(words, n, m - 1);
    }
}

fn env_under(map: &Vec<(YamlNode, YamlNode)>, key: &str) -> (r: NameMap<String>)
    ensures
        text_entries(r) == get_env(map@, key@),
{
    let mut env: NameMap<String> = NameMap::new();
    proof {
        env.lemma_lengths();
        assert(text_entries(env) =~= Seq::<(Seq<char>, Seq<char>)>::empty());
    }
    match yaml_get_mapping(map, key) {
        None => {},
        Some(pairs) => {
            let mut i: usize = 0;
            while i < pairs.len()
                invariant
                    i <= pairs.len(),
                    text_entries(env) == env_upto(pairs@, i as int),
                decreases pairs.len() - i,
            {
                match (yaml_as_string(&pairs[i].0), yaml_as_string(&pairs[i].1)) {
                    (Some(k), Some(v)) => {
                        let ghost before = env.pairs();
                        proof {
                            lemma_put_map(before, |s: String| s@, k@, v);
                        }
                        env.insert(k, v);
                    },
                    _ => {},
                }
                i += 1;
            }
        },
    }
    env
}

fn yaml_to_hook(path: &str, label: &str, idx: usize, item: &YamlNode) -> (r: Result<
    HookDef,
    ConfigError,
>)
    ensures
        match r {
            Ok(h) => hook_of(label@, idx as int, *item) == Ok::<HookView, Seq<char>>(h@),
            Err(e) => hook_of(label@, idx as int, *item) is Err && e@
                == (ConfigErrorView::InvalidConfig {
                path: path@,
                message: hook_of(label@, idx as int, *item)->Err_0,
            }),
        },
{
    let mut here = chars::from_str(label);
    chars::append_str(&mut here, "[");
    chars::append(&mut here, &chars::from_u64(idx as u64));
    chars::append_str(&mut here, "]");
    assert(here@ =~= item_label(label@, idx as int));
    let map = match yaml_as_mapping(item) {
        Some(m) => m,
        None => {
            return Err(invalid_config(path, with_suffix(&here, " must be a mapping")));
        },
    };
    let command = match yaml_get_vec_of_strings(map, "command") {
        Some(c) => c,
        None => {
            return Err(
                invalid_config(path, with_suffix(&here, ".command must be a non-empty list")),
            );
        },
    };
    if command.len() == 0 {
        return Err(invalid_config(path, with_suffix(&here, ".command must be a non-empty list")));
    }
    let words = match yaml_get_vec_of_strings(map, "run_on") {
        Some(w) => w,
        None => {
            return Err(
                invalid_config(path, with_suffix(&here, ".run_on must be a non-empty list")),
            );
        },
    };
    if words.len() == 0 {
        return Err(invalid_config(path, with_suffix(&here, ".run_on must be a non-empty list")));
    }
    let run_on = match run_on_words(&words) {
        Ok(r) => r,
        Err(w) => {
            let mut m = with_suffix(&here, ".run_on has invalid value '");
            chars::append(&mut m, &w);
            chars::append_str(&mut m, "'");
            return Err(invalid_config(path, m));
        },
    };
    let cwd = yaml_get_string(map, "cwd");
    let allow_failure = match yaml_get(map, "allow_failure") {
        Some(v) => match yaml_as_bool(v) {
            Some(b) => b,
            None => {
                return Err(
                    invalid_config(path, with_suffix(&here, ".allow_failure must be a boolean")),
                );
            },
        },
        None => false,
    };
    let env = env_under(map, "env");
    Ok(HookDef { command, run_on, cwd, env, allow_failure })
}

/// Reads a list of hooks. The error names the configuration file and says
/// what is wrong with the first faulty item.
#[verifier::loop_isolation(false)]
pub fn yaml_to_hooks(path: &str, label: &str, y: &YamlNode) -> (r: Result<Vec<HookDef>, ConfigError>)
    ensures
        match r {
            Ok(v) => hooks_of(label@, *y) == Ok::<Seq<HookView>, Seq<char>>(hook_views(v@)),
            Err(e) => hooks_of(label@, *y) is Err && e@ == (ConfigErrorView::InvalidConfig {
                path: path@,
                message: hooks_of(label@, *y)->Err_0,
            }),
        },
{
    let seq = match y {
        YamlNode::Array(seq) => seq,
        _ => {
            let mut m = chars::from_str(label);
            chars::append_str(&mut m, " must be a list");
            return Err(invalid_config(path, m));
        },
    };
    let mut out: Vec<HookDef> = Vec::new();
    let mut i: usize = 0;
    assert(hook_views(out@) =~= Seq::<HookView>::empty());
    while i < seq.len()
        invariant
            i <= seq.len(),
            hooks_upto(label@, seq@, i as int) == Ok::<Seq<HookView>, Seq<char>>(hook_views(out@)),
        decreases seq.len() - i,
    {
        match yaml_to_hook(path, label, i, &seq[i]) {
            Ok(h) => {
                let ghost before = hook_views(out@);
                let ghost hv = h@;
                out.push(h);
                assert(hook_views(out@) =~= before.push(hv));
            },
            Err(e) => {
                proof {
                    lemma_hooks_err(label@, seq@, i + 1, seq@.len() as int);
                }
                return Err(e);
            },
        }
        i += 1;
    }
    Ok(out)
}

/// The fault of the first faulty item stays the fault of longer lists.
pub proof fn lemma_hooks_err(label: Seq<char>, items: Seq<YamlNode>, n: int, m: int)
    requires
        0 < n <= m <= items.len(),
        hooks_upto(label, items, n) is Err,
    ensures
        hooks_upto(label, items, m) == hooks_upto(label, items, n),
    decreases m - n,
{
    if n < m {
        lemma_hooks_err(label, items, n, m - 1);
    }
}

fn hooks_under(path: &str, map: &Vec<(YamlNode, YamlNode)>, key: &str, label: &str) -> (r: Result<
    Vec<HookDef>,
    ConfigError,
>)
    ensures
        match r {
            Ok(v) => get_hooks(map@, key@, label@) == Ok::<Seq<HookView>, Seq<char>>(
                hook_views(v@),
            ),
            Err(e) => get_hooks(map@, key@, label@) is Err && e@
                == (ConfigErrorView::InvalidConfig {
                path: path@,
                message: get_hooks(map@, key@, label@)->Err_0,
            }),
        },
{
    match yaml_get(map, key) {
        Some(v) => yaml_to_hooks(path, label, v),
        None => {
            let v: Vec<HookDef> = Vec::new();
            assert(hook_views(v@) =~= Seq::<HookView>::empty());
            Ok(v)
        },
    }
}

/// Reads the hooks of the three stages.
pub fn yaml_to_hook_set(path: &str, map: &Vec<(YamlNode, YamlNode)>) -> (r: Result<
    HookSet,
    ConfigError,
>)
    ensures
        match r {
            Ok(h) => hook_set_of(map@) == Ok::<HookSetView, Seq<char>>(h@),
            Err(e) => hook_set_of(map@) is Err && e@ == (ConfigErrorView::InvalidConfig {
                path: path@,
                message: hook_set_of(map@)->Err_0,
            }),
        },
{
    let after_dir_create = match hooks_under(
        path,
        map,
        "after_dir_create",
        "hooks.after_dir_create",
    ) {
        Ok(v) => v,
        Err(e) => {
            return Err(e);
        },
    };
    let after_recipe = match hooks_under(path, map, "after_recipe", "hooks.after_recipe") {
        Ok(v) => v,
        Err(e) => {
            return Err(e);
        },
    };
    let after_all = match hooks_under(path, map, "after_all", "hooks.after_all") {
        Ok(v) => v,
        Err(e) => {
            return Err(e);
        },
    };
    Ok(HookSet { after_dir_create, after_recipe, after_all })
}

/// The license that a node is: a scalar is the SPDX identifier; a mapping
/// names it under `spdx`, `id` or `license`.
pub open spec fn license_of(y: YamlNode) -> Option<LicenseView> {
    match text_of(y) {
        Some(s) => Some(LicenseView::Spdx(s)),
        None => match pairs_of(y) {
            None => None,
            Some(map) => match or_else(
                or_else(get_text(map, "spdx"@), get_text(map, "id"@)),
                get_text(map, "license"@),
            ) {
                None => None,
                Some(spdx) => Some(
                    LicenseView::Detailed {
                        spdx,
                        output: or_else(get_text(map, "output"@), get_text(map, "path"@)),
                        year: get_text(map, "year"@),
                        name: get_text(map, "name"@),
                        args: get_env(map, "args"@),
                    },
                ),
            },
        },
    }
}

fn first_of(a: Option<String>, b: Option<String>) -> (r: Option<String>)
    ensures
        opt_text(r) == or_else(opt_text(a), opt_text(b)),
{
    match a {
        Some(x) => Some(x),
        None => b,
    }
}

/// Reads a license definition: an SPDX identifier, or a mapping with one.
pub fn yaml_to_license(y: &YamlNode) -> (r: Option<LicenseDef>)
    ensures
        match r {
            Some(l) => license_of(*y) == Some(l@),
            None => license_of(*y) is None,
        },
{
    match yaml_as_string(y) {
        Some(s) => {
            return Some(LicenseDef::Spdx(s));
        },
        None => {},
    }
    let map = match yaml_as_mapping(y) {
        Some(m) => m,
        None => {
            return None;
        },
    };
    let spdx = match first_of(
        first_of(yaml_get_string(map, "spdx"), yaml_get_string(map, "id")),
        yaml_get_string(map, "license"),
    ) {
        Some(s) => s,
        None => {
            return None;
        },
    };
    let output = first_of(yaml_get_string(map, "output"), yaml_get_string(map, "path"));
    let year = yaml_get_string(map, "year");
    let name = yaml_get_string(map, "name");
    let args = env_under(map, "args");
    Some(LicenseDef::Detailed(LicenseDetailed { spdx, output, year, name, args }))
}

/// The source that an item is: a mapping with a `name`.
pub open spec fn source_of(item: YamlNode) -> Option<SourceView> {
    match pairs_of(item) {
        None => None,
        Some(m) => match get_text(m, "name"@) {
            None => None,
            Some(name) => Some(
                SourceView {
                    name,
                    path: get_text(m, "path"@),
                    repo: get_text(m, "repo"@),
                    git_ref: get_text(m, "ref"@),
                    git_protocol: match get_text(m, "git_protocol"@) {
                        Some(w) => GitProtocol::parsed(w),
                        None => None,
                    },
                    subdir: get_text(m, "subdir"@),
                },
            ),
        },
    }
}

/// The sources among the first `n` items.
pub open spec fn sources_upto(items: Seq<YamlNode>, n: int) -> Seq<SourceView>
    decreases n,
{
    if n <= 0 || n > items.len() {
        Seq::empty()
    } else {
        match source_of(items[n - 1]) {
            Some(s) => sources_upto(items, n - 1).push(s),
            None => sources_upto(items, n - 1),
        }
    }
}

/// The sources of a configuration.
pub open spec fn get_sources(map: Seq<(YamlNode, YamlNode)>) -> Seq<SourceView> {
    match get_items(map, "sources"@) {
        Some(items) => sources_upto(items, items.len() as int),
        None => Seq::empty(),
    }
}

fn yaml_to_source(item: &YamlNode) -> (r: Option<Source>)
    ensures
        match r {
            Some(s) => source_of(*item) == Some(s@),
            None => source_of(*item) is None,
        },
{
    let m = match yaml_as_mapping(item) {
        Some(m) => m,
        None => {
            return None;
        },
    };
    let name = match yaml_get_string(m, "name") {
        Some(n) => n,
        None => {
            return None;
        },
    };
    let git_protocol = match yaml_get_string(m, "git_protocol") {
        Some(w) => GitProtocol::parse(w.as_str()),
        None => None,
    };
    Some(
        Source {
            name,
            path: yaml_get_string(m, "path"),
            repo: yaml_get_string(m, "repo"),
            git_ref: yaml_get_string(m, "ref"),
            git_protocol,
            subdir: yaml_get_string(m, "subdir"),
        },
    )
}

fn sources_under(map: &Vec<(YamlNode, YamlNode)>) -> (r: Vec<Source>)
    ensures
        source_views(r@) == get_sources(map@),
{
    let mut out: Vec<Source> = Vec::new();
    assert(source_views(out@) =~= Seq::<SourceView>::empty());
    match yaml_get_seq(map, "sources") {
        None => {},
        Some(items) => {
            let mut i: usize = 0;
            while i < items.len()
                invariant
                    i <= items.len(),
                    source_views(out@) == sources_upto(items@, i as int),
                decreases items.len() - i,
            {
                match yaml_to_source(&items[i]) {
                    Some(s) => {
                        let ghost before = source_views(out@);
                        let ghost sv = s@;
                        out.push(s);
                        assert(source_views(out@) =~= before.push(sv));
                    },
                    None => {},
                }
                i += 1;
            }
        },
    }
    out
}

/// The template that an entry of `templates` is: its name with a path, or
/// with a mapping that has a `path`.
pub open spec fn template_of(k: YamlNode, v: YamlNode) -> Option<(Seq<char>, TemplateDefView)> {
    match text_of(k) {
        None => None,
        Some(name) => match text_of(v) {
            Some(p) => Some((name, TemplateDefView::Path(p))),
            None => match pairs_of(v) {
                None => None,
                Some(d) => match get_text(d, "path"@) {
                    None => None,
                    Some(path) => Some(
                        (name, TemplateDefView::Detailed { source: get_text(d, "source"@), path }),
                    ),
                },
            },
        },
    }
}

/// The templates among the first `n` entries.
pub open spec fn templates_upto(pairs: Seq<(YamlNode, YamlNode)>, n: int) -> Seq<
    (Seq<char>, TemplateDefView),
>
    decreases n,
{
    if n <= 0 || n > pairs.len() {
        Seq::empty()
    } else {
        match template_of(pairs[n - 1].0, pairs[n - 1].1) {
            Some((name, def)) => put(templates_upto(pairs, n - 1), name, def),
            None => templates_upto(pairs, n - 1),
        }
    }
}

/// The templates of a configuration.
pub open spec fn get_templates(map: Seq<(YamlNode, YamlNode)>) -> Seq<(Seq<char>, TemplateDefView)> {
    match get_pairs(map, "templates"@) {
        Some(p) => templates_upto(p, p.len() as int),
        None => Seq::empty(),
    }
}

fn yaml_to_template(k: &YamlNode, v: &YamlNode) -> (r: Option<(String, TemplateDef)>)
    ensures
        match r {
            Some((name, def)) => template_of(*k, *v) == Some((name@, def@)),
            None => template_of(*k, *v) is None,
        },
{
    let name = match yaml_as_string(k) {
        Some(n) => n,
        None => {
            return None;
        },
    };
    match yaml_as_string(v) {
        Some(p) => {
            return Some((name, TemplateDef::Path(p)));
        },
        None => {},
    }
    let d = match yaml_as_mapping(v) {
        Some(d) => d,
        None => {
            return None;
        },
    };
    let source = yaml_get_string(d, "source");
    match yaml_get_string(d, "path") {
        Some(path) => Some((name, TemplateDef::Detailed { source, path })),
        None => None,
    }
}

fn templates_under(map: &Vec<(YamlNode, YamlNode)>) -> (r: NameMap<TemplateDef>)
    ensures
        template_entries(r) == get_templates(map@),
{
    let mut out: NameMap<TemplateDef> = NameMap::new();
    proof {
        out.lemma_lengths();
        assert(template_entries(out) =~= Seq::<(Seq<char>, TemplateDefView)>::empty());
    }
    match yaml_get_mapping(map, "templates") {
        None => {},
        Some(pairs) => {
            let mut i: usize = 0;
            while i < pairs.len()
                invariant
                    i <= pairs.len(),
                    template_entries(out) == templates_upto(pairs@, i as int),
                decreases pairs.len() - i,
            {
                match yaml_to_template(&pairs[i].0, &pairs[i].1) {
                    Some((name, def)) => {
                        proof {
                            lemma_put_map(out.pairs(), |d: TemplateDef| d@, name@, def);
                        }
                        out.insert(name, def);
                    },
                    None => {},
                }
                i += 1;
            }
        },
    }
    out
}

/// The target that an entry of `targets` is: its name with a list of
/// template names, or with a mapping of `templates` and `overrides`.
pub open spec fn target_of(k: YamlNode, v: YamlNode) -> Option<(Seq<char>, TargetView)> {
    match text_of(k) {
        None => None,
        Some(name) => match texts_of(v) {
            Some(items) => Some((name, TargetView::Templates(items))),
            None => match pairs_of(v) {
                None => None,
                Some(d) => Some(
                    (
                        name,
                        TargetView::Detailed {
                            templates: get_texts_or_none(d, "templates"@),
                            overrides: get_rules(d, "overrides"@),
                        },
                    ),
                ),
            },
        },
    }
}

/// The targets among the first `n` entries.
pub open spec fn targets_upto(pairs: Seq<(YamlNode, YamlNode)>, n: int) -> Seq<
    (Seq<char>, TargetView),
>
    decreases n,
{
    if n <= 0 || n > pairs.len() {
        Seq::empty()
    } else {
        match target_of(pairs[n - 1].0, pairs[n - 1].1) {
            Some((name, def)) => put(targets_upto(pairs, n - 1), name, def),
            None => targets_upto(pairs, n - 1),
        }
    }
}

/// The targets of a configuration.
pub open spec fn get_targets(map: Seq<(YamlNode, YamlNode)>) -> Seq<(Seq<char>, TargetView)> {
    match get_pairs(map, "targets"@) {
        Some(p) => targets_upto(p, p.len() as int),
        None => Seq::empty(),
    }
}

fn yaml_to_target(k: &YamlNode, v: &YamlNode) -> (r: Option<(String, TargetDef)>)
    ensures
        match r {
            Some((name, def)) => target_of(*k, *v) == Some((name@, def@)),
            None => target_of(*k, *v) is None,
        },
{
    let name = match yaml_as_string(k) {
        Some(n) => n,
        None => {
            return None;
        },
    };
    match yaml_as_vec_of_strings(v) {
        Some(items) => {
            return Some((name, TargetDef::Templates(items)));
        },
        None => {},
    }
    let d = match yaml_as_mapping(v) {
        Some(d) => d,
        None => {
            return None;
        },
    };
    let templates = texts_or_none(d, "templates");
    let overrides = rules_under(d, "overrides");
    Some((name, TargetDef::Detailed(TargetDetailed { templates, overrides })))
}

fn targets_under(map: &Vec<(YamlNode, YamlNode)>) -> (r: NameMap<TargetDef>)
    ensures
        target_entries(r) == get_targets(map@),
{
    let mut out: NameMap<TargetDef> = NameMap::new();
    proof {
        out.lemma_lengths();
        assert(target_entries(out) =~= Seq::<(Seq<char>, TargetView)>::empty());
    }
    match yaml_get_mapping(map, "targets") {
        None => {},
        Some(pairs) => {
            let mut i: usize = 0;
            while i < pairs.len()
                invariant
                    i <= pairs.len(),
                    target_entries(out) == targets_upto(pairs@, i as int),
                decreases pairs.len() - i,
            {
                match yaml_to_target(&pairs[i].0, &pairs[i].1) {
                    Some((name, def)) => {
                        proof {
                            lemma_put_map(out.pairs(), |d: TargetDef| d@, name@, def);
                        }
                        out.insert(name, def);
                    },
                    None => {},
                }
                i += 1;
            }
        },
    }
    out
}

/// The file set that an item is: a mapping with a `root`.
pub open spec fn fileset_of(item: YamlNode) -> Option<FileSetView> {
    match pairs_of(item) {
        None => None,
        Some(m) => match get_text(m, "root"@) {
            None => None,
            Some(root) => Some(
                FileSetView {
                    root,
                    includes: get_texts_or_none(m, "include"@),
                    dest_prefix: get_text(m, "dest_prefix"@),
                },
            ),
        },
    }
}

/// The sets of files among the first `n` items.
pub open spec fn filesets_upto(items: Seq<YamlNode>, n: int) -> Seq<FileSetView>
    decreases n,
{
    if n <= 0 || n > items.len() {
        Seq::empty()
    } else {
        match fileset_of(items[n - 1]) {
            Some(f) => filesets_upto(items, n - 1).push(f),
            None => filesets_upto(items, n - 1),
        }
    }
}

/// The sets of files of a recipe.
pub open spec fn get_filesets(map: Seq<(YamlNode, YamlNode)>) -> Seq<FileSetView> {
    match get_items(map, "files"@) {
        Some(items) => filesets_upto(items, items.len() as int),
        None => Seq::empty(),
    }
}

fn yaml_to_fileset(item: &YamlNode) -> (r: Option<FileSetDef>)
    ensures
        match r {
            Some(f) => fileset_of(*item) == Some(f@),
            None => fileset_of(*item) is None,
        },
{
    let m = match yaml_as_mapping(item) {
        Some(m) => m,
        None => {
            return None;
        },
    };
    let root = match yaml_get_string(m, "root") {
        Some(r) => r,
        None => {
            return None;
        },
    };
    Some(
        FileSetDef {
            root,
            includes: texts_or_none(m, "include"),
            dest_prefix: yaml_get_string(m, "dest_prefix"),
        },
    )
}

fn filesets_under(map: &Vec<(YamlNode, YamlNode)>) -> (r: Vec<FileSetDef>)
    ensures
        fileset_views(r@) == get_filesets(map@),
{
    let mut out: Vec<FileSetDef> = Vec::new();
    assert(fileset_views(out@) =~= Seq::<FileSetView>::empty());
    match yaml_get_seq(map, "files") {
        None => {},
        Some(items) => {
            let mut i: usize = 0;
            while i < items.len()
                invariant
                    i <= items.len(),
                    fileset_views(out@) == filesets_upto(items@, i as int),
                decreases items.len() - i,
            {
                match yaml_to_fileset(&items[i]) {
                    Some(f) => {
                        let ghost before = fileset_views(out@);
                        let ghost fv = f@;
                        out.push(f);
                        assert(fileset_views(out@) =~= before.push(fv));
                    },
                    None => {},
                }
                i += 1;
            }
        },
    }
    out
}

/// The hooks under the key `hooks` of a mapping; none where the key holds
/// no mapping.
pub open spec fn get_hook_set(map: Seq<(YamlNode, YamlNode)>) -> Result<HookSetView, Seq<char>> {
    match get_pairs(map, "hooks"@) {
        Some(h) => hook_set_of(h),
        None => Ok(no_hooks()),
    }
}

fn hook_set_under(path: &str, map: &Vec<(YamlNode, YamlNode)>) -> (r: Result<HookSet, ConfigError>)
    ensures
        match r {
            Ok(h) => get_hook_set(map@) == Ok::<HookSetView, Seq<char>>(h@),
            Err(e) => get_hook_set(map@) is Err && e@ == (ConfigErrorView::InvalidConfig {
                path: path@,
                message: get_hook_set(map@)->Err_0,
            }),
        },
{
    match yaml_get_mapping(map, "hooks") {
        Some(h) => yaml_to_hook_set(path, h),
        None => Ok(HookSet::default()),
    }
}

/// The recipe that an entry of `recipes` is, if it is one: its name with a
/// mapping. The hooks of a recipe may have a fault.
pub open spec fn recipe_of(k: YamlNode, v: YamlNode) -> Option<
    Result<(Seq<char>, RecipeView), Seq<char>>,
> {
    match text_of(k) {
        None => None,
        Some(name) => match pairs_of(v) {
            None => None,
            Some(m) => match get_hook_set(m) {
                Err(e) => Some(Err(e)),
                Ok(hooks) => Some(
                    Ok(
                        (
                            name,
                            RecipeView {
                                templates: get_texts_or_none(m, "templates"@),
                                files: get_filesets(m),
                                overrides: get_rules(m, "overrides"@),
                                hooks,
                            },
                        ),
                    ),
                ),
            },
        },
    }
}

/// The recipes of the first `n` entries, or the first fault among them.
pub open spec fn recipes_upto(pairs: Seq<(YamlNode, YamlNode)>, n: int) -> Result<
    Seq<(Seq<char>, RecipeView)>,
    Seq<char>,
>
    decreases n,
{
    if n <= 0 || n > pairs.len() {
        Ok(Seq::empty())
    } else {
        match recipes_upto(pairs, n - 1) {
            Err(m) => Err(m),
            Ok(rs) => match recipe_of(pairs[n - 1].0, pairs[n - 1].1) {
                None => Ok(rs),
                Some(Err(m)) => Err(m),
                Some(Ok((name, recipe))) => Ok(put(rs, name, recipe)),
            },
        }
    }
}

/// The recipes of a configuration, or what is wrong with the first faulty
/// one.
pub open spec fn get_recipes(map: Seq<(YamlNode, YamlNode)>) -> Result<
    Seq<(Seq<char>, RecipeView)>,
    Seq<char>,
> {
    match get_pairs(map, "recipes"@) {
        Some(p) => recipes_upto(p, p.len() as int),
        None => Ok(Seq::empty()),
    }
}

/// Once an entry is faulty, the entries behind it change nothing.
pub proof fn lemma_recipes_err(pairs: Seq<(YamlNode, YamlNode)>, n: int, m: int)
    requires
        0 < n <= m <= pairs.len(),
        recipes_upto(pairs, n) is Err,
    ensures
        recipes_upto(pairs, m) == recipes_upto(pairs, n),
    decreases m - n,
{
    if n < m {
        lemma_recipes_err(pairs, n, m - 1);
    }
}

fn yaml_to_recipe(path: &str, k: &YamlNode, v: &YamlNode) -> (r: Option<
    Result<(String, RecipeDef), ConfigError>,
>)
    ensures
        match r {
            None => recipe_of(*k, *v) is None,
            Some(Ok((name, def))) => recipe_of(*k, *v) == Some(
                Ok::<(Seq<char>, RecipeView), Seq<char>>((name@, def@)),
            ),
            Some(Err(e)) => recipe_of(*k, *v) is Some && recipe_of(*k, *v)->0 is Err && e@
                == (ConfigErrorView::InvalidConfig {
                path: path@,
                message: recipe_of(*k, *v)->0->Err_0,
            }),
        },
{
    let name = match yaml_as_string(k) {
        Some(n) => n,
        None => {
            return None;
        },
    };
    let m = match yaml_as_mapping(v) {
        Some(m) => m,
        None => {
            return None;
        },
    };
    let templates = texts_or_none(m, "templates");
    let overrides = rules_under(m, "overrides");
    let hooks = match hook_set_under(path, m) {
        Ok(h) => h,
        Err(e) => {
            return Some(Err(e));
        },
    };
    let files = filesets_under(m);
    Some(Ok((name, RecipeDef { templates, files, overrides, hooks })))
}

fn recipes_under(path: &str, map: &Vec<(YamlNode, YamlNode)>) -> (r: Result<
    NameMap<RecipeDef>,
    ConfigError,
>)
    ensures
        match r {
            Ok(m) => get_recipes(map@) == Ok::<Seq<(Seq<char>, RecipeView)>, Seq<char>>(
                recipe_entries(m),
            ),
            Err(e) => get_recipes(map@) is Err && e@ == (ConfigErrorView::InvalidConfig {
                path: path@,
                message: get_recipes(map@)->Err_0,
            }),
        },
{
    let mut out: NameMap<RecipeDef> = NameMap::new();
    proof {
        out.lemma_lengths();
        assert(recipe_entries(out) =~= Seq::<(Seq<char>, RecipeView)>::empty());
    }
    match yaml_get_mapping(map, "recipes") {
        None => {},
        Some(pairs) => {
            let mut i: usize = 0;
            while i < pairs.len()
                invariant
                    i <= pairs.len(),
                    get_pairs(map@, "recipes"@) == Some(pairs@),
                    recipes_upto(pairs@, i as int) == Ok::<
                        Seq<(Seq<char>, RecipeView)>,
                        Seq<char>,
                    >(recipe_entries(out)),
                decreases pairs.len() - i,
            {
                match yaml_to_recipe(path, &pairs[i].0, &pairs[i].1) {
                    None => {},
                    Some(Err(e)) => {
                        proof {
                            lemma_recipes_err(pairs@, i + 1, pairs@.len() as int);
                        }
                        return Err(e);
                    },
                    Some(Ok((name, def))) => {
                        proof {
                            lemma_put_map(out.pairs(), |d: RecipeDef| d@, name@, def);
                        }
                        out.insert(name, def);
                    },
                }
                i += 1;
            }
        },
    }
    Ok(out)
}

/// The configuration that a mapping is, or the fault of its hooks: those
/// of the configuration first, then those of the recipes in the order of
/// the document.
pub open spec fn config_of_map(map: Seq<(YamlNode, YamlNode)>) -> Result<ConfigView, Seq<char>> {
    match get_hook_set(map) {
        Err(m) => Err(m),
        Ok(hooks) => match get_recipes(map) {
            Err(m) => Err(m),
            Ok(recipes) => Ok(
                ConfigView {
                    base_template: get_text(map, "base_template"@),
                    license: match get(map, "license"@) {
                        Some(y) => license_of(y),
                        None => None,
                    },
                    hooks,
                    sources: get_sources(map),
                    templates: get_templates(map),
                    targets: get_targets(map),
                    overrides: get_rules(map, "overrides"@),
                    recipes,
                },
            ),
        },
    }
}

/// The configuration that a document is. Its root must be a mapping.
pub open spec fn config_of(path: Seq<char>, root: YamlNode) -> Result<ConfigView, ConfigErrorView> {
    match pairs_of(root) {
        None => Err(ConfigErrorView::YamlRootNotMapping { path }),
        Some(map) => match config_of_map(map) {
            Ok(c) => Ok(c),
            Err(message) => Err(ConfigErrorView::InvalidConfig { path, message }),
        },
    }
}

/// Reads a configuration from the root of a YAML document. `path` is the
/// file's, for the errors.
pub fn yaml_to_config(path: &str, root: &YamlNode) -> (r: Result<Config, ConfigError>)
    ensures
        match r {
            Ok(cfg) => config_of(path@, *root) == Ok::<ConfigView, ConfigErrorView>(cfg@),
            Err(e) => config_of(path@, *root) == Err::<ConfigView, ConfigErrorView>(e@),
        },
{
    let map = match yaml_as_mapping(root) {
        Some(m) => m,
        None => {
            return Err(ConfigError::YamlRootNotMapping { path: path.to_owned() });
        },
    };
    let base_template = yaml_get_string(map, "base_template");
    let license = match yaml_get(map, "license") {
        Some(y) => yaml_to_license(y),
        None => None,
    };
    let sources = sources_under(map);
    let templates = templates_under(map);
    let targets = targets_under(map);
    let overrides = rules_under(map, "overrides");
    let hooks = match hook_set_under(path, map) {
        Ok(h) => h,
        Err(e) => {
            return Err(e);
        },
    };
    let recipes = match recipes_under(path, map) {
        Ok(r) => r,
        Err(e) => {
            return Err(e);
        },
    };
    Ok(Config { base_template, license, hooks, sources, templates, targets, overrides, recipes })
}

/// The configuration that a YAML text is: that of its first document.
pub open spec fn parsed_yaml(path: Seq<char>, content: Seq<char>) -> Result<
    ConfigView,
    ConfigErrorView,
> {
    match yaml_documents(content) {
        Err(message) => Err(ConfigErrorView::ParseYaml { path, message: message@ }),
        Ok(docs) => if docs@.len() == 0 {
            Err(ConfigErrorView::ParseYaml { path, message: "empty YAML document"@ })
        } else {
            config_of(path, docs@[0])
        },
    }
}

/// Parses a configuration in YAML: the first document of the text.
pub fn parse_yaml(path: &str, content: &str) -> (r: Result<Config, ConfigError>)
    ensures
        match r {
            Ok(cfg) => parsed_yaml(path@, content@) == Ok::<ConfigView, ConfigErrorView>(cfg@),
            Err(e) => parsed_yaml(path@, content@) == Err::<ConfigView, ConfigErrorView>(e@),
        },
{
    let docs = match load_documents(content) {
        Ok(d) => d,
        Err(message) => {
            return Err(ConfigError::ParseYaml { path: path.to_owned(), message });
        },
    };
    if docs.len() == 0 {
        return Err(
            ConfigError::ParseYaml {
                path: path.to_owned(),
                message: "empty YAML document".to_owned(),
            },
        );
    }
    yaml_to_config(path, &docs[0])
}

/// How the file of a configuration is read.
#[derive(Clone, Copy, Debug, PartialEq, Eq, Structural)]
pub enum ConfigFormat {
    Toml,
    Yaml,
    /// As TOML, and as YAML where it is no TOML.
    Either,
}

/// The format by the extension of the path, without regard to case.
pub open spec fn format_of(path: Seq<char>) -> ConfigFormat {
    let ext = text::to_ascii_lowercase(
        match relpath::extension(path) {
            Some(e) => e,
            None => Seq::empty(),
        },
    );
    if ext == "toml"@ {
        ConfigFormat::Toml
    } else if ext == "yaml"@ || ext == "yml"@ {
        ConfigFormat::Yaml
    } else {
        ConfigFormat::Either
    }
}

/// The format of a configuration file, by its extension.
pub fn config_format(path: &str) -> (f: ConfigFormat)
    ensures
        f == format_of(path@),
{
    let ext = match relpath::path_extension(&chars::from_str(path)) {
        Some(e) => e,
        None => Vec::new(),
    };
    let lower = chars::to_ascii_lowercase(&ext);
    if chars::eq_str(&lower, "toml") {
        ConfigFormat::Toml
    } else if chars::eq_str(&lower, "yaml") || chars::eq_str(&lower, "yml") {
        ConfigFormat::Yaml
    } else {
        ConfigFormat::Either
    }
}

/// What the TOML reader has made of a file, as a mathematical value.
pub open spec fn toml_view(toml: Result<Config, String>) -> Result<ConfigView, Seq<char>> {
    match toml {
        Ok(c) => Ok(c@),
        Err(m) => Err(m@),
    }
}

/// The configuration that is loaded from a file: what its format makes of
/// its content, held to the rules for hooks. `toml` is what the TOML
/// reader has made of the content.
pub open spec fn loaded(
    path: Seq<char>,
    content: Seq<char>,
    toml: Result<ConfigView, Seq<char>>,
) -> Result<ConfigView, ConfigErrorView> {
    let parsed = match format_of(path) {
        ConfigFormat::Toml => match toml {
            Ok(c) => Ok(c),
            Err(m) => Err(ConfigErrorView::ParseToml { path, source: m }),
        },
        ConfigFormat::Yaml => parsed_yaml(path, content),
        ConfigFormat::Either => match toml {
            Ok(c) => Ok(c),
            Err(_) => parsed_yaml(path, content),
        },
    };
    match parsed {
        Err(e) => Err(e),
        Ok(c) => match config_fault(c) {
            Some(message) => Err(ConfigErrorView::InvalidConfig { path, message }),
            None => Ok(c),
        },
    }
}

/// Loads the configuration from the content of its file.
///
/// The caller reads the file and hands in, beside its content, what the
/// TOML reader has made of it: the configuration, or the message of its
/// error.
pub fn load_config(path: &str, content: &str, toml: Result<Config, String>) -> (r: Result<
    (String, Config),
    ConfigError,
>)
    ensures
        match r {
            Ok((p, cfg)) => p@ == path@ && loaded(path@, content@, toml_view(toml)) == Ok::<
                ConfigView,
                ConfigErrorView,
            >(cfg@),
            Err(e) => loaded(path@, content@, toml_view(toml)) == Err::<
                ConfigView,
                ConfigErrorView,
            >(e@),
        },
{
    let parsed = match config_format(path) {
        ConfigFormat::Toml => match toml {
            Ok(c) => Ok(c),
            Err(m) => Err(ConfigError::ParseToml { path: path.to_owned(), source: m }),
        },
        ConfigFormat::Yaml => parse_yaml(path, content),
        ConfigFormat::Either => match toml {
            Ok(c) => Ok(c),
            Err(_) => parse_yaml(path, content),
        },
    };
    let cfg = match parsed {
        Ok(c) => c,
        Err(e) => {
            return Err(e);
        },
    };
    match validate_config(path, &cfg) {
        Ok(_) => Ok((path.to_owned(), cfg)),
        Err(e) => Err(e),
    }
}

} // verus!
