//! Merges of `KEY=value` files (`.env`, `.env.*`) and of `.envrc`.

use crate::chars;
use crate::merge::lines::{
    append_lines, end_with_newline, join_lines, with_final_newline,
};
use crate::text;
use vstd::prelude::*;
use vstd::slice::slice_to_vec;
use vstd::utf8::{decode_utf8, decode_utf8_encode_utf8, encode_utf8, valid_utf8};

verus! {

/// A name that a shell accepts for a variable: a letter or `_`, then letters,
/// digits and `_`.
pub open spec fn valid_env_name(s: Seq<char>) -> bool {
    &&& s.len() > 0
    &&& (s[0] == '_' || text::is_ascii_alphabetic(s[0]))
    &&& forall|i: int| 1 <= i < s.len() ==> s[i] == '_' || text::is_ascii_alphanumeric(#[trigger] s[i])
}

/// A line that says nothing: white space only, or a comment.
pub open spec fn env_inert(line: Seq<char>) -> bool {
    let t = text::trim(line);
    t.len() == 0 || t[0] == '#'
}

/// The text of a trimmed line after an `export ` in front of it.
pub open spec fn after_export(t: Seq<char>) -> Seq<char> {
    if text::starts_with(t, "export "@) {
        text::trim_start(t.skip("export "@.len() as int))
    } else {
        t
    }
}

/// The key that a line of a `KEY=value` file assigns, if it assigns one.
pub open spec fn key_of_line(line: Seq<char>) -> Option<Seq<char>> {
    if env_inert(line) {
        None
    } else {
        match text::split_once(after_export(text::trim(line)), '=') {
            None => None,
            Some((k, _)) => {
                if valid_env_name(text::trim(k)) {
                    Some(text::trim(k))
                } else {
                    None
                }
            },
        }
    }
}

/// A line that is neither inert nor an assignment to a valid key.
pub open spec fn env_malformed(line: Seq<char>) -> bool {
    !env_inert(line) && key_of_line(line) is None
}

/// No line is malformed.
pub open spec fn env_well_formed(ls: Seq<Seq<char>>) -> bool {
    forall|i: int| 0 <= i < ls.len() ==> !env_malformed(#[trigger] ls[i])
}

/// The keys that the lines assign, in their order.
pub open spec fn env_keys(ls: Seq<Seq<char>>) -> Seq<Seq<char>>
    decreases ls.len(),
{
    if ls.len() == 0 {
        Seq::empty()
    } else {
        match key_of_line(ls.last()) {
            Some(k) => env_keys(ls.drop_last()).push(k),
            None => env_keys(ls.drop_last()),
        }
    }
}

/// The lines that assign a key which `have` does not hold, in their order.
pub open spec fn env_missing(have: Seq<Seq<char>>, ls: Seq<Seq<char>>) -> Seq<Seq<char>>
    decreases ls.len(),
{
    if ls.len() == 0 {
        Seq::empty()
    } else {
        let rest = env_missing(have, ls.drop_last());
        match key_of_line(ls.last()) {
            Some(k) => if have.contains(k) {
                rest
            } else {
                rest.push(ls.last())
            },
            None => rest,
        }
    }
}

/// The merge of two `KEY=value` texts. There is none where a line of the
/// destination is malformed. Otherwise the template lines whose key the
/// destination does not assign are added at its end.
pub open spec fn merged_env_text(dest: Seq<char>, src: Seq<char>) -> Option<Seq<char>> {
    if !env_well_formed(text::lines(dest)) {
        None
    } else {
        let add = env_missing(env_keys(text::lines(dest)), text::lines(src));
        if add.len() == 0 {
            Some(dest)
        } else {
            Some(with_final_newline(dest) + join_lines(add))
        }
    }
}

/// The merged text begins with the destination text: no line of it is
/// removed, rewritten or moved.
pub proof fn lemma_merged_env_keeps_destination(dest: Seq<char>, src: Seq<char>)
    ensures
        merged_env_text(dest, src) matches Some(t) ==> dest.is_prefix_of(t),
{
    match merged_env_text(dest, src) {
        Some(t) => {
            assert(t.subrange(0, dest.len() as int) =~= dest);
        },
        None => {},
    }
}

/// The merge of two `.env` files, where both are UTF-8 and the destination is
/// well formed.
pub open spec fn merged_env(dest: Seq<u8>, src: Seq<u8>) -> Option<Seq<u8>> {
    if valid_utf8(dest) && valid_utf8(src) {
        match merged_env_text(decode_utf8(dest), decode_utf8(src)) {
            Some(t) => Some(encode_utf8(t)),
            None => None,
        }
    } else {
        None
    }
}

/// Whether a line begins with the word `export`: the letters, and white
/// space behind them.
pub open spec fn exports(s: Seq<char>) -> bool {
    text::starts_with(s, "export"@) && s.len() > "export"@.len() && text::is_whitespace(
        s["export"@.len() as int],
    )
}

/// The variable that a line of an `.envrc` sets, if it sets one: the name
/// before the `=`, behind the word `export` where the line begins with it.
pub open spec fn var_of_line(line: Seq<char>) -> Option<Seq<char>> {
    let s = text::trim_start(line);
    if s.len() == 0 || s[0] == '#' {
        None
    } else {
        let t = if exports(s) {
            text::trim_start(s.skip("export"@.len() as int))
        } else {
            s
        };
        match text::split_once(t, '=') {
            None => None,
            Some((v, _)) => {
                if valid_env_name(text::trim(v)) {
                    Some(text::trim(v))
                } else {
                    None
                }
            },
        }
    }
}

/// The variables that the lines set, in their order.
pub open spec fn envrc_vars(ls: Seq<Seq<char>>) -> Seq<Seq<char>>
    decreases ls.len(),
{
    if ls.len() == 0 {
        Seq::empty()
    } else {
        match var_of_line(ls.last()) {
            Some(k) => envrc_vars(ls.drop_last()).push(k),
            None => envrc_vars(ls.drop_last()),
        }
    }
}

/// Whether the destination already has the line, by its text or by the
/// variable it sets.
pub open spec fn envrc_present(have: Seq<Seq<char>>, vars: Seq<Seq<char>>, line: Seq<char>) -> bool {
    have.contains(line) || (var_of_line(line) matches Some(v) && vars.contains(v))
}

/// The lines that the destination does not have, in their order.
pub open spec fn envrc_missing(have: Seq<Seq<char>>, vars: Seq<Seq<char>>, ls: Seq<Seq<char>>) -> Seq<
    Seq<char>,
>
    decreases ls.len(),
{
    if ls.len() == 0 {
        Seq::empty()
    } else {
        let rest = envrc_missing(have, vars, ls.drop_last());
        if envrc_present(have, vars, ls.last()) {
            rest
        } else {
            rest.push(ls.last())
        }
    }
}

/// The merge of two `.envrc` texts: the missing template lines follow the
/// destination after one empty line.
pub open spec fn merged_envrc_text(dest: Seq<char>, src: Seq<char>) -> Seq<char> {
    let have = text::lines(dest);
    let add = envrc_missing(have, envrc_vars(have), text::lines(src));
    if add.len() == 0 {
        dest
    } else {
        with_final_newline(dest).push('\n') + join_lines(add)
    }
}

/// The merged `.envrc` begins with the destination text: no line of it is
/// removed, rewritten or moved.
pub proof fn lemma_merged_envrc_keeps_destination(dest: Seq<char>, src: Seq<char>)
    ensures
        dest.is_prefix_of(merged_envrc_text(dest, src)),
{
    assert(merged_envrc_text(dest, src).subrange(0, dest.len() as int) =~= dest);
}

/// The merge of two `.envrc` files, where both are UTF-8.
pub open spec fn merged_envrc(dest: Seq<u8>, src: Seq<u8>) -> Option<Seq<u8>> {
    if valid_utf8(dest) && valid_utf8(src) {
        Some(encode_utf8(merged_envrc_text(decode_utf8(dest), decode_utf8(src))))
    } else {
        None
    }
}

/// Whether a text can name a variable: a letter or `_`, then letters, digits
/// and `_`.
pub fn is_env_ident(s: &Vec<char>) -> (b: bool)
    ensures
        b == valid_env_name(s@),
{
    if s.len() == 0 {
        return false;
    }
    if !(s[0] == '_' || text::char_is_ascii_alphabetic(s[0])) {
        return false;
    }
    let mut i: usize = 1;
    while i < s.len()
        invariant
            1 <= i <= s.len(),
            forall|j: int| 1 <= j < i ==> s@[j] == '_' || text::is_ascii_alphanumeric(#[trigger] s@[j]),
        decreases s.len() - i,
    {
        if !(s[i] == '_' || text::char_is_ascii_alphanumeric(s[i])) {
            return false;
        }
        i += 1;
    }
    true
}

/// The key of an assignment `key = ...`, where the text before the first `=`
/// is a valid name.
fn assigned_name(s: &Vec<char>) -> (r: Option<Vec<char>>)
    ensures
        match r {
            Some(k) => text::split_once(s@, '=') matches Some((a, _)) && k@ == text::trim(a)
                && valid_env_name(k@),
            None => text::split_once(s@, '=') matches Some((a, _)) ==> !valid_env_name(text::trim(a)),
        },
{
    match chars::split_once(s, '=') {
        None => None,
        Some((a, _)) => {
            let k = chars::trim(&a);
            if is_env_ident(&k) {
                Some(k)
            } else {
                None
            }
        },
    }
}

/// The name that a line of a `.env` file sets, if it sets one.
pub fn env_key(line: &Vec<char>) -> (r: Option<Vec<char>>)
    ensures
        match r {
            Some(k) => key_of_line(line@) == Some(k@),
            None => key_of_line(line@) is None,
        },
{
    let t = chars::trim(line);
    if t.len() == 0 || t[0] == '#' {
        return None;
    }
    let export = chars::from_str("export ");
    let s = if chars::starts_with(&t, &export) {
        let rest = chars::slice(&t, export.len(), t.len());
        assert(rest@ =~= t@.skip("export "@.len() as int));
        chars::trim_start(&rest)
    } else {
        t
    };
    assigned_name(&s)
}

/// Whether a line is empty or a comment.
pub fn is_inert(line: &Vec<char>) -> (b: bool)
    ensures
        b == env_inert(line@),
{
    let t = chars::trim(line);
    t.len() == 0 || t[0] == '#'
}

/// The variable that a line of an `.envrc` sets, if it sets one.
pub fn envrc_var(line: &Vec<char>) -> (r: Option<Vec<char>>)
    ensures
        match r {
            Some(k) => var_of_line(line@) == Some(k@),
            None => var_of_line(line@) is None,
        },
{
    let s = chars::trim_start(line);
    if s.len() == 0 || s[0] == '#' {
        return None;
    }
    let export = chars::from_str("export");
    let t = if chars::starts_with(&s, &export) && s.len() > export.len()
        && text::char_is_whitespace(s[export.len()]) {
        let rest = chars::slice(&s, export.len(), s.len());
        assert(rest@ =~= s@.skip("export"@.len() as int));
        chars::trim_start(&rest)
    } else {
        s
    };
    assigned_name(&t)
}

/// The keys of the lines, or nothing where a line is malformed.
fn collect_env_keys(ls: &Vec<Vec<char>>) -> (r: Option<Vec<Vec<char>>>)
    ensures
        match r {
            Some(keys) => env_well_formed(text::views(ls@)) && text::views(keys@) == env_keys(
                text::views(ls@),
            ),
            None => !env_well_formed(text::views(ls@)),
        },
{
    let ghost all = text::views(ls@);
    let mut keys: Vec<Vec<char>> = Vec::new();
    let mut i: usize = 0;
    while i < ls.len()
        invariant
            i <= ls.len(),
            all == text::views(ls@),
            text::views(keys@) == env_keys(all.take(i as int)),
            forall|j: int| 0 <= j < i ==> !env_malformed(#[trigger] all[j]),
        decreases ls.len() - i,
    {
        assert(all.take(i + 1).drop_last() =~= all.take(i as int));
        assert(all.take(i + 1).last() == all[i as int]);
        assert(all[i as int] == ls@[i as int]@);
        match env_key(&ls[i]) {
            Some(k) => {
                let ghost before = text::views(keys@);
                keys.push(k);
                assert(text::views(keys@) =~= before.push(k@));
            },
            None => {
                if !is_inert(&ls[i]) {
                    assert(env_malformed(all[i as int]));
                    return None;
                }
            },
        }
        i += 1;
    }
    assert(all.take(ls.len() as int) =~= all);
    Some(keys)
}

fn missing_env_lines(have: &Vec<Vec<char>>, ls: &Vec<Vec<char>>) -> (r: Vec<Vec<char>>)
    ensures
        text::views(r@) == env_missing(text::views(have@), text::views(ls@)),
{
    let ghost all = text::views(ls@);
    let mut r: Vec<Vec<char>> = Vec::new();
    let mut i: usize = 0;
    while i < ls.len()
        invariant
            i <= ls.len(),
            all == text::views(ls@),
            text::views(r@) == env_missing(text::views(have@), all.take(i as int)),
        decreases ls.len() - i,
    {
        assert(all.take(i + 1).drop_last() =~= all.take(i as int));
        assert(all.take(i + 1).last() == all[i as int]);
        assert(all[i as int] == ls@[i as int]@);
        match env_key(&ls[i]) {
            Some(k) => {
                if !chars::list_contains(have, &k) {
                    let ghost before = text::views(r@);
                    r.push(chars::clone(&ls[i]));
                    assert(text::views(r@) =~= before.push(all[i as int]));
                }
            },
            None => {},
        }
        i += 1;
    }
    assert(all.take(ls.len() as int) =~= all);
    r
}

/// Merges two `KEY=value` files.
///
/// Gives nothing where one of the files is not UTF-8, or where a line of the
/// destination is neither blank, nor a comment, nor an assignment to a valid
/// key. Otherwise the template lines that assign a key which the destination
/// does not assign are added at the end of the destination, and a key of the
/// destination keeps its value.
pub fn merge_env(dest_bytes: &[u8], src_bytes: &[u8]) -> (r: Option<Vec<u8>>)
    ensures
        match r {
            Some(out) => merged_env(dest_bytes@, src_bytes@) == Some(out@),
            None => merged_env(dest_bytes@, src_bytes@) is None,
        },
{
    let dest = match chars::decode(dest_bytes) {
        Some(d) => d,
        None => { return None; },
    };
    let src = match chars::decode(src_bytes) {
        Some(s) => s,
        None => { return None; },
    };
    let dest_lines = chars::lines(&dest);
    let have = match collect_env_keys(&dest_lines) {
        Some(keys) => keys,
        None => { return None; },
    };
    let src_lines = chars::lines(&src);
    let add = missing_env_lines(&have, &src_lines);
    if add.len() == 0 {
        proof {
            decode_utf8_encode_utf8(dest_bytes@);
        }
        return Some(slice_to_vec(dest_bytes));
    }
    let mut out = dest;
    end_with_newline(&mut out);
    append_lines(&mut out, &add);
    Some(chars::encode(&out))
}

fn collect_envrc_vars(ls: &Vec<Vec<char>>) -> (r: Vec<Vec<char>>)
    ensures
        text::views(r@) == envrc_vars(text::views(ls@)),
{
    let ghost all = text::views(ls@);
    let mut vars: Vec<Vec<char>> = Vec::new();
    let mut i: usize = 0;
    while i < ls.len()
        invariant
            i <= ls.len(),
            all == text::views(ls@),
            text::views(vars@) == envrc_vars(all.take(i as int)),
        decreases ls.len() - i,
    {
        assert(all.take(i + 1).drop_last() =~= all.take(i as int));
        assert(all.take(i + 1).last() == all[i as int]);
        assert(all[i as int] == ls@[i as int]@);
        match envrc_var(&ls[i]) {
            Some(k) => {
                let ghost before = text::views(vars@);
                vars.push(k);
                assert(text::views(vars@) =~= before.push(k@));
            },
            None => {},
        }
        i += 1;
    }
    assert(all.take(ls.len() as int) =~= all);
    vars
}

fn envrc_line_present(have: &Vec<Vec<char>>, vars: &Vec<Vec<char>>, line: &Vec<char>) -> (b: bool)
    ensures
        b == envrc_present(text::views(have@), text::views(vars@), line@),
{
    if chars::list_contains(have, line) {
        return true;
    }
    match envrc_var(line) {
        Some(v) => chars::list_contains(vars, &v),
        None => false,
    }
}

fn missing_envrc_lines(have: &Vec<Vec<char>>, vars: &Vec<Vec<char>>, ls: &Vec<Vec<char>>) -> (r:
    Vec<Vec<char>>)
    ensures
        text::views(r@) == envrc_missing(
            text::views(have@),
            text::views(vars@),
            text::views(ls@),
        ),
{
    let ghost all = text::views(ls@);
    let mut r: Vec<Vec<char>> = Vec::new();
    let mut i: usize = 0;
    while i < ls.len()
        invariant
            i <= ls.len(),
            all == text::views(ls@),
            text::views(r@) == envrc_missing(
                text::views(have@),
                text::views(vars@),
                all.take(i as int),
            ),
        decreases ls.len() - i,
    {
        assert(all.take(i + 1).drop_last() =~= all.take(i as int));
        assert(all.take(i + 1).last() == all[i as int]);
        assert(all[i as int] == ls@[i as int]@);
        if !envrc_line_present(have, vars, &ls[i]) {
            let ghost before = text::views(r@);
            r.push(chars::clone(&ls[i]));
            assert(text::views(r@) =~= before.push(all[i as int]));
        }
        i += 1;
    }
    assert(all.take(ls.len() as int) =~= all);
    r
}

/// Merges two `.envrc` files.
///
/// Gives nothing where one of the files is not UTF-8. Otherwise the template
/// lines that the destination has neither by their text nor by the variable
/// they set follow the destination, after one empty line.
pub fn merge_envrc(dest_bytes: &[u8], src_bytes: &[u8]) -> (r: Option<Vec<u8>>)
    ensures
        match r {
            Some(out) => merged_envrc(dest_bytes@, src_bytes@) == Some(out@),
            None => merged_envrc(dest_bytes@, src_bytes@) is None,
        },
{
    let dest = match chars::decode(dest_bytes) {
        Some(d) => d,
        None => { return None; },
    };
    let src = match chars::decode(src_bytes) {
        Some(s) => s,
        None => { return None; },
    };
    let have = chars::lines(&dest);
    let vars = collect_envrc_vars(&have);
    let src_lines = chars::lines(&src);
    let add = missing_envrc_lines(&have, &vars, &src_lines);
    if add.len() == 0 {
        proof {
            decode_utf8_encode_utf8(dest_bytes@);
        }
        return Some(slice_to_vec(dest_bytes));
    }
    let mut out = dest;
    end_with_newline(&mut out);
    out.push('\n');
    append_lines(&mut out, &add);
    Some(chars::encode(&out))
}

} // verus!
