//! Executable text functions on `Vec<char>`, each proved against the spec
//! function of the same name in `text`.

use crate::text;
use vstd::prelude::*;
use vstd::slice::slice_to_vec;
use vstd::string::StringSliceAdditionalSpecFns;
use vstd::utf8::{decode_utf8, encode_utf8, valid_utf8};

verus! {

/// The characters of a string slice.
pub fn from_str(s: &str) -> (v: Vec<char>)
    ensures
        v@ == s@,
{
    broadcast use vstd::string::group_string_axioms;

    let mut v: Vec<char> = Vec::new();
    for c in it: s.chars()
        invariant
            it.seq() == s@,
            v@ == it.seq().take(it.index() as int),
    {
        assert(it.seq().take(it.index() + 1) =~= it.seq().take(it.index() as int).push(c));
        v.push(c);
    }
    assert(v@ =~= s@);
    v
}

/// `String::push`: the character is added at the end.
#[verifier::external_body]
fn push_char(s: &mut String, c: char)
    ensures
        final(s)@ == old(s)@.push(c),
{
    s.push(c)
}

/// The string that holds the characters of `v`.
pub fn to_string(v: &Vec<char>) -> (s: String)
    ensures
        s@ == v@,
{
    let mut s = String::new();
    let mut i: usize = 0;
    while i < v.len()
        invariant
            i <= v.len(),
            s@ == v@.take(i as int),
        decreases v.len() - i,
    {
        assert(v@.take(i + 1) =~= v@.take(i as int).push(v@[i as int]));
        push_char(&mut s, v[i]);
        i += 1;
    }
    assert(v@.take(v.len() as int) =~= v@);
    s
}

/// The characters of `v` from index `a` up to `b`.
pub fn slice(v: &Vec<char>, a: usize, b: usize) -> (r: Vec<char>)
    requires
        a <= b <= v.len(),
    ensures
        r@ == v@.subrange(a as int, b as int),
{
    let mut r: Vec<char> = Vec::new();
    let mut i: usize = a;
    while i < b
        invariant
            a <= i <= b <= v.len(),
            r@ == v@.subrange(a as int, i as int),
        decreases b - i,
    {
        assert(v@.subrange(a as int, i + 1) =~= v@.subrange(a as int, i as int).push(v@[i as int]));
        r.push(v[i]);
        i += 1;
    }
    r
}

/// Adds the characters of `part` at the end of `out`.
pub fn append(out: &mut Vec<char>, part: &Vec<char>)
    ensures
        final(out)@ == old(out)@ + part@,
{
    let mut i: usize = 0;
    while i < part.len()
        invariant
            i <= part.len(),
            out@ == old(out)@ + part@.take(i as int),
        decreases part.len() - i,
    {
        assert(part@.take(i + 1) =~= part@.take(i as int).push(part@[i as int]));
        assert((old(out)@ + part@.take(i as int)).push(part@[i as int]) =~= old(out)@
            + part@.take(i + 1));
        out.push(part[i]);
        i += 1;
    }
    assert(part@.take(part.len() as int) =~= part@);
}

/// Whether two texts hold the same characters.
pub fn eq(a: &Vec<char>, b: &Vec<char>) -> (r: bool)
    ensures
        r == (a@ == b@),
{
    if a.len() != b.len() {
        return false;
    }
    let mut i: usize = 0;
    while i < a.len()
        invariant
            i <= a.len(),
            a.len() == b.len(),
            a@.take(i as int) == b@.take(i as int),
        decreases a.len() - i,
    {
        if a[i] != b[i] {
            return false;
        }
        assert(a@.take(i + 1) =~= a@.take(i as int).push(a@[i as int]));
        assert(b@.take(i + 1) =~= b@.take(i as int).push(b@[i as int]));
        i += 1;
    }
    assert(a@.take(a.len() as int) =~= a@);
    assert(b@.take(b.len() as int) =~= b@);
    true
}

/// The first index at or after `from` whose character is no white space, or
/// the length of `v`.
pub fn skip_whitespace(v: &Vec<char>, from: usize) -> (i: usize)
    requires
        from <= v.len(),
    ensures
        i == text::skip_whitespace(v@, from as int),
        from <= i <= v.len(),
{
    let mut i: usize = from;
    while i < v.len() && text::char_is_whitespace(v[i])
        invariant
            from <= i <= v.len(),
            text::skip_whitespace(v@, from as int) == text::skip_whitespace(v@, i as int),
        decreases v.len() - i,
    {
        i += 1;
    }
    i
}

/// The least `end <= to` such that `v[end..to]` is white space only.
pub fn skip_whitespace_back(v: &Vec<char>, to: usize) -> (i: usize)
    requires
        to <= v.len(),
    ensures
        i == text::skip_whitespace_back(v@, to as int),
        i <= to,
{
    let mut i: usize = to;
    while i > 0 && text::char_is_whitespace(v[i - 1])
        invariant
            i <= to <= v.len(),
            text::skip_whitespace_back(v@, to as int) == text::skip_whitespace_back(v@, i as int),
        decreases i,
    {
        i -= 1;
    }
    i
}

/// The first index at or after `from` whose character is white space, or the
/// length of `v`.
pub fn skip_word(v: &Vec<char>, from: usize) -> (i: usize)
    requires
        from <= v.len(),
    ensures
        i == text::skip_word(v@, from as int),
        from <= i <= v.len(),
{
    let mut i: usize = from;
    while i < v.len() && !text::char_is_whitespace(v[i])
        invariant
            from <= i <= v.len(),
            text::skip_word(v@, from as int) == text::skip_word(v@, i as int),
        decreases v.len() - i,
    {
        i += 1;
    }
    i
}

/// The text without the white space at its start.
pub fn trim_start(v: &Vec<char>) -> (r: Vec<char>)
    ensures
        r@ == text::trim_start(v@),
{
    let a = skip_whitespace(v, 0);
    slice(v, a, v.len())
}

/// The text without the white space at its end.
pub fn trim_end(v: &Vec<char>) -> (r: Vec<char>)
    ensures
        r@ == text::trim_end(v@),
{
    let b = skip_whitespace_back(v, v.len());
    slice(v, 0, b)
}

/// The text without the white space at its ends.
pub fn trim(v: &Vec<char>) -> (r: Vec<char>)
    ensures
        r@ == text::trim(v@),
{
    let t = trim_start(v);
    trim_end(&t)
}

/// The first index at or after `from` that holds `c`, or the length of `v`.
pub fn find_char(v: &Vec<char>, c: char, from: usize) -> (i: usize)
    requires
        from <= v.len(),
    ensures
        i == text::find_char(v@, c, from as int),
        from <= i <= v.len(),
        i < v.len() ==> v@[i as int] == c,
{
    let mut i: usize = from;
    while i < v.len() && v[i] != c
        invariant
            from <= i <= v.len(),
            text::find_char(v@, c, from as int) == text::find_char(v@, c, i as int),
        decreases v.len() - i,
    {
        i += 1;
    }
    i
}

/// The line without a carriage return at its end.
pub fn strip_cr(mut line: Vec<char>) -> (r: Vec<char>)
    ensures
        r@ == text::strip_cr(line@),
{
    let n = line.len();
    if n > 0 && line[n - 1] == '\r' {
        line.pop();
    }
    line
}

/// The lines of a text, without their line ends.
pub fn lines(v: &Vec<char>) -> (r: Vec<Vec<char>>)
    ensures
        text::views(r@) == text::lines(v@),
{
    let mut r: Vec<Vec<char>> = Vec::new();
    let mut pos: usize = 0;
    assert(v@.skip(0) =~= v@);
    while pos < v.len()
        invariant
            pos <= v.len(),
            text::lines(v@) == text::views(r@) + text::lines(v@.skip(pos as int)),
        decreases v.len() - pos,
    {
        let ghost rest = v@.skip(pos as int);
        let n = find_char(v, '\n', pos);
        proof {
            lemma_find_char_skip(v@, '\n', pos as int, pos as int);
        }
        let ghost before = text::views(r@);
        if n >= v.len() {
            let line = slice(v, pos, v.len());
            assert(line@ =~= rest);
            r.push(line);
            assert(text::views(r@) =~= before.push(rest));
            pos = v.len();
            assert(v@.skip(pos as int) =~= Seq::<char>::empty());
            assert(text::lines(rest) =~= seq![rest]);
            assert(before + seq![rest] =~= before.push(rest) + text::lines(v@.skip(pos as int)));
        } else {
            let raw = slice(v, pos, n);
            assert(raw@ =~= rest.take(n - pos));
            let line = strip_cr(raw);
            r.push(line);
            assert(text::views(r@) =~= before.push(line@));
            assert(rest.skip(n - pos + 1) =~= v@.skip(n + 1));
            pos = n + 1;
            assert(before + (seq![line@] + text::lines(v@.skip(pos as int))) =~= before.push(line@)
                + text::lines(v@.skip(pos as int)));
        }
    }
    assert(v@.skip(pos as int) =~= Seq::<char>::empty());
    assert(text::views(r@) + Seq::<Seq<char>>::empty() =~= text::views(r@));
    r
}

/// Searching in a suffix finds the same place as searching from its start
/// in the whole.
pub proof fn lemma_find_char_skip(s: Seq<char>, c: char, base: int, from: int)
    requires
        0 <= base <= from <= s.len(),
    ensures
        text::find_char(s.skip(base), c, from - base) == text::find_char(s, c, from) - base,
    decreases s.len() - from,
{
    if from < s.len() && s[from] != c {
        lemma_find_char_skip(s, c, base, from + 1);
    }
}

/// Whether `v` begins with `prefix`.
pub fn starts_with(v: &Vec<char>, prefix: &Vec<char>) -> (r: bool)
    ensures
        r == text::starts_with(v@, prefix@),
{
    if prefix.len() > v.len() {
        return false;
    }
    let head = slice(v, 0, prefix.len());
    eq(&head, prefix)
}

/// Whether `v` ends with `suffix`.
pub fn ends_with(v: &Vec<char>, suffix: &Vec<char>) -> (r: bool)
    ensures
        r == text::ends_with(v@, suffix@),
{
    if suffix.len() > v.len() {
        return false;
    }
    let tail = slice(v, v.len() - suffix.len(), v.len());
    eq(&tail, suffix)
}

/// Whether `pat` stands in `v` at index `at`.
pub fn occurs_at(v: &Vec<char>, pat: &Vec<char>, at: usize) -> (r: bool)
    ensures
        r == text::occurs_at(v@, pat@, at as int),
{
    if at > v.len() || pat.len() > v.len() - at {
        return false;
    }
    let part = slice(v, at, at + pat.len());
    eq(&part, pat)
}

/// The first index at or after `from` where `pat` stands, if any.
pub fn find_from(v: &Vec<char>, pat: &Vec<char>, from: usize) -> (r: Option<usize>)
    ensures
        match r {
            Some(i) => i == text::find_from(v@, pat@, from as int) && from <= i && i + pat.len()
                <= v.len(),
            None => text::find_from(v@, pat@, from as int) < 0,
        },
{
    if pat.len() == 0 {
        if from <= v.len() {
            assert(v@.subrange(from as int, from as int) =~= pat@);
            return Some(from);
        }
        return None;
    }
    let mut i: usize = from;
    while i <= v.len() && pat.len() <= v.len() - i
        invariant
            from <= i,
            pat.len() > 0,
            text::find_from(v@, pat@, from as int) == text::find_from(v@, pat@, i as int),
        decreases v.len() + 1 - i,
    {
        if occurs_at(v, pat, i) {
            return Some(i);
        }
        i += 1;
    }
    None
}

/// Whether `pat` stands somewhere in `v`.
pub fn contains(v: &Vec<char>, pat: &Vec<char>) -> (r: bool)
    ensures
        r == text::contains(v@, pat@),
{
    find_from(v, pat, 0).is_some()
}

/// The text with its ASCII capitals in lower case.
pub fn to_ascii_lowercase(v: &Vec<char>) -> (r: Vec<char>)
    ensures
        r@ == text::to_ascii_lowercase(v@),
{
    let mut r: Vec<char> = Vec::new();
    let mut i: usize = 0;
    while i < v.len()
        invariant
            i <= v.len(),
            r@ == text::to_ascii_lowercase(v@.take(i as int)),
        decreases v.len() - i,
    {
        assert(text::to_ascii_lowercase(v@.take(i + 1)) =~= text::to_ascii_lowercase(
            v@.take(i as int),
        ).push(text::ascii_lower(v@[i as int])));
        r.push(text::char_ascii_lower(v[i]));
        i += 1;
    }
    assert(v@.take(v.len() as int) =~= v@);
    r
}

/// Whether two texts are the same but for the case of ASCII letters.
pub fn eq_ignore_ascii_case(a: &Vec<char>, b: &Vec<char>) -> (r: bool)
    ensures
        r == text::eq_ignore_ascii_case(a@, b@),
{
    let la = to_ascii_lowercase(a);
    let lb = to_ascii_lowercase(b);
    eq(&la, &lb)
}

/// The part before the first `c` and the part after it, if `c` occurs.
pub fn split_once(v: &Vec<char>, c: char) -> (r: Option<(Vec<char>, Vec<char>)>)
    ensures
        match r {
            Some((a, b)) => text::split_once(v@, c) == Some((a@, b@)),
            None => text::split_once(v@, c) is None,
        },
{
    let n = find_char(v, c, 0);
    if n >= v.len() {
        None
    } else {
        let a = slice(v, 0, n);
        let b = slice(v, n + 1, v.len());
        Some((a, b))
    }
}

/// The pieces between the occurrences of `c`.
pub fn split_char(v: &Vec<char>, c: char) -> (r: Vec<Vec<char>>)
    ensures
        text::views(r@) == text::split_char(v@, c),
{
    let mut r: Vec<Vec<char>> = Vec::new();
    let mut pos: usize = 0;
    assert(v@.skip(0) =~= v@);
    loop
        invariant_except_break
            pos <= v.len(),
            text::split_char(v@, c) == text::views(r@) + text::split_char(v@.skip(pos as int), c),
        ensures
            text::views(r@) == text::split_char(v@, c),
        decreases v.len() - pos,
    {
        let ghost rest = v@.skip(pos as int);
        let ghost before = text::views(r@);
        let n = find_char(v, c, pos);
        proof {
            lemma_find_char_skip(v@, c, pos as int, pos as int);
        }
        if n >= v.len() {
            let piece = slice(v, pos, v.len());
            assert(piece@ =~= rest);
            r.push(piece);
            assert(text::views(r@) =~= before + seq![rest]);
            break ;
        }
        let piece = slice(v, pos, n);
        assert(piece@ =~= rest.take(n - pos));
        r.push(piece);
        assert(text::views(r@) =~= before.push(piece@));
        assert(rest.skip(n - pos + 1) =~= v@.skip(n + 1));
        pos = n + 1;
        assert(before + (seq![piece@] + text::split_char(v@.skip(pos as int), c))
            =~= before.push(piece@) + text::split_char(v@.skip(pos as int), c));
    }
    r
}

/// Whether one of the texts in `list` equals `x`.
pub fn list_contains(list: &Vec<Vec<char>>, x: &Vec<char>) -> (r: bool)
    ensures
        r == text::views(list@).contains(x@),
{
    let mut i: usize = 0;
    while i < list.len()
        invariant
            i <= list.len(),
            forall|j: int| 0 <= j < i ==> text::views(list@)[j] != x@,
        decreases list.len() - i,
    {
        if eq(&list[i], x) {
            assert(text::views(list@)[i as int] == x@);
            return true;
        }
        i += 1;
    }
    false
}

/// `std::str::from_utf8`: the string slice over the same bytes, where they
/// are well-formed UTF-8, and nothing where they are not.
#[verifier::external_body]
fn str_from_utf8(bytes: &[u8]) -> (r: Option<&str>)
    ensures
        r is Some <==> valid_utf8(bytes@),
        r matches Some(s) ==> s@ == decode_utf8(bytes@),
{
    std::str::from_utf8(bytes).ok()
}

/// The text that the bytes encode in UTF-8, if they encode one.
pub fn decode(bytes: &[u8]) -> (r: Option<Vec<char>>)
    ensures
        r is Some <==> valid_utf8(bytes@),
        r matches Some(v) ==> v@ == decode_utf8(bytes@),
{
    match str_from_utf8(bytes) {
        Some(s) => Some(from_str(s)),
        None => None,
    }
}

/// The UTF-8 encoding of a text.
pub fn encode(v: &Vec<char>) -> (r: Vec<u8>)
    ensures
        r@ == encode_utf8(v@),
{
    let s = to_string(v);
    slice_to_vec(s.as_str().as_bytes())
}

/// Whether the text is that of the string slice.
pub fn eq_str(v: &Vec<char>, s: &str) -> (r: bool)
    ensures
        r == (v@ == s@),
{
    let t = from_str(s);
    eq(v, &t)
}

/// The greatest index below `to` that holds `c`, if there is one.
pub fn rfind_char(v: &Vec<char>, c: char, to: usize) -> (r: Option<usize>)
    requires
        to <= v.len(),
    ensures
        match r {
            Some(i) => i == text::rfind_char(v@, c, to as int) && i < to && v@[i as int] == c,
            None => text::rfind_char(v@, c, to as int) == -1,
        },
{
    let mut i: usize = to;
    while i > 0
        invariant
            i <= to <= v.len(),
            text::rfind_char(v@, c, to as int) == text::rfind_char(v@, c, i as int),
        decreases i,
    {
        if v[i - 1] == c {
            return Some(i - 1);
        }
        i -= 1;
    }
    None
}

/// The text with every `from` replaced by `to`.
pub fn replace_char(v: &Vec<char>, from: char, to: char) -> (r: Vec<char>)
    ensures
        r@ == text::replace_char(v@, from, to),
{
    let mut r: Vec<char> = Vec::new();
    let mut i: usize = 0;
    while i < v.len()
        invariant
            i <= v.len(),
            r@ == text::replace_char(v@.take(i as int), from, to),
        decreases v.len() - i,
    {
        let c = v[i];
        assert(text::replace_char(v@.take(i + 1), from, to) =~= text::replace_char(
            v@.take(i as int),
            from,
            to,
        ).push(if c == from { to } else { c }));
        r.push(if c == from { to } else { c });
        i += 1;
    }
    assert(v@.take(v.len() as int) =~= v@);
    r
}

/// A copy of the text.
pub fn clone(v: &Vec<char>) -> (r: Vec<char>)
    ensures
        r@ == v@,
{
    let r = slice(v, 0, v.len());
    assert(v@.subrange(0, v@.len() as int) =~= v@);
    r
}

/// The words of a text: its maximal runs without white space.
pub fn split_whitespace(v: &Vec<char>) -> (r: Vec<Vec<char>>)
    ensures
        text::views(r@) == text::split_whitespace(v@),
{
    let mut r: Vec<Vec<char>> = Vec::new();
    let mut pos: usize = 0;
    assert(v@.skip(0) =~= v@);
    loop
        invariant_except_break
            pos <= v.len(),
            text::split_whitespace(v@) == text::views(r@) + text::split_whitespace(
                v@.skip(pos as int),
            ),
        ensures
            text::views(r@) == text::split_whitespace(v@),
        decreases v.len() - pos,
    {
        let ghost rest = v@.skip(pos as int);
        let ghost before = text::views(r@);
        let a = skip_whitespace(v, pos);
        proof {
            lemma_skip_whitespace_skip(v@, pos as int, pos as int);
        }
        if a >= v.len() {
            assert(text::split_whitespace(rest) =~= Seq::<Seq<char>>::empty());
            assert(before + Seq::<Seq<char>>::empty() =~= before);
            break ;
        }
        let b = skip_word(v, a);
        proof {
            lemma_skip_word_skip(v@, pos as int, a as int);
            text::lemma_skip_word_bounds(v@, a as int);
            lemma_skip_whitespace_stops(v@, pos as int);
        }
        let word = slice(v, a, b);
        assert(word@ =~= rest.subrange(a - pos, b - pos));
        r.push(word);
        assert(text::views(r@) =~= before.push(word@));
        assert(rest.skip(b - pos) =~= v@.skip(b as int));
        pos = b;
        assert(before + (seq![word@] + text::split_whitespace(v@.skip(pos as int)))
            =~= before.push(word@) + text::split_whitespace(v@.skip(pos as int)));
    }
    r
}

/// Skipping white space from `from` on is skipping it from the start of the
/// rest of the text.
pub proof fn lemma_skip_whitespace_skip(s: Seq<char>, base: int, from: int)
    requires
        0 <= base <= from <= s.len(),
    ensures
        text::skip_whitespace(s.skip(base), from - base) == text::skip_whitespace(s, from) - base,
    decreases s.len() - from,
{
    if from < s.len() && text::is_whitespace(s[from]) {
        lemma_skip_whitespace_skip(s, base, from + 1);
    }
}

/// Skipping a word from `from` on is skipping it from the start of the rest
/// of the text.
pub proof fn lemma_skip_word_skip(s: Seq<char>, base: int, from: int)
    requires
        0 <= base <= from <= s.len(),
    ensures
        text::skip_word(s.skip(base), from - base) == text::skip_word(s, from) - base,
    decreases s.len() - from,
{
    if from < s.len() && !text::is_whitespace(s[from]) {
        lemma_skip_word_skip(s, base, from + 1);
    }
}

/// Where skipping white space stops before the end, no white space stands.
pub proof fn lemma_skip_whitespace_stops(s: Seq<char>, from: int)
    requires
        0 <= from <= s.len(),
    ensures
        text::skip_whitespace(s, from) < s.len() ==> !text::is_whitespace(
            s[text::skip_whitespace(s, from)],
        ),
        from <= text::skip_whitespace(s, from) <= s.len(),
    decreases s.len() - from,
{
    if from < s.len() && text::is_whitespace(s[from]) {
        lemma_skip_whitespace_stops(s, from + 1);
    }
}

/// The words joined by single spaces.
pub fn join_words(words: &Vec<Vec<char>>) -> (r: Vec<char>)
    ensures
        r@ == text::join_words(text::views(words@)),
{
    let ghost all = text::views(words@);
    let mut r: Vec<char> = Vec::new();
    let mut i: usize = 0;
    while i < words.len()
        invariant
            i <= words.len(),
            all == text::views(words@),
            r@ == text::join_words(all.take(i as int)),
        decreases words.len() - i,
    {
        assert(all.take(i + 1).drop_last() =~= all.take(i as int));
        assert(all.take(i + 1).last() == words@[i as int]@);
        if i > 0 {
            r.push(' ');
        }
        append(&mut r, &words[i]);
        proof {
            if i == 0 {
                assert(all.take(1)[0] == words@[0]@);
                assert(r@ =~= words@[0]@);
            } else {
                assert(r@ =~= text::join_words(all.take(i as int)) + seq![' '] + words@[i as int]@);
            }
        }
        i += 1;
    }
    assert(all.take(words.len() as int) =~= all);
    r
}

/// The text with each run of white space made one space, and none at its
/// ends.
pub fn normalize_ws(v: &Vec<char>) -> (r: Vec<char>)
    ensures
        r@ == text::normalize_ws(v@),
{
    let words = split_whitespace(v);
    join_words(&words)
}

/// The first index at or after `from` that does not hold `c`, or the length
/// of `v`.
pub fn skip_char(v: &Vec<char>, c: char, from: usize) -> (i: usize)
    requires
        from <= v.len(),
    ensures
        i == text::skip_char(v@, c, from as int),
        from <= i <= v.len(),
{
    let mut i: usize = from;
    while i < v.len() && v[i] == c
        invariant
            from <= i <= v.len(),
            text::skip_char(v@, c, from as int) == text::skip_char(v@, c, i as int),
        decreases v.len() - i,
    {
        i += 1;
    }
    i
}

/// The least `end <= to` such that `v[end..to]` holds `c` only.
pub fn skip_char_back(v: &Vec<char>, c: char, to: usize) -> (i: usize)
    requires
        to <= v.len(),
    ensures
        i == text::skip_char_back(v@, c, to as int),
        i <= to,
{
    let mut i: usize = to;
    while i > 0 && v[i - 1] == c
        invariant
            i <= to <= v.len(),
            text::skip_char_back(v@, c, to as int) == text::skip_char_back(v@, c, i as int),
        decreases i,
    {
        i -= 1;
    }
    i
}

/// Whether every character is `c`.
pub fn all_are(v: &Vec<char>, c: char) -> (r: bool)
    ensures
        r == text::all_are(v@, c),
{
    let mut i: usize = 0;
    while i < v.len()
        invariant
            i <= v.len(),
            forall|j: int| 0 <= j < i ==> v@[j] == c,
        decreases v.len() - i,
    {
        if v[i] != c {
            return false;
        }
        i += 1;
    }
    true
}

/// `String::from_utf8_lossy`: the text of the bytes, with U+FFFD in place
/// of what is no UTF-8; of UTF-8 bytes, the text they encode.
#[verifier::external_body]
fn string_from_utf8_lossy(bytes: &[u8]) -> (r: String)
    ensures
        r@ == text::lossy_text(bytes@),
        valid_utf8(bytes@) ==> r@ == decode_utf8(bytes@),
{
    String::from_utf8_lossy(bytes).into_owned()
}

/// The text of bytes that may be no UTF-8: what is ill-formed is replaced.
pub fn decode_lossy(bytes: &[u8]) -> (r: Vec<char>)
    ensures
        r@ == text::lossy_text(bytes@),
        valid_utf8(bytes@) ==> r@ == decode_utf8(bytes@),
{
    let s = string_from_utf8_lossy(bytes);
    from_str(s.as_str())
}

fn digit_char(d: u8) -> (c: char)
    requires
        d < 10,
    ensures
        c == text::digit(d as nat),
{
    if d == 0 {
        '0'
    } else if d == 1 {
        '1'
    } else if d == 2 {
        '2'
    } else if d == 3 {
        '3'
    } else if d == 4 {
        '4'
    } else if d == 5 {
        '5'
    } else if d == 6 {
        '6'
    } else if d == 7 {
        '7'
    } else if d == 8 {
        '8'
    } else {
        '9'
    }
}

/// A number in decimal digits.
pub fn from_u64(n: u64) -> (r: Vec<char>)
    ensures
        r@ == text::decimal(n as nat),
    decreases n,
{
    if n < 10 {
        let mut v: Vec<char> = Vec::new();
        v.push(digit_char(n as u8));
        assert(v@ =~= seq![text::digit(n as nat)]);
        v
    } else {
        let mut v = from_u64(n / 10);
        v.push(digit_char((n % 10) as u8));
        v
    }
}

/// A whole number in decimal digits.
pub fn from_i64(i: i64) -> (r: Vec<char>)
    ensures
        r@ == text::signed_decimal(i as int),
{
    if i < 0 {
        let magnitude: u64 = ((-(i + 1)) as u64) + 1;
        let mut v: Vec<char> = Vec::new();
        v.push('-');
        let digits = from_u64(magnitude);
        append(&mut v, &digits);
        assert(v@ =~= seq!['-'] + text::decimal((-i) as nat));
        v
    } else {
        from_u64(i as u64)
    }
}

/// Adds the characters of a string slice at the end of `out`.
pub fn append_str(out: &mut Vec<char>, part: &str)
    ensures
        final(out)@ == old(out)@ + part@,
{
    let p = from_str(part);
    append(out, &p);
}

/// The texts one after the other with `sep` between them.
pub fn join(parts: &Vec<Vec<char>>, sep: &Vec<char>) -> (r: Vec<char>)
    ensures
        r@ == text::join(text::views(parts@), sep@),
{
    let ghost all = text::views(parts@);
    let mut r: Vec<char> = Vec::new();
    let mut i: usize = 0;
    while i < parts.len()
        invariant
            i <= parts.len(),
            all == text::views(parts@),
            r@ == text::join(all.take(i as int), sep@),
        decreases parts.len() - i,
    {
        assert(all.take(i + 1).drop_last() =~= all.take(i as int));
        assert(all.take(i + 1).last() == parts@[i as int]@);
        if i > 0 {
            append(&mut r, sep);
        }
        append(&mut r, &parts[i]);
        proof {
            if i == 0 {
                assert(all.take(1)[0] == parts@[0]@);
                assert(r@ =~= parts@[0]@);
            } else {
                assert(r@ =~= text::join(all.take(i as int), sep@) + sep@ + parts@[i as int]@);
            }
        }
        i += 1;
    }
    assert(all.take(parts.len() as int) =~= all);
    r
}

} // verus!
