//! License texts from SPDX templates.
//!
//! A template holds directives between `<<` and `>>` and placeholders
//! between `<` and `>`. Rendering puts the arguments in their place.

use crate::apply::strings;
use crate::chars;
use crate::namemap::NameMap;
use crate::text;
use vstd::prelude::*;

verus! {

/// A license text with the identifier it was rendered for.
#[derive(Debug)]
pub struct RenderedLicense {
    pub spdx: String,
    pub text: String,
}

/// Errors of rendering a license.
#[derive(Debug)]
pub enum LicenseError {
    UnknownSpdxId { spdx: String },
    UnterminatedDirective { spdx: String },
    MissingTemplateVar { spdx: String, name: String },
}

/// An error as a mathematical value.
pub ghost enum LicenseErrorView {
    UnknownSpdxId { spdx: Seq<char> },
    UnterminatedDirective { spdx: Seq<char> },
    MissingTemplateVar { spdx: Seq<char>, name: Seq<char> },
}

impl View for LicenseError {
    type V = LicenseErrorView;

    open spec fn view(&self) -> LicenseErrorView {
        match self {
            LicenseError::UnknownSpdxId { spdx } => LicenseErrorView::UnknownSpdxId { spdx: spdx@ },
            LicenseError::UnterminatedDirective { spdx } => {
                LicenseErrorView::UnterminatedDirective { spdx: spdx@ }
            },
            LicenseError::MissingTemplateVar { spdx, name } => {
                LicenseErrorView::MissingTemplateVar { spdx: spdx@, name: name@ }
            },
        }
    }
}

impl LicenseError {
    /// The message of the error.
    pub fn message(&self) -> (m: String)
        ensures
            m@ == match self@ {
                LicenseErrorView::UnknownSpdxId { spdx } => "unknown SPDX license id: "@ + spdx,
                LicenseErrorView::UnterminatedDirective { spdx } => {
                    "unterminated SPDX template directive in "@ + spdx + " text"@
                },
                LicenseErrorView::MissingTemplateVar { spdx, name } => {
                    "missing SPDX template variable \""@ + name + "\" for "@ + spdx
                },
            },
    {
        match self {
            LicenseError::UnknownSpdxId { spdx } => {
                let mut v = chars::from_str("unknown SPDX license id: ");
                chars::append_str(&mut v, spdx.as_str());
                chars::to_string(&v)
            },
            LicenseError::UnterminatedDirective { spdx } => {
                let mut v = chars::from_str("unterminated SPDX template directive in ");
                chars::append_str(&mut v, spdx.as_str());
                chars::append_str(&mut v, " text");
                chars::to_string(&v)
            },
            LicenseError::MissingTemplateVar { spdx, name } => {
                let mut v = chars::from_str("missing SPDX template variable \"");
                chars::append_str(&mut v, name.as_str());
                chars::append_str(&mut v, "\" for ");
                chars::append_str(&mut v, spdx.as_str());
                chars::to_string(&v)
            },
        }
    }
}

/// Where a directive is split: the parts that are done, the part that is
/// being read, and the quote that is open, if one is.
pub ghost struct SplitState {
    pub out: Seq<Seq<char>>,
    pub buf: Seq<char>,
    pub in_quotes: bool,
    pub quote: char,
}

/// The state after one more character. A quote opens at `"` or `'` and
/// closes at the same character; a `;` outside quotes ends a part.
pub open spec fn split_step(st: SplitState, c: char) -> SplitState {
    if st.in_quotes {
        SplitState { out: st.out, buf: st.buf.push(c), in_quotes: c != st.quote, quote: st.quote }
    } else if c == '"' || c == '\'' {
        SplitState { out: st.out, buf: st.buf.push(c), in_quotes: true, quote: c }
    } else if c == ';' {
        SplitState {
            out: st.out.push(text::trim(st.buf)),
            buf: Seq::empty(),
            in_quotes: false,
            quote: st.quote,
        }
    } else {
        SplitState { out: st.out, buf: st.buf.push(c), in_quotes: false, quote: st.quote }
    }
}

/// The state after the first `n` characters.
pub open spec fn split_fold(s: Seq<char>, n: int) -> SplitState
    decreases n,
{
    if n <= 0 || n > s.len() {
        SplitState { out: Seq::empty(), buf: Seq::empty(), in_quotes: false, quote: '\0' }
    } else {
        split_step(split_fold(s, n - 1), s[n - 1])
    }
}

/// The parts of a directive between its `;`, each trimmed. A `;` between
/// quotes is part of its part, and a last part of white space is dropped.
pub open spec fn semicolon_parts(s: Seq<char>) -> Seq<Seq<char>> {
    let st = split_fold(s, s.len() as int);
    if text::trim(st.buf).len() > 0 {
        st.out.push(text::trim(st.buf))
    } else {
        st.out
    }
}

/// The text between the quotes, where the same quote stands at both ends.
pub open spec fn unquoted(s: Seq<char>) -> Seq<char> {
    if s.len() >= 2 && ((s[0] == '"' && s.last() == '"') || (s[0] == '\'' && s.last() == '\'')) {
        s.subrange(1, s.len() - 1)
    } else {
        s
    }
}

/// The value that a part gives to a field: the unquoted text behind the
/// `=`, where the trimmed text before it is the field's name.
pub open spec fn field_value(part: Seq<char>, field: Seq<char>) -> Option<Seq<char>> {
    match text::split_once(part, '=') {
        None => None,
        Some((k, v)) => if text::trim(k) == field {
            Some(unquoted(text::trim(v)))
        } else {
            None
        },
    }
}

/// The value of a field: that of the last part that gives it one.
pub open spec fn last_field(parts: Seq<Seq<char>>, field: Seq<char>) -> Option<Seq<char>>
    decreases parts.len(),
{
    if parts.len() == 0 {
        None
    } else {
        match field_value(parts.last(), field) {
            Some(v) => Some(v),
            None => last_field(parts.drop_last(), field),
        }
    }
}

/// The parts of a `var` directive behind its first, where that begins with
/// `var`.
pub open spec fn var_fields(parts: Seq<Seq<char>>) -> Seq<Seq<char>> {
    if parts.len() > 0 && text::starts_with(text::to_ascii_lowercase(parts[0]), "var"@) {
        parts.skip(1)
    } else {
        parts
    }
}

/// The arguments of a template: the texts under their names.
pub open spec fn args_of(m: NameMap<String>) -> Map<Seq<char>, Seq<char>> {
    Map::new(|k: Seq<char>| m.value_of(k) is Some, |k: Seq<char>| m.value_of(k)->0@)
}

/// The argument under a name, if there is one.
pub open spec fn arg_text(args: Map<Seq<char>, Seq<char>>, name: Seq<char>) -> Option<Seq<char>> {
    if args.dom().contains(name) {
        Some(args[name])
    } else {
        None
    }
}

/// The text that a `var` directive stands for: the argument under its name;
/// else its original text; without a name, its original text or nothing.
pub open spec fn var_value(
    spdx: Seq<char>,
    directive: Seq<char>,
    args: Map<Seq<char>, Seq<char>>,
) -> Result<Seq<char>, LicenseErrorView> {
    let fields = var_fields(semicolon_parts(directive));
    let original = last_field(fields, "original"@);
    match last_field(fields, "name"@) {
        None => Ok(
            match original {
                Some(o) => o,
                None => Seq::empty(),
            },
        ),
        Some(name) => match arg_text(args, name) {
            Some(v) => Ok(v),
            None => match original {
                Some(o) => Ok(o),
                None => Err(LicenseErrorView::MissingTemplateVar { spdx, name }),
            },
        },
    }
}

/// A directive that names a variable: `var`, or one that begins with
/// `var;`, without regard to case.
pub open spec fn is_var_directive(directive: Seq<char>) -> bool {
    text::starts_with(text::to_ascii_lowercase(directive), "var;"@) || text::eq_ignore_ascii_case(
        directive,
        "var"@,
    )
}

/// The text that a directive stands for: that of its variable for a `var`
/// directive, and nothing for any other.
pub open spec fn directive_value(
    spdx: Seq<char>,
    directive: Seq<char>,
    args: Map<Seq<char>, Seq<char>>,
) -> Result<Seq<char>, LicenseErrorView> {
    if directive.len() > 0 && is_var_directive(directive) {
        var_value(spdx, directive, args)
    } else {
        Ok(Seq::empty())
    }
}

/// The template from index `from` on with each directive replaced by what
/// it stands for. A `<<` without a `>>` behind it is an error, and so is
/// the first variable without a value.
pub open spec fn expanded_from(
    spdx: Seq<char>,
    template: Seq<char>,
    args: Map<Seq<char>, Seq<char>>,
    from: int,
) -> Result<Seq<char>, LicenseErrorView>
    decreases template.len() - from,
{
    let open = text::find_from(template, "<<"@, from);
    if open < from || open + 2 > template.len() {
        Ok(template.skip(from))
    } else {
        let close = text::find_from(template, ">>"@, open + 2);
        if close < open + 2 || close + 2 > template.len() {
            Err(LicenseErrorView::UnterminatedDirective { spdx })
        } else {
            match directive_value(spdx, text::trim(template.subrange(open + 2, close)), args) {
                Err(e) => Err(e),
                Ok(v) => match expanded_from(spdx, template, args, close + 2) {
                    Err(e) => Err(e),
                    Ok(rest) => Ok(template.subrange(from, open) + v + rest),
                },
            }
        }
    }
}

/// The template with each directive replaced by what it stands for, or the
/// error of the first directive that has none.
pub open spec fn expanded(
    spdx: Seq<char>,
    template: Seq<char>,
    args: Map<Seq<char>, Seq<char>>,
) -> Result<Seq<char>, LicenseErrorView> {
    expanded_from(spdx, template, args, 0)
}

/// The text from index `from` on with each `<key>` replaced by the argument
/// under the key, where there is one; the key is trimmed. A `<` without a
/// `>` behind it stays with all that follows.
pub open spec fn replaced_from(s: Seq<char>, args: Map<Seq<char>, Seq<char>>, from: int) -> Seq<
    char,
>
    decreases s.len() - from,
{
    let open = text::find_char(s, '<', from);
    if from < 0 || open < from || open >= s.len() {
        s.skip(from)
    } else {
        let close = text::find_char(s, '>', open + 1);
        if close <= open || close >= s.len() {
            s.skip(from)
        } else {
            let key = text::trim(s.subrange(open + 1, close));
            let value = match arg_text(args, key) {
                Some(v) => v,
                None => seq!['<'] + key + seq!['>'],
            };
            s.subrange(from, open) + value + replaced_from(s, args, close + 1)
        }
    }
}

/// Whether a template has a place for the year.
pub open spec fn supports_year(template: Seq<char>) -> bool {
    let lowered = text::to_ascii_lowercase(template);
    ||| text::contains(template, "<year>"@)
    ||| text::contains(lowered, "name=\"year\""@)
    ||| text::contains(lowered, "name='year'"@)
    ||| text::contains(lowered, "name=year"@)
}

/// The date of a day: year, month and day of the month of the day that
/// lies `days` days after 1970-01-01.
pub open spec fn civil(days: nat) -> (nat, nat, nat) {
    let z = days + 719468;
    let era = z / 146097;
    let doe = z - era * 146097;
    let yoe = ((doe - doe / 1460 + doe / 36524 - doe / 146096) / 365) as nat;
    let y = yoe + era * 400;
    let doy = (doe - (365 * yoe + yoe / 4 - yoe / 100)) as nat;
    let mp = (5 * doy + 2) / 153;
    let d = (doy - (153 * mp + 2) / 5 + 1) as nat;
    let m = if mp < 10 {
        mp + 3
    } else {
        (mp - 9) as nat
    };
    (
        if m <= 2 {
            y + 1
        } else {
            y
        },
        m,
        d,
    )
}

/// The greatest number of days for which `civil_from_days` is computed:
/// the days of as many seconds as a `u64` holds.
pub const MAX_DAYS: u64 = 213503982334601;

/// The year, month and day of the day that lies `days` days after the first
/// of January 1970.
pub fn civil_from_days(days: u64) -> (date: (u64, u64, u64))
    requires
        days <= MAX_DAYS,
    ensures
        date.0 == civil(days as nat).0,
        date.1 == civil(days as nat).1,
        date.2 == civil(days as nat).2,
        1 <= date.1 <= 12,
        1 <= date.2 <= 31,
{
    let z: u64 = days + 719468;
    let era: u64 = z / 146097;
    let doe: u64 = z - era * 146097;
    assert(doe < 146097);
    let yoe: u64 = (doe - doe / 1460 + doe / 36524 - doe / 146096) / 365;
    assert(yoe <= 399);
    let y: u64 = yoe + era * 400;
    let doy: u64 = doe - (365 * yoe + yoe / 4 - yoe / 100);
    assert(doy <= 365);
    let mp: u64 = (5 * doy + 2) / 153;
    assert(mp <= 11);
    let d: u64 = doy - (153 * mp + 2) / 5 + 1;
    let m: u64 = if mp < 10 {
        mp + 3
    } else {
        mp - 9
    };
    let year: u64 = if m <= 2 {
        y + 1
    } else {
        y
    };
    (year, m, d)
}

/// The year in which the second `secs` after the start of 1970 lies.
pub fn year_of_unix_seconds(secs: u64) -> (year: u64)
    ensures
        year == civil((secs / 86400) as nat).0,
{
    civil_from_days(secs / 86400).0
}

/// The year of a time, as text.
pub fn current_year_string(now_secs: u64) -> (r: String)
    ensures
        r@ == text::decimal(civil((now_secs / 86400) as nat).0),
{
    chars::to_string(&chars::from_u64(year_of_unix_seconds(now_secs)))
}

/// The text of the license with the SPDX identifier, if there is one.
pub uninterp spec fn spdx_text(spdx: Seq<char>) -> Option<Seq<char>>;

/// `license::License`: the `text` of the license that `from_str` finds for
/// the identifier; nothing where it finds none. The same identifier gives
/// the same text.
#[verifier::external_body]
fn license_text(spdx: &str) -> (r: Option<&'static str>)
    ensures
        match r {
            Some(t) => spdx_text(spdx@) == Some(t@),
            None => spdx_text(spdx@) is None,
        },
{
    let parsed: &dyn license::License = spdx.parse().ok()?;
    Some(parsed.text())
}

fn split_parts(s: &Vec<char>) -> (r: Vec<Vec<char>>)
    ensures
        text::views(r@) == semicolon_parts(s@),
{
    let mut out: Vec<Vec<char>> = Vec::new();
    let mut buf: Vec<char> = Vec::new();
    let mut in_quotes = false;
    let mut quote = '\0';
    let mut i: usize = 0;
    assert(text::views(out@) =~= Seq::<Seq<char>>::empty());
    while i < s.len()
        invariant
            i <= s.len(),
            split_fold(s@, i as int).out == text::views(out@),
            split_fold(s@, i as int).buf == buf@,
            split_fold(s@, i as int).in_quotes == in_quotes,
            split_fold(s@, i as int).quote == quote,
        decreases s.len() - i,
    {
        let c = s[i];
        if in_quotes {
            if c == quote {
                in_quotes = false;
            }
            buf.push(c);
        } else if c == '"' || c == '\'' {
            in_quotes = true;
            quote = c;
            buf.push(c);
        } else if c == ';' {
            let ghost before = text::views(out@);
            let part = chars::trim(&buf);
            out.push(part);
            assert(text::views(out@) =~= before.push(text::trim(buf@)));
            buf = Vec::new();
        } else {
            buf.push(c);
        }
        i += 1;
    }
    let last = chars::trim(&buf);
    if last.len() > 0 {
        let ghost before = text::views(out@);
        out.push(last);
        assert(text::views(out@) =~= before.push(text::trim(buf@)));
    }
    out
}

fn to_strings(parts: &Vec<Vec<char>>) -> (r: Vec<String>)
    ensures
        strings(r@) == text::views(parts@),
{
    let mut r: Vec<String> = Vec::new();
    let mut i: usize = 0;
    while i < parts.len()
        invariant
            i <= parts.len(),
            r@.len() == i,
            forall|j: int| 0 <= j < i ==> (#[trigger] r@[j])@ == parts@[j]@,
        decreases parts.len() - i,
    {
        r.push(chars::to_string(&parts[i]));
        i += 1;
    }
    assert(strings(r@) =~= text::views(parts@));
    r
}

/// The parts of a directive between its `;`.
pub fn split_semicolons(s: &str) -> (r: Vec<String>)
    ensures
        strings(r@) == semicolon_parts(s@),
{
    to_strings(&split_parts(&chars::from_str(s)))
}

fn unquote_chars(s: &Vec<char>) -> (r: Vec<char>)
    ensures
        r@ == unquoted(s@),
{
    let n = s.len();
    if n >= 2 && ((s[0] == '"' && s[n - 1] == '"') || (s[0] == '\'' && s[n - 1] == '\'')) {
        chars::slice(s, 1, n - 1)
    } else {
        chars::clone(s)
    }
}

/// The text without the pair of quotes around it, if it has one.
pub fn unquote(s: &str) -> (r: String)
    ensures
        r@ == unquoted(s@),
{
    chars::to_string(&unquote_chars(&chars::from_str(s)))
}

fn part_field(part: &Vec<char>, field: &str) -> (r: Option<Vec<char>>)
    ensures
        match r {
            Some(v) => field_value(part@, field@) == Some(v@),
            None => field_value(part@, field@) is None,
        },
{
    match chars::split_once(part, '=') {
        None => None,
        Some((k, v)) => {
            if chars::eq_str(&chars::trim(&k), field) {
                Some(unquote_chars(&chars::trim(&v)))
            } else {
                None
            }
        },
    }
}

fn field_of(parts: &Vec<Vec<char>>, from: usize, field: &str) -> (r: Option<Vec<char>>)
    requires
        from <= parts.len(),
    ensures
        match r {
            Some(v) => last_field(text::views(parts@).skip(from as int), field@) == Some(v@),
            None => last_field(text::views(parts@).skip(from as int), field@) is None,
        },
{
    let ghost all = text::views(parts@).skip(from as int);
    let mut i: usize = parts.len();
    assert(all.take(all.len() as int) =~= all);
    while i > from
        invariant
            from <= i <= parts.len(),
            all == text::views(parts@).skip(from as int),
            last_field(all, field@) == last_field(all.take(i - from), field@),
        decreases i,
    {
        assert(all.take(i - from).last() == parts@[i - 1]@);
        assert(all.take(i - from).drop_last() =~= all.take(i - 1 - from));
        match part_field(&parts[i - 1], field) {
            Some(v) => {
                return Some(v);
            },
            None => {},
        }
        i -= 1;
    }
    None
}

fn arg_of(args: &NameMap<String>, name: &Vec<char>) -> (r: Option<Vec<char>>)
    ensures
        match r {
            Some(v) => arg_text(args_of(*args), name@) == Some(v@),
            None => arg_text(args_of(*args), name@) is None,
        },
{
    let key = chars::to_string(name);
    match args.get(key.as_str()) {
        Some(v) => Some(chars::from_str(v.as_str())),
        None => None,
    }
}

fn var_directive_value(spdx: &str, directive: &Vec<char>, args: &NameMap<String>) -> (r: Result<
    Vec<char>,
    LicenseError,
>)
    ensures
        match r {
            Ok(v) => var_value(spdx@, directive@, args_of(*args)) == Ok::<Seq<char>, LicenseErrorView>(v@),
            Err(e) => var_value(spdx@, directive@, args_of(*args)) == Err::<Seq<char>, LicenseErrorView>(e@),
        },
{
    let parts = split_parts(directive);
    let from: usize = if parts.len() > 0 {
        assert(text::views(parts@)[0] == parts@[0]@);
        let lower = chars::to_ascii_lowercase(&parts[0]);
        if chars::starts_with(&lower, &chars::from_str("var")) {
            1
        } else {
            0
        }
    } else {
        0
    };
    assert(text::views(parts@).skip(0) =~= text::views(parts@));
    let original = field_of(&parts, from, "original");
    match field_of(&parts, from, "name") {
        None => Ok(
            match original {
                Some(o) => o,
                None => Vec::new(),
            },
        ),
        Some(name) => {
            match arg_of(args, &name) {
                Some(v) => Ok(v),
                None => match original {
                    Some(o) => Ok(o),
                    None => Err(
                        LicenseError::MissingTemplateVar {
                            spdx: spdx.to_owned(),
                            name: chars::to_string(&name),
                        },
                    ),
                },
            }
        },
    }
}

/// The text that a `var` directive stands for.
pub fn expand_var_directive(spdx: &str, directive: &str, template_args: &NameMap<String>) -> (r:
    Result<String, LicenseError>)
    ensures
        match r {
            Ok(v) => var_value(spdx@, directive@, args_of(*template_args)) == Ok::<
                Seq<char>,
                LicenseErrorView,
            >(v@),
            Err(e) => var_value(spdx@, directive@, args_of(*template_args)) == Err::<
                Seq<char>,
                LicenseErrorView,
            >(e@),
        },
{
    match var_directive_value(spdx, &chars::from_str(directive), template_args) {
        Ok(v) => Ok(chars::to_string(&v)),
        Err(e) => Err(e),
    }
}

fn is_var(directive: &Vec<char>) -> (r: bool)
    ensures
        r == is_var_directive(directive@),
{
    let lower = chars::to_ascii_lowercase(directive);
    chars::starts_with(&lower, &chars::from_str("var;")) || chars::eq_ignore_ascii_case(
        directive,
        &chars::from_str("var"),
    )
}

/// Replaces each directive of a template by what it stands for.
///
/// A `var` directive gives the argument under its name, or else its
/// original text; any other directive gives nothing. The first `<<` that no
/// `>>` follows, and the first variable without a value, give the error.
pub fn expand_spdx_template(spdx: &str, template: &str, template_args: &NameMap<String>) -> (r:
    Result<String, LicenseError>)
    ensures
        match r {
            Ok(v) => expanded(spdx@, template@, args_of(*template_args)) == Ok::<
                Seq<char>,
                LicenseErrorView,
            >(v@),
            Err(e) => expanded(spdx@, template@, args_of(*template_args)) == Err::<
                Seq<char>,
                LicenseErrorView,
            >(e@),
        },
{
    let t = chars::from_str(template);
    let open_mark = chars::from_str("<<");
    let close_mark = chars::from_str(">>");
    proof {
        reveal_strlit("<<");
        reveal_strlit(">>");
    }
    let mut out: Vec<char> = Vec::new();
    let mut idx: usize = 0;
    loop
        invariant
            idx <= t.len(),
            t@ == template@,
            open_mark@ == "<<"@,
            close_mark@ == ">>"@,
            "<<"@.len() == 2,
            ">>"@.len() == 2,
            match expanded_from(spdx@, t@, args_of(*template_args), idx as int) {
                Ok(rest) => expanded(spdx@, t@, args_of(*template_args)) == Ok::<
                    Seq<char>,
                    LicenseErrorView,
                >(out@ + rest),
                Err(e) => expanded(spdx@, t@, args_of(*template_args)) == Err::<
                    Seq<char>,
                    LicenseErrorView,
                >(e),
            },
        decreases t.len() - idx,
    {
        let open = match chars::find_from(&t, &open_mark, idx) {
            Some(o) => o,
            None => {
                let rest = chars::slice(&t, idx, t.len());
                assert(rest@ =~= t@.skip(idx as int));
                chars::append(&mut out, &rest);
                return Ok(chars::to_string(&out));
            },
        };
        let close = match chars::find_from(&t, &close_mark, open + 2) {
            Some(c) => c,
            None => {
                return Err(LicenseError::UnterminatedDirective { spdx: spdx.to_owned() });
            },
        };
        let directive = chars::trim(&chars::slice(&t, open + 2, close));
        let value = if directive.len() > 0 && is_var(&directive) {
            match var_directive_value(spdx, &directive, template_args) {
                Ok(v) => v,
                Err(e) => {
                    return Err(e);
                },
            }
        } else {
            Vec::new()
        };
        let ghost before = out@;
        let head = chars::slice(&t, idx, open);
        chars::append(&mut out, &head);
        chars::append(&mut out, &value);
        proof {
            match expanded_from(spdx@, t@, args_of(*template_args), close + 2) {
                Ok(rest) => {
                    assert(before + (t@.subrange(idx as int, open as int) + value@ + rest)
                        =~= out@ + rest);
                },
                Err(_) => {},
            }
        }
        idx = close + 2;
    }
}

fn replace_placeholders(s: &Vec<char>, args: &NameMap<String>) -> (r: Vec<char>)
    ensures
        r@ == replaced_from(s@, args_of(*args), 0),
{
    let mut out: Vec<char> = Vec::new();
    let mut idx: usize = 0;
    loop
        invariant
            idx <= s.len(),
            replaced_from(s@, args_of(*args), 0) == out@ + replaced_from(s@, args_of(*args), idx as int),
        decreases s.len() - idx,
    {
        let open = chars::find_char(s, '<', idx);
        if open >= s.len() {
            let rest = chars::slice(s, idx, s.len());
            assert(rest@ =~= s@.skip(idx as int));
            chars::append(&mut out, &rest);
            return out;
        }
        let close = chars::find_char(s, '>', open + 1);
        if close >= s.len() {
            let rest = chars::slice(s, idx, s.len());
            assert(rest@ =~= s@.skip(idx as int));
            chars::append(&mut out, &rest);
            return out;
        }
        let key = chars::trim(&chars::slice(s, open + 1, close));
        let ghost before = out@;
        let head = chars::slice(s, idx, open);
        chars::append(&mut out, &head);
        let ghost value;
        match arg_of(args, &key) {
            Some(v) => {
                chars::append(&mut out, &v);
                proof {
                    value = v@;
                }
            },
            None => {
                out.push('<');
                chars::append(&mut out, &key);
                out.push('>');
                proof {
                    value = seq!['<'] + key@ + seq!['>'];
                }
            },
        }
        assert(out@ =~= before + s@.subrange(idx as int, open as int) + value);
        assert(before + (s@.subrange(idx as int, open as int) + value + replaced_from(
            s@,
            args_of(*args),
            close + 1,
        )) =~= out@ + replaced_from(s@, args_of(*args), close + 1));
        idx = close + 1;
    }
}

/// Replaces each `<key>` of a text by the argument under the key.
pub fn replace_angle_placeholders(s: &str, template_args: &NameMap<String>) -> (r: String)
    ensures
        r@ == replaced_from(s@, args_of(*template_args), 0),
{
    chars::to_string(&replace_placeholders(&chars::from_str(s), template_args))
}

/// Whether a template has a place for the year.
pub fn template_supports_year(template: &str) -> (r: bool)
    ensures
        r == supports_year(template@),
{
    let t = chars::from_str(template);
    if chars::contains(&t, &chars::from_str("<year>")) {
        return true;
    }
    let lowered = chars::to_ascii_lowercase(&t);
    chars::contains(&lowered, &chars::from_str("name=\"year\"")) || chars::contains(
        &lowered,
        &chars::from_str("name='year'"),
    ) || chars::contains(&lowered, &chars::from_str("name=year"))
}

/// The arguments with the year among them, where the template has a place
/// for it and they hold none.
pub open spec fn with_year(template: Seq<char>, args: Map<Seq<char>, Seq<char>>, year: Seq<char>) -> Map<
    Seq<char>,
    Seq<char>,
> {
    if args.dom().contains("year"@) || !supports_year(template) {
        args
    } else {
        args.insert("year"@, year)
    }
}

/// Puts the year into the arguments of a template that has a place for it,
/// unless they hold one.
pub fn maybe_insert_current_year(template: &str, template_args: &mut NameMap<String>, year: String)
    ensures
        args_of(*final(template_args)) == with_year(template@, args_of(*old(template_args)), year@),
{
    proof {
        template_args.lemma_has("year"@);
    }
    if template_args.contains_key("year") {
        return ;
    }
    if !template_supports_year(template) {
        return ;
    }
    template_args.insert("year".to_owned(), year);
    proof {
        assert forall|k: Seq<char>|
            args_of(*template_args).dom().contains(k) == args_of(*old(template_args)).insert(
                "year"@,
                year@,
            ).dom().contains(k) by {
            template_args.lemma_has(k);
            old(template_args).lemma_has(k);
        }
        assert(args_of(*template_args) =~= args_of(*old(template_args)).insert("year"@, year@));
    }
}

/// The license text that rendering gives: the template of the license,
/// with the year among the arguments where it is wanted and not given, its
/// directives expanded and its placeholders replaced.
pub open spec fn rendered(
    spdx: Seq<char>,
    raw: Seq<char>,
    args: Map<Seq<char>, Seq<char>>,
) -> Result<Seq<char>, LicenseErrorView> {
    match expanded(spdx, raw, args) {
        Ok(t) => Ok(replaced_from(t, args, 0)),
        Err(e) => Err(e),
    }
}

/// Renders a license text from its template and arguments.
pub fn render_template(spdx: &str, raw: &str, args: &NameMap<String>) -> (r: Result<
    RenderedLicense,
    LicenseError,
>)
    ensures
        match r {
            Ok(l) => l.spdx@ == spdx@ && rendered(spdx@, raw@, args_of(*args)) == Ok::<
                Seq<char>,
                LicenseErrorView,
            >(l.text@),
            Err(e) => rendered(spdx@, raw@, args_of(*args)) == Err::<Seq<char>, LicenseErrorView>(e@),
        },
{
    let expanded = match expand_spdx_template(spdx, raw, args) {
        Ok(t) => t,
        Err(e) => {
            return Err(e);
        },
    };
    let text = replace_angle_placeholders(expanded.as_str(), args);
    Ok(RenderedLicense { spdx: spdx.to_owned(), text })
}

/// What rendering the license with an SPDX identifier gives in a year.
pub open spec fn rendered_license(
    spdx: Seq<char>,
    args: Map<Seq<char>, Seq<char>>,
    year: Seq<char>,
) -> Result<Seq<char>, LicenseErrorView> {
    match spdx_text(spdx) {
        None => Err(LicenseErrorView::UnknownSpdxId { spdx }),
        Some(raw) => rendered(spdx, raw, with_year(raw, args, year)),
    }
}

/// Renders the license with an SPDX identifier.
///
/// `now_secs` is the time, in seconds since the start of 1970: its year is
/// the year of the license where the template wants one and the arguments
/// give none. An identifier without a license gives `UnknownSpdxId`.
pub fn render_spdx_license(spdx: &str, template_args: &NameMap<String>, now_secs: u64) -> (r:
    Result<RenderedLicense, LicenseError>)
    ensures
        match r {
            Ok(l) => l.spdx@ == spdx@ && rendered_license(
                spdx@,
                args_of(*template_args),
                text::decimal(civil((now_secs / 86400) as nat).0),
            ) == Ok::<Seq<char>, LicenseErrorView>(l.text@),
            Err(e) => rendered_license(
                spdx@,
                args_of(*template_args),
                text::decimal(civil((now_secs / 86400) as nat).0),
            ) == Err::<Seq<char>, LicenseErrorView>(e@),
        },
{
    let raw = match license_text(spdx) {
        Some(t) => t,
        None => {
            return Err(LicenseError::UnknownSpdxId { spdx: spdx.to_owned() });
        },
    };
    let mut args = template_args.duplicate();
    assert(args_of(args) =~= args_of(*template_args));
    maybe_insert_current_year(raw, &mut args, current_year_string(now_secs));
    render_template(spdx, raw, &args)
}

} // verus!
