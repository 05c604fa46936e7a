//! The engine locale read from a POSIX locale name such as
//! `en_US.UTF-8@euro`.

use vstd::prelude::*;
use crate::engine::{EngineLocale, has_nul, optional_view};
use crate::text::{
    chars_equal_str, lower_chars, spec_lower_char, spec_lower_chars, spec_trim, spec_upper_char,
    str_chars, string_from_chars, trim_chars, upper_char, upper_chars, spec_upper_chars,
};

verus! {

pub open spec fn is_ascii_alpha(c: char) -> bool {
    ('a' <= c && c <= 'z') || ('A' <= c && c <= 'Z')
}

pub open spec fn is_ascii_digit(c: char) -> bool {
    '0' <= c && c <= '9'
}

pub open spec fn all_alpha(s: Seq<char>) -> bool {
    forall|i: int| 0 <= i < s.len() ==> is_ascii_alpha(#[trigger] s[i])
}

pub open spec fn all_ascii_digits(s: Seq<char>) -> bool {
    forall|i: int| 0 <= i < s.len() ==> is_ascii_digit(#[trigger] s[i])
}

pub open spec fn is_part_separator(c: char) -> bool {
    c == '_' || c == '-'
}

/// `s` up to the first `c`, or all of it.
pub open spec fn before_first(s: Seq<char>, c: char) -> Seq<char>
    decreases s.len(),
{
    if s.len() == 0 {
        s
    } else if s[0] == c {
        Seq::empty()
    } else {
        seq![s[0]] + before_first(s.drop_first(), c)
    }
}

/// The pieces of `s` between underscores and hyphens, empty ones included.
pub open spec fn split_parts(s: Seq<char>) -> Seq<Seq<char>>
    decreases s.len(),
{
    if s.len() == 0 {
        seq![Seq::empty()]
    } else {
        let r = split_parts(s.drop_last());
        if is_part_separator(s.last()) {
            r.push(Seq::empty())
        } else {
            r.update(r.len() - 1, r.last().push(s.last()))
        }
    }
}

/// The C and POSIX locales, which name no language.
pub open spec fn is_c_locale(v: Seq<char>) -> bool {
    (v.len() == 1 && spec_lower_char(v[0]) == 'c') || spec_lower_chars(v) == "posix"@ || (v.len()
        >= 2 && spec_upper_char(v[0]) == 'C' && v[1] == '.')
}

pub open spec fn is_script_part(p: Seq<char>) -> bool {
    p.len() == 4 && all_alpha(p)
}

pub open spec fn is_country_part(p: Seq<char>) -> bool {
    (p.len() == 2 && all_alpha(p)) || (p.len() == 3 && all_ascii_digits(p))
}

/// A script code written with a capital first letter.
pub open spec fn title_case(p: Seq<char>) -> Seq<char> {
    seq![spec_upper_char(p[0])] + spec_lower_chars(p.drop_first())
}

/// Script, country and variants found so far.
pub type LocaleFields = (Option<Seq<char>>, Option<Seq<char>>, Seq<Seq<char>>);

/// One part after the language: the first four-letter part is the script,
/// the first two-letter or three-digit part the country, anything else a
/// variant; empty parts are skipped.
pub open spec fn classify_step(st: LocaleFields, part: Seq<char>) -> LocaleFields {
    if part.len() == 0 {
        st
    } else if st.0 is None && is_script_part(part) {
        (Some(title_case(part)), st.1, st.2)
    } else if st.1 is None && is_country_part(part) {
        (st.0, Some(spec_upper_chars(part)), st.2)
    } else {
        (st.0, st.1, st.2.push(part))
    }
}

pub open spec fn classify(parts: Seq<Seq<char>>) -> LocaleFields
    decreases parts.len(),
{
    if parts.len() == 0 {
        (None, None, Seq::empty())
    } else {
        classify_step(classify(parts.drop_last()), parts.last())
    }
}

/// The pieces joined by underscores.
pub open spec fn join_underscore(v: Seq<Seq<char>>) -> Seq<char>
    decreases v.len(),
{
    if v.len() == 0 {
        Seq::empty()
    } else if v.len() == 1 {
        v[0]
    } else {
        join_underscore(v.drop_last()) + seq!['_'] + v.last()
    }
}

/// Chinese without a script takes the script its country uses.
pub open spec fn default_script(language: Seq<char>, country: Option<Seq<char>>) -> Option<
    Seq<char>,
> {
    if language == "zh"@ {
        match country {
            Some(c) => if c == "CN"@ || c == "SG"@ {
                Some("Hans"@)
            } else if c == "TW"@ || c == "HK"@ || c == "MO"@ {
                Some("Hant"@)
            } else {
                None
            },
            None => None,
        }
    } else {
        None
    }
}

pub open spec fn option_has_nul(s: Option<Seq<char>>) -> bool {
    match s {
        Some(v) => has_nul(v),
        None => false,
    }
}

/// Language, country, script and variant read from a POSIX locale name:
/// the name is trimmed; C and POSIX give nothing; the modifier after `@`
/// and the codeset after `.` are dropped; the rest splits at `_` and `-`;
/// the first part, lower-cased, is the language of two or three letters;
/// the other parts are classified; Chinese gets a default script; the
/// variants are joined with `_`; a code holding a NUL byte gives nothing.
pub open spec fn spec_parse_posix_locale(value: Seq<char>) -> Option<
    (Seq<char>, Option<Seq<char>>, Option<Seq<char>>, Option<Seq<char>>),
> {
    let v = spec_trim(value);
    if v.len() == 0 || is_c_locale(v) {
        None
    } else {
        let base = before_first(before_first(v, '@'), '.');
        let parts = split_parts(base);
        let language = spec_lower_chars(parts[0]);
        if !(2 <= language.len() <= 3 && all_alpha(language)) {
            None
        } else {
            let fields = classify(parts.drop_first());
            let script = if language == "zh"@ && fields.0 is None {
                default_script(language, fields.1)
            } else {
                fields.0
            };
            let variant = if fields.2.len() > 0 {
                Some(join_underscore(fields.2))
            } else {
                None
            };
            if has_nul(language) || option_has_nul(fields.1) || option_has_nul(script)
                || option_has_nul(variant) {
                None
            } else {
                Some((language, fields.1, script, variant))
            }
        }
    }
}

pub open spec fn vec_views(v: Seq<Vec<char>>) -> Seq<Seq<char>> {
    v.map_values(|p: Vec<char>| p@)
}

pub open spec fn vec_option_view(o: Option<Vec<char>>) -> Option<Seq<char>> {
    match o {
        Some(v) => Some(v@),
        None => None,
    }
}

fn chars_before_first(s: &[char], c: char) -> (r: Vec<char>)
    ensures
        r@ == before_first(s@, c),
{
    let mut i: usize = 0;
    assert(s@.skip(0) =~= s@);
    assert(s@.take(0) + before_first(s@, c) =~= before_first(s@, c));
    while i < s.len() && s[i] != c
        invariant
            i <= s@.len(),
            before_first(s@, c) == s@.take(i as int) + before_first(s@.skip(i as int), c),
        decreases s@.len() - i,
    {
        proof {
            let rest = s@.skip(i as int);
            assert(rest.drop_first() =~= s@.skip(i + 1));
            assert(s@.take(i + 1) =~= s@.take(i as int) + seq![rest[0]]);
            assert(s@.take(i as int) + before_first(rest, c) =~= s@.take(i + 1) + before_first(
                s@.skip(i + 1),
                c,
            ));
        }
        i += 1;
    }
    proof {
        if i < s.len() {
            assert(s@.skip(i as int)[0] == c);
        } else {
            assert(s@.skip(i as int).len() == 0);
        }
        assert(s@.take(i as int) + before_first(s@.skip(i as int), c) =~= s@.take(i as int));
    }
    let mut r: Vec<char> = Vec::new();
    let mut k: usize = 0;
    while k < i
        invariant
            k <= i <= s@.len(),
            r@ == s@.take(k as int),
        decreases i - k,
    {
        r.push(s[k]);
        proof {
            assert(s@.take(k + 1) =~= s@.take(k as int).push(s@[k as int]));
        }
        k += 1;
    }
    r
}

proof fn lemma_split_nonempty(s: Seq<char>)
    ensures
        split_parts(s).len() >= 1,
    decreases s.len(),
{
    if s.len() > 0 {
        lemma_split_nonempty(s.drop_last());
    }
}

fn split_locale_parts(s: &[char]) -> (r: Vec<Vec<char>>)
    ensures
        vec_views(r@) == split_parts(s@),
        r@.len() >= 1,
{
    let mut done: Vec<Vec<char>> = Vec::new();
    let mut current: Vec<char> = Vec::new();
    let mut i: usize = 0;
    while i < s.len()
        invariant
            i <= s@.len(),
            vec_views(done@).push(current@) == split_parts(s@.take(i as int)),
        decreases s@.len() - i,
    {
        proof {
            assert(s@.take(i + 1).drop_last() =~= s@.take(i as int));
            assert(s@.take(i + 1).last() == s@[i as int]);
            lemma_split_nonempty(s@.take(i as int));
        }
        if s[i] == '_' || s[i] == '-' {
            let ghost old_done = done@;
            done.push(current);
            current = Vec::new();
            proof {
                assert(vec_views(done@) =~= vec_views(old_done).push(
                    split_parts(s@.take(i as int)).last(),
                ));
                assert(vec_views(done@).push(current@) =~= split_parts(s@.take(i + 1)));
            }
        } else {
            let ghost before = current@;
            current.push(s[i]);
            proof {
                assert(vec_views(done@).push(current@) =~= split_parts(s@.take(i + 1)));
            }
        }
        i += 1;
    }
    assert(s@.take(s@.len() as int) =~= s@);
    let ghost old_done = done@;
    done.push(current);
    proof {
        assert(vec_views(done@) =~= vec_views(old_done).push(current@));
    }
    done
}

fn all_alpha_chars(s: &[char]) -> (r: bool)
    ensures
        r == all_alpha(s@),
{
    let mut i: usize = 0;
    while i < s.len()
        invariant
            i <= s@.len(),
            forall|k: int| 0 <= k < i ==> is_ascii_alpha(#[trigger] s@[k]),
        decreases s@.len() - i,
    {
        let c = s[i];
        if !(('a' <= c && c <= 'z') || ('A' <= c && c <= 'Z')) {
            return false;
        }
        i += 1;
    }
    true
}

fn all_digit_chars(s: &[char]) -> (r: bool)
    ensures
        r == all_ascii_digits(s@),
{
    let mut i: usize = 0;
    while i < s.len()
        invariant
            i <= s@.len(),
            forall|k: int| 0 <= k < i ==> is_ascii_digit(#[trigger] s@[k]),
        decreases s@.len() - i,
    {
        let c = s[i];
        if !('0' <= c && c <= '9') {
            return false;
        }
        i += 1;
    }
    true
}

fn c_locale(v: &[char]) -> (r: bool)
    ensures
        r == is_c_locale(v@),
{
    if v.len() == 1 && (v[0] == 'c' || v[0] == 'C') {
        return true;
    }
    let lowered = lower_chars(v);
    if chars_equal_str(lowered.as_slice(), "posix") {
        return true;
    }
    proof {
        if v@.len() == 1 {
            assert(spec_lower_char(v@[0]) == 'c' ==> v@[0] == 'c' || v@[0] == 'C');
        }
    }
    v.len() >= 2 && upper_char(v[0]) == 'C' && v[1] == '.'
}

fn title_case_chars(p: &[char]) -> (r: Vec<char>)
    requires
        p@.len() > 0,
    ensures
        r@ == title_case(p@),
{
    let mut r: Vec<char> = Vec::new();
    r.push(upper_char(p[0]));
    let mut i: usize = 1;
    while i < p.len()
        invariant
            1 <= i <= p@.len(),
            r@ == seq![spec_upper_char(p@[0])] + spec_lower_chars(p@.subrange(1, i as int)),
        decreases p@.len() - i,
    {
        r.push(crate::text::lower_char(p[i]));
        proof {
            assert(spec_lower_chars(p@.subrange(1, i + 1)) =~= spec_lower_chars(
                p@.subrange(1, i as int),
            ).push(spec_lower_char(p@[i as int])));
        }
        i += 1;
    }
    assert(p@.subrange(1, p@.len() as int) =~= p@.drop_first());
    r
}

fn join_parts(v: &Vec<Vec<char>>) -> (r: Vec<char>)
    ensures
        r@ == join_underscore(vec_views(v@)),
{
    let mut r: Vec<char> = Vec::new();
    let mut i: usize = 0;
    while i < v.len()
        invariant
            i <= v@.len(),
            r@ == join_underscore(vec_views(v@.take(i as int))),
        decreases v@.len() - i,
    {
        proof {
            assert(vec_views(v@.take(i + 1)).drop_last() =~= vec_views(v@.take(i as int)));
            assert(vec_views(v@.take(i + 1)).last() == v@[i as int]@);
        }
        if i > 0 {
            r.push('_');
        }
        let part = &v[i];
        let mut k: usize = 0;
        let ghost head = r@;
        while k < part.len()
            invariant
                k <= part@.len(),
                r@ == head + part@.take(k as int),
            decreases part@.len() - k,
        {
            r.push(part[k]);
            proof {
                assert(part@.take(k + 1) =~= part@.take(k as int).push(part@[k as int]));
            }
            k += 1;
        }
        proof {
            assert(part@.take(part@.len() as int) =~= part@);
            if i == 0 {
                assert(vec_views(v@.take(1)) =~= seq![v@[0]@]);
                assert(r@ =~= part@);
            } else {
                assert(r@ =~= join_underscore(vec_views(v@.take(i as int))) + seq!['_'] + part@);
            }
        }
        i += 1;
    }
    assert(v@.take(v@.len() as int) =~= v@);
    r
}

fn chars_string(v: &Option<Vec<char>>) -> (r: Option<String>)
    ensures
        r matches Some(s) ==> v matches Some(c) && s@ == c@,
        r is None <==> v is None,
{
    match v {
        Some(c) => Some(string_from_chars(c.as_slice())),
        None => None,
    }
}

fn as_str_option(v: &Option<String>) -> (r: Option<&str>)
    ensures
        optional_view(r) == match v {
            Some(s) => Some(s@),
            None => None::<Seq<char>>,
        },
{
    match v {
        Some(s) => Some(s.as_str()),
        None => None,
    }
}

fn literal_option(s: &str) -> (r: Option<Vec<char>>)
    ensures
        vec_option_view(r) == Some(s@),
{
    Some(str_chars(s))
}

/// The engine locale for a POSIX locale name, or nothing for C, POSIX and
/// names without a two- or three-letter language.
pub fn parse_posix_locale(value: &str) -> (r: Option<EngineLocale>)
    ensures
        spec_parse_posix_locale(value@) is None ==> r is None,
        spec_parse_posix_locale(value@) matches Some(l) ==> r matches Some(loc) && loc.language_view()
            == l.0 && loc.country_view() == l.1 && loc.script_view() == l.2 && loc.variant_view()
            == l.3,
{
    let chars = str_chars(value);
    let v = trim_chars(chars.as_slice());
    if v.len() == 0 || c_locale(v.as_slice()) {
        return None;
    }
    let without_modifier = chars_before_first(v.as_slice(), '@');
    let base = chars_before_first(without_modifier.as_slice(), '.');
    let parts = split_locale_parts(base.as_slice());
    let ghost pv = vec_views(parts@);
    assert(pv[0] == parts@[0]@);
    let language = lower_chars(parts[0].as_slice());
    if !(2 <= language.len() && language.len() <= 3 && all_alpha_chars(language.as_slice())) {
        return None;
    }
    let mut script: Option<Vec<char>> = None;
    let mut country: Option<Vec<char>> = None;
    let mut variants: Vec<Vec<char>> = Vec::new();
    let mut k: usize = 1;
    assert(pv.subrange(1, 1) =~= Seq::<Seq<char>>::empty());
    while k < parts.len()
        invariant
            1 <= k <= parts@.len(),
            pv == vec_views(parts@),
            (vec_option_view(script), vec_option_view(country), vec_views(variants@)) == classify(
                pv.subrange(1, k as int),
            ),
        decreases parts@.len() - k,
    {
        proof {
            assert(pv.subrange(1, k + 1).drop_last() =~= pv.subrange(1, k as int));
            assert(pv.subrange(1, k + 1).last() == parts@[k as int]@);
        }
        let part = &parts[k];
        if part.len() == 0 {
        } else if script.is_none() && part.len() == 4 && all_alpha_chars(part.as_slice()) {
            script = Some(title_case_chars(part.as_slice()));
        } else if country.is_none() && ((part.len() == 2 && all_alpha_chars(part.as_slice())) || (
        part.len() == 3 && all_digit_chars(part.as_slice()))) {
            country = Some(upper_chars(part.as_slice()));
        } else {
            let ghost old_variants = variants@;
            variants.push(part.clone());
            proof {
                assert(variants@[variants@.len() - 1]@ == part@);
                assert(vec_views(variants@) =~= vec_views(old_variants).push(part@));
            }
        }
        k += 1;
    }
    assert(pv.subrange(1, parts@.len() as int) =~= pv.drop_first());
    if script.is_none() && chars_equal_str(language.as_slice(), "zh") {
        proof {
            reveal_strlit("zh");
        }
        match &country {
            Some(c) => {
                if chars_equal_str(c.as_slice(), "CN") || chars_equal_str(c.as_slice(), "SG") {
                    script = literal_option("Hans");
                } else if chars_equal_str(c.as_slice(), "TW") || chars_equal_str(
                    c.as_slice(),
                    "HK",
                ) || chars_equal_str(c.as_slice(), "MO") {
                    script = literal_option("Hant");
                }
            },
            None => {},
        }
    }
    let variant: Option<Vec<char>> = if variants.len() > 0 {
        Some(join_parts(&variants))
    } else {
        None
    };
    let language_text = string_from_chars(language.as_slice());
    let country_text = chars_string(&country);
    let script_text = chars_string(&script);
    let variant_text = chars_string(&variant);
    match EngineLocale::new(
        language_text.as_str(),
        as_str_option(&country_text),
        as_str_option(&script_text),
        as_str_option(&variant_text),
    ) {
        Ok(locale) => Some(locale),
        Err(_) => None,
    }
}

/// The environment variables read for the locale, most specific first.
pub fn locale_environment_variables() -> (r: Vec<&'static str>)
    ensures
        r@.len() == 3,
        r@[0]@ == "LC_ALL"@,
        r@[1]@ == "LC_MESSAGES"@,
        r@[2]@ == "LANG"@,
{
    let mut r: Vec<&'static str> = Vec::new();
    r.push("LC_ALL");
    r.push("LC_MESSAGES");
    r.push("LANG");
    r
}

/// The first value that names a locale.
pub open spec fn spec_first_locale(values: Seq<Option<Seq<char>>>) -> Option<
    (Seq<char>, Option<Seq<char>>, Option<Seq<char>>, Option<Seq<char>>),
>
    decreases values.len(),
{
    if values.len() == 0 {
        None
    } else {
        match values[0] {
            Some(v) => match spec_parse_posix_locale(v) {
                Some(l) => Some(l),
                None => spec_first_locale(values.drop_first()),
            },
            None => spec_first_locale(values.drop_first()),
        }
    }
}

pub open spec fn string_option_views(v: Seq<Option<String>>) -> Seq<Option<Seq<char>>> {
    v.map_values(
        |o: Option<String>|
            match o {
                Some(s) => Some(s@),
                None => None,
            },
    )
}

/// The locale of the first of the variables' values, in the order of
/// `locale_environment_variables`, that names one.
pub fn locale_from_environment(values: &[Option<String>]) -> (r: Option<EngineLocale>)
    ensures
        spec_first_locale(string_option_views(values@)) is None ==> r is None,
        spec_first_locale(string_option_views(values@)) matches Some(l) ==> r matches Some(loc)
            && loc.language_view() == l.0 && loc.country_view() == l.1 && loc.script_view()
            == l.2 && loc.variant_view() == l.3,
{
    let ghost vs = string_option_views(values@);
    let mut i: usize = 0;
    assert(vs.skip(0) =~= vs);
    while i < values.len()
        invariant
            i <= values@.len(),
            vs == string_option_views(values@),
            spec_first_locale(vs) == spec_first_locale(vs.skip(i as int)),
        decreases values@.len() - i,
    {
        proof {
            assert(vs.skip(i as int).drop_first() =~= vs.skip(i + 1));
            assert(vs.skip(i as int)[0] == vs[i as int]);
        }
        match &values[i] {
            Some(v) => {
                let parsed = parse_posix_locale(v.as_str());
                if parsed.is_some() {
                    return parsed;
                }
            },
            None => {},
        }
        i += 1;
    }
    proof {
        assert(vs.skip(i as int).len() == 0);
    }
    None
}

/// Whether the locale name writes a script: a four-letter part after the
/// language, before any codeset or modifier.
pub open spec fn names_script(value: Seq<char>) -> bool {
    let parts = split_parts(before_first(before_first(spec_trim(value), '@'), '.'));
    exists|i: int| 1 <= i < parts.len() && is_script_part(#[trigger] parts[i])
}

proof fn lemma_split_parts_nonempty(s: Seq<char>)
    ensures
        split_parts(s).len() >= 1,
    decreases s.len(),
{
    if s.len() > 0 {
        lemma_split_parts_nonempty(s.drop_last());
    }
}

proof fn lemma_classify_script(parts: Seq<Seq<char>>)
    ensures
        classify(parts).0 is Some <==> exists|i: int|
            0 <= i < parts.len() && is_script_part(#[trigger] parts[i]),
    decreases parts.len(),
{
    if parts.len() > 0 {
        let d = parts.drop_last();
        lemma_classify_script(d);
        if exists|i: int| 0 <= i < d.len() && is_script_part(#[trigger] d[i]) {
            let i = choose|i: int| 0 <= i < d.len() && is_script_part(#[trigger] d[i]);
            assert(parts[i] == d[i]);
        }
        if exists|i: int| 0 <= i < parts.len() && is_script_part(#[trigger] parts[i]) {
            let i = choose|i: int| 0 <= i < parts.len() && is_script_part(#[trigger] parts[i]);
            if i < d.len() {
                assert(d[i] == parts[i]);
            }
        }
    }
}

/// Chinese written without a script gets the script its country uses:
/// Simplified (`Hans`) for mainland China and Singapore, Traditional
/// (`Hant`) for Taiwan, Hong Kong and Macau, and none for another or no
/// country. No other language gets a script it does not write, and a
/// script that the name writes is kept.
pub proof fn law_chinese_script_follows_country(value: Seq<char>)
    ensures
        spec_parse_posix_locale(value) matches Some(l) ==> {
            &&& l.0 == "zh"@ && !names_script(value) && (l.1 == Some("CN"@) || l.1 == Some(
                "SG"@,
            )) ==> l.2 == Some("Hans"@)
            &&& l.0 == "zh"@ && !names_script(value) && (l.1 == Some("TW"@) || l.1 == Some("HK"@)
                || l.1 == Some("MO"@)) ==> l.2 == Some("Hant"@)
            &&& l.0 == "zh"@ && !names_script(value) && !(l.1 == Some("CN"@) || l.1 == Some(
                "SG"@,
            ) || l.1 == Some("TW"@) || l.1 == Some("HK"@) || l.1 == Some("MO"@)) ==> l.2 is None
            &&& l.0 != "zh"@ && !names_script(value) ==> l.2 is None
            &&& names_script(value) ==> l.2 is Some
        },
{
    let v = spec_trim(value);
    let parts = split_parts(before_first(before_first(v, '@'), '.'));
    lemma_split_parts_nonempty(before_first(before_first(v, '@'), '.'));
    if spec_parse_posix_locale(value) is Some {
        let rest = parts.drop_first();
        let language = spec_lower_chars(parts[0]);
        let fields = classify(rest);
        let l = spec_parse_posix_locale(value)->0;
        assert(l.0 == language);
        assert(l.1 == fields.1);
        lemma_classify_script(rest);
        if names_script(value) {
            let i = choose|i: int| 1 <= i < parts.len() && is_script_part(#[trigger] parts[i]);
            assert(rest[i - 1] == parts[i]);
            assert(fields.0 is Some);
        }
        if fields.0 is Some {
            let k = choose|k: int| 0 <= k < rest.len() && is_script_part(#[trigger] rest[k]);
            assert(parts[k + 1] == rest[k]);
            assert(names_script(value));
        }
        if !names_script(value) {
            assert(fields.0 is None);
            if language == "zh"@ {
                assert(l.2 == default_script(language, fields.1));
                if l.1 == Some("CN"@) || l.1 == Some("SG"@) {
                    assert(l.2 == Some("Hans"@));
                }
                if l.1 == Some("TW"@) || l.1 == Some("HK"@) || l.1 == Some("MO"@) {
                    reveal_strlit("CN");
                    reveal_strlit("SG");
                    reveal_strlit("TW");
                    reveal_strlit("HK");
                    reveal_strlit("MO");
                    assert("CN"@[0] != "TW"@[0] && "CN"@[0] != "HK"@[0] && "CN"@[0] != "MO"@[0]);
                    assert("SG"@[0] != "TW"@[0] && "SG"@[0] != "HK"@[0] && "SG"@[0] != "MO"@[0]);
                    assert(l.2 == Some("Hant"@));
                }
            } else {
                assert(l.2 is None);
            }
        } else {
            assert(l.2 == fields.0);
            assert(l.2 is Some);
        }
    }
}

/// Whether `s` is made of lower-case ASCII letters.
pub open spec fn all_lower_ascii(s: Seq<char>) -> bool {
    forall|i: int| 0 <= i < s.len() ==> 'a' <= #[trigger] s[i] && s[i] <= 'z'
}

/// Whether `s` is a country code: two upper-case ASCII letters or three
/// digits.
pub open spec fn country_code(s: Seq<char>) -> bool {
    (s.len() == 2 && forall|i: int| 0 <= i < 2 ==> 'A' <= #[trigger] s[i] && s[i] <= 'Z') || (
    s.len() == 3 && all_ascii_digits(s))
}

proof fn lemma_classify_country(parts: Seq<Seq<char>>)
    ensures
        classify(parts).1 matches Some(c) ==> country_code(c),
    decreases parts.len(),
{
    if parts.len() > 0 {
        lemma_classify_country(parts.drop_last());
        let st = classify(parts.drop_last());
        let part = parts.last();
        if part.len() != 0 && !(st.0 is None && is_script_part(part)) && st.1 is None
            && is_country_part(part) {
            let c = spec_upper_chars(part);
            if part.len() == 2 {
                assert forall|i: int| 0 <= i < 2 implies 'A' <= #[trigger] c[i] && c[i] <= 'Z' by {
                    assert(is_ascii_alpha(part[i]));
                }
            } else {
                assert forall|i: int| 0 <= i < c.len() implies is_ascii_digit(#[trigger] c[i]) by {
                    assert(is_ascii_digit(part[i]));
                }
            }
        }
    }
}

/// C and POSIX name no language. Any other locale that is read has a
/// language of two or three lower-case ASCII letters and, when it has a
/// country, a code of two upper-case letters or three digits, whatever case
/// the name was written in.
pub proof fn law_locale_codes_are_normalised(value: Seq<char>)
    ensures
        is_c_locale(spec_trim(value)) ==> spec_parse_posix_locale(value) is None,
        spec_parse_posix_locale(value) matches Some(l) ==> 2 <= l.0.len() <= 3 && all_lower_ascii(
            l.0,
        ),
        spec_parse_posix_locale(value) matches Some(l) ==> (l.1 matches Some(c) ==> country_code(
            c,
        )),
{
    let v = spec_trim(value);
    let parts = split_parts(before_first(before_first(v, '@'), '.'));
    lemma_split_parts_nonempty(before_first(before_first(v, '@'), '.'));
    if spec_parse_posix_locale(value) is Some {
        let language = spec_lower_chars(parts[0]);
        assert forall|i: int| 0 <= i < language.len() implies 'a' <= #[trigger] language[i]
            && language[i] <= 'z' by {
            assert(is_ascii_alpha(language[i]));
        }
        lemma_classify_country(parts.drop_first());
    }
}

/// The locale comes from the first value that names one: that value is
/// present and parses to the locale, and no value before it names one.
/// When no value names a locale there is none.
pub proof fn law_first_named_locale_wins(values: Seq<Option<Seq<char>>>)
    ensures
        spec_first_locale(values) matches Some(l) ==> exists|i: int|
            0 <= i < values.len() && (#[trigger] values[i] matches Some(v)
                && spec_parse_posix_locale(v) == Some(l)) && forall|j: int|
                0 <= j < i ==> !(#[trigger] values[j] matches Some(w)
                    && spec_parse_posix_locale(w) is Some),
        spec_first_locale(values) is None ==> forall|j: int|
            0 <= j < values.len() ==> !(#[trigger] values[j] matches Some(w)
                && spec_parse_posix_locale(w) is Some),
    decreases values.len(),
{
    if values.len() > 0 {
        let rest = values.drop_first();
        law_first_named_locale_wins(rest);
        let first_names = values[0] matches Some(v) && spec_parse_posix_locale(v) is Some;
        if !first_names {
            if spec_first_locale(values) is Some {
                let i = choose|i: int|
                    0 <= i < rest.len() && (#[trigger] rest[i] matches Some(v)
                        && spec_parse_posix_locale(v) == Some(spec_first_locale(values)->0))
                        && forall|j: int|
                        0 <= j < i ==> !(#[trigger] rest[j] matches Some(w)
                            && spec_parse_posix_locale(w) is Some);
                assert(values[i + 1] == rest[i]);
                assert forall|j: int| 0 <= j < i + 1 implies !(#[trigger] values[j] matches Some(w)
                    && spec_parse_posix_locale(w) is Some) by {
                    if j > 0 {
                        assert(values[j] == rest[j - 1]);
                    }
                }
            } else {
                assert forall|j: int| 0 <= j < values.len() implies !(#[trigger] values[j] matches Some(
                    w,
                ) && spec_parse_posix_locale(w) is Some) by {
                    if j > 0 {
                        assert(values[j] == rest[j - 1]);
                    }
                }
            }
        }
    }
}

} // verus!
