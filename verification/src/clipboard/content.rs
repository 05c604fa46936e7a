//! Validation of captured data, text previews and source metadata.

use vstd::prelude::*;
use vstd::utf8::valid_utf8;
use crate::text::{
    spec_is_control, spec_is_whitespace, spec_char_len, spec_utf8_len, spec_trim, spec_trim_start,
    spec_trim_end, spec_lower_chars, str_chars, string_from_chars, utf8_string, is_control, is_whitespace,
    char_len, trim_chars, lower_chars, chars_equal_str, copy_range,
};
use crate::clipboard::{
    ClipboardContentKind, ClipboardSourceIdentity, MAX_PREVIEW_BYTES, MAX_SOURCE_APP_ID_BYTES,
    MAX_SOURCE_TITLE_BYTES, spec_kind_limit, kind_limit,
};
use crate::clipboard::mime::{spec_mime_kind, mime_kind};
use crate::clipboard::image::{
    spec_png_dimensions, spec_jpeg_dimensions, spec_webp_dimensions,
    spec_valid_image_dimensions, png_dimensions, jpeg_dimensions, webp_dimensions,
    valid_image_dimensions,
};

verus! {

/// One validated representation of a clipboard entry.
#[derive(Clone, Debug)]
pub struct ClipboardRepresentation {
    pub mime_type: String,
    pub data: Vec<u8>,
    pub kind: ClipboardContentKind,
    pub dimensions: Option<(u32, u32)>,
}

/// Declared dimensions of image data of the given (case-insensitive) type,
/// when they are within the retention limits.
pub open spec fn spec_validate_image(mime: Seq<char>, data: Seq<u8>) -> Option<(u32, u32)> {
    let m = spec_lower_chars(mime);
    let dims = if m == "image/png"@ {
        spec_png_dimensions(data)
    } else if m == "image/jpeg"@ || m == "image/jpg"@ {
        spec_jpeg_dimensions(data)
    } else if m == "image/webp"@ {
        spec_webp_dimensions(data)
    } else {
        None
    };
    match dims {
        Some(d) => if spec_valid_image_dimensions(d) {
            Some(d)
        } else {
            None
        },
        None => None,
    }
}

/// Kind and dimensions of `data` offered as `mime`, or `None` when it is not
/// retained: text must be valid UTF-8 without NUL bytes, images must carry
/// valid dimensions, and each kind has its size limit.
pub open spec fn spec_validate(mime: Seq<char>, data: Seq<u8>) -> Option<
    (ClipboardContentKind, Option<(u32, u32)>),
> {
    match spec_mime_kind(mime) {
        None => None,
        Some(kind) => if data.len() > spec_kind_limit(kind) {
            None
        } else if kind == ClipboardContentKind::Text {
            if valid_utf8(data) && !data.contains(0u8) {
                Some((ClipboardContentKind::Text, None))
            } else {
                None
            }
        } else {
            match spec_validate_image(mime, data) {
                Some(d) => Some((ClipboardContentKind::Image, Some(d))),
                None => None,
            }
        },
    }
}

/// Validated dimensions of image data.
pub fn validate_image(mime_type: &str, data: &[u8]) -> (r: Option<(u32, u32)>)
    ensures
        r == spec_validate_image(mime_type@, data@),
{
    let chars = str_chars(mime_type);
    let lower = lower_chars(chars.as_slice());
    let l = lower.as_slice();
    let dims = if chars_equal_str(l, "image/png") {
        png_dimensions(data)
    } else if chars_equal_str(l, "image/jpeg") || chars_equal_str(l, "image/jpg") {
        jpeg_dimensions(data)
    } else if chars_equal_str(l, "image/webp") {
        webp_dimensions(data)
    } else {
        None
    };
    match dims {
        Some(d) => if valid_image_dimensions(d) {
            Some(d)
        } else {
            None
        },
        None => None,
    }
}

pub fn contains_byte(data: &[u8], b: u8) -> (r: bool)
    ensures
        r == data@.contains(b),
{
    let mut i: usize = 0;
    while i < data.len()
        invariant
            i <= data@.len(),
            forall|k: int| 0 <= k < i ==> data@[k] != b,
        decreases data@.len() - i,
    {
        if data[i] == b {
            assert(data@[i as int] == b);
            return true;
        }
        i += 1;
    }
    false
}

/// A retained representation of `data` offered as `mime_type`, when it
/// passes validation.
pub fn validate_representation(mime_type: &str, data: Vec<u8>) -> (r: Option<
    ClipboardRepresentation,
>)
    ensures
        r is Some <==> spec_validate(mime_type@, data@) is Some,
        r matches Some(rep) ==> {
            &&& rep.mime_type@ == mime_type@
            &&& rep.data@ == data@
            &&& (rep.kind, rep.dimensions) == spec_validate(mime_type@, data@)->0
        },
{
    let kind = match mime_kind(mime_type) {
        Some(k) => k,
        None => return None,
    };
    if data.len() > kind_limit(kind) {
        return None;
    }
    let dimensions = match kind {
        ClipboardContentKind::Text => {
            if utf8_string(data.as_slice()).is_none() {
                return None;
            }
            if contains_byte(data.as_slice(), 0) {
                return None;
            }
            None
        },
        ClipboardContentKind::Image => {
            match validate_image(mime_type, data.as_slice()) {
                Some(d) => Some(d),
                None => return None,
            }
        },
    };
    Some(
        ClipboardRepresentation {
            mime_type: mime_type.to_owned(),
            data: data,
            kind: kind,
            dimensions: dimensions,
        },
    )
}

/// Preview state after each character: the text so far, whether white space
/// is pending between words, and whether the byte budget ran out.
pub open spec fn preview_step(state: (Seq<char>, bool, bool), c: char) -> (Seq<char>, bool, bool) {
    let (out, separating, stopped) = state;
    if stopped {
        state
    } else if spec_is_whitespace(c) {
        (out, out.len() > 0, false)
    } else if separating {
        if spec_utf8_len(out) + 1 > MAX_PREVIEW_BYTES {
            (out, separating, true)
        } else if spec_utf8_len(out.push(' ')) + spec_char_len(c) > MAX_PREVIEW_BYTES {
            (out.push(' '), false, true)
        } else {
            (out.push(' ').push(c), false, false)
        }
    } else if spec_utf8_len(out) + spec_char_len(c) > MAX_PREVIEW_BYTES {
        (out, separating, true)
    } else {
        (out.push(c), false, false)
    }
}

pub open spec fn preview_fold(s: Seq<char>) -> (Seq<char>, bool, bool)
    decreases s.len(),
{
    if s.len() == 0 {
        (seq![], false, false)
    } else {
        preview_step(preview_fold(s.drop_last()), s.last())
    }
}

/// The one-line preview of a text: trimmed, each run of white space between
/// words collapsed to one space, cut at the last character that fits in
/// 1024 UTF-8 bytes.
pub open spec fn spec_text_preview(text: Seq<char>) -> Seq<char> {
    preview_fold(spec_trim(text)).0
}

proof fn lemma_utf8_len_push(s: Seq<char>, c: char)
    ensures
        spec_utf8_len(s.push(c)) == spec_utf8_len(s) + spec_char_len(c),
{
    assert(s.push(c).drop_last() =~= s);
}

pub fn text_preview(text: &str) -> (r: String)
    ensures
        r@ == spec_text_preview(text@),
        spec_utf8_len(r@) <= MAX_PREVIEW_BYTES,
{
    let chars = str_chars(text);
    let trimmed = trim_chars(chars.as_slice());
    let ghost t = trimmed@;
    let mut out: Vec<char> = Vec::new();
    let mut out_bytes: usize = 0;
    let mut separating = false;
    let mut stopped = false;
    let mut i: usize = 0;
    while i < trimmed.len()
        invariant
            t == trimmed@,
            i <= t.len(),
            preview_fold(t.take(i as int)) == (out@, separating, stopped),
            out_bytes == spec_utf8_len(out@),
            out_bytes <= MAX_PREVIEW_BYTES,
        decreases t.len() - i,
    {
        let c = trimmed[i];
        assert(t.take(i + 1).drop_last() =~= t.take(i as int));
        assert(t.take(i + 1).last() == c);
        if !stopped {
            if is_whitespace(c) {
                separating = out.len() > 0;
            } else {
                let mut go = true;
                if separating {
                    if out_bytes + 1 > MAX_PREVIEW_BYTES {
                        stopped = true;
                        go = false;
                    } else {
                        proof {
                            lemma_utf8_len_push(out@, ' ');
                        }
                        out.push(' ');
                        out_bytes = out_bytes + 1;
                        separating = false;
                    }
                }
                if go {
                    let w = char_len(c);
                    if out_bytes + w > MAX_PREVIEW_BYTES {
                        stopped = true;
                    } else {
                        proof {
                            lemma_utf8_len_push(out@, c);
                        }
                        out.push(c);
                        out_bytes = out_bytes + w;
                    }
                }
            }
        }
        i += 1;
    }
    assert(t.take(t.len() as int) =~= t);
    string_from_chars(out.as_slice())
}

/// `s` without its control characters.
pub open spec fn remove_controls(s: Seq<char>) -> Seq<char>
    decreases s.len(),
{
    if s.len() == 0 {
        seq![]
    } else if spec_is_control(s.last()) {
        remove_controls(s.drop_last())
    } else {
        remove_controls(s.drop_last()).push(s.last())
    }
}

/// The longest prefix of `s` whose UTF-8 encoding fits in `budget` bytes.
pub open spec fn longest_fit(s: Seq<char>, budget: int) -> Seq<char>
    decreases s.len(),
{
    if s.len() == 0 || spec_utf8_len(s) <= budget {
        s
    } else {
        longest_fit(s.drop_last(), budget)
    }
}

/// Metadata without control characters, trimmed, and cut to `max_bytes`
/// bytes at a character boundary (then trimmed again).
pub open spec fn spec_sanitize(value: Seq<char>, max_bytes: int) -> Seq<char> {
    let v = spec_trim(remove_controls(value));
    if spec_utf8_len(v) <= max_bytes {
        v
    } else {
        spec_trim(longest_fit(v, max_bytes))
    }
}

proof fn lemma_utf8_len_prefix(s: Seq<char>, k: int)
    requires
        0 <= k <= s.len(),
    ensures
        spec_utf8_len(s.take(k)) <= spec_utf8_len(s),
    decreases s.len() - k,
{
    if k < s.len() {
        lemma_utf8_len_prefix(s, k + 1);
        assert(s.take(k + 1).drop_last() =~= s.take(k));
    } else {
        assert(s.take(k) =~= s);
    }
}

proof fn lemma_longest_fit(s: Seq<char>, budget: int, k: int)
    requires
        0 <= k <= s.len(),
        spec_utf8_len(s.take(k)) <= budget,
        k < s.len() ==> spec_utf8_len(s.take(k + 1)) > budget,
    ensures
        longest_fit(s, budget) == s.take(k),
    decreases s.len(),
{
    if k == s.len() {
        assert(s.take(k) =~= s);
    } else {
        lemma_utf8_len_prefix(s, k + 1);
        let d = s.drop_last();
        assert(d.take(k) =~= s.take(k));
        if k < d.len() {
            assert(d.take(k + 1) =~= s.take(k + 1));
        }
        lemma_longest_fit(d, budget, k);
    }
}

/// Number of leading characters of `s` that fit in `budget` UTF-8 bytes,
/// and whether all of them fit.
fn fit_count(s: &[char], budget: usize) -> (r: (usize, bool))
    requires
        budget <= usize::MAX - 4,
    ensures
        r.0 <= s@.len(),
        spec_utf8_len(s@.take(r.0 as int)) <= budget,
        r.0 < s@.len() ==> spec_utf8_len(s@.take(r.0 + 1)) > budget,
        r.1 == (spec_utf8_len(s@) <= budget),
{
    let mut total: usize = 0;
    let mut i: usize = 0;
    while i < s.len()
        invariant
            i <= s@.len(),
            total == spec_utf8_len(s@.take(i as int)),
            total <= budget <= usize::MAX - 4,
        decreases s@.len() - i,
    {
        let w = char_len(s[i]);
        assert(s@.take(i + 1).drop_last() =~= s@.take(i as int));
        if total + w > budget {
            proof {
                lemma_utf8_len_prefix(s@, i + 1);
            }
            return (i, false);
        }
        total = total + w;
        i += 1;
    }
    assert(s@.take(s@.len() as int) =~= s@);
    (i, true)
}

fn remove_control_chars(s: &[char]) -> (r: Vec<char>)
    ensures
        r@ == remove_controls(s@),
{
    let mut r: Vec<char> = Vec::new();
    let mut i: usize = 0;
    while i < s.len()
        invariant
            i <= s@.len(),
            r@ == remove_controls(s@.take(i as int)),
        decreases s@.len() - i,
    {
        assert(s@.take(i + 1).drop_last() =~= s@.take(i as int));
        if !is_control(s[i]) {
            r.push(s[i]);
        }
        i += 1;
    }
    assert(s@.take(s@.len() as int) =~= s@);
    r
}

/// Sanitised metadata text, at most `max_bytes` UTF-8 bytes long.
pub fn sanitize_metadata(value: &str, max_bytes: usize) -> (r: String)
    requires
        max_bytes <= usize::MAX - 4,
    ensures
        r@ == spec_sanitize(value@, max_bytes as int),
{
    let chars = str_chars(value);
    let kept = remove_control_chars(chars.as_slice());
    let v = trim_chars(kept.as_slice());
    let (k, all_fit) = fit_count(v.as_slice(), max_bytes);
    if all_fit {
        return string_from_chars(v.as_slice());
    }
    proof {
        lemma_longest_fit(v@, max_bytes as int, k as int);
    }
    let prefix = copy_range(v.as_slice(), 0, k);
    assert(prefix@ =~= v@.take(k as int));
    let cut = trim_chars(prefix.as_slice());
    string_from_chars(cut.as_slice())
}

/// The sanitised identity as (application id, title), or `None` when both
/// fields end up empty.
pub open spec fn spec_bounded(app_id: Seq<char>, title: Seq<char>) -> Option<
    (Seq<char>, Seq<char>),
> {
    let a = spec_sanitize(app_id, MAX_SOURCE_APP_ID_BYTES as int);
    let t = spec_sanitize(title, MAX_SOURCE_TITLE_BYTES as int);
    if a.len() == 0 && t.len() == 0 {
        None
    } else {
        Some((a, t))
    }
}

proof fn lemma_no_controls(s: Seq<char>)
    ensures
        forall|i: int| 0 <= i < remove_controls(s).len() ==> !spec_is_control(
            #[trigger] remove_controls(s)[i],
        ),
    decreases s.len(),
{
    if s.len() > 0 {
        lemma_no_controls(s.drop_last());
        let r = remove_controls(s.drop_last());
        if !spec_is_control(s.last()) {
            assert forall|i: int| 0 <= i < r.push(s.last()).len() implies !spec_is_control(
                #[trigger] r.push(s.last())[i],
            ) by {
                if i < r.len() {
                    assert(r.push(s.last())[i] == r[i]);
                }
            }
        }
    }
}

proof fn lemma_trim_start_suffix(s: Seq<char>)
    ensures
        spec_trim_start(s).len() <= s.len(),
        spec_trim_start(s) == s.skip(s.len() - spec_trim_start(s).len()),
        spec_trim_start(s).len() > 0 ==> !spec_is_whitespace(spec_trim_start(s)[0]),
    decreases s.len(),
{
    if s.len() > 0 && spec_is_whitespace(s[0]) {
        lemma_trim_start_suffix(s.drop_first());
        let t = spec_trim_start(s.drop_first());
        assert(s.drop_first().skip(s.drop_first().len() - t.len()) =~= s.skip(s.len() - t.len()));
    } else {
        assert(s.skip(0) =~= s);
    }
}

proof fn lemma_trim_end_prefix(s: Seq<char>)
    ensures
        spec_trim_end(s).len() <= s.len(),
        spec_trim_end(s) == s.take(spec_trim_end(s).len() as int),
        spec_trim_end(s).len() > 0 ==> !spec_is_whitespace(spec_trim_end(s).last()),
        s.len() > 0 && !spec_is_whitespace(s[0]) ==> spec_trim_end(s).len() > 0,
    decreases s.len(),
{
    if s.len() > 0 && spec_is_whitespace(s.last()) {
        lemma_trim_end_prefix(s.drop_last());
        let t = spec_trim_end(s.drop_last());
        assert(s.drop_last().take(t.len() as int) =~= s.take(t.len() as int));
        if s.len() > 0 && !spec_is_whitespace(s[0]) {
            if s.len() == 1 {
                assert(s.last() == s[0]);
            } else {
                assert(s.drop_last()[0] == s[0]);
            }
        }
    } else {
        assert(s.take(s.len() as int) =~= s);
    }
}

/// What `spec_trim` keeps of `s`: a contiguous part without white space at
/// either end.
proof fn lemma_trim(s: Seq<char>)
    ensures
        exists|a: int, b: int| 0 <= a <= b <= s.len() && spec_trim(s) == s.subrange(a, b),
        spec_trim(s).len() > 0 ==> !spec_is_whitespace(spec_trim(s)[0]) && !spec_is_whitespace(
            spec_trim(s).last(),
        ),
        s.len() > 0 && !spec_is_whitespace(s[0]) ==> spec_trim(s) == s.take(
            spec_trim(s).len() as int,
        ) && spec_trim(s).len() > 0,
{
    lemma_trim_start_suffix(s);
    let t = spec_trim_start(s);
    lemma_trim_end_prefix(t);
    let r = spec_trim_end(t);
    let a = s.len() - t.len();
    assert(r == s.subrange(a, a + r.len())) by {
        assert(t.take(r.len() as int) =~= s.subrange(a, a + r.len()));
    }
    if r.len() > 0 {
        assert(r[0] == t[0]);
    }
    if s.len() > 0 && !spec_is_whitespace(s[0]) {
        assert(t == s);
    }
}

proof fn lemma_longest_fit_prefix(s: Seq<char>, budget: int)
    requires
        budget >= 0,
    ensures
        longest_fit(s, budget) == s.take(longest_fit(s, budget).len() as int),
        longest_fit(s, budget).len() <= s.len(),
        spec_utf8_len(longest_fit(s, budget)) <= budget,
        s.len() > 0 && spec_char_len(s[0]) <= budget ==> longest_fit(s, budget).len() > 0,
    decreases s.len(),
{
    if s.len() == 0 || spec_utf8_len(s) <= budget {
        assert(s.take(s.len() as int) =~= s);
    } else {
        lemma_longest_fit_prefix(s.drop_last(), budget);
        let f = longest_fit(s.drop_last(), budget);
        assert(s.drop_last().take(f.len() as int) =~= s.take(f.len() as int));
        if s.len() == 1 {
            assert(s.drop_last() =~= Seq::<char>::empty());
            assert(spec_utf8_len(s) == spec_char_len(s[0])) by {
                assert(s.last() == s[0]);
            }
        } else {
            assert(s.drop_last()[0] == s[0]);
        }
    }
}

/// What sanitising keeps of metadata: a prefix of the control-free,
/// trimmed text, itself free of control characters and of white space at
/// either end, within `max_bytes` bytes, and empty only when that text is.
pub proof fn lemma_sanitize(value: Seq<char>, max_bytes: int)
    requires
        max_bytes >= 4,
    ensures
        ({
            let v = spec_trim(remove_controls(value));
            let r = spec_sanitize(value, max_bytes);
            &&& r == v.take(r.len() as int)
            &&& r.len() <= v.len()
            &&& forall|i: int| 0 <= i < r.len() ==> !spec_is_control(#[trigger] r[i])
            &&& r.len() > 0 ==> !spec_is_whitespace(r[0]) && !spec_is_whitespace(r.last())
            &&& spec_utf8_len(r) <= max_bytes
            &&& (r.len() == 0 <==> v.len() == 0)
        }),
{
    let c = remove_controls(value);
    let v = spec_trim(c);
    let r = spec_sanitize(value, max_bytes);
    lemma_no_controls(value);
    lemma_trim(c);
    let (a, b) = choose|a: int, b: int| 0 <= a <= b <= c.len() && v == c.subrange(a, b);
    assert forall|i: int| 0 <= i < v.len() implies !spec_is_control(#[trigger] v[i]) by {
        assert(v[i] == c[a + i]);
    }
    if spec_utf8_len(v) <= max_bytes {
        assert(v.take(v.len() as int) =~= v);
    } else {
        let w = longest_fit(v, max_bytes);
        lemma_longest_fit_prefix(v, max_bytes);
        assert(v.len() > 0);
        assert(spec_char_len(v[0]) <= 4);
        assert(w.len() > 0);
        assert(w[0] == v[0]);
        lemma_trim(w);
        assert(r == w.take(r.len() as int));
        assert(r =~= v.take(r.len() as int));
        assert forall|i: int| 0 <= i < r.len() implies !spec_is_control(#[trigger] r[i]) by {
            assert(r[i] == v[i]);
        }
        lemma_utf8_len_prefix(w, r.len() as int);
    }
}

impl ClipboardSourceIdentity {
    /// The sanitised identity, or `None` when both fields end up empty.
    pub fn bounded(app_id: &str, title: &str) -> (r: Option<Self>)
        ensures
            match r {
                Some(id) => spec_bounded(app_id@, title@) == Some((id.app_id@, id.title@)),
                None => spec_bounded(app_id@, title@) is None,
            },
    {
        let app_id = sanitize_metadata(app_id, MAX_SOURCE_APP_ID_BYTES);
        let title = sanitize_metadata(title, MAX_SOURCE_TITLE_BYTES);
        if app_id.as_str().is_empty() && title.as_str().is_empty() {
            None
        } else {
            Some(ClipboardSourceIdentity { app_id, title })
        }
    }
}

} // verus!
