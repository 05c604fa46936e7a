//! MIME type classification and the choice of representations to capture
//! from an offered selection.

use vstd::prelude::*;
use vstd::utf8::{encode_utf8, is_ascii_chars};
use crate::text::{
    chars_equal_str, chars_start_with, lower_chars, spec_lower_chars, spec_trim, str_chars,
    trim_chars, chars_equal,
};
use crate::clipboard::{
    CaptureRepresentation, ClipboardContentKind, MAX_CAPTURE_REPRESENTATIONS, MAX_MIME_BYTES,
    MAX_OFFERED_MIME_TYPES, spec_kind_limit, kind_limit,
};

verus! {

pub open spec fn starts_with(s: Seq<char>, prefix: Seq<char>) -> bool {
    prefix.len() <= s.len() && s.subrange(0, prefix.len() as int) == prefix
}

/// Capture priority of an ASCII lower-cased MIME type; lower values come first.
pub open spec fn priority_of_lower(m: Seq<char>) -> u8 {
    if m == "image/png"@ {
        0
    } else if m == "image/webp"@ {
        1
    } else if m == "image/jpeg"@ || m == "image/jpg"@ {
        2
    } else if m == "text/plain;charset=utf-8"@ || m == "text/plain;charset=utf8"@ {
        3
    } else if m == "text/plain"@ {
        4
    } else if m == "text/uri-list"@ {
        5
    } else if starts_with(m, "text/plain;"@) {
        6
    } else {
        255
    }
}

/// Capture priority of a MIME type, compared without regard to ASCII case.
pub open spec fn spec_priority(mime: Seq<char>) -> u8 {
    priority_of_lower(spec_lower_chars(mime))
}

/// Content kind of an ASCII lower-cased MIME type.
pub open spec fn kind_of_lower(m: Seq<char>) -> Option<ClipboardContentKind> {
    if m == "text/plain"@ || starts_with(m, "text/plain;"@) || m == "text/uri-list"@ {
        Some(ClipboardContentKind::Text)
    } else if m == "image/png"@ || m == "image/webp"@ || m == "image/jpeg"@ || m
        == "image/jpg"@ {
        Some(ClipboardContentKind::Image)
    } else {
        None
    }
}

/// Content kind of a MIME type after trimming white space and ASCII case.
pub open spec fn spec_mime_kind(mime: Seq<char>) -> Option<ClipboardContentKind> {
    kind_of_lower(spec_lower_chars(spec_trim(mime)))
}

pub open spec fn is_ascii_control(c: char) -> bool {
    (c as u32) < 0x20 || (c as u32) == 0x7f
}

/// An offered MIME type string that is non-empty, at most 256 bytes, ASCII
/// and free of control characters.
pub open spec fn mime_text_ok(m: Seq<char>) -> bool {
    &&& m.len() > 0
    &&& encode_utf8(m).len() <= MAX_MIME_BYTES
    &&& is_ascii_chars(m)
    &&& forall|i: int| 0 <= i < m.len() ==> !is_ascii_control(#[trigger] m[i])
}

pub open spec fn string_views(v: Seq<String>) -> Seq<Seq<char>> {
    v.map_values(|s: String| s@)
}

pub open spec fn pair_views(v: Seq<(String, ClipboardContentKind)>) -> Seq<
    (Seq<char>, ClipboardContentKind),
> {
    v.map_values(|p: (String, ClipboardContentKind)| (p.0@, p.1))
}

/// The first 256 offered types: later offers are never looked at.
pub open spec fn offered_window(offered: Seq<Seq<char>>) -> Seq<Seq<char>> {
    if offered.len() <= MAX_OFFERED_MIME_TYPES {
        offered
    } else {
        offered.take(MAX_OFFERED_MIME_TYPES as int)
    }
}

/// The acceptable types of `offered`, in offer order, with their kinds.
pub open spec fn safe_mimes(offered: Seq<Seq<char>>) -> Seq<(Seq<char>, ClipboardContentKind)>
    decreases offered.len(),
{
    if offered.len() == 0 {
        seq![]
    } else {
        let prev = safe_mimes(offered.drop_last());
        let m = offered.last();
        if mime_text_ok(m) && spec_mime_kind(m) is Some {
            prev.push((m, spec_mime_kind(m)->0))
        } else {
            prev
        }
    }
}

/// The entries of `s` with priority `p`, in the order they came in.
pub open spec fn with_priority(s: Seq<(Seq<char>, ClipboardContentKind)>, p: u8) -> Seq<
    (Seq<char>, ClipboardContentKind),
>
    decreases s.len(),
{
    if s.len() == 0 {
        seq![]
    } else {
        let prev = with_priority(s.drop_last(), p);
        if spec_priority(s.last().0) == p {
            prev.push(s.last())
        } else {
            prev
        }
    }
}

/// A stable sort of `s` by priority: every priority value that
/// `priority_of_lower` can produce, in increasing order.
pub open spec fn by_priority(s: Seq<(Seq<char>, ClipboardContentKind)>) -> Seq<
    (Seq<char>, ClipboardContentKind),
> {
    with_priority(s, 0) + with_priority(s, 1) + with_priority(s, 2) + with_priority(s, 3)
        + with_priority(s, 4) + with_priority(s, 5) + with_priority(s, 6) + with_priority(s, 255)
}

/// The greedy choice over a priority-sorted list: the selected entries, the
/// case-folded types looked at so far, and whether an image was selected.
/// A type whose case-folded form was seen before is skipped, as is a second
/// image; at most four representations are chosen.
pub open spec fn greedy(s: Seq<(Seq<char>, ClipboardContentKind)>) -> (
    Seq<(Seq<char>, ClipboardContentKind)>,
    Set<Seq<char>>,
    bool,
)
    decreases s.len(),
{
    if s.len() == 0 {
        (seq![], Set::empty(), false)
    } else {
        let prev = greedy(s.drop_last());
        let m = s.last().0;
        let key = spec_lower_chars(m);
        let is_image = s.last().1 == ClipboardContentKind::Image;
        if prev.0.len() >= MAX_CAPTURE_REPRESENTATIONS {
            prev
        } else if prev.1.contains(key) || (is_image && prev.2) {
            (prev.0, prev.1.insert(key), prev.2)
        } else {
            (prev.0.push(s.last()), prev.1.insert(key), prev.2 || is_image)
        }
    }
}

/// The representations chosen from the offered MIME types.
pub open spec fn spec_select(offered: Seq<Seq<char>>) -> Seq<(Seq<char>, ClipboardContentKind)> {
    greedy(by_priority(safe_mimes(offered_window(offered)))).0
}

fn priority_of_lower_chars(l: &[char]) -> (p: u8)
    ensures
        p == priority_of_lower(l@),
{
    if chars_equal_str(l, "image/png") {
        0
    } else if chars_equal_str(l, "image/webp") {
        1
    } else if chars_equal_str(l, "image/jpeg") || chars_equal_str(l, "image/jpg") {
        2
    } else if chars_equal_str(l, "text/plain;charset=utf-8") || chars_equal_str(
        l,
        "text/plain;charset=utf8",
    ) {
        3
    } else if chars_equal_str(l, "text/plain") {
        4
    } else if chars_equal_str(l, "text/uri-list") {
        5
    } else {
        let prefix = str_chars("text/plain;");
        if chars_start_with(l, prefix.as_slice()) {
            6
        } else {
            255
        }
    }
}

/// Capture priority of a MIME type (PNG, WebP, JPEG, UTF-8 text, plain
/// text, URI lists, other text; everything else last).
pub fn representation_priority(mime_type: &str) -> (p: u8)
    ensures
        p == spec_priority(mime_type@),
{
    let chars = str_chars(mime_type);
    let lower = lower_chars(chars.as_slice());
    priority_of_lower_chars(lower.as_slice())
}

fn kind_of_lower_chars(l: &[char]) -> (k: Option<ClipboardContentKind>)
    ensures
        k == kind_of_lower(l@),
{
    let prefix = str_chars("text/plain;");
    if chars_equal_str(l, "text/plain") || chars_start_with(l, prefix.as_slice())
        || chars_equal_str(l, "text/uri-list") {
        Some(ClipboardContentKind::Text)
    } else if chars_equal_str(l, "image/png") || chars_equal_str(l, "image/webp")
        || chars_equal_str(l, "image/jpeg") || chars_equal_str(l, "image/jpg") {
        Some(ClipboardContentKind::Image)
    } else {
        None
    }
}

/// Plain text, `text/plain;…` and URI lists are text; PNG, WebP and JPEG are
/// images; nothing else is retained.
pub fn mime_kind(mime_type: &str) -> (k: Option<ClipboardContentKind>)
    ensures
        k == spec_mime_kind(mime_type@),
{
    let chars = str_chars(mime_type);
    let trimmed = trim_chars(chars.as_slice());
    let lower = lower_chars(trimmed.as_slice());
    kind_of_lower_chars(lower.as_slice())
}

fn has_no_ascii_control(chars: &[char]) -> (r: bool)
    ensures
        r == (forall|i: int| 0 <= i < chars@.len() ==> !is_ascii_control(#[trigger] chars@[i])),
{
    let mut i: usize = 0;
    while i < chars.len()
        invariant
            i <= chars@.len(),
            forall|k: int| 0 <= k < i ==> !is_ascii_control(#[trigger] chars@[k]),
        decreases chars@.len() - i,
    {
        let u = chars[i] as u32;
        if u < 0x20 || u == 0x7f {
            assert(is_ascii_control(chars@[i as int]));
            return false;
        }
        i += 1;
    }
    true
}

fn mime_text_acceptable(m: &str) -> (r: bool)
    ensures
        r == mime_text_ok(m@),
{
    if m.is_empty() || !m.is_ascii() {
        return false;
    }
    let chars = str_chars(m);
    proof {
        vstd::utf8::is_ascii_chars_encode_utf8(m@);
    }
    if chars.len() > MAX_MIME_BYTES {
        return false;
    }
    has_no_ascii_control(chars.as_slice())
}

fn collect_safe(offered: &[String]) -> (safe: Vec<(String, ClipboardContentKind)>)
    ensures
        pair_views(safe@) == safe_mimes(offered_window(string_views(offered@))),
{
    let n = if offered.len() <= MAX_OFFERED_MIME_TYPES {
        offered.len()
    } else {
        MAX_OFFERED_MIME_TYPES
    };
    let ghost views = string_views(offered@);
    let mut safe: Vec<(String, ClipboardContentKind)> = Vec::new();
    let mut i: usize = 0;
    while i < n
        invariant
            n <= offered@.len(),
            views == string_views(offered@),
            offered_window(views) == views.take(n as int),
            i <= n,
            pair_views(safe@) == safe_mimes(views.take(i as int)),
        decreases n - i,
    {
        let m = &offered[i];
        assert(views.take(i + 1).drop_last() =~= views.take(i as int));
        assert(views.take(i + 1).last() == m@);
        let kind = mime_kind(m.as_str());
        match kind {
            Some(k) => {
                if mime_text_acceptable(m.as_str()) {
                    safe.push((m.clone(), k));
                    assert(pair_views(safe@) =~= safe_mimes(views.take(i as int)).push((m@, k)));
                }
            },
            None => {},
        }
        i += 1;
    }
    assert(offered_window(views) =~= views.take(n as int));
    safe
}

fn collect_priority(
    safe: &Vec<(String, ClipboardContentKind)>,
    prios: &Vec<u8>,
    p: u8,
) -> (bucket: Vec<(String, ClipboardContentKind)>)
    requires
        prios@.len() == safe@.len(),
        forall|j: int| 0 <= j < safe@.len() ==> prios@[j] == spec_priority(#[trigger] safe@[j].0@),
    ensures
        pair_views(bucket@) == with_priority(pair_views(safe@), p),
{
    let ghost views = pair_views(safe@);
    let mut bucket: Vec<(String, ClipboardContentKind)> = Vec::new();
    let mut j: usize = 0;
    while j < safe.len()
        invariant
            prios@.len() == safe@.len(),
            forall|k: int| 0 <= k < safe@.len() ==> prios@[k] == spec_priority(#[trigger] safe@[k].0@),
            views == pair_views(safe@),
            j <= safe@.len(),
            pair_views(bucket@) == with_priority(views.take(j as int), p),
        decreases safe@.len() - j,
    {
        assert(views.take(j + 1).drop_last() =~= views.take(j as int));
        assert(views.take(j + 1).last() == views[j as int]);
        if prios[j] == p {
            let entry = (safe[j].0.clone(), safe[j].1);
            bucket.push(entry);
            assert(pair_views(bucket@) =~= with_priority(views.take(j as int), p).push(
                views[j as int],
            ));
        }
        j += 1;
    }
    assert(views.take(safe@.len() as int) =~= views);
    bucket
}

fn concat_pairs(
    a: Vec<(String, ClipboardContentKind)>,
    b: Vec<(String, ClipboardContentKind)>,
) -> (r: Vec<(String, ClipboardContentKind)>)
    ensures
        pair_views(r@) == pair_views(a@) + pair_views(b@),
{
    let ghost (va, vb) = (a@, b@);
    let mut r = a;
    let mut rest = b;
    r.append(&mut rest);
    assert(pair_views(r@) =~= pair_views(va) + pair_views(vb));
    r
}

/// A stable sort of `safe` by capture priority.
fn sort_by_priority(safe: &Vec<(String, ClipboardContentKind)>) -> (sorted: Vec<
    (String, ClipboardContentKind),
>)
    ensures
        pair_views(sorted@) == by_priority(pair_views(safe@)),
{
    let mut prios: Vec<u8> = Vec::new();
    let mut i: usize = 0;
    while i < safe.len()
        invariant
            i <= safe@.len(),
            prios@.len() == i,
            forall|j: int| 0 <= j < i ==> prios@[j] == spec_priority(#[trigger] safe@[j].0@),
        decreases safe@.len() - i,
    {
        prios.push(representation_priority(safe[i].0.as_str()));
        i += 1;
    }
    let b0 = collect_priority(safe, &prios, 0);
    let b1 = collect_priority(safe, &prios, 1);
    let b2 = collect_priority(safe, &prios, 2);
    let b3 = collect_priority(safe, &prios, 3);
    let b4 = collect_priority(safe, &prios, 4);
    let b5 = collect_priority(safe, &prios, 5);
    let b6 = collect_priority(safe, &prios, 6);
    let b7 = collect_priority(safe, &prios, 255);
    let s = concat_pairs(b0, b1);
    let s = concat_pairs(s, b2);
    let s = concat_pairs(s, b3);
    let s = concat_pairs(s, b4);
    let s = concat_pairs(s, b5);
    let s = concat_pairs(s, b6);
    concat_pairs(s, b7)
}

pub open spec fn key_views(keys: Seq<Vec<char>>) -> Seq<Seq<char>> {
    keys.map_values(|k: Vec<char>| k@)
}

fn contains_key(keys: &Vec<Vec<char>>, key: &[char]) -> (r: bool)
    ensures
        r == key_views(keys@).contains(key@),
{
    let mut i: usize = 0;
    while i < keys.len()
        invariant
            i <= keys@.len(),
            forall|j: int| 0 <= j < i ==> keys@[j]@ != key@,
        decreases keys@.len() - i,
    {
        if chars_equal(keys[i].as_slice(), key) {
            assert(key_views(keys@)[i as int] == key@);
            return true;
        }
        i += 1;
    }
    assert(!key_views(keys@).contains(key@)) by {
        if key_views(keys@).contains(key@) {
            let j = choose|j: int| 0 <= j < key_views(keys@).len() && key_views(keys@)[j] == key@;
            assert(keys@[j]@ == key@);
        }
    }
    false
}

/// The selected entries of a greedy pass, as capture requests.
pub open spec fn plan_matches(
    plan: Seq<CaptureRepresentation>,
    chosen: Seq<(Seq<char>, ClipboardContentKind)>,
) -> bool {
    &&& plan.len() == chosen.len()
    &&& forall|k: int|
        0 <= k < plan.len() ==> (#[trigger] plan[k]).mime_type@ == chosen[k].0
            && plan[k].max_bytes == spec_kind_limit(chosen[k].1)
}

fn choose_greedy(sorted: &Vec<(String, ClipboardContentKind)>) -> (selected: Vec<
    CaptureRepresentation,
>)
    ensures
        plan_matches(selected@, greedy(pair_views(sorted@)).0),
{
    let ghost views = pair_views(sorted@);
    let mut selected: Vec<CaptureRepresentation> = Vec::new();
    let mut keys: Vec<Vec<char>> = Vec::new();
    let mut image_selected = false;
    let mut i: usize = 0;
    while i < sorted.len()
        invariant
            views == pair_views(sorted@),
            i <= sorted@.len(),
            plan_matches(selected@, greedy(views.take(i as int)).0),
            key_views(keys@).to_set() == greedy(views.take(i as int)).1,
            image_selected == greedy(views.take(i as int)).2,
        decreases sorted@.len() - i,
    {
        let ghost prev = greedy(views.take(i as int));
        assert(views.take(i + 1).drop_last() =~= views.take(i as int));
        assert(views.take(i + 1).last() == views[i as int]);
        if selected.len() < MAX_CAPTURE_REPRESENTATIONS {
            let kind = sorted[i].1;
            let chars = str_chars(sorted[i].0.as_str());
            let key = lower_chars(chars.as_slice());
            let seen = contains_key(&keys, key.as_slice());
            let is_image = kind == ClipboardContentKind::Image;
            if !seen {
                let ghost before = key_views(keys@);
                keys.push(key);
                assert(key_views(keys@) =~= before.push(spec_lower_chars(views[i as int].0)));
                proof {
                    before.lemma_push_to_set_commute(spec_lower_chars(views[i as int].0));
                }
            } else {
                assert(prev.1.insert(spec_lower_chars(views[i as int].0)) =~= prev.1);
            }
            if !(seen || (is_image && image_selected)) {
                image_selected = image_selected || is_image;
                let rep = CaptureRepresentation {
                    mime_type: sorted[i].0.clone(),
                    max_bytes: kind_limit(kind),
                };
                selected.push(rep);
                assert(plan_matches(selected@, prev.0.push(views[i as int])));
            }
        }
        i += 1;
    }
    assert(views.take(sorted@.len() as int) =~= views);
    selected
}

/// Chooses which offered representations to read: acceptable types among the
/// first 256 offered, ordered by priority (offer order among equals), without
/// case-insensitive duplicates, with at most one image and at most four in
/// all. Each request carries the size limit of its kind.
pub fn select_capture_representations(offered: &[String]) -> (plan: Vec<CaptureRepresentation>)
    ensures
        plan_matches(plan@, spec_select(string_views(offered@))),
{
    let safe = collect_safe(offered);
    let sorted = sort_by_priority(&safe);
    choose_greedy(&sorted)
}

} // verus!
