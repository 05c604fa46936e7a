//! Retained clipboard entries: their construction, lookups, content
//! comparison, de-duplication and the eviction policy of the history.

use vstd::prelude::*;
use vstd::utf8::{valid_utf8, decode_utf8, encode_utf8};
use crate::text::{spec_lower_byte, lower_byte, utf8_string, copy_range, str_chars, chars_equal};
use crate::clipboard::{
    ClipboardContentKind, ClipboardOrigin, ClipboardSourceIdentity, MAX_ITEM_BYTES,
};
use crate::clipboard::mime::{spec_priority, representation_priority};
use crate::clipboard::content::{ClipboardRepresentation, spec_text_preview, text_preview};

verus! {

/// A representation as plain values.
pub struct RepView {
    pub mime: Seq<char>,
    pub data: Seq<u8>,
    pub kind: ClipboardContentKind,
    pub dimensions: Option<(u32, u32)>,
}

impl View for ClipboardRepresentation {
    type V = RepView;

    open spec fn view(&self) -> RepView {
        RepView {
            mime: self.mime_type@,
            data: self.data@,
            kind: self.kind,
            dimensions: self.dimensions,
        }
    }
}

pub open spec fn reps_view(v: Seq<ClipboardRepresentation>) -> Seq<RepView> {
    v.map_values(|r: ClipboardRepresentation| r@)
}

pub open spec fn source_view(s: Option<ClipboardSourceIdentity>) -> Option<(Seq<char>, Seq<char>)> {
    match s {
        Some(id) => Some((id.app_id@, id.title@)),
        None => None,
    }
}

/// One entry of the clipboard history.
#[derive(Debug)]
pub struct ClipboardItem {
    pub id: u64,
    pub captured_unix_ms: u64,
    pub origin: ClipboardOrigin,
    pub source: Option<ClipboardSourceIdentity>,
    pub representations: Vec<ClipboardRepresentation>,
    pub kind: ClipboardContentKind,
    pub byte_len: usize,
    pub preview: String,
    pub width: u32,
    pub height: u32,
    pub pinned: bool,
}

/// An entry as plain values.
pub struct ItemView {
    pub id: u64,
    pub captured_unix_ms: u64,
    pub origin: ClipboardOrigin,
    pub source: Option<(Seq<char>, Seq<char>)>,
    pub reps: Seq<RepView>,
    pub kind: ClipboardContentKind,
    pub byte_len: usize,
    pub preview: Seq<char>,
    pub width: u32,
    pub height: u32,
    pub pinned: bool,
}

impl View for ClipboardItem {
    type V = ItemView;

    open spec fn view(&self) -> ItemView {
        ItemView {
            id: self.id,
            captured_unix_ms: self.captured_unix_ms,
            origin: self.origin,
            source: source_view(self.source),
            reps: reps_view(self.representations@),
            kind: self.kind,
            byte_len: self.byte_len,
            preview: self.preview@,
            width: self.width,
            height: self.height,
            pinned: self.pinned,
        }
    }
}

pub open spec fn items_view(v: Seq<ClipboardItem>) -> Seq<ItemView> {
    v.map_values(|i: ClipboardItem| i@)
}

/// Total number of data bytes of a list of representations.
pub open spec fn sum_data(reps: Seq<RepView>) -> int
    decreases reps.len(),
{
    if reps.len() == 0 {
        0
    } else {
        sum_data(reps.drop_last()) + reps.last().data.len()
    }
}

/// Total retained bytes of a list of entries.
pub open spec fn sum_bytes(h: Seq<ItemView>) -> int
    decreases h.len(),
{
    if h.len() == 0 {
        0
    } else {
        h[0].byte_len + sum_bytes(h.drop_first())
    }
}

/// Index of the first element satisfying `p`, or -1.
pub open spec fn first_index<A>(s: Seq<A>, p: spec_fn(A) -> bool) -> int {
    if exists|i: int| is_first(s, p, i) {
        choose|i: int| is_first(s, p, i)
    } else {
        -1
    }
}

pub open spec fn is_first<A>(s: Seq<A>, p: spec_fn(A) -> bool, i: int) -> bool {
    0 <= i < s.len() && p(s[i]) && forall|k: int| 0 <= k < i ==> !p(s[k])
}

/// A list in which some element satisfies `p` has a first such element.
pub proof fn lemma_first_exists<A>(s: Seq<A>, p: spec_fn(A) -> bool, j: int)
    requires
        0 <= j < s.len(),
        p(s[j]),
    ensures
        0 <= first_index(s, p) <= j,
        is_first(s, p, first_index(s, p)),
    decreases j,
{
    if forall|k: int| 0 <= k < j ==> !p(s[k]) {
        assert(is_first(s, p, j));
    } else {
        let k = choose|k: int| 0 <= k < j && p(s[k]);
        lemma_first_exists(s, p, k);
    }
    let f = first_index(s, p);
    if f > j {
        assert(!p(s[j]));
    }
}

proof fn lemma_first_unique<A>(s: Seq<A>, p: spec_fn(A) -> bool, i: int)
    requires
        is_first(s, p, i),
    ensures
        first_index(s, p) == i,
{
    let f = first_index(s, p);
    assert(is_first(s, p, f));
    if f < i {
        assert(!p(s[f]));
    }
    if i < f {
        assert(!p(s[i]));
    }
}

proof fn lemma_first_none<A>(s: Seq<A>, p: spec_fn(A) -> bool)
    requires
        forall|k: int| 0 <= k < s.len() ==> !p(#[trigger] s[k]),
    ensures
        first_index(s, p) == -1,
{
}

pub open spec fn has_id(id: u64) -> spec_fn(ItemView) -> bool {
    |item: ItemView| item.id == id
}

/// Index of the first entry with the given id, or -1.
pub open spec fn index_of_id(h: Seq<ItemView>, id: u64) -> int {
    first_index(h, has_id(id))
}

/// The entry with the given id, if any.
pub open spec fn lookup(h: Seq<ItemView>, id: u64) -> Option<ItemView> {
    if index_of_id(h, id) >= 0 {
        Some(h[index_of_id(h, id)])
    } else {
        None
    }
}

pub open spec fn contains_id(h: Seq<ItemView>, id: u64) -> bool {
    exists|i: int| 0 <= i < h.len() && h[i].id == id
}

/// An id is found exactly when some entry carries it.
pub proof fn lemma_lookup_some(h: Seq<ItemView>, id: u64)
    ensures
        lookup(h, id) is Some <==> contains_id(h, id),
        lookup(h, id) matches Some(item) ==> item.id == id,
{
    if contains_id(h, id) {
        let j = choose|j: int| 0 <= j < h.len() && h[j].id == id;
        lemma_first_exists(h, has_id(id), j);
    } else {
        lemma_first_none(h, has_id(id));
    }
}

/// Finds the first entry with `id`.
pub fn position_of(h: &Vec<ClipboardItem>, id: u64) -> (r: Option<usize>)
    ensures
        match r {
            Some(i) => i as int == index_of_id(items_view(h@), id) && i < h@.len(),
            None => index_of_id(items_view(h@), id) == -1,
        },
{
    let ghost v = items_view(h@);
    let mut i: usize = 0;
    while i < h.len()
        invariant
            v == items_view(h@),
            i <= h@.len(),
            forall|k: int| 0 <= k < i ==> v[k].id != id,
        decreases h@.len() - i,
    {
        if h[i].id == id {
            proof {
                assert(is_first(v, has_id(id), i as int));
                lemma_first_unique(v, has_id(id), i as int);
            }
            return Some(i);
        }
        i += 1;
    }
    proof {
        assert forall|k: int| 0 <= k < v.len() implies !has_id(id)(#[trigger] v[k]) by {}
        lemma_first_none(v, has_id(id));
    }
    None
}

/// Copy of a byte vector.
pub fn copy_bytes(b: &Vec<u8>) -> (r: Vec<u8>)
    ensures
        r@ == b@,
{
    copy_range(b.as_slice(), 0, b.len())
}

pub fn copy_rep(r: &ClipboardRepresentation) -> (c: ClipboardRepresentation)
    ensures
        c@ == r@,
{
    ClipboardRepresentation {
        mime_type: r.mime_type.clone(),
        data: copy_bytes(&r.data),
        kind: r.kind,
        dimensions: r.dimensions,
    }
}

pub fn copy_reps(v: &Vec<ClipboardRepresentation>) -> (c: Vec<ClipboardRepresentation>)
    ensures
        reps_view(c@) == reps_view(v@),
{
    let mut c: Vec<ClipboardRepresentation> = Vec::new();
    let mut i: usize = 0;
    while i < v.len()
        invariant
            i <= v@.len(),
            reps_view(c@) == reps_view(v@).take(i as int),
        decreases v@.len() - i,
    {
        let ghost before = c@;
        let r = copy_rep(&v[i]);
        c.push(r);
        assert(c@ == before.push(r));
        assert(reps_view(c@) =~= reps_view(before).push(v@[i as int]@));
        i += 1;
        assert(reps_view(c@) =~= reps_view(v@).take(i as int));
    }
    assert(reps_view(v@).take(v@.len() as int) =~= reps_view(v@));
    c
}

pub fn copy_source(s: &Option<ClipboardSourceIdentity>) -> (c: Option<ClipboardSourceIdentity>)
    ensures
        source_view(c) == source_view(*s),
{
    match s {
        Some(id) => Some(
            ClipboardSourceIdentity { app_id: id.app_id.clone(), title: id.title.clone() },
        ),
        None => None,
    }
}

pub fn copy_item(item: &ClipboardItem) -> (c: ClipboardItem)
    ensures
        c@ == item@,
{
    ClipboardItem {
        id: item.id,
        captured_unix_ms: item.captured_unix_ms,
        origin: item.origin,
        source: copy_source(&item.source),
        representations: copy_reps(&item.representations),
        kind: item.kind,
        byte_len: item.byte_len,
        preview: item.preview.clone(),
        width: item.width,
        height: item.height,
        pinned: item.pinned,
    }
}

pub fn bytes_equal(a: &[u8], b: &[u8]) -> (r: bool)
    ensures
        r == (a@ == b@),
{
    if a.len() != b.len() {
        return false;
    }
    let mut i: usize = 0;
    while i < a.len()
        invariant
            i <= a@.len() == b@.len(),
            forall|k: int| 0 <= k < i ==> a@[k] == b@[k],
        decreases a@.len() - i,
    {
        if a[i] != b[i] {
            return false;
        }
        i += 1;
    }
    assert(a@ =~= b@);
    true
}

/// Two entries hold the same content when their primary representations
/// have the same kind and the same bytes.
pub open spec fn same_content(a: ItemView, b: ItemView) -> bool {
    a.reps[0].kind == b.reps[0].kind && a.reps[0].data == b.reps[0].data
}

pub fn items_same_content(a: &ClipboardItem, b: &ClipboardItem) -> (r: bool)
    requires
        a@.reps.len() > 0,
        b@.reps.len() > 0,
    ensures
        r == same_content(a@, b@),
{
    let left = &a.representations[0];
    let right = &b.representations[0];
    left.kind == right.kind && bytes_equal(left.data.as_slice(), right.data.as_slice())
}

/// The first text representation, if any.
pub open spec fn first_text_index(reps: Seq<RepView>) -> int {
    first_index(reps, |r: RepView| r.kind == ClipboardContentKind::Text)
}

/// The preview of an entry: that of its first text representation when it
/// is valid UTF-8, else empty.
pub open spec fn spec_item_preview(reps: Seq<RepView>) -> Seq<char> {
    let i = first_text_index(reps);
    if i >= 0 && valid_utf8(reps[i].data) {
        spec_text_preview(decode_utf8(reps[i].data))
    } else {
        seq![]
    }
}

/// The entry built from validated representations (the first is primary).
pub open spec fn spec_make_item(
    id: u64,
    origin: ClipboardOrigin,
    source: Option<(Seq<char>, Seq<char>)>,
    reps: Seq<RepView>,
    pinned: bool,
    now: u64,
) -> ItemView {
    ItemView {
        id,
        captured_unix_ms: now,
        origin,
        source,
        reps,
        kind: reps[0].kind,
        byte_len: sum_data(reps) as usize,
        preview: spec_item_preview(reps),
        width: match reps[0].dimensions {
            Some(d) => d.0,
            None => 0,
        },
        height: match reps[0].dimensions {
            Some(d) => d.1,
            None => 0,
        },
        pinned,
    }
}

/// Reads the system clock (`SystemTime::now`) and gives the milliseconds
/// elapsed since the Unix epoch (`duration_since`, `as_millis`), or zero for
/// a clock set before the epoch. Nothing is promised of the value.
#[verifier::external_body]
fn system_clock_millis() -> (r: u128) {
    match std::time::SystemTime::now().duration_since(std::time::UNIX_EPOCH) {
        Ok(elapsed) => elapsed.as_millis(),
        Err(_) => 0,
    }
}

/// Milliseconds since the Unix epoch by the system clock, saturating at
/// `u64::MAX`.
pub(crate) fn unix_time_millis() -> (r: u64) {
    let millis = system_clock_millis();
    if millis > u64::MAX as u128 {
        u64::MAX
    } else {
        millis as u64
    }
}

fn total_data(reps: &Vec<ClipboardRepresentation>) -> (r: usize)
    requires
        sum_data(reps_view(reps@)) <= MAX_ITEM_BYTES,
    ensures
        r == sum_data(reps_view(reps@)),
{
    let ghost v = reps_view(reps@);
    let mut total: usize = 0;
    let mut i: usize = 0;
    while i < reps.len()
        invariant
            v == reps_view(reps@),
            i <= v.len(),
            sum_data(v) <= MAX_ITEM_BYTES,
            total == sum_data(v.take(i as int)),
        decreases v.len() - i,
    {
        assert(v.take(i + 1).drop_last() =~= v.take(i as int));
        proof {
            lemma_sum_data_prefix(v, i + 1);
        }
        total = total + reps[i].data.len();
        i += 1;
    }
    assert(v.take(v.len() as int) =~= v);
    total
}

proof fn lemma_sum_data_prefix(reps: Seq<RepView>, k: int)
    requires
        0 <= k <= reps.len(),
    ensures
        0 <= sum_data(reps.take(k)) <= sum_data(reps),
    decreases reps.len() - k,
{
    if k < reps.len() {
        lemma_sum_data_prefix(reps, k + 1);
        assert(reps.take(k + 1).drop_last() =~= reps.take(k));
    } else {
        assert(reps.take(k) =~= reps);
    }
    lemma_sum_data_nonneg(reps.take(k));
}

proof fn lemma_sum_data_nonneg(reps: Seq<RepView>)
    ensures
        sum_data(reps) >= 0,
    decreases reps.len(),
{
    if reps.len() > 0 {
        lemma_sum_data_nonneg(reps.drop_last());
    }
}

fn item_preview(reps: &Vec<ClipboardRepresentation>) -> (r: String)
    ensures
        r@ == spec_item_preview(reps_view(reps@)),
{
    let ghost v = reps_view(reps@);
    let ghost p = |r: RepView| r.kind == ClipboardContentKind::Text;
    let mut i: usize = 0;
    while i < reps.len()
        invariant
            v == reps_view(reps@),
            p == (|r: RepView| r.kind == ClipboardContentKind::Text),
            i <= v.len(),
            forall|k: int| 0 <= k < i ==> !p(#[trigger] v[k]),
        decreases v.len() - i,
    {
        if reps[i].kind == ClipboardContentKind::Text {
            proof {
                assert(is_first(v, p, i as int));
                lemma_first_unique(v, p, i as int);
            }
            match utf8_string(reps[i].data.as_slice()) {
                Some(s) => {
                    proof {
                        vstd::utf8::encode_utf8_decode_utf8(s@);
                    }
                    return text_preview(s.as_str());
                },
                None => {
                    return String::new();
                },
            }
        }
        i += 1;
    }
    proof {
        lemma_first_none(v, p);
    }
    String::new()
}

/// Builds an entry; the capture time is read from the system clock.
pub fn make_item(
    id: u64,
    origin: ClipboardOrigin,
    source: Option<ClipboardSourceIdentity>,
    representations: Vec<ClipboardRepresentation>,
    pinned: bool,
    now: u64,
) -> (item: ClipboardItem)
    requires
        representations@.len() > 0,
        sum_data(reps_view(representations@)) <= MAX_ITEM_BYTES,
    ensures
        item@ == spec_make_item(
            id,
            origin,
            source_view(source),
            reps_view(representations@),
            pinned,
            now,
        ),
{
    let byte_len = total_data(&representations);
    let kind = representations[0].kind;
    let (width, height) = match representations[0].dimensions {
        Some(d) => d,
        None => (0, 0),
    };
    let preview = item_preview(&representations);
    ClipboardItem {
        id,
        captured_unix_ms: now,
        origin,
        source,
        representations,
        kind,
        byte_len,
        preview,
        width,
        height,
        pinned,
    }
}

/// Index of the text representation that `text()` reads: the first one of
/// lowest priority, or -1.
pub open spec fn best_text_index(reps: Seq<RepView>) -> int
    decreases reps.len(),
{
    if reps.len() == 0 {
        -1
    } else {
        let prev = best_text_index(reps.drop_last());
        let last = reps.len() - 1;
        if reps[last].kind != ClipboardContentKind::Text {
            prev
        } else if prev < 0 || spec_priority(reps[last].mime) < spec_priority(reps[prev].mime) {
            last
        } else {
            prev
        }
    }
}

proof fn lemma_best_text_range(reps: Seq<RepView>)
    ensures
        -1 <= best_text_index(reps) < reps.len(),
    decreases reps.len(),
{
    if reps.len() > 0 {
        lemma_best_text_range(reps.drop_last());
    }
}

/// The text of an entry: its best text representation decoded, when valid.
pub open spec fn spec_item_text(item: ItemView) -> Option<Seq<char>> {
    let i = best_text_index(item.reps);
    if i >= 0 && valid_utf8(item.reps[i].data) {
        Some(decode_utf8(item.reps[i].data))
    } else {
        None
    }
}

pub fn item_text(item: &ClipboardItem) -> (r: Option<String>)
    ensures
        match r {
            Some(s) => spec_item_text(item@) == Some(s@),
            None => spec_item_text(item@) is None,
        },
{
    let ghost v = item@.reps;
    let mut best: usize = 0;
    let mut best_prio: u8 = 0;
    let mut found = false;
    let mut i: usize = 0;
    while i < item.representations.len()
        invariant
            v == item@.reps,
            i <= v.len(),
            found ==> best < i && best as int == best_text_index(v.take(i as int)) && best_prio
                == spec_priority(v[best as int].mime),
            !found ==> best_text_index(v.take(i as int)) == -1,
        decreases v.len() - i,
    {
        let ghost t = v.take(i + 1);
        assert(t.drop_last() =~= v.take(i as int));
        proof {
            lemma_best_text_range(v.take(i as int));
        }
        if item.representations[i].kind == ClipboardContentKind::Text {
            let prio = representation_priority(item.representations[i].mime_type.as_str());
            if !found || prio < best_prio {
                best = i;
                best_prio = prio;
                found = true;
            }
        }
        i += 1;
    }
    assert(v.take(v.len() as int) =~= v);
    if !found {
        return None;
    }
    match utf8_string(item.representations[best].data.as_slice()) {
        Some(s) => {
            proof {
                vstd::utf8::encode_utf8_decode_utf8(s@);
            }
            Some(s)
        },
        None => None,
    }
}

/// Byte-wise equality after ASCII lower-casing (`eq_ignore_ascii_case`).
pub open spec fn ascii_eq_ignore_case(a: Seq<u8>, b: Seq<u8>) -> bool {
    a.len() == b.len() && forall|i: int|
        0 <= i < a.len() ==> spec_lower_byte(#[trigger] a[i]) == spec_lower_byte(b[i])
}

pub fn str_eq_ignore_ascii_case(a: &str, b: &str) -> (r: bool)
    ensures
        r == ascii_eq_ignore_case(encode_utf8(a@), encode_utf8(b@)),
{
    let x = a.as_bytes();
    let y = b.as_bytes();
    if x.len() != y.len() {
        return false;
    }
    let mut i: usize = 0;
    while i < x.len()
        invariant
            x@ == encode_utf8(a@),
            y@ == encode_utf8(b@),
            i <= x@.len() == y@.len(),
            forall|k: int| 0 <= k < i ==> spec_lower_byte(#[trigger] x@[k]) == spec_lower_byte(y@[k]),
        decreases x@.len() - i,
    {
        if lower_byte(x[i]) != lower_byte(y[i]) {
            return false;
        }
        i += 1;
    }
    true
}

pub open spec fn mime_matches(mime: Seq<char>) -> spec_fn(RepView) -> bool {
    |r: RepView| ascii_eq_ignore_case(encode_utf8(r.mime), encode_utf8(mime))
}

/// The data of an entry's first representation whose type equals `mime`
/// ignoring ASCII case.
pub open spec fn spec_item_data(item: ItemView, mime: Seq<char>) -> Option<Seq<u8>> {
    let i = first_index(item.reps, mime_matches(mime));
    if i >= 0 {
        Some(item.reps[i].data)
    } else {
        None
    }
}

pub fn item_data(item: &ClipboardItem, mime_type: &str) -> (r: Option<Vec<u8>>)
    ensures
        match r {
            Some(d) => spec_item_data(item@, mime_type@) == Some(d@),
            None => spec_item_data(item@, mime_type@) is None,
        },
{
    let ghost v = item@.reps;
    let ghost p = mime_matches(mime_type@);
    let mut i: usize = 0;
    while i < item.representations.len()
        invariant
            v == item@.reps,
            p == mime_matches(mime_type@),
            i <= v.len(),
            forall|k: int| 0 <= k < i ==> !p(#[trigger] v[k]),
        decreases v.len() - i,
    {
        if str_eq_ignore_ascii_case(item.representations[i].mime_type.as_str(), mime_type) {
            proof {
                assert(is_first(v, p, i as int));
                lemma_first_unique(v, p, i as int);
            }
            return Some(copy_bytes(&item.representations[i].data));
        }
        i += 1;
    }
    proof {
        lemma_first_none(v, p);
    }
    None
}

/// Lexicographic order of character sequences; for UTF-8 text this is the
/// byte order in which `String` keys are sorted.
pub open spec fn lex_lt(a: Seq<char>, b: Seq<char>) -> bool
    decreases a.len(),
{
    if a.len() == 0 {
        b.len() > 0
    } else if b.len() == 0 {
        false
    } else if a[0] != b[0] {
        (a[0] as u32) < (b[0] as u32)
    } else {
        lex_lt(a.drop_first(), b.drop_first())
    }
}

proof fn lemma_lex_lt_skip(a: Seq<char>, b: Seq<char>, i: int)
    requires
        0 <= i <= a.len(),
        i <= b.len(),
        forall|k: int| 0 <= k < i ==> a[k] == b[k],
    ensures
        lex_lt(a, b) == lex_lt(a.skip(i), b.skip(i)),
    decreases i,
{
    if i > 0 {
        assert(a.drop_first().skip(i - 1) =~= a.skip(i));
        assert(b.drop_first().skip(i - 1) =~= b.skip(i));
        lemma_lex_lt_skip(a.drop_first(), b.drop_first(), i - 1);
    } else {
        assert(a.skip(0) =~= a);
        assert(b.skip(0) =~= b);
    }
}

pub fn chars_lex_lt(a: &[char], b: &[char]) -> (r: bool)
    ensures
        r == lex_lt(a@, b@),
{
    let mut i: usize = 0;
    while i < a.len() && i < b.len() && a[i] == b[i]
        invariant
            i <= a@.len(),
            i <= b@.len(),
            forall|k: int| 0 <= k < i ==> a@[k] == b@[k],
        decreases a@.len() - i,
    {
        i += 1;
    }
    proof {
        lemma_lex_lt_skip(a@, b@, i as int);
    }
    if i == a.len() {
        i < b.len()
    } else if i == b.len() {
        false
    } else {
        assert(a@.skip(i as int)[0] == a@[i as int]);
        assert(b@.skip(i as int)[0] == b@[i as int]);
        (a[i] as u32) < (b[i] as u32)
    }
}

pub fn strings_equal(a: &str, b: &str) -> (r: bool)
    ensures
        r == (a@ == b@),
{
    let x = str_chars(a);
    let y = str_chars(b);
    chars_equal(x.as_slice(), y.as_slice())
}

/// Insertion into a list kept sorted by MIME type, replacing an entry of the
/// same type, as a map keyed by MIME type stores it.
pub open spec fn map_insert(s: Seq<RepView>, r: RepView) -> Seq<RepView>
    decreases s.len(),
{
    if s.len() == 0 {
        seq![r]
    } else if s.last().mime == r.mime {
        s.drop_last().push(r)
    } else if lex_lt(s.last().mime, r.mime) {
        s.push(r)
    } else {
        map_insert(s.drop_last(), r).push(s.last())
    }
}

pub fn map_insert_rep(v: &mut Vec<ClipboardRepresentation>, r: ClipboardRepresentation)
    ensures
        reps_view(final(v)@) == map_insert(reps_view(old(v)@), r@),
    decreases old(v)@.len(),
{
    let ghost old_view = reps_view(v@);
    if v.len() == 0 {
        v.push(r);
        assert(reps_view(v@) =~= seq![r@]);
        return;
    }
    let n = v.len();
    let last_chars = str_chars(v[n - 1].mime_type.as_str());
    let new_chars = str_chars(r.mime_type.as_str());
    assert(old_view.drop_last() =~= reps_view(v@.drop_last()));
    if chars_equal(last_chars.as_slice(), new_chars.as_slice()) {
        let _ = v.pop();
        v.push(r);
        assert(reps_view(v@) =~= old_view.drop_last().push(r@));
    } else if chars_lex_lt(last_chars.as_slice(), new_chars.as_slice()) {
        v.push(r);
        assert(reps_view(v@) =~= old_view.push(r@));
    } else {
        let last = v.pop().unwrap();
        assert(reps_view(v@) =~= old_view.drop_last());
        map_insert_rep(v, r);
        let ghost mid = reps_view(v@);
        v.push(last);
        assert(reps_view(v@) =~= mid.push(old_view.last()));
    }
}

/// The representations of priority `p`, in the order they came in.
pub open spec fn reps_with_priority(s: Seq<RepView>, p: u8) -> Seq<RepView>
    decreases s.len(),
{
    if s.len() == 0 {
        seq![]
    } else {
        let prev = reps_with_priority(s.drop_last(), p);
        if spec_priority(s.last().mime) == p {
            prev.push(s.last())
        } else {
            prev
        }
    }
}

/// A stable sort of representations by capture priority.
pub open spec fn reps_by_priority(s: Seq<RepView>) -> Seq<RepView> {
    reps_with_priority(s, 0) + reps_with_priority(s, 1) + reps_with_priority(s, 2)
        + reps_with_priority(s, 3) + reps_with_priority(s, 4) + reps_with_priority(s, 5)
        + reps_with_priority(s, 6) + reps_with_priority(s, 255)
}

fn collect_reps_priority(v: &Vec<ClipboardRepresentation>, prios: &Vec<u8>, p: u8) -> (r: Vec<
    ClipboardRepresentation,
>)
    requires
        prios@.len() == v@.len(),
        forall|j: int| 0 <= j < v@.len() ==> prios@[j] == spec_priority(#[trigger] v@[j]@.mime),
    ensures
        reps_view(r@) == reps_with_priority(reps_view(v@), p),
{
    let ghost s = reps_view(v@);
    let mut r: Vec<ClipboardRepresentation> = Vec::new();
    let mut j: usize = 0;
    while j < v.len()
        invariant
            prios@.len() == v@.len(),
            forall|k: int| 0 <= k < v@.len() ==> prios@[k] == spec_priority(#[trigger] v@[k]@.mime),
            s == reps_view(v@),
            j <= s.len(),
            reps_view(r@) == reps_with_priority(s.take(j as int), p),
        decreases s.len() - j,
    {
        assert(s.take(j + 1).drop_last() =~= s.take(j as int));
        assert(s.take(j + 1).last() == s[j as int]);
        if prios[j] == p {
            let ghost before = reps_view(r@);
            r.push(copy_rep(&v[j]));
            assert(reps_view(r@) =~= before.push(s[j as int]));
        }
        j += 1;
    }
    assert(s.take(s.len() as int) =~= s);
    r
}

fn append_reps(a: &mut Vec<ClipboardRepresentation>, b: Vec<ClipboardRepresentation>)
    ensures
        reps_view(final(a)@) == reps_view(old(a)@) + reps_view(b@),
{
    let ghost (va, vb) = (a@, b@);
    let mut rest = b;
    a.append(&mut rest);
    assert(reps_view(a@) =~= reps_view(va) + reps_view(vb));
}

pub fn sort_reps_by_priority(v: &Vec<ClipboardRepresentation>) -> (r: Vec<ClipboardRepresentation>)
    ensures
        reps_view(r@) == reps_by_priority(reps_view(v@)),
{
    let mut prios: Vec<u8> = Vec::new();
    let mut i: usize = 0;
    while i < v.len()
        invariant
            i <= v@.len(),
            prios@.len() == i,
            forall|j: int| 0 <= j < i ==> prios@[j] == spec_priority(#[trigger] v@[j]@.mime),
        decreases v@.len() - i,
    {
        prios.push(representation_priority(v[i].mime_type.as_str()));
        i += 1;
    }
    let mut r = collect_reps_priority(v, &prios, 0);
    append_reps(&mut r, collect_reps_priority(v, &prios, 1));
    append_reps(&mut r, collect_reps_priority(v, &prios, 2));
    append_reps(&mut r, collect_reps_priority(v, &prios, 3));
    append_reps(&mut r, collect_reps_priority(v, &prios, 4));
    append_reps(&mut r, collect_reps_priority(v, &prios, 5));
    append_reps(&mut r, collect_reps_priority(v, &prios, 6));
    append_reps(&mut r, collect_reps_priority(v, &prios, 255));
    r
}

/// The representations kept in order while their running total stays within
/// the per-entry limit, and that total.
pub open spec fn keep_fold(s: Seq<RepView>) -> (Seq<RepView>, int)
    decreases s.len(),
{
    if s.len() == 0 {
        (seq![], 0)
    } else {
        let prev = keep_fold(s.drop_last());
        let next = prev.1 + s.last().data.len();
        if next > MAX_ITEM_BYTES {
            prev
        } else {
            (prev.0.push(s.last()), next)
        }
    }
}

pub proof fn lemma_keep_fold(s: Seq<RepView>)
    ensures
        keep_fold(s).1 == sum_data(keep_fold(s).0),
        0 <= keep_fold(s).1 <= MAX_ITEM_BYTES,
        keep_fold(s).0.len() <= s.len(),
    decreases s.len(),
{
    if s.len() > 0 {
        lemma_keep_fold(s.drop_last());
        let prev = keep_fold(s.drop_last());
        assert(prev.0.push(s.last()).drop_last() =~= prev.0);
    }
}

pub fn keep_within_limit(v: Vec<ClipboardRepresentation>) -> (r: Vec<ClipboardRepresentation>)
    ensures
        reps_view(r@) == keep_fold(reps_view(v@)).0,
        sum_data(reps_view(r@)) <= MAX_ITEM_BYTES,
{
    let ghost s = reps_view(v@);
    let mut r: Vec<ClipboardRepresentation> = Vec::new();
    let mut total: usize = 0;
    let mut i: usize = 0;
    while i < v.len()
        invariant
            s == reps_view(v@),
            i <= s.len(),
            reps_view(r@) == keep_fold(s.take(i as int)).0,
            total == keep_fold(s.take(i as int)).1,
            total <= MAX_ITEM_BYTES,
        decreases s.len() - i,
    {
        assert(s.take(i + 1).drop_last() =~= s.take(i as int));
        assert(s.take(i + 1).last() == s[i as int]);
        let len = v[i].data.len();
        if len <= MAX_ITEM_BYTES - total {
            let ghost before = reps_view(r@);
            r.push(copy_rep(&v[i]));
            assert(reps_view(r@) =~= before.push(s[i as int]));
            total = total + len;
        }
        i += 1;
    }
    assert(s.take(s.len() as int) =~= s);
    proof {
        lemma_keep_fold(s);
    }
    r
}

} // verus!
