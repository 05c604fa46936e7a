//! The clipboard history state machine: selection ownership, capture,
//! retention limits and the control requests of the Flutter shell.

use vstd::prelude::*;
use crate::clipboard::{
    ClipboardContentKind, ClipboardAction, ClipboardError, ClipboardDragPayload, MAX_TEXT_BYTES,
    MAX_IMAGE_BYTES, ClipboardOrigin, ClipboardSourceIdentity, ClipboardCapturePlan,
    MAX_HISTORY_BYTES, MAX_HISTORY_ITEMS, MAX_ITEM_BYTES,
};
use crate::clipboard::content::{
    ClipboardRepresentation, spec_validate, validate_representation, spec_bounded,
};
use crate::clipboard::mime::{spec_select, string_views, plan_matches, select_capture_representations};
use crate::clipboard::history::{
    ClipboardItem, ItemView, RepView, items_view, reps_view, source_view, sum_bytes, sum_data,
    contains_id, copy_item, items_same_content, same_content, first_index, is_first,
    lemma_first_exists, map_insert, map_insert_rep, reps_by_priority, sort_reps_by_priority,
    keep_fold, keep_within_limit, spec_make_item, make_item, strings_equal, position_of,
    index_of_id, lemma_lookup_some, lookup, spec_item_text, item_text, spec_item_data, item_data,
    copy_bytes,
};
use crate::text::{copy_range, contains_seq, folded, fold, str_chars, chars_contain};
use crate::clipboard::protocol::{
    ClipboardRequest, RequestModel, request_model, spec_decode_request, decode_request,
    spec_encode_ack, spec_encode_error, spec_encode_data, encode_ack, encode_error, encode_data,
    header_bytes, le16_bytes, le32_bytes, le64_bytes, string_field, encode_header, put_u8, put_u16,
    put_u32, put_u64, put_string, RESPONSE_SNAPSHOT,
};
use crate::clipboard::STATUS_OK;
use vstd::utf8::encode_utf8;

verus! {

/// Who owns the live selection, and which history entry it corresponds to.
#[derive(Clone, Copy, Debug, PartialEq, Eq, Structural)]
pub enum CurrentSelection {
    Unowned,
    External { epoch: u64, history_item_id: Option<u64> },
    Managed { epoch: u64, item_id: u64 },
}

/// A capture in progress: the types still to be read and the valid
/// representations read so far, ordered by MIME type.
#[derive(Debug)]
pub struct PendingCapture {
    pub epoch: u64,
    pub origin: ClipboardOrigin,
    pub source: Option<ClipboardSourceIdentity>,
    pub remaining: Vec<String>,
    pub representations: Vec<ClipboardRepresentation>,
}

pub struct PendingView {
    pub epoch: u64,
    pub origin: ClipboardOrigin,
    pub source: Option<(Seq<char>, Seq<char>)>,
    pub remaining: Seq<Seq<char>>,
    pub reps: Seq<RepView>,
}

impl View for PendingCapture {
    type V = PendingView;

    open spec fn view(&self) -> PendingView {
        PendingView {
            epoch: self.epoch,
            origin: self.origin,
            source: source_view(self.source),
            remaining: self.remaining@.map_values(|s: String| s@),
            reps: reps_view(self.representations@),
        }
    }
}

/// The clipboard state as plain values.
pub struct ClipboardModel {
    pub revision: u64,
    pub next_item_id: u64,
    pub next_epoch: u64,
    pub paused: bool,
    pub locked: bool,
    pub history: Seq<ItemView>,
    pub history_bytes: usize,
    pub current: CurrentSelection,
    pub managed: Option<ItemView>,
    pub pending: Option<PendingView>,
    pub actions: Seq<ClipboardAction>,
}

/// An entry that can be retained: it has a primary representation and fits
/// the per-entry limit.
pub open spec fn item_ok(item: ItemView) -> bool {
    item.reps.len() > 0 && item.byte_len <= MAX_ITEM_BYTES
}

impl ClipboardModel {
    /// The invariant of the clipboard state.
    pub open spec fn wf(self) -> bool {
        &&& self.revision >= 1
        &&& self.next_item_id >= 1
        &&& self.next_epoch >= 1
        &&& self.history.len() <= MAX_HISTORY_ITEMS
        &&& self.history_bytes == sum_bytes(self.history)
        &&& self.history_bytes <= MAX_HISTORY_BYTES
        &&& forall|i: int| 0 <= i < self.history.len() ==> item_ok(#[trigger] self.history[i])
        &&& self.current matches CurrentSelection::External { history_item_id: Some(id), .. }
            ==> contains_id(self.history, id)
        &&& ids_nonzero(self.history)
        &&& self.managed matches Some(item) ==> item.id != 0
    }
}

/// No entry has the identifier zero.
pub open spec fn ids_nonzero(h: Seq<ItemView>) -> bool {
    forall|i: int| 0 <= i < h.len() ==> (#[trigger] h[i]).id != 0
}

/// The successor of a counter that never takes the value zero.
pub open spec fn next_nonzero(v: u64) -> u64 {
    if v == u64::MAX {
        1
    } else {
        (v + 1) as u64
    }
}

fn bump(v: u64) -> (r: u64)
    ensures
        r == next_nonzero(v),
{
    if v == u64::MAX {
        1
    } else {
        v + 1
    }
}

/// Index of the newest unpinned entry counted from the end, or -1.
pub open spec fn last_unpinned(h: Seq<ItemView>) -> int
    decreases h.len(),
{
    if h.len() == 0 {
        -1
    } else if !h.last().pinned {
        h.len() - 1
    } else {
        last_unpinned(h.drop_last())
    }
}

pub proof fn lemma_last_unpinned_range(h: Seq<ItemView>)
    ensures
        -1 <= last_unpinned(h) < h.len(),
        last_unpinned(h) >= 0 ==> !h[last_unpinned(h)].pinned,
        last_unpinned(h) < 0 ==> forall|i: int| 0 <= i < h.len() ==> (#[trigger] h[i]).pinned,
    decreases h.len(),
{
    if h.len() > 0 {
        lemma_last_unpinned_range(h.drop_last());
        if h.last().pinned {
            assert forall|i: int| 0 <= i < h.len() - 1 implies h[i] == h.drop_last()[i] by {}
        }
    }
}

/// The entry evicted next: the oldest unpinned one, or the oldest of all
/// when every entry is pinned.
pub open spec fn victim(h: Seq<ItemView>) -> int {
    if last_unpinned(h) >= 0 {
        last_unpinned(h)
    } else {
        h.len() - 1
    }
}

/// A selection that referenced the entry `id` no longer references it.
pub open spec fn forget_entry(cur: CurrentSelection, id: u64) -> CurrentSelection {
    match cur {
        CurrentSelection::External { epoch, history_item_id: Some(h) } => if h == id {
            CurrentSelection::External { epoch, history_item_id: None }
        } else {
            cur
        },
        _ => cur,
    }
}

pub open spec fn over_limits(h: Seq<ItemView>, max_items: int, max_bytes: int) -> bool {
    h.len() > max_items || sum_bytes(h) > max_bytes
}

/// Evicts entries until the history fits both limits.
pub open spec fn evict(h: Seq<ItemView>, cur: CurrentSelection, max_items: int, max_bytes: int) -> (
    Seq<ItemView>,
    CurrentSelection,
)
    decreases h.len(),
{
    if h.len() > 0 && over_limits(h, max_items, max_bytes) {
        proof {
            lemma_last_unpinned_range(h);
        }
        let v = victim(h);
        evict(h.remove(v), forget_entry(cur, h[v].id), max_items, max_bytes)
    } else {
        (h, cur)
    }
}

pub proof fn lemma_sum_bytes_nonneg(h: Seq<ItemView>)
    ensures
        sum_bytes(h) >= 0,
    decreases h.len(),
{
    if h.len() > 0 {
        lemma_sum_bytes_nonneg(h.drop_first());
    }
}

pub proof fn lemma_sum_bytes_bound(h: Seq<ItemView>)
    requires
        forall|i: int| 0 <= i < h.len() ==> item_ok(#[trigger] h[i]),
    ensures
        0 <= sum_bytes(h) <= h.len() * MAX_ITEM_BYTES,
    decreases h.len(),
{
    if h.len() > 0 {
        assert(item_ok(h[0]));
        assert forall|i: int| 0 <= i < h.len() - 1 implies item_ok(#[trigger] h.drop_first()[i]) by {
            assert(item_ok(h[i + 1]));
        }
        lemma_sum_bytes_bound(h.drop_first());
    }
}

pub proof fn lemma_sum_bytes_remove(h: Seq<ItemView>, i: int)
    requires
        0 <= i < h.len(),
    ensures
        sum_bytes(h.remove(i)) == sum_bytes(h) - h[i].byte_len,
    decreases i,
{
    if i == 0 {
        assert(h.remove(0) =~= h.drop_first());
    } else {
        assert(h.remove(i).drop_first() =~= h.drop_first().remove(i - 1));
        lemma_sum_bytes_remove(h.drop_first(), i - 1);
    }
}

/// Eviction leaves both limits met, keeps only entries it was given, and
/// leaves no reference to an evicted entry.
pub proof fn lemma_evict(h: Seq<ItemView>, cur: CurrentSelection, max_items: int, max_bytes: int)
    requires
        max_items >= 0,
        max_bytes >= 0,
    ensures
        evict(h, cur, max_items, max_bytes).0.len() <= max_items,
        sum_bytes(evict(h, cur, max_items, max_bytes).0) <= max_bytes,
        evict(h, cur, max_items, max_bytes).0.len() <= h.len(),
        forall|x: ItemView| evict(h, cur, max_items, max_bytes).0.contains(x) ==> h.contains(x),
        cur matches CurrentSelection::External { history_item_id: Some(id), .. } && contains_id(h, id)
            ==> ({
            let c = evict(h, cur, max_items, max_bytes).1;
            c matches CurrentSelection::External { history_item_id: Some(k), .. } ==> contains_id(
                evict(h, cur, max_items, max_bytes).0,
                k,
            )
        }),
        evict(h, cur, max_items, max_bytes).1 matches CurrentSelection::External {
            history_item_id: Some(k),
            ..
        } ==> cur matches CurrentSelection::External { history_item_id: Some(j), .. } && j == k,
        (evict(h, cur, max_items, max_bytes).1 is External) == (cur is External),
        (evict(h, cur, max_items, max_bytes).1 is Managed) == (cur is Managed),
        cur is Managed ==> evict(h, cur, max_items, max_bytes).1 == cur,
        cur is Unowned ==> evict(h, cur, max_items, max_bytes).1 == cur,
        cur matches CurrentSelection::External { epoch, .. } ==> evict(
            h,
            cur,
            max_items,
            max_bytes,
        ).1 matches CurrentSelection::External { epoch: e2, .. } && e2 == epoch,
    decreases h.len(),
{
    if h.len() > 0 && over_limits(h, max_items, max_bytes) {
        lemma_last_unpinned_range(h);
        let v = victim(h);
        let h2 = h.remove(v);
        let c2 = forget_entry(cur, h[v].id);
        lemma_evict(h2, c2, max_items, max_bytes);
        assert forall|x: ItemView| h2.contains(x) implies h.contains(x) by {
            let k = choose|k: int| 0 <= k < h2.len() && h2[k] == x;
            if k < v {
                assert(h[k] == x);
            } else {
                assert(h[k + 1] == x);
            }
        }
        if let CurrentSelection::External { history_item_id: Some(id), .. } = cur {
            if contains_id(h, id) && id != h[v].id {
                let k = choose|k: int| 0 <= k < h.len() && h[k].id == id;
                if k < v {
                    assert(h2[k].id == id);
                } else {
                    assert(k != v);
                    assert(h2[k - 1].id == id);
                }
            }
        }
    } else {
        if h.len() == 0 {
            assert(sum_bytes(h) == 0);
        }
    }
}

/// Removes the first entry whose primary content equals that of `item`,
/// where it is the newest entry, keeping its id and pin; then puts the
/// entry first and evicts. Returns the new history, the selection and the
/// entry as stored.
pub open spec fn spec_insert(h: Seq<ItemView>, cur: CurrentSelection, item: ItemView) -> (
    Seq<ItemView>,
    CurrentSelection,
    ItemView,
) {
    let (rest, stored) = if h.len() > 0 && same_content(h[0], item) {
        (h.drop_first(), ItemView { id: h[0].id, pinned: h[0].pinned, ..item })
    } else {
        (h, item)
    };
    let (h2, cur2) = evict(
        seq![stored] + rest,
        cur,
        MAX_HISTORY_ITEMS as int,
        MAX_HISTORY_BYTES as int,
    );
    (h2, cur2, stored)
}

/// The clipboard history and selection state.
pub struct ClipboardManager {
    revision: u64,
    next_item_id: u64,
    next_epoch: u64,
    paused: bool,
    locked: bool,
    history: Vec<ClipboardItem>,
    history_bytes: usize,
    current: CurrentSelection,
    managed: Option<ClipboardItem>,
    pending_capture: Option<PendingCapture>,
    actions: Vec<ClipboardAction>,
}

pub open spec fn opt_item_view(i: Option<ClipboardItem>) -> Option<ItemView> {
    match i {
        Some(item) => Some(item@),
        None => None,
    }
}

pub open spec fn opt_pending_view(p: Option<PendingCapture>) -> Option<PendingView> {
    match p {
        Some(c) => Some(c@),
        None => None,
    }
}

impl View for ClipboardManager {
    type V = ClipboardModel;

    closed spec fn view(&self) -> ClipboardModel {
        ClipboardModel {
            revision: self.revision,
            next_item_id: self.next_item_id,
            next_epoch: self.next_epoch,
            paused: self.paused,
            locked: self.locked,
            history: items_view(self.history@),
            history_bytes: self.history_bytes,
            current: self.current,
            managed: opt_item_view(self.managed),
            pending: opt_pending_view(self.pending_capture),
            actions: self.actions@,
        }
    }
}

/// The state of a new clipboard manager.
pub open spec fn initial_model() -> ClipboardModel {
    ClipboardModel {
        revision: 1,
        next_item_id: 1,
        next_epoch: 1,
        paused: false,
        locked: false,
        history: seq![],
        history_bytes: 0,
        current: CurrentSelection::Unowned,
        managed: None,
        pending: None,
        actions: seq![],
    }
}

impl Default for ClipboardManager {
    /// An empty, unlocked history: the same as `ClipboardManager::new()`.
    fn default() -> (m: Self)
        ensures
            m@ == initial_model(),
            m@.wf(),
    {
        ClipboardManager::new()
    }
}

impl ClipboardManager {
    pub fn new() -> (m: Self)
        ensures
            m@ == initial_model(),
            m@.wf(),
    {
        let m = ClipboardManager {
            revision: 1,
            next_item_id: 1,
            next_epoch: 1,
            paused: false,
            locked: false,
            history: Vec::new(),
            history_bytes: 0,
            current: CurrentSelection::Unowned,
            managed: None,
            pending_capture: None,
            actions: Vec::new(),
        };
        assert(m@.history =~= Seq::<ItemView>::empty());
        assert(m@.actions =~= Seq::<ClipboardAction>::empty());
        m
    }

    pub fn revision(&self) -> (r: u64)
        ensures
            r == self@.revision,
    {
        self.revision
    }

    fn recalculate_history_bytes(&mut self)
        requires
            old(self).history@.len() <= MAX_HISTORY_ITEMS + 1,
            forall|i: int|
                0 <= i < old(self)@.history.len() ==> item_ok(#[trigger] old(self)@.history[i]),
        ensures
            final(self)@ == (ClipboardModel {
                history_bytes: sum_bytes(old(self)@.history) as usize,
                ..old(self)@
            }),
            sum_bytes(old(self)@.history) <= (MAX_HISTORY_ITEMS + 1) * MAX_ITEM_BYTES,
    {
        let ghost h = self@.history;
        proof {
            lemma_sum_bytes_bound(h);
        }
        let mut total: usize = 0;
        let mut j: usize = self.history.len();
        while j > 0
            invariant
                h == items_view(self.history@),
                j <= h.len() <= MAX_HISTORY_ITEMS + 1,
                forall|i: int| 0 <= i < h.len() ==> item_ok(#[trigger] h[i]),
                total == sum_bytes(h.skip(j as int)),
                total <= (h.len() - j) * MAX_ITEM_BYTES,
            decreases j,
        {
            assert(h.skip(j - 1).drop_first() =~= h.skip(j as int));
            assert(h.skip(j - 1)[0] == h[j - 1]);
            assert(item_ok(h[j - 1]));
            total = total + self.history[j - 1].byte_len;
            j -= 1;
        }
        assert(h.skip(0) =~= h);
        self.history_bytes = total;
    }

    fn victim_index(&self) -> (r: usize)
        requires
            self.history@.len() > 0,
        ensures
            r == victim(self@.history),
            r < self.history@.len(),
    {
        let ghost h = self@.history;
        proof {
            lemma_last_unpinned_range(h);
        }
        assert(h.take(h.len() as int) =~= h);
        let mut j: usize = self.history.len();
        while j > 0
            invariant
                h == items_view(self.history@),
                j <= h.len(),
                last_unpinned(h) == last_unpinned(h.take(j as int)),
            decreases j,
        {
            assert(h.take(j as int).drop_last() =~= h.take(j - 1));
            if !self.history[j - 1].pinned {
                return j - 1;
            }
            j -= 1;
        }
        self.history.len() - 1
    }

    fn enforce_limits(&mut self)
        requires
            old(self).history@.len() <= MAX_HISTORY_ITEMS + 1,
            forall|i: int|
                0 <= i < old(self)@.history.len() ==> item_ok(#[trigger] old(self)@.history[i]),
        ensures
            ({
                let (h, c) = evict(
                    old(self)@.history,
                    old(self)@.current,
                    MAX_HISTORY_ITEMS as int,
                    MAX_HISTORY_BYTES as int,
                );
                final(self)@ == (ClipboardModel {
                    history: h,
                    history_bytes: sum_bytes(h) as usize,
                    current: c,
                    ..old(self)@
                })
            }),
    {
        let ghost m0 = self@;
        let ghost target = evict(
            m0.history,
            m0.current,
            MAX_HISTORY_ITEMS as int,
            MAX_HISTORY_BYTES as int,
        );
        self.recalculate_history_bytes();
        proof {
            lemma_sum_bytes_nonneg(m0.history);
        }
        while self.history.len() > MAX_HISTORY_ITEMS || self.history_bytes > MAX_HISTORY_BYTES
            invariant
                self.history@.len() <= MAX_HISTORY_ITEMS + 1,
                forall|i: int| 0 <= i < self@.history.len() ==> item_ok(#[trigger] self@.history[i]),
                self.history_bytes == sum_bytes(self@.history),
                evict(
                    self@.history,
                    self.current,
                    MAX_HISTORY_ITEMS as int,
                    MAX_HISTORY_BYTES as int,
                ) == target,
                self@ == (ClipboardModel {
                    history: self@.history,
                    history_bytes: self.history_bytes,
                    current: self.current,
                    ..m0
                }),
            decreases self.history@.len(),
        {
            let ghost h = self@.history;
            proof {
                lemma_sum_bytes_nonneg(h);
                lemma_last_unpinned_range(h);
            }
            let v = self.victim_index();
            let removed = self.history.remove(v);
            proof {
                lemma_sum_bytes_remove(h, v as int);
                lemma_sum_bytes_nonneg(h.remove(v as int));
                assert(items_view(self.history@) =~= h.remove(v as int));
                assert forall|i: int| 0 <= i < h.len() - 1 implies item_ok(
                    #[trigger] h.remove(v as int)[i],
                ) by {
                    if i < v {
                        assert(item_ok(h[i]));
                    } else {
                        assert(item_ok(h[i + 1]));
                    }
                }
            }
            self.history_bytes = self.history_bytes - removed.byte_len;
            match self.current {
                CurrentSelection::External { epoch, history_item_id: Some(id) } => {
                    if id == removed.id {
                        self.current = CurrentSelection::External {
                            epoch,
                            history_item_id: None,
                        };
                    }
                },
                _ => {},
            }
        }
        proof {
            if self@.history.len() == 0 {
                assert(sum_bytes(self@.history) == 0);
            }
        }
    }

    /// Puts `item` first in the history (taking over the id and pin of an
    /// identical newest entry) and evicts; returns the entry as stored.
    fn insert_history_item(&mut self, item: ClipboardItem) -> (stored: ClipboardItem)
        requires
            old(self)@.wf(),
            item_ok(item@),
            item@.id != 0,
        ensures
            ({
                let (h, c, s) = spec_insert(old(self)@.history, old(self)@.current, item@);
                &&& final(self)@ == (ClipboardModel {
                    history: h,
                    history_bytes: sum_bytes(h) as usize,
                    current: c,
                    ..old(self)@
                })
                &&& stored@ == s
            }),
            final(self)@.wf(),
    {
        let ghost m0 = self@;
        let ghost h0 = m0.history;
        let mut item = item;
        if self.history.len() > 0 && items_same_content(&self.history[0], &item) {
            assert(item_ok(h0[0]));
            let previous = self.history.remove(0);
            item.id = previous.id;
            item.pinned = previous.pinned;
            assert(items_view(self.history@) =~= h0.drop_first());
        } else {
            assert(items_view(self.history@) =~= h0);
        }
        let ghost rest = items_view(self.history@);
        let stored = copy_item(&item);
        self.history.insert(0, item);
        assert(items_view(self.history@) =~= seq![stored@] + rest);
        proof {
            let h1 = seq![stored@] + rest;
            assert forall|i: int| 0 <= i < h1.len() implies item_ok(#[trigger] h1[i]) by {
                if i > 0 {
                    if h0.len() > 0 && same_content(h0[0], item@) {
                        assert(h1[i] == h0[i]);
                    } else {
                        assert(h1[i] == h0[i - 1]);
                    }
                }
            }
            if let CurrentSelection::External { history_item_id: Some(id), .. } = m0.current {
                let k = choose|k: int| 0 <= k < h0.len() && h0[k].id == id;
                if h0.len() > 0 && same_content(h0[0], item@) {
                    if k == 0 {
                        assert(h1[0].id == id);
                    } else {
                        assert(h1[k].id == id);
                    }
                } else {
                    assert(h1[k + 1].id == id);
                }
            }
            lemma_evict(h1, m0.current, MAX_HISTORY_ITEMS as int, MAX_HISTORY_BYTES as int);
            let (h2, c2) = evict(
                h1,
                m0.current,
                MAX_HISTORY_ITEMS as int,
                MAX_HISTORY_BYTES as int,
            );
            assert forall|i: int| 0 <= i < h2.len() implies item_ok(#[trigger] h2[i]) by {
                assert(h2.contains(h2[i]));
                assert(h1.contains(h2[i]));
            }
            assert forall|i: int| 0 <= i < h1.len() implies (#[trigger] h1[i]).id != 0 by {
                if i > 0 {
                    if h0.len() > 0 && same_content(h0[0], item@) {
                        assert(h1[i] == h0[i]);
                    } else {
                        assert(h1[i] == h0[i - 1]);
                    }
                }
            }
            assert forall|i: int| 0 <= i < h2.len() implies (#[trigger] h2[i]).id != 0 by {
                assert(h2.contains(h2[i]));
                assert(h1.contains(h2[i]));
                let j = choose|j: int| 0 <= j < h1.len() && h1[j] == h2[i];
            }
            lemma_sum_bytes_nonneg(h2);
        }
        self.enforce_limits();
        stored
    }
}

/// `set_locked`: a changed lock state drops any capture and queued action;
/// unlocking republishes the managed selection.
pub open spec fn spec_set_locked(m: ClipboardModel, locked: bool) -> ClipboardModel {
    if m.locked == locked {
        m
    } else {
        ClipboardModel {
            locked,
            pending: None,
            actions: match m.current {
                CurrentSelection::Managed { epoch, item_id } => if !locked {
                    seq![ClipboardAction::Publish { epoch, item_id, paste: false }]
                } else {
                    seq![]
                },
                _ => seq![],
            },
            revision: next_nonzero(m.revision),
            ..m
        }
    }
}

/// `take_actions`: the queue is emptied and nothing else changes.
pub open spec fn spec_take_actions(m: ClipboardModel) -> ClipboardModel {
    ClipboardModel { actions: seq![], ..m }
}

/// `observe_external_selection`: a new live selection from another client.
/// It takes a fresh epoch and drops the managed entry, queued actions and
/// any capture; with nothing offered nobody owns the selection. When the
/// history is neither locked nor paused and something retainable is
/// offered, a capture of the chosen types starts.
pub open spec fn spec_observe(
    m: ClipboardModel,
    origin: ClipboardOrigin,
    offered: Seq<Seq<char>>,
    source: Option<(Seq<char>, Seq<char>)>,
) -> ClipboardModel {
    let epoch = m.next_epoch;
    let base = ClipboardModel {
        next_epoch: next_nonzero(m.next_epoch),
        actions: seq![],
        pending: None,
        managed: None,
        revision: next_nonzero(m.revision),
        ..m
    };
    if offered.len() == 0 {
        ClipboardModel { current: CurrentSelection::Unowned, ..base }
    } else {
        let owned = ClipboardModel {
            current: CurrentSelection::External { epoch, history_item_id: None },
            ..base
        };
        let sel = spec_select(offered);
        if m.locked || m.paused || sel.len() == 0 {
            owned
        } else {
            ClipboardModel {
                pending: Some(
                    PendingView {
                        epoch,
                        origin,
                        source,
                        remaining: sel.map_values(|p: (Seq<char>, ClipboardContentKind)| p.0),
                        reps: seq![],
                    },
                ),
                ..owned
            }
        }
    }
}

/// Whether `observe_external_selection` asks for a capture.
pub open spec fn observe_captures(m: ClipboardModel, offered: Seq<Seq<char>>) -> bool {
    offered.len() > 0 && !m.locked && !m.paused && spec_select(offered).len() > 0
}

/// The entry a finished capture becomes, when anything of it is kept: its
/// representations by priority, cut to the per-entry limit.
pub open spec fn capture_kept(cap: PendingView) -> Seq<RepView> {
    keep_fold(reps_by_priority(cap.reps)).0
}

/// Completes the capture `cap` into the history, unless the history is
/// locked or paused, the selection moved on, or nothing can be kept.
pub open spec fn spec_finalize(m: ClipboardModel, cap: PendingView, now: u64) -> ClipboardModel {
    if m.locked || m.paused || !(m.current matches CurrentSelection::External { epoch, .. }
        && epoch == cap.epoch) || cap.reps.len() == 0 || capture_kept(cap).len() == 0 {
        m
    } else {
        let id = m.next_item_id;
        let item = spec_make_item(id, cap.origin, cap.source, capture_kept(cap), false, now);
        let (h, c, stored) = spec_insert(m.history, m.current, item);
        ClipboardModel {
            next_item_id: next_nonzero(id),
            history: h,
            history_bytes: sum_bytes(h) as usize,
            current: match c {
                CurrentSelection::External { epoch, .. } => CurrentSelection::External {
                    epoch,
                    history_item_id: if contains_id(h, stored.id) {
                        Some(stored.id)
                    } else {
                        None
                    },
                },
                _ => c,
            },
            revision: next_nonzero(m.revision),
            ..m
        }
    }
}

pub open spec fn opt_bytes_view(data: Option<Vec<u8>>) -> Option<Seq<u8>> {
    match data {
        Some(d) => Some(d@),
        None => None,
    }
}

pub open spec fn is_mime(mime: Seq<char>) -> spec_fn(Seq<char>) -> bool {
    |s: Seq<char>| s == mime
}

/// The capture after one of its types was read, with `data` when the read
/// succeeded: valid data is stored under its type.
pub open spec fn capture_after_read(
    cap: PendingView,
    mime: Seq<char>,
    data: Option<Seq<u8>>,
) -> PendingView {
    let i = first_index(cap.remaining, is_mime(mime));
    PendingView {
        remaining: cap.remaining.remove(i),
        reps: match data {
            Some(d) => match spec_validate(mime, d) {
                Some((kind, dims)) => map_insert(
                    cap.reps,
                    RepView { mime, data: d, kind, dimensions: dims },
                ),
                None => cap.reps,
            },
            None => cap.reps,
        },
        ..cap
    }
}

/// `finish_capture`: the read of `mime` for capture `epoch` finished. A
/// read for another epoch, or of a type that is not awaited, changes
/// nothing. When the last awaited type arrives, the capture completes.
pub open spec fn spec_finish(
    m: ClipboardModel,
    epoch: u64,
    mime: Seq<char>,
    data: Option<Seq<u8>>,
    now: u64,
) -> ClipboardModel {
    match m.pending {
        None => m,
        Some(cap) => if cap.epoch != epoch || !cap.remaining.contains(mime) {
            m
        } else {
            let cap2 = capture_after_read(cap, mime, data);
            if cap2.remaining.len() > 0 {
                ClipboardModel { pending: Some(cap2), ..m }
            } else {
                spec_finalize(ClipboardModel { pending: None, ..m }, cap2, now)
            }
        },
    }
}

impl ClipboardManager {
    pub fn set_locked(&mut self, locked: bool)
        requires
            old(self)@.wf(),
        ensures
            final(self)@ == spec_set_locked(old(self)@, locked),
            final(self)@.wf(),
    {
        if self.locked == locked {
            return;
        }
        self.locked = locked;
        self.pending_capture = None;
        self.actions = Vec::new();
        if !locked {
            match self.current {
                CurrentSelection::Managed { epoch, item_id } => {
                    self.actions.push(ClipboardAction::Publish { epoch, item_id, paste: false });
                },
                _ => {},
            }
        }
        self.revision = bump(self.revision);
        assert(self@.actions =~= spec_set_locked(old(self)@, locked).actions);
    }

    /// Records a new live selection offered by another client, and returns
    /// the representations to read when a capture starts.
    pub fn observe_external_selection(
        &mut self,
        origin: ClipboardOrigin,
        offered_mime_types: &[String],
        source: Option<ClipboardSourceIdentity>,
    ) -> (plan: Option<ClipboardCapturePlan>)
        requires
            old(self)@.wf(),
        ensures
            final(self)@ == spec_observe(
                old(self)@,
                origin,
                string_views(offered_mime_types@),
                source_view(source),
            ),
            final(self)@.wf(),
            plan is Some <==> observe_captures(old(self)@, string_views(offered_mime_types@)),
            plan matches Some(p) ==> p.epoch == old(self)@.next_epoch && plan_matches(
                p.representations@,
                spec_select(string_views(offered_mime_types@)),
            ),
    {
        let ghost views = string_views(offered_mime_types@);
        let epoch = self.next_epoch;
        self.next_epoch = bump(self.next_epoch);
        self.actions = Vec::new();
        self.pending_capture = None;
        self.managed = None;
        if offered_mime_types.len() == 0 {
            self.current = CurrentSelection::Unowned;
            self.revision = bump(self.revision);
            assert(self@.actions =~= Seq::<ClipboardAction>::empty());
            return None;
        }
        self.current = CurrentSelection::External { epoch, history_item_id: None };
        self.revision = bump(self.revision);
        assert(self@.actions =~= Seq::<ClipboardAction>::empty());
        if self.locked || self.paused {
            return None;
        }
        let representations = select_capture_representations(offered_mime_types);
        if representations.len() == 0 {
            return None;
        }
        let mut remaining: Vec<String> = Vec::new();
        let mut i: usize = 0;
        let ghost sel = spec_select(views);
        while i < representations.len()
            invariant
                i <= representations@.len(),
                plan_matches(representations@, sel),
                remaining@.map_values(|s: String| s@) == sel.map_values(
                    |p: (Seq<char>, ClipboardContentKind)| p.0,
                ).take(i as int),
            decreases representations@.len() - i,
        {
            let ghost before = remaining@;
            assert(plan_matches(representations@, sel));
            assert(representations@[i as int].mime_type@ == sel[i as int].0);
            let m = representations[i].mime_type.clone();
            remaining.push(m);
            assert(remaining@.map_values(|s: String| s@) =~= before.map_values(|s: String| s@).push(
                sel[i as int].0,
            ));
            i += 1;
            assert(remaining@.map_values(|s: String| s@) =~= sel.map_values(
                |p: (Seq<char>, ClipboardContentKind)| p.0,
            ).take(i as int));
        }
        assert(sel.map_values(|p: (Seq<char>, ClipboardContentKind)| p.0).take(i as int)
            =~= sel.map_values(|p: (Seq<char>, ClipboardContentKind)| p.0));
        let capture = PendingCapture {
            epoch,
            origin,
            source,
            remaining,
            representations: Vec::new(),
        };
        assert(capture@.reps =~= Seq::<RepView>::empty());
        self.pending_capture = Some(capture);
        Some(ClipboardCapturePlan { epoch, representations })
    }

    /// Whether capture `epoch` is still in progress.
    pub fn capture_is_current(&self, epoch: u64) -> (r: bool)
        ensures
            r == (self@.pending matches Some(cap) && cap.epoch == epoch),
    {
        match &self.pending_capture {
            Some(capture) => capture.epoch == epoch,
            None => false,
        }
    }

    pub fn has_pending_capture(&self) -> (r: bool)
        ensures
            r == self@.pending is Some,
    {
        self.pending_capture.is_some()
    }

    fn finalize_capture(&mut self, capture: PendingCapture, now: u64)
        requires
            old(self)@.wf(),
        ensures
            final(self)@ == spec_finalize(old(self)@, capture@, now),
            final(self)@.wf(),
    {
        let ghost m0 = self@;
        let ghost cap = capture@;
        let epoch_matches = match self.current {
            CurrentSelection::External { epoch, .. } => epoch == capture.epoch,
            _ => false,
        };
        if self.locked || self.paused || !epoch_matches || capture.representations.len() == 0 {
            return;
        }
        let sorted = sort_reps_by_priority(&capture.representations);
        let kept = keep_within_limit(sorted);
        if kept.len() == 0 {
            return;
        }
        proof {
            crate::clipboard::history::lemma_keep_fold(reps_by_priority(cap.reps));
        }
        let id = self.next_item_id;
        self.next_item_id = bump(self.next_item_id);
        let item = make_item(id, capture.origin, capture.source, kept, false, now);
        let stored = self.insert_history_item(item);
        let retained = position_of(&self.history, stored.id).is_some();
        proof {
            lemma_lookup_some(self@.history, stored.id);
        }
        match self.current {
            CurrentSelection::External { epoch, .. } => {
                self.current = CurrentSelection::External {
                    epoch,
                    history_item_id: if retained {
                        Some(stored.id)
                    } else {
                        None
                    },
                };
            },
            _ => {},
        }
        self.revision = bump(self.revision);
    }

    /// Records the result of reading `mime_type` for capture `epoch`, with
    /// the capture time given in milliseconds since the Unix epoch.
    pub fn finish_capture_at(
        &mut self,
        epoch: u64,
        mime_type: &str,
        data: Option<Vec<u8>>,
        now_unix_ms: u64,
    )
        requires
            old(self)@.wf(),
        ensures
            final(self)@ == spec_finish(
                old(self)@,
                epoch,
                mime_type@,
                opt_bytes_view(data),
                now_unix_ms,
            ),
            final(self)@.wf(),
    {
        let ghost m0 = self@;
        let ghost dview = opt_bytes_view(data);
        let mut capture = match self.pending_capture.take() {
            Some(c) => c,
            None => {
                return;
            },
        };
        let ghost cap = capture@;
        if capture.epoch != epoch {
            self.pending_capture = Some(capture);
            return;
        }
        let ghost p = is_mime(mime_type@);
        let mut index: usize = 0;
        while index < capture.remaining.len() && !strings_equal(
            capture.remaining[index].as_str(),
            mime_type,
        )
            invariant
                cap == capture@,
                p == is_mime(mime_type@),
                index <= cap.remaining.len(),
                forall|k: int| 0 <= k < index ==> !p(#[trigger] cap.remaining[k]),
            decreases cap.remaining.len() - index,
        {
            index += 1;
        }
        if index == capture.remaining.len() {
            proof {
                if cap.remaining.contains(mime_type@) {
                    let j = choose|j: int|
                        0 <= j < cap.remaining.len() && cap.remaining[j] == mime_type@;
                    assert(!p(cap.remaining[j]));
                }
            }
            self.pending_capture = Some(capture);
            return;
        }
        proof {
            assert(cap.remaining[index as int] == mime_type@);
            assert(is_first(cap.remaining, p, index as int));
            crate::clipboard::history::lemma_first_exists(cap.remaining, p, index as int);
            let f = first_index(cap.remaining, p);
            if f < index {
                assert(!p(cap.remaining[f]));
            }
            assert(cap.remaining.contains(mime_type@));
        }
        let _ = capture.remaining.remove(index);
        assert(capture@.remaining =~= cap.remaining.remove(index as int));
        match data {
            Some(d) => {
                match validate_representation(mime_type, d) {
                    Some(rep) => {
                        map_insert_rep(&mut capture.representations, rep);
                    },
                    None => {},
                }
            },
            None => {},
        }
        assert(capture@ == capture_after_read(cap, mime_type@, dview));
        if capture.remaining.len() > 0 {
            self.pending_capture = Some(capture);
            return;
        }
        self.finalize_capture(capture, now_unix_ms);
    }

    /// Records the result of reading `mime_type` for capture `epoch`.
    pub fn finish_capture(&mut self, epoch: u64, mime_type: &str, data: Option<Vec<u8>>)
        requires
            old(self)@.wf(),
        ensures
            exists|now: u64|
                final(self)@ == #[trigger] spec_finish(
                    old(self)@,
                    epoch,
                    mime_type@,
                    opt_bytes_view(data),
                    now,
                ),
            final(self)@.wf(),
    {
        let now = crate::clipboard::history::unix_time_millis();
        self.finish_capture_at(epoch, mime_type, data, now);
    }
}

/// The entry that a selection of `id` refers to: the managed entry, else the
/// history entry.
pub open spec fn spec_retained(m: ClipboardModel, id: u64) -> Option<ItemView> {
    match m.managed {
        Some(item) => if item.id == id {
            Some(item)
        } else {
            lookup(m.history, id)
        },
        None => lookup(m.history, id),
    }
}

pub open spec fn with_history(m: ClipboardModel, h: Seq<ItemView>, c: CurrentSelection) -> ClipboardModel {
    ClipboardModel { history: h, history_bytes: sum_bytes(h) as usize, current: c, ..m }
}

/// Makes `rep` the selection that Denial owns, as a new entry (recorded in
/// the history unless paused) published without paste.
pub open spec fn spec_set_managed(m: ClipboardModel, rep: RepView, title: Seq<char>, now: u64) -> (
    ClipboardModel,
    Result<u64, ClipboardError>,
) {
    if m.locked {
        (m, Err(ClipboardError::Locked))
    } else {
        let id = m.next_item_id;
        let item = spec_make_item(
            id,
            ClipboardOrigin::Flutter,
            spec_bounded("denial"@, title),
            seq![rep],
            false,
            now,
        );
        let m1 = ClipboardModel { next_item_id: next_nonzero(id), ..m };
        let (m2, stored) = if m.paused {
            (m1, item)
        } else {
            let (h, c, st) = spec_insert(m1.history, m1.current, item);
            (with_history(m1, h, c), st)
        };
        let epoch = m2.next_epoch;
        (
            ClipboardModel {
                current: CurrentSelection::Managed { epoch, item_id: stored.id },
                managed: Some(stored),
                pending: None,
                actions: seq![ClipboardAction::Publish { epoch, item_id: stored.id, paste: false }],
                next_epoch: next_nonzero(epoch),
                revision: next_nonzero(m2.revision),
                ..m2
            },
            Ok(stored.id),
        )
    }
}

/// `set_text`: at most 1 MiB of UTF-8 without NUL bytes becomes the
/// selection, titled "Denial shell".
pub open spec fn spec_set_text(m: ClipboardModel, text: Seq<char>, now: u64) -> (
    ClipboardModel,
    Result<u64, ClipboardError>,
) {
    let bytes = encode_utf8(text);
    if bytes.len() > MAX_TEXT_BYTES {
        (m, Err(ClipboardError::TooLarge))
    } else if bytes.contains(0u8) {
        (m, Err(ClipboardError::Unsupported))
    } else {
        match spec_validate("text/plain;charset=utf-8"@, bytes) {
            None => (m, Err(ClipboardError::Unsupported)),
            Some((kind, dims)) => spec_set_managed(
                m,
                RepView {
                    mime: "text/plain;charset=utf-8"@,
                    data: bytes,
                    kind,
                    dimensions: dims,
                },
                "Denial shell"@,
                now,
            ),
        }
    }
}

/// `set_image_png`: a valid PNG of at most 16 MiB becomes the selection,
/// titled "Denial screenshot".
pub open spec fn spec_set_image_png(m: ClipboardModel, data: Seq<u8>, now: u64) -> (
    ClipboardModel,
    Result<u64, ClipboardError>,
) {
    if data.len() > MAX_IMAGE_BYTES {
        (m, Err(ClipboardError::TooLarge))
    } else {
        match spec_validate("image/png"@, data) {
            None => (m, Err(ClipboardError::Unsupported)),
            Some((kind, dims)) => spec_set_managed(
                m,
                RepView { mime: "image/png"@, data, kind, dimensions: dims },
                "Denial screenshot"@,
                now,
            ),
        }
    }
}

/// The text of the current selection, when it is a retained entry and the
/// history is unlocked.
pub open spec fn spec_current_text(m: ClipboardModel) -> Option<Seq<char>> {
    if m.locked {
        None
    } else {
        match m.current {
            CurrentSelection::Managed { item_id, .. } => match spec_retained(m, item_id) {
                Some(item) => spec_item_text(item),
                None => None,
            },
            CurrentSelection::External { history_item_id: Some(id), .. } => match lookup(
                m.history,
                id,
            ) {
                Some(item) => spec_item_text(item),
                None => None,
            },
            _ => None,
        }
    }
}

pub open spec fn spec_retained_data(m: ClipboardModel, id: u64, mime: Seq<char>) -> Option<Seq<u8>> {
    if m.locked {
        None
    } else {
        match spec_retained(m, id) {
            Some(item) => spec_item_data(item, mime),
            None => None,
        }
    }
}

pub open spec fn rep_mimes(reps: Seq<RepView>) -> Seq<Seq<char>> {
    reps.map_values(|r: RepView| r.mime)
}

pub open spec fn spec_retained_mime_types(m: ClipboardModel, epoch: u64, id: u64) -> Option<
    Seq<Seq<char>>,
> {
    if m.locked || m.current != (CurrentSelection::Managed { epoch, item_id: id }) {
        None
    } else {
        match spec_retained(m, id) {
            Some(item) => Some(rep_mimes(item.reps)),
            None => None,
        }
    }
}

pub open spec fn rep_pairs(reps: Seq<RepView>) -> Seq<(Seq<char>, Seq<u8>)> {
    reps.map_values(|r: RepView| (r.mime, r.data))
}

pub open spec fn payload_pairs(v: Seq<(String, Vec<u8>)>) -> Seq<(Seq<char>, Seq<u8>)> {
    v.map_values(|p: (String, Vec<u8>)| (p.0@, p.1@))
}

pub open spec fn spec_drag_payload(m: ClipboardModel, id: u64) -> Option<Seq<(Seq<char>, Seq<u8>)>> {
    if m.locked {
        None
    } else {
        match lookup(m.history, id) {
            Some(item) => Some(rep_pairs(item.reps)),
            None => None,
        }
    }
}

/// `activate`: a history entry becomes the owned selection and is pasted.
pub open spec fn spec_activate(m: ClipboardModel, id: u64) -> (
    ClipboardModel,
    Result<u64, ClipboardError>,
) {
    if m.locked {
        (m, Err(ClipboardError::Locked))
    } else {
        match lookup(m.history, id) {
            None => (m, Err(ClipboardError::NotFound)),
            Some(item) => {
                let epoch = m.next_epoch;
                let m2 = ClipboardModel {
                    current: CurrentSelection::Managed { epoch, item_id: id },
                    managed: Some(item),
                    pending: None,
                    actions: seq![ClipboardAction::Publish { epoch, item_id: id, paste: true }],
                    next_epoch: next_nonzero(epoch),
                    revision: next_nonzero(m.revision),
                    ..m
                };
                (m2, Ok(m2.revision))
            },
        }
    }
}

/// `set_pinned`: pins or unpins a history entry (and the managed copy).
pub open spec fn spec_set_pinned(m: ClipboardModel, id: u64, pinned: bool) -> (
    ClipboardModel,
    Result<u64, ClipboardError>,
) {
    if m.locked {
        (m, Err(ClipboardError::Locked))
    } else if index_of_id(m.history, id) < 0 {
        (m, Err(ClipboardError::NotFound))
    } else {
        let i = index_of_id(m.history, id);
        if m.history[i].pinned == pinned {
            (m, Ok(m.revision))
        } else {
            let item = ItemView { pinned, ..m.history[i] };
            let m2 = ClipboardModel {
                history: m.history.update(i, item),
                managed: match m.managed {
                    Some(x) => if x.id == id {
                        Some(item)
                    } else {
                        m.managed
                    },
                    None => None,
                },
                revision: next_nonzero(m.revision),
                ..m
            };
            (m2, Ok(m2.revision))
        }
    }
}

/// `delete`: removes a history entry; deleting the owned selection clears
/// it, and a live selection forgets the entry.
pub open spec fn spec_delete(m: ClipboardModel, id: u64) -> (
    ClipboardModel,
    Result<u64, ClipboardError>,
) {
    if m.locked {
        (m, Err(ClipboardError::Locked))
    } else if index_of_id(m.history, id) < 0 {
        (m, Err(ClipboardError::NotFound))
    } else {
        let i = index_of_id(m.history, id);
        let h = m.history.remove(i);
        let m1 = ClipboardModel {
            history: h,
            history_bytes: (m.history_bytes - m.history[i].byte_len) as usize,
            ..m
        };
        let m2 = match m.current {
            CurrentSelection::Managed { item_id, .. } => if item_id == id {
                ClipboardModel {
                    current: CurrentSelection::Unowned,
                    managed: None,
                    actions: seq![ClipboardAction::Clear { epoch: m.next_epoch }],
                    next_epoch: next_nonzero(m.next_epoch),
                    ..m1
                }
            } else {
                m1
            },
            _ => ClipboardModel { current: forget_entry(m.current, id), ..m1 },
        };
        let m3 = ClipboardModel { revision: next_nonzero(m.revision), ..m2 };
        (m3, Ok(m3.revision))
    }
}

/// The pinned entries, in order.
pub open spec fn keep_pinned(h: Seq<ItemView>) -> Seq<ItemView>
    decreases h.len(),
{
    if h.len() == 0 {
        seq![]
    } else if h.last().pinned {
        keep_pinned(h.drop_last()).push(h.last())
    } else {
        keep_pinned(h.drop_last())
    }
}

/// `clear`: removes every unpinned entry. An owned selection whose entry
/// survives keeps it; otherwise the owned selection is cleared. A live
/// selection forgets a removed entry.
pub open spec fn spec_clear(m: ClipboardModel) -> (ClipboardModel, Result<u64, ClipboardError>) {
    if m.locked {
        (m, Err(ClipboardError::Locked))
    } else {
        let h = keep_pinned(m.history);
        let m1 = ClipboardModel {
            history: h,
            history_bytes: sum_bytes(h) as usize,
            pending: None,
            ..m
        };
        let m2 = match m.current {
            CurrentSelection::Managed { item_id, .. } => if contains_id(h, item_id) {
                ClipboardModel { managed: lookup(h, item_id), ..m1 }
            } else {
                ClipboardModel {
                    current: CurrentSelection::Unowned,
                    managed: None,
                    actions: seq![ClipboardAction::Clear { epoch: m.next_epoch }],
                    next_epoch: next_nonzero(m.next_epoch),
                    ..m1
                }
            },
            CurrentSelection::External { epoch, history_item_id } => ClipboardModel {
                current: CurrentSelection::External {
                    epoch,
                    history_item_id: match history_item_id {
                        Some(id) => if contains_id(h, id) {
                            Some(id)
                        } else {
                            None
                        },
                        None => None,
                    },
                },
                managed: None,
                ..m1
            },
            CurrentSelection::Unowned => ClipboardModel { managed: None, ..m1 },
        };
        let m3 = ClipboardModel { revision: next_nonzero(m.revision), ..m2 };
        (m3, Ok(m3.revision))
    }
}

/// `set_paused`: pausing stops recording and drops a capture in progress.
pub open spec fn spec_set_paused(m: ClipboardModel, paused: bool) -> (
    ClipboardModel,
    Result<u64, ClipboardError>,
) {
    if m.locked {
        (m, Err(ClipboardError::Locked))
    } else if m.paused == paused {
        (m, Ok(m.revision))
    } else {
        let m2 = ClipboardModel {
            paused,
            pending: if paused {
                None
            } else {
                m.pending
            },
            revision: next_nonzero(m.revision),
            ..m
        };
        (m2, Ok(m2.revision))
    }
}

/// `start_drag`: queues a drag of a history entry.
pub open spec fn spec_start_drag(m: ClipboardModel, id: u64) -> (
    ClipboardModel,
    Result<u64, ClipboardError>,
) {
    if m.locked {
        (m, Err(ClipboardError::Locked))
    } else if !contains_id(m.history, id) {
        (m, Err(ClipboardError::NotFound))
    } else {
        (
            ClipboardModel {
                actions: m.actions.push(ClipboardAction::StartDrag { item_id: id }),
                ..m
            },
            Ok(m.revision),
        )
    }
}

pub proof fn lemma_sum_bytes_update(h: Seq<ItemView>, i: int, x: ItemView)
    requires
        0 <= i < h.len(),
        x.byte_len == h[i].byte_len,
    ensures
        sum_bytes(h.update(i, x)) == sum_bytes(h),
    decreases i,
{
    if i > 0 {
        assert(h.update(i, x).drop_first() =~= h.drop_first().update(i - 1, x));
        lemma_sum_bytes_update(h.drop_first(), i - 1, x);
    } else {
        assert(h.update(0, x).drop_first() =~= h.drop_first());
    }
}

pub proof fn lemma_sum_bytes_push(s: Seq<ItemView>, x: ItemView)
    ensures
        sum_bytes(s.push(x)) == sum_bytes(s) + x.byte_len,
    decreases s.len(),
{
    if s.len() > 0 {
        assert(s.push(x).drop_first() =~= s.drop_first().push(x));
        assert(s.push(x)[0] == s[0]);
        lemma_sum_bytes_push(s.drop_first(), x);
    } else {
        assert(s.push(x).drop_first() =~= Seq::<ItemView>::empty());
        assert(s.push(x)[0] == x);
        assert(sum_bytes(Seq::<ItemView>::empty()) == 0);
    }
}

proof fn lemma_sum_keep_pinned(h: Seq<ItemView>)
    ensures
        sum_bytes(keep_pinned(h)) <= sum_bytes(h),
    decreases h.len(),
{
    if h.len() > 0 {
        let d = h.drop_last();
        lemma_sum_keep_pinned(d);
        lemma_sum_bytes_push(d, h.last());
        assert(d.push(h.last()) =~= h);
        lemma_sum_bytes_push(keep_pinned(d), h.last());
    }
}

proof fn lemma_keep_pinned(h: Seq<ItemView>)
    requires
        forall|i: int| 0 <= i < h.len() ==> item_ok(#[trigger] h[i]),
    ensures
        keep_pinned(h).len() <= h.len(),
        forall|k: int| 0 <= k < keep_pinned(h).len() ==> item_ok(#[trigger] keep_pinned(h)[k]),
    decreases h.len(),
{
    if h.len() > 0 {
        let d = h.drop_last();
        assert forall|i: int| 0 <= i < d.len() implies item_ok(#[trigger] d[i]) by {
            assert(item_ok(h[i]));
        }
        lemma_keep_pinned(d);
        assert(item_ok(h[h.len() - 1]));
    }
}

proof fn lemma_keep_pinned_ids(h: Seq<ItemView>)
    requires
        ids_nonzero(h),
    ensures
        ids_nonzero(keep_pinned(h)),
    decreases h.len(),
{
    if h.len() > 0 {
        let d = h.drop_last();
        assert forall|i: int| 0 <= i < d.len() implies (#[trigger] d[i]).id != 0 by {
            assert(d[i] == h[i]);
        }
        lemma_keep_pinned_ids(d);
        assert(h[h.len() - 1].id != 0);
        let k = keep_pinned(d);
        assert forall|i: int| 0 <= i < k.push(h.last()).len() implies (#[trigger] k.push(
            h.last(),
        )[i]).id != 0 by {
            if i < k.len() {
                assert(k.push(h.last())[i] == k[i]);
            }
        }
    }
}

impl ClipboardManager {
    fn retained_item(&self, id: u64) -> (r: Option<&ClipboardItem>)
        ensures
            match r {
                Some(item) => spec_retained(self@, id) == Some(item@),
                None => spec_retained(self@, id) is None,
            },
    {
        match &self.managed {
            Some(item) => {
                if item.id == id {
                    return Some(item);
                }
            },
            None => {},
        }
        match position_of(&self.history, id) {
            Some(i) => Some(&self.history[i]),
            None => None,
        }
    }

    fn history_item(&self, id: u64) -> (r: Option<&ClipboardItem>)
        ensures
            match r {
                Some(item) => lookup(self@.history, id) == Some(item@),
                None => lookup(self@.history, id) is None,
            },
    {
        match position_of(&self.history, id) {
            Some(i) => Some(&self.history[i]),
            None => None,
        }
    }

    fn set_managed_representation(
        &mut self,
        representation: ClipboardRepresentation,
        source_title: &str,
        now: u64,
    ) -> (r: Result<u64, ClipboardError>)
        requires
            old(self)@.wf(),
            representation@.data.len() <= MAX_ITEM_BYTES,
        ensures
            (final(self)@, r) == spec_set_managed(old(self)@, representation@, source_title@, now),
            final(self)@.wf(),
    {
        if self.locked {
            return Err(ClipboardError::Locked);
        }
        let id = self.next_item_id;
        self.next_item_id = bump(self.next_item_id);
        let source = ClipboardSourceIdentity::bounded("denial", source_title);
        let ghost rep = representation@;
        let mut reps: Vec<ClipboardRepresentation> = Vec::new();
        reps.push(representation);
        assert(reps_view(reps@) =~= seq![rep]);
        assert(sum_data(seq![rep]) == rep.data.len()) by {
            assert(seq![rep].drop_last() =~= Seq::<RepView>::empty());
            assert(seq![rep].last() == rep);
            assert(sum_data(Seq::<RepView>::empty()) == 0);
        }
        let item = make_item(id, ClipboardOrigin::Flutter, source, reps, false, now);
        let stored = if self.paused {
            item
        } else {
            self.insert_history_item(item)
        };
        let item_id = stored.id;
        let epoch = self.next_epoch;
        self.next_epoch = bump(self.next_epoch);
        self.current = CurrentSelection::Managed { epoch, item_id };
        self.managed = Some(stored);
        self.pending_capture = None;
        self.actions = Vec::new();
        self.actions.push(ClipboardAction::Publish { epoch, item_id, paste: false });
        self.revision = bump(self.revision);
        assert(self@.actions =~= seq![ClipboardAction::Publish { epoch, item_id, paste: false }]);
        Ok(item_id)
    }

    /// Makes `text` the selection, with the capture time given.
    pub fn set_text_at(&mut self, text: &str, now_unix_ms: u64) -> (r: Result<u64, ClipboardError>)
        requires
            old(self)@.wf(),
        ensures
            (final(self)@, r) == spec_set_text(old(self)@, text@, now_unix_ms),
            final(self)@.wf(),
            r matches Ok(id) ==> id != 0,
    {
        let bytes = text.as_bytes();
        if bytes.len() > MAX_TEXT_BYTES {
            return Err(ClipboardError::TooLarge);
        }
        if crate::clipboard::content::contains_byte(bytes, 0) {
            return Err(ClipboardError::Unsupported);
        }
        let data = copy_range(bytes, 0, bytes.len());
        assert(data@ =~= encode_utf8(text@));
        match validate_representation("text/plain;charset=utf-8", data) {
            Some(rep) => self.set_managed_representation(rep, "Denial shell", now_unix_ms),
            None => Err(ClipboardError::Unsupported),
        }
    }

    /// Makes `text` the selection that Denial owns and records it.
    pub fn set_text(&mut self, text: &str) -> (r: Result<u64, ClipboardError>)
        requires
            old(self)@.wf(),
        ensures
            exists|now: u64| (final(self)@, r) == #[trigger] spec_set_text(old(self)@, text@, now),
            final(self)@.wf(),
            r matches Ok(id) ==> id != 0,
    {
        let now = crate::clipboard::history::unix_time_millis();
        self.set_text_at(text, now)
    }

    /// Makes the PNG `data` the selection, with the capture time given.
    pub fn set_image_png_at(&mut self, data: Vec<u8>, now_unix_ms: u64) -> (r: Result<
        u64,
        ClipboardError,
    >)
        requires
            old(self)@.wf(),
        ensures
            (final(self)@, r) == spec_set_image_png(old(self)@, data@, now_unix_ms),
            final(self)@.wf(),
            r matches Ok(id) ==> id != 0,
    {
        if data.len() > MAX_IMAGE_BYTES {
            return Err(ClipboardError::TooLarge);
        }
        match validate_representation("image/png", data) {
            Some(rep) => self.set_managed_representation(rep, "Denial screenshot", now_unix_ms),
            None => Err(ClipboardError::Unsupported),
        }
    }

    /// Makes the PNG `data` the selection that Denial owns and records it.
    pub fn set_image_png(&mut self, data: Vec<u8>) -> (r: Result<u64, ClipboardError>)
        requires
            old(self)@.wf(),
        ensures
            exists|now: u64|
                (final(self)@, r) == #[trigger] spec_set_image_png(old(self)@, data@, now),
            final(self)@.wf(),
            r matches Ok(id) ==> id != 0,
    {
        let now = crate::clipboard::history::unix_time_millis();
        self.set_image_png_at(data, now)
    }

    pub fn current_text(&self) -> (r: Option<String>)
        ensures
            match r {
                Some(s) => spec_current_text(self@) == Some(s@),
                None => spec_current_text(self@) is None,
            },
    {
        if self.locked {
            return None;
        }
        match self.current {
            CurrentSelection::Managed { item_id, .. } => match self.retained_item(item_id) {
                Some(item) => item_text(item),
                None => None,
            },
            CurrentSelection::External { history_item_id: Some(id), .. } => match self.history_item(
                id,
            ) {
                Some(item) => item_text(item),
                None => None,
            },
            _ => None,
        }
    }

    pub fn has_strings(&self) -> (r: bool)
        ensures
            r == spec_current_text(self@) is Some,
    {
        self.current_text().is_some()
    }

    pub fn retained_data(&self, item_id: u64, mime_type: &str) -> (r: Option<Vec<u8>>)
        ensures
            match r {
                Some(d) => spec_retained_data(self@, item_id, mime_type@) == Some(d@),
                None => spec_retained_data(self@, item_id, mime_type@) is None,
            },
    {
        if self.locked {
            return None;
        }
        match self.retained_item(item_id) {
            Some(item) => item_data(item, mime_type),
            None => None,
        }
    }

    pub fn retained_mime_types(&self, epoch: u64, item_id: u64) -> (r: Option<Vec<String>>)
        ensures
            match r {
                Some(v) => spec_retained_mime_types(self@, epoch, item_id) == Some(
                    v@.map_values(|s: String| s@),
                ),
                None => spec_retained_mime_types(self@, epoch, item_id) is None,
            },
    {
        if self.locked || self.current != (CurrentSelection::Managed { epoch, item_id }) {
            return None;
        }
        let item = match self.retained_item(item_id) {
            Some(item) => item,
            None => return None,
        };
        let ghost reps = item@.reps;
        let mut out: Vec<String> = Vec::new();
        let mut i: usize = 0;
        while i < item.representations.len()
            invariant
                reps == item@.reps,
                i <= reps.len(),
                out@.map_values(|s: String| s@) == rep_mimes(reps).take(i as int),
            decreases reps.len() - i,
        {
            let ghost before = out@;
            let m = item.representations[i].mime_type.clone();
            out.push(m);
            assert(out@.map_values(|s: String| s@) =~= before.map_values(|s: String| s@).push(
                reps[i as int].mime,
            ));
            i += 1;
            assert(out@.map_values(|s: String| s@) =~= rep_mimes(reps).take(i as int));
        }
        assert(rep_mimes(reps).take(reps.len() as int) =~= rep_mimes(reps));
        Some(out)
    }

    pub fn drag_payload(&self, item_id: u64) -> (r: Option<ClipboardDragPayload>)
        ensures
            match r {
                Some(p) => p.item_id == item_id && spec_drag_payload(self@, item_id) == Some(
                    payload_pairs(p.representations@),
                ),
                None => spec_drag_payload(self@, item_id) is None,
            },
    {
        if self.locked {
            return None;
        }
        let item = match self.history_item(item_id) {
            Some(item) => item,
            None => return None,
        };
        let ghost reps = item@.reps;
        let mut out: Vec<(String, Vec<u8>)> = Vec::new();
        let mut i: usize = 0;
        while i < item.representations.len()
            invariant
                reps == item@.reps,
                i <= reps.len(),
                payload_pairs(out@) == rep_pairs(reps).take(i as int),
            decreases reps.len() - i,
        {
            let ghost before = out@;
            let pair = (
                item.representations[i].mime_type.clone(),
                copy_bytes(&item.representations[i].data),
            );
            out.push(pair);
            assert(payload_pairs(out@) =~= payload_pairs(before).push(
                (reps[i as int].mime, reps[i as int].data),
            ));
            i += 1;
            assert(payload_pairs(out@) =~= rep_pairs(reps).take(i as int));
        }
        assert(rep_pairs(reps).take(reps.len() as int) =~= rep_pairs(reps));
        Some(ClipboardDragPayload { item_id, representations: out })
    }

    /// Hands out the queued actions, oldest first.
    pub fn take_actions(&mut self) -> (r: Vec<ClipboardAction>)
        requires
            old(self)@.wf(),
        ensures
            r@ == old(self)@.actions,
            final(self)@ == spec_take_actions(old(self)@),
            final(self)@.wf(),
    {
        let mut out: Vec<ClipboardAction> = Vec::new();
        std::mem::swap(&mut out, &mut self.actions);
        assert(self@.actions =~= Seq::<ClipboardAction>::empty());
        out
    }

    fn activate(&mut self, item_id: u64) -> (r: Result<u64, ClipboardError>)
        requires
            old(self)@.wf(),
        ensures
            (final(self)@, r) == spec_activate(old(self)@, item_id),
            final(self)@.wf(),
    {
        if self.locked {
            return Err(ClipboardError::Locked);
        }
        let item = match self.history_item(item_id) {
            Some(item) => copy_item(item),
            None => return Err(ClipboardError::NotFound),
        };
        let epoch = self.next_epoch;
        self.next_epoch = bump(self.next_epoch);
        self.current = CurrentSelection::Managed { epoch, item_id };
        self.managed = Some(item);
        self.pending_capture = None;
        self.actions = Vec::new();
        self.actions.push(ClipboardAction::Publish { epoch, item_id, paste: true });
        self.revision = bump(self.revision);
        assert(self@.actions =~= seq![ClipboardAction::Publish { epoch, item_id, paste: true }]);
        Ok(self.revision)
    }

    fn set_pinned(&mut self, item_id: u64, pinned: bool) -> (r: Result<u64, ClipboardError>)
        requires
            old(self)@.wf(),
        ensures
            (final(self)@, r) == spec_set_pinned(old(self)@, item_id, pinned),
            final(self)@.wf(),
    {
        if self.locked {
            return Err(ClipboardError::Locked);
        }
        let index = match position_of(&self.history, item_id) {
            Some(i) => i,
            None => return Err(ClipboardError::NotFound),
        };
        if self.history[index].pinned == pinned {
            return Ok(self.revision);
        }
        let ghost h0 = self@.history;
        let mut item = copy_item(&self.history[index]);
        item.pinned = pinned;
        let ghost iv = item@;
        let copy = copy_item(&item);
        self.history.set(index, item);
        assert(items_view(self.history@) =~= h0.update(index as int, iv));
        let managed_matches = match &self.managed {
            Some(m) => m.id == item_id,
            None => false,
        };
        if managed_matches {
            self.managed = Some(copy);
        }
        self.revision = bump(self.revision);
        proof {
            lemma_sum_bytes_update(h0, index as int, iv);
            let h1 = h0.update(index as int, iv);
            assert forall|i: int| 0 <= i < h1.len() implies item_ok(#[trigger] h1[i]) by {
                assert(item_ok(h0[i]));
            }
            if let CurrentSelection::External { history_item_id: Some(id), .. } = self.current {
                let k = choose|k: int| 0 <= k < h0.len() && h0[k].id == id;
                assert(h1[k].id == id);
            }
        }
        Ok(self.revision)
    }

    fn delete(&mut self, item_id: u64) -> (r: Result<u64, ClipboardError>)
        requires
            old(self)@.wf(),
        ensures
            (final(self)@, r) == spec_delete(old(self)@, item_id),
            final(self)@.wf(),
    {
        if self.locked {
            return Err(ClipboardError::Locked);
        }
        let index = match position_of(&self.history, item_id) {
            Some(i) => i,
            None => return Err(ClipboardError::NotFound),
        };
        let ghost h0 = self@.history;
        let ghost cur0 = self.current;
        proof {
            lemma_sum_bytes_remove(h0, index as int);
            lemma_sum_bytes_nonneg(h0.remove(index as int));
            assert(crate::clipboard::history::is_first(
                h0,
                crate::clipboard::history::has_id(item_id),
                index as int,
            ));
        }
        let removed = self.history.remove(index);
        assert(items_view(self.history@) =~= h0.remove(index as int));
        self.history_bytes = self.history_bytes - removed.byte_len;
        match self.current {
            CurrentSelection::Managed { item_id: active, .. } => {
                if active == item_id {
                    let epoch = self.next_epoch;
                    self.next_epoch = bump(self.next_epoch);
                    self.current = CurrentSelection::Unowned;
                    self.managed = None;
                    self.actions = Vec::new();
                    self.actions.push(ClipboardAction::Clear { epoch });
                    assert(self@.actions =~= seq![ClipboardAction::Clear { epoch }]);
                }
            },
            CurrentSelection::External { epoch, history_item_id: Some(id) } => {
                if id == item_id {
                    self.current = CurrentSelection::External { epoch, history_item_id: None };
                }
            },
            _ => {},
        }
        self.revision = bump(self.revision);
        proof {
            let h1 = h0.remove(index as int);
            assert forall|i: int| 0 <= i < h1.len() implies item_ok(#[trigger] h1[i]) by {
                if i < index {
                    assert(item_ok(h0[i]));
                } else {
                    assert(item_ok(h0[i + 1]));
                }
            }
            if let CurrentSelection::External { history_item_id: Some(id), .. } = self.current {
                assert(id != item_id);
                let k = choose|k: int| 0 <= k < h0.len() && h0[k].id == id;
                if k < index {
                    assert(h1[k].id == id);
                } else {
                    assert(k != index);
                    assert(h1[k - 1].id == id);
                }
            }
        }
        Ok(self.revision)
    }

    fn clear(&mut self) -> (r: Result<u64, ClipboardError>)
        requires
            old(self)@.wf(),
        ensures
            (final(self)@, r) == spec_clear(old(self)@),
            final(self)@.wf(),
    {
        if self.locked {
            return Err(ClipboardError::Locked);
        }
        let ghost m0 = self@;
        let ghost h0 = m0.history;
        let mut kept: Vec<ClipboardItem> = Vec::new();
        let mut i: usize = 0;
        while i < self.history.len()
            invariant
                h0 == items_view(self.history@),
                i <= h0.len(),
                items_view(kept@) == keep_pinned(h0.take(i as int)),
            decreases h0.len() - i,
        {
            assert(h0.take(i + 1).drop_last() =~= h0.take(i as int));
            if self.history[i].pinned {
                let ghost before = items_view(kept@);
                kept.push(copy_item(&self.history[i]));
                assert(items_view(kept@) =~= before.push(h0[i as int]));
            }
            i += 1;
        }
        assert(h0.take(h0.len() as int) =~= h0);
        let ghost h1 = keep_pinned(h0);
        proof {
            lemma_keep_pinned(h0);
            lemma_sum_keep_pinned(h0);
            lemma_keep_pinned_ids(h0);
        }
        self.history = kept;
        self.recalculate_history_bytes();
        proof {
            lemma_sum_bytes_nonneg(h1);
        }
        self.pending_capture = None;
        match self.current {
            CurrentSelection::Managed { item_id, .. } => {
                let found = match self.history_item(item_id) {
                    Some(item) => Some(copy_item(item)),
                    None => None,
                };
                proof {
                    lemma_lookup_some(h1, item_id);
                }
                match found {
                    Some(item) => {
                        self.managed = Some(item);
                    },
                    None => {
                        let epoch = self.next_epoch;
                        self.next_epoch = bump(self.next_epoch);
                        self.current = CurrentSelection::Unowned;
                        self.managed = None;
                        self.actions = Vec::new();
                        self.actions.push(ClipboardAction::Clear { epoch });
                        assert(self@.actions =~= seq![ClipboardAction::Clear { epoch }]);
                    },
                }
            },
            CurrentSelection::External { epoch, history_item_id } => {
                let kept_id = match history_item_id {
                    Some(id) => {
                        proof {
                            lemma_lookup_some(h1, id);
                        }
                        if position_of(&self.history, id).is_some() {
                            Some(id)
                        } else {
                            None
                        }
                    },
                    None => None,
                };
                self.current = CurrentSelection::External { epoch, history_item_id: kept_id };
                self.managed = None;
            },
            CurrentSelection::Unowned => {
                self.managed = None;
            },
        }
        self.revision = bump(self.revision);
        Ok(self.revision)
    }

    fn set_paused(&mut self, paused: bool) -> (r: Result<u64, ClipboardError>)
        requires
            old(self)@.wf(),
        ensures
            (final(self)@, r) == spec_set_paused(old(self)@, paused),
            final(self)@.wf(),
    {
        if self.locked {
            return Err(ClipboardError::Locked);
        }
        if self.paused == paused {
            return Ok(self.revision);
        }
        self.paused = paused;
        if paused {
            self.pending_capture = None;
        }
        self.revision = bump(self.revision);
        Ok(self.revision)
    }

    fn start_drag(&mut self, item_id: u64) -> (r: Result<u64, ClipboardError>)
        requires
            old(self)@.wf(),
        ensures
            (final(self)@, r) == spec_start_drag(old(self)@, item_id),
            final(self)@.wf(),
    {
        if self.locked {
            return Err(ClipboardError::Locked);
        }
        proof {
            lemma_lookup_some(self@.history, item_id);
        }
        if self.history_item(item_id).is_none() {
            return Err(ClipboardError::NotFound);
        }
        self.actions.push(ClipboardAction::StartDrag { item_id });
        Ok(self.revision)
    }
}

/// Whether an entry matches a case-folded search query: the empty query
/// matches everything; otherwise the query must occur in the case-folded
/// preview, source application id or title, or one of the MIME types.
pub open spec fn item_matches(item: ItemView, q: Seq<char>) -> bool {
    ||| q.len() == 0
    ||| contains_seq(folded(item.preview), q)
    ||| (item.source matches Some(src) && (contains_seq(folded(src.0), q)
        || contains_seq(folded(src.1), q)))
    ||| exists|i: int|
        0 <= i < item.reps.len() && contains_seq(folded(#[trigger] item.reps[i].mime), q)
}

/// The entries matching `q`, newest first.
pub open spec fn matching(h: Seq<ItemView>, q: Seq<char>) -> Seq<ItemView>
    decreases h.len(),
{
    if h.len() == 0 {
        seq![]
    } else if item_matches(h.last(), q) {
        matching(h.drop_last(), q).push(h.last())
    } else {
        matching(h.drop_last(), q)
    }
}

/// The entries a snapshot lists: none while locked, else at most 100
/// matching entries.
pub open spec fn visible(m: ClipboardModel, q: Seq<char>) -> Seq<ItemView> {
    if m.locked {
        seq![]
    } else if matching(m.history, q).len() <= MAX_HISTORY_ITEMS {
        matching(m.history, q)
    } else {
        matching(m.history, q).take(MAX_HISTORY_ITEMS as int)
    }
}

/// The id of the owned selection's history entry, or 0 (also while locked).
pub open spec fn active_id(m: ClipboardModel) -> u64 {
    if m.locked {
        0
    } else {
        match m.current {
            CurrentSelection::Managed { item_id, .. } => if contains_id(m.history, item_id) {
                item_id
            } else {
                0
            },
            _ => 0,
        }
    }
}

pub open spec fn origin_code(o: ClipboardOrigin) -> u8 {
    match o {
        ClipboardOrigin::Wayland => 0,
        ClipboardOrigin::X11 => 1,
        ClipboardOrigin::Flutter => 2,
    }
}

pub open spec fn kind_code(k: ClipboardContentKind) -> u8 {
    match k {
        ClipboardContentKind::Text => 0,
        ClipboardContentKind::Image => 1,
    }
}

pub open spec fn mimes_field(reps: Seq<RepView>) -> Seq<u8>
    decreases reps.len(),
{
    if reps.len() == 0 {
        seq![]
    } else {
        mimes_field(reps.drop_last()) + string_field(encode_utf8(reps.last().mime))
    }
}

/// Entry flags: bit 0 pinned, bit 1 the active selection.
pub open spec fn entry_flags(item: ItemView, active: u64) -> u8 {
    ((if item.pinned {
        1int
    } else {
        0int
    }) + (if active == item.id {
        2int
    } else {
        0int
    })) as u8
}

/// One snapshot entry.
pub open spec fn entry_bytes(item: ItemView, active: u64) -> Seq<u8> {
    entry_head(item, active) + entry_tail(item)
}

/// The fixed-size part of a snapshot entry.
pub open spec fn entry_head(item: ItemView, active: u64) -> Seq<u8> {
    le64_bytes(item.id) + le64_bytes(item.captured_unix_ms) + le64_bytes(item.byte_len as u64)
        + le32_bytes(item.width) + le32_bytes(item.height) + seq![
        origin_code(item.origin),
        kind_code(item.kind),
        entry_flags(item, active),
        (if item.reps.len() <= 255 {
            item.reps.len() as int
        } else {
            255int
        }) as u8,
    ]
}

/// The strings of a snapshot entry: preview, source and MIME types.
pub open spec fn entry_tail(item: ItemView) -> Seq<u8> {
    string_field(encode_utf8(item.preview)) + string_field(
        encode_utf8(
            match item.source {
                Some(src) => src.0,
                None => seq![],
            },
        ),
    ) + string_field(
        encode_utf8(
            match item.source {
                Some(src) => src.1,
                None => seq![],
            },
        ),
    ) + mimes_field(item.reps)
}

pub open spec fn entries_bytes(items: Seq<ItemView>, active: u64) -> Seq<u8>
    decreases items.len(),
{
    if items.len() == 0 {
        seq![]
    } else {
        entries_bytes(items.drop_last(), active) + entry_bytes(items.last(), active)
    }
}

/// Snapshot flags: bit 0 paused, bit 1 locked.
pub open spec fn snapshot_flags(m: ClipboardModel) -> u8 {
    ((if m.paused {
        1int
    } else {
        0int
    }) + (if m.locked {
        2int
    } else {
        0int
    })) as u8
}

/// The snapshot response for the case-folded query `q`.
pub open spec fn spec_snapshot(m: ClipboardModel, q: Seq<char>) -> Seq<u8> {
    header_bytes(RESPONSE_SNAPSHOT, STATUS_OK) + le64_bytes(m.revision) + le64_bytes(
        if m.locked {
            0
        } else {
            m.history_bytes as u64
        },
    ) + le64_bytes(active_id(m)) + seq![snapshot_flags(m)] + le16_bytes(
        visible(m, q).len() as u16,
    ) + entries_bytes(visible(m, q), active_id(m))
}

pub open spec fn respond(r: (ClipboardModel, Result<u64, ClipboardError>)) -> (ClipboardModel, Seq<u8>) {
    (
        r.0,
        match r.1 {
            Ok(revision) => spec_encode_ack(revision),
            Err(e) => spec_encode_error(e),
        },
    )
}

/// The new state and the response for a control packet.
pub open spec fn spec_handle(m: ClipboardModel, p: Seq<u8>) -> (ClipboardModel, Seq<u8>) {
    match spec_decode_request(p) {
        Err(e) => (m, spec_encode_error(e)),
        Ok(RequestModel::Snapshot { query }) => (m, spec_snapshot(m, folded(query))),
        Ok(RequestModel::Read { item_id, mime_type }) => if m.locked {
            (m, spec_encode_error(ClipboardError::Locked))
        } else {
            match lookup(m.history, item_id) {
                None => (m, spec_encode_error(ClipboardError::NotFound)),
                Some(item) => match spec_item_data(item, mime_type) {
                    None => (m, spec_encode_error(ClipboardError::Unsupported)),
                    Some(d) => (m, spec_encode_data(item_id, mime_type, d)),
                },
            }
        },
        Ok(RequestModel::Activate { item_id }) => respond(spec_activate(m, item_id)),
        Ok(RequestModel::SetPinned { item_id, pinned }) => respond(
            spec_set_pinned(m, item_id, pinned),
        ),
        Ok(RequestModel::Delete { item_id }) => respond(spec_delete(m, item_id)),
        Ok(RequestModel::Clear) => respond(spec_clear(m)),
        Ok(RequestModel::SetPaused { paused }) => respond(spec_set_paused(m, paused)),
        Ok(RequestModel::StartDrag { item_id }) => respond(spec_start_drag(m, item_id)),
    }
}

fn contains_folded(s: &str, q: &[char]) -> (r: bool)
    ensures
        r == contains_seq(folded(s@), q@),
{
    let lowered = fold(s);
    let chars = str_chars(lowered.as_str());
    chars_contain(chars.as_slice(), q)
}

fn matches_query(item: &ClipboardItem, q: &[char]) -> (r: bool)
    ensures
        r == item_matches(item@, q@),
{
    if q.len() == 0 {
        return true;
    }
    if contains_folded(item.preview.as_str(), q) {
        return true;
    }
    match &item.source {
        Some(src) => {
            if contains_folded(src.app_id.as_str(), q) || contains_folded(src.title.as_str(), q) {
                return true;
            }
        },
        None => {},
    }
    let ghost reps = item@.reps;
    let mut i: usize = 0;
    while i < item.representations.len()
        invariant
            reps == item@.reps,
            i <= reps.len(),
            forall|k: int|
                0 <= k < i ==> !contains_seq(folded(#[trigger] reps[k].mime), q@),
        decreases reps.len() - i,
    {
        if contains_folded(item.representations[i].mime_type.as_str(), q) {
            assert(contains_seq(folded(reps[i as int].mime), q@));
            return true;
        }
        i += 1;
    }
    false
}

fn put_mimes(out: &mut Vec<u8>, reps: &Vec<ClipboardRepresentation>)
    ensures
        final(out)@ == old(out)@ + mimes_field(reps_view(reps@)),
{
    let ghost v = reps_view(reps@);
    let ghost start = out@;
    let mut i: usize = 0;
    while i < reps.len()
        invariant
            v == reps_view(reps@),
            i <= v.len(),
            out@ == start + mimes_field(v.take(i as int)),
        decreases v.len() - i,
    {
        assert(v.take(i + 1).drop_last() =~= v.take(i as int));
        assert(v.take(i + 1).last() == v[i as int]);
        put_string(out, reps[i].mime_type.as_str());
        i += 1;
        assert(out@ =~= start + mimes_field(v.take(i as int)));
    }
    assert(v.take(v.len() as int) =~= v);
}

#[verifier::rlimit(30)]
fn put_entry_head(out: &mut Vec<u8>, item: &ClipboardItem, active: u64)
    ensures
        final(out)@ == old(out)@ + entry_head(item@, active),
{
    let ghost start = out@;
    put_u64(out, item.id);
    put_u64(out, item.captured_unix_ms);
    put_u64(out, item.byte_len as u64);
    put_u32(out, item.width);
    put_u32(out, item.height);
    let ghost mid = out@;
    assert(mid =~= start + le64_bytes(item.id) + le64_bytes(item.captured_unix_ms) + le64_bytes(
        item.byte_len as u64,
    ) + le32_bytes(item.width) + le32_bytes(item.height));
    put_u8(
        out,
        match item.origin {
            ClipboardOrigin::Wayland => 0,
            ClipboardOrigin::X11 => 1,
            ClipboardOrigin::Flutter => 2,
        },
    );
    put_u8(
        out,
        match item.kind {
            ClipboardContentKind::Text => 0,
            ClipboardContentKind::Image => 1,
        },
    );
    let pinned_bit: u8 = if item.pinned {
        1
    } else {
        0
    };
    let active_bit: u8 = if active == item.id {
        2
    } else {
        0
    };
    put_u8(out, pinned_bit + active_bit);
    let count: u8 = if item.representations.len() <= 255 {
        item.representations.len() as u8
    } else {
        255
    };
    put_u8(out, count);
    assert(out@ =~= start + entry_head(item@, active));
}

fn put_entry_tail(out: &mut Vec<u8>, item: &ClipboardItem)
    ensures
        final(out)@ == old(out)@ + entry_tail(item@),
{
    let ghost start = out@;
    put_string(out, item.preview.as_str());
    match &item.source {
        Some(src) => {
            put_string(out, src.app_id.as_str());
            put_string(out, src.title.as_str());
        },
        None => {
            proof {
                reveal_strlit("");
            }
            put_string(out, "");
            put_string(out, "");
        },
    }
    put_mimes(out, &item.representations);
    assert(out@ =~= start + entry_tail(item@));
}

fn put_entry(out: &mut Vec<u8>, item: &ClipboardItem, active: u64)
    ensures
        final(out)@ == old(out)@ + entry_bytes(item@, active),
{
    let ghost start = out@;
    put_entry_head(out, item, active);
    put_entry_tail(out, item);
    assert(out@ =~= start + entry_bytes(item@, active));
}

impl ClipboardManager {
    fn active_history_id(&self) -> (r: u64)
        ensures
            r == active_id(self@),
    {
        if self.locked {
            return 0;
        }
        match self.current {
            CurrentSelection::Managed { item_id, .. } => {
                proof {
                    lemma_lookup_some(self@.history, item_id);
                }
                if self.history_item(item_id).is_some() {
                    item_id
                } else {
                    0
                }
            },
            _ => 0,
        }
    }

    fn encode_snapshot(&self, folded_query: &[char]) -> (out: Vec<u8>)
        requires
            self@.wf(),
        ensures
            out@ == spec_snapshot(self@, folded_query@),
    {
        let ghost h = self@.history;
        let ghost q = folded_query@;
        let mut out = encode_header(RESPONSE_SNAPSHOT, STATUS_OK);
        put_u64(&mut out, self.revision);
        put_u64(
            &mut out,
            if self.locked {
                0
            } else {
                self.history_bytes as u64
            },
        );
        let active = self.active_history_id();
        put_u64(&mut out, active);
        let paused_bit: u8 = if self.paused {
            1
        } else {
            0
        };
        let locked_bit: u8 = if self.locked {
            2
        } else {
            0
        };
        put_u8(&mut out, paused_bit + locked_bit);
        let mut picked: Vec<usize> = Vec::new();
        if !self.locked {
            let mut i: usize = 0;
            while i < self.history.len()
                invariant
                    h == items_view(self.history@),
                    q == folded_query@,
                    i <= h.len(),
                    forall|k: int| 0 <= k < picked@.len() ==> picked@[k] < h.len(),
                    picked@.map_values(|k: usize| h[k as int]) == matching(h.take(i as int), q),
                decreases h.len() - i,
            {
                assert(h.take(i + 1).drop_last() =~= h.take(i as int));
                assert(h.take(i + 1).last() == h[i as int]);
                assert(h[i as int] == self.history@[i as int]@);
                if matches_query(&self.history[i], folded_query) {
                    let ghost before = picked@;
                    picked.push(i);
                    assert(picked@.map_values(|k: usize| h[k as int]) =~= before.map_values(
                        |k: usize| h[k as int],
                    ).push(h[i as int]));
                }
                i += 1;
            }
            assert(h.take(h.len() as int) =~= h);
        } else {
            assert(picked@.map_values(|k: usize| h[k as int]) =~= Seq::<ItemView>::empty());
        }
        let ghost all = picked@.map_values(|k: usize| h[k as int]);
        let n: usize = if picked.len() <= MAX_HISTORY_ITEMS {
            picked.len()
        } else {
            MAX_HISTORY_ITEMS
        };
        let ghost vis = visible(self@, q);
        assert(vis =~= all.take(n as int));
        put_u16(&mut out, n as u16);
        let ghost start = out@;
        let mut j: usize = 0;
        while j < n
            invariant
                h == items_view(self.history@),
                n <= picked@.len(),
                forall|k: int| 0 <= k < picked@.len() ==> picked@[k] < h.len(),
                all == picked@.map_values(|k: usize| h[k as int]),
                vis == all.take(n as int),
                j <= n,
                out@ == start + entries_bytes(vis.take(j as int), active),
            decreases n - j,
        {
            assert(vis.take(j + 1).drop_last() =~= vis.take(j as int));
            assert(vis.take(j + 1).last() == h[picked@[j as int] as int]);
            put_entry(&mut out, &self.history[picked[j]], active);
            j += 1;
        }
        assert(vis.take(n as int) =~= vis);
        assert(out@ =~= spec_snapshot(self@, q));
        out
    }

    /// The snapshot pushed to Flutter whenever the state changes.
    pub fn state_packet(&self) -> (out: Vec<u8>)
        requires
            self@.wf(),
        ensures
            out@ == spec_snapshot(self@, seq![]),
    {
        let empty: Vec<char> = Vec::new();
        self.encode_snapshot(empty.as_slice())
    }

    /// Answers one control packet from Flutter.
    #[verifier::rlimit(50)]
    #[verifier::spinoff_prover]
    pub fn handle_control_packet(&mut self, packet: &[u8]) -> (out: Vec<u8>)
        requires
            old(self)@.wf(),
        ensures
            (final(self)@, out@) == spec_handle(old(self)@, packet@),
            final(self)@.wf(),
    {
        let request = decode_request(packet);
        match request {
            Err(error) => encode_error(error),
            Ok(ClipboardRequest::Snapshot { query }) => {
                let lowered = fold(query.as_str());
                let chars = str_chars(lowered.as_str());
                self.encode_snapshot(chars.as_slice())
            },
            Ok(ClipboardRequest::Read { item_id, mime_type }) => {
                if self.locked {
                    return encode_error(ClipboardError::Locked);
                }
                let data = match self.history_item(item_id) {
                    None => return encode_error(ClipboardError::NotFound),
                    Some(item) => item_data(item, mime_type.as_str()),
                };
                match data {
                    None => encode_error(ClipboardError::Unsupported),
                    Some(d) => encode_data(item_id, mime_type.as_str(), d.as_slice()),
                }
            },
            Ok(ClipboardRequest::Activate { item_id }) => match self.activate(item_id) {
                Ok(revision) => encode_ack(revision),
                Err(e) => encode_error(e),
            },
            Ok(ClipboardRequest::SetPinned { item_id, pinned }) => match self.set_pinned(
                item_id,
                pinned,
            ) {
                Ok(revision) => encode_ack(revision),
                Err(e) => encode_error(e),
            },
            Ok(ClipboardRequest::Delete { item_id }) => match self.delete(item_id) {
                Ok(revision) => encode_ack(revision),
                Err(e) => encode_error(e),
            },
            Ok(ClipboardRequest::Clear) => match self.clear() {
                Ok(revision) => encode_ack(revision),
                Err(e) => encode_error(e),
            },
            Ok(ClipboardRequest::SetPaused { paused }) => match self.set_paused(paused) {
                Ok(revision) => encode_ack(revision),
                Err(e) => encode_error(e),
            },
            Ok(ClipboardRequest::StartDrag { item_id }) => match self.start_drag(item_id) {
                Ok(revision) => encode_ack(revision),
                Err(e) => encode_error(e),
            },
        }
    }
}

} // verus!
