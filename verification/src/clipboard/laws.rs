//! Properties of the clipboard history that hold across its operations.

use vstd::prelude::*;
use vstd::utf8::encode_utf8;
use crate::text::{
    spec_trim, spec_trim_start, spec_trim_end, spec_lower_chars, spec_is_whitespace, spec_is_control,
    spec_utf8_len,
};
use crate::clipboard::{
    ClipboardAction, ClipboardContentKind, ClipboardError, ClipboardOrigin, MAX_IMAGE_BYTES,
    MAX_TEXT_BYTES, MAX_SOURCE_APP_ID_BYTES, MAX_SOURCE_TITLE_BYTES, CaptureRepresentation,
};
use crate::clipboard::image::{
    spec_png_dimensions, spec_valid_image_dimensions, png_walk, png_signature, spec_be32, tag_at,
    tag_ihdr, tag_iend,
};
use crate::clipboard::content::{spec_validate, spec_bounded, remove_controls, lemma_sanitize};
use crate::clipboard::manager::{
    ClipboardModel, spec_set_text, spec_current_text, spec_insert, spec_retained_data,
    spec_retained_mime_types, spec_drag_payload, spec_handle, spec_snapshot, visible, active_id,
    victim, last_unpinned, lemma_last_unpinned_range, spec_set_image_png, spec_observe,
    observe_captures, item_matches, CurrentSelection, initial_model, next_nonzero,
    spec_set_locked, spec_finish, spec_set_paused, spec_activate, spec_take_actions,
    spec_set_pinned, spec_clear, keep_pinned, spec_delete, spec_start_drag,
};
use crate::clipboard::history::{
    RepView, ItemView, spec_make_item, best_text_index, spec_item_text, same_content, contains_id,
    lookup, index_of_id, has_id, is_first, lemma_first_exists, lemma_lookup_some,
};
use crate::clipboard::protocol::{
    request_magic, spec_le16, spec_le64, RequestModel, spec_decode_request, spec_encode_error,
    header_bytes, header_ok, RESPONSE_ERROR,
};
use vstd::utf8::valid_utf8;
use crate::clipboard::spec_status;
use crate::clipboard::mime::{
    spec_mime_kind, kind_of_lower, priority_of_lower, starts_with, spec_select, greedy, safe_mimes, with_priority,
    by_priority, offered_window, mime_text_ok, spec_priority, plan_matches,
};
use crate::text::{folded, all_ascii, contains_seq};
use crate::clipboard::MAX_REQUEST_BYTES;

verus! {

proof fn lemma_utf8_text_mime_kind()
    ensures
        spec_mime_kind("text/plain;charset=utf-8"@) == Some(ClipboardContentKind::Text),
{
    reveal_strlit("text/plain;charset=utf-8");
    reveal_strlit("text/plain;");
    let lit = "text/plain;charset=utf-8"@;
    assert(!spec_is_whitespace(lit[0]));
    assert(spec_trim_start(lit) == lit);
    assert(!spec_is_whitespace(lit.last()));
    assert(spec_trim_end(lit) == lit);
    assert(spec_lower_chars(lit) =~= lit);
    assert(lit.subrange(0, 11) =~= "text/plain;"@);
    assert(starts_with(lit, "text/plain;"@));
}

/// Text set by the shell reads back unchanged as the current selection:
/// text of at most 1 MiB without NUL bytes is accepted while unlocked, and
/// `current_text` then returns exactly that text.
pub proof fn law_set_text_reads_back(m: ClipboardModel, text: Seq<char>, now: u64)
    requires
        m.wf(),
        !m.locked,
        encode_utf8(text).len() <= MAX_TEXT_BYTES,
        !encode_utf8(text).contains(0u8),
    ensures
        spec_set_text(m, text, now).1 is Ok,
        spec_current_text(spec_set_text(m, text, now).0) == Some(text),
{
    lemma_utf8_text_mime_kind();
    vstd::utf8::encode_utf8_valid_utf8(text);
    vstd::utf8::encode_utf8_decode_utf8(text);
    let bytes = encode_utf8(text);
    assert(spec_validate("text/plain;charset=utf-8"@, bytes) == Some(
        (ClipboardContentKind::Text, None::<(u32, u32)>),
    ));
    let rep = RepView {
        mime: "text/plain;charset=utf-8"@,
        data: bytes,
        kind: ClipboardContentKind::Text,
        dimensions: None,
    };
    let item = spec_make_item(
        m.next_item_id,
        crate::clipboard::ClipboardOrigin::Flutter,
        crate::clipboard::content::spec_bounded("denial"@, "Denial shell"@),
        seq![rep],
        false,
        now,
    );
    assert(best_text_index(seq![rep]) == 0) by {
        assert(seq![rep].drop_last() =~= Seq::<RepView>::empty());
        assert(best_text_index(Seq::<RepView>::empty()) == -1);
        assert(seq![rep][0] == rep);
    }
    let stored = if m.paused {
        item
    } else {
        spec_insert(m.history, m.current, item).2
    };
    assert(stored.reps == seq![rep]);
    assert(spec_item_text(stored) == Some(text));
}

/// While the history is locked nothing retained can be read: there is no
/// current text, no retained data, MIME list or drag payload; every control
/// request other than a snapshot is refused as locked and changes nothing;
/// a snapshot lists no entry and no active entry; setting content fails
/// without any change, and a new selection starts no capture.
pub proof fn law_locked_history_is_unavailable(
    m: ClipboardModel,
    packet: Seq<u8>,
    id: u64,
    epoch: u64,
    mime: Seq<char>,
    text: Seq<char>,
    png: Seq<u8>,
    offered: Seq<Seq<char>>,
    now: u64,
)
    requires
        m.locked,
    ensures
        spec_current_text(m) is None,
        spec_retained_data(m, id, mime) is None,
        spec_retained_mime_types(m, epoch, id) is None,
        spec_drag_payload(m, id) is None,
        spec_decode_request(packet) matches Ok(req) && !(req is Snapshot) ==> spec_handle(m, packet)
            == (m, spec_encode_error(ClipboardError::Locked)),
        spec_decode_request(packet) matches Ok(RequestModel::Snapshot { query }) ==> spec_handle(
            m,
            packet,
        ) == (m, spec_snapshot(m, folded(query))),
        forall|q: Seq<char>| #[trigger] visible(m, q).len() == 0,
        active_id(m) == 0,
        spec_set_text(m, text, now).0 == m,
        spec_set_text(m, text, now).1 is Err,
        spec_set_image_png(m, png, now).0 == m,
        spec_set_image_png(m, png, now).1 is Err,
        !observe_captures(m, offered),
        spec_observe(m, crate::clipboard::ClipboardOrigin::Wayland, offered, None).pending is None,
{
}

/// A packet longer than 4096 bytes is answered as too large and changes
/// nothing.
pub proof fn law_oversized_request_is_refused(m: ClipboardModel, packet: Seq<u8>)
    requires
        packet.len() > MAX_REQUEST_BYTES,
    ensures
        spec_handle(m, packet) == (m, spec_encode_error(ClipboardError::TooLarge)),
{
}

proof fn lemma_after_last_unpinned(h: Seq<ItemView>)
    ensures
        forall|j: int| last_unpinned(h) < j < h.len() ==> (#[trigger] h[j]).pinned,
    decreases h.len(),
{
    if h.len() > 0 && h.last().pinned {
        let d = h.drop_last();
        lemma_after_last_unpinned(d);
        lemma_last_unpinned_range(h);
        lemma_last_unpinned_range(d);
        assert forall|j: int| last_unpinned(h) < j < h.len() implies (#[trigger] h[j]).pinned by {
            if j < h.len() - 1 {
                assert(h[j] == d[j]);
            }
        }
    }
}

/// Eviction picks the oldest unpinned entry (the history is newest first);
/// a pinned entry is evicted only when every entry is pinned, and then the
/// oldest one.
pub proof fn law_eviction_prefers_unpinned(h: Seq<ItemView>)
    requires
        h.len() > 0,
    ensures
        0 <= victim(h) < h.len(),
        (exists|i: int| 0 <= i < h.len() && !h[i].pinned) ==> !h[victim(h)].pinned && forall|j: int|
            victim(h) < j < h.len() ==> (#[trigger] h[j]).pinned,
        (forall|i: int| 0 <= i < h.len() ==> (#[trigger] h[i]).pinned) ==> victim(h) == h.len() - 1,
{
    lemma_last_unpinned_range(h);
    lemma_after_last_unpinned(h);
    if exists|i: int| 0 <= i < h.len() && !h[i].pinned {
        let i = choose|i: int| 0 <= i < h.len() && !h[i].pinned;
        assert(last_unpinned(h) >= 0);
    }
}

/// Recording content equal to the newest entry replaces that entry: the
/// stored entry keeps the earlier id and pin with the new representations.
pub proof fn law_duplicate_keeps_identity(h: Seq<ItemView>, cur: CurrentSelection, item: ItemView)
    requires
        h.len() > 0,
        same_content(h[0], item),
    ensures
        spec_insert(h, cur, item).2.id == h[0].id,
        spec_insert(h, cur, item).2.pinned == h[0].pinned,
        spec_insert(h, cur, item).2.reps == item.reps,
{
}

proof fn lemma_greedy(s: Seq<(Seq<char>, ClipboardContentKind)>)
    ensures
        greedy(s).0.len() <= 4,
        forall|i: int|
            0 <= i < greedy(s).0.len() ==> greedy(s).1.contains(
                spec_lower_chars(#[trigger] greedy(s).0[i].0),
            ),
        forall|i: int, j: int|
            0 <= i < j < greedy(s).0.len() ==> spec_lower_chars(#[trigger] greedy(s).0[i].0)
                != spec_lower_chars(#[trigger] greedy(s).0[j].0),
        greedy(s).2 <==> exists|i: int|
            0 <= i < greedy(s).0.len() && (#[trigger] greedy(s).0[i]).1
                == ClipboardContentKind::Image,
        forall|i: int, j: int|
            0 <= i < j < greedy(s).0.len() ==> !((#[trigger] greedy(s).0[i]).1
                == ClipboardContentKind::Image && (#[trigger] greedy(s).0[j]).1
                == ClipboardContentKind::Image),
    decreases s.len(),
{
    if s.len() > 0 {
        lemma_greedy(s.drop_last());
        let prev = greedy(s.drop_last());
        let g = greedy(s);
        if g.0.len() > prev.0.len() {
            assert forall|i: int| 0 <= i < prev.0.len() implies g.0[i] == prev.0[i] by {}
            let key = spec_lower_chars(s.last().0);
            assert(g.0[prev.0.len() as int] == s.last());
            assert forall|i: int| 0 <= i < g.0.len() implies g.1.contains(
                spec_lower_chars(#[trigger] g.0[i].0),
            ) by {
                if i < prev.0.len() {
                    assert(prev.1.contains(spec_lower_chars(prev.0[i].0)));
                }
            }
            assert forall|i: int, j: int| 0 <= i < j < g.0.len() implies spec_lower_chars(
                #[trigger] g.0[i].0,
            ) != spec_lower_chars(#[trigger] g.0[j].0) by {
                if j == prev.0.len() {
                    assert(prev.1.contains(spec_lower_chars(prev.0[i].0)));
                } else {
                    assert(g.0[i] == prev.0[i]);
                    assert(g.0[j] == prev.0[j]);
                }
            }
            if g.2 {
                if s.last().1 != ClipboardContentKind::Image {
                    let i = choose|i: int|
                        0 <= i < prev.0.len() && (#[trigger] prev.0[i]).1
                            == ClipboardContentKind::Image;
                    assert(g.0[i] == prev.0[i]);
                }
            } else {
                assert forall|i: int| 0 <= i < g.0.len() implies (#[trigger] g.0[i]).1
                    != ClipboardContentKind::Image by {
                    if i < prev.0.len() {
                        assert(g.0[i] == prev.0[i]);
                        if prev.0[i].1 == ClipboardContentKind::Image {
                            assert(prev.2);
                        }
                    }
                }
            }
            assert forall|i: int, j: int| 0 <= i < j < g.0.len() implies !((#[trigger] g.0[i]).1
                == ClipboardContentKind::Image && (#[trigger] g.0[j]).1
                == ClipboardContentKind::Image) by {
                if j == prev.0.len() {
                    assert(g.0[i] == prev.0[i]);
                    if prev.0[i].1 == ClipboardContentKind::Image {
                        assert(prev.2);
                    }
                } else {
                    assert(g.0[i] == prev.0[i]);
                    assert(g.0[j] == prev.0[j]);
                }
            }
        } else {
            assert(g.0 == prev.0);
            assert forall|i: int| 0 <= i < g.0.len() implies g.1.contains(
                spec_lower_chars(#[trigger] g.0[i].0),
            ) by {
                assert(prev.1.contains(spec_lower_chars(prev.0[i].0)));
            }
        }
    }
}

/// A capture plan asks for at most four representations, at most one of
/// them an image, and never for two types that differ only in ASCII case.
pub proof fn law_capture_plan_is_bounded(offered: Seq<Seq<char>>)
    ensures
        spec_select(offered).len() <= 4,
        forall|i: int, j: int|
            0 <= i < j < spec_select(offered).len() ==> spec_lower_chars(
                #[trigger] spec_select(offered)[i].0,
            ) != spec_lower_chars(#[trigger] spec_select(offered)[j].0),
        forall|i: int, j: int|
            0 <= i < j < spec_select(offered).len() ==> !((#[trigger] spec_select(offered)[i]).1
                == ClipboardContentKind::Image && (#[trigger] spec_select(offered)[j]).1
                == ClipboardContentKind::Image),
{
    let s = crate::clipboard::mime::by_priority(
        crate::clipboard::mime::safe_mimes(crate::clipboard::mime::offered_window(offered)),
    );
    lemma_greedy(s);
}

proof fn lemma_next_nonzero(v: u64)
    ensures
        next_nonzero(v) != 0,
        next_nonzero(v) != v,
{
}

/// The revision is never zero: a new clipboard starts at revision 1, and
/// every operation either keeps the revision or moves it to its successor,
/// which skips zero.
pub proof fn law_revision_is_never_zero(
    m: ClipboardModel,
    locked: bool,
    origin: ClipboardOrigin,
    offered: Seq<Seq<char>>,
    source: Option<(Seq<char>, Seq<char>)>,
    epoch: u64,
    mime: Seq<char>,
    data: Option<Seq<u8>>,
    text: Seq<char>,
    png: Seq<u8>,
    packet: Seq<u8>,
    now: u64,
)
    requires
        m.wf(),
    ensures
        initial_model().revision == 1,
        m.revision != 0,
        spec_set_locked(m, locked).revision != 0,
        spec_observe(m, origin, offered, source).revision != 0,
        spec_finish(m, epoch, mime, data, now).revision != 0,
        spec_set_text(m, text, now).0.revision != 0,
        spec_set_image_png(m, png, now).0.revision != 0,
        spec_handle(m, packet).0.revision != 0,
{
    lemma_next_nonzero(m.revision);
    lemma_next_nonzero(m.next_epoch);
}

/// While the history is locked or paused a new selection is not captured:
/// no capture starts, the revision moves on, the managed selection is
/// dropped, and right after unlocking or resuming there is no current text.
pub proof fn law_locked_or_paused_selection_is_not_captured(
    m: ClipboardModel,
    origin: ClipboardOrigin,
    offered: Seq<Seq<char>>,
    source: Option<(Seq<char>, Seq<char>)>,
)
    requires
        m.wf(),
        m.locked || m.paused,
    ensures
        !observe_captures(m, offered),
        spec_observe(m, origin, offered, source).pending is None,
        spec_observe(m, origin, offered, source).managed is None,
        spec_observe(m, origin, offered, source).revision != m.revision,
        spec_current_text(spec_set_locked(spec_observe(m, origin, offered, source), false))
            is None,
        spec_current_text(spec_set_paused(spec_observe(m, origin, offered, source), false).0)
            is None,
{
    lemma_next_nonzero(m.revision);
}

proof fn lemma_stored_id_nonzero(m: ClipboardModel, item: ItemView)
    requires
        m.wf(),
        item.id != 0,
    ensures
        spec_insert(m.history, m.current, item).2.id != 0,
{
    if m.history.len() > 0 && same_content(m.history[0], item) {
        assert(m.history[0].id != 0);
    }
}

/// `set_text` refuses, in this order, text over 1 MiB as too large, text
/// with a NUL byte as unsupported, and any text while locked; otherwise it
/// succeeds with a non-zero entry id. A refusal changes nothing.
pub proof fn law_set_text_outcomes(m: ClipboardModel, text: Seq<char>, now: u64)
    requires
        m.wf(),
    ensures
        encode_utf8(text).len() > MAX_TEXT_BYTES ==> spec_set_text(m, text, now).1 == Err::<
            u64,
            ClipboardError,
        >(ClipboardError::TooLarge),
        encode_utf8(text).len() <= MAX_TEXT_BYTES && encode_utf8(text).contains(0u8) ==> spec_set_text(
            m,
            text,
            now,
        ).1 == Err::<u64, ClipboardError>(ClipboardError::Unsupported),
        encode_utf8(text).len() <= MAX_TEXT_BYTES && !encode_utf8(text).contains(0u8) && m.locked
            ==> spec_set_text(m, text, now).1 == Err::<u64, ClipboardError>(
            ClipboardError::Locked,
        ),
        encode_utf8(text).len() <= MAX_TEXT_BYTES && !encode_utf8(text).contains(0u8) && !m.locked
            ==> (spec_set_text(m, text, now).1 matches Ok(id) && id != 0),
        spec_set_text(m, text, now).1 is Err ==> spec_set_text(m, text, now).0 == m,
{
    let bytes = encode_utf8(text);
    if bytes.len() <= MAX_TEXT_BYTES && !bytes.contains(0u8) {
        lemma_utf8_text_mime_kind();
        vstd::utf8::encode_utf8_valid_utf8(text);
        assert(spec_validate("text/plain;charset=utf-8"@, bytes) == Some(
            (ClipboardContentKind::Text, None::<(u32, u32)>),
        ));
        if !m.locked {
            let rep = RepView {
                mime: "text/plain;charset=utf-8"@,
                data: bytes,
                kind: ClipboardContentKind::Text,
                dimensions: None,
            };
            let item = spec_make_item(
                m.next_item_id,
                ClipboardOrigin::Flutter,
                crate::clipboard::content::spec_bounded("denial"@, "Denial shell"@),
                seq![rep],
                false,
                now,
            );
            assert(item.id == m.next_item_id);
            lemma_stored_id_nonzero(m, item);
        }
    }
}

proof fn lemma_png_mime()
    ensures
        spec_mime_kind("image/png"@) == Some(ClipboardContentKind::Image),
        spec_lower_chars("image/png"@) == "image/png"@,
{
    reveal_strlit("image/png");
    reveal_strlit("text/plain");
    reveal_strlit("text/plain;");
    reveal_strlit("text/uri-list");
    let lit = "image/png"@;
    assert(!spec_is_whitespace(lit[0]));
    assert(spec_trim_start(lit) == lit);
    assert(!spec_is_whitespace(lit.last()));
    assert(spec_trim_end(lit) == lit);
    assert(spec_lower_chars(lit) =~= lit);
    assert(!starts_with(lit, "text/plain;"@)) by {
        assert(lit.len() < "text/plain;"@.len());
    }
}

/// `set_image_png` refuses data over 16 MiB as too large, then anything
/// that is not a PNG with dimensions from 1 to 16384 on each side and at
/// most 64 Mi pixels as unsupported, then any image while locked; otherwise
/// it succeeds with a non-zero entry id. A refusal changes nothing.
pub proof fn law_set_image_png_outcomes(m: ClipboardModel, data: Seq<u8>, now: u64)
    requires
        m.wf(),
    ensures
        data.len() > MAX_IMAGE_BYTES ==> spec_set_image_png(m, data, now).1 == Err::<
            u64,
            ClipboardError,
        >(ClipboardError::TooLarge),
        data.len() <= MAX_IMAGE_BYTES && !(spec_png_dimensions(data) matches Some(d)
            && spec_valid_image_dimensions(d)) ==> spec_set_image_png(m, data, now).1 == Err::<
            u64,
            ClipboardError,
        >(ClipboardError::Unsupported),
        data.len() <= MAX_IMAGE_BYTES && (spec_png_dimensions(data) matches Some(d)
            && spec_valid_image_dimensions(d)) && m.locked ==> spec_set_image_png(m, data, now).1
            == Err::<u64, ClipboardError>(ClipboardError::Locked),
        data.len() <= MAX_IMAGE_BYTES && (spec_png_dimensions(data) matches Some(d)
            && spec_valid_image_dimensions(d)) && !m.locked ==> (spec_set_image_png(
            m,
            data,
            now,
        ).1 matches Ok(id) && id != 0),
        spec_set_image_png(m, data, now).1 is Err ==> spec_set_image_png(m, data, now).0 == m,
{
    lemma_png_mime();
    if data.len() <= MAX_IMAGE_BYTES {
        if let Some((kind, dims)) = spec_validate("image/png"@, data) {
            if !m.locked {
                let rep = RepView { mime: "image/png"@, data, kind, dimensions: dims };
                let item = spec_make_item(
                    m.next_item_id,
                    ClipboardOrigin::Flutter,
                    crate::clipboard::content::spec_bounded("denial"@, "Denial screenshot"@),
                    seq![rep],
                    false,
                    now,
                );
                lemma_stored_id_nonzero(m, item);
            }
        }
    }
}

/// Only the shell's own requests make Denial publish a selection: setting
/// text or an image queues one publication without paste, activating a
/// history entry queues one with paste, and unlocking republishes a managed
/// selection without paste. A new selection from another client queues
/// nothing and drops what was queued, and a finished capture leaves the
/// queue as it was.
pub proof fn law_only_shell_requests_publish(
    m: ClipboardModel,
    origin: ClipboardOrigin,
    offered: Seq<Seq<char>>,
    source: Option<(Seq<char>, Seq<char>)>,
    epoch: u64,
    mime: Seq<char>,
    data: Option<Seq<u8>>,
    text: Seq<char>,
    png: Seq<u8>,
    id: u64,
    locked: bool,
    now: u64,
)
    ensures
        spec_observe(m, origin, offered, source).actions == Seq::<ClipboardAction>::empty(),
        spec_finish(m, epoch, mime, data, now).actions == m.actions,
        spec_set_text(m, text, now).1 matches Ok(item_id) ==> spec_set_text(m, text, now).0.actions
            == seq![ClipboardAction::Publish { epoch: m.next_epoch, item_id, paste: false }],
        spec_set_image_png(m, png, now).1 matches Ok(item_id) ==> spec_set_image_png(
            m,
            png,
            now,
        ).0.actions == seq![
            ClipboardAction::Publish { epoch: m.next_epoch, item_id, paste: false },
        ],
        spec_activate(m, id).1 is Ok ==> spec_activate(m, id).0.actions == seq![
            ClipboardAction::Publish { epoch: m.next_epoch, item_id: id, paste: true },
        ],
        spec_set_locked(m, locked).actions == if m.locked == locked {
            m.actions
        } else if !locked && m.current is Managed {
            seq![
                ClipboardAction::Publish {
                    epoch: m.current->Managed_epoch,
                    item_id: m.current->Managed_item_id,
                    paste: false,
                },
            ]
        } else {
            Seq::<ClipboardAction>::empty()
        },
{
    assert(spec_observe(m, origin, offered, source).actions =~= Seq::<ClipboardAction>::empty());
    if m.locked != locked && !(!locked && m.current is Managed) {
        assert(spec_set_locked(m, locked).actions =~= Seq::<ClipboardAction>::empty());
    }
}

/// A snapshot request with an empty query: magic, version 1, command 0, a
/// zero reserved byte and a query of length zero.
pub open spec fn empty_snapshot_request() -> Seq<u8> {
    seq![0x44u8, 0x43, 0x4c, 0x50, 1, 0, 0, 0, 0, 0]
}

/// The state packet is the answer to a snapshot request with an empty
/// query, and answering that request changes nothing.
pub proof fn law_state_packet_is_the_unfiltered_snapshot(m: ClipboardModel)
    ensures
        spec_handle(m, empty_snapshot_request()) == (m, spec_snapshot(m, Seq::<char>::empty())),
{
    let p = empty_snapshot_request();
    assert(p.subrange(0, 4) =~= crate::clipboard::protocol::request_magic());
    assert(p.subrange(10, 10) =~= Seq::<u8>::empty());
    assert(!Seq::<u8>::empty().contains(0u8));
    assert(vstd::utf8::valid_utf8(Seq::<u8>::empty()));
    assert(vstd::utf8::decode_utf8(Seq::<u8>::empty()) =~= Seq::<char>::empty());
    assert(spec_decode_request(p) == Ok::<RequestModel, ClipboardError>(
        RequestModel::Snapshot { query: Seq::<char>::empty() },
    ));
}

/// A request that cannot be decoded changes nothing. It is answered by an
/// error response whose eight-byte header carries the error's status: too
/// large for a packet over 4096 bytes (or a string over its limit), and a
/// malformed request for anything else, such as a wrong magic, version,
/// command or reserved byte. No other status answers an undecodable
/// request.
pub proof fn law_undecodable_request_is_refused(m: ClipboardModel, packet: Seq<u8>)
    requires
        spec_decode_request(packet) is Err,
    ensures
        spec_handle(m, packet).0 == m,
        spec_handle(m, packet).1 == spec_encode_error(spec_decode_request(packet)->Err_0),
        spec_handle(m, packet).1.take(8) == header_bytes(
            RESPONSE_ERROR,
            spec_status(spec_decode_request(packet)->Err_0),
        ),
        spec_decode_request(packet)->Err_0 == ClipboardError::TooLarge || spec_decode_request(
            packet,
        )->Err_0 == ClipboardError::BadRequest,
        packet.len() > MAX_REQUEST_BYTES ==> spec_decode_request(packet)->Err_0
            == ClipboardError::TooLarge,
        packet.len() <= MAX_REQUEST_BYTES && !header_ok(packet) ==> spec_decode_request(
            packet,
        )->Err_0 == ClipboardError::BadRequest,
{
    let e = spec_decode_request(packet)->Err_0;
    let out = spec_encode_error(e);
    assert(out.take(8) =~= header_bytes(RESPONSE_ERROR, spec_status(e)));
}

/// A source identity is `None` exactly when both fields are empty once
/// control characters are removed and white space is trimmed; otherwise each
/// field is a prefix of that cleaned text, holds no control character, has
/// no white space at either end, and fits its byte limit (512 bytes for the
/// application id, 1024 for the title).
pub proof fn law_source_identity_is_bounded(app_id: Seq<char>, title: Seq<char>)
    ensures
        ({
            let va = spec_trim(remove_controls(app_id));
            let vt = spec_trim(remove_controls(title));
            &&& (spec_bounded(app_id, title) is None <==> va.len() == 0 && vt.len() == 0)
            &&& spec_bounded(app_id, title) matches Some((a, t)) ==> {
                &&& a == va.take(a.len() as int)
                &&& t == vt.take(t.len() as int)
                &&& forall|i: int| 0 <= i < a.len() ==> !spec_is_control(#[trigger] a[i])
                &&& forall|i: int| 0 <= i < t.len() ==> !spec_is_control(#[trigger] t[i])
                &&& a.len() > 0 ==> !spec_is_whitespace(a[0]) && !spec_is_whitespace(a.last())
                &&& t.len() > 0 ==> !spec_is_whitespace(t[0]) && !spec_is_whitespace(t.last())
                &&& spec_utf8_len(a) <= 512
                &&& spec_utf8_len(t) <= 1024
            }
        }),
{
    lemma_sanitize(app_id, MAX_SOURCE_APP_ID_BYTES as int);
    lemma_sanitize(title, MAX_SOURCE_TITLE_BYTES as int);
}

/// Whether the entries of `s` come in non-decreasing capture priority.
pub open spec fn priority_sorted(s: Seq<(Seq<char>, ClipboardContentKind)>) -> bool {
    forall|i: int, j: int|
        0 <= i < j < s.len() ==> spec_priority((#[trigger] s[i]).0) <= spec_priority(
            (#[trigger] s[j]).0,
        )
}

/// Whether `e` is an acceptable offered type, taken from `window`, with its kind.
pub open spec fn offered_and_safe(
    window: Seq<Seq<char>>,
    e: (Seq<char>, ClipboardContentKind),
) -> bool {
    &&& window.contains(e.0)
    &&& mime_text_ok(e.0)
    &&& spec_mime_kind(e.0) == Some(e.1)
}

proof fn lemma_safe_mimes(w: Seq<Seq<char>>)
    ensures
        forall|i: int|
            0 <= i < safe_mimes(w).len() ==> offered_and_safe(w, #[trigger] safe_mimes(w)[i]),
    decreases w.len(),
{
    if w.len() > 0 {
        let d = w.drop_last();
        lemma_safe_mimes(d);
        let prev = safe_mimes(d);
        assert forall|i: int| 0 <= i < safe_mimes(w).len() implies offered_and_safe(
            w,
            #[trigger] safe_mimes(w)[i],
        ) by {
            if i < prev.len() {
                assert(safe_mimes(w)[i] == prev[i]);
                assert(offered_and_safe(d, prev[i]));
                let j = choose|j: int| 0 <= j < d.len() && d[j] == prev[i].0;
                assert(w[j] == prev[i].0);
            } else {
                assert(w[w.len() - 1] == w.last());
            }
        }
    }
}

proof fn lemma_with_priority(s: Seq<(Seq<char>, ClipboardContentKind)>, p: u8)
    ensures
        forall|i: int|
            0 <= i < with_priority(s, p).len() ==> s.contains(#[trigger] with_priority(s, p)[i])
                && spec_priority(with_priority(s, p)[i].0) == p,
    decreases s.len(),
{
    if s.len() > 0 {
        let d = s.drop_last();
        lemma_with_priority(d, p);
        let prev = with_priority(d, p);
        assert forall|i: int| 0 <= i < with_priority(s, p).len() implies s.contains(
            #[trigger] with_priority(s, p)[i],
        ) && spec_priority(with_priority(s, p)[i].0) == p by {
            if i < prev.len() {
                assert(with_priority(s, p)[i] == prev[i]);
                assert(d.contains(prev[i]));
                let j = choose|j: int| 0 <= j < d.len() && d[j] == prev[i];
                assert(s[j] == prev[i]);
            } else {
                assert(s[s.len() - 1] == s.last());
            }
        }
    }
}

proof fn lemma_append_bucket(
    a: Seq<(Seq<char>, ClipboardContentKind)>,
    b: Seq<(Seq<char>, ClipboardContentKind)>,
    s: Seq<(Seq<char>, ClipboardContentKind)>,
    lo: u8,
    p: u8,
)
    requires
        lo <= p,
        priority_sorted(a),
        forall|i: int| 0 <= i < a.len() ==> s.contains(#[trigger] a[i]) && spec_priority(a[i].0) <= lo,
        forall|i: int| 0 <= i < b.len() ==> s.contains(#[trigger] b[i]) && spec_priority(b[i].0) == p,
    ensures
        priority_sorted(a + b),
        forall|i: int|
            0 <= i < (a + b).len() ==> s.contains(#[trigger] (a + b)[i]) && spec_priority(
                (a + b)[i].0,
            ) <= p,
{
    let c = a + b;
    assert forall|i: int| 0 <= i < c.len() implies s.contains(#[trigger] c[i]) && spec_priority(
        c[i].0,
    ) <= p by {
        if i < a.len() {
            assert(c[i] == a[i]);
        } else {
            assert(c[i] == b[i - a.len()]);
        }
    }
    assert forall|i: int, j: int| 0 <= i < j < c.len() implies spec_priority(
        (#[trigger] c[i]).0,
    ) <= spec_priority((#[trigger] c[j]).0) by {
        if j < a.len() {
            assert(c[i] == a[i]);
            assert(c[j] == a[j]);
        } else if i < a.len() {
            assert(c[i] == a[i]);
            assert(c[j] == b[j - a.len()]);
        } else {
            assert(c[i] == b[i - a.len()]);
            assert(c[j] == b[j - a.len()]);
        }
    }
}

proof fn lemma_by_priority(s: Seq<(Seq<char>, ClipboardContentKind)>)
    ensures
        priority_sorted(by_priority(s)),
        forall|i: int| 0 <= i < by_priority(s).len() ==> s.contains(#[trigger] by_priority(s)[i]),
{
    lemma_with_priority(s, 0);
    lemma_with_priority(s, 1);
    lemma_with_priority(s, 2);
    lemma_with_priority(s, 3);
    lemma_with_priority(s, 4);
    lemma_with_priority(s, 5);
    lemma_with_priority(s, 6);
    lemma_with_priority(s, 255);
    let b0 = with_priority(s, 0);
    let b1 = with_priority(s, 1);
    let b2 = with_priority(s, 2);
    let b3 = with_priority(s, 3);
    let b4 = with_priority(s, 4);
    let b5 = with_priority(s, 5);
    let b6 = with_priority(s, 6);
    let b7 = with_priority(s, 255);
    let e: Seq<(Seq<char>, ClipboardContentKind)> = seq![];
    assert(e + b0 =~= b0);
    lemma_append_bucket(e, b0, s, 0, 0);
    lemma_append_bucket(b0, b1, s, 0, 1);
    lemma_append_bucket(b0 + b1, b2, s, 1, 2);
    lemma_append_bucket(b0 + b1 + b2, b3, s, 2, 3);
    lemma_append_bucket(b0 + b1 + b2 + b3, b4, s, 3, 4);
    lemma_append_bucket(b0 + b1 + b2 + b3 + b4, b5, s, 4, 5);
    lemma_append_bucket(b0 + b1 + b2 + b3 + b4 + b5, b6, s, 5, 6);
    lemma_append_bucket(b0 + b1 + b2 + b3 + b4 + b5 + b6, b7, s, 6, 255);
}

proof fn lemma_greedy_keeps(s: Seq<(Seq<char>, ClipboardContentKind)>)
    ensures
        forall|i: int| 0 <= i < greedy(s).0.len() ==> s.contains(#[trigger] greedy(s).0[i]),
        priority_sorted(s) ==> priority_sorted(greedy(s).0),
    decreases s.len(),
{
    if s.len() > 0 {
        let d = s.drop_last();
        lemma_greedy_keeps(d);
        let prev = greedy(d).0;
        let g = greedy(s).0;
        assert forall|i: int| 0 <= i < prev.len() implies exists|j: int|
            0 <= j < d.len() && d[j] == #[trigger] prev[i] by {
            assert(d.contains(prev[i]));
        }
        assert forall|i: int| 0 <= i < g.len() implies s.contains(#[trigger] g[i]) by {
            if i < prev.len() {
                assert(g[i] == prev[i]);
                let j = choose|j: int| 0 <= j < d.len() && d[j] == prev[i];
                assert(s[j] == prev[i]);
            } else {
                assert(s[s.len() - 1] == s.last());
            }
        }
        if priority_sorted(s) {
            assert(priority_sorted(d)) by {
                assert forall|i: int, j: int| 0 <= i < j < d.len() implies spec_priority(
                    (#[trigger] d[i]).0,
                ) <= spec_priority((#[trigger] d[j]).0) by {
                    assert(d[i] == s[i]);
                    assert(d[j] == s[j]);
                }
            }
            assert forall|i: int, j: int| 0 <= i < j < g.len() implies spec_priority(
                (#[trigger] g[i]).0,
            ) <= spec_priority((#[trigger] g[j]).0) by {
                if j < prev.len() {
                    assert(g[i] == prev[i]);
                    assert(g[j] == prev[j]);
                } else {
                    assert(g[i] == prev[i]);
                    assert(g[j] == s.last());
                    let k = choose|k: int| 0 <= k < d.len() && d[k] == prev[i];
                    assert(s[k] == prev[i]);
                    assert(s[s.len() - 1] == s.last());
                }
            }
        }
    }
}

/// A capture plan only asks for types that were offered among the first 256,
/// that are ASCII, non-empty, at most 256 bytes long and free of control
/// characters, and that are a supported text or image type; they come in
/// capture-priority order, and each is read with the byte limit of its kind
/// (1 MiB for text, 16 MiB for an image).
pub proof fn law_capture_plan_is_safe(
    offered: Seq<Seq<char>>,
    plan: Seq<CaptureRepresentation>,
)
    requires
        plan_matches(plan, spec_select(offered)),
    ensures
        priority_sorted(spec_select(offered)),
        forall|k: int|
            0 <= k < spec_select(offered).len() ==> offered_and_safe(
                offered_window(offered),
                #[trigger] spec_select(offered)[k],
            ),
        forall|k: int|
            0 <= k < plan.len() ==> (#[trigger] plan[k]).mime_type@ == spec_select(offered)[k].0
                && plan[k].max_bytes == if spec_select(offered)[k].1
                == ClipboardContentKind::Text {
                1048576usize
            } else {
                16777216usize
            },
{
    let w = offered_window(offered);
    let safe = safe_mimes(w);
    let sorted = by_priority(safe);
    lemma_safe_mimes(w);
    lemma_by_priority(safe);
    lemma_greedy_keeps(sorted);
    let sel = spec_select(offered);
    assert forall|k: int| 0 <= k < sel.len() implies offered_and_safe(w, #[trigger] sel[k]) by {
        assert(sorted.contains(sel[k]));
        let j = choose|j: int| 0 <= j < sorted.len() && sorted[j] == sel[k];
        assert(safe.contains(sorted[j]));
        let i = choose|i: int| 0 <= i < safe.len() && safe[i] == sorted[j];
        assert(offered_and_safe(w, safe[i]));
    }
}

/// Observing a selection while neither locked nor paused starts a capture
/// exactly when a plan is chosen; the capture then carries the epoch that
/// the new selection was given.
pub proof fn law_capture_follows_the_plan(
    m: ClipboardModel,
    origin: ClipboardOrigin,
    offered: Seq<Seq<char>>,
    source: Option<(Seq<char>, Seq<char>)>,
)
    requires
        m.wf(),
        !m.locked,
        !m.paused,
    ensures
        observe_captures(m, offered) <==> spec_observe(m, origin, offered, source).pending is Some,
        observe_captures(m, offered) <==> offered.len() > 0 && spec_select(offered).len() > 0,
        spec_observe(m, origin, offered, source).pending matches Some(cap) ==> cap.epoch
            == m.next_epoch && spec_select(offered).len() <= 4,
{
    law_capture_plan_is_bounded(offered);
}

/// Searching ignores ASCII case: two snapshot requests whose ASCII queries
/// differ only in case get the same answer, and an entry whose ASCII preview
/// contains the query, compared without regard to case, matches it.
pub proof fn law_ascii_search_ignores_case(
    m: ClipboardModel,
    p1: Seq<u8>,
    p2: Seq<u8>,
    q1: Seq<char>,
    q2: Seq<char>,
    item: ItemView,
)
    requires
        spec_decode_request(p1) == Ok::<RequestModel, ClipboardError>(
            RequestModel::Snapshot { query: q1 },
        ),
        spec_decode_request(p2) == Ok::<RequestModel, ClipboardError>(
            RequestModel::Snapshot { query: q2 },
        ),
        all_ascii(q1),
        all_ascii(q2),
        spec_lower_chars(q1) == spec_lower_chars(q2),
    ensures
        spec_handle(m, p1) == spec_handle(m, p2),
        all_ascii(item.preview) && contains_seq(
            spec_lower_chars(item.preview),
            spec_lower_chars(q1),
        ) ==> item_matches(item, folded(q1)),
{
    assert(q1.len() == spec_lower_chars(q1).len());
    assert(q2.len() == spec_lower_chars(q2).len());
    assert(folded(q1) == folded(q2));
    if q1.len() == 0 {
        assert(item_matches(item, folded(q1)));
    }
}

/// Of the control requests only an activation publishes a selection: any
/// publication queued after another request was queued before it. Taking
/// the queued actions empties the queue, so taking them again at once gives
/// nothing.
pub proof fn law_only_activation_publishes(m: ClipboardModel, packet: Seq<u8>)
    ensures
        forall|i: int|
            0 <= i < spec_handle(m, packet).0.actions.len()
                && (#[trigger] spec_handle(m, packet).0.actions[i]) is Publish ==> m.actions.contains(
                spec_handle(m, packet).0.actions[i],
            ) || (spec_handle(m, packet).0.actions[i]->Publish_paste
                && spec_decode_request(packet) is Ok
                && spec_decode_request(packet)->Ok_0 is Activate),
        spec_take_actions(m).actions.len() == 0,
        spec_take_actions(spec_take_actions(m)) == spec_take_actions(m),
{
}

proof fn lemma_png_walk_ends(d: Seq<u8>, cursor: int, dims: Option<(u32, u32)>)
    requires
        png_walk(d, cursor, dims) is Some,
    ensures
        d.len() >= cursor + 12,
        tag_at(d, d.len() - 8, tag_iend()),
        spec_be32(d, d.len() - 12) == 0,
        dims is Some ==> png_walk(d, cursor, dims) == dims,
    decreases d.len() - cursor,
{
    let length = spec_be32(d, cursor);
    let chunk_end = cursor + 12 + length;
    let found = if dims is None {
        Some((spec_be32(d, cursor + 8) as u32, spec_be32(d, cursor + 12) as u32))
    } else {
        dims
    };
    if !tag_at(d, cursor + 4, tag_iend()) {
        assert(length >= 0);
        lemma_png_walk_ends(d, chunk_end, found);
    }
}

/// An accepted PNG starts with the PNG signature and a 13-byte IHDR chunk
/// whose first two fields are the reported width and height, and it ends
/// exactly with an empty IEND chunk.
pub proof fn law_accepted_png_is_framed(d: Seq<u8>)
    requires
        spec_png_dimensions(d) is Some,
    ensures
        d.len() >= 45,
        d.subrange(0, 8) == png_signature(),
        spec_be32(d, 8) == 13,
        tag_at(d, 12, tag_ihdr()),
        spec_png_dimensions(d)->Some_0 == (spec_be32(d, 16) as u32, spec_be32(d, 20) as u32),
        tag_at(d, d.len() - 8, tag_iend()),
        spec_be32(d, d.len() - 12) == 0,
{
    let found = (spec_be32(d, 16) as u32, spec_be32(d, 20) as u32);
    assert(!tag_at(d, 12, tag_iend())) by {
        assert(d.subrange(12, 16)[1] == d[13]);
        assert(tag_ihdr()[1] != tag_iend()[1]);
    }
    lemma_png_walk_ends(d, 33, Some(found));
}

/// One public call on a clipboard history, with its arguments as values.
pub enum ClipboardCall {
    SetLocked { locked: bool },
    Observe {
        origin: ClipboardOrigin,
        offered: Seq<Seq<char>>,
        source: Option<(Seq<char>, Seq<char>)>,
    },
    FinishCapture { epoch: u64, mime: Seq<char>, data: Option<Seq<u8>>, now: u64 },
    SetText { text: Seq<char>, now: u64 },
    SetImagePng { data: Seq<u8>, now: u64 },
    Control { packet: Seq<u8> },
    TakeActions,
}

/// The history after call `c`.
pub open spec fn spec_call(m: ClipboardModel, c: ClipboardCall) -> ClipboardModel {
    match c {
        ClipboardCall::SetLocked { locked } => spec_set_locked(m, locked),
        ClipboardCall::Observe { origin, offered, source } => spec_observe(
            m,
            origin,
            offered,
            source,
        ),
        ClipboardCall::FinishCapture { epoch, mime, data, now } => spec_finish(
            m,
            epoch,
            mime,
            data,
            now,
        ),
        ClipboardCall::SetText { text, now } => spec_set_text(m, text, now).0,
        ClipboardCall::SetImagePng { data, now } => spec_set_image_png(m, data, now).0,
        ClipboardCall::Control { packet } => spec_handle(m, packet).0,
        ClipboardCall::TakeActions => spec_take_actions(m),
    }
}

/// The history after the calls `calls`, made in order from `m`.
pub open spec fn spec_run(m: ClipboardModel, calls: Seq<ClipboardCall>) -> ClipboardModel
    decreases calls.len(),
{
    if calls.len() == 0 {
        m
    } else {
        spec_call(spec_run(m, calls.drop_last()), calls.last())
    }
}

/// Whether call `c` is a request of the shell that asks for a publication
/// with the given `paste` flag: setting text or an image, or unlocking,
/// without paste; activating a history entry by a control request, with it.
pub open spec fn requests_publication(c: ClipboardCall, paste: bool) -> bool {
    match c {
        ClipboardCall::SetLocked { locked } => !locked && !paste,
        ClipboardCall::SetText { .. } => !paste,
        ClipboardCall::SetImagePng { .. } => !paste,
        ClipboardCall::Control { packet } => paste && spec_decode_request(packet) is Ok
            && spec_decode_request(packet)->Ok_0 is Activate,
        _ => false,
    }
}

/// Whether every publication queued in `m` was asked for by one of `calls`.
pub open spec fn publications_requested(m: ClipboardModel, calls: Seq<ClipboardCall>) -> bool {
    forall|k: int|
        0 <= k < m.actions.len() && (#[trigger] m.actions[k]) is Publish ==> exists|i: int|
            0 <= i < calls.len() && requests_publication(
                #[trigger] calls[i],
                m.actions[k]->Publish_paste,
            )
}

proof fn lemma_publications_requested(calls: Seq<ClipboardCall>)
    ensures
        publications_requested(spec_run(initial_model(), calls), calls),
    decreases calls.len(),
{
    let m1 = spec_run(initial_model(), calls);
    if calls.len() == 0 {
        assert(m1.actions.len() == 0);
    } else {
        let d = calls.drop_last();
        let c = calls.last();
        let m0 = spec_run(initial_model(), d);
        lemma_publications_requested(d);
        assert(m1 == spec_call(m0, c));
        let last = calls.len() - 1;
        assert(calls[last] == c);
        assert forall|k: int| 0 <= k < m1.actions.len() && (#[trigger] m1.actions[k]) is Publish
            implies exists|i: int|
            0 <= i < calls.len() && requests_publication(
                #[trigger] calls[i],
                m1.actions[k]->Publish_paste,
            ) by {
            let a = m1.actions[k];
            if m0.actions.contains(a) {
                let j = choose|j: int| 0 <= j < m0.actions.len() && m0.actions[j] == a;
                assert(m0.actions[j] is Publish);
                let i = choose|i: int|
                    0 <= i < d.len() && requests_publication(
                        #[trigger] d[i],
                        m0.actions[j]->Publish_paste,
                    );
                assert(calls[i] == d[i]);
            } else {
                match c {
                    ClipboardCall::SetLocked { locked } => {
                        law_only_shell_requests_publish(
                            m0, ClipboardOrigin::Wayland, seq![], None, 0, seq![], None, seq![],
                            seq![], 0, locked, 0,
                        );
                        assert(requests_publication(calls[last], a->Publish_paste));
                    },
                    ClipboardCall::Observe { origin, offered, source } => {
                        law_only_shell_requests_publish(
                            m0, origin, offered, source, 0, seq![], None, seq![], seq![], 0,
                            false, 0,
                        );
                    },
                    ClipboardCall::FinishCapture { epoch, mime, data, now } => {
                        law_only_shell_requests_publish(
                            m0, ClipboardOrigin::Wayland, seq![], None, epoch, mime, data,
                            seq![], seq![], 0, false, now,
                        );
                        assert(m0.actions[k] == a);
                    },
                    ClipboardCall::SetText { text, now } => {
                        law_only_shell_requests_publish(
                            m0, ClipboardOrigin::Wayland, seq![], None, 0, seq![], None, text,
                            seq![], 0, false, now,
                        );
                        assert(requests_publication(calls[last], a->Publish_paste));
                    },
                    ClipboardCall::SetImagePng { data, now } => {
                        law_only_shell_requests_publish(
                            m0, ClipboardOrigin::Wayland, seq![], None, 0, seq![], None, seq![],
                            data, 0, false, now,
                        );
                        assert(requests_publication(calls[last], a->Publish_paste));
                    },
                    ClipboardCall::Control { packet } => {
                        law_only_activation_publishes(m0, packet);
                        assert(requests_publication(calls[last], a->Publish_paste));
                    },
                    ClipboardCall::TakeActions => {},
                }
            }
        }
    }
}

/// Starting from a new clipboard history, after any sequence of calls every
/// publication waiting in the queue, which is what `take_actions` hands out
/// next, was asked for by one of those calls: a publication without paste
/// by setting text or an image or by unlocking, and one with paste by a
/// control request that activates an entry. A new selection from another
/// client and a finished capture ask for none. Right after `take_actions`
/// the queue is empty, so taking the actions again at once gives nothing.
pub proof fn law_every_publication_was_requested(calls: Seq<ClipboardCall>)
    ensures
        publications_requested(spec_run(initial_model(), calls), calls),
        forall|c: ClipboardCall, paste: bool|
            (c is Observe || c is FinishCapture || c is TakeActions) ==> !requests_publication(
                c,
                paste,
            ),
        spec_run(initial_model(), calls.push(ClipboardCall::TakeActions)).actions.len() == 0,
{
    lemma_publications_requested(calls);
    assert(calls.push(ClipboardCall::TakeActions).drop_last() =~= calls);
}

proof fn lemma_revision_nonzero_run(calls: Seq<ClipboardCall>)
    ensures
        spec_run(initial_model(), calls).revision != 0,
    decreases calls.len(),
{
    if calls.len() > 0 {
        lemma_revision_nonzero_run(calls.drop_last());
        let m = spec_run(initial_model(), calls.drop_last());
        lemma_next_nonzero(m.revision);
        lemma_next_nonzero(m.next_epoch);
    }
}

/// A new clipboard history is at revision 1, and after any sequence of calls
/// its revision is still not zero.
pub proof fn law_revision_is_never_zero_after_any_calls(calls: Seq<ClipboardCall>)
    ensures
        spec_run(initial_model(), seq![]).revision == 1,
        spec_run(initial_model(), calls).revision != 0,
{
    lemma_revision_nonzero_run(calls);
}

/// Whether a command carries an entry id right after the header.
pub open spec fn command_takes_id(command: u8) -> bool {
    command == 1 || command == 2 || command == 3 || command == 4 || command == 7
}

/// The string field at `c` (a little-endian length, then that many bytes)
/// is cut short, holds a NUL byte or is not UTF-8; its length is within
/// `max`.
pub open spec fn bad_string_at(p: Seq<u8>, c: int, max: int) -> bool {
    c + 2 > p.len() || (spec_le16(p, c) <= max && (p.len() < c + 2 + spec_le16(p, c)
        || p.subrange(c + 2, c + 2 + spec_le16(p, c)).contains(0u8) || !valid_utf8(
        p.subrange(c + 2, c + 2 + spec_le16(p, c)),
    )))
}

/// A malformed request within the size limit: shorter than the header, or
/// with a wrong magic, version, command or reserved byte; an entry id cut
/// short or zero; a flag byte missing or neither 0 nor 1; a bad query
/// string; or bytes after a request that has no more fields.
pub open spec fn malformed_request(p: Seq<u8>) -> bool {
    &&& p.len() <= MAX_REQUEST_BYTES
    &&& {
        ||| p.len() < 8 || p.subrange(0, 4) != request_magic() || spec_le16(p, 4) != 1 || p[6] > 7
            || p[7] != 0
        ||| header_ok(p) && command_takes_id(p[6]) && (p.len() < 16 || spec_le64(p, 8) == 0)
        ||| header_ok(p) && p[6] == 6 && (p.len() != 9 || p[8] > 1)
        ||| header_ok(p) && p[6] == 3 && p.len() >= 16 && spec_le64(p, 8) != 0 && (p.len() < 17
            || p[16] > 1)
        ||| header_ok(p) && p[6] == 5 && p.len() > 8
        ||| header_ok(p) && p[6] == 0 && bad_string_at(p, 8, 256)
    }
}

/// A request refused as too large: over 4096 bytes, or with a query or a
/// MIME type longer than 256 bytes.
pub open spec fn oversized_request(p: Seq<u8>) -> bool {
    ||| p.len() > MAX_REQUEST_BYTES
    ||| header_ok(p) && p[6] == 0 && p.len() >= 10 && spec_le16(p, 8) > 256
    ||| header_ok(p) && p[6] == 1 && p.len() >= 18 && spec_le64(p, 8) != 0 && spec_le16(p, 16)
        > 256
}

/// Malformed requests are refused as bad requests, and requests over 4096
/// bytes or with a string over its 256-byte limit as too large. The answer
/// is an error response (`DCLS`, version 1, kind 255, then the status: 1
/// for a bad request, 4 for one too large), and the history is left as it
/// was: its revision, entries, selection and queued actions.
pub proof fn law_malformed_requests_are_refused(m: ClipboardModel, p: Seq<u8>)
    ensures
        malformed_request(p) ==> spec_handle(m, p) == (
            m,
            spec_encode_error(ClipboardError::BadRequest),
        ) && spec_handle(m, p).1.take(8) == header_bytes(RESPONSE_ERROR, 1),
        oversized_request(p) ==> spec_handle(m, p) == (
            m,
            spec_encode_error(ClipboardError::TooLarge),
        ) && spec_handle(m, p).1.take(8) == header_bytes(RESPONSE_ERROR, 4),
{
    if malformed_request(p) {
        assert(spec_decode_request(p) == Err::<RequestModel, ClipboardError>(
            ClipboardError::BadRequest,
        ));
        law_undecodable_request_is_refused(m, p);
    }
    if oversized_request(p) {
        assert(spec_decode_request(p) == Err::<RequestModel, ClipboardError>(
            ClipboardError::TooLarge,
        ));
        law_undecodable_request_is_refused(m, p);
    }
}

proof fn lemma_first_id_after_update(h: Seq<ItemView>, id: u64, i: int, item: ItemView)
    requires
        is_first(h, has_id(id), i),
        item.id == id,
    ensures
        index_of_id(h.update(i, item), id) == i,
{
    let h2 = h.update(i, item);
    assert(has_id(id)(h2[i]));
    lemma_first_exists(h2, has_id(id), i);
    let f = index_of_id(h2, id);
    if f < i {
        assert(h2[f] == h[f]);
        assert(!has_id(id)(h[f]));
    }
}

/// Pinning or unpinning sets the entry's flag to exactly what was asked,
/// for `false` as well as `true`, and touches no other entry; the managed
/// copy of that entry follows the change. The revision
/// moves on exactly when the flag changed; asking for the flag the entry
/// already has changes nothing. A locked history refuses, and an unknown id
/// is not found; neither changes anything.
pub proof fn law_set_pinned_sets_the_flag(m: ClipboardModel, id: u64, pinned: bool)
    ensures
        m.locked ==> spec_set_pinned(m, id, pinned) == (
            m,
            Err::<u64, ClipboardError>(ClipboardError::Locked),
        ),
        !m.locked && !contains_id(m.history, id) ==> spec_set_pinned(m, id, pinned) == (
            m,
            Err::<u64, ClipboardError>(ClipboardError::NotFound),
        ),
        !m.locked && contains_id(m.history, id) ==> {
            let old_item = lookup(m.history, id)->0;
            let m2 = spec_set_pinned(m, id, pinned).0;
            &&& spec_set_pinned(m, id, pinned).1 == Ok::<u64, ClipboardError>(m2.revision)
            &&& lookup(m2.history, id) == Some(ItemView { pinned, ..old_item })
            &&& m2.history.len() == m.history.len()
            &&& forall|j: int|
                0 <= j < m.history.len() ==> #[trigger] m2.history[j] == m.history[j] || (
                m.history[j].id == id && m2.history[j] == ItemView { pinned, ..m.history[j] })
            &&& old_item.pinned == pinned ==> m2 == m
            &&& old_item.pinned != pinned ==> m2.revision != m.revision
            &&& m2 == ClipboardModel {
                history: m2.history,
                managed: m2.managed,
                revision: m2.revision,
                ..m
            }
            &&& old_item.pinned != pinned && (m.managed matches Some(x) && x.id == id)
                ==> m2.managed == Some(
                ItemView { pinned, ..old_item },
            )
            &&& !(m.managed matches Some(x) && x.id == id) ==> m2.managed == m.managed
        },
{
    if !m.locked && contains_id(m.history, id) {
        lemma_lookup_some(m.history, id);
        let j = choose|j: int| 0 <= j < m.history.len() && m.history[j].id == id;
        lemma_first_exists(m.history, has_id(id), j);
        let i = index_of_id(m.history, id);
        let old_item = m.history[i];
        if old_item.pinned != pinned {
            let item = ItemView { pinned, ..old_item };
            lemma_first_id_after_update(m.history, id, i, item);
            lemma_next_nonzero(m.revision);
        }
    }
}

/// Whether no two entries share an identifier.
pub open spec fn ids_distinct(h: Seq<ItemView>) -> bool {
    forall|i: int, j: int| 0 <= i < j < h.len() ==> (#[trigger] h[i]).id != (#[trigger] h[j]).id
}

proof fn lemma_keep_pinned_members(h: Seq<ItemView>)
    ensures
        forall|k: int|
            0 <= k < keep_pinned(h).len() ==> (#[trigger] keep_pinned(h)[k]).pinned && h.contains(
                keep_pinned(h)[k],
            ),
        forall|k: int| 0 <= k < h.len() && (#[trigger] h[k]).pinned ==> keep_pinned(h).contains(h[k]),
    decreases h.len(),
{
    if h.len() > 0 {
        let d = h.drop_last();
        lemma_keep_pinned_members(d);
        let kd = keep_pinned(d);
        let kh = keep_pinned(h);
        assert forall|k: int| 0 <= k < kh.len() implies (#[trigger] kh[k]).pinned && h.contains(
            kh[k],
        ) by {
            if k < kd.len() {
                assert(kh[k] == kd[k]);
                assert(d.contains(kd[k]));
                let j = choose|j: int| 0 <= j < d.len() && d[j] == kd[k];
                assert(h[j] == kd[k]);
            } else {
                assert(kh[k] == h.last());
                assert(h[h.len() - 1] == h.last());
            }
        }
        assert forall|k: int| 0 <= k < h.len() && (#[trigger] h[k]).pinned implies kh.contains(
            h[k],
        ) by {
            if k < d.len() {
                assert(d[k] == h[k]);
                assert(kd.contains(d[k]));
                let j = choose|j: int| 0 <= j < kd.len() && kd[j] == d[k];
                assert(kh[j] == kd[j]);
            } else {
                assert(kh[kh.len() - 1] == h[k]);
            }
        }
    }
}

/// Clearing the history keeps an entry exactly when it is pinned: an entry
/// unpinned just before is removed, and one pinned just before survives.
pub proof fn law_clear_keeps_only_pinned_entries(m: ClipboardModel, id: u64)
    requires
        !m.locked,
        contains_id(m.history, id),
        ids_distinct(m.history),
    ensures
        !contains_id(spec_clear(spec_set_pinned(m, id, false).0).0.history, id),
        contains_id(spec_clear(spec_set_pinned(m, id, true).0).0.history, id),
{
    law_set_pinned_sets_the_flag(m, id, false);
    law_set_pinned_sets_the_flag(m, id, true);
    lemma_lookup_some(m.history, id);
    let i = choose|i: int| 0 <= i < m.history.len() && m.history[i].id == id;
    let off = spec_set_pinned(m, id, false).0;
    let on = spec_set_pinned(m, id, true).0;
    lemma_keep_pinned_members(off.history);
    lemma_keep_pinned_members(on.history);
    let ko = keep_pinned(off.history);
    if contains_id(ko, id) {
        let k = choose|k: int| 0 <= k < ko.len() && ko[k].id == id;
        assert(off.history.contains(ko[k]));
        let j = choose|j: int| 0 <= j < off.history.len() && off.history[j] == ko[k];
        assert(off.history[j] == m.history[j] || m.history[j].id == id);
        assert(m.history[j].id == id);
        assert(j == i);
        assert(lookup(off.history, id) matches Some(x) && !x.pinned);
        lemma_lookup_some(off.history, id);
        assert(off.history[i].pinned);
        assert(false);
    }
    lemma_lookup_some(on.history, id);
    let x = lookup(on.history, id)->0;
    let j = choose|j: int| 0 <= j < on.history.len() && on.history[j].id == id;
    assert(on.history[j] == m.history[j] || m.history[j].id == id);
    assert(j == i);
    assert(on.history[i].pinned);
    assert(keep_pinned(on.history).contains(on.history[i]));
    let k = choose|k: int| 0 <= k < keep_pinned(on.history).len() && keep_pinned(on.history)[k]
        == on.history[i];
    assert(keep_pinned(on.history)[k].id == id);
}

/// Activating an entry of an unlocked history makes it the owned selection
/// under a fresh epoch, with the entry as the managed copy, and moves the
/// revision on; the entries themselves stay as they were. A locked history
/// refuses and an unknown id is not found, changing nothing.
pub proof fn law_activate_owns_the_entry(m: ClipboardModel, id: u64)
    ensures
        m.locked ==> spec_activate(m, id) == (
            m,
            Err::<u64, ClipboardError>(ClipboardError::Locked),
        ),
        !m.locked && !contains_id(m.history, id) ==> spec_activate(m, id) == (
            m,
            Err::<u64, ClipboardError>(ClipboardError::NotFound),
        ),
        !m.locked && contains_id(m.history, id) ==> {
            let m2 = spec_activate(m, id).0;
            &&& spec_activate(m, id).1 == Ok::<u64, ClipboardError>(m2.revision)
            &&& m2.current == CurrentSelection::Managed { epoch: m.next_epoch, item_id: id }
            &&& m2.managed == lookup(m.history, id)
            &&& m2.managed matches Some(x) && x.id == id
            &&& m2.history == m.history
            &&& m2.pending is None
            &&& m2.revision != m.revision
            &&& m2.next_epoch != m.next_epoch
        },
{
    lemma_lookup_some(m.history, id);
    lemma_next_nonzero(m.revision);
    lemma_next_nonzero(m.next_epoch);
}

/// Deleting an entry of an unlocked history removes exactly that entry and
/// keeps every other one; deleting the entry that the owned selection holds
/// also clears the selection. The revision moves on. A locked history
/// refuses and an unknown id is not found, changing nothing.
pub proof fn law_delete_removes_the_entry(m: ClipboardModel, id: u64)
    requires
        ids_distinct(m.history),
    ensures
        m.locked ==> spec_delete(m, id) == (m, Err::<u64, ClipboardError>(ClipboardError::Locked)),
        !m.locked && !contains_id(m.history, id) ==> spec_delete(m, id) == (
            m,
            Err::<u64, ClipboardError>(ClipboardError::NotFound),
        ),
        !m.locked && contains_id(m.history, id) ==> {
            let m2 = spec_delete(m, id).0;
            &&& spec_delete(m, id).1 == Ok::<u64, ClipboardError>(m2.revision)
            &&& !contains_id(m2.history, id)
            &&& m2.history.len() == m.history.len() - 1
            &&& forall|j: int|
                0 <= j < m.history.len() && (#[trigger] m.history[j]).id != id
                    ==> m2.history.contains(m.history[j])
            &&& m2.revision != m.revision
            &&& (m.current matches CurrentSelection::Managed { item_id, .. } && item_id == id)
                ==> m2.current == CurrentSelection::Unowned && m2.managed is None && m2.actions
                == seq![ClipboardAction::Clear { epoch: m.next_epoch }]
        },
{
    if !m.locked && contains_id(m.history, id) {
        let j = choose|j: int| 0 <= j < m.history.len() && m.history[j].id == id;
        lemma_first_exists(m.history, has_id(id), j);
        let i = index_of_id(m.history, id);
        assert(i == j);
        let h = m.history.remove(i);
        let m2 = spec_delete(m, id).0;
        assert(m2.history == h);
        if contains_id(h, id) {
            let k = choose|k: int| 0 <= k < h.len() && h[k].id == id;
            if k < i {
                assert(h[k] == m.history[k]);
            } else {
                assert(h[k] == m.history[k + 1]);
            }
        }
        assert forall|j2: int| 0 <= j2 < m.history.len() && (#[trigger] m.history[j2]).id != id
            implies h.contains(m.history[j2]) by {
            if j2 < i {
                assert(h[j2] == m.history[j2]);
            } else {
                assert(j2 != i);
                assert(h[j2 - 1] == m.history[j2]);
            }
        }
        lemma_next_nonzero(m.revision);
    }
}

/// Clearing an unlocked history keeps exactly its pinned entries, in their
/// order, drops any capture in progress and moves the revision on. A
/// locked history refuses and keeps everything.
pub proof fn law_clear_keeps_exactly_pinned(m: ClipboardModel)
    ensures
        m.locked ==> spec_clear(m) == (m, Err::<u64, ClipboardError>(ClipboardError::Locked)),
        !m.locked ==> {
            let m2 = spec_clear(m).0;
            &&& spec_clear(m).1 == Ok::<u64, ClipboardError>(m2.revision)
            &&& forall|x: ItemView| m2.history.contains(x) <==> (m.history.contains(x) && x.pinned)
            &&& m2.pending is None
            &&& m2.revision != m.revision
        },
{
    if !m.locked {
        let h = m.history;
        lemma_keep_pinned_members(h);
        let kh = keep_pinned(h);
        assert forall|x: ItemView| kh.contains(x) <==> (h.contains(x) && x.pinned) by {
            if kh.contains(x) {
                let k = choose|k: int| 0 <= k < kh.len() && kh[k] == x;
                assert(kh[k].pinned && h.contains(kh[k]));
            }
            if h.contains(x) && x.pinned {
                let k = choose|k: int| 0 <= k < h.len() && h[k] == x;
                assert(h[k].pinned);
            }
        }
        lemma_next_nonzero(m.revision);
    }
}

/// Pausing or resuming an unlocked history sets the pause flag to what was
/// asked; pausing a running history drops a capture in progress. The revision moves on
/// exactly when the flag changed. A locked history refuses.
pub proof fn law_set_paused_sets_the_flag(m: ClipboardModel, paused: bool)
    ensures
        m.locked ==> spec_set_paused(m, paused) == (
            m,
            Err::<u64, ClipboardError>(ClipboardError::Locked),
        ),
        !m.locked ==> {
            let m2 = spec_set_paused(m, paused).0;
            &&& spec_set_paused(m, paused).1 == Ok::<u64, ClipboardError>(m2.revision)
            &&& m2.paused == paused
            &&& paused && !m.paused ==> m2.pending is None
            &&& m2.history == m.history
            &&& m2.locked == m.locked
            &&& (m2.revision != m.revision <==> m.paused != paused)
        },
{
    lemma_next_nonzero(m.revision);
}

/// Starting a drag of an entry of an unlocked history queues one drag of
/// that entry after what was queued, and changes nothing else. A locked
/// history refuses and an unknown id is not found.
pub proof fn law_start_drag_queues_the_drag(m: ClipboardModel, id: u64)
    ensures
        m.locked ==> spec_start_drag(m, id) == (
            m,
            Err::<u64, ClipboardError>(ClipboardError::Locked),
        ),
        !m.locked && !contains_id(m.history, id) ==> spec_start_drag(m, id) == (
            m,
            Err::<u64, ClipboardError>(ClipboardError::NotFound),
        ),
        !m.locked && contains_id(m.history, id) ==> spec_start_drag(m, id) == (
            ClipboardModel {
                actions: m.actions.push(ClipboardAction::StartDrag { item_id: id }),
                ..m
            },
            Ok::<u64, ClipboardError>(m.revision),
        ),
{
}

/// Which lower-cased MIME types are kept, and as what: plain text, any
/// `text/plain;` variant and URI lists are text; PNG, WebP and JPEG (also
/// written `image/jpg`) are images; nothing else is kept. The type is read
/// after trimming white space and without regard to ASCII case.
pub proof fn law_retained_mime_kinds(m: Seq<char>)
    ensures
        spec_mime_kind(m) == kind_of_lower(spec_lower_chars(spec_trim(m))),
        (m == "text/plain"@ || m == "text/uri-list"@ || starts_with(m, "text/plain;"@))
            ==> kind_of_lower(m) == Some(ClipboardContentKind::Text),
        (m == "image/png"@ || m == "image/webp"@ || m == "image/jpeg"@ || m == "image/jpg"@)
            ==> kind_of_lower(m) == Some(ClipboardContentKind::Image),
        kind_of_lower(m) == Some(ClipboardContentKind::Image) ==> (m == "image/png"@ || m
            == "image/webp"@ || m == "image/jpeg"@ || m == "image/jpg"@),
        kind_of_lower(m) == Some(ClipboardContentKind::Text) ==> (m == "text/plain"@ || m
            == "text/uri-list"@ || starts_with(m, "text/plain;"@)),
{
    reveal_strlit("text/plain");
    reveal_strlit("text/plain;");
    reveal_strlit("text/uri-list");
    reveal_strlit("image/png");
    reveal_strlit("image/webp");
    reveal_strlit("image/jpeg");
    reveal_strlit("image/jpg");
    if m == "image/png"@ || m == "image/webp"@ || m == "image/jpeg"@ || m == "image/jpg"@ {
        assert(m[0] == 'i');
        assert("text/plain;"@[0] == 't');
        assert(!starts_with(m, "text/plain;"@)) by {
            if "text/plain;"@.len() <= m.len() {
                assert(m.subrange(0, 11)[0] == 'i');
            }
        }
        assert(m != "text/plain"@ && m != "text/uri-list"@) by {
            assert("text/plain"@[0] == 't');
            assert("text/uri-list"@[0] == 't');
        }
    }
}

/// The order in which offered types are captured: every kept image type
/// comes before every kept text type, PNG first of all; UTF-8 text comes
/// first among text types; types that are not kept come last.
pub proof fn law_capture_priority_order(a: Seq<char>, b: Seq<char>)
    ensures
        kind_of_lower(a) == Some(ClipboardContentKind::Image) && kind_of_lower(b) == Some(
            ClipboardContentKind::Text,
        ) ==> priority_of_lower(a) < priority_of_lower(b),
        kind_of_lower(a) is Some && kind_of_lower(b) is None ==> priority_of_lower(a)
            < priority_of_lower(b),
        priority_of_lower(a) == 0 <==> a == "image/png"@,
        a == "text/plain;charset=utf-8"@ && kind_of_lower(b) == Some(ClipboardContentKind::Text)
            ==> priority_of_lower(a) <= priority_of_lower(b),
{
    reveal_strlit("image/png");
    reveal_strlit("image/webp");
    reveal_strlit("image/jpeg");
    reveal_strlit("image/jpg");
    reveal_strlit("text/plain;charset=utf-8");
    reveal_strlit("text/plain;charset=utf8");
    reveal_strlit("text/plain");
    reveal_strlit("text/uri-list");
    reveal_strlit("text/plain;");
    law_retained_mime_kinds(a);
    law_retained_mime_kinds(b);
    assert("image/png"@.len() != "image/webp"@.len());
    assert("image/png"@.len() != "image/jpeg"@.len());
    assert("image/png"@[6] != "image/jpg"@[6]);
    assert("image/png"@ != "text/plain;charset=utf-8"@);
    assert("image/png"@[0] != "text/plain"@[0]);
    assert("image/png"@ != "text/uri-list"@);
    assert("text/plain;charset=utf-8"@.subrange(0, 11) =~= "text/plain;"@);
    assert("text/plain;charset=utf8"@.subrange(0, 11) =~= "text/plain;"@);
    assert("text/plain;charset=utf-8"@ != "image/webp"@);
    if kind_of_lower(b) is None {
        assert(priority_of_lower(b) == 255);
    }
    if a == "image/png"@ {
        assert(priority_of_lower(a) == 0);
    }
    if b == "image/png"@ || b == "image/webp"@ || b == "image/jpeg"@ || b == "image/jpg"@ {
        assert(b[0] == 'i');
    }
    if starts_with(a, "text/plain;"@) {
        assert(a.subrange(0, 11)[0] == 't');
        assert(a[0] == 't');
    }
}

} // verus!
