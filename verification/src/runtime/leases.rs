//! Textures of closing windows, kept alive for the close animation: one
//! lease per window, reference counts per texture, expiry and a cap.

use std::collections::HashMap;
use vstd::prelude::*;

verus! {

broadcast use vstd::std_specs::hash::group_hash_axioms;

/// Most leases held at once; the oldest goes first when a new one needs room.
pub const MAX_RETAINED_WINDOW_CLOSE_LEASES: usize = 4096;

/// How long a closing window's textures are kept without a completion.
pub const WINDOW_CLOSE_LEASE_TIMEOUT_NANOS: u64 = 5000000000;

/// The textures a closing window holds, and when the lease runs out.
#[derive(Debug)]
pub struct WindowCloseTextureLease {
    pub window_id: u64,
    pub texture_ids: Vec<i64>,
    pub expires_at: u64,
}

/// What a call let go of: how many leases, and their textures.
#[derive(Debug)]
pub struct RetiredWindowCloseLeases {
    pub lease_count: usize,
    pub texture_ids: Vec<i64>,
}

/// The texture identifiers a published window description names.
#[derive(Clone, Debug)]
pub struct WindowTextures {
    pub window_id: u64,
    pub texture_id: u64,
    pub surface_texture_ids: Vec<u64>,
}

/// How often `t` occurs in `s`.
pub open spec fn count_of(s: Seq<i64>, t: i64) -> nat
    decreases s.len(),
{
    if s.len() == 0 {
        0
    } else {
        count_of(s.drop_last(), t) + if s.last() == t {
            1nat
        } else {
            0nat
        }
    }
}

/// How often `t` occurs over all leases.
pub open spec fn occurrences(s: Seq<WindowCloseTextureLease>, t: i64) -> nat
    decreases s.len(),
{
    if s.len() == 0 {
        0
    } else {
        occurrences(s.drop_last(), t) + count_of(s.last().texture_ids@, t)
    }
}

/// The number of texture identifiers over all leases.
pub open spec fn lease_total(s: Seq<WindowCloseTextureLease>) -> nat
    decreases s.len(),
{
    if s.len() == 0 {
        0
    } else {
        lease_total(s.drop_last()) + s.last().texture_ids@.len()
    }
}

/// The number of texture identifiers over all window entries.
pub open spec fn entry_total(s: Seq<(u64, Vec<i64>)>) -> nat
    decreases s.len(),
{
    if s.len() == 0 {
        0
    } else {
        entry_total(s.drop_last()) + s.last().1@.len()
    }
}

pub open spec fn has_window(s: Seq<(u64, Vec<i64>)>, w: u64) -> bool {
    exists|i: int| 0 <= i < s.len() && (#[trigger] s[i]).0 == w
}

pub open spec fn unique_windows(s: Seq<(u64, Vec<i64>)>) -> bool {
    forall|i: int, j: int|
        0 <= i < s.len() && 0 <= j < s.len() && i != j ==> (#[trigger] s[i]).0 != (#[trigger] s[j]).0
}

pub open spec fn unique_leases(s: Seq<WindowCloseTextureLease>) -> bool {
    forall|i: int, j: int|
        0 <= i < s.len() && 0 <= j < s.len() && i != j ==> (#[trigger] s[i]).window_id != (
        #[trigger] s[j]).window_id
}

pub open spec fn holds_lease(s: Seq<WindowCloseTextureLease>, w: u64) -> bool {
    exists|i: int| 0 <= i < s.len() && (#[trigger] s[i]).window_id == w
}

/// The textures released when the windows of `previous` that `next` no
/// longer lists start closing.
pub open spec fn closing_textures(previous: Seq<(u64, Vec<i64>)>, next: Seq<(u64, Vec<i64>)>, t: i64) -> nat
    decreases previous.len(),
{
    if previous.len() == 0 {
        0
    } else {
        closing_textures(previous.drop_last(), next, t) + if has_window(next, previous.last().0) {
            0nat
        } else {
            count_of(previous.last().1@, t)
        }
    }
}

/// When a lease taken at `now` runs out.
pub open spec fn lease_deadline(now: u64) -> u64 {
    if now + WINDOW_CLOSE_LEASE_TIMEOUT_NANOS <= u64::MAX {
        (now + WINDOW_CLOSE_LEASE_TIMEOUT_NANOS) as u64
    } else {
        now
    }
}

/// The texture identifiers of one window: those of its surfaces, or its own
/// when it has none, keeping the positive values that fit an `i64`.
pub open spec fn window_ids(w: WindowTextures) -> Seq<i64> {
    if w.surface_texture_ids@.len() == 0 {
        if 0 < w.texture_id && w.texture_id <= i64::MAX {
            seq![w.texture_id as i64]
        } else {
            Seq::empty()
        }
    } else {
        positive_ids(w.surface_texture_ids@)
    }
}

pub open spec fn positive_ids(s: Seq<u64>) -> Seq<i64>
    decreases s.len(),
{
    if s.len() == 0 {
        Seq::empty()
    } else if 0 < s.last() && s.last() <= i64::MAX {
        positive_ids(s.drop_last()).push(s.last() as i64)
    } else {
        positive_ids(s.drop_last())
    }
}

/// Window identifier to texture identifiers; a later description of the
/// same window replaces an earlier one.
pub open spec fn texture_map(s: Seq<WindowTextures>) -> Map<u64, Seq<i64>>
    decreases s.len(),
{
    if s.len() == 0 {
        Map::empty()
    } else {
        texture_map(s.drop_last()).insert(s.last().window_id, window_ids(s.last()))
    }
}

pub proof fn lemma_count_concat(a: Seq<i64>, b: Seq<i64>, t: i64)
    ensures
        count_of(a + b, t) == count_of(a, t) + count_of(b, t),
    decreases b.len(),
{
    if b.len() > 0 {
        lemma_count_concat(a, b.drop_last(), t);
        assert((a + b).drop_last() =~= a + b.drop_last());
    } else {
        assert(a + b =~= a);
    }
}

proof fn lemma_count_single(t: i64, u: i64)
    ensures
        count_of(seq![t], u) == if u == t {
            1nat
        } else {
            0nat
        },
{
    assert(seq![t].drop_last() =~= Seq::<i64>::empty());
    reveal_with_fuel(count_of, 2);
}

proof fn lemma_count_le_len(s: Seq<i64>, t: i64)
    ensures
        count_of(s, t) <= s.len(),
    decreases s.len(),
{
    if s.len() > 0 {
        lemma_count_le_len(s.drop_last(), t);
    }
}

proof fn lemma_occurrences_le_total(s: Seq<WindowCloseTextureLease>, t: i64)
    ensures
        occurrences(s, t) <= lease_total(s),
    decreases s.len(),
{
    if s.len() > 0 {
        lemma_occurrences_le_total(s.drop_last(), t);
        lemma_count_le_len(s.last().texture_ids@, t);
    }
}

proof fn lemma_occurrences_remove(s: Seq<WindowCloseTextureLease>, i: int, t: i64)
    requires
        0 <= i < s.len(),
    ensures
        occurrences(s, t) == occurrences(s.remove(i), t) + count_of(s[i].texture_ids@, t),
        lease_total(s) == lease_total(s.remove(i)) + s[i].texture_ids@.len(),
    decreases s.len(),
{
    if i == s.len() - 1 {
        assert(s.remove(i) =~= s.drop_last());
    } else {
        lemma_occurrences_remove(s.drop_last(), i, t);
        assert(s.remove(i).drop_last() =~= s.drop_last().remove(i));
        assert(s.remove(i).last() == s.last());
    }
}

proof fn lemma_occurrences_zero(s: Seq<WindowCloseTextureLease>, t: i64)
    requires
        occurrences(s, t) == 0,
    ensures
        forall|i: int| 0 <= i < s.len() ==> count_of((#[trigger] s[i]).texture_ids@, t) == 0,
    decreases s.len(),
{
    if s.len() > 0 {
        lemma_occurrences_zero(s.drop_last(), t);
        assert forall|i: int| 0 <= i < s.len() implies count_of((#[trigger] s[i]).texture_ids@, t)
            == 0 by {
            if i < s.len() - 1 {
                assert(s[i] == s.drop_last()[i]);
            }
        }
    }
}

proof fn lemma_count_positive(s: Seq<i64>, k: int)
    requires
        0 <= k < s.len(),
    ensures
        count_of(s, s[k]) > 0,
    decreases s.len(),
{
    if k < s.len() - 1 {
        lemma_count_positive(s.drop_last(), k);
    }
}

proof fn lemma_lease_total_prefix(s: Seq<WindowCloseTextureLease>)
    ensures
        forall|i: int| 0 <= i < s.len() ==> #[trigger] lease_total(s.take(i)) + s[i].texture_ids@.len()
            <= lease_total(s),
    decreases s.len(),
{
    if s.len() > 0 {
        lemma_lease_total_prefix(s.drop_last());
        assert forall|i: int| 0 <= i < s.len() implies #[trigger] lease_total(s.take(i))
            + s[i].texture_ids@.len() <= lease_total(s) by {
            if i < s.len() - 1 {
                assert(s.drop_last().take(i) =~= s.take(i));
                assert(s.drop_last()[i] == s[i]);
            } else {
                assert(s.take(i) =~= s.drop_last());
            }
        }
    }
}

proof fn lemma_entry_total_prefix(s: Seq<(u64, Vec<i64>)>)
    ensures
        forall|i: int| 0 <= i < s.len() ==> #[trigger] entry_total(s.take(i)) + s[i].1@.len()
            <= entry_total(s),
    decreases s.len(),
{
    if s.len() > 0 {
        lemma_entry_total_prefix(s.drop_last());
        assert forall|i: int| 0 <= i < s.len() implies #[trigger] entry_total(s.take(i))
            + s[i].1@.len() <= entry_total(s) by {
            if i < s.len() - 1 {
                assert(s.drop_last().take(i) =~= s.take(i));
                assert(s.drop_last()[i] == s[i]);
            } else {
                assert(s.take(i) =~= s.drop_last());
            }
        }
    }
}

proof fn lemma_count_exists(s: Seq<i64>, t: i64)
    ensures
        count_of(s, t) > 0 <==> exists|k: int| 0 <= k < s.len() && s[k] == t,
    decreases s.len(),
{
    if s.len() > 0 {
        lemma_count_exists(s.drop_last(), t);
        if exists|k: int| 0 <= k < s.len() && s[k] == t {
            let k = choose|k: int| 0 <= k < s.len() && s[k] == t;
            lemma_count_positive(s, k);
        }
        if count_of(s, t) > 0 && s.last() != t {
            let k = choose|k: int| 0 <= k < s.drop_last().len() && s.drop_last()[k] == t;
            assert(s[k] == t);
        }
    }
}

/// A texture is counted exactly while the lease of some closing window
/// names it; under the leases' invariant, that is when `retains_texture`
/// answers yes.
pub proof fn law_retained_exactly_while_held(s: Seq<WindowCloseTextureLease>, t: i64)
    ensures
        occurrences(s, t) > 0 <==> exists|i: int, k: int|
            0 <= i < s.len() && 0 <= k < s[i].texture_ids@.len() && #[trigger] s[i].texture_ids@[k]
                == t,
    decreases s.len(),
{
    if s.len() > 0 {
        law_retained_exactly_while_held(s.drop_last(), t);
        lemma_count_exists(s.last().texture_ids@, t);
        if exists|i: int, k: int|
            0 <= i < s.len() && 0 <= k < s[i].texture_ids@.len() && #[trigger] s[i].texture_ids@[k]
                == t {
            let (i, k) = choose|i: int, k: int|
                0 <= i < s.len() && 0 <= k < s[i].texture_ids@.len() && #[trigger] s[i].texture_ids@[k]
                    == t;
            if i < s.len() - 1 {
                assert(s.drop_last()[i].texture_ids@[k] == t);
            } else {
                assert(s.last().texture_ids@[k] == t);
            }
        }
        if occurrences(s, t) > 0 {
            if count_of(s.last().texture_ids@, t) > 0 {
                let k = choose|k: int| 0 <= k < s.last().texture_ids@.len()
                    && s.last().texture_ids@[k] == t;
                assert(s[s.len() - 1].texture_ids@[k] == t);
            } else {
                let (i, k) = choose|i: int, k: int|
                    0 <= i < s.drop_last().len() && 0 <= k < s.drop_last()[i].texture_ids@.len()
                        && #[trigger] s.drop_last()[i].texture_ids@[k] == t;
                assert(s[i].texture_ids@[k] == t);
            }
        }
    }
}

/// Leases of closing windows and the reference count of each texture they
/// hold.
pub struct WindowCloseTextureLeases {
    published_windows: Vec<(u64, Vec<i64>)>,
    closing_windows: Vec<WindowCloseTextureLease>,
    retained_texture_references: HashMap<i64, usize>,
}

impl WindowCloseTextureLeases {
    pub closed spec fn published(&self) -> Seq<(u64, Vec<i64>)> {
        self.published_windows@
    }

    pub closed spec fn closing(&self) -> Seq<WindowCloseTextureLease> {
        self.closing_windows@
    }

    pub closed spec fn reference_count(&self, t: i64) -> nat {
        if self.retained_texture_references@.contains_key(t) {
            self.retained_texture_references@[t] as nat
        } else {
            0
        }
    }

    /// Each texture's count is how often the leases hold it, and a texture
    /// has an entry only while it is held; window identifiers are unique;
    /// the cap holds; the identifiers tracked fit a `usize`.
    pub closed spec fn wf(&self) -> bool {
        &&& forall|t: i64| #[trigger] self.reference_count(t) == occurrences(self.closing(), t)
        &&& forall|t: i64|
            #[trigger] self.retained_texture_references@.contains_key(t)
                ==> self.retained_texture_references@[t] > 0
        &&& unique_leases(self.closing())
        &&& unique_windows(self.published())
        &&& self.closing().len() <= MAX_RETAINED_WINDOW_CLOSE_LEASES
        &&& lease_total(self.closing()) + entry_total(self.published()) <= usize::MAX
    }

    pub fn new() -> (r: Self)
        ensures
            r.wf(),
            r.published().len() == 0,
            r.closing().len() == 0,
    {
        let r = WindowCloseTextureLeases {
            published_windows: Vec::new(),
            closing_windows: Vec::new(),
            retained_texture_references: HashMap::new(),
        };
        assert forall|t: i64| #[trigger] r.reference_count(t) == occurrences(r.closing(), t) by {}
        r
    }

    /// No window is closing.
    pub fn is_empty(&self) -> (r: bool)
        ensures
            r == (self.closing().len() == 0),
    {
        self.closing_windows.len() == 0
    }

    /// Some closing window still holds the texture.
    pub fn retains_texture(&self, texture_id: i64) -> (r: bool)
        requires
            self.wf(),
        ensures
            r == (occurrences(self.closing(), texture_id) > 0),
    {
        proof {
            assert(self.reference_count(texture_id) == occurrences(self.closing(), texture_id));
        }
        self.retained_texture_references.contains_key(&texture_id)
    }

    /// Counts one more hold of `t`.
    fn add_reference(&mut self, t: i64)
        requires
            forall|u: i64|
                #[trigger] old(self).retained_texture_references@.contains_key(u)
                    ==> old(self).retained_texture_references@[u] > 0,
            old(self).reference_count(t) < usize::MAX,
        ensures
            final(self).closing_windows == old(self).closing_windows,
            final(self).published_windows == old(self).published_windows,
            forall|u: i64|
                #[trigger] final(self).retained_texture_references@.contains_key(u)
                    ==> final(self).retained_texture_references@[u] > 0,
            forall|u: i64|
                #[trigger] final(self).reference_count(u) == old(self).reference_count(u) + if u
                    == t {
                    1nat
                } else {
                    0nat
                },
    {
        let current: usize = match self.retained_texture_references.get(&t) {
            Some(n) => *n,
            None => 0,
        };
        self.retained_texture_references.insert(t, current + 1);
        assert forall|u: i64| #[trigger] self.reference_count(u) == old(self).reference_count(u)
            + if u == t {
            1nat
        } else {
            0nat
        } by {}
    }

    /// Counts one hold of `t` fewer, dropping its entry at zero.
    fn drop_reference(&mut self, t: i64)
        requires
            forall|u: i64|
                #[trigger] old(self).retained_texture_references@.contains_key(u)
                    ==> old(self).retained_texture_references@[u] > 0,
            old(self).reference_count(t) > 0,
        ensures
            final(self).closing_windows == old(self).closing_windows,
            final(self).published_windows == old(self).published_windows,
            forall|u: i64|
                #[trigger] final(self).retained_texture_references@.contains_key(u)
                    ==> final(self).retained_texture_references@[u] > 0,
            forall|u: i64|
                #[trigger] final(self).reference_count(u) == old(self).reference_count(u) - if u
                    == t {
                    1int
                } else {
                    0int
                },
    {
        let current: usize = match self.retained_texture_references.get(&t) {
            Some(n) => *n,
            None => 0,
        };
        if current <= 1 {
            self.retained_texture_references.remove(&t);
        } else {
            self.retained_texture_references.insert(t, current - 1);
        }
        assert forall|u: i64| #[trigger] self.reference_count(u) == old(self).reference_count(u)
            - if u == t {
            1int
        } else {
            0int
        } by {}
    }

    /// Removes the lease at `index`, releasing its textures into `out`.
    fn remove_at(&mut self, index: usize, out: &mut Vec<i64>)
        requires
            old(self).wf(),
            index < old(self).closing().len(),
        ensures
            final(self).wf(),
            final(self).closing() == old(self).closing().remove(index as int),
            final(self).published() == old(self).published(),
            final(out)@ == old(out)@ + old(self).closing()[index as int].texture_ids@,
    {
        let ghost before = self.closing_windows@;
        proof {
            assert forall|t: i64|
                occurrences(before, t) == occurrences(before.remove(index as int), t) + count_of(
                    before[index as int].texture_ids@,
                    t,
                ) by {
                lemma_occurrences_remove(before, index as int, t);
            }
            lemma_occurrences_remove(before, index as int, 0);
        }
        let lease = self.closing_windows.remove(index);
        let ids = lease.texture_ids;
        let ghost out0 = out@;
        let mut k: usize = 0;
        assert(ids@.skip(0) =~= ids@);
        assert(out0 + ids@.take(0) =~= out0);
        proof {
            assert forall|t: i64|
                #[trigger] self.reference_count(t) == occurrences(self.closing_windows@, t)
                    + count_of(ids@.skip(0), t) by {
                assert(old(self).reference_count(t) == occurrences(before, t));
            }
        }
        while k < ids.len()
            invariant
                k <= ids@.len(),
                ids@ == before[index as int].texture_ids@,
                self.closing_windows@ == before.remove(index as int),
                self.published_windows == old(self).published_windows,
                forall|u: i64|
                    #[trigger] self.retained_texture_references@.contains_key(u)
                        ==> self.retained_texture_references@[u] > 0,
                forall|t: i64|
                    #[trigger] self.reference_count(t) == occurrences(self.closing_windows@, t)
                        + count_of(ids@.skip(k as int), t),
                out@ == out0 + ids@.take(k as int),
            decreases ids@.len() - k,
        {
            let t = ids[k];
            proof {
                assert(ids@.skip(k as int) =~= seq![t] + ids@.skip(k + 1));
                assert forall|u: i64| count_of(ids@.skip(k as int), u) == count_of(seq![t], u)
                    + count_of(ids@.skip(k + 1), u) by {
                    lemma_count_concat(seq![t], ids@.skip(k + 1), u);
                    lemma_count_single(t, u);
                }
                lemma_count_single(t, t);
                assert(self.reference_count(t) > 0);
            }
            self.drop_reference(t);
            out.push(t);
            proof {
                assert forall|u: i64| count_of(seq![t], u) == if u == t {
                    1nat
                } else {
                    0nat
                } by {
                    lemma_count_single(t, u);
                }
                assert(out@ =~= out0 + ids@.take(k + 1));
            }
            k += 1;
        }
        proof {
            assert(ids@.skip(k as int) =~= Seq::<i64>::empty());
            assert(ids@.take(k as int) =~= ids@);
            assert forall|i: int, j: int|
                0 <= i < self.closing_windows@.len() && 0 <= j < self.closing_windows@.len() && i
                    != j implies (#[trigger] self.closing_windows@[i]).window_id != (
            #[trigger] self.closing_windows@[j]).window_id by {
                let i2 = if i < index { i } else { i + 1 };
                let j2 = if j < index { j } else { j + 1 };
                assert(self.closing_windows@[i] == before[i2]);
                assert(self.closing_windows@[j] == before[j2]);
            }
        }
    }

    /// The index of the lease of `window_id`, if there is one.
    fn lease_index(&self, window_id: u64) -> (r: Option<usize>)
        ensures
            r matches Some(i) ==> i < self.closing().len() && self.closing()[i as int].window_id
                == window_id,
            r is None ==> !holds_lease(self.closing(), window_id),
    {
        let mut i: usize = 0;
        while i < self.closing_windows.len()
            invariant
                i <= self.closing_windows@.len(),
                forall|k: int| 0 <= k < i ==> (#[trigger] self.closing_windows@[k]).window_id
                    != window_id,
            decreases self.closing_windows@.len() - i,
        {
            if self.closing_windows[i].window_id == window_id {
                return Some(i);
            }
            i += 1;
        }
        None
    }

    /// Removes the lease of `window_id`, releasing its textures into
    /// `texture_ids`; `false` when the window holds none.
    pub fn remove(&mut self, window_id: u64, texture_ids: &mut Vec<i64>) -> (r: bool)
        requires
            old(self).wf(),
        ensures
            final(self).wf(),
            final(self).published() == old(self).published(),
            r == holds_lease(old(self).closing(), window_id),
            !r ==> final(self).closing() == old(self).closing() && final(texture_ids)@ == old(texture_ids)@,
            r ==> exists|i: int|
                0 <= i < old(self).closing().len() && old(self).closing()[i].window_id == window_id
                    && final(self).closing() == old(self).closing().remove(i) && final(texture_ids)@ == old(texture_ids)@ + old(self).closing()[i].texture_ids@,
    {
        match self.lease_index(window_id) {
            Some(i) => {
                self.remove_at(i, texture_ids);
                true
            },
            None => false,
        }
    }

    /// The animation of `window_id` finished: its lease, if any, is retired.
    pub fn complete(&mut self, window_id: u64) -> (r: RetiredWindowCloseLeases)
        requires
            old(self).wf(),
        ensures
            final(self).wf(),
            final(self).published() == old(self).published(),
            r.lease_count == if holds_lease(old(self).closing(), window_id) {
                1usize
            } else {
                0usize
            },
            !holds_lease(old(self).closing(), window_id) ==> final(self).closing() == old(self).closing() && r.texture_ids@.len() == 0,
            holds_lease(old(self).closing(), window_id) ==> exists|i: int|
                0 <= i < old(self).closing().len() && old(self).closing()[i].window_id == window_id
                    && final(self).closing() == old(self).closing().remove(i)
                    && r.texture_ids@ == old(self).closing()[i].texture_ids@,
    {
        let mut retired = RetiredWindowCloseLeases { lease_count: 0, texture_ids: Vec::new() };
        if self.remove(window_id, &mut retired.texture_ids) {
            retired.lease_count = 1;
        }
        proof {
            assert(Seq::<i64>::empty() + retired.texture_ids@ =~= retired.texture_ids@);
        }
        retired
    }

    /// Retires every lease that has run out by `now`.
    pub fn expire(&mut self, now: u64) -> (r: RetiredWindowCloseLeases)
        requires
            old(self).wf(),
        ensures
            final(self).wf(),
            final(self).published() == old(self).published(),
            forall|l: WindowCloseTextureLease|
                final(self).closing().contains(l) <==> old(self).closing().contains(l)
                    && l.expires_at > now,
            r.lease_count == old(self).closing().len() - final(self).closing().len(),
            forall|t: i64|
                occurrences(final(self).closing(), t) + count_of(r.texture_ids@, t) == occurrences(
                    old(self).closing(),
                    t,
                ),
    {
        let mut retired = RetiredWindowCloseLeases { lease_count: 0, texture_ids: Vec::new() };
        let ghost start = self.closing_windows@;
        let mut i: usize = 0;
        while i < self.closing_windows.len()
            invariant
                self.wf(),
                self.published() == old(self).published(),
                i <= self.closing_windows@.len(),
                start == old(self).closing(),
                start.len() <= MAX_RETAINED_WINDOW_CLOSE_LEASES,
                forall|k: int| 0 <= k < i ==> (#[trigger] self.closing_windows@[k]).expires_at > now,
                forall|l: WindowCloseTextureLease|
                    self.closing_windows@.contains(l) ==> start.contains(l),
                forall|l: WindowCloseTextureLease|
                    start.contains(l) && l.expires_at > now ==> self.closing_windows@.contains(l),
                forall|l: WindowCloseTextureLease|
                    #[trigger] start.contains(l) && !self.closing_windows@.contains(l)
                        ==> l.expires_at <= now,
                retired.lease_count == start.len() - self.closing_windows@.len(),
                forall|t: i64|
                    occurrences(self.closing_windows@, t) + count_of(retired.texture_ids@, t)
                        == occurrences(start, t),
            decreases self.closing_windows@.len() - i,
        {
            if self.closing_windows[i].expires_at <= now {
                let ghost before = self.closing_windows@;
                let ghost ids_before = retired.texture_ids@;
                proof {
                    assert forall|t: i64|
                        occurrences(before, t) == occurrences(before.remove(i as int), t)
                            + count_of(before[i as int].texture_ids@, t) by {
                        lemma_occurrences_remove(before, i as int, t);
                    }
                }
                self.remove_at(i, &mut retired.texture_ids);
                proof {
                    assert forall|t: i64|
                        count_of(retired.texture_ids@, t) == count_of(ids_before, t) + count_of(
                            before[i as int].texture_ids@,
                            t,
                        ) by {
                        lemma_count_concat(ids_before, before[i as int].texture_ids@, t);
                    }
                    assert forall|l: WindowCloseTextureLease|
                        self.closing_windows@.contains(l) implies before.contains(l) by {
                        let j = choose|j: int| 0 <= j < self.closing_windows@.len()
                            && self.closing_windows@[j] == l;
                        let j2 = if j < i { j } else { j + 1 };
                        assert(before[j2] == l);
                    }
                    assert forall|l: WindowCloseTextureLease|
                        start.contains(l) && l.expires_at > now implies self.closing_windows@.contains(
                        l,
                    ) by {
                        let j = choose|j: int| 0 <= j < before.len() && before[j] == l;
                        assert(j != i);
                        let j2 = if j < i { j } else { j - 1 };
                        assert(self.closing_windows@[j2] == l);
                    }
                    assert forall|l: WindowCloseTextureLease|
                        #[trigger] start.contains(l) && !self.closing_windows@.contains(l)
                            implies l.expires_at <= now by {
                        if before.contains(l) {
                            let j = choose|j: int| 0 <= j < before.len() && before[j] == l;
                            if j != i {
                                let j2 = if j < i { j } else { j - 1 };
                                assert(self.closing_windows@[j2] == l);
                            }
                        }
                    }
                    assert forall|k: int| 0 <= k < i implies (
                    #[trigger] self.closing_windows@[k]).expires_at > now by {
                        assert(self.closing_windows@[k] == before[k]);
                    }
                }
                retired.lease_count = retired.lease_count + 1;
            } else {
                i += 1;
            }
        }
        proof {
            assert forall|l: WindowCloseTextureLease|
                self.closing_windows@.contains(l) implies l.expires_at > now by {
                let j = choose|j: int| 0 <= j < self.closing_windows@.len()
                    && self.closing_windows@[j] == l;
            }
        }
        retired
    }

    /// The lease that runs out first; the earliest listed among equals.
    fn oldest_index(&self) -> (r: usize)
        requires
            self.closing().len() > 0,
        ensures
            r < self.closing().len(),
            forall|k: int|
                0 <= k < self.closing().len() ==> self.closing()[r as int].expires_at <= (
                #[trigger] self.closing()[k]).expires_at,
    {
        let mut best: usize = 0;
        let mut i: usize = 1;
        while i < self.closing_windows.len()
            invariant
                1 <= i <= self.closing_windows@.len(),
                best < i,
                forall|k: int|
                    0 <= k < i ==> self.closing_windows@[best as int].expires_at <= (
                    #[trigger] self.closing_windows@[k]).expires_at,
            decreases self.closing_windows@.len() - i,
        {
            if self.closing_windows[i].expires_at < self.closing_windows[best].expires_at {
                best = i;
            }
            i += 1;
        }
        best
    }

    /// The cap holds with room for one more lease, retiring the oldest.
    fn make_room(&mut self, retired: &mut RetiredWindowCloseLeases)
        requires
            old(self).wf(),
        ensures
            final(self).wf(),
            final(self).published() == old(self).published(),
            final(self).closing().len() < MAX_RETAINED_WINDOW_CLOSE_LEASES,
            forall|l: WindowCloseTextureLease|
                final(self).closing().contains(l) ==> old(self).closing().contains(l),
            lease_total(final(self).closing()) <= lease_total(old(self).closing()),
            forall|t: i64|
                occurrences(final(self).closing(), t) + count_of(final(retired).texture_ids@, t)
                    == occurrences(old(self).closing(), t) + count_of(
                    old(retired).texture_ids@,
                    t,
                ),
    {
        while self.closing_windows.len() >= MAX_RETAINED_WINDOW_CLOSE_LEASES
            invariant
                self.wf(),
                self.published() == old(self).published(),
                forall|l: WindowCloseTextureLease|
                    self.closing().contains(l) ==> old(self).closing().contains(l),
                lease_total(self.closing()) <= lease_total(old(self).closing()),
                forall|t: i64|
                    occurrences(self.closing(), t) + count_of(retired.texture_ids@, t)
                        == occurrences(old(self).closing(), t) + count_of(
                        old(retired).texture_ids@,
                        t,
                    ),
            decreases self.closing_windows@.len(),
        {
            let oldest = self.oldest_index();
            let ghost before = self.closing_windows@;
            let ghost ids_before = retired.texture_ids@;
            proof {
                assert forall|t: i64|
                    occurrences(before, t) == occurrences(before.remove(oldest as int), t)
                        + count_of(before[oldest as int].texture_ids@, t) by {
                    lemma_occurrences_remove(before, oldest as int, t);
                }
                lemma_occurrences_remove(before, oldest as int, 0);
            }
            self.remove_at(oldest, &mut retired.texture_ids);
            proof {
                assert forall|t: i64|
                    count_of(retired.texture_ids@, t) == count_of(ids_before, t) + count_of(
                        before[oldest as int].texture_ids@,
                        t,
                    ) by {
                    lemma_count_concat(ids_before, before[oldest as int].texture_ids@, t);
                }
                assert forall|l: WindowCloseTextureLease|
                    self.closing().contains(l) implies old(self).closing().contains(l) by {
                    let j = choose|j: int| 0 <= j < self.closing_windows@.len()
                        && self.closing_windows@[j] == l;
                    let j2 = if j < oldest { j } else { j + 1 };
                    assert(before[j2] == l);
                }
            }
            retired.lease_count = retired.lease_count.saturating_add(1);
        }
    }

    /// Takes a lease on `texture_ids` for a window that holds none.
    fn insert_lease(&mut self, window_id: u64, texture_ids: Vec<i64>, expires_at: u64)
        requires
            old(self).wf(),
            !holds_lease(old(self).closing(), window_id),
            old(self).closing().len() < MAX_RETAINED_WINDOW_CLOSE_LEASES,
            lease_total(old(self).closing()) + texture_ids@.len() + entry_total(old(self).published())
                <= usize::MAX,
        ensures
            final(self).wf(),
            final(self).published() == old(self).published(),
            final(self).closing() == old(self).closing().push(
                WindowCloseTextureLease { window_id, texture_ids, expires_at },
            ),
    {
        let mut k: usize = 0;
        proof {
            assert(texture_ids@.take(0) =~= Seq::<i64>::empty());
        }
        while k < texture_ids.len()
            invariant
                k <= texture_ids@.len(),
                self.closing_windows == old(self).closing_windows,
                self.published_windows == old(self).published_windows,
                forall|u: i64|
                    #[trigger] self.retained_texture_references@.contains_key(u)
                        ==> self.retained_texture_references@[u] > 0,
                forall|t: i64|
                    #[trigger] self.reference_count(t) == occurrences(self.closing(), t) + count_of(
                        texture_ids@.take(k as int),
                        t,
                    ),
                lease_total(old(self).closing()) + texture_ids@.len() + entry_total(
                    old(self).published(),
                ) <= usize::MAX,
            decreases texture_ids@.len() - k,
        {
            let t = texture_ids[k];
            proof {
                assert(texture_ids@.take(k + 1) =~= texture_ids@.take(k as int).push(t));
                lemma_occurrences_le_total(self.closing(), t);
                lemma_count_le_len(texture_ids@.take(k as int), t);
            }
            self.add_reference(t);
            proof {
                assert(texture_ids@.take(k + 1).drop_last() =~= texture_ids@.take(k as int));
                assert forall|u: i64| #[trigger] self.reference_count(u) == occurrences(
                    self.closing(),
                    u,
                ) + count_of(texture_ids@.take(k + 1), u) by {}
            }
            k += 1;
        }
        let ghost before = self.closing_windows@;
        let ghost ids = texture_ids@;
        let ghost pre = *self;
        proof {
            assert(ids.take(k as int) =~= ids);
        }
        self.closing_windows.push(WindowCloseTextureLease { window_id, texture_ids, expires_at });
        proof {
            assert(ids.take(ids.len() as int) =~= ids);
            assert(self.closing_windows@.drop_last() =~= before);
            assert(self.closing_windows@.last().texture_ids@ == ids);
            assert(lease_total(self.closing_windows@) == lease_total(before) + ids.len());
            assert forall|t: i64| #[trigger] self.reference_count(t) == occurrences(
                self.closing(),
                t,
            ) by {
                assert(occurrences(self.closing_windows@, t) == occurrences(before, t) + count_of(
                    ids,
                    t,
                ));
                assert(pre.reference_count(t) == occurrences(before, t) + count_of(
                    ids.take(k as int),
                    t,
                ));
            }
            assert forall|i: int, j: int|
                0 <= i < self.closing_windows@.len() && 0 <= j < self.closing_windows@.len() && i
                    != j implies (#[trigger] self.closing_windows@[i]).window_id != (
            #[trigger] self.closing_windows@[j]).window_id by {
                if i < before.len() && j < before.len() {
                    assert(self.closing_windows@[i] == before[i]);
                    assert(self.closing_windows@[j] == before[j]);
                } else if i < before.len() {
                    assert(self.closing_windows@[i] == before[i]);
                } else {
                    assert(self.closing_windows@[j] == before[j]);
                }
            }
        }
    }

    /// The identifiers tracked after publishing `next_windows` fit a
    /// `usize`, as `publish` needs.
    pub fn publish_fits(&self, next_windows: &Vec<(u64, Vec<i64>)>) -> (r: bool)
        ensures
            r == (lease_total(self.closing()) + entry_total(self.published()) + entry_total(
                next_windows@,
            ) <= usize::MAX),
    {
        let mut sum: usize = 0;
        let mut i: usize = 0;
        proof {
            lemma_lease_total_prefix(self.closing_windows@);
            lemma_entry_total_prefix(self.published_windows@);
            lemma_entry_total_prefix(next_windows@);
            assert(self.closing_windows@.take(0) =~= Seq::<WindowCloseTextureLease>::empty());
        }
        while i < self.closing_windows.len()
            invariant
                i <= self.closing_windows@.len(),
                sum == lease_total(self.closing_windows@.take(i as int)),
            decreases self.closing_windows@.len() - i,
        {
            proof {
                assert(self.closing_windows@.take(i + 1).drop_last() =~= self.closing_windows@.take(
                    i as int,
                ));
            }
            match sum.checked_add(self.closing_windows[i].texture_ids.len()) {
                Some(n) => sum = n,
                None => {
                    proof {
                        lemma_lease_total_prefix(self.closing_windows@);
                    }
                    return false;
                },
            }
            i += 1;
        }
        assert(self.closing_windows@.take(i as int) =~= self.closing_windows@);
        let ghost base = sum as nat;
        let mut j: usize = 0;
        assert(self.published_windows@.take(0) =~= Seq::<(u64, Vec<i64>)>::empty());
        while j < self.published_windows.len()
            invariant
                j <= self.published_windows@.len(),
                base == lease_total(self.closing()),
                sum == base + entry_total(self.published_windows@.take(j as int)),
            decreases self.published_windows@.len() - j,
        {
            proof {
                assert(self.published_windows@.take(j + 1).drop_last()
                    =~= self.published_windows@.take(j as int));
            }
            match sum.checked_add(self.published_windows[j].1.len()) {
                Some(n) => sum = n,
                None => {
                    proof {
                        lemma_entry_total_prefix(self.published_windows@);
                    }
                    return false;
                },
            }
            j += 1;
        }
        assert(self.published_windows@.take(j as int) =~= self.published_windows@);
        let ghost base2 = sum as nat;
        let mut k: usize = 0;
        assert(next_windows@.take(0) =~= Seq::<(u64, Vec<i64>)>::empty());
        while k < next_windows.len()
            invariant
                k <= next_windows@.len(),
                base2 == lease_total(self.closing()) + entry_total(self.published()),
                sum == base2 + entry_total(next_windows@.take(k as int)),
            decreases next_windows@.len() - k,
        {
            proof {
                assert(next_windows@.take(k + 1).drop_last() =~= next_windows@.take(k as int));
            }
            match sum.checked_add(next_windows[k].1.len()) {
                Some(n) => sum = n,
                None => {
                    proof {
                        lemma_entry_total_prefix(next_windows@);
                    }
                    return false;
                },
            }
            k += 1;
        }
        assert(next_windows@.take(k as int) =~= next_windows@);
        true
    }

    /// The windows published now no longer list: each that held textures
    /// starts closing. A previous lease of the same window is retired, the
    /// oldest leases are retired while the cap is reached, and the new lease
    /// runs out after the timeout. Every texture released or newly held is
    /// accounted for.
    pub fn publish(&mut self, next_windows: Vec<(u64, Vec<i64>)>, now: u64) -> (r:
        RetiredWindowCloseLeases)
        requires
            old(self).wf(),
            unique_windows(next_windows@),
            lease_total(old(self).closing()) + entry_total(old(self).published()) + entry_total(
                next_windows@,
            ) <= usize::MAX,
        ensures
            final(self).wf(),
            final(self).published() == next_windows@,
            forall|t: i64|
                occurrences(final(self).closing(), t) + count_of(r.texture_ids@, t) == occurrences(
                    old(self).closing(),
                    t,
                ) + closing_textures(old(self).published(), next_windows@, t),
            forall|l: WindowCloseTextureLease|
                #[trigger] final(self).closing().contains(l) ==> old(self).closing().contains(l) || (
                l.expires_at == lease_deadline(now) && l.texture_ids@.len() > 0 && !has_window(
                    next_windows@,
                    l.window_id,
                ) && exists|i: int|
                    0 <= i < old(self).published().len() && (#[trigger] old(self).published()[i]).0
                        == l.window_id && old(self).published()[i].1@ == l.texture_ids@),
    {
        let ghost previous0 = self.published_windows@;
        let ghost closing0 = self.closing_windows@;
        let mut previous = next_windows;
        core::mem::swap(&mut self.published_windows, &mut previous);
        let mut retired = RetiredWindowCloseLeases { lease_count: 0, texture_ids: Vec::new() };
        let deadline: u64 = match now.checked_add(WINDOW_CLOSE_LEASE_TIMEOUT_NANOS) {
            Some(d) => d,
            None => now,
        };
        proof {
            assert(unique_windows(self.published_windows@));
            assert forall|t: i64| #[trigger] self.reference_count(t) == occurrences(
                self.closing(),
                t,
            ) by {
                assert(self.reference_count(t) == old(self).reference_count(t));
            }
        }
        while previous.len() > 0
            invariant
                forall|t: i64| #[trigger] self.reference_count(t) == occurrences(self.closing(), t),
                forall|t: i64|
                    #[trigger] self.retained_texture_references@.contains_key(t)
                        ==> self.retained_texture_references@[t] > 0,
                unique_leases(self.closing()),
                self.closing().len() <= MAX_RETAINED_WINDOW_CLOSE_LEASES,
                self.published_windows@ == next_windows@,
                unique_windows(next_windows@),
                previous@ == previous0.take(previous@.len() as int),
                previous@.len() <= previous0.len(),
                previous0 == old(self).published(),
                closing0 == old(self).closing(),
                deadline == lease_deadline(now),
                lease_total(self.closing()) + entry_total(previous@) + entry_total(next_windows@)
                    <= usize::MAX,
                forall|t: i64|
                    occurrences(self.closing(), t) + count_of(retired.texture_ids@, t)
                        + closing_textures(previous@, next_windows@, t) == occurrences(closing0, t)
                        + closing_textures(previous0, next_windows@, t),
                forall|l: WindowCloseTextureLease|
                    #[trigger] self.closing().contains(l) ==> closing0.contains(l) || (l.expires_at
                        == deadline && l.texture_ids@.len() > 0 && !has_window(
                        next_windows@,
                        l.window_id,
                    ) && exists|i: int|
                        0 <= i < previous0.len() && (#[trigger] previous0[i]).0 == l.window_id
                            && previous0[i].1@ == l.texture_ids@),
            decreases previous@.len(),
        {
            let ghost prev_before = previous@;
            let (window_id, texture_ids) = match previous.pop() {
                Some(entry) => entry,
                None => (0, Vec::new()),
            };
            proof {
                assert(previous@ == prev_before.drop_last());
                assert(previous@ =~= previous0.take(previous@.len() as int));
                assert(prev_before.last() == previous0[previous@.len() as int]);
            }
            let mut listed = false;
            let mut j: usize = 0;
            while j < self.published_windows.len()
                invariant
                    j <= self.published_windows@.len(),
                    listed == exists|k: int| 0 <= k < j && (#[trigger] self.published_windows@[k]).0
                        == window_id,
                decreases self.published_windows@.len() - j,
            {
                if self.published_windows[j].0 == window_id {
                    listed = true;
                }
                j += 1;
            }
            assert(listed == has_window(next_windows@, window_id));
            if listed || texture_ids.len() == 0 {
                proof {
                    assert forall|t: i64|
                        closing_textures(prev_before, next_windows@, t) == closing_textures(
                            previous@,
                            next_windows@,
                            t,
                        ) by {
                        if !listed {
                            assert(count_of(texture_ids@, t) == 0);
                        }
                    }
                }
            } else {
                let ghost self_before = *self;
                let ghost ids_before = retired.texture_ids@;
                if self.remove(window_id, &mut retired.texture_ids) {
                    retired.lease_count = retired.lease_count.saturating_add(1);
                }
                proof {
                    if holds_lease(self_before.closing(), window_id) {
                        let i = choose|i: int|
                            0 <= i < self_before.closing().len()
                                && self_before.closing()[i].window_id == window_id
                                && self.closing() == self_before.closing().remove(i)
                                && retired.texture_ids@ == ids_before
                                + self_before.closing()[i].texture_ids@;
                        assert forall|t: i64|
                            occurrences(self_before.closing(), t) == occurrences(self.closing(), t)
                                + count_of(self_before.closing()[i].texture_ids@, t)
                                && count_of(retired.texture_ids@, t) == count_of(ids_before, t)
                                + count_of(self_before.closing()[i].texture_ids@, t) by {
                            lemma_occurrences_remove(self_before.closing(), i, t);
                            lemma_count_concat(
                                ids_before,
                                self_before.closing()[i].texture_ids@,
                                t,
                            );
                        }
                        lemma_occurrences_remove(self_before.closing(), i, 0);
                        assert forall|l: WindowCloseTextureLease|
                            self.closing().contains(l) implies self_before.closing().contains(l) by {
                            let j = choose|j: int| 0 <= j < self.closing().len()
                                && self.closing()[j] == l;
                            let j2 = if j < i { j } else { j + 1 };
                            assert(self_before.closing()[j2] == l);
                        }
                    }
                }
                let ghost self_mid = *self;
                self.make_room(&mut retired);
                proof {
                    assert(!holds_lease(self.closing(), window_id)) by {
                        if holds_lease(self.closing(), window_id) {
                            let j = choose|j: int| 0 <= j < self.closing().len()
                                && (#[trigger] self.closing()[j]).window_id == window_id;
                            assert(self.closing().contains(self.closing()[j]));
                            assert(self_mid.closing().contains(self.closing()[j]));
                            let j2 = choose|j2: int| 0 <= j2 < self_mid.closing().len()
                                && self_mid.closing()[j2] == self.closing()[j];
                            assert(self_before.closing().contains(self_mid.closing()[j2]));
                        }
                    }
                }
                let ghost self_room = *self;
                let ghost ids_view = texture_ids@;
                self.insert_lease(window_id, texture_ids, deadline);
                proof {
                    let lease = WindowCloseTextureLease {
                        window_id,
                        texture_ids: self.closing().last().texture_ids,
                        expires_at: deadline,
                    };
                    assert(self.closing().drop_last() =~= self_room.closing());
                    assert forall|t: i64|
                        closing_textures(prev_before, next_windows@, t) == closing_textures(
                            previous@,
                            next_windows@,
                            t,
                        ) + count_of(ids_view, t) by {}
                    assert forall|l: WindowCloseTextureLease|
                        #[trigger] self.closing().contains(l) implies closing0.contains(l) || (
                        l.expires_at == deadline && l.texture_ids@.len() > 0 && !has_window(
                            next_windows@,
                            l.window_id,
                        ) && exists|i: int|
                            0 <= i < previous0.len() && (#[trigger] previous0[i]).0 == l.window_id
                                && previous0[i].1@ == l.texture_ids@) by {
                        let j = choose|j: int| 0 <= j < self.closing().len()
                            && self.closing()[j] == l;
                        if j < self_room.closing().len() {
                            assert(self_room.closing()[j] == l);
                            assert(self_room.closing().contains(l));
                            assert(self_mid.closing().contains(l));
                            assert(self_before.closing().contains(l));
                        } else {
                            assert(previous0[previous@.len() as int].0 == window_id);
                        }
                    }
                }
            }
        }
        proof {
            assert(previous@ =~= Seq::<(u64, Vec<i64>)>::empty());
        }
        retired
    }
}

/// Window identifier to texture identifiers for the published windows.
pub fn window_texture_map(windows: &[WindowTextures]) -> (r: Vec<(u64, Vec<i64>)>)
    ensures
        unique_windows(r@),
        forall|w: u64| has_window(r@, w) <==> texture_map(windows@).contains_key(w),
        forall|i: int|
            0 <= i < r@.len() ==> (#[trigger] r@[i]).1@ == texture_map(windows@)[r@[i].0],
{
    let mut r: Vec<(u64, Vec<i64>)> = Vec::new();
    let mut k: usize = 0;
    while k < windows.len()
        invariant
            k <= windows@.len(),
            unique_windows(r@),
            forall|w: u64| has_window(r@, w) <==> texture_map(windows@.take(k as int)).contains_key(w),
            forall|i: int|
                0 <= i < r@.len() ==> (#[trigger] r@[i]).1@ == texture_map(windows@.take(k as int))[r@[i].0],
        decreases windows@.len() - k,
    {
        let window = &windows[k];
        let ids = window_ids_of(window);
        proof {
            assert(windows@.take(k + 1).drop_last() =~= windows@.take(k as int));
            assert(windows@.take(k + 1).last() == windows@[k as int]);
        }
        let mut found = false;
        let mut i: usize = 0;
        let ghost before = r@;
        while i < r.len()
            invariant
                i <= r@.len(),
                !found ==> r@ == before,
                found ==> has_window(before, window.window_id),
                found ==> r@.len() == before.len(),
                found ==> forall|j: int| 0 <= j < r@.len() ==> (#[trigger] r@[j]).0 == before[j].0,
                found ==> forall|j: int|
                    0 <= j < r@.len() ==> (#[trigger] r@[j]).0 != window.window_id ==> r@[j] == before[j],
                found ==> forall|j: int|
                    0 <= j < r@.len() ==> (#[trigger] r@[j]).0 == window.window_id ==> r@[j].1@ == ids@,
                !found ==> forall|j: int| 0 <= j < i ==> (#[trigger] before[j]).0 != window.window_id,
                unique_windows(before),
            decreases r@.len() - i,
        {
            if r[i].0 == window.window_id {
                let entry = (window.window_id, copy_ids(&ids));
                r.set(i, entry);
                found = true;
            }
            i += 1;
        }
        if !found {
            r.push((window.window_id, ids));
            proof {
                assert(r@.drop_last() =~= before);
            }
        }
        proof {
            let m = texture_map(windows@.take(k + 1));
            assert(m == texture_map(windows@.take(k as int)).insert(
                window.window_id,
                window_ids(*window),
            ));
            assert forall|a: int, b: int|
                0 <= a < r@.len() && 0 <= b < r@.len() && a != b implies (#[trigger] r@[a]).0 != (
            #[trigger] r@[b]).0 by {
                if !found && (a == before.len() || b == before.len()) {
                    if a == before.len() {
                        assert(r@[b] == before[b]);
                    } else {
                        assert(r@[a] == before[a]);
                    }
                } else if found {
                    assert(r@[a].0 == before[a].0);
                    assert(r@[b].0 == before[b].0);
                } else {
                    assert(r@[a] == before[a]);
                    assert(r@[b] == before[b]);
                }
            }
            assert forall|w: u64| has_window(r@, w) implies m.contains_key(w) by {
                let j = choose|j: int| 0 <= j < r@.len() && (#[trigger] r@[j]).0 == w;
                if w != window.window_id {
                    if found {
                        assert(before[j].0 == w);
                    } else {
                        assert(j < before.len());
                        assert(r@[j] == before[j]);
                    }
                    assert(has_window(before, w));
                }
            }
            assert forall|w: u64| m.contains_key(w) implies has_window(r@, w) by {
                if w == window.window_id {
                    if found {
                        let j = choose|j: int| 0 <= j < before.len() && (#[trigger] before[j]).0 == w;
                        assert(r@[j].0 == w);
                    } else {
                        assert(r@[before.len() as int].0 == w);
                    }
                } else {
                    assert(texture_map(windows@.take(k as int)).contains_key(w));
                    assert(has_window(before, w));
                    let j = choose|j: int| 0 <= j < before.len() && (#[trigger] before[j]).0 == w;
                    if found {
                        assert(r@[j].0 == w);
                    } else {
                        assert(r@[j] == before[j]);
                    }
                }
            }
            assert forall|j: int| 0 <= j < r@.len() implies (#[trigger] r@[j]).1@ == m[r@[j].0] by {
                if r@[j].0 != window.window_id {
                    assert(r@[j] == before[j]);
                }
            }
        }
        k += 1;
    }
    proof {
        assert(windows@.take(windows@.len() as int) =~= windows@);
    }
    r
}

fn copy_ids(ids: &Vec<i64>) -> (r: Vec<i64>)
    ensures
        r@ == ids@,
{
    let mut r: Vec<i64> = Vec::new();
    let mut i: usize = 0;
    while i < ids.len()
        invariant
            i <= ids@.len(),
            r@ == ids@.take(i as int),
        decreases ids@.len() - i,
    {
        r.push(ids[i]);
        proof {
            assert(ids@.take(i + 1) =~= ids@.take(i as int).push(ids@[i as int]));
        }
        i += 1;
    }
    proof {
        assert(ids@.take(ids@.len() as int) =~= ids@);
    }
    r
}

fn window_ids_of(w: &WindowTextures) -> (r: Vec<i64>)
    ensures
        r@ == window_ids(*w),
{
    let mut r: Vec<i64> = Vec::new();
    if w.surface_texture_ids.len() == 0 {
        if 0 < w.texture_id && w.texture_id <= i64::MAX as u64 {
            r.push(w.texture_id as i64);
        }
        proof {
            if 0 < w.texture_id && w.texture_id <= i64::MAX {
                assert(r@ =~= seq![w.texture_id as i64]);
            }
        }
        return r;
    }
    let s = &w.surface_texture_ids;
    let mut i: usize = 0;
    while i < s.len()
        invariant
            i <= s@.len(),
            r@ == positive_ids(s@.take(i as int)),
        decreases s@.len() - i,
    {
        proof {
            assert(s@.take(i + 1).drop_last() =~= s@.take(i as int));
            assert(s@.take(i + 1).last() == s@[i as int]);
        }
        let t = s[i];
        if 0 < t && t <= i64::MAX as u64 {
            r.push(t as i64);
        }
        i += 1;
    }
    proof {
        assert(s@.take(s@.len() as int) =~= s@);
    }
    r
}

} // verus!
