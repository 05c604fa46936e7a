//! Display-power topology debounce: outputs that drop out of the connector
//! topology while parked by DPMS, or while waking, are not removed at once.
//! Times are monotonic nanosecond counts.

pub mod requests;

use vstd::prelude::*;
use std::collections::BTreeSet;

verus! {

broadcast use {vstd::laws_cmp::group_laws_cmp, vstd::std_specs::btree::group_btree_axioms};

/// How long a woken output may vanish from the topology: five seconds.
pub const DPMS_WAKE_TOPOLOGY_GRACE_NANOS: u64 = 5_000_000_000;

/// Outputs parked by DPMS or waking from it, the end of the wake grace
/// period, and whether a removal is being deferred.
#[derive(Debug)]
pub struct DpmsTopologyGuard {
    pub parked_outputs: BTreeSet<u32>,
    pub waking_outputs: BTreeSet<u32>,
    pub wake_grace_until: Option<u64>,
    pub deferred_removal: bool,
}

/// A topology change held back: how many outputs are missing, until when a
/// waking output may still return, and whether this is the first time.
#[derive(Clone, Copy, Debug, PartialEq, Eq, Structural)]
pub struct DeferredDpmsTopology {
    pub missing_outputs: usize,
    pub grace_until: Option<u64>,
    pub first_observation: bool,
}

/// The outputs expected in `current` that `observed` lacks.
pub open spec fn missing_set(current: Seq<u32>, observed: Seq<u32>) -> Set<u32> {
    current.to_set().difference(observed.to_set())
}

/// The guard after the wake grace period expired at `now`, if it did.
pub open spec fn expired_guard(
    parked: Set<u32>,
    waking: Set<u32>,
    grace: Option<u64>,
    deferred: bool,
    now: u64,
) -> (Set<u32>, Option<u64>, bool) {
    if grace matches Some(d) && now >= d {
        (Set::<u32>::empty(), None, false)
    } else {
        (waking, grace, deferred)
    }
}

fn set_of(s: &[u32]) -> (r: BTreeSet<u32>)
    ensures
        r@ == s@.to_set(),
{
    let mut r: BTreeSet<u32> = BTreeSet::new();
    let mut i: usize = 0;
    while i < s.len()
        invariant
            i <= s@.len(),
            r@ == s@.take(i as int).to_set(),
        decreases s@.len() - i,
    {
        let ghost before = s@.take(i as int);
        r.insert(s[i]);
        assert(s@.take(i + 1) =~= before.push(s@[i as int]));
        proof {
            before.lemma_push_to_set_commute(s@[i as int]);
        }
        i += 1;
    }
    assert(s@.take(s@.len() as int) =~= s@);
    r
}

impl DpmsTopologyGuard {
    pub open spec fn is_empty_guard(&self) -> bool {
        &&& self.parked_outputs@ == Set::<u32>::empty()
        &&& self.waking_outputs@ == Set::<u32>::empty()
        &&& self.wake_grace_until is None
        &&& !self.deferred_removal
    }

    pub fn new() -> (g: Self)
        ensures
            g.is_empty_guard(),
    {
        DpmsTopologyGuard {
            parked_outputs: BTreeSet::new(),
            waking_outputs: BTreeSet::new(),
            wake_grace_until: None,
            deferred_removal: false,
        }
    }

    /// Forgets every parked and waking output.
    pub fn cancel(&mut self)
        ensures
            final(self).is_empty_guard(),
    {
        *self = DpmsTopologyGuard::new();
    }

    /// `output` was powered off: it is parked and no longer waking; the
    /// grace period ends with the last waking output.
    pub fn note_powered_off(&mut self, output: u32)
        ensures
            final(self).parked_outputs@ == old(self).parked_outputs@.insert(output),
            final(self).waking_outputs@ == old(self).waking_outputs@.remove(output),
            final(self).wake_grace_until == (if old(self).waking_outputs@.remove(output).is_empty() {
                None
            } else {
                old(self).wake_grace_until
            }),
            final(self).deferred_removal == old(self).deferred_removal,
    {
        self.waking_outputs.remove(&output);
        self.parked_outputs.insert(output);
        if self.waking_outputs.is_empty() {
            self.wake_grace_until = None;
        }
    }

    /// `output` is waking at `now`: it is no longer parked, and the grace
    /// period restarts.
    pub fn note_wake(&mut self, output: u32, now: u64)
        requires
            now <= u64::MAX - DPMS_WAKE_TOPOLOGY_GRACE_NANOS,
        ensures
            final(self).parked_outputs@ == old(self).parked_outputs@.remove(output),
            final(self).waking_outputs@ == old(self).waking_outputs@.insert(output),
            final(self).wake_grace_until == Some((now + DPMS_WAKE_TOPOLOGY_GRACE_NANOS) as u64),
            final(self).deferred_removal == old(self).deferred_removal,
    {
        self.parked_outputs.remove(&output);
        self.waking_outputs.insert(output);
        self.wake_grace_until = Some(now + DPMS_WAKE_TOPOLOGY_GRACE_NANOS);
    }

    fn expire_wake_grace(&mut self, now: u64)
        ensures
            (old(self).wake_grace_until matches Some(d) && now >= d) ==> {
                &&& final(self).waking_outputs@ == Set::<u32>::empty()
                &&& final(self).wake_grace_until is None
                &&& !final(self).deferred_removal
                &&& final(self).parked_outputs@ == old(self).parked_outputs@
            },
            !(old(self).wake_grace_until matches Some(d) && now >= d) ==> *final(self) == *old(
                self,
            ),
    {
        let expired = match self.wake_grace_until {
            Some(deadline) => now >= deadline,
            None => false,
        };
        if expired {
            self.waking_outputs.clear();
            self.wake_grace_until = None;
            self.deferred_removal = false;
        }
    }

    /// Decides whether outputs missing from the observed topology are held
    /// back. Nothing is missing: any deferral ends. An unexpected output
    /// appears, or a missing one was neither parked nor waking: the guard is
    /// cancelled and the change applies. Otherwise the removal is deferred,
    /// with the wake grace deadline when a waking output is missing.
    pub fn defer_missing_outputs(&mut self, now: u64, current: &[u32], observed: &[u32]) -> (r:
        Option<DeferredDpmsTopology>)
        ensures
            ({
                let (waking, grace, deferred) = expired_guard(
                    old(self).parked_outputs@,
                    old(self).waking_outputs@,
                    old(self).wake_grace_until,
                    old(self).deferred_removal,
                    now,
                );
                let parked = old(self).parked_outputs@;
                let m = missing_set(current@, observed@);
                if m.is_empty() {
                    &&& r is None
                    &&& final(self).parked_outputs@ == parked
                    &&& final(self).waking_outputs@ == waking
                    &&& final(self).wake_grace_until == grace
                    &&& !final(self).deferred_removal
                } else if !observed@.to_set().subset_of(current@.to_set()) || exists|o: u32|
                    #[trigger] m.contains(o) && !parked.contains(o) && !waking.contains(o) {
                    r is None && final(self).is_empty_guard()
                } else {
                    &&& r == Some(
                        DeferredDpmsTopology {
                            missing_outputs: m.len() as usize,
                            grace_until: if exists|o: u32| #[trigger] m.contains(o) && waking.contains(o) {
                                grace
                            } else {
                                None
                            },
                            first_observation: !deferred,
                        },
                    )
                    &&& final(self).parked_outputs@ == parked
                    &&& final(self).waking_outputs@ == waking
                    &&& final(self).wake_grace_until == grace
                    &&& final(self).deferred_removal
                }
            }),
    {
        self.expire_wake_grace(now);
        let current_set = set_of(current);
        let observed_set = set_of(observed);
        let ghost m = missing_set(current@, observed@);
        let mut missing: BTreeSet<u32> = BTreeSet::new();
        let mut count: usize = 0;
        let mut unknown = false;
        let mut any_waking = false;
        let mut i: usize = 0;
        while i < current.len()
            invariant
                i <= current@.len(),
                observed_set@ == observed@.to_set(),
                missing@ == current@.take(i as int).to_set().difference(observed@.to_set()),
                missing@.finite(),
                count == missing@.len(),
                count <= i,
                unknown == exists|o: u32|
                    #[trigger] missing@.contains(o) && !self.parked_outputs@.contains(o)
                        && !self.waking_outputs@.contains(o),
                any_waking == exists|o: u32|
                    #[trigger] missing@.contains(o) && self.waking_outputs@.contains(o),
            decreases current@.len() - i,
        {
            let c = current[i];
            let ghost old_missing = missing@;
            let ghost before = current@.take(i as int);
            assert(current@.take(i + 1) =~= before.push(c));
            proof {
                before.lemma_push_to_set_commute(c);
            }
            if !observed_set.contains(&c) {
                if !missing.contains(&c) {
                    missing.insert(c);
                    count = count + 1;
                }
                if !self.parked_outputs.contains(&c) && !self.waking_outputs.contains(&c) {
                    unknown = true;
                }
                if self.waking_outputs.contains(&c) {
                    any_waking = true;
                }
            }
            assert(missing@ =~= current@.take(i + 1).to_set().difference(observed@.to_set()));
            proof {
                let parked = self.parked_outputs@;
                let waking = self.waking_outputs@;
                if !observed@.to_set().contains(c) {
                    assert(missing@ =~= old_missing.insert(c));
                    if exists|o: u32| #[trigger] missing@.contains(o) && !parked.contains(o)
                        && !waking.contains(o) {
                        let o = choose|o: u32| #[trigger] missing@.contains(o) && !parked.contains(o)
                            && !waking.contains(o);
                        if o != c {
                            assert(old_missing.contains(o));
                        }
                    }
                    if exists|o: u32| #[trigger] old_missing.contains(o) && !parked.contains(o)
                        && !waking.contains(o) {
                        let o = choose|o: u32| #[trigger] old_missing.contains(o) && !parked.contains(
                            o,
                        ) && !waking.contains(o);
                        assert(missing@.contains(o));
                    }
                    if exists|o: u32| #[trigger] missing@.contains(o) && waking.contains(o) {
                        let o = choose|o: u32| #[trigger] missing@.contains(o) && waking.contains(o);
                        if o != c {
                            assert(old_missing.contains(o));
                        }
                    }
                    if exists|o: u32| #[trigger] old_missing.contains(o) && waking.contains(o) {
                        let o = choose|o: u32| #[trigger] old_missing.contains(o) && waking.contains(o);
                        assert(missing@.contains(o));
                    }
                    assert(missing@.contains(c));
                } else {
                    assert(missing@ =~= old_missing);
                }
            }
            i += 1;
        }
        assert(current@.take(current@.len() as int) =~= current@);
        if count == 0 {
            proof {
                if !m.is_empty() {
                    let x = m.choose();
                    assert(m.contains(x));
                    vstd::set_lib::lemma_set_empty_equivalency_len(missing@);
                }
            }
            self.deferred_removal = false;
            return None;
        }
        let mut stray = false;
        let mut j: usize = 0;
        while j < observed.len()
            invariant
                j <= observed@.len(),
                current_set@ == current@.to_set(),
                stray == exists|k: int| 0 <= k < j && !current_set@.contains(#[trigger] observed@[k]),
            decreases observed@.len() - j,
        {
            if !current_set.contains(&observed[j]) {
                stray = true;
            }
            j += 1;
        }
        proof {
            if stray {
                let k = choose|k: int| 0 <= k < observed@.len() && !current_set@.contains(
                    #[trigger] observed@[k],
                );
                assert(observed@.to_set().contains(observed@[k]));
            } else {
                assert forall|o: u32| observed@.to_set().contains(o) implies current@.to_set().contains(
                    o,
                ) by {
                    let k = choose|k: int| 0 <= k < observed@.len() && observed@[k] == o;
                    assert(current_set@.contains(observed@[k]));
                }
            }
            vstd::set_lib::lemma_set_empty_equivalency_len(missing@);
        }
        if stray || unknown {
            self.cancel();
            return None;
        }
        let grace_until = if any_waking {
            self.wake_grace_until
        } else {
            None
        };
        let first_observation = !self.deferred_removal;
        self.deferred_removal = true;
        Some(DeferredDpmsTopology { missing_outputs: count, grace_until, first_observation })
    }

    /// At the end of the wake grace period the waking outputs settle;
    /// returns whether a deferred removal is now due.
    pub fn service_deadline(&mut self, now: u64) -> (r: bool)
        ensures
            (old(self).wake_grace_until matches Some(d) && now >= d) ==> {
                &&& r == old(self).deferred_removal
                &&& final(self).waking_outputs@ == Set::<u32>::empty()
                &&& final(self).wake_grace_until is None
                &&& !final(self).deferred_removal
                &&& final(self).parked_outputs@ == old(self).parked_outputs@
            },
            !(old(self).wake_grace_until matches Some(d) && now >= d) ==> !r && *final(self)
                == *old(self),
    {
        let due = match self.wake_grace_until {
            Some(deadline) => now >= deadline,
            None => false,
        };
        if !due {
            return false;
        }
        self.waking_outputs.clear();
        self.wake_grace_until = None;
        let deferred = self.deferred_removal;
        self.deferred_removal = false;
        deferred
    }

    /// The event-loop timeout, shortened to the grace deadline while a
    /// removal is deferred.
    pub fn limit_dispatch_timeout(&self, now: u64, timeout: u64) -> (r: u64)
        ensures
            !self.deferred_removal ==> r == timeout,
            self.deferred_removal ==> r == match self.wake_grace_until {
                Some(d) => {
                    let left: u64 = if d > now {
                        (d - now) as u64
                    } else {
                        0
                    };
                    if timeout < left {
                        timeout
                    } else {
                        left
                    }
                },
                None => timeout,
            },
    {
        if !self.deferred_removal {
            return timeout;
        }
        match self.wake_grace_until {
            Some(deadline) => {
                let left = if deadline > now {
                    deadline - now
                } else {
                    0
                };
                if timeout < left {
                    timeout
                } else {
                    left
                }
            },
            None => timeout,
        }
    }
}

} // verus!
