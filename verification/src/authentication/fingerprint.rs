//! Optional fprintd verification, independent of the password conversation.
//!
//! Each scan is pinned to one lock epoch. Only a completed match, checked
//! against the current epoch, can start an unlock, and the unlock waits for
//! the displays to show the wake frame and settle.

use vstd::prelude::*;
use crate::text::chars_equal_str;
use crate::text::str_chars;
use crate::authentication::{
    AuthenticationEvent, AuthenticationEventKind, spec_cooldown_ms, cooldown_for,
};
use crate::authentication::session::{
    AuthenticationSession, AuthenticationState, PendingUnlock, pushed_one, event_ok, room_for_one,
    NANOS_PER_MILLI,
};

verus! {

/// Upper bound of the retry delay for an unavailable reader: 30 s.
pub const MAX_UNAVAILABLE_RETRY_MS: u64 = 30_000;

/// Settling time after the wake frame reached the display: 150 ms.
pub const WAKE_SETTLE_NANOS: u64 = 150_000_000;

#[derive(Clone, Copy, Debug, PartialEq, Eq, Structural)]
pub enum Verification {
    Match,
    NoMatch,
    Cancelled,
    Unavailable,
}

pub open spec fn is_retry_status(s: Seq<char>) -> bool {
    s == "verify-retry-scan"@ || s == "verify-swipe-too-short"@ || s
        == "verify-finger-not-centered"@ || s == "verify-remove-and-retry"@ || s
        == "verify-too-fast"@
}

/// A finished match or no-match is a result; a retry request before the
/// scan is done means waiting; everything else fails closed.
pub open spec fn spec_classify_status(status: Seq<char>, done: bool) -> Option<Verification> {
    if status == "verify-match"@ && done {
        Some(Verification::Match)
    } else if status == "verify-no-match"@ && done {
        Some(Verification::NoMatch)
    } else if is_retry_status(status) && !done {
        None
    } else {
        Some(Verification::Unavailable)
    }
}

/// Classifies an fprintd `VerifyStatus` signal.
pub fn classify_status(status: &str, done: bool) -> (r: Option<Verification>)
    ensures
        r == spec_classify_status(status@, done),
{
    let s = str_chars(status);
    let c = s.as_slice();
    if done && chars_equal_str(c, "verify-match") {
        Some(Verification::Match)
    } else if done && chars_equal_str(c, "verify-no-match") {
        Some(Verification::NoMatch)
    } else if !done && (chars_equal_str(c, "verify-retry-scan") || chars_equal_str(
        c,
        "verify-swipe-too-short",
    ) || chars_equal_str(c, "verify-finger-not-centered") || chars_equal_str(
        c,
        "verify-remove-and-retry",
    ) || chars_equal_str(c, "verify-too-fast")) {
        None
    } else {
        Some(Verification::Unavailable)
    }
}

/// Delay after a rejected scan: 150 ms for the first four, then the
/// password cooldown counted from the fifth.
pub open spec fn spec_fingerprint_retry_ms(failures: u32) -> u64 {
    if failures <= 4 {
        150
    } else {
        spec_cooldown_ms((failures - 4) as u32)
    }
}

pub fn fingerprint_retry(failures: u32) -> (ms: u64)
    ensures
        ms == spec_fingerprint_retry_ms(failures),
        150 <= ms <= 30_000,
{
    if failures <= 4 {
        150
    } else {
        cooldown_for(failures - 4)
    }
}

/// Delay after an unavailable reader: 1 s doubled per further attempt, at
/// most 30 s.
pub open spec fn spec_unavailable_retry_ms(attempts: u32) -> u64 {
    let exponent: int = if attempts <= 1 {
        0
    } else if attempts - 1 >= 5 {
        5
    } else {
        attempts - 1
    };
    let v = 1000 * vstd::arithmetic::power2::pow2(exponent as nat);
    if v > MAX_UNAVAILABLE_RETRY_MS {
        MAX_UNAVAILABLE_RETRY_MS
    } else {
        v as u64
    }
}

pub fn unavailable_retry(attempts: u32) -> (ms: u64)
    ensures
        ms == spec_unavailable_retry_ms(attempts),
        1000 <= ms <= MAX_UNAVAILABLE_RETRY_MS,
{
    let exponent: u32 = if attempts <= 1 {
        0
    } else if attempts - 1 >= 5 {
        5
    } else {
        attempts - 1
    };
    proof {
        vstd::arithmetic::power2::lemma2_to64();
    }
    let factor: u64 = if exponent == 0 {
        1
    } else if exponent == 1 {
        2
    } else if exponent == 2 {
        4
    } else if exponent == 3 {
        8
    } else if exponent == 4 {
        16
    } else {
        32
    };
    let v = 1000 * factor;
    if v > MAX_UNAVAILABLE_RETRY_MS {
        MAX_UNAVAILABLE_RETRY_MS
    } else {
        v
    }
}

/// Retry bookkeeping of the fingerprint worker: rejected scans and
/// unavailable attempts are counted separately, and both restart with each
/// lock epoch.
#[derive(Clone, Copy, Debug, PartialEq, Eq, Structural)]
pub struct RetryState {
    pub previous_epoch: Option<u64>,
    pub failures: u32,
    pub unavailable_attempts: u32,
}

pub open spec fn saturating_inc(v: u32) -> u32 {
    if v == u32::MAX {
        u32::MAX
    } else {
        (v + 1) as u32
    }
}

impl RetryState {
    pub fn new() -> (r: Self)
        ensures
            r == (RetryState { previous_epoch: None, failures: 0, unavailable_attempts: 0 }),
    {
        RetryState { previous_epoch: None, failures: 0, unavailable_attempts: 0 }
    }

    /// A scan starts in lock epoch `epoch`; a new epoch restarts both counts.
    pub fn observe_epoch(&mut self, epoch: u64)
        ensures
            old(self).previous_epoch != Some(epoch) ==> *final(self) == (RetryState {
                previous_epoch: Some(epoch),
                failures: 0,
                unavailable_attempts: 0,
            }),
            old(self).previous_epoch == Some(epoch) ==> *final(self) == *old(self),
    {
        if self.previous_epoch != Some(epoch) {
            self.failures = 0;
            self.unavailable_attempts = 0;
            self.previous_epoch = Some(epoch);
        }
    }

    /// The delay before the next scan after `result` (not a match): a
    /// rejection counts towards the scan backoff and restarts the
    /// unavailable count; anything else counts as unavailable only.
    pub fn after_result(&mut self, result: Verification) -> (delay_ms: u64)
        ensures
            result == Verification::NoMatch ==> {
                &&& final(self).failures == saturating_inc(old(self).failures)
                &&& final(self).unavailable_attempts == 0
                &&& delay_ms == spec_fingerprint_retry_ms(final(self).failures)
            },
            result != Verification::NoMatch ==> {
                &&& final(self).failures == old(self).failures
                &&& final(self).unavailable_attempts == saturating_inc(
                    old(self).unavailable_attempts,
                )
                &&& delay_ms == spec_unavailable_retry_ms(final(self).unavailable_attempts)
            },
            final(self).previous_epoch == old(self).previous_epoch,
            delay_ms <= 30_000,
    {
        if result == Verification::NoMatch {
            self.unavailable_attempts = 0;
            self.failures = if self.failures == u32::MAX {
                u32::MAX
            } else {
                self.failures + 1
            };
            fingerprint_retry(self.failures)
        } else {
            self.unavailable_attempts = if self.unavailable_attempts == u32::MAX {
                u32::MAX
            } else {
                self.unavailable_attempts + 1
            };
            unavailable_retry(self.unavailable_attempts)
        }
    }
}

/// The session after a match of epoch `epoch` was accepted: any password
/// prompt is cancelled and its result invalidated, the failures are
/// forgotten and the unlock waits for the displays.
pub open spec fn matched_state(st: AuthenticationState) -> AuthenticationState {
    AuthenticationState {
        generation: st.generation.wrapping_add(1),
        lock_epoch: st.lock_epoch.wrapping_add(1),
        cancel_requested: st.busy,
        prompt: None,
        response: None,
        failure_count: 0,
        cooldown_until: None,
        fingerprint_unlock: Some(PendingUnlock::Validated),
        ..st
    }
}

pub open spec fn epoch_current(s: AuthenticationSession, epoch: u64) -> bool {
    !s.state.stopping && s.state.lock_epoch == epoch && s.locked
}

pub open spec fn complete_match_post(
    old: AuthenticationSession,
    new: AuthenticationSession,
    epoch: u64,
    r: bool,
) -> bool {
    &&& r == epoch_current(old, epoch)
    &&& r ==> new == (AuthenticationSession { state: matched_state(old.state), ..old })
    &&& !r ==> new == old
}

/// How a pending fingerprint unlock advances at `now`: it is dropped once
/// stopping or unlocked; without ready outputs it waits for the wake frame;
/// the wake frame starts the settling delay; a validated match, or a settled
/// one, unlocks and reports success.
pub open spec fn advance_post(
    old: AuthenticationSession,
    new: AuthenticationSession,
    now: u64,
    outputs_ready: bool,
    r: bool,
) -> bool {
    if old.state.stopping || !old.locked {
        !r && new == (AuthenticationSession {
            state: AuthenticationState { fingerprint_unlock: None, ..old.state },
            ..old
        })
    } else if old.state.fingerprint_unlock is None {
        !r && new == old
    } else if !outputs_ready {
        r && new == (AuthenticationSession {
            state: AuthenticationState {
                fingerprint_unlock: Some(PendingUnlock::Waking),
                ..old.state
            },
            ..old
        })
    } else if old.state.fingerprint_unlock == Some(PendingUnlock::Waking) {
        !r && new == (AuthenticationSession {
            state: AuthenticationState {
                fingerprint_unlock: Some(PendingUnlock::Settling((now + WAKE_SETTLE_NANOS) as u64)),
                ..old.state
            },
            ..old
        })
    } else if old.state.fingerprint_unlock matches Some(PendingUnlock::Settling(deadline))
        && now < deadline {
        !r && new == old
    } else {
        let mid = AuthenticationSession {
            state: AuthenticationState { fingerprint_unlock: None, ..old.state },
            locked: false,
            ..old
        };
        &&& !r
        &&& new.state == mid.state
        &&& !new.locked
        &&& new.security_gate_locked == old.security_gate_locked
        &&& pushed_one(old.events@, new.events@)
        &&& event_ok(
            new.events@.last(),
            AuthenticationEventKind::Result { success: true, cancelled: false },
            mid,
            now,
            "Fingerprint recognized"@,
        )
    }
}

impl AuthenticationSession {
    /// Whether the scan of lock epoch `epoch` must stop.
    pub fn fingerprint_cancelled(&self, epoch: u64) -> (r: bool)
        ensures
            r == !epoch_current(*self, epoch),
    {
        self.state.stopping || self.state.lock_epoch != epoch || !self.locked
    }

    /// Whether the fingerprint worker has nothing to do: the session is
    /// unlocked or an unlock is already under way (and it is not stopping).
    pub fn fingerprint_worker_idle(&self) -> (r: bool)
        ensures
            r == (!self.state.stopping && (!self.locked || self.state.fingerprint_unlock is Some)),
    {
        !self.state.stopping && (!self.locked || self.state.fingerprint_unlock.is_some())
    }

    /// Accepts a match of lock epoch `epoch` when it is still current.
    pub fn complete_match(&mut self, epoch: u64) -> (r: bool)
        requires
            old(self).wf(),
        ensures
            final(self).wf(),
            complete_match_post(*old(self), *final(self), epoch, r),
    {
        if self.state.stopping || self.state.lock_epoch != epoch || !self.locked {
            return false;
        }
        self.state.generation = self.state.generation.wrapping_add(1);
        self.state.lock_epoch = self.state.lock_epoch.wrapping_add(1);
        self.state.cancel_requested = self.state.busy;
        self.state.prompt = None;
        self.state.response = None;
        self.state.failure_count = 0;
        self.state.cooldown_until = None;
        self.state.fingerprint_unlock = Some(PendingUnlock::Validated);
        true
    }

    /// Advances a pending fingerprint unlock; returns whether the displays
    /// must be woken.
    pub fn advance_pending_unlock(&mut self, now: u64, outputs_ready: bool) -> (r: bool)
        requires
            old(self).wf(),
            now <= u64::MAX - WAKE_SETTLE_NANOS,
        ensures
            final(self).wf(),
            advance_post(*old(self), *final(self), now, outputs_ready, r),
    {
        if self.state.stopping || !self.locked {
            self.state.fingerprint_unlock = None;
            return false;
        }
        let pending = match self.state.fingerprint_unlock {
            Some(p) => p,
            None => return false,
        };
        if !outputs_ready {
            self.state.fingerprint_unlock = Some(PendingUnlock::Waking);
            return true;
        }
        match pending {
            PendingUnlock::Waking => {
                self.state.fingerprint_unlock = Some(
                    PendingUnlock::Settling(now + WAKE_SETTLE_NANOS),
                );
                return false;
            },
            PendingUnlock::Settling(deadline) => {
                if now < deadline {
                    return false;
                }
            },
            PendingUnlock::Validated => {},
        }
        self.state.fingerprint_unlock = None;
        self.locked = false;
        let event = AuthenticationEvent {
            kind: AuthenticationEventKind::Result { success: true, cancelled: false },
            state: self.snapshot(now),
            message: String::from_str("Fingerprint recognized"),
        };
        self.push_event(event);
        assert(self.events@.drop_last() =~= room_for_one(old(self).events@));
        false
    }

    /// Reports a rejected scan of epoch `epoch` to the lock screen, when the
    /// epoch is still current; returns whether it was reported.
    pub fn publish_no_match(&mut self, epoch: u64, now: u64) -> (r: bool)
        requires
            old(self).wf(),
        ensures
            final(self).wf(),
            r == epoch_current(*old(self), epoch),
            !r ==> *final(self) == *old(self),
            r ==> {
                &&& final(self).state == old(self).state
                &&& final(self).locked == old(self).locked
                &&& final(self).security_gate_locked == old(self).security_gate_locked
                &&& pushed_one(old(self).events@, final(self).events@)
                &&& event_ok(
                    final(self).events@.last(),
                    AuthenticationEventKind::FingerprintFeedback,
                    *old(self),
                    now,
                    "no-match"@,
                )
            },
    {
        if self.state.stopping || self.state.lock_epoch != epoch || !self.locked {
            return false;
        }
        let event = AuthenticationEvent {
            kind: AuthenticationEventKind::FingerprintFeedback,
            state: self.snapshot(now),
            message: String::from_str("no-match"),
        };
        self.push_event(event);
        assert(self.events@.drop_last() =~= room_for_one(old(self).events@));
        true
    }
}

} // verus!
