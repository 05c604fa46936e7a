//! The authentication session: lock state, password attempts, prompts,
//! cooldown and the event queue for the lock screen. Threads, waiting and
//! the PAM conversation run around it; every decision is made here.
//! Times are monotonic nanosecond counts.

use vstd::prelude::*;
use crate::authentication::{
    AuthenticationCommand, AuthenticationDecodeError, AuthenticationEvent,
    AuthenticationEventKind, AuthenticationSnapshot, BackendResult, CommandModel, PromptStyle,
    SecureString, MAX_PENDING_EVENTS, spec_cooldown_ms, cooldown_for, spec_decode_auth,
    command_model, decode, spec_sanitize_message, sanitize_message, MAX_COOLDOWN_MS,
};

verus! {

/// Progress of a validated fingerprint towards unlocking.
#[derive(Clone, Copy, Debug, PartialEq, Eq, Structural)]
pub enum PendingUnlock {
    Validated,
    Waking,
    Settling(u64),
}

/// The prompt currently shown for a password attempt.
#[derive(Debug)]
pub struct PromptState {
    pub style: PromptStyle,
    pub sequence: u32,
    pub message: String,
    pub requires_response: bool,
}

/// The attempt a worker runs, and the generation it belongs to.
#[derive(Clone, Copy, Debug, PartialEq, Eq, Structural)]
pub struct WorkItem {
    pub attempt_id: u64,
    pub generation: u64,
}

pub struct AuthenticationState {
    pub stopping: bool,
    pub busy: bool,
    pub cancel_requested: bool,
    pub generation: u64,
    pub lock_epoch: u64,
    pub fingerprint_unlock: Option<PendingUnlock>,
    pub next_attempt_id: u64,
    pub active_attempt_id: u64,
    pub next_prompt_sequence: u32,
    pub failure_count: u32,
    pub cooldown_until: Option<u64>,
    pub pending_work: Option<WorkItem>,
    pub prompt: Option<PromptState>,
    pub response: Option<SecureString>,
    pub available: bool,
    pub unavailable_reason: String,
}

/// The session with the lock flag, the security gate and pending events.
pub struct AuthenticationSession {
    pub state: AuthenticationState,
    pub locked: bool,
    pub security_gate_locked: bool,
    pub events: Vec<AuthenticationEvent>,
}

pub const NANOS_PER_MILLI: u64 = 1_000_000;

/// Milliseconds of cooldown left at `now`: none without a deadline or once
/// it passed, else at least one millisecond, saturating at `u32::MAX`.
pub open spec fn cooldown_left_ms(until: Option<u64>, now: u64) -> u32 {
    match until {
        Some(u) => if u >= now {
            let ms = (u - now) / (NANOS_PER_MILLI as int);
            if ms > u32::MAX {
                u32::MAX
            } else if ms == 0 {
                1
            } else {
                ms as u32
            }
        } else {
            0
        },
        None => 0,
    }
}

pub open spec fn status_message(st: AuthenticationState) -> Seq<char> {
    if !st.available {
        st.unavailable_reason@
    } else if st.cancel_requested && st.busy {
        "Cancelling authentication…"@
    } else {
        seq![]
    }
}

/// `snap` describes the session at `now`.
pub open spec fn snapshot_ok(snap: AuthenticationSnapshot, s: AuthenticationSession, now: u64) -> bool {
    &&& snap.locked == s.locked
    &&& snap.available == s.state.available
    &&& snap.busy == s.state.busy
    &&& snap.attempt_id == s.state.active_attempt_id
    &&& snap.cooldown_ms == cooldown_left_ms(s.state.cooldown_until, now)
    &&& snap.status_message@ == status_message(s.state)
}

pub open spec fn event_ok(
    e: AuthenticationEvent,
    kind: AuthenticationEventKind,
    s: AuthenticationSession,
    now: u64,
    message: Seq<char>,
) -> bool {
    e.kind == kind && snapshot_ok(e.state, s, now) && e.message@ == message
}

/// What stays of a full queue when one more event arrives: the oldest
/// event is dropped.
pub open spec fn room_for_one(q: Seq<AuthenticationEvent>) -> Seq<AuthenticationEvent> {
    if q.len() >= MAX_PENDING_EVENTS {
        q.drop_first()
    } else {
        q
    }
}

pub open spec fn pushed_one(old_q: Seq<AuthenticationEvent>, new_q: Seq<AuthenticationEvent>) -> bool {
    new_q.len() > 0 && new_q.drop_last() == room_for_one(old_q)
}

fn cooldown_left(until: Option<u64>, now: u64) -> (r: u32)
    ensures
        r == cooldown_left_ms(until, now),
{
    match until {
        Some(u) => {
            if u >= now {
                let ms = (u - now) / NANOS_PER_MILLI;
                if ms > u32::MAX as u64 {
                    u32::MAX
                } else if ms == 0 {
                    1
                } else {
                    ms as u32
                }
            } else {
                0
            }
        },
        None => 0,
    }
}


/// The state a state event is published for, with everything else equal.
pub open spec fn state_published(old: AuthenticationSession, new: AuthenticationSession, now: u64) -> bool {
    &&& pushed_one(old.events@, new.events@)
    &&& event_ok(new.events@.last(), AuthenticationEventKind::State, old, now, seq![])
}

pub open spec fn same_but_events(a: AuthenticationSession, b: AuthenticationSession) -> bool {
    a.state == b.state && a.locked == b.locked && a.security_gate_locked == b.security_gate_locked
}

/// The session state after a lock: a new epoch, no pending fingerprint
/// unlock, and an attempt in progress cancelled.
pub open spec fn locked_state(st: AuthenticationState) -> AuthenticationState {
    if st.busy {
        AuthenticationState {
            lock_epoch: st.lock_epoch.wrapping_add(1),
            fingerprint_unlock: None,
            generation: st.generation.wrapping_add(1),
            cancel_requested: true,
            response: None,
            prompt: None,
            ..st
        }
    } else {
        AuthenticationState {
            lock_epoch: st.lock_epoch.wrapping_add(1),
            fingerprint_unlock: None,
            ..st
        }
    }
}

pub open spec fn lock_post(old: AuthenticationSession, new: AuthenticationSession, now: u64) -> bool {
    let mid = AuthenticationSession {
        state: locked_state(old.state),
        locked: true,
        security_gate_locked: true,
        ..old
    };
    &&& same_but_events(mid, new)
    &&& state_published(mid, new, now)
}

/// `synchronize`: a state event, then the prompt being shown, if any.
pub open spec fn synchronize_post(old: AuthenticationSession, new: AuthenticationSession, now: u64) -> bool {
    &&& same_but_events(old, new)
    &&& (old.state.prompt is None ==> state_published(old, new, now))
    &&& (old.state.prompt matches Some(p) ==> exists|mid: Seq<AuthenticationEvent>|
        {
            &&& #[trigger] pushed_one(old.events@, mid)
            &&& event_ok(mid.last(), AuthenticationEventKind::State, old, now, seq![])
            &&& pushed_one(mid, new.events@)
            &&& event_ok(
                new.events@.last(),
                AuthenticationEventKind::Prompt { style: p.style, sequence: p.sequence },
                old,
                now,
                p.message@,
            )
        })
}

pub open spec fn next_attempt(id: u64) -> u64 {
    if id.wrapping_add(1) == 0 {
        1
    } else {
        id.wrapping_add(1)
    }
}

pub open spec fn in_cooldown(st: AuthenticationState, now: u64) -> bool {
    st.cooldown_until matches Some(u) && u > now
}

/// The attempt `begin` starts.
pub open spec fn started_state(st: AuthenticationState) -> AuthenticationState {
    AuthenticationState {
        generation: st.generation.wrapping_add(1),
        active_attempt_id: st.next_attempt_id,
        next_attempt_id: next_attempt(st.next_attempt_id),
        busy: true,
        cancel_requested: false,
        prompt: None,
        response: None,
        pending_work: Some(
            WorkItem { attempt_id: st.next_attempt_id, generation: st.generation.wrapping_add(1) },
        ),
        ..st
    }
}

/// `begin`: nothing while unlocked, busy or unlocking by fingerprint; an
/// unavailable backend or a running cooldown answer with a failed result
/// and the state; otherwise a new attempt starts and the state is sent.
pub open spec fn begin_post(old: AuthenticationSession, new: AuthenticationSession, now: u64) -> bool {
    if !old.locked || old.state.busy || old.state.fingerprint_unlock is Some {
        new == old
    } else if !old.state.available || in_cooldown(old.state, now) {
        &&& same_but_events(old, new)
        &&& exists|mid: Seq<AuthenticationEvent>|
            {
                &&& #[trigger] pushed_one(old.events@, mid)
                &&& event_ok(
                    mid.last(),
                    AuthenticationEventKind::Result { success: false, cancelled: false },
                    old,
                    now,
                    if !old.state.available {
                        old.state.unavailable_reason@
                    } else {
                        "Please wait before trying again."@
                    },
                )
                &&& pushed_one(mid, new.events@)
                &&& event_ok(new.events@.last(), AuthenticationEventKind::State, old, now, seq![])
            }
    } else {
        let mid = AuthenticationSession { state: started_state(old.state), ..old };
        &&& same_but_events(mid, new)
        &&& state_published(mid, new, now)
    }
}

/// A response is accepted only for the active attempt's current prompt that
/// waits for an answer, once.
pub open spec fn response_valid(st: AuthenticationState, attempt_id: u64, sequence: u32) -> bool {
    &&& st.busy
    &&& !st.cancel_requested
    &&& attempt_id != 0
    &&& attempt_id == st.active_attempt_id
    &&& sequence != 0
    &&& st.prompt matches Some(p) && p.requires_response && p.sequence == sequence
    &&& st.response is None
}

pub open spec fn cancelled_state(st: AuthenticationState) -> AuthenticationState {
    AuthenticationState {
        generation: st.generation.wrapping_add(1),
        cancel_requested: true,
        response: None,
        prompt: None,
        ..st
    }
}

/// `cancel`: cancels the active attempt (or any, for id 0) and sends the
/// state; otherwise nothing.
pub open spec fn cancel_post(
    old: AuthenticationSession,
    new: AuthenticationSession,
    attempt_id: u64,
    now: u64,
) -> bool {
    if !old.state.busy || (attempt_id != 0 && attempt_id != old.state.active_attempt_id) {
        new == old
    } else {
        let mid = AuthenticationSession { state: cancelled_state(old.state), ..old };
        &&& same_but_events(mid, new)
        &&& state_published(mid, new, now)
    }
}

/// What `finish_attempt` does: the attempt settles, a current success
/// unlocks and clears the failures, a failure counts and starts the
/// cooldown; a result event and a state event follow.
pub open spec fn finish_attempt_post(
    old: AuthenticationSession,
    new: AuthenticationSession,
    work: WorkItem,
    result: BackendResult,
    now: u64,
) -> bool {
    let st = old.state;
    let current = !st.stopping && work.attempt_id == st.active_attempt_id
        && work.generation == st.generation && !st.cancel_requested;
    let success = current && result == BackendResult::Success;
    let was_cancelled = !current || result == BackendResult::Cancelled;
    let failures = if st.failure_count == u32::MAX {
        u32::MAX
    } else {
        (st.failure_count + 1) as u32
    };
    let settled = AuthenticationState {
        busy: false,
        cancel_requested: false,
        prompt: None,
        response: None,
        ..st
    };
    let new_state = if success {
        AuthenticationState {
            lock_epoch: st.lock_epoch.wrapping_add(1),
            failure_count: 0,
            cooldown_until: None,
            ..settled
        }
    } else if was_cancelled {
        settled
    } else {
        AuthenticationState {
            failure_count: failures,
            cooldown_until: Some(
                (now + spec_cooldown_ms(failures) * NANOS_PER_MILLI) as u64,
            ),
            ..settled
        }
    };
    let mid = AuthenticationSession {
        state: new_state,
        locked: if success {
            false
        } else {
            old.locked
        },
        ..old
    };
    let message = if success {
        "Authentication successful"@
    } else if was_cancelled {
        "Authentication cancelled"@
    } else if result == BackendResult::Failure {
        "Authentication failed. Try again."@
    } else {
        "System authentication could not complete."@
    };
    &&& same_but_events(mid, new)
    &&& exists|q: Seq<AuthenticationEvent>|
        {
            &&& #[trigger] pushed_one(old.events@, q)
            &&& event_ok(
                q.last(),
                AuthenticationEventKind::Result { success, cancelled: was_cancelled },
                mid,
                now,
                message,
            )
            &&& pushed_one(q, new.events@)
            &&& event_ok(
                new.events@.last(),
                AuthenticationEventKind::State,
                mid,
                now,
                seq![],
            )
        }
}

impl AuthenticationSession {
    /// The invariant of a session.
    pub open spec fn wf(self) -> bool {
        &&& self.events@.len() <= MAX_PENDING_EVENTS
        &&& self.state.next_attempt_id >= 1
        &&& self.state.next_prompt_sequence >= 1
    }

    /// A session whose backend is `available` (or not, for `reason`).
    pub fn new(start_locked: bool, available: bool, unavailable_reason: String) -> (s: Self)
        ensures
            s.wf(),
            s.locked == start_locked,
            s.security_gate_locked == start_locked,
            s.events@.len() == 0,
            !s.state.stopping && !s.state.busy && !s.state.cancel_requested,
            s.state.generation == 0 && s.state.lock_epoch == 0,
            s.state.fingerprint_unlock is None,
            s.state.next_attempt_id == 1 && s.state.active_attempt_id == 0,
            s.state.next_prompt_sequence == 1 && s.state.failure_count == 0,
            s.state.cooldown_until is None && s.state.pending_work is None,
            s.state.prompt is None && s.state.response is None,
            s.state.available == available,
            s.state.unavailable_reason == unavailable_reason,
    {
        AuthenticationSession {
            state: AuthenticationState {
                stopping: false,
                busy: false,
                cancel_requested: false,
                generation: 0,
                lock_epoch: 0,
                fingerprint_unlock: None,
                next_attempt_id: 1,
                active_attempt_id: 0,
                next_prompt_sequence: 1,
                failure_count: 0,
                cooldown_until: None,
                pending_work: None,
                prompt: None,
                response: None,
                available,
                unavailable_reason,
            },
            locked: start_locked,
            security_gate_locked: start_locked,
            events: Vec::new(),
        }
    }

    pub fn locked(&self) -> (r: bool)
        ensures
            r == self.locked,
    {
        self.locked
    }

    /// The lock epoch while locked.
    pub fn locked_epoch(&self) -> (r: Option<u64>)
        ensures
            r == (if self.locked {
                Some(self.state.lock_epoch)
            } else {
                None
            }),
    {
        if self.locked {
            Some(self.state.lock_epoch)
        } else {
            None
        }
    }

    /// Privileged commands stay closed while locked and until the unlock
    /// boundary has been acknowledged.
    pub fn security_gate_locked(&self) -> (r: bool)
        ensures
            r == (self.locked || self.security_gate_locked),
    {
        self.locked || self.security_gate_locked
    }

    /// Called once the compositor has reached the unlocked boundary: the
    /// security gate opens, except when locked again meanwhile.
    pub fn acknowledge_unlocked_boundary(&mut self)
        ensures
            final(self).security_gate_locked == old(self).locked,
            final(self).locked == old(self).locked,
            final(self).state == old(self).state,
            final(self).events == old(self).events,
    {
        self.security_gate_locked = false;
        if self.locked {
            self.security_gate_locked = true;
        }
    }

    /// The session as the lock screen sees it at `now`.
    pub fn snapshot(&self, now: u64) -> (snap: AuthenticationSnapshot)
        ensures
            snapshot_ok(snap, *self, now),
    {
        let status_message = if !self.state.available {
            self.state.unavailable_reason.clone()
        } else if self.state.cancel_requested && self.state.busy {
            String::from_str("Cancelling authentication…")
        } else {
            String::new()
        };
        AuthenticationSnapshot {
            locked: self.locked,
            available: self.state.available,
            busy: self.state.busy,
            attempt_id: self.state.active_attempt_id,
            cooldown_ms: cooldown_left(self.state.cooldown_until, now),
            status_message,
        }
    }

    /// Queues an event; a full queue drops its oldest event.
    pub fn push_event(&mut self, event: AuthenticationEvent)
        requires
            old(self).wf(),
        ensures
            final(self).wf(),
            final(self).events@ == room_for_one(old(self).events@).push(event),
            final(self).state == old(self).state,
            final(self).locked == old(self).locked,
            final(self).security_gate_locked == old(self).security_gate_locked,
    {
        if self.events.len() == MAX_PENDING_EVENTS {
            let _ = self.events.remove(0);
            assert(self.events@ =~= old(self).events@.drop_first());
        }
        self.events.push(event);
    }

    /// Hands out the oldest queued event.
    pub fn try_event(&mut self) -> (r: Option<AuthenticationEvent>)
        requires
            old(self).wf(),
        ensures
            final(self).wf(),
            old(self).events@.len() == 0 ==> r is None && final(self).events@
                == old(self).events@,
            old(self).events@.len() > 0 ==> r == Some(old(self).events@[0])
                && final(self).events@ == old(self).events@.drop_first(),
            final(self).state == old(self).state,
            final(self).locked == old(self).locked,
            final(self).security_gate_locked == old(self).security_gate_locked,
    {
        if self.events.len() == 0 {
            return None;
        }
        let e = self.events.remove(0);
        assert(self.events@ =~= old(self).events@.drop_first());
        Some(e)
    }

    pub fn has_pending_events(&self) -> (r: bool)
        ensures
            r == (self.events@.len() > 0),
    {
        self.events.len() > 0
    }

    /// Queues a state event for `now`.
    pub fn publish_state(&mut self, now: u64)
        requires
            old(self).wf(),
        ensures
            final(self).wf(),
            final(self).state == old(self).state,
            final(self).locked == old(self).locked,
            final(self).security_gate_locked == old(self).security_gate_locked,
            pushed_one(old(self).events@, final(self).events@),
            event_ok(
                final(self).events@.last(),
                AuthenticationEventKind::State,
                *old(self),
                now,
                seq![],
            ),
    {
        let snapshot = self.snapshot(now);
        let event = AuthenticationEvent {
            kind: AuthenticationEventKind::State,
            state: snapshot,
            message: String::new(),
        };
        self.push_event(event);
        assert(final(self).events@.drop_last() =~= room_for_one(old(self).events@));
    }

    /// Locks the session. The lock epoch advances so that no pending
    /// fingerprint result survives, the security gate closes, and a password
    /// attempt in progress is cancelled.
    pub fn lock(&mut self, now: u64)
        requires
            old(self).wf(),
        ensures
            final(self).wf(),
            lock_post(*old(self), *final(self), now),
    {
        self.state.lock_epoch = self.state.lock_epoch.wrapping_add(1);
        self.state.fingerprint_unlock = None;
        self.locked = true;
        self.security_gate_locked = true;
        if self.state.busy {
            self.state.generation = self.state.generation.wrapping_add(1);
            self.state.cancel_requested = true;
            self.state.response = None;
            self.state.prompt = None;
        }
        self.publish_state(now);
    }

    /// Re-sends the state, and the prompt being shown.
    pub fn synchronize(&mut self, now: u64)
        requires
            old(self).wf(),
        ensures
            final(self).wf(),
            synchronize_post(*old(self), *final(self), now),
    {
        let snapshot = self.snapshot(now);
        let prompt_event = match &self.state.prompt {
            Some(prompt) => Some(
                AuthenticationEvent {
                    kind: AuthenticationEventKind::Prompt {
                        style: prompt.style,
                        sequence: prompt.sequence,
                    },
                    state: self.snapshot(now),
                    message: prompt.message.clone(),
                },
            ),
            None => None,
        };
        self.push_event(
            AuthenticationEvent {
                kind: AuthenticationEventKind::State,
                state: snapshot,
                message: String::new(),
            },
        );
        let ghost after_first = self.events@;
        assert(after_first.drop_last() =~= room_for_one(old(self).events@));
        match prompt_event {
            Some(e) => {
                self.push_event(e);
                assert(self.events@.drop_last() =~= room_for_one(after_first));
                assert(pushed_one(old(self).events@, after_first));
            },
            None => {},
        }
    }

    /// Starts a password attempt when possible.
    pub fn begin(&mut self, now: u64)
        requires
            old(self).wf(),
        ensures
            final(self).wf(),
            begin_post(*old(self), *final(self), now),
    {
        if !self.locked || self.state.busy || self.state.fingerprint_unlock.is_some() {
            return;
        }
        let cooling = match self.state.cooldown_until {
            Some(until) => until > now,
            None => false,
        };
        if !self.state.available || cooling {
            let message = if !self.state.available {
                self.state.unavailable_reason.clone()
            } else {
                String::from_str("Please wait before trying again.")
            };
            let event = AuthenticationEvent {
                kind: AuthenticationEventKind::Result { success: false, cancelled: false },
                state: self.snapshot(now),
                message,
            };
            self.push_event(event);
            let ghost mid = self.events@;
            assert(mid.drop_last() =~= room_for_one(old(self).events@));
            self.publish_state(now);
            assert(pushed_one(old(self).events@, mid));
            return;
        }
        self.state.generation = self.state.generation.wrapping_add(1);
        self.state.active_attempt_id = self.state.next_attempt_id;
        let next = self.state.next_attempt_id.wrapping_add(1);
        self.state.next_attempt_id = if next == 0 {
            1
        } else {
            next
        };
        self.state.busy = true;
        self.state.cancel_requested = false;
        self.state.prompt = None;
        self.state.response = None;
        self.state.pending_work = Some(
            WorkItem { attempt_id: self.state.active_attempt_id, generation: self.state.generation },
        );
        self.publish_state(now);
    }

    /// Accepts the answer to the current prompt of the active attempt.
    pub fn respond(&mut self, attempt_id: u64, prompt_sequence: u32, response: SecureString) -> (r:
        bool)
        requires
            old(self).wf(),
        ensures
            final(self).wf(),
            r == response_valid(old(self).state, attempt_id, prompt_sequence),
            r ==> *final(self) == (AuthenticationSession {
                state: AuthenticationState { response: Some(response), ..old(self).state },
                ..*old(self)
            }),
            !r ==> *final(self) == *old(self),
    {
        let prompt_ok = match &self.state.prompt {
            Some(prompt) => prompt.requires_response && prompt.sequence == prompt_sequence,
            None => false,
        };
        let valid = self.state.busy && !self.state.cancel_requested && attempt_id != 0
            && attempt_id == self.state.active_attempt_id && prompt_sequence != 0 && prompt_ok
            && self.state.response.is_none();
        if !valid {
            return false;
        }
        self.state.response = Some(response);
        true
    }

    /// Cancels the active attempt.
    pub fn cancel(&mut self, attempt_id: u64, now: u64)
        requires
            old(self).wf(),
        ensures
            final(self).wf(),
            cancel_post(*old(self), *final(self), attempt_id, now),
    {
        if !self.state.busy || (attempt_id != 0 && attempt_id != self.state.active_attempt_id) {
            return;
        }
        self.state.generation = self.state.generation.wrapping_add(1);
        self.state.cancel_requested = true;
        self.state.response = None;
        self.state.prompt = None;
        self.publish_state(now);
    }

    /// Applies one packet from the lock screen.
    pub fn handle_packet(&mut self, packet: &[u8], now: u64) -> (r: Result<
        (),
        AuthenticationDecodeError,
    >)
        requires
            old(self).wf(),
        ensures
            final(self).wf(),
            match spec_decode_auth(packet@) {
                Err(e) => r == Err::<(), AuthenticationDecodeError>(e) && *final(self) == *old(self),
                Ok(CommandModel::Synchronize) => r is Ok && synchronize_post(
                    *old(self),
                    *final(self),
                    now,
                ),
                Ok(CommandModel::Lock) => r is Ok && lock_post(*old(self), *final(self), now),
                Ok(CommandModel::Begin) => r is Ok && begin_post(*old(self), *final(self), now),
                Ok(CommandModel::Respond { attempt_id, prompt_sequence, response }) => {
                    &&& r is Ok
                    &&& response_valid(old(self).state, attempt_id, prompt_sequence) ==> {
                        &&& final(self).state.response matches Some(s) && s@ == response
                        &&& *final(self) == (AuthenticationSession {
                            state: AuthenticationState {
                                response: final(self).state.response,
                                ..old(self).state
                            },
                            ..*old(self)
                        })
                    }
                    &&& !response_valid(old(self).state, attempt_id, prompt_sequence)
                        ==> *final(self) == *old(self)
                },
                Ok(CommandModel::Cancel { attempt_id }) => r is Ok && cancel_post(
                    *old(self),
                    *final(self),
                    attempt_id,
                    now,
                ),
            },
    {
        let command = match decode(packet) {
            Ok(c) => c,
            Err(e) => return Err(e),
        };
        match command {
            AuthenticationCommand::Synchronize => self.synchronize(now),
            AuthenticationCommand::Lock => self.lock(now),
            AuthenticationCommand::Begin => self.begin(now),
            AuthenticationCommand::Respond { attempt_id, prompt_sequence, response } => {
                let _ = self.respond(attempt_id, prompt_sequence, response);
            },
            AuthenticationCommand::Cancel { attempt_id } => self.cancel(attempt_id, now),
        }
        Ok(())
    }

    /// The attempt a waiting worker should run, taken from the session;
    /// nothing once stopping.
    pub fn take_pending_work(&mut self) -> (r: Option<WorkItem>)
        ensures
            old(self).state.stopping ==> r is None && *final(self) == *old(self),
            !old(self).state.stopping ==> r == old(self).state.pending_work && *final(self) == (
            AuthenticationSession {
                state: AuthenticationState { pending_work: None, ..old(self).state },
                ..*old(self)
            }),
    {
        if self.state.stopping {
            return None;
        }
        let work = self.state.pending_work;
        self.state.pending_work = None;
        work
    }

    /// Whether the attempt of `generation` must stop.
    pub fn authentication_cancelled(&self, generation: u64) -> (r: bool)
        ensures
            r == (self.state.stopping || generation != self.state.generation
                || self.state.cancel_requested),
    {
        self.state.stopping || generation != self.state.generation || self.state.cancel_requested
    }

    /// Shows a prompt of attempt `work`: a new sequence number, the
    /// sanitised message, and a prompt event. Returns the sequence, or
    /// `None` when the attempt is stale.
    pub fn begin_prompt(&mut self, work: WorkItem, style: PromptStyle, message: &str, now: u64) -> (r:
        Option<u32>)
        requires
            old(self).wf(),
        ensures
            final(self).wf(),
            ({
                let st = old(self).state;
                let stale = st.stopping || work.generation != st.generation || st.cancel_requested
                    || work.attempt_id != st.active_attempt_id;
                &&& stale ==> r is None && *final(self) == *old(self)
                &&& !stale ==> {
                    &&& r == Some(st.next_prompt_sequence)
                    &&& final(self).state.next_prompt_sequence == (if st.next_prompt_sequence
                        == u32::MAX {
                        1
                    } else {
                        (st.next_prompt_sequence + 1) as u32
                    })
                    &&& final(self).state.prompt matches Some(p) && p.style == style && p.sequence
                        == st.next_prompt_sequence && p.message@ == spec_sanitize_message(message@)
                        && p.requires_response == (style == PromptStyle::EchoOff || style
                        == PromptStyle::EchoOn)
                    &&& final(self).state.response is None
                    &&& final(self).state == (AuthenticationState {
                        next_prompt_sequence: final(self).state.next_prompt_sequence,
                        prompt: final(self).state.prompt,
                        response: None,
                        ..st
                    })
                    &&& final(self).locked == old(self).locked
                    &&& final(self).security_gate_locked == old(self).security_gate_locked
                    &&& pushed_one(old(self).events@, final(self).events@)
                    &&& event_ok(
                        final(self).events@.last(),
                        AuthenticationEventKind::Prompt { style, sequence: st.next_prompt_sequence },
                        *old(self),
                        now,
                        spec_sanitize_message(message@),
                    )
                }
            }),
    {
        if self.state.stopping || work.generation != self.state.generation
            || self.state.cancel_requested || work.attempt_id != self.state.active_attempt_id {
            return None;
        }
        let sequence = self.state.next_prompt_sequence;
        self.state.next_prompt_sequence = if sequence == u32::MAX {
            1
        } else {
            sequence + 1
        };
        let text = sanitize_message(message);
        let event_text = text.clone();
        let snapshot = self.snapshot(now);
        self.state.prompt = Some(
            PromptState {
                style,
                sequence,
                message: text,
                requires_response: style.requires_response(),
            },
        );
        self.state.response = None;
        let event = AuthenticationEvent {
            kind: AuthenticationEventKind::Prompt { style, sequence },
            state: snapshot,
            message: event_text,
        };
        self.push_event(event);
        assert(self.events@.drop_last() =~= room_for_one(old(self).events@));
        Some(sequence)
    }

    /// The answer to prompt `sequence` of attempt `work` after waiting for
    /// it: a timeout without an answer cancels the attempt; a stale attempt
    /// gets nothing; otherwise the answer is taken and its prompt closed.
    pub fn finish_prompt(&mut self, work: WorkItem, sequence: u32, timed_out: bool) -> (r: Option<
        SecureString,
    >)
        requires
            old(self).wf(),
        ensures
            final(self).wf(),
            final(self).locked == old(self).locked,
            final(self).security_gate_locked == old(self).security_gate_locked,
            final(self).events == old(self).events,
            ({
                let st = old(self).state;
                if timed_out && st.response is None {
                    r is None && final(self).state == (AuthenticationState {
                        generation: st.generation.wrapping_add(1),
                        cancel_requested: true,
                        prompt: None,
                        ..st
                    })
                } else if st.stopping || work.generation != st.generation || st.cancel_requested
                    || st.response is None {
                    r is None && final(self).state == st
                } else {
                    &&& r == st.response
                    &&& final(self).state == (AuthenticationState {
                        response: None,
                        prompt: if st.prompt matches Some(p) && p.sequence == sequence {
                            None
                        } else {
                            st.prompt
                        },
                        ..st
                    })
                }
            }),
    {
        if timed_out && self.state.response.is_none() {
            self.state.generation = self.state.generation.wrapping_add(1);
            self.state.cancel_requested = true;
            self.state.prompt = None;
            return None;
        }
        if self.state.stopping || work.generation != self.state.generation
            || self.state.cancel_requested || self.state.response.is_none() {
            return None;
        }
        let response = self.state.response.take();
        let closes = match &self.state.prompt {
            Some(prompt) => prompt.sequence == sequence,
            None => false,
        };
        if closes {
            self.state.prompt = None;
        }
        response
    }

    /// Records the outcome of attempt `work`: only a current, successful
    /// attempt unlocks; a failure starts the cooldown; the result and the
    /// new state are sent.
    pub fn finish_attempt(&mut self, work: WorkItem, result: BackendResult, now: u64)
        requires
            old(self).wf(),
            now <= u64::MAX - MAX_COOLDOWN_MS * NANOS_PER_MILLI,
        ensures
            final(self).wf(),
            finish_attempt_post(*old(self), *final(self), work, result, now),
    {
        let current = !self.state.stopping && work.attempt_id == self.state.active_attempt_id
            && work.generation == self.state.generation && !self.state.cancel_requested;
        let success = current && result == BackendResult::Success;
        let was_cancelled = !current || result == BackendResult::Cancelled;
        self.state.busy = false;
        self.state.cancel_requested = false;
        self.state.prompt = None;
        self.state.response = None;
        let message = if success {
            self.locked = false;
            self.state.lock_epoch = self.state.lock_epoch.wrapping_add(1);
            self.state.failure_count = 0;
            self.state.cooldown_until = None;
            String::from_str("Authentication successful")
        } else if was_cancelled {
            String::from_str("Authentication cancelled")
        } else {
            let failures = if self.state.failure_count == u32::MAX {
                u32::MAX
            } else {
                self.state.failure_count + 1
            };
            self.state.failure_count = failures;
            let wait = cooldown_for(failures);
            self.state.cooldown_until = Some(now + wait * NANOS_PER_MILLI);
            if result == BackendResult::Failure {
                String::from_str("Authentication failed. Try again.")
            } else {
                String::from_str("System authentication could not complete.")
            }
        };
        let event = AuthenticationEvent {
            kind: AuthenticationEventKind::Result { success, cancelled: was_cancelled },
            state: self.snapshot(now),
            message,
        };
        let ghost before = self.events@;
        self.push_event(event);
        let ghost q = self.events@;
        assert(q.drop_last() =~= room_for_one(before));
        self.publish_state(now);
        assert(pushed_one(before, q));
    }

    /// Shuts the session down: every attempt is cancelled.
    pub fn stop(&mut self)
        requires
            old(self).wf(),
        ensures
            final(self).wf(),
            final(self).state == (AuthenticationState {
                stopping: true,
                generation: old(self).state.generation.wrapping_add(1),
                cancel_requested: true,
                response: None,
                prompt: None,
                ..old(self).state
            }),
            final(self).locked == old(self).locked,
            final(self).security_gate_locked == old(self).security_gate_locked,
            final(self).events == old(self).events,
    {
        self.state.stopping = true;
        self.state.generation = self.state.generation.wrapping_add(1);
        self.state.cancel_requested = true;
        self.state.response = None;
        self.state.prompt = None;
    }
}

} // verus!
