//! Cadence of the background work that the compositor's event loop runs
//! between dispatches.

use vstd::prelude::*;

verus! {

/// Period of background service work: thirty times a second.
pub const BACKGROUND_SERVICE_INTERVAL_NANOS: u64 = 33333333;

/// Period of background maintenance.
pub const BACKGROUND_MAINTENANCE_INTERVAL_NANOS: u64 = 100000000;

/// The deadline after `now` by `interval`, or `now` itself where that sum
/// does not fit.
pub open spec fn next_deadline(now: u64, interval: u64) -> u64 {
    if now + interval <= u64::MAX {
        (now + interval) as u64
    } else {
        now
    }
}

/// Whether periodic work is due at `now`; when it is, the deadline moves one
/// interval past `now`, so missed periods are not replayed.
pub fn take_periodic_deadline(now: u64, deadline: &mut u64, interval: u64) -> (r: bool)
    ensures
        r == (now >= *old(deadline)),
        r ==> *final(deadline) == next_deadline(now, interval),
        !r ==> *final(deadline) == *old(deadline),
{
    if now < *deadline {
        return false;
    }
    *deadline = match now.checked_add(interval) {
        Some(d) => d,
        None => now,
    };
    true
}

/// The next service and maintenance deadlines.
pub struct OperationCadence {
    pub next_service: u64,
    pub next_maintenance: u64,
}

/// `deadline - now`, or zero once the deadline has passed.
pub open spec fn remaining(deadline: u64, now: u64) -> u64 {
    if deadline > now {
        (deadline - now) as u64
    } else {
        0
    }
}

impl OperationCadence {
    /// Both kinds of work are due at once.
    pub fn new(now: u64) -> (r: Self)
        ensures
            r.next_service == now,
            r.next_maintenance == now,
    {
        OperationCadence { next_service: now, next_maintenance: now }
    }

    pub fn take_service_due(&mut self, now: u64) -> (r: bool)
        ensures
            r == (now >= old(self).next_service),
            r ==> final(self).next_service == next_deadline(now, BACKGROUND_SERVICE_INTERVAL_NANOS),
            !r ==> final(self).next_service == old(self).next_service,
            final(self).next_maintenance == old(self).next_maintenance,
    {
        take_periodic_deadline(now, &mut self.next_service, BACKGROUND_SERVICE_INTERVAL_NANOS)
    }

    pub fn take_maintenance_due(&mut self, now: u64) -> (r: bool)
        ensures
            r == (now >= old(self).next_maintenance),
            r ==> final(self).next_maintenance == next_deadline(
                now,
                BACKGROUND_MAINTENANCE_INTERVAL_NANOS,
            ),
            !r ==> final(self).next_maintenance == old(self).next_maintenance,
            final(self).next_service == old(self).next_service,
    {
        take_periodic_deadline(
            now,
            &mut self.next_maintenance,
            BACKGROUND_MAINTENANCE_INTERVAL_NANOS,
        )
    }

    /// The dispatch timeout shortened so that neither deadline is missed.
    pub fn limit_dispatch_timeout(&self, now: u64, timeout: u64) -> (r: u64)
        ensures
            r <= timeout,
            r <= remaining(self.next_service, now),
            r <= remaining(self.next_maintenance, now),
            r == timeout || r == remaining(self.next_service, now) || r == remaining(
                self.next_maintenance,
                now,
            ),
    {
        let service = self.next_service.saturating_sub(now);
        let maintenance = self.next_maintenance.saturating_sub(now);
        let mut r = timeout;
        if service < r {
            r = service;
        }
        if maintenance < r {
            r = maintenance;
        }
        r
    }
}

/// Interactive work waits: shell actions, shortcut launches or window
/// events are queued.
pub fn interactive_service_work_pending(
    pending_shell_actions: usize,
    pending_shortcut_launches: usize,
    pending_window_events: usize,
) -> (r: bool)
    ensures
        r == (pending_shell_actions > 0 || pending_shortcut_launches > 0 || pending_window_events
            > 0),
{
    pending_shell_actions != 0 || pending_shortcut_launches != 0 || pending_window_events != 0
}

/// Periodic work runs at most once per interval: once taken at `now`, the
/// work is not due again before `now + interval`.
pub proof fn law_periodic_work_waits_one_interval(now: u64, interval: u64, later: u64)
    requires
        now + interval <= u64::MAX,
        later < now + interval,
    ensures
        !(later >= next_deadline(now, interval)),
{
}

} // verus!
