//! Properties of the lock session that span several operations.

use vstd::prelude::*;
use crate::authentication::{BackendResult, spec_cooldown_ms};
use crate::authentication::fingerprint::{
    advance_post, complete_match_post, spec_classify_status, spec_unavailable_retry_ms,
    spec_fingerprint_retry_ms,
    Verification, MAX_UNAVAILABLE_RETRY_MS,
};
use crate::authentication::session::{
    finish_attempt_post, lock_post, AuthenticationSession, WorkItem,
};

verus! {

/// A fingerprint match is accepted once: the same epoch cannot unlock a
/// second time.
pub proof fn law_match_is_consumed_once(
    s: AuthenticationSession,
    s1: AuthenticationSession,
    s2: AuthenticationSession,
    epoch: u64,
    r2: bool,
)
    requires
        complete_match_post(s, s1, epoch, true),
        complete_match_post(s1, s2, epoch, r2),
    ensures
        !r2,
        s2 == s1,
{
}

/// Locking again rejects a match that was scanned in the previous epoch.
pub proof fn law_relock_rejects_late_match(
    s: AuthenticationSession,
    s1: AuthenticationSession,
    s2: AuthenticationSession,
    now: u64,
    r: bool,
)
    requires
        lock_post(s, s1, now),
        complete_match_post(s1, s2, s.state.lock_epoch, r),
    ensures
        !r,
        s2 == s1,
{
}

/// Locking again withdraws a validated match that waits for the displays:
/// it no longer unlocks.
pub proof fn law_relock_cancels_pending_unlock(
    s: AuthenticationSession,
    s1: AuthenticationSession,
    s2: AuthenticationSession,
    now: u64,
    later: u64,
    outputs_ready: bool,
    r: bool,
)
    requires
        lock_post(s, s1, now),
        advance_post(s1, s2, later, outputs_ready, r),
    ensures
        s2.locked,
        !r,
{
}

/// A fingerprint match cancels a password attempt in flight: that
/// attempt's late success does not unlock.
pub proof fn law_match_invalidates_late_password_success(
    s: AuthenticationSession,
    s1: AuthenticationSession,
    s2: AuthenticationSession,
    epoch: u64,
    work: WorkItem,
    now: u64,
)
    requires
        complete_match_post(s, s1, epoch, true),
        work.generation == s.state.generation,
        finish_attempt_post(s1, s2, work, BackendResult::Success, now),
    ensures
        s2.locked,
        s2.state.fingerprint_unlock == s1.state.fingerprint_unlock,
{
}

/// Unlocking by fingerprint never opens the compositor's own security
/// gate.
pub proof fn law_unlock_keeps_security_gate(
    s: AuthenticationSession,
    s1: AuthenticationSession,
    now: u64,
    outputs_ready: bool,
    r: bool,
)
    requires
        advance_post(s, s1, now, outputs_ready, r),
    ensures
        s1.security_gate_locked == s.security_gate_locked,
{
}

/// Only a finished `verify-match` status is a match.
pub proof fn law_only_completed_match_authenticates(status: Seq<char>, done: bool)
    ensures
        spec_classify_status(status, done) == Some(Verification::Match) <==> (status
            == "verify-match"@ && done),
{
}

/// The retry delay for an unavailable reader stays between one second and
/// the cap, however many attempts failed.
pub proof fn law_unavailable_backoff_is_bounded(attempts: u32)
    ensures
        1000 <= spec_unavailable_retry_ms(attempts) <= MAX_UNAVAILABLE_RETRY_MS,
{
    vstd::arithmetic::power2::lemma2_to64();
    let exponent: int = if attempts <= 1 {
        0
    } else if attempts - 1 >= 5 {
        5
    } else {
        attempts - 1
    };
    assert(vstd::arithmetic::power2::pow2(exponent as nat) >= 1);
}

/// The retry requests that fprintd sends while a scan goes on.
pub open spec fn fprintd_retry_statuses() -> Seq<Seq<char>> {
    seq![
        "verify-retry-scan"@,
        "verify-swipe-too-short"@,
        "verify-finger-not-centered"@,
        "verify-remove-and-retry"@,
        "verify-too-fast"@,
    ]
}

/// How a `VerifyStatus` signal is read. A retry request that comes before
/// the scan is done means waiting for the next signal (no result); a
/// finished `verify-match` is a match and a finished `verify-no-match` a
/// rejected finger. Every other signal (an unknown status, a retry request
/// marked done, or a match or no-match not marked done) fails closed as an
/// unavailable reader; no signal is read as a cancellation.
pub proof fn law_verify_status_classification(status: Seq<char>, done: bool)
    ensures
        !done && fprintd_retry_statuses().contains(status) ==> spec_classify_status(status, done)
            is None,
        spec_classify_status(status, done) is None ==> !done && fprintd_retry_statuses().contains(
            status,
        ),
        spec_classify_status(status, done) == Some(Verification::NoMatch) <==> (status
            == "verify-no-match"@ && done),
        spec_classify_status(status, done) == Some(Verification::Match) <==> (status
            == "verify-match"@ && done),
        spec_classify_status(status, done) != Some(Verification::Cancelled),
        !(status == "verify-match"@ && done) && !(status == "verify-no-match"@ && done) && !(!done
            && fprintd_retry_statuses().contains(status)) ==> spec_classify_status(status, done)
            == Some(Verification::Unavailable),
{
    let r = fprintd_retry_statuses();
    reveal_strlit("verify-match");
    reveal_strlit("verify-no-match");
    reveal_strlit("verify-retry-scan");
    reveal_strlit("verify-swipe-too-short");
    reveal_strlit("verify-finger-not-centered");
    reveal_strlit("verify-remove-and-retry");
    reveal_strlit("verify-too-fast");
    if r.contains(status) {
        let i = choose|i: int| 0 <= i < r.len() && r[i] == status;
        assert(i == 0 || i == 1 || i == 2 || i == 3 || i == 4);
    }
    if status == "verify-retry-scan"@ {
        assert(r[0] == status);
    }
    if status == "verify-swipe-too-short"@ {
        assert(r[1] == status);
    }
    if status == "verify-finger-not-centered"@ {
        assert(r[2] == status);
    }
    if status == "verify-remove-and-retry"@ {
        assert(r[3] == status);
    }
    if status == "verify-too-fast"@ {
        assert(r[4] == status);
    }
    if status == "verify-match"@ {
        assert(status.len() != "verify-no-match"@.len());
    }
}

/// The delays between fingerprint attempts. A rejected scan is retried
/// after 150 ms for the first four rejections; from the fifth on the delay
/// is the password cooldown counted from one (750 ms, then doubling up to
/// 30 s). An unavailable reader is retried after 1 s, doubling with each
/// further attempt up to 30 s. Neither delay ever shrinks as failures add
/// up.
pub proof fn law_retry_delays(n: u32)
    ensures
        n <= 4 ==> spec_fingerprint_retry_ms(n) == 150,
        n >= 5 ==> spec_fingerprint_retry_ms(n) == spec_cooldown_ms((n - 4) as u32),
        n <= 1 ==> spec_cooldown_ms(n) == 750,
        2 <= n ==> spec_cooldown_ms(n) == if 2 * spec_cooldown_ms((n - 1) as u32) > 30_000 {
            30_000
        } else {
            2 * spec_cooldown_ms((n - 1) as u32)
        },
        n <= 1 ==> spec_unavailable_retry_ms(n) == 1000,
        2 <= n ==> spec_unavailable_retry_ms(n) == if 2 * spec_unavailable_retry_ms(
            (n - 1) as u32,
        ) > 30_000 {
            30_000
        } else {
            2 * spec_unavailable_retry_ms((n - 1) as u32)
        },
        n < u32::MAX ==> spec_fingerprint_retry_ms(n) <= spec_fingerprint_retry_ms(
            (n + 1) as u32,
        ),
        n < u32::MAX ==> spec_unavailable_retry_ms(n) <= spec_unavailable_retry_ms(
            (n + 1) as u32,
        ),
        n < u32::MAX ==> spec_cooldown_ms(n) <= spec_cooldown_ms((n + 1) as u32),
{
    vstd::arithmetic::power2::lemma2_to64();
}

} // verus!
