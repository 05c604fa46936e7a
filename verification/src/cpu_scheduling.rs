//! CPU scheduling policy of Denial's threads: which threads are
//! latency-critical, which are background work, what realtime budget is
//! safe, and the configuration values that tune it.

use vstd::prelude::*;
use vstd::utf8::encode_utf8;
use crate::text::{
    spec_trim, spec_trim_start, spec_trim_end, spec_is_whitespace, spec_lower_chars, str_chars,
    trim_chars, lower_chars, chars_equal_str,
};

verus! {

/// Reads `libc::SCHED_OTHER`; the contract states its value as `libc` defines it
/// for Linux: The `SCHED_OTHER` policy of the Linux ABI (0).
#[verifier::external_body]
fn sched_other() -> (r: i32)
    ensures
        r == 0,
{
    libc::SCHED_OTHER
}

/// Reads `libc::SCHED_FIFO`; the contract states its value as `libc` defines it
/// for Linux: The `SCHED_FIFO` realtime policy (1).
#[verifier::external_body]
fn sched_fifo() -> (r: i32)
    ensures
        r == 1,
{
    libc::SCHED_FIFO
}

/// Reads `libc::SCHED_RR`; the contract states its value as `libc` defines it
/// for Linux: The `SCHED_RR` realtime policy (2).
#[verifier::external_body]
fn sched_rr() -> (r: i32)
    ensures
        r == 2,
{
    libc::SCHED_RR
}

/// Reads `libc::SCHED_BATCH`; the contract states its value as `libc` defines it
/// for Linux: The `SCHED_BATCH` policy (3).
#[verifier::external_body]
fn sched_batch() -> (r: i32)
    ensures
        r == 3,
{
    libc::SCHED_BATCH
}

/// Reads `libc::SCHED_IDLE`; the contract states its value as `libc` defines it
/// for Linux: The `SCHED_IDLE` policy (5).
#[verifier::external_body]
fn sched_idle() -> (r: i32)
    ensures
        r == 5,
{
    libc::SCHED_IDLE
}

/// Reads `libc::SCHED_RESET_ON_FORK`; the contract states its value as `libc` defines it
/// for Linux: The `SCHED_RESET_ON_FORK` flag (0x40000000).
#[verifier::external_body]
fn sched_reset_on_fork() -> (r: i32)
    ensures
        r == 0x40000000,
{
    libc::SCHED_RESET_ON_FORK
}

/// Reads `libc::RLIM_INFINITY`; the contract states its value as `libc` defines it
/// for Linux: `RLIM_INFINITY`, all bits set for the 64-bit `rlim_t`.
#[verifier::external_body]
fn rlim_infinity() -> (r: u64)
    ensures
        r == u64::MAX,
{
    libc::RLIM_INFINITY
}

/// The nice level Denial prefers for its latency-critical threads.
pub const PREFERRED_NICE_LEVEL: i32 = -10;

/// Default soft realtime budget per scheduling period, in microseconds.
pub const DEFAULT_RT_TIME_SOFT_US: u64 = 200_000;

/// Highest accepted utilisation clamp.
pub const MAX_CPU_CAPACITY: u32 = 1024;

#[derive(Clone, Copy, Debug, PartialEq, Eq, Structural)]
pub enum PriorityRole {
    Unknown,
    Compositor,
    FlutterDisplay,
    FlutterRaster,
    Volition,
}

pub open spec fn role_code(role: PriorityRole) -> u8 {
    match role {
        PriorityRole::Unknown => 0,
        PriorityRole::Compositor => 1,
        PriorityRole::FlutterDisplay => 2,
        PriorityRole::FlutterRaster => 3,
        PriorityRole::Volition => 4,
    }
}

impl PriorityRole {
    pub fn label(self) -> (r: &'static str)
        ensures
            r@ == (match self {
                PriorityRole::Unknown => "unknown"@,
                PriorityRole::Compositor => "compositor"@,
                PriorityRole::FlutterDisplay => "flutter-display"@,
                PriorityRole::FlutterRaster => "flutter-raster"@,
                PriorityRole::Volition => "volition"@,
            }),
    {
        match self {
            PriorityRole::Unknown => "unknown",
            PriorityRole::Compositor => "compositor",
            PriorityRole::FlutterDisplay => "flutter-display",
            PriorityRole::FlutterRaster => "flutter-raster",
            PriorityRole::Volition => "volition",
        }
    }

    /// The code a registration slot stores for the role.
    pub fn code(self) -> (r: u8)
        ensures
            r == role_code(self),
    {
        match self {
            PriorityRole::Unknown => 0,
            PriorityRole::Compositor => 1,
            PriorityRole::FlutterDisplay => 2,
            PriorityRole::FlutterRaster => 3,
            PriorityRole::Volition => 4,
        }
    }

    /// The role stored as `code`; unknown codes read as `Unknown`.
    pub fn from_code(code: u8) -> (r: Self)
        ensures
            1 <= code <= 4 ==> role_code(r) == code,
            !(1 <= code <= 4) ==> r == PriorityRole::Unknown,
    {
        match code {
            1 => PriorityRole::Compositor,
            2 => PriorityRole::FlutterDisplay,
            3 => PriorityRole::FlutterRaster,
            4 => PriorityRole::Volition,
            _ => PriorityRole::Unknown,
        }
    }

    /// Roles whose threads take the configured CPU capacity request.
    pub fn requests_capacity(self) -> (r: bool)
        ensures
            r == (self == PriorityRole::Compositor || self == PriorityRole::FlutterDisplay || self
                == PriorityRole::FlutterRaster),
    {
        match self {
            PriorityRole::Compositor | PriorityRole::FlutterDisplay
            | PriorityRole::FlutterRaster => true,
            _ => false,
        }
    }
}

#[derive(Clone, Copy, Debug, PartialEq, Eq, Structural)]
pub enum PromotionSource {
    DirectRealtime,
    DirectHighPriority,
    RtKitHighPriority,
}

impl PromotionSource {
    pub fn label(self) -> (r: &'static str)
        ensures
            r@ == (if self == PromotionSource::RtKitHighPriority {
                "rtkit"@
            } else {
                "direct"@
            }),
    {
        match self {
            PromotionSource::DirectRealtime | PromotionSource::DirectHighPriority => "direct",
            PromotionSource::RtKitHighPriority => "rtkit",
        }
    }

    pub fn policy(self) -> (r: &'static str)
        ensures
            r@ == (if self == PromotionSource::DirectRealtime {
                "SCHED_RR"@
            } else {
                "SCHED_OTHER"@
            }),
    {
        match self {
            PromotionSource::DirectRealtime => "SCHED_RR",
            PromotionSource::DirectHighPriority | PromotionSource::RtKitHighPriority => "SCHED_OTHER",
        }
    }
}

/// The scheduling policy without its reset-on-fork flag.
pub open spec fn base_policy(policy: i32) -> i32 {
    (policy & !0x40000000i32) as i32
}

/// Round-robin and FIFO are the realtime policies, with or without
/// reset-on-fork.
pub fn is_realtime_policy(policy: i32) -> (r: bool)
    ensures
        r == (base_policy(policy) == 1 || base_policy(policy) == 2),
{
    let base = policy & !sched_reset_on_fork();
    base == sched_rr() || base == sched_fifo()
}

/// The ordinary policy, keeping a reset-on-fork flag that the thread had.
pub fn normal_policy_preserving_reset(policy: i32) -> (r: i32)
    ensures
        r == (policy & 0x40000000i32),
{
    let kept = policy & sched_reset_on_fork();
    let r = sched_other() | kept;
    assert(0i32 | kept == kept) by (bit_vector);
    r
}

/// The realtime budget that can be armed without risking the kernel's
/// fatal hard limit: only with an unlimited hard limit and a non-zero soft
/// limit, at most 200 ms.
pub open spec fn spec_safe_realtime_limit(soft: u64, hard: u64) -> Option<u64> {
    if hard != u64::MAX || soft == 0 {
        None
    } else if soft < DEFAULT_RT_TIME_SOFT_US {
        Some(soft)
    } else {
        Some(DEFAULT_RT_TIME_SOFT_US)
    }
}

/// A realtime time limit: soft budget in microseconds, unlimited hard limit.
#[derive(Clone, Copy, Debug, PartialEq, Eq, Structural)]
pub struct RealtimeLimit {
    pub soft: u64,
    pub hard: u64,
}

pub fn safe_realtime_limit(current_soft: u64, current_hard: u64) -> (r: Option<RealtimeLimit>)
    ensures
        match spec_safe_realtime_limit(current_soft, current_hard) {
            Some(soft) => r == Some(RealtimeLimit { soft, hard: u64::MAX }),
            None => r is None,
        },
{
    if current_hard != rlim_infinity() || current_soft == 0 {
        return None;
    }
    let soft = if current_soft < DEFAULT_RT_TIME_SOFT_US {
        current_soft
    } else {
        DEFAULT_RT_TIME_SOFT_US
    };
    if soft > 0 {
        Some(RealtimeLimit { soft, hard: rlim_infinity() })
    } else {
        None
    }
}

/// The nice level used for high-priority threads, from the RealtimeKit
/// minimum: the preferred level unless the host is stricter, and none when
/// the minimum offers no elevation.
pub fn high_priority_nice(rtkit_minimum: i32) -> (r: i32)
    ensures
        rtkit_minimum < 0 ==> r == (if PREFERRED_NICE_LEVEL > rtkit_minimum {
            PREFERRED_NICE_LEVEL
        } else {
            rtkit_minimum
        }),
        rtkit_minimum >= 0 ==> r == 0,
{
    if rtkit_minimum < 0 {
        if PREFERRED_NICE_LEVEL > rtkit_minimum {
            PREFERRED_NICE_LEVEL
        } else {
            rtkit_minimum
        }
    } else {
        0
    }
}

/// Whether the thread `tid` holds a priority registration slot.
pub fn is_registered_priority_thread(slots: &[i32], tid: i32) -> (r: bool)
    ensures
        r == slots@.contains(tid),
{
    let mut i: usize = 0;
    while i < slots.len()
        invariant
            i <= slots@.len(),
            forall|k: int| 0 <= k < i ==> slots@[k] != tid,
        decreases slots@.len() - i,
    {
        if slots[i] == tid {
            assert(slots@[i as int] == tid);
            return true;
        }
        i += 1;
    }
    false
}

/// The role registered for `tid`: that of the first slot holding it.
pub fn registered_priority_role(slots: &[i32], roles: &[u8], tid: i32) -> (r: PriorityRole)
    requires
        slots@.len() == roles@.len(),
    ensures
        !slots@.contains(tid) ==> r == PriorityRole::Unknown,
        forall|i: int|
            0 <= i < slots@.len() && slots@[i] == tid && (forall|k: int|
                0 <= k < i ==> slots@[k] != tid) ==> (if 1 <= roles@[i] <= 4 {
                role_code(r) == roles@[i]
            } else {
                r == PriorityRole::Unknown
            }),
{
    let mut i: usize = 0;
    while i < slots.len()
        invariant
            slots@.len() == roles@.len(),
            i <= slots@.len(),
            forall|k: int| 0 <= k < i ==> slots@[k] != tid,
        decreases slots@.len() - i,
    {
        if slots[i] == tid {
            return PriorityRole::from_code(roles[i]);
        }
        i += 1;
    }
    PriorityRole::Unknown
}

/// Threads that Denial owns for service and housekeeping work, which run
/// on the background CPU class.
pub open spec fn spec_background_role(role: Seq<char>) -> bool {
    role == "priority-guard"@ || role == "portal-ipc"@ || role == "output-control"@ || role
        == "control-client"@ || role == "authentication"@ || role == "audio"@ || role
        == "brightness"@ || role == "session power"@ || role == "notifications"@ || role
        == "orientation"@ || role == "screenshot-writer"@ || role == "xembed tray"@ || role
        == "child-reaper"@ || role == "clipboard-dnd"@
}

pub fn background_role(role: &str) -> (r: bool)
    ensures
        r == spec_background_role(role@),
{
    let c = str_chars(role);
    let s = c.as_slice();
    chars_equal_str(s, "priority-guard") || chars_equal_str(s, "portal-ipc") || chars_equal_str(
        s,
        "output-control",
    ) || chars_equal_str(s, "control-client") || chars_equal_str(s, "authentication")
        || chars_equal_str(s, "audio") || chars_equal_str(s, "brightness") || chars_equal_str(
        s,
        "session power",
    ) || chars_equal_str(s, "notifications") || chars_equal_str(s, "orientation")
        || chars_equal_str(s, "screenshot-writer") || chars_equal_str(s, "xembed tray")
        || chars_equal_str(s, "child-reaper") || chars_equal_str(s, "clipboard-dnd")
}

/// Truncated kernel names of threads known to do background work.
pub open spec fn spec_background_thread_name(name: Seq<char>) -> bool {
    name == "denial-portal-i"@ || name == "denial-priority"@ || name == "denial-control"@ || name
        == "denial-control-"@ || name == "denial-authenti"@ || name == "denial-audio"@ || name
        == "denial-brightne"@ || name == "denial-session-"@ || name == "denial-notifica"@ || name
        == "denial-orientat"@ || name == "denial-screensh"@ || name == "denial-xembed-t"@ || name
        == "denial-child-re"@ || name == "denial-clipboar"@ || name == "Shm dropping th"@ || name
        == "Dart Profiler T"@
}

fn background_thread_name(name: &[char]) -> (r: bool)
    ensures
        r == spec_background_thread_name(name@),
{
    chars_equal_str(name, "denial-portal-i") || chars_equal_str(name, "denial-priority")
        || chars_equal_str(name, "denial-control") || chars_equal_str(name, "denial-control-")
        || chars_equal_str(name, "denial-authenti") || chars_equal_str(name, "denial-audio")
        || chars_equal_str(name, "denial-brightne") || chars_equal_str(name, "denial-session-")
        || chars_equal_str(name, "denial-notifica") || chars_equal_str(name, "denial-orientat")
        || chars_equal_str(name, "denial-screensh") || chars_equal_str(name, "denial-xembed-t")
        || chars_equal_str(name, "denial-child-re") || chars_equal_str(name, "denial-clipboar")
        || chars_equal_str(name, "Shm dropping th") || chars_equal_str(name, "Dart Profiler T")
}

pub open spec fn is_digit_byte(b: u8) -> bool {
    0x30 <= b <= 0x39
}

/// A non-empty run of ASCII digits.
pub open spec fn spec_decimal_suffix(b: Seq<u8>) -> bool {
    b.len() > 0 && forall|i: int| 0 <= i < b.len() ==> is_digit_byte(#[trigger] b[i])
}

pub fn decimal_suffix(s: &str) -> (r: bool)
    ensures
        r == spec_decimal_suffix(encode_utf8(s@)),
{
    let b = s.as_bytes();
    assert(b@.skip(0) =~= b@);
    digits_only(b, 0)
}

fn digits_only(b: &[u8], start: usize) -> (r: bool)
    requires
        start <= b@.len(),
    ensures
        r == spec_decimal_suffix(b@.skip(start as int)),
{
    if start == b.len() {
        return false;
    }
    let mut i = start;
    while i < b.len()
        invariant
            start <= i <= b@.len(),
            forall|k: int| start <= k < i ==> is_digit_byte(#[trigger] b@[k]),
        decreases b@.len() - i,
    {
        if !(0x30 <= b[i] && b[i] <= 0x39) {
            assert(b@.skip(start as int)[i - start] == b@[i as int]);
            return false;
        }
        i += 1;
    }
    assert forall|k: int| 0 <= k < b@.skip(start as int).len() implies is_digit_byte(
        #[trigger] b@.skip(start as int)[k],
    ) by {
        assert(b@.skip(start as int)[k] == b@[start + k]);
    }
    true
}

/// Background work by thread name: a known background thread, or a
/// numbered `deniald:zcq` worker.
pub open spec fn spec_background_name(name: Seq<char>) -> bool {
    let b = encode_utf8(name);
    let p = encode_utf8("deniald:zcq"@);
    spec_background_thread_name(name) || (p.len() <= b.len() && b.take(p.len() as int) == p
        && spec_decimal_suffix(b.skip(p.len() as int)))
}

pub fn background_name(name: &str) -> (r: bool)
    ensures
        r == spec_background_name(name@),
{
    let chars = str_chars(name);
    if background_thread_name(chars.as_slice()) {
        return true;
    }
    let b = name.as_bytes();
    let p = "deniald:zcq".as_bytes();
    if p.len() > b.len() {
        return false;
    }
    let mut i: usize = 0;
    while i < p.len()
        invariant
            b@ == encode_utf8(name@),
            p@ == encode_utf8("deniald:zcq"@),
            !spec_background_thread_name(name@),
            p@.len() <= b@.len(),
            i <= p@.len(),
            forall|k: int| 0 <= k < i ==> b@[k] == p@[k],
        decreases p@.len() - i,
    {
        if b[i] != p[i] {
            assert(b@.take(p@.len() as int)[i as int] != p@[i as int]);
            return false;
        }
        i += 1;
    }
    assert(b@.take(p@.len() as int) =~= p@);
    digits_only(b, p.len())
}

/// A worker belongs on the background CPU class when its name says so, its
/// policy is batch or idle, or it runs at the lowest nice level.
pub fn worker_is_background(name: &str, policy: Option<i32>, nice: Option<i32>) -> (r: bool)
    ensures
        r == (spec_background_name(name@) || (policy matches Some(p) && (p == 3 || p == 5)) || (
        nice matches Some(n) && n == 19)),
{
    if background_name(name) {
        return true;
    }
    let batch_or_idle = match policy {
        Some(p) => p == sched_batch() || p == sched_idle(),
        None => false,
    };
    let lowest_nice = match nice {
        Some(n) => n == 19,
        None => false,
    };
    batch_or_idle || lowest_nice
}

/// The value of a decimal digit string, most significant first.
pub open spec fn decimal_value(d: Seq<char>) -> int
    decreases d.len(),
{
    if d.len() == 0 {
        0
    } else {
        decimal_value(d.drop_last()) * 10 + ((d.last() as u32) - 0x30)
    }
}

pub open spec fn is_digit_char(c: char) -> bool {
    '0' <= c <= '9'
}

/// `u32::from_str`: an optional `+`, then at least one digit, and a value
/// that fits.
pub open spec fn spec_parse_u32(s: Seq<char>) -> Option<u32> {
    let d = unsigned_digits(s);
    if d.len() > 0 && all_digits(d) && decimal_value(d) <= u32::MAX {
        Some(decimal_value(d) as u32)
    } else {
        None
    }
}

/// The digits of an unsigned number: the text after an optional `+`.
pub open spec fn unsigned_digits(s: Seq<char>) -> Seq<char> {
    if s.len() > 0 && s[0] == '+' {
        s.drop_first()
    } else {
        s
    }
}

pub open spec fn all_digits(d: Seq<char>) -> bool {
    forall|i: int| 0 <= i < d.len() ==> is_digit_char(#[trigger] d[i])
}

proof fn lemma_decimal_value_monotone(d: Seq<char>, k: int)
    requires
        0 <= k <= d.len(),
        forall|i: int| 0 <= i < d.len() ==> is_digit_char(#[trigger] d[i]),
    ensures
        0 <= decimal_value(d.take(k)) <= decimal_value(d),
    decreases d.len() - k,
{
    if k < d.len() {
        lemma_decimal_value_monotone(d, k + 1);
        assert(d.take(k + 1).drop_last() =~= d.take(k));
        assert(is_digit_char(d[k]));
    } else {
        assert(d.take(k) =~= d);
    }
    lemma_decimal_value_nonneg(d.take(k));
}

proof fn lemma_decimal_value_nonneg(d: Seq<char>)
    requires
        forall|i: int| 0 <= i < d.len() ==> is_digit_char(#[trigger] d[i]),
    ensures
        decimal_value(d) >= 0,
    decreases d.len(),
{
    if d.len() > 0 {
        let p = d.drop_last();
        assert forall|i: int| 0 <= i < p.len() implies is_digit_char(#[trigger] p[i]) by {
            assert(p[i] == d[i]);
        }
        lemma_decimal_value_nonneg(p);
        assert(is_digit_char(d[d.len() - 1]));
    }
}

/// Parses a decimal `u32` as `str::parse` does.
pub fn parse_u32(s: &[char]) -> (r: Option<u32>)
    ensures
        r == spec_parse_u32(s@),
{
    let start: usize = if s.len() > 0 && s[0] == '+' {
        1
    } else {
        0
    };
    let ghost d = unsigned_digits(s@);
    assert(d =~= s@.skip(start as int));
    if start == s.len() {
        return None;
    }
    let mut value: u32 = 0;
    let mut i = start;
    while i < s.len()
        invariant
            start <= i <= s@.len(),
            d =~= s@.skip(start as int),
            d == unsigned_digits(s@),
            forall|k: int| start <= k < i ==> is_digit_char(#[trigger] s@[k]),
            value == decimal_value(s@.subrange(start as int, i as int)),
        decreases s@.len() - i,
    {
        let c = s[i];
        assert(s@.subrange(start as int, i + 1).drop_last() =~= s@.subrange(
            start as int,
            i as int,
        ));
        if !('0' <= c && c <= '9') {
            assert(d[i - start] == s@[i as int]);
            assert(!is_digit_char(d[i - start]));
            assert(!all_digits(d));
            return None;
        }
        let digit = (c as u32) - 0x30;
        if value > (u32::MAX - digit) / 10 {
            proof {
                let pre = s@.subrange(start as int, i + 1);
                assert(pre.drop_last() =~= s@.subrange(start as int, i as int));
                assert(pre.last() == c);
                assert(decimal_value(pre) == value * 10 + digit);
                assert(decimal_value(pre) > u32::MAX) by (nonlinear_arith)
                    requires
                        decimal_value(pre) == value * 10 + digit,
                        value > (u32::MAX - digit) / 10,
                        digit <= 9,
                ;
                if all_digits(d) {
                    lemma_decimal_value_monotone(d, i + 1 - start);
                    assert(d.take(i + 1 - start) =~= pre);
                }
            }
            return None;
        }
        value = value * 10 + digit;
        i += 1;
    }
    assert(s@.subrange(start as int, s@.len() as int) =~= d);
    Some(value)
}

/// The configured CPU capacity request: a decimal utilisation value from 0
/// to 1024, surrounded by optional white space.
pub open spec fn spec_parse_minimum(value: Seq<char>) -> Option<u32> {
    match spec_parse_u32(spec_trim(value)) {
        Some(v) => if v <= MAX_CPU_CAPACITY {
            Some(v)
        } else {
            None
        },
        None => None,
    }
}

pub fn parse_minimum(value: &str) -> (r: Option<u32>)
    ensures
        r == spec_parse_minimum(value@),
{
    let chars = str_chars(value);
    let trimmed = trim_chars(chars.as_slice());
    match parse_u32(trimmed.as_slice()) {
        Some(v) => if v <= MAX_CPU_CAPACITY {
            Some(v)
        } else {
            None
        },
        None => None,
    }
}

/// A boolean switch that is on: `1`, `true`, `yes` or `on`, ignoring
/// surrounding white space and ASCII case.
pub open spec fn spec_flag_value_enabled(value: Seq<char>) -> bool {
    let v = spec_lower_chars(spec_trim(value));
    v == "1"@ || v == "true"@ || v == "yes"@ || v == "on"@
}

pub fn flag_value_enabled(value: &str) -> (r: bool)
    ensures
        r == spec_flag_value_enabled(value@),
{
    let chars = str_chars(value);
    let trimmed = trim_chars(chars.as_slice());
    let lower = lower_chars(trimmed.as_slice());
    let l = lower.as_slice();
    chars_equal_str(l, "1") || chars_equal_str(l, "true") || chars_equal_str(l, "yes")
        || chars_equal_str(l, "on")
}

/// The engine's thread priority for display work.
pub const FLUTTER_THREAD_PRIORITY_DISPLAY: u32 = 2;

/// The engine's thread priority for raster work.
pub const FLUTTER_THREAD_PRIORITY_RASTER: u32 = 3;

/// The latency role of an engine thread: display and raster threads are
/// elevated, every other priority stays ordinary.
pub fn flutter_realtime_role(priority: u32) -> (r: Option<PriorityRole>)
    ensures
        r == if priority == FLUTTER_THREAD_PRIORITY_DISPLAY {
            Some(PriorityRole::FlutterDisplay)
        } else if priority == FLUTTER_THREAD_PRIORITY_RASTER {
            Some(PriorityRole::FlutterRaster)
        } else {
            None
        },
{
    if priority == FLUTTER_THREAD_PRIORITY_DISPLAY {
        Some(PriorityRole::FlutterDisplay)
    } else if priority == FLUTTER_THREAD_PRIORITY_RASTER {
        Some(PriorityRole::FlutterRaster)
    } else {
        None
    }
}

/// The registration slot for thread `tid`: the first that already holds
/// it or is free (zero).
pub fn choose_registration_slot(slots: &[i32], tid: i32) -> (r: Option<usize>)
    ensures
        r matches Some(i) ==> i < slots@.len() && (slots@[i as int] == tid || slots@[i as int]
            == 0) && forall|k: int| 0 <= k < i ==> slots@[k] != tid && slots@[k] != 0,
        r is None ==> forall|k: int| 0 <= k < slots@.len() ==> slots@[k] != tid && slots@[k] != 0,
{
    let mut i: usize = 0;
    while i < slots.len()
        invariant
            i <= slots@.len(),
            forall|k: int| 0 <= k < i ==> slots@[k] != tid && slots@[k] != 0,
        decreases slots@.len() - i,
    {
        if slots[i] == tid || slots[i] == 0 {
            return Some(i);
        }
        i += 1;
    }
    None
}

/// What to take from a helper thread that Denial did not register: its
/// realtime policy (replaced by the ordinary one that keeps reset-on-fork)
/// and its negative nice level.
#[derive(Clone, Copy, Debug, PartialEq, Eq, Structural)]
pub struct HelperDemotion {
    pub scheduler_policy: Option<i32>,
    pub reset_nice: bool,
}

/// The demotion an unregistered helper thread needs, if any; `policy` and
/// `nice` are what could be read of it.
pub fn helper_demotion(registered: bool, policy: Option<i32>, nice: Option<i32>) -> (r: Option<
    HelperDemotion,
>)
    ensures
        ({
            let realtime = policy matches Some(p) && (base_policy(p) == 1 || base_policy(p) == 2);
            let elevated = nice matches Some(n) && n < 0;
            &&& (registered || (!realtime && !elevated)) ==> r is None
            &&& (!registered && (realtime || elevated)) ==> r == Some(
                HelperDemotion {
                    scheduler_policy: if realtime {
                        Some(policy->0 & 0x40000000i32)
                    } else {
                        None
                    },
                    reset_nice: elevated,
                },
            )
        }),
{
    if registered {
        return None;
    }
    let realtime = match policy {
        Some(p) => is_realtime_policy(p),
        None => false,
    };
    let elevated = match nice {
        Some(n) => n < 0,
        None => false,
    };
    if !realtime && !elevated {
        return None;
    }
    let scheduler_policy = if realtime {
        match policy {
            Some(p) => Some(normal_policy_preserving_reset(p)),
            None => None,
        }
    } else {
        None
    };
    Some(HelperDemotion { scheduler_policy, reset_nice: elevated })
}

/// The service and housekeeping lanes that Denial owns.
pub open spec fn owned_service_roles() -> Seq<Seq<char>> {
    seq![
        "priority-guard"@,
        "portal-ipc"@,
        "output-control"@,
        "control-client"@,
        "authentication"@,
        "audio"@,
        "brightness"@,
        "session power"@,
        "notifications"@,
        "orientation"@,
        "screenshot-writer"@,
        "xembed tray"@,
        "child-reaper"@,
        "clipboard-dnd"@,
    ]
}

/// Exactly the owned service lanes run on the background CPU class: each
/// of them does, and every other role (Flutter's IO and generic workers
/// among them) keeps the default class.
pub proof fn law_owned_service_roles_run_in_background(role: Seq<char>)
    ensures
        owned_service_roles().contains(role) ==> spec_background_role(role),
        spec_background_role(role) ==> owned_service_roles().contains(role),
{
    let r = owned_service_roles();
    if r.contains(role) {
        let i = choose|i: int| 0 <= i < r.len() && r[i] == role;
        assert(0 <= i < 14);
    }
    if spec_background_role(role) {
        if role == "priority-guard"@ {
            assert(r[0] == role);
        } else if role == "portal-ipc"@ {
            assert(r[1] == role);
        } else if role == "output-control"@ {
            assert(r[2] == role);
        } else if role == "control-client"@ {
            assert(r[3] == role);
        } else if role == "authentication"@ {
            assert(r[4] == role);
        } else if role == "audio"@ {
            assert(r[5] == role);
        } else if role == "brightness"@ {
            assert(r[6] == role);
        } else if role == "session power"@ {
            assert(r[7] == role);
        } else if role == "notifications"@ {
            assert(r[8] == role);
        } else if role == "orientation"@ {
            assert(r[9] == role);
        } else if role == "screenshot-writer"@ {
            assert(r[10] == role);
        } else if role == "xembed tray"@ {
            assert(r[11] == role);
        } else if role == "child-reaper"@ {
            assert(r[12] == role);
        } else {
            assert(r[13] == role);
        }
    }
}

/// The kernel names (cut to fifteen bytes) of the threads known to do
/// background work: Denial's own service lanes, the shared-memory release
/// thread and Dart's profiler.
pub open spec fn known_background_thread_names() -> Seq<Seq<char>> {
    seq![
        "denial-portal-i"@,
        "denial-priority"@,
        "denial-control"@,
        "denial-control-"@,
        "denial-authenti"@,
        "denial-audio"@,
        "denial-brightne"@,
        "denial-session-"@,
        "denial-notifica"@,
        "denial-orientat"@,
        "denial-screensh"@,
        "denial-xembed-t"@,
        "denial-child-re"@,
        "denial-clipboar"@,
        "Shm dropping th"@,
        "Dart Profiler T"@,
    ]
}

/// Exactly the known background threads are recognised by name, and so is
/// every numbered `deniald:zcq` worker; a name that is neither is not.
pub proof fn law_background_thread_names(name: Seq<char>)
    ensures
        known_background_thread_names().contains(name) ==> spec_background_name(name),
        spec_background_thread_name(name) ==> known_background_thread_names().contains(name),
        spec_background_name(name) ==> known_background_thread_names().contains(name) || (
        encode_utf8("deniald:zcq"@).len() < encode_utf8(name).len() && encode_utf8(name).take(
            encode_utf8("deniald:zcq"@).len() as int,
        ) == encode_utf8("deniald:zcq"@) && forall|i: int|
            encode_utf8("deniald:zcq"@).len() <= i < encode_utf8(name).len() ==> is_digit_byte(
                #[trigger] encode_utf8(name)[i],
            )),
{
    let r = known_background_thread_names();
    if r.contains(name) {
        let i = choose|i: int| 0 <= i < r.len() && r[i] == name;
        assert(0 <= i < 16);
    }
    if spec_background_thread_name(name) {
        if name == "denial-portal-i"@ {
            assert(r[0] == name);
        } else if name == "denial-priority"@ {
            assert(r[1] == name);
        } else if name == "denial-control"@ {
            assert(r[2] == name);
        } else if name == "denial-control-"@ {
            assert(r[3] == name);
        } else if name == "denial-authenti"@ {
            assert(r[4] == name);
        } else if name == "denial-audio"@ {
            assert(r[5] == name);
        } else if name == "denial-brightne"@ {
            assert(r[6] == name);
        } else if name == "denial-session-"@ {
            assert(r[7] == name);
        } else if name == "denial-notifica"@ {
            assert(r[8] == name);
        } else if name == "denial-orientat"@ {
            assert(r[9] == name);
        } else if name == "denial-screensh"@ {
            assert(r[10] == name);
        } else if name == "denial-xembed-t"@ {
            assert(r[11] == name);
        } else if name == "denial-child-re"@ {
            assert(r[12] == name);
        } else if name == "denial-clipboar"@ {
            assert(r[13] == name);
        } else if name == "Shm dropping th"@ {
            assert(r[14] == name);
        } else {
            assert(r[15] == name);
        }
    }
    let b = encode_utf8(name);
    let p = encode_utf8("deniald:zcq"@);
    if !spec_background_thread_name(name) && spec_background_name(name) {
        let t = b.skip(p.len() as int);
        assert forall|i: int| p.len() <= i < b.len() implies is_digit_byte(#[trigger] b[i]) by {
            assert(t[i - p.len()] == b[i]);
        }
    }
}

/// A realtime budget is armed only under an unlimited hard limit and with a
/// non-zero soft limit; it is then the soft limit, capped at 200 ms, with
/// the hard limit left unlimited.
pub proof fn law_realtime_limit_is_safe(soft: u64, hard: u64)
    ensures
        spec_safe_realtime_limit(soft, hard) is Some <==> (hard == u64::MAX && soft > 0),
        spec_safe_realtime_limit(soft, hard) matches Some(s) ==> 0 < s <= 200_000 && s <= soft && (
        s == soft || s == 200_000),
{
}

/// The words that switch a boolean option on.
pub open spec fn enabling_words() -> Seq<Seq<char>> {
    seq!["1"@, "true"@, "yes"@, "on"@]
}

/// A switch is on exactly when its value, trimmed and read without regard
/// to ASCII case, is one of `1`, `true`, `yes` and `on`; each of these
/// words written as it is turns it on.
pub proof fn law_flag_values(value: Seq<char>)
    ensures
        spec_flag_value_enabled(value) <==> enabling_words().contains(
            spec_lower_chars(spec_trim(value)),
        ),
        forall|i: int| 0 <= i < 4 ==> spec_flag_value_enabled(#[trigger] enabling_words()[i]),
{
    let words = enabling_words();
    reveal_strlit("1");
    assert(!spec_is_whitespace("1"@[0]));
    assert(spec_trim_start("1"@) == "1"@);
    assert(!spec_is_whitespace("1"@.last()));
    assert(spec_trim_end("1"@) == "1"@);
    assert(spec_lower_chars("1"@) =~= "1"@);
    assert(words[0] == "1"@);
    reveal_strlit("true");
    assert(!spec_is_whitespace("true"@[0]));
    assert(spec_trim_start("true"@) == "true"@);
    assert(!spec_is_whitespace("true"@.last()));
    assert(spec_trim_end("true"@) == "true"@);
    assert(spec_lower_chars("true"@) =~= "true"@);
    assert(words[1] == "true"@);
    reveal_strlit("yes");
    assert(!spec_is_whitespace("yes"@[0]));
    assert(spec_trim_start("yes"@) == "yes"@);
    assert(!spec_is_whitespace("yes"@.last()));
    assert(spec_trim_end("yes"@) == "yes"@);
    assert(spec_lower_chars("yes"@) =~= "yes"@);
    assert(words[2] == "yes"@);
    reveal_strlit("on");
    assert(!spec_is_whitespace("on"@[0]));
    assert(spec_trim_start("on"@) == "on"@);
    assert(!spec_is_whitespace("on"@.last()));
    assert(spec_trim_end("on"@) == "on"@);
    assert(spec_lower_chars("on"@) =~= "on"@);
    assert(words[3] == "on"@);
    let v = spec_lower_chars(spec_trim(value));
    if words.contains(v) {
        let i = choose|i: int| 0 <= i < words.len() && words[i] == v;
        assert(0 <= i < 4);
    }
    if spec_flag_value_enabled(value) {
        if v == "1"@ {
            assert(words[0] == v);
        } else if v == "true"@ {
            assert(words[1] == v);
        } else if v == "yes"@ {
            assert(words[2] == v);
        } else {
            assert(words[3] == v);
        }
    }
}

} // verus!
