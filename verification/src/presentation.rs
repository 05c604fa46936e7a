//! Privileged fingerprint presentation: the hardware-independent contact
//! lifecycle, sensor profiles, admission of clients and images, the copy
//! normalisation of presented images, and the visuals around an unlock.
//!
//! A matching scanout completion and illumination settling are separate gates.
//! The epoch accompanies native output frames, including the black presentation guard.
//! Times are monotonic nanosecond counts; durations are nanoseconds.

use vstd::prelude::*;

verus! {

/// Longest presentation a client may request: thirty seconds.
pub const MAX_PRESENTATION_NANOS: u64 = 30_000_000_000;

#[derive(Clone, Copy, Debug, PartialEq, Eq, Structural)]
pub enum Phase {
    Preparing,
    Presented,
    Settling(u64),
    Ready,
    Stopping,
}

#[derive(Clone, Copy, Debug, PartialEq, Eq, Structural)]
pub enum StopReason {
    Released,
    Timeout,
    Unavailable,
    Revoked,
}

#[derive(Debug)]
pub struct Contact {
    pub serial: u32,
    pub epoch: u64,
    pub phase: Phase,
    pub deadline: u64,
    pub restore_off: bool,
    pub illumination_enabled: bool,
    pub stop_reason: Option<StopReason>,
}

/// One client's presentation session. At most one contact is active; a new
/// contact must use a serial strictly above every serial used before.
#[derive(Debug)]
pub struct Session {
    pub last_serial: u32,
    pub epoch: u64,
    pub contact: Option<Contact>,
}

pub const ERR_STILL_STOPPING: &'static str = "previous contact is still stopping";
pub const ERR_ACTIVE: &'static str = "a contact is already active";
pub const ERR_SERIAL: &'static str = "contact serial is zero, stale or reused";
pub const ERR_DURATION: &'static str = "presentation duration must be within 30 seconds";
pub const ERR_EPOCH: &'static str = "presentation epoch exhausted";
pub const ERR_WITHDRAW: &'static str = "withdraw references a serial that was never presented";

/// The contact after `stop(reason)`: a fresh epoch revokes every frame that
/// was prepared for the old one, and the reason is recorded.
pub open spec fn stopped_contact(contact: Contact, epoch: u64, reason: StopReason) -> Contact {
    Contact {
        epoch: epoch,
        phase: Phase::Stopping,
        stop_reason: Some(reason),
        ..contact
    }
}

/// The state `stop(reason)` produces from `s`.
pub open spec fn stopped(s: Session, reason: StopReason) -> Session {
    match s.contact {
        Some(c) if c.phase != Phase::Stopping => Session {
            last_serial: s.last_serial,
            epoch: (s.epoch + 1) as u64,
            contact: Some(stopped_contact(c, (s.epoch + 1) as u64, reason)),
        },
        _ => s,
    }
}

/// The state after a page flip of a frame painted for `epoch`: only the
/// active, preparing contact of that epoch moves on.
pub open spec fn spec_presented(s: Session, epoch: u64) -> Session {
    match s.contact {
        Some(c) if c.epoch == epoch && c.phase == Phase::Preparing => Session {
            contact: Some(Contact { phase: Phase::Presented, ..c }),
            ..s
        },
        _ => s,
    }
}

/// Stopping a contact revokes every frame prepared before: a page flip of
/// any earlier epoch no longer advances it.
pub proof fn law_stop_revokes_prepared_frames(s: Session, reason: StopReason, epoch: u64)
    requires
        s.contact matches Some(c) && c.phase != Phase::Stopping && c.epoch <= s.epoch,
        s.epoch < u64::MAX,
        epoch <= s.epoch,
    ensures
        spec_presented(stopped(s, reason), epoch) == stopped(s, reason),
{
}

/// `stop` can only run out of epochs on a contact that is not yet stopping.
pub open spec fn can_stop(s: Session) -> bool {
    s.contact matches Some(c) ==> (c.phase != Phase::Stopping ==> s.epoch < u64::MAX)
}

impl Default for Session {
    fn default() -> (session: Self)
        ensures
            session.last_serial == 0,
            session.epoch == 0,
            session.contact is None,
    {
        Session::new()
    }
}

impl Session {
    pub fn new() -> (session: Self)
        ensures
            session.last_serial == 0,
            session.epoch == 0,
            session.contact is None,
    {
        Session { last_serial: 0, epoch: 0, contact: None }
    }

    /// A new client restarts serial numbering, unless a contact still stops.
    pub fn new_client(&mut self) -> (r: Result<(), &'static str>)
        ensures
            r is Err <==> old(self).contact is Some,
            r matches Err(m) ==> m == ERR_STILL_STOPPING,
            r is Ok ==> *final(self) == (Session { last_serial: 0, ..*old(self) }),
            r is Err ==> *final(self) == *old(self),
    {
        if self.contact.is_some() {
            return Err(ERR_STILL_STOPPING);
        }
        self.last_serial = 0;
        Ok(())
    }

    /// Starts a contact for `serial` lasting `duration` nanoseconds from `now`.
    pub fn begin(&mut self, serial: u32, now: u64, duration: u64, initially_off: bool) -> (r: Result<
        u64,
        &'static str,
    >)
        requires
            now + duration <= u64::MAX,
        ensures
            old(self).contact is Some ==> r == Err::<u64, &str>(ERR_ACTIVE),
            old(self).contact is None && (serial == 0 || serial <= old(self).last_serial) ==> r
                == Err::<u64, &str>(ERR_SERIAL),
            old(self).contact is None && serial != 0 && serial > old(self).last_serial && (duration
                == 0 || duration > MAX_PRESENTATION_NANOS) ==> r == Err::<u64, &str>(ERR_DURATION),
            old(self).contact is None && serial != 0 && serial > old(self).last_serial && 0
                < duration <= MAX_PRESENTATION_NANOS && old(self).epoch == u64::MAX ==> r == Err::<
                u64,
                &str,
            >(ERR_EPOCH),
            r is Err ==> *final(self) == *old(self),
            r is Ok <==> (old(self).contact is None && serial != 0 && serial > old(self).last_serial
                && 0 < duration <= MAX_PRESENTATION_NANOS && old(self).epoch < u64::MAX),
            r matches Ok(epoch) ==> {
                &&& epoch == old(self).epoch + 1
                &&& *final(self) == (Session {
                    last_serial: serial,
                    epoch: epoch,
                    contact: Some(
                        Contact {
                            serial: serial,
                            epoch: epoch,
                            phase: Phase::Preparing,
                            deadline: (now + duration) as u64,
                            restore_off: initially_off,
                            illumination_enabled: false,
                            stop_reason: None,
                        },
                    ),
                })
            },
    {
        if self.contact.is_some() {
            return Err(ERR_ACTIVE);
        }
        if serial == 0 || serial <= self.last_serial {
            return Err(ERR_SERIAL);
        }
        if duration == 0 || duration > MAX_PRESENTATION_NANOS {
            return Err(ERR_DURATION);
        }
        let epoch = match self.epoch.checked_add(1) {
            Some(epoch) => epoch,
            None => return Err(ERR_EPOCH),
        };
        self.epoch = epoch;
        self.last_serial = serial;
        self.contact = Some(
            Contact {
                serial,
                epoch,
                phase: Phase::Preparing,
                deadline: now + duration,
                restore_off: initially_off,
                illumination_enabled: false,
                stop_reason: None,
            },
        );
        Ok(epoch)
    }

    /// The active contact's epoch, or zero without a contact.
    pub fn epoch(&self) -> (r: u64)
        ensures
            r == match self.contact {
                Some(c) => c.epoch,
                None => 0,
            },
    {
        match &self.contact {
            Some(contact) => contact.epoch,
            None => 0,
        }
    }

    /// Called only for a physical page flip of a frame painted for this epoch.
    pub fn presented(&mut self, epoch: u64)
        ensures
            *final(self) == spec_presented(*old(self), epoch),
    {
        if let Some(contact) = self.contact.as_mut() {
            if contact.epoch == epoch && contact.phase == Phase::Preparing {
                contact.phase = Phase::Presented;
            }
        }
    }

    /// Illumination was switched on at `now`; the sensor may read after
    /// `settle` more nanoseconds. Only a presented, unexpired contact moves.
    pub fn illumination_enabled(&mut self, now: u64, settle: u64) -> (r: bool)
        requires
            now + settle <= u64::MAX,
        ensures
            r == (old(self).contact matches Some(c) && c.phase == Phase::Presented && now
                < c.deadline),
            *final(self) == match old(self).contact {
                Some(c) if r => Session {
                    contact: Some(
                        Contact {
                            illumination_enabled: true,
                            phase: Phase::Settling((now + settle) as u64),
                            ..c
                        },
                    ),
                    ..*old(self)
                },
                _ => *old(self),
            },
    {
        match self.contact.as_mut() {
            None => false,
            Some(contact) => {
                if contact.phase != Phase::Presented || now >= contact.deadline {
                    return false;
                }
                contact.illumination_enabled = true;
                contact.phase = Phase::Settling(now + settle);
                true
            },
        }
    }

    /// Returns a serial once, after both the scanout and hardware gates passed.
    /// An expired contact stops with `Timeout` instead, even if it was ready.
    pub fn ready(&mut self, now: u64) -> (r: Option<u32>)
        requires
            can_stop(*old(self)),
        ensures
            match old(self).contact {
                None => r is None && *final(self) == *old(self),
                Some(c) => if now >= c.deadline {
                    r is None && *final(self) == stopped(*old(self), StopReason::Timeout)
                } else if (c.phase matches Phase::Settling(d) && now >= d) && c.illumination_enabled {
                    r == Some(c.serial) && *final(self) == (Session {
                        contact: Some(Contact { phase: Phase::Ready, ..c }),
                        ..*old(self)
                    })
                } else {
                    r is None && *final(self) == *old(self)
                },
            },
    {
        let (deadline, phase, illuminated, serial) = match &self.contact {
            None => return None,
            Some(contact) => (contact.deadline, contact.phase, contact.illumination_enabled, contact.serial),
        };
        if now >= deadline {
            self.stop(StopReason::Timeout);
            return None;
        }
        if let Phase::Settling(settled) = phase {
            if now >= settled && illuminated {
                if let Some(contact) = self.contact.as_mut() {
                    contact.phase = Phase::Ready;
                }
                return Some(serial);
            }
        }
        None
    }

    /// The client lifted the finger of `serial`. Only the active contact stops;
    /// a stale serial is accepted and ignored, a never-used one is refused.
    pub fn withdraw(&mut self, serial: u32) -> (r: Result<(), &'static str>)
        requires
            can_stop(*old(self)),
        ensures
            r is Err <==> (serial == 0 || serial > old(self).last_serial),
            r matches Err(m) ==> m == ERR_WITHDRAW && *final(self) == *old(self),
            r is Ok ==> *final(self) == if old(self).contact matches Some(c) && c.serial == serial {
                stopped(*old(self), StopReason::Released)
            } else {
                *old(self)
            },
    {
        if serial == 0 || serial > self.last_serial {
            return Err(ERR_WITHDRAW);
        }
        let matches = match &self.contact {
            Some(contact) => contact.serial == serial,
            None => false,
        };
        if matches {
            self.stop(StopReason::Released);
        }
        Ok(())
    }

    /// Revokes all prepared acquisition frames. The UI may retain owned pixels.
    pub fn stop(&mut self, reason: StopReason)
        requires
            can_stop(*old(self)),
        ensures
            *final(self) == stopped(*old(self), reason),
    {
        let stopping = match &self.contact {
            None => return,
            Some(contact) => contact.phase == Phase::Stopping,
        };
        if stopping {
            return;
        }
        let epoch = self.epoch + 1;
        self.epoch = epoch;
        if let Some(contact) = self.contact.as_mut() {
            contact.epoch = epoch;
            contact.phase = Phase::Stopping;
            contact.stop_reason = Some(reason);
        }
    }

    /// A wake that the contact did not cause must survive its end.
    pub fn independent_wake(&mut self)
        ensures
            *final(self) == match old(self).contact {
                Some(c) => Session { contact: Some(Contact { restore_off: false, ..c }), ..*old(self) },
                None => *old(self),
            },
    {
        if let Some(contact) = self.contact.as_mut() {
            contact.restore_off = false;
        }
    }

    /// Keep the black presentation guard until local illumination is confirmed
    /// off and a required power-off has completed. Never assume an ioctl worked.
    pub fn finish(&mut self, illumination_off: bool, output_off: bool) -> (r: Option<(u32, StopReason)>)
        requires
            old(self).contact matches Some(c) ==> (c.phase == Phase::Stopping ==> c.stop_reason is Some),
        ensures
            match old(self).contact {
                Some(c) if c.phase == Phase::Stopping && illumination_off && (!c.restore_off
                    || output_off) => r == Some((c.serial, c.stop_reason->0)) && *final(self)
                    == (Session { contact: None, ..*old(self) }),
                _ => r is None && *final(self) == *old(self),
            },
    {
        let (serial, reason) = match &self.contact {
            None => return None,
            Some(contact) => {
                if contact.phase != Phase::Stopping || !illumination_off || (contact.restore_off
                    && !output_off) {
                    return None;
                }
                match contact.stop_reason {
                    Some(reason) => (contact.serial, reason),
                    None => return None,
                }
            },
        };
        self.contact = None;
        Some((serial, reason))
    }
}

/// A valid copy size: four bytes per pixel, rows that fit a `usize`, and
/// exactly `height` rows.
pub open spec fn valid_copy_size(len: nat, width: nat, height: nat) -> bool {
    &&& width * 4 <= usize::MAX
    &&& width * 4 != 0
    &&& height != 0
    &&& width * 4 * height == len
}

/// The byte at row `r`, column `c` of a normalised copy: rows are flipped
/// when the image is stored upside down, and the alpha of every pixel is
/// opaque when the format has none.
pub open spec fn normalized_byte(
    orig: Seq<u8>,
    row: int,
    height: int,
    inverted: bool,
    opaque: bool,
    r: int,
    c: int,
) -> u8 {
    if opaque && c % 4 == 3 {
        255
    } else if inverted {
        orig[(height - 1 - r) * row + c]
    } else {
        orig[r * row + c]
    }
}

proof fn lemma_cell_in_bounds(r: int, c: int, row: int, height: int)
    requires
        0 <= r < height,
        0 <= c < row,
    ensures
        0 <= r * row + c < row * height,
        0 <= r * row <= row * height - row,
{
    assert(0 <= r * row + c < row * height) by (nonlinear_arith)
        requires
            0 <= r < height,
            0 <= c < row,
    ;
    assert(0 <= r * row <= row * height - row) by (nonlinear_arith)
        requires
            0 <= r < height,
            0 <= c < row,
    ;
}

proof fn lemma_cell_unique(r1: int, c1: int, r2: int, c2: int, row: int)
    requires
        0 <= r1,
        0 <= r2,
        0 <= c1 < row,
        0 <= c2 < row,
        r1 * row + c1 == r2 * row + c2,
    ensures
        r1 == r2,
        c1 == c2,
{
    if r1 < r2 {
        assert(r1 * row + c1 < r2 * row + c2) by (nonlinear_arith)
            requires
                0 <= r1 < r2,
                0 <= c1 < row,
                0 <= c2,
        ;
    } else if r2 < r1 {
        assert(r2 * row + c2 < r1 * row + c1) by (nonlinear_arith)
            requires
                0 <= r2 < r1,
                0 <= c2 < row,
                0 <= c1,
        ;
    }
}

/// Normalises a copied presentation image in place: flips the rows of an
/// upside-down image and makes every pixel opaque for formats without
/// alpha. A size that does not match the buffer is refused untouched.
pub fn normalize_presentation_pixels(
    rgba: &mut [u8],
    width: usize,
    height: usize,
    inverted: bool,
    opaque: bool,
) -> (r: Result<(), &'static str>)
    ensures
        r is Ok <==> valid_copy_size(old(rgba)@.len(), width as nat, height as nat),
        r matches Err(m) ==> final(rgba)@ == old(rgba)@ && m@ == (if width * 4 > usize::MAX {
            "presentation row overflow"@
        } else {
            "invalid presentation copy size"@
        }),
        r is Ok ==> final(rgba)@.len() == old(rgba)@.len() && forall|y: int, x: int|
            0 <= y < height && 0 <= x < width * 4 ==> #[trigger] final(rgba)@[y * (width * 4) + x]
                == normalized_byte(old(rgba)@, width * 4, height as int, inverted, opaque, y, x),
{
    let row = match width.checked_mul(4) {
        Some(v) => v,
        None => return Err("presentation row overflow"),
    };
    if row == 0 || height == 0 {
        return Err("invalid presentation copy size");
    }
    match row.checked_mul(height) {
        Some(total) => if total != rgba.len() {
            return Err("invalid presentation copy size");
        },
        None => {
            let n = rgba.len();
            proof {
                assert(n == old(rgba)@.len());
                assert(row * height > usize::MAX);
                assert(row * height != old(rgba)@.len());
            }
            return Err("invalid presentation copy size");
        },
    }
    proof {
        assert(row * height == rgba@.len());
        assert(width * 4 * height == row * height);
    }
    let orig = vstd::slice::slice_to_vec(rgba);
    let ghost o = orig@;
    let n = rgba.len();
    let mut y: usize = 0;
    while y < height
        invariant
            y <= height,
            row == width * 4,
            row > 0,
            height > 0,
            row * height == rgba@.len(),
            row * height == n,
            o == old(rgba)@,
            orig@ == o,
            rgba@.len() == o.len(),
            forall|yy: int, xx: int|
                0 <= yy < y && 0 <= xx < row ==> #[trigger] rgba@[yy * row + xx] == normalized_byte(
                    o,
                    row as int,
                    height as int,
                    inverted,
                    opaque,
                    yy,
                    xx,
                ),
        decreases height - y,
    {
        proof {
            lemma_cell_in_bounds(y as int, 0, row as int, height as int);
            lemma_cell_in_bounds((height - 1 - y) as int, 0, row as int, height as int);
        }
        let base = y * row;
        let source = (height - 1 - y) * row;
        let mut x: usize = 0;
        while x < row
            invariant
                y < height,
                x <= row,
                row == width * 4,
                row > 0,
                row * height == rgba@.len(),
                row * height == n,
                base == y * row,
                source == (height - 1 - y) * row,
                base <= row * height - row,
                source <= row * height - row,
                o == old(rgba)@,
                orig@ == o,
                rgba@.len() == o.len(),
                forall|yy: int, xx: int|
                    0 <= yy < y && 0 <= xx < row ==> #[trigger] rgba@[yy * row + xx]
                        == normalized_byte(o, row as int, height as int, inverted, opaque, yy, xx),
                forall|xx: int|
                    0 <= xx < x ==> #[trigger] rgba@[y * row + xx] == normalized_byte(
                        o,
                        row as int,
                        height as int,
                        inverted,
                        opaque,
                        y as int,
                        xx,
                    ),
            decreases row - x,
        {
            let value: u8 = if opaque && x % 4 == 3 {
                255
            } else if inverted {
                orig[source + x]
            } else {
                orig[base + x]
            };
            let ghost before = rgba@;
            rgba[base + x] = value;
            proof {
                assert forall|yy: int, xx: int|
                    0 <= yy < y && 0 <= xx < row implies #[trigger] rgba@[yy * row + xx]
                        == normalized_byte(o, row as int, height as int, inverted, opaque, yy, xx) by {
                    lemma_cell_in_bounds(yy, xx, row as int, height as int);
                    if yy * row + xx == base + x {
                        lemma_cell_unique(yy, xx, y as int, x as int, row as int);
                    }
                    assert(rgba@[yy * row + xx] == before[yy * row + xx]);
                }
                assert forall|xx: int| 0 <= xx < x + 1 implies #[trigger] rgba@[y * row + xx]
                    == normalized_byte(o, row as int, height as int, inverted, opaque, y as int, xx) by {
                    if xx < x {
                        assert(rgba@[y * row + xx] == before[y * row + xx]);
                    }
                }
            }
            x += 1;
        }
        y += 1;
    }
    Ok(())
}

/// How long the unlock visual may outlive an unlock: one second.
pub const UNLOCK_VISUAL_NANOS: u64 = 1_000_000_000;

/// How long the ambient scene stays after an authenticated wake: three
/// seconds.
pub const AMBIENT_AFTER_WAKE_NANOS: u64 = 3_000_000_000;

/// The panel geometry and illumination policy of a fingerprint sensor.
#[derive(Clone, Debug)]
pub struct FingerprintProfile {
    pub sensor: String,
    pub output: String,
    pub panel_name: String,
    pub panel_width: u32,
    pub panel_height: u32,
    pub x: i32,
    pub y: i32,
    pub width: u32,
    pub height: u32,
    pub max_duration_ms: u32,
    pub settle_ms: u32,
    pub illumination_property: String,
    pub illumination_on: u64,
    pub illumination_off: u64,
}

pub const ERR_PROFILE: &'static str = "invalid fingerprint profile geometry or illumination policy";

/// A usable profile: named sensor, output and panel; a sensor area of at
/// most 1024 pixels a side inside a panel of at most 65535; a presentation
/// of 100 ms to 30 s that settles in at most one second and before it
/// ends; distinct illumination values of a named property.
pub open spec fn spec_profile_valid(p: FingerprintProfile) -> bool {
    &&& p.sensor@.len() > 0
    &&& p.output@.len() > 0
    &&& p.panel_name@.len() > 0
    &&& p.x >= 0
    &&& p.y >= 0
    &&& 0 < p.width <= 1024
    &&& 0 < p.height <= 1024
    &&& p.panel_width <= 65535
    &&& p.panel_height <= 65535
    &&& p.x + p.width <= p.panel_width
    &&& p.y + p.height <= p.panel_height
    &&& 100 <= p.max_duration_ms <= 30000
    &&& p.settle_ms <= 1000
    &&& p.settle_ms < p.max_duration_ms
    &&& p.illumination_property@.len() > 0
    &&& p.illumination_on != p.illumination_off
}

fn text_is_empty(s: &String) -> (r: bool)
    ensures
        r == (s@.len() == 0),
{
    crate::text::str_chars(s.as_str()).len() == 0
}

impl FingerprintProfile {
    pub fn validate(&self) -> (r: Result<(), &'static str>)
        ensures
            r is Ok <==> spec_profile_valid(*self),
            r matches Err(m) ==> m == ERR_PROFILE,
    {
        if text_is_empty(&self.sensor) || text_is_empty(&self.output) || text_is_empty(
            &self.panel_name,
        ) || self.x < 0 || self.y < 0 || self.width == 0 || self.height == 0 || self.width > 1024
            || self.height > 1024 || self.panel_width > 65535 || self.panel_height > 65535 {
            return Err(ERR_PROFILE);
        }
        let x = self.x as u32;
        let y = self.y as u32;
        let right_ok = match x.checked_add(self.width) {
            Some(v) => v <= self.panel_width,
            None => false,
        };
        let bottom_ok = match y.checked_add(self.height) {
            Some(v) => v <= self.panel_height,
            None => false,
        };
        if !right_ok || !bottom_ok || self.max_duration_ms < 100 || self.max_duration_ms > 30000
            || self.settle_ms > 1000 || self.settle_ms >= self.max_duration_ms || text_is_empty(
            &self.illumination_property,
        ) || self.illumination_on == self.illumination_off {
            return Err(ERR_PROFILE);
        }
        Ok(())
    }
}

/// What the compositor shows around a fingerprint contact: the contact
/// session, the scene that bridges an unlock, and the ambient scene of a
/// wake by touch. Times are monotonic nanoseconds.
#[derive(Debug)]
pub struct Controller {
    pub session: Session,
    pub reveal_home: bool,
    pub fade_target: bool,
    pub visual_until: Option<u64>,
    pub retain_after_stop: bool,
    pub ambient_until: Option<u64>,
}

impl Default for Controller {
    fn default() -> (r: Self)
        ensures
            r.session.contact is None,
            r.session.epoch == 0,
            r.session.last_serial == 0,
            !r.reveal_home && !r.fade_target && !r.retain_after_stop,
            r.visual_until is None && r.ambient_until is None,
    {
        Controller {
            session: Session::new(),
            reveal_home: false,
            fade_target: false,
            visual_until: None,
            retain_after_stop: false,
            ambient_until: None,
        }
    }
}

/// The session after a wake the contact did not cause: the contact keeps
/// the displays on and is revoked.
pub open spec fn woken_session(s: Session) -> Session {
    stopped(
        match s.contact {
            Some(c) => Session { contact: Some(Contact { restore_off: false, ..c }), ..s },
            None => s,
        },
        StopReason::Revoked,
    )
}

impl Controller {
    /// A contact or the ambient scene is showing.
    pub fn active(&self) -> (r: bool)
        ensures
            r == (self.session.contact is Some || self.ambient_until is Some),
    {
        self.session.contact.is_some() || self.ambient_until.is_some()
    }

    /// A wake the contact did not cause clears every fingerprint visual and
    /// revokes the contact.
    pub fn independent_wake(&mut self)
        requires
            can_stop(old(self).session),
        ensures
            final(self).session == woken_session(old(self).session),
            final(self).ambient_until is None,
            !final(self).reveal_home,
            !final(self).fade_target,
            final(self).visual_until is None,
            !final(self).retain_after_stop,
    {
        self.ambient_until = None;
        self.reveal_home = false;
        self.fade_target = false;
        self.visual_until = None;
        self.retain_after_stop = false;
        self.session.independent_wake();
        self.session.stop(StopReason::Revoked);
    }

    /// The lock screen unlocked: the contact ends as for an independent
    /// wake, but an ambient scene reveals home and a showing visual fades
    /// out, kept for at most a second.
    pub fn unlocked(&mut self, now: u64)
        requires
            can_stop(old(self).session),
            now <= u64::MAX - UNLOCK_VISUAL_NANOS,
        ensures
            final(self).session == woken_session(old(self).session),
            final(self).ambient_until is None,
            final(self).reveal_home == old(self).ambient_until is Some,
            final(self).fade_target == old(self).visual_until is Some,
            final(self).visual_until == if old(self).visual_until is Some {
                Some((now + UNLOCK_VISUAL_NANOS) as u64)
            } else {
                None
            },
            !final(self).retain_after_stop,
    {
        let visual = self.visual_until.is_some();
        let reveal = self.ambient_until.is_some();
        self.independent_wake();
        self.reveal_home = reveal;
        self.fade_target = visual;
        if visual {
            self.visual_until = Some(now + UNLOCK_VISUAL_NANOS);
        }
    }

    /// The displays woke for an authenticated unlock: the black scene stays
    /// until the unlock, and the ambient scene is extended.
    pub fn authenticated_wake(&mut self, now: u64)
        requires
            now <= u64::MAX - AMBIENT_AFTER_WAKE_NANOS,
        ensures
            final(self).session == match old(self).session.contact {
                Some(c) => Session {
                    contact: Some(Contact { restore_off: false, ..c }),
                    ..old(self).session
                },
                None => old(self).session,
            },
            final(self).ambient_until == if old(self).ambient_until is Some {
                Some((now + AMBIENT_AFTER_WAKE_NANOS) as u64)
            } else {
                None
            },
            final(self).reveal_home == old(self).reveal_home,
            final(self).fade_target == old(self).fade_target,
            final(self).visual_until == old(self).visual_until,
            final(self).retain_after_stop == old(self).retain_after_stop,
    {
        self.session.independent_wake();
        if self.ambient_until.is_some() {
            self.ambient_until = Some(now + AMBIENT_AFTER_WAKE_NANOS);
        }
    }
}

/// Why a client may not open a presentation session.
#[derive(Clone, Copy, Debug, PartialEq, Eq, Structural)]
pub enum SessionRefusal {
    Unauthorized,
    InvalidSensor,
    Busy,
}

/// A session opens for an authorised client that names the profile's
/// sensor while no other session is alive and no contact is active.
pub fn admit_session(
    authorized: bool,
    sensor: &str,
    profile: &FingerprintProfile,
    session_alive: bool,
    contact_active: bool,
) -> (r: Result<(), SessionRefusal>)
    ensures
        !authorized ==> r == Err::<(), SessionRefusal>(SessionRefusal::Unauthorized),
        authorized && sensor@ != profile.sensor@ ==> r == Err::<(), SessionRefusal>(
            SessionRefusal::InvalidSensor,
        ),
        authorized && sensor@ == profile.sensor@ && (session_alive || contact_active) ==> r
            == Err::<(), SessionRefusal>(SessionRefusal::Busy),
        r is Ok <==> authorized && sensor@ == profile.sensor@ && !session_alive && !contact_active,
{
    if !authorized {
        return Err(SessionRefusal::Unauthorized);
    }
    let a = crate::text::str_chars(sensor);
    let b = crate::text::str_chars(profile.sensor.as_str());
    if !crate::text::chars_equal(a.as_slice(), b.as_slice()) {
        return Err(SessionRefusal::InvalidSensor);
    }
    if session_alive || contact_active {
        return Err(SessionRefusal::Busy);
    }
    Ok(())
}

/// Why a presented image is refused.
#[derive(Clone, Copy, Debug, PartialEq, Eq, Structural)]
pub enum ImageRefusal {
    /// The image does not cover the sensor rectangle.
    InvalidGeometry,
    /// The buffer is not a DMA-BUF.
    NotDmabuf,
    /// The buffer's size or pixel format does not fit.
    UnsupportedBuffer,
}

/// The buffer a client presents for a contact: what the compositor could
/// learn of it.
#[derive(Clone, Copy, Debug)]
pub struct PresentedBuffer {
    pub is_dmabuf: bool,
    pub width: i32,
    pub height: i32,
    pub rgb_8888: bool,
}

/// A presented image must cover exactly the sensor rectangle, be a
/// DMA-BUF of that size, and use a 32-bit RGB format.
pub fn check_presented_image(
    profile: &FingerprintProfile,
    x: i32,
    y: i32,
    width: u32,
    height: u32,
    buffer: PresentedBuffer,
) -> (r: Result<(), ImageRefusal>)
    ensures
        !(x == profile.x && y == profile.y && width == profile.width && height == profile.height)
            ==> r == Err::<(), ImageRefusal>(ImageRefusal::InvalidGeometry),
        (x == profile.x && y == profile.y && width == profile.width && height == profile.height)
            && !buffer.is_dmabuf ==> r == Err::<(), ImageRefusal>(ImageRefusal::NotDmabuf),
        r is Ok <==> x == profile.x && y == profile.y && width == profile.width && height
            == profile.height && buffer.is_dmabuf && buffer.width == width as i32 && buffer.height
            == height as i32 && buffer.rgb_8888,
        r == Err::<(), ImageRefusal>(ImageRefusal::UnsupportedBuffer) <==> x == profile.x && y
            == profile.y && width == profile.width && height == profile.height && buffer.is_dmabuf
            && !(buffer.width == width as i32 && buffer.height == height as i32 && buffer.rgb_8888),
{
    if !(x == profile.x && y == profile.y && width == profile.width && height == profile.height) {
        return Err(ImageRefusal::InvalidGeometry);
    }
    if !buffer.is_dmabuf {
        return Err(ImageRefusal::NotDmabuf);
    }
    if !(buffer.width == width as i32 && buffer.height == height as i32 && buffer.rgb_8888) {
        return Err(ImageRefusal::UnsupportedBuffer);
    }
    Ok(())
}

} // verus!
