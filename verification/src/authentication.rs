//! Secure-lock authentication: the binary protocol with the lock screen,
//! its events, message sanitising and the failure cooldown.

pub mod session;
pub mod fingerprint;
pub mod settings;
pub mod laws;

use vstd::prelude::*;
use vstd::utf8::encode_utf8;
use crate::text::{
    spec_char_len, spec_utf8_len, spec_is_control, str_chars, string_from_chars, char_len,
    is_control, copy_range,
};
use crate::clipboard::protocol::{le16_bytes, le32_bytes, le64_bytes, put_u16, put_u32, put_u64, put_bytes};
use crate::clipboard::content::contains_byte;

verus! {

pub const HEADER_SIZE: usize = 24;

pub const MAX_PAYLOAD_BYTES: usize = 4096;

pub const MAX_PACKET_BYTES: usize = 4120;

pub const MAX_STATUS_BYTES: usize = 1024;

pub const MAX_PENDING_EVENTS: usize = 64;

/// How long a prompt waits for its answer: 120 seconds, in nanoseconds.
pub const PROMPT_TIMEOUT_NANOS: u64 = 120_000_000_000;

pub const BASE_COOLDOWN_MS: u64 = 750;

pub const MAX_COOLDOWN_MS: u64 = 30_000;

pub const AUTH_VERSION: u16 = 1;

pub const KIND_SYNC: u8 = 1;

pub const KIND_LOCK: u8 = 2;

pub const KIND_BEGIN: u8 = 3;

pub const KIND_RESPOND: u8 = 4;

pub const KIND_CANCEL: u8 = 5;

pub const KIND_STATE: u8 = 0x81;

pub const KIND_PROMPT: u8 = 0x82;

pub const KIND_RESULT: u8 = 0x83;

pub const KIND_FINGERPRINT_FEEDBACK: u8 = 0x84;

pub const STATE_LOCKED: u8 = 1;

pub const STATE_AVAILABLE: u8 = 2;

pub const STATE_BUSY: u8 = 4;

pub const STATE_RATE_LIMITED: u8 = 8;

pub const RESULT_SUCCESS: u8 = 16;

pub const RESULT_CANCELLED: u8 = 32;

/// "DAUT": the magic of every authentication packet.
pub open spec fn auth_magic() -> Seq<u8> {
    seq![0x44u8, 0x41, 0x55, 0x54]
}

#[derive(Clone, Copy, Debug, PartialEq, Eq, Structural)]
pub enum AuthenticationDecodeError {
    InvalidSize(usize),
    InvalidMagic,
    UnsupportedVersion(u16),
    UnsupportedKind(u8),
    InvalidFlags(u8),
    InvalidPayloadLength(u32),
    EmbeddedNul,
    UnexpectedMetadata,
}

/// A password or other secret answer. Its bytes are overwritten by `clear`.
pub struct SecureString {
    bytes: Vec<u8>,
}

impl View for SecureString {
    type V = Seq<u8>;

    closed spec fn view(&self) -> Seq<u8> {
        self.bytes@
    }
}

impl SecureString {
    pub fn new(bytes: &[u8]) -> (s: Self)
        ensures
            s@ == bytes@,
    {
        SecureString { bytes: copy_range(bytes, 0, bytes.len()) }
    }

    pub fn as_bytes(&self) -> (b: &[u8])
        ensures
            b@ == self@,
    {
        self.bytes.as_slice()
    }

    /// Overwrites the secret with zeros, then forgets it.
    pub fn clear(&mut self)
        ensures
            final(self)@ == Seq::<u8>::empty(),
    {
        let mut i: usize = 0;
        while i < self.bytes.len()
            invariant
                i <= self.bytes@.len(),
            decreases self.bytes@.len() - i,
        {
            self.bytes.set(i, 0);
            i += 1;
        }
        keep_stores(&self.bytes);
        self.bytes.clear();
    }
}

/// Calls `std::hint::black_box` on the buffer, so that the zeros written
/// into it are not dropped as dead stores before it is cleared. The call
/// changes nothing.
#[verifier::external_body]
fn keep_stores(bytes: &Vec<u8>) {
    std::hint::black_box(bytes);
}

pub enum AuthenticationCommand {
    Synchronize,
    Lock,
    Begin,
    Respond { attempt_id: u64, prompt_sequence: u32, response: SecureString },
    Cancel { attempt_id: u64 },
}

pub enum CommandModel {
    Synchronize,
    Lock,
    Begin,
    Respond { attempt_id: u64, prompt_sequence: u32, response: Seq<u8> },
    Cancel { attempt_id: u64 },
}

pub open spec fn command_model(c: AuthenticationCommand) -> CommandModel {
    match c {
        AuthenticationCommand::Synchronize => CommandModel::Synchronize,
        AuthenticationCommand::Lock => CommandModel::Lock,
        AuthenticationCommand::Begin => CommandModel::Begin,
        AuthenticationCommand::Respond { attempt_id, prompt_sequence, response } =>
            CommandModel::Respond { attempt_id, prompt_sequence, response: response@ },
        AuthenticationCommand::Cancel { attempt_id } => CommandModel::Cancel { attempt_id },
    }
}

pub open spec fn le16_at(p: Seq<u8>, i: int) -> int {
    p[i] + p[i + 1] * 0x100
}

pub open spec fn le32_at(p: Seq<u8>, i: int) -> int {
    p[i] + p[i + 1] * 0x100 + p[i + 2] * 0x10000 + p[i + 3] * 0x1000000
}

pub open spec fn le64_at(p: Seq<u8>, i: int) -> int {
    le32_at(p, i) + le32_at(p, i + 4) * 0x100000000
}

/// The command a lock-screen packet carries, or why it is refused: the
/// size, magic, version, flags and payload length are checked in turn, the
/// payload may hold no NUL, and each command admits only its own metadata.
pub open spec fn spec_decode_auth(p: Seq<u8>) -> Result<CommandModel, AuthenticationDecodeError> {
    if p.len() < HEADER_SIZE || p.len() > MAX_PACKET_BYTES {
        Err(AuthenticationDecodeError::InvalidSize(p.len() as usize))
    } else if p.subrange(0, 4) != auth_magic() {
        Err(AuthenticationDecodeError::InvalidMagic)
    } else if le16_at(p, 4) != AUTH_VERSION {
        Err(AuthenticationDecodeError::UnsupportedVersion(le16_at(p, 4) as u16))
    } else if p[7] != 0 {
        Err(AuthenticationDecodeError::InvalidFlags(p[7]))
    } else {
        let kind = p[6];
        let attempt = le64_at(p, 8);
        let argument = le32_at(p, 16);
        let length = le32_at(p, 20);
        if length > MAX_PAYLOAD_BYTES || HEADER_SIZE + length != p.len() {
            Err(AuthenticationDecodeError::InvalidPayloadLength(length as u32))
        } else {
            let payload = p.subrange(HEADER_SIZE as int, p.len() as int);
            if payload.contains(0u8) {
                Err(AuthenticationDecodeError::EmbeddedNul)
            } else if (kind == KIND_SYNC || kind == KIND_LOCK || kind == KIND_BEGIN) && attempt
                == 0 && argument == 0 && payload.len() == 0 {
                Ok(
                    if kind == KIND_SYNC {
                        CommandModel::Synchronize
                    } else if kind == KIND_LOCK {
                        CommandModel::Lock
                    } else {
                        CommandModel::Begin
                    },
                )
            } else if kind == KIND_RESPOND && attempt != 0 && argument != 0 {
                Ok(
                    CommandModel::Respond {
                        attempt_id: attempt as u64,
                        prompt_sequence: argument as u32,
                        response: payload,
                    },
                )
            } else if kind == KIND_CANCEL && argument == 0 && payload.len() == 0 {
                Ok(CommandModel::Cancel { attempt_id: attempt as u64 })
            } else if KIND_SYNC <= kind <= KIND_CANCEL {
                Err(AuthenticationDecodeError::UnexpectedMetadata)
            } else {
                Err(AuthenticationDecodeError::UnsupportedKind(kind))
            }
        }
    }
}

fn read_le32(p: &[u8], i: usize) -> (r: u32)
    requires
        i + 4 <= p@.len(),
    ensures
        r == le32_at(p@, i as int),
{
    (p[i] as u32) + (p[i + 1] as u32) * 0x100 + (p[i + 2] as u32) * 0x10000 + (p[i + 3] as u32)
        * 0x1000000
}

/// Decodes one packet from the lock screen.
pub fn decode(packet: &[u8]) -> (r: Result<AuthenticationCommand, AuthenticationDecodeError>)
    ensures
        match (r, spec_decode_auth(packet@)) {
            (Ok(c), Ok(sc)) => command_model(c) == sc,
            (Err(e), Err(se)) => e == se,
            _ => false,
        },
{
    let len = packet.len();
    if len < HEADER_SIZE || len > MAX_PACKET_BYTES {
        return Err(AuthenticationDecodeError::InvalidSize(len));
    }
    if !(packet[0] == 0x44 && packet[1] == 0x41 && packet[2] == 0x55 && packet[3] == 0x54) {
        proof {
            if packet@.subrange(0, 4) == auth_magic() {
                assert(packet@[0] == packet@.subrange(0, 4)[0]);
                assert(packet@[1] == packet@.subrange(0, 4)[1]);
                assert(packet@[2] == packet@.subrange(0, 4)[2]);
                assert(packet@[3] == packet@.subrange(0, 4)[3]);
            }
        }
        return Err(AuthenticationDecodeError::InvalidMagic);
    }
    assert(packet@.subrange(0, 4) =~= auth_magic());
    let version = (packet[4] as u16) + (packet[5] as u16) * 0x100;
    if version != AUTH_VERSION {
        return Err(AuthenticationDecodeError::UnsupportedVersion(version));
    }
    let kind = packet[6];
    let flags = packet[7];
    if flags != 0 {
        return Err(AuthenticationDecodeError::InvalidFlags(flags));
    }
    let low = read_le32(packet, 8);
    let high = read_le32(packet, 12);
    let attempt_id = (low as u64) + (high as u64) * 0x100000000;
    let argument = read_le32(packet, 16);
    let payload_length = read_le32(packet, 20);
    if payload_length as usize > MAX_PAYLOAD_BYTES || HEADER_SIZE + payload_length as usize != len {
        return Err(AuthenticationDecodeError::InvalidPayloadLength(payload_length));
    }
    let payload = copy_range(packet, HEADER_SIZE, len);
    if contains_byte(payload.as_slice(), 0) {
        return Err(AuthenticationDecodeError::EmbeddedNul);
    }
    let empty = payload.len() == 0;
    if (kind == KIND_SYNC || kind == KIND_LOCK || kind == KIND_BEGIN) && attempt_id == 0 && argument
        == 0 && empty {
        if kind == KIND_SYNC {
            Ok(AuthenticationCommand::Synchronize)
        } else if kind == KIND_LOCK {
            Ok(AuthenticationCommand::Lock)
        } else {
            Ok(AuthenticationCommand::Begin)
        }
    } else if kind == KIND_RESPOND && attempt_id != 0 && argument != 0 {
        Ok(
            AuthenticationCommand::Respond {
                attempt_id,
                prompt_sequence: argument,
                response: SecureString { bytes: payload },
            },
        )
    } else if kind == KIND_CANCEL && argument == 0 && empty {
        Ok(AuthenticationCommand::Cancel { attempt_id })
    } else if KIND_SYNC <= kind && kind <= KIND_CANCEL {
        Err(AuthenticationDecodeError::UnexpectedMetadata)
    } else {
        Err(AuthenticationDecodeError::UnsupportedKind(kind))
    }
}

#[derive(Clone, Copy, Debug, PartialEq, Eq, Structural)]
pub enum PromptStyle {
    EchoOff,
    EchoOn,
    Info,
    Error,
}

pub open spec fn prompt_style_code(style: PromptStyle) -> u8 {
    match style {
        PromptStyle::EchoOff => 1,
        PromptStyle::EchoOn => 2,
        PromptStyle::Info => 3,
        PromptStyle::Error => 4,
    }
}

impl PromptStyle {
    /// Hidden and visible prompts wait for an answer; messages do not.
    pub fn requires_response(self) -> (r: bool)
        ensures
            r == (self == PromptStyle::EchoOff || self == PromptStyle::EchoOn),
    {
        match self {
            PromptStyle::EchoOff | PromptStyle::EchoOn => true,
            _ => false,
        }
    }

    /// The wire code of the style.
    pub fn code(self) -> (r: u8)
        ensures
            r == prompt_style_code(self),
    {
        match self {
            PromptStyle::EchoOff => 1,
            PromptStyle::EchoOn => 2,
            PromptStyle::Info => 3,
            PromptStyle::Error => 4,
        }
    }
}

#[derive(Clone, Copy, Debug, PartialEq, Eq, Structural)]
pub enum BackendResult {
    Success,
    Failure,
    Cancelled,
    Error,
}

/// The authentication state as the lock screen sees it.
#[derive(Clone, Debug)]
pub struct AuthenticationSnapshot {
    pub locked: bool,
    pub available: bool,
    pub busy: bool,
    pub attempt_id: u64,
    pub cooldown_ms: u32,
    pub status_message: String,
}

#[derive(Clone, Copy, Debug, PartialEq, Eq, Structural)]
pub enum AuthenticationEventKind {
    State,
    Prompt { style: PromptStyle, sequence: u32 },
    Result { success: bool, cancelled: bool },
    FingerprintFeedback,
}

/// One event for the lock screen.
#[derive(Clone, Debug)]
pub struct AuthenticationEvent {
    pub kind: AuthenticationEventKind,
    pub state: AuthenticationSnapshot,
    pub message: String,
}

/// State flags of an event: locked, available, busy, rate limited, and for
/// prompts the style in the upper nibble, for results success and
/// cancellation.
pub open spec fn event_flags(e: AuthenticationEvent) -> u8 {
    let base = (if e.state.locked {
        STATE_LOCKED as int
    } else {
        0
    }) + (if e.state.available {
        STATE_AVAILABLE as int
    } else {
        0
    }) + (if e.state.busy {
        STATE_BUSY as int
    } else {
        0
    }) + (if e.state.cooldown_ms > 0 {
        STATE_RATE_LIMITED as int
    } else {
        0
    });
    (base + match e.kind {
        AuthenticationEventKind::Prompt { style, .. } => prompt_style_code(style) * 16,
        AuthenticationEventKind::Result { success, cancelled } => (if success {
            RESULT_SUCCESS as int
        } else {
            0
        }) + (if cancelled {
            RESULT_CANCELLED as int
        } else {
            0
        }),
        _ => 0,
    }) as u8
}

pub open spec fn event_kind_code(e: AuthenticationEvent) -> u8 {
    match e.kind {
        AuthenticationEventKind::FingerprintFeedback => KIND_FINGERPRINT_FEEDBACK,
        AuthenticationEventKind::State => KIND_STATE,
        AuthenticationEventKind::Prompt { .. } => KIND_PROMPT,
        AuthenticationEventKind::Result { .. } => KIND_RESULT,
    }
}

pub open spec fn event_argument(e: AuthenticationEvent) -> u32 {
    match e.kind {
        AuthenticationEventKind::FingerprintFeedback => 0,
        AuthenticationEventKind::State => e.state.cooldown_ms,
        AuthenticationEventKind::Prompt { sequence, .. } => sequence,
        AuthenticationEventKind::Result { .. } => e.state.cooldown_ms,
    }
}

/// The text an event carries: the status message for state events, else
/// the event's own message.
pub open spec fn event_payload(e: AuthenticationEvent) -> Seq<u8> {
    match e.kind {
        AuthenticationEventKind::State => encode_utf8(e.state.status_message@),
        _ => encode_utf8(e.message@),
    }
}

pub open spec fn spec_encode_event(e: AuthenticationEvent) -> Seq<u8> {
    auth_magic() + le16_bytes(AUTH_VERSION) + seq![event_kind_code(e), event_flags(e)] + le64_bytes(
        e.state.attempt_id,
    ) + le32_bytes(event_argument(e)) + le32_bytes(event_payload(e).len() as u32) + event_payload(
        e,
    )
}

impl AuthenticationEvent {
    fn flags(&self) -> (r: u8)
        ensures
            r == event_flags(*self),
    {
        let mut flags: u8 = 0;
        if self.state.locked {
            flags = flags + STATE_LOCKED;
        }
        if self.state.available {
            flags = flags + STATE_AVAILABLE;
        }
        if self.state.busy {
            flags = flags + STATE_BUSY;
        }
        if self.state.cooldown_ms > 0 {
            flags = flags + STATE_RATE_LIMITED;
        }
        match self.kind {
            AuthenticationEventKind::Prompt { style, .. } => {
                flags = flags + style.code() * 16;
            },
            AuthenticationEventKind::Result { success, cancelled } => {
                if success {
                    flags = flags + RESULT_SUCCESS;
                }
                if cancelled {
                    flags = flags + RESULT_CANCELLED;
                }
            },
            _ => {},
        }
        flags
    }

    fn parts(&self) -> (r: (u8, u32, &str))
        ensures
            r.0 == event_kind_code(*self),
            r.1 == event_argument(*self),
            encode_utf8(r.2@) == event_payload(*self),
    {
        match self.kind {
            AuthenticationEventKind::FingerprintFeedback => (
                KIND_FINGERPRINT_FEEDBACK,
                0u32,
                self.message.as_str(),
            ),
            AuthenticationEventKind::State => (
                KIND_STATE,
                self.state.cooldown_ms,
                self.state.status_message.as_str(),
            ),
            AuthenticationEventKind::Prompt { sequence, .. } => (
                KIND_PROMPT,
                sequence,
                self.message.as_str(),
            ),
            AuthenticationEventKind::Result { .. } => (
                KIND_RESULT,
                self.state.cooldown_ms,
                self.message.as_str(),
            ),
        }
    }

    /// The packet for the lock screen.
    pub fn encode(&self) -> (packet: Vec<u8>)
        requires
            event_payload(*self).len() <= MAX_PAYLOAD_BYTES,
        ensures
            packet@ == spec_encode_event(*self),
    {
        let flags = self.flags();
        let (kind, argument, payload) = self.parts();
        let bytes = payload.as_bytes();
        let mut packet: Vec<u8> = Vec::new();
        packet.push(0x44);
        packet.push(0x41);
        packet.push(0x55);
        packet.push(0x54);
        put_u16(&mut packet, AUTH_VERSION);
        packet.push(kind);
        packet.push(flags);
        put_u64(&mut packet, self.state.attempt_id);
        put_u32(&mut packet, argument);
        put_u32(&mut packet, bytes.len() as u32);
        put_bytes(&mut packet, bytes, bytes.len());
        assert(bytes@.take(bytes@.len() as int) =~= bytes@);
        assert(packet@ =~= spec_encode_event(*self));
        packet
    }
}

/// Failure cooldown in milliseconds: 750 ms doubled for each failure after
/// the first, at most 30 s.
pub open spec fn spec_cooldown_ms(failures: u32) -> u64 {
    let exponent: int = if failures <= 1 {
        0
    } else if failures - 1 >= 6 {
        6
    } else {
        failures - 1
    };
    let v = BASE_COOLDOWN_MS * vstd::arithmetic::power2::pow2(exponent as nat);
    if v > MAX_COOLDOWN_MS {
        MAX_COOLDOWN_MS
    } else {
        v as u64
    }
}

pub fn cooldown_for(failures: u32) -> (ms: u64)
    ensures
        ms == spec_cooldown_ms(failures),
        BASE_COOLDOWN_MS <= ms <= MAX_COOLDOWN_MS,
{
    let exponent: u32 = if failures <= 1 {
        0
    } else if failures - 1 >= 6 {
        6
    } else {
        failures - 1
    };
    proof {
        vstd::arithmetic::power2::lemma2_to64();
    }
    let factor: u64 = if exponent == 0 {
        1
    } else if exponent == 1 {
        2
    } else if exponent == 2 {
        4
    } else if exponent == 3 {
        8
    } else if exponent == 4 {
        16
    } else if exponent == 5 {
        32
    } else {
        64
    };
    let v = BASE_COOLDOWN_MS * factor;
    if v > MAX_COOLDOWN_MS {
        MAX_COOLDOWN_MS
    } else {
        v
    }
}

pub open spec fn keeps_status_char(c: char) -> bool {
    c == '\n' || c == '\t' || !spec_is_control(c)
}

/// The characters of a status message kept while they fit in 1024 bytes:
/// control characters other than newline and tab are dropped, and the text
/// ends at the first character that would not fit.
pub open spec fn status_fold(s: Seq<char>) -> (Seq<char>, bool)
    decreases s.len(),
{
    if s.len() == 0 {
        (seq![], false)
    } else {
        let (out, stopped) = status_fold(s.drop_last());
        let c = s.last();
        if stopped {
            (out, true)
        } else if spec_utf8_len(out) + spec_char_len(c) > MAX_STATUS_BYTES {
            (out, true)
        } else if keeps_status_char(c) {
            (out.push(c), false)
        } else {
            (out, false)
        }
    }
}

pub open spec fn is_trailing_blank(c: char) -> bool {
    c == '\n' || c == '\r' || c == ' '
}

pub open spec fn trim_trailing_blanks(s: Seq<char>) -> Seq<char>
    decreases s.len(),
{
    if s.len() > 0 && is_trailing_blank(s.last()) {
        trim_trailing_blanks(s.drop_last())
    } else {
        s
    }
}

/// A message shown on the lock screen, with a default for empty text.
pub open spec fn spec_sanitize_message(message: Seq<char>) -> Seq<char> {
    let s = trim_trailing_blanks(status_fold(message).0);
    if s.len() == 0 {
        "Authenticate to unlock"@
    } else {
        s
    }
}

proof fn lemma_utf8_len_push(s: Seq<char>, c: char)
    ensures
        spec_utf8_len(s.push(c)) == spec_utf8_len(s) + spec_char_len(c),
{
    assert(s.push(c).drop_last() =~= s);
}

pub fn sanitize_message(message: &str) -> (r: String)
    ensures
        r@ == spec_sanitize_message(message@),
{
    let chars = str_chars(message);
    let ghost s = chars@;
    let mut out: Vec<char> = Vec::new();
    let mut out_bytes: usize = 0;
    let mut stopped = false;
    let mut i: usize = 0;
    while i < chars.len()
        invariant
            s == chars@,
            i <= s.len(),
            status_fold(s.take(i as int)) == (out@, stopped),
            out_bytes == spec_utf8_len(out@),
            out_bytes <= MAX_STATUS_BYTES,
        decreases s.len() - i,
    {
        let c = chars[i];
        assert(s.take(i + 1).drop_last() =~= s.take(i as int));
        assert(s.take(i + 1).last() == c);
        if !stopped {
            let w = char_len(c);
            if out_bytes + w > MAX_STATUS_BYTES {
                stopped = true;
            } else if c == '\n' || c == '\t' || !is_control(c) {
                proof {
                    lemma_utf8_len_push(out@, c);
                }
                out.push(c);
                out_bytes = out_bytes + w;
            }
        }
        i += 1;
    }
    assert(s.take(s.len() as int) =~= s);
    let mut end = out.len();
    assert(out@.take(out@.len() as int) =~= out@);
    while end > 0 && (out[end - 1] == '\n' || out[end - 1] == '\r' || out[end - 1] == ' ')
        invariant
            end <= out@.len(),
            trim_trailing_blanks(out@) == trim_trailing_blanks(out@.take(end as int)),
        decreases end,
    {
        assert(out@.take(end as int).drop_last() =~= out@.take(end - 1));
        end -= 1;
    }
    if end == 0 {
        assert(out@.take(0) =~= Seq::<char>::empty());
        return String::from_str("Authenticate to unlock");
    }
    let kept = copy_range(out.as_slice(), 0, end);
    assert(kept@ =~= out@.take(end as int));
    string_from_chars(kept.as_slice())
}

} // verus!
