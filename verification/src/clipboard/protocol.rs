//! The binary control protocol between Flutter and the clipboard history:
//! little-endian framed requests and responses.

use vstd::prelude::*;
use vstd::utf8::{valid_utf8, decode_utf8, encode_utf8};
use crate::text::{utf8_string, copy_range};
use crate::clipboard::{
    ClipboardError, MAX_MIME_BYTES, MAX_QUERY_BYTES, MAX_REQUEST_BYTES, STATUS_OK, spec_status,
    spec_message,
};
use crate::clipboard::content::contains_byte;

verus! {

pub const PROTOCOL_VERSION: u16 = 1;

pub const COMMAND_SNAPSHOT: u8 = 0;

pub const COMMAND_READ: u8 = 1;

pub const COMMAND_ACTIVATE: u8 = 2;

pub const COMMAND_SET_PINNED: u8 = 3;

pub const COMMAND_DELETE: u8 = 4;

pub const COMMAND_CLEAR: u8 = 5;

pub const COMMAND_SET_PAUSED: u8 = 6;

pub const COMMAND_START_DRAG: u8 = 7;

pub const RESPONSE_ACK: u8 = 0;

pub const RESPONSE_SNAPSHOT: u8 = 1;

pub const RESPONSE_DATA: u8 = 2;

pub const RESPONSE_ERROR: u8 = 255;

/// "DCLP": the magic of every request.
pub open spec fn request_magic() -> Seq<u8> {
    seq![0x44u8, 0x43, 0x4c, 0x50]
}

/// "DCLS": the magic of every response.
pub open spec fn response_magic() -> Seq<u8> {
    seq![0x44u8, 0x43, 0x4c, 0x53]
}

/// A decoded control request.
pub enum ClipboardRequest {
    Snapshot { query: String },
    Read { item_id: u64, mime_type: String },
    Activate { item_id: u64 },
    SetPinned { item_id: u64, pinned: bool },
    Delete { item_id: u64 },
    Clear,
    SetPaused { paused: bool },
    StartDrag { item_id: u64 },
}

/// A decoded request with its strings as character sequences.
pub enum RequestModel {
    Snapshot { query: Seq<char> },
    Read { item_id: u64, mime_type: Seq<char> },
    Activate { item_id: u64 },
    SetPinned { item_id: u64, pinned: bool },
    Delete { item_id: u64 },
    Clear,
    SetPaused { paused: bool },
    StartDrag { item_id: u64 },
}

pub open spec fn request_model(r: ClipboardRequest) -> RequestModel {
    match r {
        ClipboardRequest::Snapshot { query } => RequestModel::Snapshot { query: query@ },
        ClipboardRequest::Read { item_id, mime_type } => RequestModel::Read {
            item_id,
            mime_type: mime_type@,
        },
        ClipboardRequest::Activate { item_id } => RequestModel::Activate { item_id },
        ClipboardRequest::SetPinned { item_id, pinned } => RequestModel::SetPinned {
            item_id,
            pinned,
        },
        ClipboardRequest::Delete { item_id } => RequestModel::Delete { item_id },
        ClipboardRequest::Clear => RequestModel::Clear,
        ClipboardRequest::SetPaused { paused } => RequestModel::SetPaused { paused },
        ClipboardRequest::StartDrag { item_id } => RequestModel::StartDrag { item_id },
    }
}

pub open spec fn spec_le16(p: Seq<u8>, i: int) -> int {
    p[i] + p[i + 1] * 256
}

pub open spec fn spec_le64(p: Seq<u8>, i: int) -> int {
    p[i] + p[i + 1] * 0x100 + p[i + 2] * 0x10000 + p[i + 3] * 0x1000000 + p[i + 4] * 0x100000000
        + p[i + 5] * 0x10000000000 + p[i + 6] * 0x1000000000000 + p[i + 7]
        * 0x100000000000000
}

/// A length-prefixed UTF-8 string field at `c`: its characters and the
/// cursor after it. Longer than `max` bytes is too large; truncated,
/// invalid UTF-8 or containing NUL is malformed.
pub open spec fn spec_read_string(p: Seq<u8>, c: int, max: int) -> Result<
    (Seq<char>, int),
    ClipboardError,
> {
    if c + 2 > p.len() {
        Err(ClipboardError::BadRequest)
    } else {
        let n = spec_le16(p, c);
        if n > max {
            Err(ClipboardError::TooLarge)
        } else if c + 2 + n > p.len() {
            Err(ClipboardError::BadRequest)
        } else {
            let b = p.subrange(c + 2, c + 2 + n);
            if !valid_utf8(b) || b.contains(0u8) {
                Err(ClipboardError::BadRequest)
            } else {
                Ok((decode_utf8(b), c + 2 + n))
            }
        }
    }
}

/// A non-zero little-endian `u64` at `c`, and the cursor after it.
pub open spec fn spec_read_id(p: Seq<u8>, c: int) -> Result<(u64, int), ClipboardError> {
    if c + 8 > p.len() || spec_le64(p, c) == 0 {
        Err(ClipboardError::BadRequest)
    } else {
        Ok((spec_le64(p, c) as u64, c + 8))
    }
}

/// A boolean byte (0 or 1) at `c`, and the cursor after it.
pub open spec fn spec_read_bool(p: Seq<u8>, c: int) -> Result<(bool, int), ClipboardError> {
    if c + 1 > p.len() || p[c] > 1 {
        Err(ClipboardError::BadRequest)
    } else {
        Ok((p[c] == 1, c + 1))
    }
}

/// The fields of a request after its eight-byte header.
pub open spec fn spec_decode_body(p: Seq<u8>, command: u8) -> Result<
    (RequestModel, int),
    ClipboardError,
> {
    if command == COMMAND_SNAPSHOT {
        match spec_read_string(p, 8, MAX_QUERY_BYTES as int) {
            Ok((q, c)) => Ok((RequestModel::Snapshot { query: q }, c)),
            Err(e) => Err(e),
        }
    } else if command == COMMAND_READ {
        match spec_read_id(p, 8) {
            Ok((id, c)) => match spec_read_string(p, c, MAX_MIME_BYTES as int) {
                Ok((m, c2)) => Ok((RequestModel::Read { item_id: id, mime_type: m }, c2)),
                Err(e) => Err(e),
            },
            Err(e) => Err(e),
        }
    } else if command == COMMAND_SET_PINNED {
        match spec_read_id(p, 8) {
            Ok((id, c)) => match spec_read_bool(p, c) {
                Ok((b, c2)) => Ok((RequestModel::SetPinned { item_id: id, pinned: b }, c2)),
                Err(e) => Err(e),
            },
            Err(e) => Err(e),
        }
    } else if command == COMMAND_CLEAR {
        Ok((RequestModel::Clear, 8))
    } else if command == COMMAND_SET_PAUSED {
        match spec_read_bool(p, 8) {
            Ok((b, c)) => Ok((RequestModel::SetPaused { paused: b }, c)),
            Err(e) => Err(e),
        }
    } else {
        match spec_read_id(p, 8) {
            Ok((id, c)) => Ok(
                (
                    if command == COMMAND_ACTIVATE {
                        RequestModel::Activate { item_id: id }
                    } else if command == COMMAND_DELETE {
                        RequestModel::Delete { item_id: id }
                    } else {
                        RequestModel::StartDrag { item_id: id }
                    },
                    c,
                ),
            ),
            Err(e) => Err(e),
        }
    }
}

/// The header of a well-formed request: magic, version 1, a known command
/// and a zero reserved byte.
pub open spec fn header_ok(p: Seq<u8>) -> bool {
    &&& p.len() >= 8
    &&& p.subrange(0, 4) == request_magic()
    &&& spec_le16(p, 4) == PROTOCOL_VERSION
    &&& p[6] <= COMMAND_START_DRAG
    &&& p[7] == 0
}

/// The request a packet carries, or the error it is answered with.
pub open spec fn spec_decode_request(p: Seq<u8>) -> Result<RequestModel, ClipboardError> {
    if p.len() > MAX_REQUEST_BYTES {
        Err(ClipboardError::TooLarge)
    } else if !header_ok(p) {
        Err(ClipboardError::BadRequest)
    } else {
        match spec_decode_body(p, p[6]) {
            Ok((r, c)) => if c == p.len() {
                Ok(r)
            } else {
                Err(ClipboardError::BadRequest)
            },
            Err(e) => Err(e),
        }
    }
}

fn read_le16(p: &[u8], c: usize) -> (r: u16)
    requires
        c + 2 <= p@.len(),
    ensures
        r == spec_le16(p@, c as int),
{
    (p[c] as u16) + (p[c + 1] as u16) * 256
}

pub(crate) fn read_le64(p: &[u8], c: usize) -> (r: u64)
    requires
        c + 8 <= p@.len(),
    ensures
        r == spec_le64(p@, c as int),
{
    (p[c] as u64) + (p[c + 1] as u64) * 0x100 + (p[c + 2] as u64) * 0x10000 + (p[c + 3] as u64)
        * 0x1000000 + (p[c + 4] as u64) * 0x100000000 + (p[c + 5] as u64) * 0x10000000000 + (p[c
        + 6] as u64) * 0x1000000000000 + (p[c + 7] as u64) * 0x100000000000000
}

fn read_string(p: &[u8], c: usize, max: usize) -> (r: Result<(String, usize), ClipboardError>)
    requires
        p@.len() <= MAX_REQUEST_BYTES,
        c <= p@.len(),
        max <= MAX_REQUEST_BYTES,
    ensures
        match (r, spec_read_string(p@, c as int, max as int)) {
            (Ok((s, n)), Ok((sv, sn))) => s@ == sv && n == sn,
            (Err(e), Err(se)) => e == se,
            _ => false,
        },
{
    if c + 2 > p.len() {
        return Err(ClipboardError::BadRequest);
    }
    let n = read_le16(p, c) as usize;
    if n > max {
        return Err(ClipboardError::TooLarge);
    }
    if c + 2 + n > p.len() {
        return Err(ClipboardError::BadRequest);
    }
    let bytes = copy_range(p, c + 2, c + 2 + n);
    if contains_byte(bytes.as_slice(), 0) {
        return Err(ClipboardError::BadRequest);
    }
    match utf8_string(bytes.as_slice()) {
        Some(s) => {
            proof {
                vstd::utf8::encode_utf8_decode_utf8(s@);
            }
            Ok((s, c + 2 + n))
        },
        None => Err(ClipboardError::BadRequest),
    }
}

fn read_id(p: &[u8], c: usize) -> (r: Result<(u64, usize), ClipboardError>)
    requires
        p@.len() <= MAX_REQUEST_BYTES,
        c <= p@.len(),
    ensures
        match (r, spec_read_id(p@, c as int)) {
            (Ok((v, n)), Ok((sv, sn))) => v == sv && n == sn,
            (Err(e), Err(se)) => e == se,
            _ => false,
        },
{
    if c + 8 > p.len() {
        return Err(ClipboardError::BadRequest);
    }
    let v = read_le64(p, c);
    if v == 0 {
        return Err(ClipboardError::BadRequest);
    }
    Ok((v, c + 8))
}

fn read_bool(p: &[u8], c: usize) -> (r: Result<(bool, usize), ClipboardError>)
    requires
        p@.len() <= MAX_REQUEST_BYTES,
        c <= p@.len(),
    ensures
        match (r, spec_read_bool(p@, c as int)) {
            (Ok((v, n)), Ok((sv, sn))) => v == sv && n == sn,
            (Err(e), Err(se)) => e == se,
            _ => false,
        },
{
    if c + 1 > p.len() || p[c] > 1 {
        return Err(ClipboardError::BadRequest);
    }
    Ok((p[c] == 1, c + 1))
}

fn decode_body(p: &[u8], command: u8) -> (r: Result<(ClipboardRequest, usize), ClipboardError>)
    requires
        8 <= p@.len() <= MAX_REQUEST_BYTES,
    ensures
        match (r, spec_decode_body(p@, command)) {
            (Ok((q, n)), Ok((sq, sn))) => request_model(q) == sq && n == sn,
            (Err(e), Err(se)) => e == se,
            _ => false,
        },
{
    if command == COMMAND_SNAPSHOT {
        let (query, c) = read_string(p, 8, MAX_QUERY_BYTES)?;
        Ok((ClipboardRequest::Snapshot { query }, c))
    } else if command == COMMAND_READ {
        let (item_id, c) = read_id(p, 8)?;
        let (mime_type, c2) = read_string(p, c, MAX_MIME_BYTES)?;
        Ok((ClipboardRequest::Read { item_id, mime_type }, c2))
    } else if command == COMMAND_SET_PINNED {
        let (item_id, c) = read_id(p, 8)?;
        let (pinned, c2) = read_bool(p, c)?;
        Ok((ClipboardRequest::SetPinned { item_id, pinned }, c2))
    } else if command == COMMAND_CLEAR {
        Ok((ClipboardRequest::Clear, 8))
    } else if command == COMMAND_SET_PAUSED {
        let (paused, c) = read_bool(p, 8)?;
        Ok((ClipboardRequest::SetPaused { paused }, c))
    } else {
        let (item_id, c) = read_id(p, 8)?;
        if command == COMMAND_ACTIVATE {
            Ok((ClipboardRequest::Activate { item_id }, c))
        } else if command == COMMAND_DELETE {
            Ok((ClipboardRequest::Delete { item_id }, c))
        } else {
            Ok((ClipboardRequest::StartDrag { item_id }, c))
        }
    }
}

/// Decodes one control request.
pub fn decode_request(packet: &[u8]) -> (r: Result<ClipboardRequest, ClipboardError>)
    ensures
        match (r, spec_decode_request(packet@)) {
            (Ok(q), Ok(sq)) => request_model(q) == sq,
            (Err(e), Err(se)) => e == se,
            _ => false,
        },
{
    if packet.len() > MAX_REQUEST_BYTES {
        return Err(ClipboardError::TooLarge);
    }
    if packet.len() < 8 || !(packet[0] == 0x44 && packet[1] == 0x43 && packet[2] == 0x4c
        && packet[3] == 0x50) || read_le16(packet, 4) != PROTOCOL_VERSION || packet[6]
        > COMMAND_START_DRAG || packet[7] != 0 {
        proof {
            if packet@.len() >= 8 && packet@.subrange(0, 4) == request_magic() {
                assert(packet@[0] == packet@.subrange(0, 4)[0]);
                assert(packet@[1] == packet@.subrange(0, 4)[1]);
                assert(packet@[2] == packet@.subrange(0, 4)[2]);
                assert(packet@[3] == packet@.subrange(0, 4)[3]);
            }
        }
        return Err(ClipboardError::BadRequest);
    }
    assert(packet@.subrange(0, 4) =~= request_magic());
    let (request, c) = decode_body(packet, packet[6])?;
    if c != packet.len() {
        return Err(ClipboardError::BadRequest);
    }
    Ok(request)
}

pub open spec fn le16_bytes(v: u16) -> Seq<u8> {
    seq![(v % 256) as u8, (v / 256) as u8]
}

pub open spec fn le32_bytes(v: u32) -> Seq<u8> {
    seq![(v % 0x100) as u8, ((v / 0x100) % 0x100) as u8, ((v / 0x10000) % 0x100) as u8, (v / 0x1000000) as u8]
}

pub open spec fn le64_bytes(v: u64) -> Seq<u8> {
    seq![
        (v % 0x100) as u8,
        ((v / 0x100) % 0x100) as u8,
        ((v / 0x10000) % 0x100) as u8,
        ((v / 0x1000000) % 0x100) as u8,
        ((v / 0x100000000) % 0x100) as u8,
        ((v / 0x10000000000) % 0x100) as u8,
        ((v / 0x1000000000000) % 0x100) as u8,
        (v / 0x100000000000000) as u8,
    ]
}

/// A string field: its byte length as `u16` (saturating) and at most that
/// many leading bytes.
pub open spec fn string_field(b: Seq<u8>) -> Seq<u8> {
    let n: int = if b.len() <= 0xffff {
        b.len() as int
    } else {
        0xffff
    };
    le16_bytes(n as u16) + b.take(n)
}

/// Response magic, protocol version, response kind and status.
pub open spec fn header_bytes(kind: u8, status: u8) -> Seq<u8> {
    response_magic() + le16_bytes(PROTOCOL_VERSION) + seq![kind, status]
}

pub open spec fn spec_encode_ack(revision: u64) -> Seq<u8> {
    header_bytes(RESPONSE_ACK, STATUS_OK) + le64_bytes(revision)
}

pub open spec fn spec_encode_error(e: ClipboardError) -> Seq<u8> {
    header_bytes(RESPONSE_ERROR, spec_status(e)) + string_field(encode_utf8(spec_message(e)@))
}

pub open spec fn spec_encode_data(item_id: u64, mime: Seq<char>, data: Seq<u8>) -> Seq<u8> {
    header_bytes(RESPONSE_DATA, STATUS_OK) + le64_bytes(item_id) + string_field(encode_utf8(mime))
        + le64_bytes(data.len() as u64) + data
}

pub fn put_u8(out: &mut Vec<u8>, v: u8)
    ensures
        final(out)@ == old(out)@.push(v),
{
    out.push(v);
}

pub fn put_u16(out: &mut Vec<u8>, v: u16)
    ensures
        final(out)@ == old(out)@ + le16_bytes(v),
{
    out.push((v % 256) as u8);
    out.push((v / 256) as u8);
    assert(out@ =~= old(out)@ + le16_bytes(v));
}

pub fn put_u32(out: &mut Vec<u8>, v: u32)
    ensures
        final(out)@ == old(out)@ + le32_bytes(v),
{
    out.push((v % 0x100) as u8);
    out.push(((v / 0x100) % 0x100) as u8);
    out.push(((v / 0x10000) % 0x100) as u8);
    out.push((v / 0x1000000) as u8);
    assert(out@ =~= old(out)@ + le32_bytes(v));
}

pub fn put_u64(out: &mut Vec<u8>, v: u64)
    ensures
        final(out)@ == old(out)@ + le64_bytes(v),
{
    out.push((v % 0x100) as u8);
    out.push(((v / 0x100) % 0x100) as u8);
    out.push(((v / 0x10000) % 0x100) as u8);
    out.push(((v / 0x1000000) % 0x100) as u8);
    out.push(((v / 0x100000000) % 0x100) as u8);
    out.push(((v / 0x10000000000) % 0x100) as u8);
    out.push(((v / 0x1000000000000) % 0x100) as u8);
    out.push((v / 0x100000000000000) as u8);
    assert(out@ =~= old(out)@ + le64_bytes(v));
}

pub fn put_bytes(out: &mut Vec<u8>, b: &[u8], n: usize)
    requires
        n <= b@.len(),
    ensures
        final(out)@ == old(out)@ + b@.take(n as int),
{
    let mut i: usize = 0;
    while i < n
        invariant
            i <= n <= b@.len(),
            out@ == old(out)@ + b@.take(i as int),
        decreases n - i,
    {
        out.push(b[i]);
        i += 1;
        assert(out@ =~= old(out)@ + b@.take(i as int));
    }
}

pub fn put_string(out: &mut Vec<u8>, s: &str)
    ensures
        final(out)@ == old(out)@ + string_field(encode_utf8(s@)),
{
    let b = s.as_bytes();
    let n: usize = if b.len() <= 0xffff {
        b.len()
    } else {
        0xffff
    };
    put_u16(out, n as u16);
    put_bytes(out, b, n);
    assert(out@ =~= old(out)@ + string_field(encode_utf8(s@)));
}

pub fn encode_header(kind: u8, status: u8) -> (out: Vec<u8>)
    ensures
        out@ == header_bytes(kind, status),
{
    let mut out: Vec<u8> = Vec::new();
    out.push(0x44);
    out.push(0x43);
    out.push(0x4c);
    out.push(0x53);
    put_u16(&mut out, PROTOCOL_VERSION);
    out.push(kind);
    out.push(status);
    assert(out@ =~= header_bytes(kind, status));
    out
}

pub fn encode_ack(revision: u64) -> (out: Vec<u8>)
    ensures
        out@ == spec_encode_ack(revision),
{
    let mut out = encode_header(RESPONSE_ACK, STATUS_OK);
    put_u64(&mut out, revision);
    out
}

pub fn encode_error(error: ClipboardError) -> (out: Vec<u8>)
    ensures
        out@ == spec_encode_error(error),
{
    let mut out = encode_header(RESPONSE_ERROR, error.status());
    put_string(&mut out, error.message());
    out
}

pub fn encode_data(item_id: u64, mime_type: &str, data: &[u8]) -> (out: Vec<u8>)
    ensures
        out@ == spec_encode_data(item_id, mime_type@, data@),
{
    let mut out = encode_header(RESPONSE_DATA, STATUS_OK);
    put_u64(&mut out, item_id);
    put_string(&mut out, mime_type);
    put_u64(&mut out, data.len() as u64);
    put_bytes(&mut out, data, data.len());
    assert(data@.take(data@.len() as int) =~= data@);
    out
}

} // verus!
