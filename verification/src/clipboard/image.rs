//! Header-only dimension probes for the image formats that clipboard history
//! retains (PNG, JPEG and WebP). A probe never decodes pixels; it walks the
//! container structure and reports the declared width and height.

use vstd::prelude::*;

verus! {

pub const MAX_IMAGE_DIMENSION: u32 = 16_384;

pub const MAX_IMAGE_PIXELS: u64 = 64 * 1024 * 1024;

pub open spec fn spec_be16(d: Seq<u8>, i: int) -> int {
    d[i] * 256 + d[i + 1]
}

pub open spec fn spec_be32(d: Seq<u8>, i: int) -> int {
    d[i] * 16777216 + d[i + 1] * 65536 + d[i + 2] * 256 + d[i + 3]
}

pub open spec fn spec_le16(d: Seq<u8>, i: int) -> int {
    d[i] + d[i + 1] * 256
}

pub open spec fn spec_le24(d: Seq<u8>, i: int) -> int {
    d[i] + d[i + 1] * 256 + d[i + 2] * 65536
}

pub open spec fn spec_le32(d: Seq<u8>, i: int) -> int {
    d[i] + d[i + 1] * 256 + d[i + 2] * 65536 + d[i + 3] * 16777216
}

/// Four bytes of `d` starting at `i` spell `tag`.
pub open spec fn tag_at(d: Seq<u8>, i: int, tag: Seq<u8>) -> bool {
    0 <= i && i + 4 <= d.len() && d.subrange(i, i + 4) == tag
}

pub open spec fn png_signature() -> Seq<u8> {
    seq![0x89u8, 0x50, 0x4e, 0x47, 0x0d, 0x0a, 0x1a, 0x0a]
}

pub open spec fn tag_ihdr() -> Seq<u8> {
    seq![0x49u8, 0x48, 0x44, 0x52]
}

pub open spec fn tag_iend() -> Seq<u8> {
    seq![0x49u8, 0x45, 0x4e, 0x44]
}

/// The PNG chunk walk from `cursor`, with the IHDR dimensions found so far.
/// A PNG starts with IHDR (13 bytes) and ends with an empty IEND chunk that
/// closes the file exactly; chunks that overrun the data are rejected.
pub open spec fn png_walk(d: Seq<u8>, cursor: int, dims: Option<(u32, u32)>) -> Option<(u32, u32)>
    decreases d.len() - cursor,
{
    if cursor < 0 || cursor + 12 > d.len() {
        None
    } else {
        let length = spec_be32(d, cursor);
        let chunk_end = cursor + 12 + length;
        if chunk_end > d.len() {
            None
        } else if dims is None && (!tag_at(d, cursor + 4, tag_ihdr()) || length != 13) {
            None
        } else {
            let found = if dims is None {
                Some((spec_be32(d, cursor + 8) as u32, spec_be32(d, cursor + 12) as u32))
            } else {
                dims
            };
            if tag_at(d, cursor + 4, tag_iend()) {
                if length != 0 || chunk_end != d.len() {
                    None
                } else {
                    found
                }
            } else {
                png_walk(d, chunk_end, found)
            }
        }
    }
}

pub open spec fn spec_png_dimensions(d: Seq<u8>) -> Option<(u32, u32)> {
    if d.len() >= 8 && d.subrange(0, 8) == png_signature() {
        png_walk(d, 8, None)
    } else {
        None
    }
}

/// First index at or after `cursor` that does not hold a 0xff fill byte.
pub open spec fn skip_fill(d: Seq<u8>, cursor: int) -> int
    decreases d.len() - cursor,
{
    if 0 <= cursor < d.len() && d[cursor] == 0xff {
        skip_fill(d, cursor + 1)
    } else {
        cursor
    }
}

/// JPEG start-of-frame markers that carry the frame dimensions.
pub open spec fn is_sof_marker(m: u8) -> bool {
    m == 0xc0 || m == 0xc1 || m == 0xc2 || m == 0xc3 || m == 0xc5 || m == 0xc6 || m == 0xc7 || m
        == 0xc9 || m == 0xca || m == 0xcb || m == 0xcd || m == 0xce || m == 0xcf
}

/// The JPEG marker walk from `cursor`: fill bytes are skipped, standalone
/// markers carry no length, the scan or end marker stops the walk, and the
/// first start-of-frame segment yields (width, height).
pub open spec fn jpeg_walk(d: Seq<u8>, cursor: int) -> Option<(u32, u32)>
    decreases d.len() - cursor,
{
    if cursor < 0 || cursor + 1 >= d.len() {
        None
    } else {
        let at = skip_fill(d, cursor);
        if at >= d.len() || at < cursor {
            None
        } else {
            let marker = d[at];
            let next = at + 1;
            if marker == 0xd9 || marker == 0xda {
                None
            } else if marker == 0x01 || (0xd0 <= marker && marker <= 0xd7) {
                jpeg_walk(d, next)
            } else if next + 2 > d.len() {
                None
            } else {
                let segment_len = spec_be16(d, next);
                let segment_end = next + segment_len;
                if segment_len < 2 || segment_end > d.len() {
                    None
                } else if is_sof_marker(marker) {
                    if segment_len < 7 {
                        None
                    } else {
                        Some((spec_be16(d, next + 5) as u32, spec_be16(d, next + 3) as u32))
                    }
                } else {
                    jpeg_walk(d, segment_end)
                }
            }
        }
    }
}

pub open spec fn spec_jpeg_dimensions(d: Seq<u8>) -> Option<(u32, u32)> {
    if d.len() >= 4 && d[0] == 0xff && d[1] == 0xd8 && d[d.len() - 2] == 0xff && d[d.len() - 1]
        == 0xd9 {
        jpeg_walk(d, 2)
    } else {
        None
    }
}

pub open spec fn tag_riff() -> Seq<u8> {
    seq![0x52u8, 0x49, 0x46, 0x46]
}

pub open spec fn tag_webp() -> Seq<u8> {
    seq![0x57u8, 0x45, 0x42, 0x50]
}

pub open spec fn tag_vp8x() -> Seq<u8> {
    seq![0x56u8, 0x50, 0x38, 0x58]
}

pub open spec fn tag_vp8l() -> Seq<u8> {
    seq![0x56u8, 0x50, 0x38, 0x4c]
}

pub open spec fn tag_vp8() -> Seq<u8> {
    seq![0x56u8, 0x50, 0x38, 0x20]
}

/// Dimensions declared by one WebP chunk whose payload starts at `p` and
/// holds `len` bytes, if it is a VP8X, lossless VP8L or lossy VP8 header.
pub open spec fn webp_chunk_dimensions(d: Seq<u8>, kind_at: int, p: int, len: int) -> Option<
    (u32, u32),
> {
    if tag_at(d, kind_at, tag_vp8x()) && len >= 10 {
        Some(((1 + spec_le24(d, p + 4)) as u32, (1 + spec_le24(d, p + 7)) as u32))
    } else if tag_at(d, kind_at, tag_vp8l()) && len >= 5 && d[p] == 0x2f {
        let bits = spec_le32(d, p + 1) as u32;
        Some(((1 + (bits & 0x3fff)) as u32, (1 + ((bits >> 14u32) & 0x3fff)) as u32))
    } else if tag_at(d, kind_at, tag_vp8()) && len >= 10 && d[p + 3] == 0x9d && d[p + 4] == 0x01
        && d[p + 5] == 0x2a {
        Some(
            (
                ((spec_le16(d, p + 6) as u32) & 0x3fff) as u32,
                ((spec_le16(d, p + 8) as u32) & 0x3fff) as u32,
            ),
        )
    } else {
        None
    }
}

/// The RIFF chunk walk from `cursor`; odd-sized payloads carry one pad byte.
pub open spec fn webp_walk(d: Seq<u8>, cursor: int) -> Option<(u32, u32)>
    decreases d.len() - cursor,
{
    if cursor < 0 || cursor + 8 > d.len() {
        None
    } else {
        let length = spec_le32(d, cursor + 4);
        let payload_end = cursor + 8 + length;
        if payload_end > d.len() {
            None
        } else {
            let found = webp_chunk_dimensions(d, cursor, cursor + 8, length);
            if found is Some {
                found
            } else if payload_end + (length % 2) > d.len() {
                None
            } else {
                webp_walk(d, payload_end + (length % 2))
            }
        }
    }
}

pub open spec fn spec_webp_dimensions(d: Seq<u8>) -> Option<(u32, u32)> {
    if d.len() < 20 || !tag_at(d, 0, tag_riff()) || !tag_at(d, 8, tag_webp()) {
        None
    } else if spec_le32(d, 4) + 8 != d.len() {
        None
    } else {
        webp_walk(d, 12)
    }
}

/// Images must be non-empty, at most 16384 pixels on each side and at most
/// 64 Mi pixels in area.
pub open spec fn spec_valid_image_dimensions(dims: (u32, u32)) -> bool {
    dims.0 > 0 && dims.1 > 0 && dims.0 <= MAX_IMAGE_DIMENSION && dims.1 <= MAX_IMAGE_DIMENSION
        && dims.0 * dims.1 <= MAX_IMAGE_PIXELS
}

fn be16(d: &[u8], i: usize) -> (r: u32)
    requires
        i + 2 <= d@.len(),
    ensures
        r == spec_be16(d@, i as int),
{
    (d[i] as u32) * 256 + (d[i + 1] as u32)
}

fn be32(d: &[u8], i: usize) -> (r: u32)
    requires
        i + 4 <= d@.len(),
    ensures
        r == spec_be32(d@, i as int),
{
    (d[i] as u32) * 16777216 + (d[i + 1] as u32) * 65536 + (d[i + 2] as u32) * 256 + (d[i
        + 3] as u32)
}

fn le16(d: &[u8], i: usize) -> (r: u32)
    requires
        i + 2 <= d@.len(),
    ensures
        r == spec_le16(d@, i as int),
{
    (d[i] as u32) + (d[i + 1] as u32) * 256
}

/// Little-endian 24-bit value at `i`.
pub fn read_u24_le(d: &[u8], i: usize) -> (r: u32)
    requires
        i + 3 <= d@.len(),
    ensures
        r == spec_le24(d@, i as int),
        r < 16777216,
{
    (d[i] as u32) + (d[i + 1] as u32) * 256 + (d[i + 2] as u32) * 65536
}

fn le32(d: &[u8], i: usize) -> (r: u32)
    requires
        i + 4 <= d@.len(),
    ensures
        r == spec_le32(d@, i as int),
{
    (d[i] as u32) + (d[i + 1] as u32) * 256 + (d[i + 2] as u32) * 65536 + (d[i + 3] as u32)
        * 16777216
}

fn tag_is(d: &[u8], i: usize, a: u8, b: u8, c: u8, e: u8) -> (r: bool)
    requires
        i + 4 <= d@.len(),
    ensures
        r == tag_at(d@, i as int, seq![a, b, c, e]),
{
    let r = d[i] == a && d[i + 1] == b && d[i + 2] == c && d[i + 3] == e;
    assert(r ==> d@.subrange(i as int, i + 4) =~= seq![a, b, c, e]);
    assert(!r ==> d@.subrange(i as int, i + 4) != seq![a, b, c, e]) by {
        if !r {
            let s = d@.subrange(i as int, i + 4);
            assert(s[0] == d@[i as int] && s[1] == d@[i + 1] && s[2] == d@[i + 2] && s[3] == d@[i
                + 3]);
        }
    }
    r
}

/// Width and height declared by a PNG's IHDR chunk, for a structurally
/// complete PNG chunk stream.
pub fn png_dimensions(data: &[u8]) -> (r: Option<(u32, u32)>)
    ensures
        r == spec_png_dimensions(data@),
{
    let len = data.len();
    if len < 8 || !(data[0] == 0x89 && data[1] == 0x50 && data[2] == 0x4e && data[3] == 0x47
        && data[4] == 0x0d && data[5] == 0x0a && data[6] == 0x1a && data[7] == 0x0a) {
        proof {
            if len >= 8 {
                let s = data@.subrange(0, 8);
                assert(s[0] == data@[0] && s[1] == data@[1] && s[2] == data@[2] && s[3] == data@[3]
                    && s[4] == data@[4] && s[5] == data@[5] && s[6] == data@[6] && s[7]
                    == data@[7]);
            }
        }
        return None;
    }
    assert(data@.subrange(0, 8) =~= png_signature());
    let mut cursor: usize = 8;
    let mut dims: Option<(u32, u32)> = None;
    while cursor <= len && len - cursor >= 12
        invariant
            len == data@.len(),
            cursor <= len,
            spec_png_dimensions(data@) == png_walk(data@, cursor as int, dims),
        decreases len - cursor,
    {
        let length = be32(data, cursor);
        if (len - cursor - 12) < length as usize {
            return None;
        }
        let chunk_end = cursor + 12 + length as usize;
        let is_ihdr = tag_is(data, cursor + 4, 0x49, 0x48, 0x44, 0x52);
        if dims.is_none() && (!is_ihdr || length != 13) {
            return None;
        }
        let found = match dims {
            None => Some((be32(data, cursor + 8), be32(data, cursor + 12))),
            Some(d) => Some(d),
        };
        if tag_is(data, cursor + 4, 0x49, 0x45, 0x4e, 0x44) {
            if length != 0 || chunk_end != len {
                return None;
            }
            return found;
        }
        cursor = chunk_end;
        dims = found;
    }
    None
}

/// Width and height of the first start-of-frame segment of a JPEG that is
/// framed by start-of-image and end-of-image markers.
pub fn jpeg_dimensions(data: &[u8]) -> (r: Option<(u32, u32)>)
    ensures
        r == spec_jpeg_dimensions(data@),
{
    let len = data.len();
    if len < 4 || data[0] != 0xff || data[1] != 0xd8 || data[len - 2] != 0xff || data[len - 1]
        != 0xd9 {
        return None;
    }
    let mut cursor: usize = 2;
    while cursor < len - 1
        invariant
            len == data@.len(),
            2 <= cursor <= len,
            spec_jpeg_dimensions(data@) == jpeg_walk(data@, cursor as int),
        decreases len - cursor,
    {
        let start = cursor;
        let mut at = cursor;
        while at < len && data[at] == 0xff
            invariant
                len == data@.len(),
                start <= at <= len,
                skip_fill(data@, start as int) == skip_fill(data@, at as int),
            decreases len - at,
        {
            at += 1;
        }
        if at >= len {
            return None;
        }
        let marker = data[at];
        let next = at + 1;
        if marker == 0xd9 || marker == 0xda {
            return None;
        }
        if marker == 0x01 || (0xd0 <= marker && marker <= 0xd7) {
            cursor = next;
            continue;
        }
        if len - next < 2 {
            return None;
        }
        let segment_len = be16(data, next) as usize;
        if segment_len < 2 || segment_len > len - next {
            return None;
        }
        let segment_end = next + segment_len;
        if marker == 0xc0 || marker == 0xc1 || marker == 0xc2 || marker == 0xc3 || marker == 0xc5
            || marker == 0xc6 || marker == 0xc7 || marker == 0xc9 || marker == 0xca || marker
            == 0xcb || marker == 0xcd || marker == 0xce || marker == 0xcf {
            if segment_len < 7 {
                return None;
            }
            let height = be16(data, next + 3);
            let width = be16(data, next + 5);
            return Some((width, height));
        }
        cursor = segment_end;
    }
    None
}

/// Width and height from the first VP8X, VP8L or VP8 chunk of a RIFF WebP
/// whose RIFF size matches the data exactly.
pub fn webp_dimensions(data: &[u8]) -> (r: Option<(u32, u32)>)
    ensures
        r == spec_webp_dimensions(data@),
{
    let len = data.len();
    if len < 20 || !tag_is(data, 0, 0x52, 0x49, 0x46, 0x46) || !tag_is(
        data,
        8,
        0x57,
        0x45,
        0x42,
        0x50,
    ) {
        return None;
    }
    let riff_size = le32(data, 4) as usize;
    if riff_size > len || len - riff_size != 8 {
        return None;
    }
    let mut cursor: usize = 12;
    while cursor <= len && len - cursor >= 8
        invariant
            len == data@.len(),
            cursor <= len,
            spec_webp_dimensions(data@) == webp_walk(data@, cursor as int),
        decreases len - cursor,
    {
        let length = le32(data, cursor + 4) as usize;
        if length > len - cursor - 8 {
            return None;
        }
        let p = cursor + 8;
        let payload_end = p + length;
        if tag_is(data, cursor, 0x56, 0x50, 0x38, 0x58) && length >= 10 {
            return Some((1 + read_u24_le(data, p + 4), 1 + read_u24_le(data, p + 7)));
        }
        if tag_is(data, cursor, 0x56, 0x50, 0x38, 0x4c) && length >= 5 && data[p] == 0x2f {
            let bits = le32(data, p + 1);
            assert((bits & 0x3fff) <= 0x3fff && ((bits >> 14u32) & 0x3fff) <= 0x3fff) by (bit_vector);
            return Some((1 + (bits & 0x3fff), 1 + ((bits >> 14u32) & 0x3fff)));
        }
        if tag_is(data, cursor, 0x56, 0x50, 0x38, 0x20) && length >= 10 && data[p + 3] == 0x9d
            && data[p + 4] == 0x01 && data[p + 5] == 0x2a {
            return Some((le16(data, p + 6) & 0x3fff, le16(data, p + 8) & 0x3fff));
        }
        let pad = length % 2;
        if payload_end > len - pad {
            return None;
        }
        cursor = payload_end + pad;
    }
    None
}

pub fn valid_image_dimensions(dims: (u32, u32)) -> (r: bool)
    ensures
        r == spec_valid_image_dimensions(dims),
{
    let (width, height) = dims;
    if width == 0 || height == 0 || width > MAX_IMAGE_DIMENSION || height > MAX_IMAGE_DIMENSION {
        return false;
    }
    assert((width as int) * (height as int) <= 16384 * 16384) by (nonlinear_arith)
        requires
            width <= 16384,
            height <= 16384,
    ;
    (width as u64) * (height as u64) <= MAX_IMAGE_PIXELS
}

} // verus!
