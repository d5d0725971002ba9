//! Tolerant BMP decoding: repairs a file whose header `bfOffBits` (the
//! offset of the pixel data) is garbage, then decodes again.
//!
//! The standard decoder trusts `bfOffBits`; some tools write a bogus value
//! (pointing into the middle of the image), so reading the pixel stream hits
//! the end of the file. This module only steps in after a normal decode has
//! failed: when the offset is provably wrong, it rewrites the header with
//! each candidate offset in turn and keeps the first one the decoder accepts.

use crate::imaging::{bmp_decoded, decode_bmp, image_parts};
use image::DynamicImage;
use vstd::prelude::*;

verus! {

/// The 14-byte file header plus the longest DIB field the repair reads
/// (`clrUsed`, inside the 40-byte info header).
pub const HEAD_LEN: usize = 54;

/// Repair needs the whole file in memory; larger files are left alone.
pub const MAX_REPAIR_SIZE: u64 = 536870912;

// ----- little-endian fields -----

pub open spec fn spec_u16_le(d: Seq<u8>, i: int) -> int {
    d[i] + 256 * d[i + 1]
}

pub open spec fn spec_u32_le(d: Seq<u8>, i: int) -> int {
    d[i] + 256 * d[i + 1] + 65536 * d[i + 2] + 16777216 * d[i + 3]
}

/// The two's-complement reading of the 32-bit little-endian field at `i`.
pub open spec fn spec_i32_le(d: Seq<u8>, i: int) -> int {
    let u = spec_u32_le(d, i);
    if u < 0x8000_0000 {
        u
    } else {
        u - 0x1_0000_0000
    }
}

fn read_u16_le(d: &[u8], i: usize) -> (v: u16)
    requires
        i + 2 <= d@.len(),
    ensures
        v == spec_u16_le(d@, i as int),
{
    d[i] as u16 + 256 * (d[i + 1] as u16)
}

fn read_u32_le(d: &[u8], i: usize) -> (v: u32)
    requires
        i + 4 <= d@.len(),
    ensures
        v == spec_u32_le(d@, i as int),
{
    d[i] as u32 + 256 * (d[i + 1] as u32) + 65536 * (d[i + 2] as u32) + 16777216 * (d[i + 3] as u32)
}

fn read_i32_le(d: &[u8], i: usize) -> (v: i32)
    requires
        i + 4 <= d@.len(),
    ensures
        v == spec_i32_le(d@, i as int),
{
    let u = read_u32_le(d, i);
    if u < 0x8000_0000 {
        u as i32
    } else {
        (u as i64 - 0x1_0000_0000i64) as i32
    }
}

// ----- header fields -----

/// The fields of the header that the repair reads.
#[derive(Clone, Copy, PartialEq, Eq, Structural, Debug)]
pub struct BmpFields {
    /// `bfOffBits`: where the header says the pixel data starts.
    pub pixel_offset: u32,
    /// Size of the DIB header (12 for `BITMAPCOREHEADER`).
    pub dib_size: u32,
    pub width: i32,
    pub height: i32,
    pub bpp: u16,
    pub compression: u32,
}

/// The header fields as they stand in `d`: `BITMAPCOREHEADER` (DIB size 12)
/// has narrower fields and no compression (always `BI_RGB`).
pub open spec fn spec_bmp_fields(d: Seq<u8>) -> BmpFields {
    let dib = spec_u32_le(d, 14);
    if dib == 12 {
        BmpFields {
            pixel_offset: spec_u32_le(d, 10) as u32,
            dib_size: dib as u32,
            width: spec_u16_le(d, 18) as i32,
            height: spec_u16_le(d, 20) as i32,
            bpp: spec_u16_le(d, 24) as u16,
            compression: 0,
        }
    } else {
        BmpFields {
            pixel_offset: spec_u32_le(d, 10) as u32,
            dib_size: dib as u32,
            width: spec_i32_le(d, 18) as i32,
            height: spec_i32_le(d, 22) as i32,
            bpp: spec_u16_le(d, 28) as u16,
            compression: spec_u32_le(d, 30) as u32,
        }
    }
}

fn read_bmp_fields(d: &[u8]) -> (f: BmpFields)
    requires
        d@.len() >= HEAD_LEN,
    ensures
        f == spec_bmp_fields(d@),
{
    let pixel_offset = read_u32_le(d, 10);
    let dib_size = read_u32_le(d, 14);
    if dib_size == 12 {
        BmpFields {
            pixel_offset,
            dib_size,
            width: read_u16_le(d, 18) as i32,
            height: read_u16_le(d, 20) as i32,
            bpp: read_u16_le(d, 24),
            compression: 0,
        }
    } else {
        BmpFields {
            pixel_offset,
            dib_size,
            width: read_i32_le(d, 18),
            height: read_i32_le(d, 22),
            bpp: read_u16_le(d, 28),
            compression: read_u32_le(d, 30),
        }
    }
}

// ----- palette -----

/// Bytes between the DIB header and the pixel data: the `BI_BITFIELDS` masks
/// plus the colour table. A core header has no `clrUsed` and a fixed
/// `2^bpp` table of 3-byte entries; otherwise entries are 4 bytes and their
/// count is `clrUsed` (bytes 46..50), or `2^bpp` when that is 0.
pub open spec fn spec_palette_size(dib_size: u32, bpp: u16, compression: u32, head: Seq<u8>) -> int {
    let mask: int = if (compression == 3 || compression == 6) && (bpp == 16 || bpp == 32) {
        12
    } else {
        0
    };
    let table: int = if dib_size == 12 {
        if bpp <= 8 {
            3 * (1u64 << bpp)
        } else {
            0
        }
    } else if bpp <= 8 {
        let clr_used = if head.len() >= 50 {
            spec_u32_le(head, 46)
        } else {
            0
        };
        4 * (if clr_used == 0 {
            (1u64 << bpp) as int
        } else {
            clr_used
        })
    } else {
        0
    };
    mask + table
}

pub fn palette_size(dib_size: u32, bpp: u16, compression: u32, head: &[u8]) -> (size: u64)
    ensures
        size == spec_palette_size(dib_size, bpp, compression, head@),
        size <= 12 + 4 * 0xFFFF_FFFFu64,
{
    let mask: u64 = if (compression == 3 || compression == 6) && (bpp == 16 || bpp == 32) {
        12
    } else {
        0
    };
    let table: u64 = if dib_size == 12 {
        if bpp <= 8 {
            let b = bpp as u64;
            assert(b <= 8 ==> (1u64 << b) <= 256) by (bit_vector);
            3 * (1u64 << b)
        } else {
            0
        }
    } else if bpp <= 8 {
        let clr_used: u32 = if head.len() >= 50 {
            read_u32_le(head, 46)
        } else {
            0
        };
        let b = bpp as u64;
        assert(b <= 8 ==> (1u64 << b) <= 256) by (bit_vector);
        let entries: u64 = if clr_used == 0 {
            1u64 << b
        } else {
            clr_used as u64
        };
        4 * entries
    } else {
        0
    };
    mask + table
}

// ----- candidate offsets -----

pub open spec fn strictly_ascending(s: Seq<u64>) -> bool {
    forall|i: int, j: int| 0 <= i < j < s.len() ==> s[i] < s[j]
}

/// `a`, `b`, `c` sorted ascending, each value once.
fn sorted_distinct3(a: u64, b: u64, c: u64) -> (s: Vec<u64>)
    ensures
        strictly_ascending(s@),
        s@.to_set() == set![a, b, c],
{
    let (x, y) = if a <= b {
        (a, b)
    } else {
        (b, a)
    };
    let (lo, mid, hi) = if c <= x {
        (c, x, y)
    } else if c <= y {
        (x, c, y)
    } else {
        (x, y, c)
    };
    let mut s: Vec<u64> = Vec::new();
    s.push(lo);
    if mid != lo {
        s.push(mid);
    }
    if hi != mid {
        s.push(hi);
    }
    proof {
        assert(s@.to_set() =~= set![a, b, c]) by {
            assert forall|v: u64| s@.to_set().contains(v) <==> set![a, b, c].contains(v) by {
                if set![a, b, c].contains(v) {
                    if v == lo {
                        assert(s@[0] == v);
                    } else if v == mid {
                        assert(s@[1] == v);
                    } else {
                        assert(s@[s@.len() - 1] == v);
                    }
                }
                if s@.to_set().contains(v) {
                    let k = choose|k: int| 0 <= k < s@.len() && s@[k] == v;
                }
            }
        }
    }
    s
}

/// What the repair has worked out from the header before it tries anything.
pub struct RepairPlan {
    /// Exact size of the uncompressed pixel stream.
    pub pixel_size: u64,
    /// End of the file header plus the DIB header.
    pub header_end: u64,
    /// Offsets to try, ascending, each once.
    pub candidates: Vec<u64>,
}

/// The three offsets worth trying: past the header and the palette / masks
/// (right for most files), the classic 54, and the bare header end.
pub open spec fn candidate_set(d: Seq<u8>) -> Set<u64> {
    let f = spec_bmp_fields(d);
    let header_end = 14 + f.dib_size;
    set![
        (header_end + spec_palette_size(f.dib_size, f.bpp, f.compression, d)) as u64,
        54u64,
        header_end as u64,
    ]
}

pub open spec fn abs(v: int) -> int {
    if v < 0 {
        -v
    } else {
        v
    }
}

/// Rows are padded to 4 bytes: `ceil(width * bpp / 32) * 4` bytes each.
pub open spec fn spec_pixel_size(f: BmpFields) -> int {
    ((f.width * f.bpp + 31) / 32) * 4 * abs(f.height as int)
}

/// The repair applies: the file is within the size limits, starts with
/// `BM`, has a plausible DIB header and image size, is uncompressed (only
/// then can the pixel stream size be checked), its pixel stream size fits a
/// `usize`, and its stated offset leaves no room for the whole pixel stream
/// (otherwise something else made the decode fail).
pub open spec fn repair_applies(d: Seq<u8>) -> bool {
    let f = spec_bmp_fields(d);
    &&& HEAD_LEN <= d.len() <= MAX_REPAIR_SIZE
    &&& d[0] == 0x42u8 && d[1] == 0x4du8
    &&& 12 <= f.dib_size <= 124
    &&& 0 < f.width <= 0xFFFF
    &&& f.height != 0 && abs(f.height as int) <= 0xFFFF
    &&& (f.compression == 0 || f.compression == 3)
    &&& spec_pixel_size(f) <= usize::MAX
    &&& f.pixel_offset + spec_pixel_size(f) > d.len()
}

/// An uncompressed file (`BI_RGB`, 0, or `BI_BITFIELDS`, 3) that starts
/// with `BM`, fits the size limits, has a DIB header of 12 to 124 bytes and
/// a size within 1..=65535 by 1..=65535 (either row order), whose padded
/// rows fit a `usize`, and whose stated offset leaves no room for those
/// rows, is repaired: the plan applies.
pub proof fn lemma_uncompressed_files_are_repaired(d: Seq<u8>)
    requires
        54 <= d.len() <= 536870912,
        d[0] == 0x42u8,
        d[1] == 0x4du8,
        12 <= spec_bmp_fields(d).dib_size <= 124,
        spec_bmp_fields(d).compression == 0 || spec_bmp_fields(d).compression == 3,
        1 <= spec_bmp_fields(d).width <= 65535,
        1 <= spec_bmp_fields(d).height <= 65535 || -65535 <= spec_bmp_fields(d).height <= -1,
        ({
            let f = spec_bmp_fields(d);
            let row_bytes = 4 * ((f.width * f.bpp + 31) / 32);
            let rows = if f.height < 0 { -f.height } else { f.height as int };
            &&& row_bytes * rows <= usize::MAX
            &&& f.pixel_offset + row_bytes * rows > d.len()
        }),
    ensures
        repair_applies(d),
{
    let f = spec_bmp_fields(d);
    let row_bytes = 4 * ((f.width * f.bpp + 31) / 32);
    let rows = abs(f.height as int);
    assert(f.width * f.bpp <= 65535 * 65535) by (nonlinear_arith)
        requires
            1 <= f.width <= 65535,
            0 <= f.bpp <= 65535,
    ;
    assert(row_bytes * rows <= 0x2_0000_0000 * 65535) by (nonlinear_arith)
        requires
            row_bytes <= 0x2_0000_0000,
            0 <= row_bytes,
            rows <= 65535,
            0 <= rows,
    ;
    assert(spec_pixel_size(f) == row_bytes * rows) by (nonlinear_arith)
        requires
            spec_pixel_size(f) == ((f.width * f.bpp + 31) / 32) * 4 * rows,
            row_bytes == 4 * ((f.width * f.bpp + 31) / 32),
    ;
}

/// Works out the pixel stream size and the offsets to try; `None` when the
/// repair does not apply.
pub fn bmp_repair_plan(data: &[u8]) -> (res: Option<RepairPlan>)
    ensures
        res is Some <==> repair_applies(data@),
        res matches Some(plan) ==> {
            let f = spec_bmp_fields(data@);
            &&& plan.pixel_size == spec_pixel_size(f)
            &&& plan.header_end == 14 + f.dib_size
            &&& strictly_ascending(plan.candidates@)
            &&& plan.candidates@.to_set() == candidate_set(data@)
        },
{
    let n = data.len();
    if (n as u64) < HEAD_LEN as u64 || (n as u64) > MAX_REPAIR_SIZE {
        return None;
    }
    if data[0] != 0x42u8 || data[1] != 0x4du8 {
        return None;
    }
    let f = read_bmp_fields(data);
    if f.dib_size < 12 || f.dib_size > 124 {
        return None;
    }
    if f.width <= 0 || f.height == 0 || f.width > 0xFFFF {
        return None;
    }
    let abs_height: u64 = if f.height < 0 {
        if f.height < -0xFFFF {
            return None;
        }
        (-(f.height as i64)) as u64
    } else {
        if f.height > 0xFFFF {
            return None;
        }
        f.height as u64
    };
    if f.compression != 0 && f.compression != 3 {
        return None;
    }
    let w = f.width as u64;
    assert(w * (f.bpp as u64) <= 0xFFFF * 0xFFFF) by (nonlinear_arith)
        requires
            w <= 0xFFFF,
            f.bpp <= 0xFFFF,
    ;
    let bits = w * (f.bpp as u64);
    let row: u64 = ((bits + 31) / 32) * 4;
    assert(row * abs_height <= 0x2_0000_0000 * 0xFFFF) by (nonlinear_arith)
        requires
            row <= 0x2_0000_0000,
            abs_height <= 0xFFFF,
    ;
    let pixel_size: u64 = row * abs_height;
    assert(pixel_size == spec_pixel_size(f));
    if pixel_size > usize::MAX as u64 {
        return None;
    }
    if (f.pixel_offset as u64) + pixel_size <= n as u64 {
        return None;
    }
    let header_end: u64 = 14 + f.dib_size as u64;
    let palette = palette_size(f.dib_size, f.bpp, f.compression, data);
    let candidates = sorted_distinct3(header_end + palette, 54, header_end);
    Some(RepairPlan { pixel_size, header_end, candidates })
}

// ----- header rewrite -----

/// `v` as four little-endian bytes.
pub open spec fn u32_le_bytes(v: u32) -> Seq<u8> {
    seq![(v % 256) as u8, ((v / 256) % 256) as u8, ((v / 65536) % 256) as u8, (v / 16777216) as u8]
}

/// `d` with bytes 10..14 (`bfOffBits`) replaced by `offset`.
pub open spec fn with_pixel_offset(d: Seq<u8>, offset: u32) -> Seq<u8> {
    d.subrange(0, 10) + u32_le_bytes(offset) + d.subrange(14, d.len() as int)
}

/// Rewrites `bfOffBits` in place.
pub fn set_pixel_offset(data: &mut Vec<u8>, offset: u32)
    requires
        old(data)@.len() >= 14,
    ensures
        final(data)@ == with_pixel_offset(old(data)@, offset),
{
    data.set(10, (offset % 256) as u8);
    data.set(11, ((offset / 256) % 256) as u8);
    data.set(12, ((offset / 65536) % 256) as u8);
    data.set(13, (offset / 16777216) as u8);
    proof {
        assert(data@ =~= with_pixel_offset(old(data)@, offset));
    }
}

/// Rewriting `bfOffBits` and reading it back gives the value written, and
/// leaves every other byte as it was.
pub proof fn lemma_offset_roundtrip(d: Seq<u8>, offset: u32)
    requires
        d.len() >= 14,
    ensures
        with_pixel_offset(d, offset).len() == d.len(),
        spec_u32_le(with_pixel_offset(d, offset), 10) == offset,
        forall|i: int| 0 <= i < d.len() && !(10 <= i < 14) ==> #[trigger] with_pixel_offset(d, offset)[i] == d[i],
{
    let p = with_pixel_offset(d, offset);
    assert(p[10] == offset % 256);
    assert(p[11] == (offset / 256) % 256);
    assert(p[12] == (offset / 65536) % 256);
    assert(p[13] == offset / 16777216);
    assert(offset == offset % 256 + 256 * ((offset / 256) % 256) + 65536 * ((offset / 65536) % 256)
        + 16777216 * (offset / 16777216)) by (nonlinear_arith);
}

// ----- trial decoding -----

/// Writing `offset` into the header repairs the file: it lies past the
/// headers, leaves room for the whole pixel stream inside the file, and the
/// rewritten file decodes.
pub open spec fn offset_repairs(d: Seq<u8>, offset: u64) -> bool {
    let f = spec_bmp_fields(d);
    &&& 14 + f.dib_size <= offset
    &&& offset + spec_pixel_size(f) <= d.len()
    &&& bmp_decoded(with_pixel_offset(d, offset as u32)) is Some
}

/// Tries the candidate offsets in ascending order and returns the first one
/// that the decoder accepts, with the decoded image.
pub fn try_decode_bmp_repaired_at(data: &[u8]) -> (res: Option<(u64, DynamicImage)>)
    ensures
        res is None <==> !repair_applies(data@) || forall|o: u64|
            #[trigger] candidate_set(data@).contains(o) ==> !offset_repairs(data@, o),
        res matches Some((offset, _)) ==> {
            &&& repair_applies(data@)
            &&& candidate_set(data@).contains(offset)
            &&& offset_repairs(data@, offset)
            &&& forall|o: u64| #[trigger] candidate_set(data@).contains(o) && o < offset ==> !offset_repairs(data@, o)
        },
        res matches Some((offset, img)) ==> bmp_decoded(with_pixel_offset(data@, offset as u32)) == Some(
            image_parts(img),
        ),
{
    let plan = match bmp_repair_plan(data) {
        Some(plan) => plan,
        None => return None,
    };
    let ghost cands = plan.candidates@;
    let mut buf: Vec<u8> = Vec::new();
    let mut j: usize = 0;
    while j < data.len()
        invariant
            j <= data@.len(),
            buf@ == data@.subrange(0, j as int),
        decreases data@.len() - j,
    {
        buf.push(data[j]);
        j = j + 1;
    }
    assert(buf@ =~= data@);
    let n = data.len() as u64;
    let mut k: usize = 0;
    while k < plan.candidates.len()
        invariant
            k <= cands.len(),
            cands == plan.candidates@,
            n == data@.len(),
            data@.len() >= HEAD_LEN,
            data@.len() <= MAX_REPAIR_SIZE,
            buf@.len() == data@.len(),
            buf@.subrange(0, 10) == data@.subrange(0, 10),
            buf@.subrange(14, buf@.len() as int) == data@.subrange(14, data@.len() as int),
            plan.header_end == 14 + spec_bmp_fields(data@).dib_size,
            plan.pixel_size == spec_pixel_size(spec_bmp_fields(data@)),
            strictly_ascending(cands),
            cands.to_set() == candidate_set(data@),
            repair_applies(data@),
            forall|i: int| 0 <= i < k ==> !offset_repairs(data@, #[trigger] cands[i]),
        decreases cands.len() - k,
    {
        let off = plan.candidates[k];
        if off >= plan.header_end && off <= n && plan.pixel_size <= n - off {
            let ghost before = buf@;
            set_pixel_offset(&mut buf, off as u32);
            assert(buf@ =~= with_pixel_offset(data@, off as u32)) by {
                assert(before.subrange(0, 10) == data@.subrange(0, 10));
                assert(before.subrange(14, before.len() as int) == data@.subrange(14, data@.len() as int));
            }
            match decode_bmp(buf.as_slice()) {
                Some(img) => {
                    proof {
                        assert(offset_repairs(data@, off));
                        assert(cands.to_set().contains(cands[k as int]));
                        assert forall|o: u64| #[trigger] candidate_set(data@).contains(o) && o < off implies !offset_repairs(data@, o) by {
                            let i = choose|i: int| 0 <= i < cands.len() && cands[i] == o;
                            if i >= k {
                                assert(cands[k as int] <= cands[i]);
                            }
                        }
                    }
                    return Some((off, img));
                },
                None => {},
            }
            assert(buf@.subrange(0, 10) =~= data@.subrange(0, 10));
            assert(buf@.subrange(14, buf@.len() as int) =~= data@.subrange(14, data@.len() as int));
        }
        k = k + 1;
    }
    proof {
        assert forall|o: u64| #[trigger] candidate_set(data@).contains(o) implies !offset_repairs(data@, o) by {
            assert(cands.to_set().contains(o));
            let i = choose|i: int| 0 <= i < cands.len() && cands[i] == o;
        }
    }
    None
}

/// Decodes a BMP whose pixel-data offset is corrupt, by trying the candidate
/// offsets; `None` when the repair does not apply or no candidate decodes.
pub fn try_decode_bmp_repaired(data: &[u8]) -> (res: Option<DynamicImage>)
    ensures
        res is None <==> !repair_applies(data@) || forall|o: u64|
            #[trigger] candidate_set(data@).contains(o) ==> !offset_repairs(data@, o),
        res matches Some(img) ==> exists|offset: u64|
            {
                &&& #[trigger] candidate_set(data@).contains(offset)
                &&& offset_repairs(data@, offset)
                &&& forall|o: u64| #[trigger] candidate_set(data@).contains(o) && o < offset ==> !offset_repairs(data@, o)
                &&& bmp_decoded(with_pixel_offset(data@, offset as u32)) == Some(image_parts(img))
            },
{
    match try_decode_bmp_repaired_at(data) {
        Some((_, img)) => Some(img),
        None => None,
    }
}

} // verus!
