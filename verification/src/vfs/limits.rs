//! Budgets enforced before archive and document data is allocated.
use vstd::prelude::*;

use crate::text::{chars_eq_ignore_ascii_case, chars_of, decimal, decimal_chars, eq_ignore_ascii_case, push_chars};
use crate::vfs::archive::ArchiveError;

verus! {

/// Largest page entry that may be decompressed.
pub const MAX_ENTRY_BYTES: u64 = 64 * 1024 * 1024;

/// Largest `ComicInfo.xml` entry that may be decompressed.
pub const MAX_METADATA_BYTES: u64 = 1024 * 1024;

/// Largest PDF or DjVu document that may be read into memory.
pub const MAX_DOCUMENT_BYTES: u64 = 256 * 1024 * 1024;

/// Largest source page, in pixels, that a document may declare.
pub const MAX_SOURCE_PIXELS: u64 = 100_000_000;

/// Largest rendered raster, in pixels.
pub const MAX_RASTER_PIXELS: u64 = 8_000_000;

/// Longest rendered raster side.
pub const MAX_RASTER_SIDE: u32 = 8192;

/// The part of `path` after its last `/` or `\` (all of it when it has
/// neither), as `rsplit(['/', '\\']).next()` yields it.
pub open spec fn final_segment(path: Seq<char>) -> Seq<char>
    decreases path.len(),
{
    if path.len() == 0 {
        Seq::empty()
    } else if path.last() == '/' || path.last() == '\\' {
        Seq::empty()
    } else {
        final_segment(path.drop_last()).push(path.last())
    }
}

/// The decompression budget of an archive entry: `ComicInfo.xml` (in any
/// ASCII case, in any directory) gets the metadata budget, every other entry
/// the page budget.
pub open spec fn entry_budget(path: Seq<char>) -> u64 {
    if eq_ignore_ascii_case(final_segment(path), "ComicInfo.xml"@) {
        MAX_METADATA_BYTES
    } else {
        MAX_ENTRY_BYTES
    }
}

/// Returns the decompression budget for an archive entry.
pub fn entry_limit(path: &str) -> (r: u64)
    ensures
        r == entry_budget(path@),
{
    let v = chars_of(path);
    let mut start = v.len();
    proof {
        assert(v@.take(start as int) =~= v@);
        assert(v@.skip(start as int) =~= Seq::<char>::empty());
        assert(final_segment(v@) =~= final_segment(v@.take(start as int)) + v@.skip(start as int));
    }
    while start > 0 && v[start - 1] != '/' && v[start - 1] != '\\'
        invariant
            start <= v.len(),
            final_segment(v@) == final_segment(v@.take(start as int)) + v@.skip(start as int),
        decreases start,
    {
        proof {
            let t = v@.take(start as int);
            assert(t.drop_last() =~= v@.take(start - 1));
            assert(v@.skip(start - 1) =~= seq![t.last()] + v@.skip(start as int));
            assert(final_segment(t) == final_segment(t.drop_last()).push(t.last()));
            assert(final_segment(t.drop_last()).push(t.last()) + v@.skip(start as int)
                =~= final_segment(t.drop_last()) + v@.skip(start - 1));
        }
        start -= 1;
    }
    let mut seg: Vec<char> = Vec::new();
    let mut i = start;
    while i < v.len()
        invariant
            start <= i <= v.len(),
            seg@ == v@.subrange(start as int, i as int),
        decreases v.len() - i,
    {
        seg.push(v[i]);
        i += 1;
        assert(seg@ =~= v@.subrange(start as int, i as int));
    }
    proof {
        let t = v@.take(start as int);
        assert(final_segment(t) == Seq::<char>::empty()) by {
            if start > 0 {
                assert(t.last() == v@[start - 1]);
            }
        }
        assert(seg@ =~= v@.skip(start as int));
        assert(final_segment(v@) =~= seg@);
    }
    let name = chars_of("ComicInfo.xml");
    if chars_eq_ignore_ascii_case(&seg, &name) {
        MAX_METADATA_BYTES
    } else {
        MAX_ENTRY_BYTES
    }
}

/// The message of a budget refusal.
pub open spec fn limit_message(size: u64, limit: u64) -> Seq<char> {
    decimal(size as nat) + " exceeds limit "@ + decimal(limit as nat)
}

/// Refuses a declared size above the budget.
pub fn check_size(size: u64, limit: u64) -> (r: Result<(), ArchiveError>)
    ensures
        size <= limit ==> r is Ok,
        size > limit ==> (r matches Err(ArchiveError::ResourceLimit(m)) && m@ == limit_message(size, limit)),
{
    if size > limit {
        let mut m = String::new();
        let a = decimal_chars(size);
        push_chars(&mut m, &a);
        let mid = chars_of(" exceeds limit ");
        push_chars(&mut m, &mid);
        let b = decimal_chars(limit);
        push_chars(&mut m, &b);
        Err(ArchiveError::ResourceLimit(m))
    } else {
        Ok(())
    }
}

/// The integer square root of `x`, from below.
pub fn isqrt(x: u64) -> (r: u64)
    requires
        x < 0x1_0000_0000_0000,
    ensures
        r * r <= x < (r + 1) * (r + 1),
{
    let mut lo: u64 = 0;
    let mut hi: u64 = 0x100_0000;
    assert(hi * hi > x) by (nonlinear_arith)
        requires
            hi == 0x100_0000,
            x < 0x1_0000_0000_0000,
    ;
    while hi - lo > 1
        invariant
            lo < hi <= 0x100_0000,
            lo * lo <= x,
            x < hi * hi,
        decreases hi - lo,
    {
        let mid = lo + (hi - lo) / 2;
        assert(mid * mid <= 0x100_0000u64 * 0x100_0000u64) by (nonlinear_arith)
            requires
                mid <= 0x100_0000,
        ;
        if mid * mid <= x {
            lo = mid;
        } else {
            hi = mid;
        }
    }
    assert(hi == lo + 1);
    lo
}

/// The side of a render target: between one pixel and the largest raster
/// side.
pub open spec fn clamp_side(t: u32) -> int {
    if t < 1 {
        1
    } else if t > MAX_RASTER_SIDE {
        MAX_RASTER_SIDE as int
    } else {
        t as int
    }
}

/// A page's dimensions are within the source budget: both sides positive
/// and at most 65536, and at most `MAX_SOURCE_PIXELS` pixels.
pub open spec fn source_ok(width: u32, height: u32) -> bool {
    &&& width > 0 && height > 0
    &&& width <= 65_536 && height <= 65_536
    &&& width * height <= MAX_SOURCE_PIXELS
}

/// The raster size a page of `width` by `height` is rendered at: scaled by
/// the least of fitting the target width, fitting the target height, fitting
/// `MAX_RASTER_PIXELS` pixels, and 1, each side rounded down and at least one
/// pixel.
pub open spec fn raster_ok(width: u32, height: u32, tw: int, th: int, r: [u32; 2]) -> bool {
    let w = width as int;
    let h = height as int;
    let m = MAX_RASTER_PIXELS as int;
    // Whether fitting the target width is at least as tight as fitting the target height.
    let by_width = tw * h <= th * w;
    // The fit scale, squared and compared with the pixel budget's scale m / (w h).
    let fit_tighter = if by_width {
        tw * tw * h <= m * w
    } else {
        th * th * w <= m * h
    };
    let shrinks = if fit_tighter {
        if by_width {
            tw <= w
        } else {
            th <= h
        }
    } else {
        m <= w * h
    };
    let rw = r[0] as int;
    let rh = r[1] as int;
    if !shrinks {
        rw == w && rh == h
    } else if fit_tighter {
        if by_width {
            rw == tw && rh == (if tw * h / w < 1 {
                1
            } else {
                tw * h / w
            })
        } else {
            rh == th && rw == (if th * w / h < 1 {
                1
            } else {
                th * w / h
            })
        }
    } else {
        &&& (rw == 1 || (rw * rw <= m * w / h < (rw + 1) * (rw + 1)))
        &&& (rh == 1 || (rh * rh <= m * h / w < (rh + 1) * (rh + 1)))
        &&& rw >= 1 && rh >= 1
        &&& (rw == 1 ==> m * w / h < 4)
        &&& (rh == 1 ==> m * h / w < 4)
    }
}

fn at_least_one(x: u64) -> (r: u64)
    ensures
        r == if x < 1 {
            1
        } else {
            x
        },
{
    if x < 1 {
        1
    } else {
        x
    }
}

/// The size a page is rasterised at, refusing pages beyond the source
/// budget before anything is allocated.
pub fn raster_size(width: u32, height: u32, target: Option<[u32; 2]>) -> (r: Result<[u32; 2], ArchiveError>)
    ensures
        !source_ok(width, height) ==> (r matches Err(ArchiveError::ResourceLimit(m)) && m@ == "page dimensions "@
            + decimal(width as nat) + "x"@ + decimal(height as nat)),
        source_ok(width, height) ==> (r matches Ok(size) && raster_ok(
            width,
            height,
            clamp_side(match target {
                Some(t) => t[0],
                None => MAX_RASTER_SIDE,
            }),
            clamp_side(match target {
                Some(t) => t[1],
                None => MAX_RASTER_SIDE,
            }),
            size,
        )),
{
    let w = width as u64;
    let h = height as u64;
    let in_range = width > 0 && height > 0 && width <= 65_536 && height <= 65_536;
    let too_many = if in_range {
        assert(w * h <= 65536 * 65536) by (nonlinear_arith)
            requires
                w <= 65536,
                h <= 65536,
        ;
        w * h > MAX_SOURCE_PIXELS
    } else {
        false
    };
    if !in_range || too_many {
        let mut m = crate::text::owned("page dimensions ");
        let a = decimal_chars(width as u64);
        push_chars(&mut m, &a);
        let x = chars_of("x");
        push_chars(&mut m, &x);
        let b = decimal_chars(height as u64);
        push_chars(&mut m, &b);
        return Err(ArchiveError::ResourceLimit(m));
    }
    let (tw0, th0) = match target {
        Some(t) => (t[0], t[1]),
        None => (MAX_RASTER_SIDE, MAX_RASTER_SIDE),
    };
    let tw: u64 = if tw0 < 1 {
        1
    } else if tw0 > MAX_RASTER_SIDE {
        MAX_RASTER_SIDE as u64
    } else {
        tw0 as u64
    };
    let th: u64 = if th0 < 1 {
        1
    } else if th0 > MAX_RASTER_SIDE {
        MAX_RASTER_SIDE as u64
    } else {
        th0 as u64
    };
    let m = MAX_RASTER_PIXELS;
    assert(tw * h <= 8192 * 65536 && th * w <= 8192 * 65536) by (nonlinear_arith)
        requires
            tw <= 8192,
            th <= 8192,
            w <= 65536,
            h <= 65536,
    ;
    assert(tw * tw <= 8192 * 8192 && th * th <= 8192 * 8192) by (nonlinear_arith)
        requires
            tw <= 8192,
            th <= 8192,
    ;
    assert(tw * tw * h <= 8192 * 8192 * 65536 && th * th * w <= 8192 * 8192 * 65536) by (nonlinear_arith)
        requires
            tw <= 8192,
            th <= 8192,
            w <= 65536,
            h <= 65536,
    ;
    assert(m * w <= 8_000_000 * 65536 && m * h <= 8_000_000 * 65536) by (nonlinear_arith)
        requires
            m == 8_000_000,
            w <= 65536,
            h <= 65536,
    ;
    let by_width = tw * h <= th * w;
    let fit_tighter = if by_width {
        tw * tw * h <= m * w
    } else {
        th * th * w <= m * h
    };
    let shrinks = if fit_tighter {
        if by_width {
            tw <= w
        } else {
            th <= h
        }
    } else {
        m <= w * h
    };
    if !shrinks {
        return Ok([width, height]);
    }
    if fit_tighter {
        if by_width {
            let rh = at_least_one(tw * h / w);
            assert((tw as int) * (h as int) / (w as int) <= h as int) by (nonlinear_arith)
                requires
                    tw <= w,
                    w > 0,
            ;
            Ok([tw as u32, rh as u32])
        } else {
            let rw = at_least_one(th * w / h);
            assert((th as int) * (w as int) / (h as int) <= w as int) by (nonlinear_arith)
                requires
                    th <= h,
                    h > 0,
            ;
            Ok([rw as u32, th as u32])
        }
    } else {
        let xw = m * w / h;
        let xh = m * h / w;
        assert(xw <= 8_000_000 * 65536 && xh <= 8_000_000 * 65536) by (nonlinear_arith)
            requires
                xw == (m as int) * (w as int) / (h as int),
                xh == (m as int) * (h as int) / (w as int),
                m * w <= 8_000_000 * 65536,
                m * h <= 8_000_000 * 65536,
                w > 0,
                h > 0,
        ;
        let sw = isqrt(xw);
        let sh = isqrt(xh);
        assert(sw <= 0xffff_ffff && sh <= 0xffff_ffff) by (nonlinear_arith)
            requires
                sw * sw <= xw,
                sh * sh <= xh,
                xw <= 8_000_000 * 65536,
                xh <= 8_000_000 * 65536,
        ;
        let rw = at_least_one(sw);
        let rh = at_least_one(sh);
        proof {
            if rw == 1 {
                assert(xw < 4) by (nonlinear_arith)
                    requires
                        sw <= 1,
                        xw < (sw + 1) * (sw + 1),
                ;
            }
            if rh == 1 {
                assert(xh < 4) by (nonlinear_arith)
                    requires
                        sh <= 1,
                        xh < (sh + 1) * (sh + 1),
                ;
            }
        }
        Ok([rw as u32, rh as u32])
    }
}

} // verus!
