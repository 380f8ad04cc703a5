//! Icon payload builder: turns a decoded 4-byte-per-pixel bitmap into the
//! fixed ladder of square wire pixmaps the tray protocol publishes, each
//! produced by nearest-neighbour resampling.  Pure functions, no I/O; the
//! adapter decodes image files before calling in here.

use vstd::prelude::*;
use vstd::arithmetic::div_mod::lemma_multiply_divide_lt;
use crate::error::TrayError;
use crate::tray::TrayIcon;

verus! {

/// One fixed-size pixel buffer in the wire pixel format.
#[derive(Debug)]
pub struct Pixmap {
    pub width: i32,
    pub height: i32,
    pub bytes: Vec<u8>,
}

/// The mathematical shape of a pixmap.
#[verifier::ext_equal]
pub struct PixmapShape {
    pub width: int,
    pub height: int,
    pub bytes: Seq<u8>,
}

impl View for Pixmap {
    type V = PixmapShape;

    open spec fn view(&self) -> PixmapShape {
        PixmapShape { width: self.width as int, height: self.height as int, bytes: self.bytes@ }
    }
}

impl Pixmap {
    /// A fresh pixmap holding the same dimensions and bytes.
    pub fn duplicate(&self) -> (r: Self)
        ensures
            r@ == self@,
    {
        Pixmap { width: self.width, height: self.height, bytes: copy_bytes(&self.bytes) }
    }

    pub fn new(width: i32, height: i32, bytes: Vec<u8>) -> (r: Self)
        ensures
            r@ == (PixmapShape { width: width as int, height: height as int, bytes: bytes@ }),
    {
        Self { width, height, bytes }
    }
}

/// Nearest-neighbour resampling: destination pixel `(x, y)` carries the
/// four bytes of source pixel `(x*src_w/dst_w, y*src_h/dst_h)`.
pub open spec fn resized_ok(
    src: Seq<u8>,
    src_w: int,
    src_h: int,
    dst_w: int,
    dst_h: int,
    dst: Seq<u8>,
) -> bool {
    &&& dst.len() == dst_w * dst_h * 4
    &&& forall|y: int, x: int, ch: int|
        0 <= y < dst_h && 0 <= x < dst_w && 0 <= ch < 4 ==> #[trigger] dst[(y * dst_w + x) * 4
            + ch] == src[((y * src_h / dst_h) * src_w + (x * src_w / dst_w)) * 4 + ch]
}

/// The resampling core, for validated dimensions.
#[verifier::loop_isolation(false)]
fn resize_pixels(src: &Vec<u8>, src_w: u32, src_h: u32, dst_w: u32, dst_h: u32) -> (dst: Vec<u8>)
    requires
        src_w > 0,
        src_h > 0,
        dst_w > 0,
        dst_h > 0,
        src@.len() == src_w as int * src_h as int * 4,
        dst_w as int * dst_h as int * 4 <= usize::MAX as int,
    ensures
        resized_ok(src@, src_w as int, src_h as int, dst_w as int, dst_h as int, dst@),
{
    let src_len = src.len();
    let sw = src_w as u64;
    let sh = src_h as u64;
    let dw = dst_w as u64;
    let dh = dst_h as u64;
    let ghost swi = sw as int;
    let ghost shi = sh as int;
    let ghost dwi = dw as int;
    let ghost dhi = dh as int;
    proof {
        assert(swi * shi * 4 == src_w as int * src_h as int * 4 && dwi * dhi * 4 == dst_w as int
            * dst_h as int * 4) by (nonlinear_arith)
            requires
                swi == src_w as int,
                shi == src_h as int,
                dwi == dst_w as int,
                dhi == dst_h as int,
        ;
        assert(src_len as int == swi * shi * 4);
        assert(swi * shi * 4 <= u64::MAX as int);
        assert(dhi * shi <= u64::MAX as int) by (nonlinear_arith)
            requires
                0 < dhi <= u32::MAX as int,
                0 < shi <= u32::MAX as int,
        ;
        assert(dwi * swi <= u64::MAX as int) by (nonlinear_arith)
            requires
                0 < dwi <= u32::MAX as int,
                0 < swi <= u32::MAX as int,
        ;
    }
    let mut dst: Vec<u8> = Vec::new();
    let mut y: u64 = 0;
    while y < dh
        invariant
            0 <= y <= dh,
            dst@.len() == y as int * dwi * 4,
            forall|yy: int, xx: int, ch: int|
                0 <= yy < y && 0 <= xx < dwi && 0 <= ch < 4 ==> #[trigger] dst@[(yy * dwi + xx) * 4
                    + ch] == src@[((yy * shi / dhi) * swi + (xx * swi / dwi)) * 4 + ch],
        decreases dh - y,
    {
        proof {
            assert(y as int * shi < dhi * shi) by (nonlinear_arith)
                requires
                    0 <= y < dhi,
                    shi > 0,
            ;
            lemma_multiply_divide_lt(y as int * shi, dhi, shi);
        }
        let sy: u64 = y * sh / dh;
        let mut x: u64 = 0;
        while x < dw
            invariant
                0 <= x <= dw,
                dst@.len() == ((y as int) * dwi + (x as int)) * 4,
                forall|yy: int, xx: int, ch: int|
                    0 <= yy < y && 0 <= xx < dwi && 0 <= ch < 4 ==> #[trigger] dst@[(yy * dwi + xx)
                        * 4 + ch] == src@[((yy * shi / dhi) * swi + (xx * swi / dwi)) * 4 + ch],
                forall|xx: int, ch: int|
                    0 <= xx < x && 0 <= ch < 4 ==> #[trigger] dst@[(y as int * dwi + xx) * 4 + ch]
                        == src@[((y as int * shi / dhi) * swi + (xx * swi / dwi)) * 4 + ch],
            decreases dw - x,
        {
            proof {
                assert(x as int * swi < dwi * swi) by (nonlinear_arith)
                    requires
                        0 <= x < dwi,
                        swi > 0,
                ;
                lemma_multiply_divide_lt(x as int * swi, dwi, swi);
            }
            let sx: u64 = x * sw / dw;
            proof {
                assert(sy as int * swi + (sx as int) < shi * swi) by (nonlinear_arith)
                    requires
                        0 <= sy as int && (sy as int) < shi,
                        0 <= (sx as int) < swi,
                ;
                assert((sy as int * swi + sx as int) * 4 + 3 < swi * shi * 4) by (nonlinear_arith)
                    requires
                        sy as int * swi + (sx as int) < shi * swi,
                ;
            }
            let sbase: u64 = (sy * sw + sx) * 4;
            let b0 = src[sbase as usize];
            let b1 = src[sbase as usize + 1];
            let b2 = src[sbase as usize + 2];
            let b3 = src[sbase as usize + 3];
            let ghost pre = dst@;
            let ghost base = (y as int * dwi + x as int) * 4;
            proof {
                assert(base + 4 <= dwi * dhi * 4) by (nonlinear_arith)
                    requires
                        0 <= y < dhi,
                        0 <= x < dwi,
                        base == (y as int * dwi + x as int) * 4,
                ;
            }
            dst.push(b0);
            dst.push(b1);
            dst.push(b2);
            dst.push(b3);
            proof {
                assert(dst@ =~= pre + seq![b0, b1, b2, b3]);
                assert(base + 4 == (y as int * dwi + x as int + 1) * 4) by (nonlinear_arith)
                    requires
                        base == (y as int * dwi + x as int) * 4,
                ;
                assert forall|yy: int, xx: int, ch: int|
                    0 <= yy < y && 0 <= xx < dwi && 0 <= ch < 4 implies #[trigger] dst@[(yy * dwi
                    + xx) * 4 + ch] == src@[((yy * shi / dhi) * swi + (xx * swi / dwi)) * 4
                    + ch] by {
                    assert(0 <= (yy * dwi + xx) * 4 + ch < base) by (nonlinear_arith)
                        requires
                            0 <= yy < y as int,
                            0 <= xx < dwi,
                            0 <= ch < 4,
                            0 <= x as int,
                            base == (y as int * dwi + x as int) * 4,
                            dwi > 0,
                    ;
                    assert(dst@[(yy * dwi + xx) * 4 + ch] == pre[(yy * dwi + xx) * 4 + ch]);
                }
                assert forall|xx: int, ch: int|
                    0 <= xx < x as int + 1 && 0 <= ch < 4 implies #[trigger] dst@[(y as int * dwi
                    + xx) * 4 + ch] == src@[((y as int * shi / dhi) * swi + (xx * swi / dwi)) * 4
                    + ch] by {
                    if xx < x as int {
                        assert(0 <= (y as int * dwi + xx) * 4 + ch < base) by (nonlinear_arith)
                            requires
                                0 <= xx < x as int,
                                0 <= ch < 4,
                                0 <= y as int,
                                base == (y as int * dwi + x as int) * 4,
                                dwi > 0,
                        ;
                        assert(dst@[(y as int * dwi + xx) * 4 + ch] == pre[(y as int * dwi + xx) * 4
                            + ch]);
                    } else {
                        assert(dst@[base + 0] == b0 && dst@[base + 1] == b1 && dst@[base + 2] == b2
                            && dst@[base + 3] == b3);
                        assert((y as int * dwi + xx) * 4 + ch == base + ch);
                        assert(((y as int * shi / dhi) * swi + (xx * swi / dwi)) * 4 + ch
                            == (sy as int * swi + sx as int) * 4 + ch);
                        assert(sbase as int == (sy as int * swi + sx as int) * 4);
                    }
                }
            }
            x += 1;
        }
        proof {
            assert((y as int * dwi + dwi) * 4 == (y as int + 1) * dwi * 4) by (nonlinear_arith);
            assert forall|yy: int, xx: int, ch: int|
                0 <= yy < y as int + 1 && 0 <= xx < dwi && 0 <= ch < 4 implies #[trigger] dst@[(yy
                * dwi + xx) * 4 + ch] == src@[((yy * shi / dhi) * swi + (xx * swi / dwi)) * 4
                + ch] by {}
        }
        y += 1;
    }
    proof {
        assert(dhi * dwi * 4 == dwi * dhi * 4) by (nonlinear_arith);
    }
    dst
}

/// Resamples a 4-byte-per-pixel buffer to a new size, validating the
/// dimensions and the buffer length first.
pub fn resize_bgra32_nearest(
    src: &Vec<u8>,
    src_w: u32,
    src_h: u32,
    dst_w: u32,
    dst_h: u32,
) -> (r: Result<Vec<u8>, TrayError>)
    requires
        dst_w as int * dst_h as int * 4 <= usize::MAX as int,
    ensures
        ({
            if !(src_w > 0 && src_h > 0 && dst_w > 0 && dst_h > 0) {
                r == Err::<Vec<u8>, TrayError>(TrayError::IconZeroSize)
            } else if src@.len() != src_w as int * src_h as int * 4 {
                r == Err::<Vec<u8>, TrayError>(TrayError::IconLengthMismatch)
            } else {
                r is Ok && resized_ok(
                    src@,
                    src_w as int,
                    src_h as int,
                    dst_w as int,
                    dst_h as int,
                    r->Ok_0@,
                )
            }
        }),
{
    if !(src_w > 0 && src_h > 0 && dst_w > 0 && dst_h > 0) {
        return Err(TrayError::IconZeroSize);
    }
    proof {
        assert(src_w as int * src_h as int * 4 < u128::MAX as int) by (nonlinear_arith)
            requires
                src_w <= u32::MAX,
                src_h <= u32::MAX,
        ;
    }
    let expected: u128 = (src_w as u128) * (src_h as u128) * 4;
    if (src.len() as u128) != expected {
        return Err(TrayError::IconLengthMismatch);
    }
    Ok(resize_pixels(src, src_w, src_h, dst_w, dst_h))
}

/// The square target sizes offered to hosts for a source of the given
/// dimensions: the fixed rungs 16, 24, 32 and 48, kept only while they do
/// not exceed the source.
pub open spec fn fitting_ladder(w: int, h: int) -> Seq<int> {
    let m = if w <= h {
        w
    } else {
        h
    };
    if m >= 48 {
        seq![16int, 24int, 32int, 48int]
    } else if m >= 32 {
        seq![16int, 24int, 32int]
    } else if m >= 24 {
        seq![16int, 24int]
    } else if m >= 16 {
        seq![16int]
    } else {
        Seq::empty()
    }
}

/// A publishable icon: a theme name, or an image whose dimensions are
/// nonzero, fit the wire's signed 32-bit fields, and match the buffer
/// length.
pub open spec fn icon_valid(icon: TrayIcon) -> bool {
    match icon {
        TrayIcon::Name(_) => true,
        TrayIcon::Image { width, height, bytes } => width > 0 && height > 0 && width
            <= i32::MAX as u32 && height <= i32::MAX as u32 && bytes@.len() == width as int
            * height as int * 4,
    }
}

/// The error reported for an unpublishable image icon.
pub open spec fn icon_error(icon: TrayIcon) -> TrayError {
    match icon {
        TrayIcon::Name(_) => TrayError::IconZeroSize,
        TrayIcon::Image { width, height, .. } => {
            if width == 0 || height == 0 {
                TrayError::IconZeroSize
            } else if width > i32::MAX as u32 || height > i32::MAX as u32 {
                TrayError::IconOversize
            } else {
                TrayError::IconLengthMismatch
            }
        },
    }
}

/// What the ladder build must hand back: nothing for a theme icon; one
/// correctly resampled pixmap per fitting rung; and the unscaled source
/// once when the source is smaller than every rung.
pub open spec fn icon_pixmaps_ok(icon: TrayIcon, r: Seq<PixmapShape>) -> bool {
    match icon {
        TrayIcon::Name(_) => r.len() == 0,
        TrayIcon::Image { width, height, bytes } => {
            let w = width as int;
            let h = height as int;
            let ladder = fitting_ladder(w, h);
            if ladder.len() > 0 {
                &&& r.len() == ladder.len()
                &&& forall|k: int|
                    0 <= k < r.len() ==> (#[trigger] r[k]).width == ladder[k] && r[k].height
                        == ladder[k] && resized_ok(bytes@, w, h, ladder[k], ladder[k], r[k].bytes)
            } else {
                r.len() == 1 && r[0].width == w && r[0].height == h && r[0].bytes == bytes@
            }
        },
    }
}

/// A fresh copy of a byte buffer.
#[verifier::loop_isolation(false)]
fn copy_bytes(src: &Vec<u8>) -> (r: Vec<u8>)
    ensures
        r@ == src@,
{
    let mut r: Vec<u8> = Vec::new();
    let mut i: usize = 0;
    while i < src.len()
        invariant
            0 <= i <= src@.len(),
            r@ == src@.take(i as int),
        decreases src@.len() - i,
    {
        r.push(src[i]);
        proof {
            assert(r@ =~= src@.take(i as int + 1));
        }
        i += 1;
    }
    proof {
        assert(src@.take(src@.len() as int) =~= src@);
    }
    r
}

/// One ladder rung: the source resampled to `s` by `s`.
fn make_rung(bytes: &Vec<u8>, w: u32, h: u32, s: u32) -> (p: Pixmap)
    requires
        0 < s <= w,
        s <= h,
        w <= i32::MAX as u32,
        h <= i32::MAX as u32,
        s <= i32::MAX as u32,
        bytes@.len() == w as int * h as int * 4,
    ensures
        p@.width == s as int,
        p@.height == s as int,
        resized_ok(bytes@, w as int, h as int, s as int, s as int, p@.bytes),
{
    let n = bytes.len();
    proof {
        assert(s as int * s as int * 4 <= w as int * h as int * 4) by (nonlinear_arith)
            requires
                0 < s <= w,
                s <= h,
        ;
        assert(n as int == bytes@.len());
    }
    let b = resize_pixels(bytes, w, h, s, s);
    Pixmap::new(s as i32, s as i32, b)
}

/// Builds the wire pixmaps a tray icon publishes.  A theme icon carries no
/// pixmaps; an image is resampled to every fitting ladder rung, or passed
/// through unscaled when it is smaller than all of them; a malformed image
/// is rejected.
pub fn icon_pixmaps(icon: &TrayIcon) -> (r: Result<Vec<Pixmap>, TrayError>)
    ensures
        ({
            match r {
                Ok(ps) => icon_valid(*icon) && icon_pixmaps_ok(
                    *icon,
                    ps@.map_values(|p: Pixmap| p@),
                ),
                Err(e) => !icon_valid(*icon) && e == icon_error(*icon),
            }
        }),
{
    match icon {
        TrayIcon::Name(_) => Ok(Vec::new()),
        TrayIcon::Image { width, height, bytes } => {
            let w = *width;
            let h = *height;
            if w == 0 || h == 0 {
                return Err(TrayError::IconZeroSize);
            }
            if w > i32::MAX as u32 || h > i32::MAX as u32 {
                return Err(TrayError::IconOversize);
            }
            proof {
                assert(w as int * h as int * 4 < u128::MAX as int) by (nonlinear_arith)
                    requires
                        w <= u32::MAX,
                        h <= u32::MAX,
                ;
            }
            let expected: u128 = (w as u128) * (h as u128) * 4;
            if (bytes.len() as u128) != expected {
                return Err(TrayError::IconLengthMismatch);
            }
            let mut ps: Vec<Pixmap> = Vec::new();
            if 16 <= w && 16 <= h {
                ps.push(make_rung(bytes, w, h, 16));
            }
            if 24 <= w && 24 <= h {
                ps.push(make_rung(bytes, w, h, 24));
            }
            if 32 <= w && 32 <= h {
                ps.push(make_rung(bytes, w, h, 32));
            }
            if 48 <= w && 48 <= h {
                ps.push(make_rung(bytes, w, h, 48));
            }
            if ps.len() == 0 {
                ps.push(Pixmap::new(w as i32, h as i32, copy_bytes(bytes)));
            }
            proof {
                assert(icon_pixmaps_ok(*icon, ps@.map_values(|p: Pixmap| p@)));
            }
            Ok(ps)
        },
    }
}

} // verus!
