//! The badge images: a BGRX pixel buffer per state, put whole on the
//! 24-bit X window (no alpha: an opaque square).
//!
//! Rasterizing the letter is the font library's work; this module fills the
//! background and blends the rasterized coverage in white on top of it.
use vstd::prelude::*;
use crate::linux::indicator::Mode;

verus! {

/// Side of the badge in pixels.
pub const SIZE: usize = 24;

/// Background colour (blue, green, red) and letter of each state: blue
/// "한", orange "A" (a Caps Lock warning), grey "a".
pub open spec fn spec_style(mode: Mode) -> ((u8, u8, u8), char) {
    match mode {
        Mode::Korean => ((0xB0, 0x6C, 0x2B), '한'),
        Mode::EnglishUpper => ((0x20, 0x6B, 0xDD), 'A'),
        Mode::EnglishLower => ((0x68, 0x55, 0x4A), 'a'),
    }
}

pub fn style(mode: Mode) -> (s: ((u8, u8, u8), char))
    ensures
        s == spec_style(mode),
{
    match mode {
        Mode::Korean => ((0xB0, 0x6C, 0x2B), '한'),
        Mode::EnglishUpper => ((0x20, 0x6B, 0xDD), 'A'),
        Mode::EnglishLower => ((0x68, 0x55, 0x4A), 'a'),
    }
}

/// A rasterized letter: its size and one coverage byte per pixel, row by
/// row.
pub struct Glyph {
    pub width: usize,
    pub height: usize,
    pub coverage: Vec<u8>,
}

/// Channel `c` (blue, green, red, then the unused byte) of the background.
pub open spec fn base_channel(mode: Mode, c: int) -> u8 {
    let (bgr, _) = spec_style(mode);
    if c == 0 {
        bgr.0
    } else if c == 1 {
        bgr.1
    } else if c == 2 {
        bgr.2
    } else {
        0xFF
    }
}

/// White blended over a background channel with coverage `a`.
pub open spec fn blend(a: u8, base: u8) -> u8 {
    ((255 * a + base * (255 - a)) / 255) as u8
}

/// Half of `n`, rounded toward zero (integer division of `i32`).
pub open spec fn half_toward_zero(n: int) -> int {
    if n >= 0 { n / 2 } else { -((-n) / 2) }
}

/// The letter is centred: its top-left corner on the badge.
pub open spec fn glyph_origin(len: int) -> int {
    half_toward_zero(SIZE as int - len)
}

/// The coverage of the letter at badge pixel `(x, y)`, if the letter
/// covers it.
pub open spec fn coverage_at(width: int, height: int, coverage: Seq<u8>, x: int, y: int) -> Option<u8> {
    let gx = x - glyph_origin(width);
    let gy = y - glyph_origin(height);
    if 0 <= gx < width && 0 <= gy < height { Some(coverage[gy * width + gx]) } else { None }
}

/// Channel `c` of badge pixel `(x, y)`: the background, with the letter
/// blended in white where its coverage is not zero; the fourth byte is
/// always 0xFF.
pub open spec fn spec_pixel(mode: Mode, glyph: Option<(int, int, Seq<u8>)>, x: int, y: int, c: int) -> u8 {
    let base = base_channel(mode, c);
    if c == 3 {
        0xFF
    } else {
        match glyph {
            None => base,
            Some((w, h, cov)) => match coverage_at(w, h, cov, x, y) {
                Some(a) => if a > 0 { blend(a, base) } else { base },
                None => base,
            },
        }
    }
}

/// The pixel value while only the letter pixels before row `gy0`, column
/// `gx0` are blended.
spec fn partial_pixel(mode: Mode, w: int, h: int, cov: Seq<u8>, x: int, y: int, c: int, gy0: int, gx0: int) -> u8 {
    let gx = x - glyph_origin(w);
    let gy = y - glyph_origin(h);
    let done = gy < gy0 || (gy == gy0 && gx < gx0);
    if c != 3 && done && coverage_at(w, h, cov, x, y) is Some && coverage_at(w, h, cov, x, y)->0 > 0 {
        blend(coverage_at(w, h, cov, x, y)->0, base_channel(mode, c))
    } else if c == 3 {
        0xFF
    } else {
        base_channel(mode, c)
    }
}

pub open spec fn glyph_view(g: Option<&Glyph>) -> Option<(int, int, Seq<u8>)> {
    match g {
        Some(g) => if g.width == 0 || g.height == 0 { None } else { Some((g.width as int, g.height as int, g.coverage@)) },
        None => None,
    }
}

proof fn lemma_blend_bound(a: int, b: int)
    by (nonlinear_arith)
    requires
        0 <= a <= 255,
        0 <= b <= 255,
    ensures
        0 <= 255 * a + b * (255 - a) <= 65025,
        (255 * a + b * (255 - a)) / 255 <= 255,
{
}

/// The BGRX image of a state: 24 × 24 pixels, four bytes each.
pub fn badge_pixels(mode: Mode, glyph: Option<&Glyph>) -> (buf: Vec<u8>)
    requires
        glyph matches Some(g) ==> g.width * g.height <= g.coverage@.len() && g.width < 0x4000_0000
            && g.height < 0x4000_0000,
    ensures
        buf@.len() == SIZE * SIZE * 4,
        forall|x: int, y: int, c: int|
            0 <= x < 24 && 0 <= y < 24 && 0 <= c < 4 ==> #[trigger] buf@[4 * (24 * y + x) + c] == spec_pixel(
                mode,
                glyph_view(glyph),
                x,
                y,
                c,
            ),
{
    let ((bb, bg, br), _) = style(mode);
    let mut buf: Vec<u8> = Vec::new();
    let mut i: usize = 0;
    while i < SIZE * SIZE * 4
        invariant
            i <= SIZE * SIZE * 4,
            buf@.len() == i,
            (bb, bg, br) == spec_style(mode).0,
            forall|k: int| 0 <= k < i ==> #[trigger] buf@[k] == base_channel(mode, k % 4),
        decreases SIZE * SIZE * 4 - i,
    {
        let v = if i % 4 == 0 {
            bb
        } else if i % 4 == 1 {
            bg
        } else if i % 4 == 2 {
            br
        } else {
            0xFF
        };
        buf.push(v);
        i = i + 1;
    }
    assert forall|x: int, y: int, c: int| 0 <= x < 24 && 0 <= y < 24 && 0 <= c < 4 implies #[trigger] buf@[4 * (24 * y + x) + c]
        == base_channel(mode, c) by {
        assert((4 * (24 * y + x) + c) % 4 == c);
    }
    let g = match glyph {
        Some(g) => g,
        None => {
            return buf;
        },
    };
    if g.width == 0 || g.height == 0 {
        return buf;
    }
    let w = g.width;
    let h = g.height;
    let ghost cov = g.coverage@;
    let ox: i64 = if w <= SIZE { ((SIZE - w) / 2) as i64 } else { -(((w - SIZE) / 2) as i64) };
    let oy: i64 = if h <= SIZE { ((SIZE - h) / 2) as i64 } else { -(((h - SIZE) / 2) as i64) };
    assert(ox == glyph_origin(w as int));
    assert(oy == glyph_origin(h as int));
    let mut gy: usize = 0;
    while gy < h
        invariant
            gy <= h,
            w == g.width,
            h == g.height,
            w > 0,
            h > 0,
            w * h <= cov.len(),
            w < 0x4000_0000,
            h < 0x4000_0000,
            cov == g.coverage@,
            ox == glyph_origin(w as int),
            oy == glyph_origin(h as int),
            (bb, bg, br) == spec_style(mode).0,
            buf@.len() == SIZE * SIZE * 4,
            forall|x: int, y: int, c: int|
                0 <= x < 24 && 0 <= y < 24 && 0 <= c < 4 ==> #[trigger] buf@[4 * (24 * y + x) + c] == partial_pixel(
                    mode,
                    w as int,
                    h as int,
                    cov,
                    x,
                    y,
                    c,
                    gy as int,
                    0,
                ),
        decreases h - gy,
    {
        let mut gx: usize = 0;
        while gx < w
            invariant
                gy < h,
                gx <= w,
                w == g.width,
                h == g.height,
                w > 0,
                w * h <= cov.len(),
                w < 0x4000_0000,
                h < 0x4000_0000,
                cov == g.coverage@,
                ox == glyph_origin(w as int),
                oy == glyph_origin(h as int),
                (bb, bg, br) == spec_style(mode).0,
                buf@.len() == SIZE * SIZE * 4,
                forall|x: int, y: int, c: int|
                    0 <= x < 24 && 0 <= y < 24 && 0 <= c < 4 ==> #[trigger] buf@[4 * (24 * y + x) + c] == partial_pixel(
                        mode,
                        w as int,
                        h as int,
                        cov,
                        x,
                        y,
                        c,
                        gy as int,
                        gx as int,
                    ),
            decreases w - gx,
        {
            assert(gy * w + gx < cov.len()) by (nonlinear_arith)
                requires gy < h, gx < w, w * h <= cov.len();
            assert(g.coverage@.len() == g.coverage.len());
            assert(gy * w + gx < g.coverage.len());
            let row = gy * w;
            let a = g.coverage[row + gx];
            let x = ox + gx as i64;
            let y = oy + gy as i64;
            if a != 0 && 0 <= x && x < 24 && 0 <= y && y < 24 {
                let idx = ((y as usize) * SIZE + (x as usize)) * 4;
                let ghost before = buf@;
                let ab = a as u16;
                proof {
                    lemma_blend_bound(ab as int, bb as int);
                    lemma_blend_bound(ab as int, bg as int);
                    lemma_blend_bound(ab as int, br as int);
                }
                let v0 = ((255 * ab + (bb as u16) * (255 - ab)) / 255) as u8;
                let v1 = ((255 * ab + (bg as u16) * (255 - ab)) / 255) as u8;
                let v2 = ((255 * ab + (br as u16) * (255 - ab)) / 255) as u8;
                buf.set(idx, v0);
                buf.set(idx + 1, v1);
                buf.set(idx + 2, v2);
                proof {
                    let xi = x as int;
                    let yi = y as int;
                    assert(coverage_at(w as int, h as int, cov, xi, yi) == Some(a));
                    assert forall|x2: int, y2: int, c: int|
                        0 <= x2 < 24 && 0 <= y2 < 24 && 0 <= c < 4 implies #[trigger] buf@[4 * (24 * y2 + x2) + c]
                        == partial_pixel(mode, w as int, h as int, cov, x2, y2, c, gy as int, gx + 1) by {
                        if x2 == xi && y2 == yi && c < 3 {
                        } else {
                            assert(buf@[4 * (24 * y2 + x2) + c] == before[4 * (24 * y2 + x2) + c]);
                        }
                    }
                }
            }
            gx = gx + 1;
        }
        gy = gy + 1;
    }
    buf
}

} // verus!
