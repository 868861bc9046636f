//! Integer compositing of rasterized glyph coverage masks onto an RGBA pixel
//! buffer, and allocation of blank pixel buffers.
use vstd::prelude::*;

#[allow(unused_imports)]
use vstd::arithmetic::div_mod::*;
#[allow(unused_imports)]
use vstd::arithmetic::mul::*;

verus! {

/// An 8-bit RGBA text color.
#[derive(Debug, Clone, Copy, PartialEq, Eq, Structural)]
pub struct TextColor {
    pub r: u8,
    pub g: u8,
    pub b: u8,
    pub a: u8,
}

/// Byte offset of channel `ch` of pixel `(px, py)` in a row-major RGBA buffer
/// of the given width.
pub open spec fn pixel_byte(width: int, px: int, py: int, ch: int) -> int {
    (py * width + px) * 4 + ch
}

/// Effective source alpha of a glyph pixel: coverage scaled by the color's alpha.
pub open spec fn source_alpha(coverage: u8, color_alpha: u8) -> int {
    (coverage as int * color_alpha as int) / 255
}

/// A color channel after blending `src` over `dst` with source alpha `sa`.
pub open spec fn blend_channel(src: u8, dst: u8, sa: int) -> int {
    (src as int * sa + dst as int * (255 - sa)) / 255
}

/// The alpha channel after blending with source alpha `sa` over `dst`.
pub open spec fn blend_alpha(dst: u8, sa: int) -> int {
    sa + (dst as int * (255 - sa)) / 255
}

/// Coverage the glyph mask gives pixel `(px, py)` when its top-left corner sits
/// at `(dest_x, dest_y)`: the mask value under the pixel, or 0 off the mask.
pub open spec fn coverage_at(
    glyph: Seq<u8>,
    glyph_width: int,
    glyph_height: int,
    dest_x: int,
    dest_y: int,
    px: int,
    py: int,
) -> u8 {
    let gx = px - dest_x;
    let gy = py - dest_y;
    if 0 <= gx < glyph_width && 0 <= gy < glyph_height && gy * glyph_width + gx < glyph.len() {
        glyph[gy * glyph_width + gx]
    } else {
        0
    }
}

/// Channel `ch` of a pixel whose old value is `old` after compositing a glyph
/// pixel of the given coverage in `color`. Zero coverage leaves it unchanged.
pub open spec fn composited(old: u8, ch: int, coverage: u8, color: TextColor) -> int {
    if coverage == 0 {
        old as int
    } else {
        let sa = source_alpha(coverage, color.a);
        if ch == 0 {
            blend_channel(color.r, old, sa)
        } else if ch == 1 {
            blend_channel(color.g, old, sa)
        } else if ch == 2 {
            blend_channel(color.b, old, sa)
        } else {
            blend_alpha(old, sa)
        }
    }
}

proof fn lemma_blend_bounds(src: u8, dst: u8, sa: int)
    requires
        0 <= sa <= 255,
    ensures
        0 <= blend_channel(src, dst, sa) <= 255,
        0 <= blend_alpha(dst, sa) <= 255,
{
    assert(0 <= src as int * sa <= 255 * sa) by (nonlinear_arith)
        requires
            0 <= sa <= 255,
            0 <= src <= 255,
    ;
    assert(0 <= dst as int * (255 - sa) <= 255 * (255 - sa)) by (nonlinear_arith)
        requires
            0 <= sa <= 255,
            0 <= dst <= 255,
    ;
    assert(src as int * sa + dst as int * (255 - sa) <= 255 * 255) by (nonlinear_arith)
        requires
            src as int * sa <= 255 * sa,
            dst as int * (255 - sa) <= 255 * (255 - sa),
    ;
    lemma_div_is_ordered(src as int * sa + dst as int * (255 - sa), 255int * 255, 255);
    lemma_div_is_ordered(dst as int * (255 - sa), 255 * (255 - sa), 255);
    lemma_div_multiples_vanish(255 - sa, 255);
    lemma_div_pos_is_pos(src as int * sa + dst as int * (255 - sa), 255);
    lemma_div_pos_is_pos(dst as int * (255 - sa), 255);
    assert(255 * (255 - sa) == (255 - sa) * 255) by (nonlinear_arith);
}

proof fn lemma_source_alpha_bounds(coverage: u8, color_alpha: u8)
    ensures
        0 <= source_alpha(coverage, color_alpha) <= 255,
{
    assert(0 <= coverage as int * color_alpha as int <= 255 * 255) by (nonlinear_arith)
        requires
            0 <= coverage <= 255,
            0 <= color_alpha <= 255,
    ;
    lemma_div_is_ordered(coverage as int * color_alpha as int, 255int * 255, 255);
    lemma_div_pos_is_pos(coverage as int * color_alpha as int, 255);
}

/// Pixel byte offsets are distinct for distinct (pixel, channel) triples.
proof fn lemma_pixel_byte_injective(
    width: int,
    px: int,
    py: int,
    ch: int,
    qx: int,
    qy: int,
    cq: int,
)
    requires
        width > 0,
        0 <= px < width,
        0 <= qx < width,
        0 <= py,
        0 <= qy,
        0 <= ch < 4,
        0 <= cq < 4,
        pixel_byte(width, px, py, ch) == pixel_byte(width, qx, qy, cq),
    ensures
        px == qx && py == qy && ch == cq,
{
    let p = py * width + px;
    let q = qy * width + qx;
    lemma_fundamental_div_mod_converse(p * 4 + ch, 4, p, ch);
    lemma_fundamental_div_mod_converse(q * 4 + cq, 4, q, cq);
    assert(p == q);
    lemma_fundamental_div_mod_converse(p, width, py, px);
    lemma_fundamental_div_mod_converse(q, width, qy, qx);
}

/// Bounds on pixel offsets inside a `width` x `height` buffer.
proof fn lemma_pixel_byte_bounds(width: int, height: int, px: int, py: int, ch: int)
    requires
        0 <= px < width,
        0 <= py < height,
        0 <= ch < 4,
    ensures
        0 <= pixel_byte(width, px, py, ch) < width * height * 4,
        pixel_byte(width, px, py, ch) == (py * width + px) * 4 + ch,
{
    assert(0 <= py * width + px < width * height) by (nonlinear_arith)
        requires
            0 <= px < width,
            0 <= py < height,
    ;
    assert(0 <= (py * width + px) * 4 + ch < width * height * 4) by (nonlinear_arith)
        requires
            0 <= py * width + px < width * height,
            0 <= ch < 4,
    ;
}

/// Glyph mask offsets stay below the mask's area.
proof fn lemma_glyph_index_bound(gw: int, gh: int, gx: int, gy: int)
    requires
        0 <= gx < gw,
        0 <= gy < gh,
    ensures
        0 <= gy * gw + gx < gw * gh,
{
    assert(0 <= gy * gw + gx < gw * gh) by (nonlinear_arith)
        requires
            0 <= gx < gw,
            0 <= gy < gh,
    ;
}

/// Whether pixel `(px, py)` was already visited when the compositing loop is
/// at glyph row `gy`, column `gx` (rows of the glyph are visited top to
/// bottom, columns left to right).
pub open spec fn visited(dest_x: int, dest_y: int, gx: int, gy: int, px: int, py: int) -> bool {
    py < dest_y + gy || (py == dest_y + gy && px < dest_x + gx)
}

/// Composite a glyph coverage mask (`glyph_width` x `glyph_height`, one byte
/// per pixel, row-major) onto the RGBA bytes of a `pixmap_width` x
/// `pixmap_height` pixmap, with its top-left corner at `(dest_x, dest_y)`.
/// Mask pixels off the pixmap, beyond the mask data, or with zero coverage
/// are skipped; bytes of the buffer past the pixmap's pixels are left alone.
/// A mask with a side beyond `i32::MAX` draws nothing.
pub fn draw_glyph_to_pixmap(
    data: &mut [u8],
    pixmap_width: u32,
    pixmap_height: u32,
    glyph_data: &[u8],
    glyph_width: u32,
    glyph_height: u32,
    dest_x: i32,
    dest_y: i32,
    color: TextColor,
)
    requires
        old(data)@.len() >= pixmap_width as int * pixmap_height as int * 4,
        pixmap_width as int * pixmap_height as int * 4 <= u32::MAX,
        pixmap_width <= i32::MAX,
        pixmap_height <= i32::MAX,
        glyph_width <= i32::MAX && glyph_height <= i32::MAX ==> {
            &&& glyph_width as int * glyph_height as int <= u32::MAX
            &&& dest_x as int + glyph_width as int <= i32::MAX
            &&& dest_y as int + glyph_height as int <= i32::MAX
        },
    ensures
        final(data)@.len() == old(data)@.len(),
        glyph_width > i32::MAX || glyph_height > i32::MAX ==> final(data)@ == old(data)@,
        forall|i: int|
            pixmap_width as int * pixmap_height as int * 4 <= i < old(data)@.len() ==> #[trigger] final(data)@[i]
                == old(data)@[i],
        glyph_width <= i32::MAX && glyph_height <= i32::MAX ==> forall|px: int, py: int, ch: int|
            0 <= px < pixmap_width && 0 <= py < pixmap_height && 0 <= ch < 4 ==> #[trigger] final(data)@[pixel_byte(pixmap_width as int, px, py, ch)] as int
                == composited(
                old(data)@[pixel_byte(pixmap_width as int, px, py, ch)],
                ch,
                coverage_at(
                    glyph_data@,
                    glyph_width as int,
                    glyph_height as int,
                    dest_x as int,
                    dest_y as int,
                    px,
                    py,
                ),
                color,
            ),
{
    if glyph_width > 0x7fff_ffff || glyph_height > 0x7fff_ffff {
        return;
    }
    let ghost orig = data@;
    let ghost w = pixmap_width as int;
    let ghost gw = glyph_width as int;
    let ghost gh = glyph_height as int;
    let pw = pixmap_width as i32;
    let ph = pixmap_height as i32;
    let gwi = glyph_width as i32;
    let ghi = glyph_height as i32;
    let mut gy: i32 = 0;
    while gy < ghi
        invariant
            0 <= gy <= ghi,
            ghi as int == gh,
            gwi as int == gw,
            gw == glyph_width as int,
            gh == glyph_height as int,
            w == pixmap_width as int,
            pw as int == w,
            ph as int == pixmap_height,
            data@.len() == orig.len(),
            orig.len() >= w * pixmap_height * 4,
            forall|i: int| w * pixmap_height * 4 <= i < orig.len() ==> #[trigger] data@[i] == orig[i],
            w * pixmap_height * 4 <= u32::MAX,
            gw * gh <= u32::MAX,
            dest_x as int + gw <= i32::MAX,
            dest_y as int + gh <= i32::MAX,
            forall|px: int, py: int, ch: int|
                0 <= px < w && 0 <= py < pixmap_height && 0 <= ch < 4 ==> #[trigger] data@[pixel_byte(w, px, py, ch)] as int
                    == if visited(dest_x as int, dest_y as int, 0, gy as int, px, py) {
                    composited(
                        orig[pixel_byte(w, px, py, ch)],
                        ch,
                        coverage_at(glyph_data@, gw, gh, dest_x as int, dest_y as int, px, py),
                        color,
                    )
                } else {
                    orig[pixel_byte(w, px, py, ch)] as int
                },
        decreases ghi - gy,
    {
        let py = dest_y + gy;
        if py < 0 || py >= ph {
            proof {
                assert forall|px: int, qy: int, ch: int|
                    0 <= px < w && 0 <= qy < pixmap_height && 0 <= ch < 4 implies #[trigger] data@[pixel_byte(w, px, qy, ch)] as int
                    == if visited(dest_x as int, dest_y as int, 0, gy + 1, px, qy) {
                    composited(
                        orig[pixel_byte(w, px, qy, ch)],
                        ch,
                        coverage_at(glyph_data@, gw, gh, dest_x as int, dest_y as int, px, qy),
                        color,
                    )
                } else {
                    orig[pixel_byte(w, px, qy, ch)] as int
                } by {
                    assert(qy != py);
                }
            }
            gy = gy + 1;
            continue;
        }
        let mut gx: i32 = 0;
        while gx < gwi
            invariant
                0 <= gy < ghi,
                0 <= gx <= gwi,
                py == dest_y + gy,
                0 <= py < ph,
                ghi as int == gh,
                gwi as int == gw,
                gw == glyph_width as int,
                gh == glyph_height as int,
                w == pixmap_width as int,
                pw as int == w,
                ph as int == pixmap_height,
                data@.len() == orig.len(),
                orig.len() >= w * pixmap_height * 4,
                forall|i: int| w * pixmap_height * 4 <= i < orig.len() ==> #[trigger] data@[i] == orig[i],
                w * pixmap_height * 4 <= u32::MAX,
                gw * gh <= u32::MAX,
                dest_x as int + gw <= i32::MAX,
                dest_y as int + gh <= i32::MAX,
                forall|px: int, qy: int, ch: int|
                    0 <= px < w && 0 <= qy < pixmap_height && 0 <= ch < 4 ==> #[trigger] data@[pixel_byte(w, px, qy, ch)] as int
                        == if visited(dest_x as int, dest_y as int, gx as int, gy as int, px, qy) {
                        composited(
                            orig[pixel_byte(w, px, qy, ch)],
                            ch,
                            coverage_at(glyph_data@, gw, gh, dest_x as int, dest_y as int, px, qy),
                            color,
                        )
                    } else {
                        orig[pixel_byte(w, px, qy, ch)] as int
                    },
            decreases gwi - gx,
        {
            let px = dest_x + gx;
            let ghost cov = coverage_at(glyph_data@, gw, gh, dest_x as int, dest_y as int, px as int, py as int);
            proof {
                lemma_glyph_index_bound(gw, gh, gx as int, gy as int);
            }
            if px >= 0 && px < pw {
                let glyph_idx = (gy as u32 * glyph_width + gx as u32) as usize;
                if glyph_idx < glyph_data.len() && glyph_data[glyph_idx] != 0 {
                    let alpha = glyph_data[glyph_idx];
                    proof {
                        lemma_pixel_byte_bounds(w, pixmap_height as int, px as int, py as int, 0);
                        lemma_pixel_byte_bounds(w, pixmap_height as int, px as int, py as int, 3);
                        assert(0 <= (py as int) * w + (px as int) < w * pixmap_height) by (nonlinear_arith)
                            requires
                                0 <= px < w,
                                0 <= py < pixmap_height,
                        ;
                        lemma_source_alpha_bounds(alpha, color.a);
                        assert(alpha as int * color.a as int <= 255 * 255) by (nonlinear_arith)
                            requires
                                alpha <= 255,
                                color.a <= 255,
                        ;
                        assert(cov == alpha);
                    }
                    let pixel_idx = ((py as u32 * pixmap_width + px as u32) * 4) as usize;
                    let src_a: u32 = (alpha as u32 * color.a as u32) / 255;
                    let inv_a: u32 = 255 - src_a;
                    proof {
                        assert(pixel_idx as int == pixel_byte(w, px as int, py as int, 0));
                        lemma_blend_bounds(color.r, data@[pixel_idx as int], src_a as int);
                        lemma_blend_bounds(color.g, data@[pixel_idx as int + 1], src_a as int);
                        lemma_blend_bounds(color.b, data@[pixel_idx as int + 2], src_a as int);
                        lemma_blend_bounds(color.b, data@[pixel_idx as int + 3], src_a as int);
                        assert(color.r as int * src_a as int <= 255 * 255) by (nonlinear_arith)
                            requires color.r <= 255, src_a <= 255;
                        assert(color.g as int * src_a as int <= 255 * 255) by (nonlinear_arith)
                            requires color.g <= 255, src_a <= 255;
                        assert(color.b as int * src_a as int <= 255 * 255) by (nonlinear_arith)
                            requires color.b <= 255, src_a <= 255;
                    }
                    if pixel_idx + 3 < data.len() {
                        let ghost before = data@;
                        let d0 = data[pixel_idx];
                        let d1 = data[pixel_idx + 1];
                        let d2 = data[pixel_idx + 2];
                        let d3 = data[pixel_idx + 3];
                        proof {
                            assert(d0 as int * inv_a as int <= 255 * 255) by (nonlinear_arith)
                                requires d0 <= 255, inv_a <= 255;
                            assert(d1 as int * inv_a as int <= 255 * 255) by (nonlinear_arith)
                                requires d1 <= 255, inv_a <= 255;
                            assert(d2 as int * inv_a as int <= 255 * 255) by (nonlinear_arith)
                                requires d2 <= 255, inv_a <= 255;
                            assert(d3 as int * inv_a as int <= 255 * 255) by (nonlinear_arith)
                                requires d3 <= 255, inv_a <= 255;
                        }
                        data[pixel_idx] = ((color.r as u32 * src_a + d0 as u32 * inv_a) / 255) as u8;
                        data[pixel_idx + 1] = ((color.g as u32 * src_a + d1 as u32 * inv_a) / 255) as u8;
                        data[pixel_idx + 2] = ((color.b as u32 * src_a + d2 as u32 * inv_a) / 255) as u8;
                        data[pixel_idx + 3] = (src_a + (d3 as u32 * inv_a) / 255) as u8;
                        proof {
                            assert forall|qx: int, qy: int, ch: int|
                                0 <= qx < w && 0 <= qy < pixmap_height && 0 <= ch < 4 implies #[trigger] data@[pixel_byte(w, qx, qy, ch)] as int
                                == if visited(dest_x as int, dest_y as int, gx + 1, gy as int, qx, qy) {
                                composited(
                                    orig[pixel_byte(w, qx, qy, ch)],
                                    ch,
                                    coverage_at(glyph_data@, gw, gh, dest_x as int, dest_y as int, qx, qy),
                                    color,
                                )
                            } else {
                                orig[pixel_byte(w, qx, qy, ch)] as int
                            } by {
                                lemma_pixel_byte_bounds(w, pixmap_height as int, qx, qy, ch);
                                if qx == px as int && qy == py as int {
                                    assert(!visited(dest_x as int, dest_y as int, gx as int, gy as int, qx, qy));
                                    assert(before[pixel_byte(w, qx, qy, ch)] == orig[pixel_byte(w, qx, qy, ch)]);
                                } else {
                                    let b = pixel_byte(w, qx, qy, ch);
                                    if b == pixel_idx as int || b == pixel_idx as int + 1 || b == pixel_idx as int + 2 || b == pixel_idx as int + 3 {
                                        let c2 = b - pixel_idx as int;
                                        lemma_pixel_byte_injective(w, qx, qy, ch, px as int, py as int, c2);
                                    }
                                    assert(data@[b] == before[b]);
                                }
                            }
                        }
                    } else {
                        proof {
                            assert(false);
                        }
                    }
                } else {
                    proof {
                        if glyph_idx < glyph_data.len() {
                            assert(cov == 0);
                        } else {
                            assert(cov == 0);
                        }
                        assert forall|qx: int, qy: int, ch: int|
                            0 <= qx < w && 0 <= qy < pixmap_height && 0 <= ch < 4 implies #[trigger] data@[pixel_byte(w, qx, qy, ch)] as int
                            == if visited(dest_x as int, dest_y as int, gx + 1, gy as int, qx, qy) {
                            composited(
                                orig[pixel_byte(w, qx, qy, ch)],
                                ch,
                                coverage_at(glyph_data@, gw, gh, dest_x as int, dest_y as int, qx, qy),
                                color,
                            )
                        } else {
                            orig[pixel_byte(w, qx, qy, ch)] as int
                        } by {}
                    }
                }
            } else {
                proof {
                    assert forall|qx: int, qy: int, ch: int|
                        0 <= qx < w && 0 <= qy < pixmap_height && 0 <= ch < 4 implies #[trigger] data@[pixel_byte(w, qx, qy, ch)] as int
                        == if visited(dest_x as int, dest_y as int, gx + 1, gy as int, qx, qy) {
                        composited(
                            orig[pixel_byte(w, qx, qy, ch)],
                            ch,
                            coverage_at(glyph_data@, gw, gh, dest_x as int, dest_y as int, qx, qy),
                            color,
                        )
                    } else {
                        orig[pixel_byte(w, qx, qy, ch)] as int
                    } by {
                        assert(qx != px as int || qy != py as int);
                    }
                }
            }
            gx = gx + 1;
        }
        proof {
            assert forall|qx: int, qy: int, ch: int|
                0 <= qx < w && 0 <= qy < pixmap_height && 0 <= ch < 4 implies #[trigger] data@[pixel_byte(w, qx, qy, ch)] as int
                == if visited(dest_x as int, dest_y as int, 0, gy + 1, qx, qy) {
                composited(
                    orig[pixel_byte(w, qx, qy, ch)],
                    ch,
                    coverage_at(glyph_data@, gw, gh, dest_x as int, dest_y as int, qx, qy),
                    color,
                )
            } else {
                orig[pixel_byte(w, qx, qy, ch)] as int
            } by {
                if qy == py as int && qx >= dest_x as int + gw {
                    assert(coverage_at(glyph_data@, gw, gh, dest_x as int, dest_y as int, qx, qy) == 0);
                }
            }
        }
        gy = gy + 1;
    }
    proof {
        assert forall|px: int, py: int, ch: int|
            0 <= px < w && 0 <= py < pixmap_height && 0 <= ch < 4 implies #[trigger] data@[pixel_byte(w, px, py, ch)] as int
            == composited(
            orig[pixel_byte(w, px, py, ch)],
            ch,
            coverage_at(glyph_data@, gw, gh, dest_x as int, dest_y as int, px, py),
            color,
        ) by {
            if !visited(dest_x as int, dest_y as int, 0, gh, px, py) {
                assert(coverage_at(glyph_data@, gw, gh, dest_x as int, dest_y as int, px, py) == 0);
            }
        }
    }
}

/// A zeroed RGBA pixel buffer of `width` x `height` pixels.
pub fn create_buffer(width: u32, height: u32) -> (r: Vec<u8>)
    requires
        width as int * height as int * 4 <= u32::MAX,
    ensures
        r@.len() == width as int * height as int * 4,
        forall|i: int| 0 <= i < r@.len() ==> r@[i] == 0u8,
{
    let n = (width * height * 4) as usize;
    vec![0u8; n]
}

/// Compositing a fully covered glyph pixel in an opaque color replaces the
/// pixel's color channels by the text color and makes it opaque.
pub proof fn lemma_opaque_glyph_pixel_replaces(old: u8, ch: int, color: TextColor)
    requires
        color.a == 255,
        0 <= ch < 4,
    ensures
        composited(old, ch, 255, color) == if ch == 0 {
            color.r as int
        } else if ch == 1 {
            color.g as int
        } else if ch == 2 {
            color.b as int
        } else {
            255
        },
{
    assert(source_alpha(255, 255) == 255);
    assert(old as int * (255 - 255) == 0);
    lemma_div_multiples_vanish(color.r as int, 255);
    lemma_div_multiples_vanish(color.g as int, 255);
    lemma_div_multiples_vanish(color.b as int, 255);
    assert(color.r as int * 255 == 255 * color.r as int) by (nonlinear_arith);
    assert(color.g as int * 255 == 255 * color.g as int) by (nonlinear_arith);
    assert(color.b as int * 255 == 255 * color.b as int) by (nonlinear_arith);
}

/// Pixels the glyph mask does not reach keep their old value.
pub proof fn lemma_pixels_off_glyph_unchanged(
    glyph: Seq<u8>,
    glyph_width: int,
    glyph_height: int,
    dest_x: int,
    dest_y: int,
    px: int,
    py: int,
    old: u8,
    ch: int,
    color: TextColor,
)
    requires
        !(dest_x <= px < dest_x + glyph_width && dest_y <= py < dest_y + glyph_height),
    ensures
        composited(
            old,
            ch,
            coverage_at(glyph, glyph_width, glyph_height, dest_x, dest_y, px, py),
            color,
        ) == old as int,
{
}

/// The mask is read row-major: the pixel at offset `(gx, gy)` from the
/// glyph's top-left corner takes the mask byte `gy * glyph_width + gx` (when
/// the mask data reaches it), and a pixel outside the glyph's rectangle
/// gets no coverage.
pub proof fn lemma_coverage_is_row_major_mask(
    glyph: Seq<u8>,
    glyph_width: int,
    glyph_height: int,
    dest_x: int,
    dest_y: int,
    px: int,
    py: int,
)
    ensures
        0 <= px - dest_x < glyph_width && 0 <= py - dest_y < glyph_height
            && (py - dest_y) * glyph_width + (px - dest_x) < glyph.len() ==> coverage_at(
            glyph,
            glyph_width,
            glyph_height,
            dest_x,
            dest_y,
            px,
            py,
        ) == glyph[(py - dest_y) * glyph_width + (px - dest_x)],
        !(0 <= px - dest_x < glyph_width && 0 <= py - dest_y < glyph_height) ==> coverage_at(
            glyph,
            glyph_width,
            glyph_height,
            dest_x,
            dest_y,
            px,
            py,
        ) == 0,
        0 <= px - dest_x < glyph_width && 0 <= py - dest_y < glyph_height
            && (py - dest_y) * glyph_width + (px - dest_x) >= glyph.len() ==> coverage_at(
            glyph,
            glyph_width,
            glyph_height,
            dest_x,
            dest_y,
            px,
            py,
        ) == 0,
{
}

/// The effective source alpha never exceeds the coverage or the color's
/// alpha; full coverage gives the color's alpha and an opaque color gives
/// the coverage.
pub proof fn lemma_source_alpha_scales(coverage: u8, color_alpha: u8)
    ensures
        0 <= source_alpha(coverage, color_alpha) <= coverage,
        source_alpha(coverage, color_alpha) <= color_alpha,
        source_alpha(255, color_alpha) == color_alpha,
        source_alpha(coverage, 255) == coverage,
{
    let c = coverage as int;
    let a = color_alpha as int;
    assert(0 <= c * a <= c * 255) by (nonlinear_arith)
        requires
            0 <= c <= 255,
            0 <= a <= 255,
    ;
    assert(c * a <= 255 * a) by (nonlinear_arith)
        requires
            0 <= c <= 255,
            0 <= a <= 255,
    ;
    lemma_div_is_ordered(c * a, c * 255, 255);
    lemma_div_is_ordered(c * a, 255 * a, 255);
    lemma_div_pos_is_pos(c * a, 255);
    lemma_div_multiples_vanish(c, 255);
    lemma_div_multiples_vanish(a, 255);
    assert(c * 255 == 255 * c) by (nonlinear_arith);
    assert(255 * a == a * 255) by (nonlinear_arith);
}

/// A blended color channel lies between the text color's channel and the
/// old channel: the old value with no source alpha, the text color with
/// full source alpha.
pub proof fn lemma_blend_channel_between(src: u8, dst: u8, sa: int)
    requires
        0 <= sa <= 255,
    ensures
        src <= dst ==> src <= blend_channel(src, dst, sa) <= dst,
        dst <= src ==> dst <= blend_channel(src, dst, sa) <= src,
        blend_channel(src, dst, 0) == dst,
        blend_channel(src, dst, 255) == src,
{
    let x = src as int;
    let y = dst as int;
    let t = x * sa + y * (255 - sa);
    assert(x * sa + x * (255 - sa) == x * 255) by (nonlinear_arith);
    assert(y * sa + y * (255 - sa) == y * 255) by (nonlinear_arith);
    if x <= y {
        assert(x * sa + x * (255 - sa) <= t <= y * sa + y * (255 - sa)) by (nonlinear_arith)
            requires
                x <= y,
                0 <= sa <= 255,
                t == x * sa + y * (255 - sa),
        ;
    } else {
        assert(y * sa + y * (255 - sa) <= t <= x * sa + x * (255 - sa)) by (nonlinear_arith)
            requires
                y <= x,
                0 <= sa <= 255,
                t == x * sa + y * (255 - sa),
        ;
    }
    assert(x * 255 == 255 * x) by (nonlinear_arith);
    assert(y * 255 == 255 * y) by (nonlinear_arith);
    lemma_div_multiples_vanish(x, 255);
    lemma_div_multiples_vanish(y, 255);
    if x <= y {
        lemma_div_is_ordered(x * 255, t, 255);
        lemma_div_is_ordered(t, y * 255, 255);
    } else {
        lemma_div_is_ordered(y * 255, t, 255);
        lemma_div_is_ordered(t, x * 255, 255);
    }
    assert(x * 0 + y * 255 == y * 255) by (nonlinear_arith);
    assert(x * 255 + y * 0 == x * 255) by (nonlinear_arith);
}

/// Compositing never makes a pixel more transparent: the new alpha is at
/// least the old alpha and the source alpha, and at most opaque.
pub proof fn lemma_blend_alpha_never_lowers(dst: u8, sa: int)
    requires
        0 <= sa <= 255,
    ensures
        dst as int <= blend_alpha(dst, sa) <= 255,
        sa <= blend_alpha(dst, sa),
{
    let y = dst as int;
    let q = y * (255 - sa);
    assert(0 <= q <= 255 * (255 - sa)) by (nonlinear_arith)
        requires
            0 <= y <= 255,
            0 <= sa <= 255,
            q == y * (255 - sa),
    ;
    assert((y - sa) * 255 <= q) by (nonlinear_arith)
        requires
            0 <= y <= 255,
            0 <= sa <= 255,
            q == y * (255 - sa),
    ;
    lemma_div_is_ordered(q, 255 * (255 - sa), 255);
    assert(255 * (255 - sa) == (255 - sa) * 255) by (nonlinear_arith);
    lemma_div_multiples_vanish(255 - sa, 255);
    lemma_div_pos_is_pos(q, 255);
    if y > sa {
        lemma_div_is_ordered((y - sa) * 255, q, 255);
        lemma_div_multiples_vanish(y - sa, 255);
    }
}

/// The channel of the text color that color channel `ch` blends with.
pub open spec fn color_channel(color: TextColor, ch: int) -> u8 {
    if ch == 0 {
        color.r
    } else if ch == 1 {
        color.g
    } else {
        color.b
    }
}

/// What compositing does to one byte of a pixel: zero coverage leaves it
/// as it was; otherwise a color channel lands between its old value and the
/// text color's channel, and the alpha channel never drops.
pub proof fn lemma_composited_between(old: u8, ch: int, coverage: u8, color: TextColor)
    requires
        0 <= ch < 4,
    ensures
        coverage == 0 ==> composited(old, ch, coverage, color) == old as int,
        ch < 3 && old <= color_channel(color, ch) ==> old as int <= composited(old, ch, coverage, color)
            <= color_channel(color, ch) as int,
        ch < 3 && color_channel(color, ch) <= old ==> color_channel(color, ch) as int <= composited(
            old,
            ch,
            coverage,
            color,
        ) <= old as int,
        ch == 3 ==> old as int <= composited(old, ch, coverage, color) <= 255,
{
    lemma_source_alpha_scales(coverage, color.a);
    let sa = source_alpha(coverage, color.a);
    if coverage != 0 {
        if ch < 3 {
            lemma_blend_channel_between(color_channel(color, ch), old, sa);
        } else {
            lemma_blend_alpha_never_lowers(old, sa);
        }
    }
}

} // verus!
