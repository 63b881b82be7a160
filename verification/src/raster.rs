//! The rasterizer's compositing core: painting one placed image onto an
//! RGBA canvas with source-over alpha blending, clipped to the canvas.
//!
//! Channels are 8-bit. Blending happens in exact rational arithmetic over
//! the normalized 0–1 channel space and is truncated once at the end, so
//! `out_alpha = src_a + dst_a*(1 − src_a)` and, for each color channel,
//! `out_c = (src_c*src_a + dst_c*dst_a*(1 − src_a)) / out_alpha`, saturated
//! at 255.
//!
//! A piece's payload may be shorter than its declared box promises (a
//! constrainted slot does not resample its fragment): rows and pixels for
//! which the payload holds no complete 4-byte pixel are skipped.

use vstd::arithmetic::div_mod::{
    lemma_div_by_multiple, lemma_div_is_ordered, lemma_fundamental_div_mod,
    lemma_fundamental_div_mod_converse,
};
use vstd::prelude::*;

verus! {

/// The blended alpha: `src_a + dst_a*(255 − src_a)/255`, truncated.
pub open spec fn out_alpha(sa: u8, da: u8) -> u8 {
    (sa + (da * (255 - sa)) / 255) as u8
}

/// One blended color channel: the source-over formula over the original
/// 8-bit values, multiplied out to a single exact division, saturated at
/// 255. `al` is the already-truncated blended alpha.
pub open spec fn blend_channel(dc: u8, sc: u8, da: u8, sa: u8, al: u8) -> u8
    recommends
        al > 0,
{
    let num = 255 * (sc as int) * (sa as int) + (dc as int) * (da as int) * (255 - sa as int);
    let q = num / (255 * (al as int));
    if q > 255 {
        255u8
    } else {
        q as u8
    }
}

/// One blended RGBA pixel. When the blended alpha is zero (both inputs were
/// fully transparent) the color channels are left untouched and the alpha is
/// forced to zero.
pub open spec fn blend_pixel(d: Seq<u8>, s: Seq<u8>) -> Seq<u8>
    recommends
        d.len() == 4,
        s.len() == 4,
{
    let al = out_alpha(s[3], d[3]);
    if al == 0 {
        seq![d[0], d[1], d[2], 0u8]
    } else {
        seq![
            blend_channel(d[0], s[0], d[3], s[3], al),
            blend_channel(d[1], s[1], d[3], s[3], al),
            blend_channel(d[2], s[2], d[3], s[3], al),
            al,
        ]
    }
}

/// The byte offset of a source pixel within a payload of row stride `iw`.
pub open spec fn src_index(iw: int, sx: int, sy: int) -> int {
    4 * (sy * iw + sx)
}

/// Does the piece cover canvas pixel `(x, y)`? It must lie in the piece's
/// column window, at or below the piece's top edge, and the payload must
/// hold a complete pixel for it.
pub open spec fn covered(
    cw: int,
    px: int,
    py: int,
    iw: int,
    src_len: int,
    x: int,
    y: int,
) -> bool {
    &&& px <= x < px + iw
    &&& py <= y
    &&& src_index(iw, x - px, y - py) + 4 <= src_len
}

/// The canvas after painting the piece on the pixels of rows before `yb`,
/// and of row `yb` left of column `xb`: each covered pixel in that region is
/// blended, everything else keeps its old bytes.
pub open spec fn painted_below(
    dst: Seq<u8>,
    cw: int,
    px: int,
    py: int,
    iw: int,
    src: Seq<u8>,
    yb: int,
    xb: int,
) -> Seq<u8> {
    Seq::new(
        dst.len(),
        |i: int|
            {
                let pix = i / 4;
                let chan = i % 4;
                let x = pix % cw;
                let y = pix / cw;
                if (y < yb || (y == yb && x < xb)) && covered(cw, px, py, iw, src.len() as int, x, y) {
                    let si = src_index(iw, x - px, y - py);
                    let di = 4 * pix;
                    blend_pixel(dst.subrange(di, di + 4), src.subrange(si, si + 4))[chan]
                } else {
                    dst[i]
                }
            },
    )
}

/// The canvas after painting the whole piece: every covered pixel blended,
/// everything else untouched.
pub open spec fn spec_paint(
    dst: Seq<u8>,
    cw: int,
    ch: int,
    px: int,
    py: int,
    iw: int,
    src: Seq<u8>,
) -> Seq<u8> {
    Seq::new(
        dst.len(),
        |i: int|
            {
                let pix = i / 4;
                let chan = i % 4;
                let x = pix % cw;
                let y = pix / cw;
                if covered(cw, px, py, iw, src.len() as int, x, y) {
                    let si = src_index(iw, x - px, y - py);
                    let di = 4 * pix;
                    blend_pixel(dst.subrange(di, di + 4), src.subrange(si, si + 4))[chan]
                } else {
                    dst[i]
                }
            },
    )
}

/// The coordinates a byte index addresses on a canvas: its pixel, channel,
/// column and row, with their bounds.
proof fn lemma_pixel_coords(i: int, cw: int, ch: int)
    requires
        0 <= i < cw * ch * 4,
        cw > 0,
        ch > 0,
    ensures
        ({
            let pix = i / 4;
            let x = pix % cw;
            let y = pix / cw;
            &&& 0 <= i % 4 < 4
            &&& 0 <= x < cw
            &&& 0 <= y < ch
            &&& pix == y * cw + x
            &&& 4 * pix <= i < 4 * pix + 4
            &&& i % 4 == i - 4 * pix
        }),
{
    lemma_fundamental_div_mod(i, 4);
    vstd::arithmetic::div_mod::lemma_mod_bound(i, 4);
    let pix = i / 4;
    assert(0 <= pix < cw * ch) by (nonlinear_arith)
        requires
            0 <= i < cw * ch * 4,
            i == 4 * pix + i % 4,
            0 <= i % 4 < 4,
    ;
    lemma_fundamental_div_mod(pix, cw);
    vstd::arithmetic::div_mod::lemma_mod_bound(pix, cw);
    let x = pix % cw;
    let y = pix / cw;
    assert(0 <= y < ch) by (nonlinear_arith)
        requires
            0 <= pix < cw * ch,
            pix == cw * y + x,
            0 <= x < cw,
            cw > 0,
            ch > 0,
    ;
    assert(cw * y == y * cw) by (nonlinear_arith);
}

/// Law: a piece placed entirely outside the canvas leaves the canvas
/// unchanged. "Entirely outside" means the placed box `iw` wide and `ih`
/// high does not intersect the canvas, where the payload fits the box.
pub proof fn lemma_paint_outside_unchanged(
    dst: Seq<u8>,
    cw: int,
    ch: int,
    px: int,
    py: int,
    iw: int,
    ih: int,
    src: Seq<u8>,
)
    requires
        dst.len() == cw * ch * 4,
        cw > 0,
        ch > 0,
        iw >= 0,
        ih >= 0,
        src.len() <= 4 * (iw * ih),
        px + iw <= 0 || px >= cw || py + ih <= 0 || py >= ch,
    ensures
        spec_paint(dst, cw, ch, px, py, iw, src) == dst,
{
    let out = spec_paint(dst, cw, ch, px, py, iw, src);
    assert forall|i: int| 0 <= i < dst.len() implies out[i] == dst[i] by {
        lemma_pixel_coords(i, cw, ch);
        let pix = i / 4;
        let x = pix % cw;
        let y = pix / cw;
        if covered(cw, px, py, iw, src.len() as int, x, y) {
            assert(px + iw > 0 && px < cw);
            if py + ih <= 0 {
                let sy = y - py;
                let sx = x - px;
                assert(sy >= ih);
                assert(4 * (sy * iw + sx) + 4 > src.len()) by (nonlinear_arith)
                    requires
                        sy >= ih >= 0,
                        0 <= sx < iw,
                        src.len() <= 4 * (iw * ih),
                ;
                assert(false);
            }
        }
    }
    assert(out =~= dst);
}

/// The blended alpha never exceeds 255 and is computed without overflow.
proof fn lemma_out_alpha_bound(sa: u8, da: u8)
    ensures
        0 <= sa + (da * (255 - sa)) / 255 <= 255,
        out_alpha(sa, da) == sa + (da * (255 - sa)) / 255,
{
    assert(da * (255 - sa) <= 255 * (255 - sa)) by (nonlinear_arith)
        requires
            da <= 255,
            sa <= 255,
    ;
    lemma_div_is_ordered(da * (255 - sa), 255 * (255 - sa), 255);
    lemma_div_by_multiple(255 - sa, 255);
    assert((da * (255 - sa)) / 255 >= 0) by {
        vstd::arithmetic::div_mod::lemma_div_pos_is_pos(da * (255 - sa), 255);
        assert(da * (255 - sa) >= 0) by (nonlinear_arith)
            requires
                da >= 0,
                sa <= 255,
        ;
    }
}

/// The blended alpha, computed executably.
fn out_alpha_exec(sa: u8, da: u8) -> (r: u8)
    ensures
        r == out_alpha(sa, da),
{
    proof {
        lemma_out_alpha_bound(sa, da);
    }
    let v: u32 = sa as u32 + ((da as u32) * (255 - sa as u32)) / 255;
    v as u8
}

/// One blended color channel, computed executably.
fn blend_channel_exec(dc: u8, sc: u8, da: u8, sa: u8, al: u8) -> (r: u8)
    requires
        al > 0,
    ensures
        r == blend_channel(dc, sc, da, sa, al),
{
    proof {
        assert(255 * (sc as int) * (sa as int) <= 16581375) by (nonlinear_arith)
            requires
                sc <= 255,
                sa <= 255,
        ;
        assert(0 <= (dc as int) * (da as int) * (255 - sa as int) <= 16581375) by (nonlinear_arith)
            requires
                dc <= 255,
                da <= 255,
                sa <= 255,
        ;
        assert(255 * (sc as int) * (sa as int) >= 0) by (nonlinear_arith)
            requires
                sc >= 0,
                sa >= 0,
        ;
        assert(0 <= (dc as int) * (da as int) <= 65025) by (nonlinear_arith)
            requires
                dc <= 255,
                da <= 255,
        ;
    }
    let num: u32 = 255 * (sc as u32) * (sa as u32) + (dc as u32) * (da as u32) * (255
        - sa as u32);
    let den: u32 = 255 * (al as u32);
    let q: u32 = num / den;
    proof {
        vstd::arithmetic::div_mod::lemma_div_pos_is_pos(num as int, den as int);
    }
    if q > 255 {
        255
    } else {
        q as u8
    }
}

/// Blends the 4-byte source pixel at `si` over the 4-byte canvas pixel at
/// `di`, in place. Only those four canvas bytes change.
fn blend_at(dst: &mut Vec<u8>, di: usize, src: &Vec<u8>, si: usize)
    requires
        di + 4 <= old(dst)@.len(),
        si + 4 <= src@.len(),
    ensures
        final(dst)@.len() == old(dst)@.len(),
        forall|k: int|
            0 <= k < old(dst)@.len() && !(di <= k < di + 4) ==> final(dst)@[k] == old(dst)@[k],
        final(dst)@.subrange(di as int, di as int + 4) == blend_pixel(
            old(dst)@.subrange(di as int, di as int + 4),
            src@.subrange(si as int, si as int + 4),
        ),
{
    let sn: usize = src.len();
    let dn: usize = dst.len();
    let sa = src[si + 3];
    let da = dst[di + 3];
    let al = out_alpha_exec(sa, da);
    if al != 0 {
        let c0 = blend_channel_exec(dst[di], src[si], da, sa, al);
        let c1 = blend_channel_exec(dst[di + 1], src[si + 1], da, sa, al);
        let c2 = blend_channel_exec(dst[di + 2], src[si + 2], da, sa, al);
        dst.set(di, c0);
        dst.set(di + 1, c1);
        dst.set(di + 2, c2);
    }
    dst.set(di + 3, al);
    proof {
        let d4 = old(dst)@.subrange(di as int, di as int + 4);
        let s4 = src@.subrange(si as int, si as int + 4);
        assert(d4[0] == old(dst)@[di as int]);
        assert(d4[1] == old(dst)@[di as int + 1]);
        assert(d4[2] == old(dst)@[di as int + 2]);
        assert(d4[3] == old(dst)@[di as int + 3]);
        assert(s4[0] == src@[si as int]);
        assert(s4[3] == src@[si as int + 3]);
        assert(dst@.subrange(di as int, di as int + 4) =~= blend_pixel(d4, s4));
    }
}

/// Paints one piece onto the canvas: the canvas is `cw` pixels wide and `ch`
/// high, the piece's payload `src` is `iw` pixels wide per row, and the
/// piece's top left corner sits at `(px, py)`. Exactly [`spec_paint`].
pub fn paint_piece(dst: &mut Vec<u8>, cw: u32, ch: u32, px: i64, py: i64, iw: u32, src: &Vec<u8>)
    requires
        old(dst)@.len() == (cw as int) * (ch as int) * 4,
    ensures
        final(dst)@.len() == old(dst)@.len(),
        final(dst)@ == spec_paint(
            old(dst)@,
            cw as int,
            ch as int,
            px as int,
            py as int,
            iw as int,
            src@,
        ),
{
    let ghost orig = dst@;
    let ghost g_cw = cw as int;
    let ghost g_ch = ch as int;
    let ghost g_px = px as int;
    let ghost g_py = py as int;
    let ghost g_iw = iw as int;
    let ghost slen = src@.len() as int;

    if cw == 0 || ch == 0 {
        proof {
            assert(orig.len() == 0) by (nonlinear_arith)
                requires
                    orig.len() == g_cw * g_ch * 4,
                    g_cw == 0 || g_ch == 0,
            ;
            assert(dst@ =~= spec_paint(orig, g_cw, g_ch, g_px, g_py, g_iw, src@));
        }
        return ;
    }
    // The piece's column window on the canvas, clipped: [x0, x1).
    let xend: i128 = px as i128 + iw as i128;
    let x0: u64 = if px <= 0 {
        0
    } else if px >= cw as i64 {
        cw as u64
    } else {
        px as u64
    };
    let x1: u64 = if xend <= 0 {
        0
    } else if xend >= cw as i128 {
        cw as u64
    } else {
        xend as u64
    };
    // The first canvas row the piece can touch.
    let y0: u64 = if py <= 0 {
        0
    } else if py >= ch as i64 {
        ch as u64
    } else {
        py as u64
    };
    proof {
        // No pixel above row y0, left of column x0, or at or right of
        // column x1 is covered.
        assert forall|x: int, y: int|
            0 <= x < g_cw && 0 <= y && (x < x0 || x >= x1 || y < y0) implies !covered(
            g_cw,
            g_px,
            g_py,
            g_iw,
            slen,
            x,
            y,
        ) by {}
        assert(dst@ =~= painted_below(orig, g_cw, g_px, g_py, g_iw, src@, y0 as int, x0 as int))
            by {
            assert forall|i: int| 0 <= i < orig.len() implies painted_below(
                orig,
                g_cw,
                g_px,
                g_py,
                g_iw,
                src@,
                y0 as int,
                x0 as int,
            )[i] == orig[i] by {
                lemma_pixel_coords(i, g_cw, g_ch);
            }
        }
    }
    let mut y: u64 = y0;
    while y < ch as u64
        invariant
            orig.len() == g_cw * g_ch * 4,
            dst@.len() == orig.len(),
            src@.len() == slen,
            g_cw == cw as int && g_ch == ch as int && g_px == px as int && g_py == py as int
                && g_iw == iw as int,
            cw > 0,
            ch > 0,
            x0 <= x1 <= cw as u64,
            y0 <= y <= ch as u64,
            x0 as int == if g_px <= 0 {
                0int
            } else if g_px >= g_cw {
                g_cw
            } else {
                g_px
            },
            x1 as int == if g_px + g_iw <= 0 {
                0int
            } else if g_px + g_iw >= g_cw {
                g_cw
            } else {
                g_px + g_iw
            },
            y0 as int == if g_py <= 0 {
                0int
            } else if g_py >= g_ch {
                g_ch
            } else {
                g_py
            },
            dst@ == painted_below(orig, g_cw, g_px, g_py, g_iw, src@, y as int, x0 as int),
        decreases ch as u64 - y,
    {
        let mut x: u64 = x0;
        while x < x1
            invariant
                orig.len() == g_cw * g_ch * 4,
                dst@.len() == orig.len(),
                src@.len() == slen,
                g_cw == cw as int && g_ch == ch as int && g_px == px as int && g_py == py as int
                    && g_iw == iw as int,
                cw > 0,
                ch > 0,
                x0 <= x1 <= cw as u64,
                x0 <= x <= x1,
                y0 <= y,
                y < ch as u64,
                y0 as int == if g_py <= 0 {
                    0int
                } else if g_py >= g_ch {
                    g_ch
                } else {
                    g_py
                },
                x0 as int == if g_px <= 0 {
                    0int
                } else if g_px >= g_cw {
                    g_cw
                } else {
                    g_px
                },
                x1 as int == if g_px + g_iw <= 0 {
                    0int
                } else if g_px + g_iw >= g_cw {
                    g_cw
                } else {
                    g_px + g_iw
                },
                dst@ == painted_below(orig, g_cw, g_px, g_py, g_iw, src@, y as int, x as int),
            decreases x1 - x,
        {
            proof {
                assert(g_px <= x as int);
                assert(g_py <= y as int);
                assert((x as int) - g_px < 0x1_0000_0000_0000_0000);
                assert((y as int) - g_py < 0x1_0000_0000_0000_0000);
            }
            let sx: u64 = (x as i128 - px as i128) as u64;
            let sy: u64 = (y as i128 - py as i128) as u64;
            proof {
                assert(sx as int == x - g_px);
                assert(sy as int == y - g_py);
                assert(sx < iw);
            }
            proof {
                assert((sy as u128) * (iw as u128) <= 0xFFFF_FFFF_FFFF_FFFF * 0xFFFF_FFFFu128)
                    by (nonlinear_arith)
                    requires
                        (sy as u128) <= 0xFFFF_FFFF_FFFF_FFFFu128,
                        (iw as u128) <= 0xFFFF_FFFFu128,
                ;
            }
            let si128: u128 = 4 * ((sy as u128) * (iw as u128) + (sx as u128));
            proof {
                assert(si128 as int == src_index(g_iw, x - g_px, y - g_py)) by (nonlinear_arith)
                    requires
                        si128 == 4 * ((sy as u128) * (iw as u128) + (sx as u128)),
                        sx as int == x - g_px,
                        sy as int == y - g_py,
                        g_iw == iw as int,
                        sy < 0x1_0000_0000_0000_0000,
                        iw < 0x1_0000_0000,
                        sx < 0x1_0000_0000_0000_0000,
                ;
            }
            let ghost pre = dst@;
            if si128 + 4 <= src.len() as u128 {
                let si: usize = si128 as usize;
                let dn: usize = dst.len();
                proof {
                    let yi = y as int;
                    let xi = x as int;
                    assert(yi * g_cw + xi <= g_ch * g_cw - 1) by (nonlinear_arith)
                        requires
                            0 <= yi,
                            yi <= g_ch - 1,
                            0 <= xi,
                            xi <= g_cw - 1,
                            g_cw >= 1,
                    ;
                    assert(dn == g_cw * g_ch * 4);
                    assert(g_ch * g_cw == g_cw * g_ch) by (nonlinear_arith);
                }
                let di64: u64 = 4 * (y * (cw as u64) + x);
                proof {
                    assert(di64 as int == 4 * ((y as int) * g_cw + (x as int)));
                    assert(di64 + 4 <= orig.len());
                }
                let di: usize = di64 as usize;
                blend_at(dst, di, src, si);
                proof {
                    let pix = (y as int) * g_cw + (x as int);
                    lemma_fundamental_div_mod_converse(pix, g_cw, y as int, x as int);
                    assert(pre.subrange(di as int, di as int + 4) =~= orig.subrange(
                        di as int,
                        di as int + 4,
                    )) by {
                        assert forall|k: int| di <= k < di + 4 implies pre[k] == orig[k] by {
                            lemma_pixel_coords(k, g_cw, g_ch);
                            lemma_fundamental_div_mod_converse(k, 4, pix, k - 4 * pix);
                        }
                    }
                    assert(dst@ =~= painted_below(
                        orig,
                        g_cw,
                        g_px,
                        g_py,
                        g_iw,
                        src@,
                        y as int,
                        x as int + 1,
                    )) by {
                        assert forall|i: int| 0 <= i < orig.len() implies dst@[i] == painted_below(
                            orig,
                            g_cw,
                            g_px,
                            g_py,
                            g_iw,
                            src@,
                            y as int,
                            x as int + 1,
                        )[i] by {
                            lemma_pixel_coords(i, g_cw, g_ch);
                            let ipix = i / 4;
                            if ipix == pix {
                                assert(i / 4 == pix);
                                assert(4 * pix == di as int);
                                assert(dst@[i] == dst@.subrange(di as int, di as int + 4)[i % 4]);
                            } else {
                                assert(!(di <= i < di + 4)) by {
                                    if di <= i < di + 4 {
                                        lemma_fundamental_div_mod_converse(
                                            i,
                                            4,
                                            pix,
                                            i - 4 * pix,
                                        );
                                    }
                                }
                            }
                        }
                    }
                }
            } else {
                proof {
                    assert(dst@ =~= painted_below(
                        orig,
                        g_cw,
                        g_px,
                        g_py,
                        g_iw,
                        src@,
                        y as int,
                        x as int + 1,
                    )) by {
                        assert forall|i: int| 0 <= i < orig.len() implies dst@[i] == painted_below(
                            orig,
                            g_cw,
                            g_px,
                            g_py,
                            g_iw,
                            src@,
                            y as int,
                            x as int + 1,
                        )[i] by {
                            lemma_pixel_coords(i, g_cw, g_ch);
                        }
                    }
                }
            }
            x = x + 1;
        }
        proof {
            assert(painted_below(orig, g_cw, g_px, g_py, g_iw, src@, y as int, x as int)
                =~= painted_below(
                orig,
                g_cw,
                g_px,
                g_py,
                g_iw,
                src@,
                y as int + 1,
                x0 as int,
            )) by {
                assert forall|i: int| 0 <= i < orig.len() implies painted_below(
                    orig,
                    g_cw,
                    g_px,
                    g_py,
                    g_iw,
                    src@,
                    y as int,
                    x as int,
                )[i] == painted_below(
                    orig,
                    g_cw,
                    g_px,
                    g_py,
                    g_iw,
                    src@,
                    y as int + 1,
                    x0 as int,
                )[i] by {
                    lemma_pixel_coords(i, g_cw, g_ch);
                }
            }
        }
        y = y + 1;
    }
    proof {
        assert(dst@ =~= spec_paint(orig, g_cw, g_ch, g_px, g_py, g_iw, src@)) by {
            assert forall|i: int| 0 <= i < orig.len() implies painted_below(
                orig,
                g_cw,
                g_px,
                g_py,
                g_iw,
                src@,
                y as int,
                x0 as int,
            )[i] == spec_paint(orig, g_cw, g_ch, g_px, g_py, g_iw, src@)[i] by {
                lemma_pixel_coords(i, g_cw, g_ch);
            }
        }
    }
}

} // verus!
