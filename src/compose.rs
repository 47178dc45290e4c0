use vstd::prelude::*;

use crate::raster::{grid, lemma_grid, model_at, model_contains, Model, RasterImage, Rgba, OPAQUE};

verus! {

/// What pasting `source` at column `x0`, row `y0` of `target` leaves at column `i`, row `j`
/// of the target: the source pixel that lands there if it is fully opaque, else the old one.
pub open spec fn pasted(target: Model, x0: int, y0: int, source: Model, i: int, j: int) -> Rgba {
    if model_contains(source, i - x0, j - y0) && model_at(source, i - x0, j - y0)[3] == OPAQUE {
        model_at(source, i - x0, j - y0)
    } else {
        model_at(target, i, j)
    }
}

/// The image `target` after pasting `source` at column `x0`, row `y0`.
pub open spec fn paste_model(target: Model, x0: int, y0: int, source: Model) -> Model {
    (target.0, target.1, grid(target.0, target.1, |i: int, j: int| pasted(target, x0, y0, source, i, j)))
}

/// A `side` by `side` square, opaque white within its corners rounded to `radius`,
/// transparent outside them.
pub open spec fn frame_model(side: u32, radius: u32) -> Model {
    (side, side, grid(side, side, |i: int, j: int| if within_rounded(side as int, side as int, radius as int, i, j) {
        WHITE
    } else {
        CLEAR
    }))
}

/// The image `m` with every pixel outside its corners rounded to `radius` made transparent.
pub open spec fn rounded_model(m: Model, radius: u32) -> Model {
    (m.0, m.1, grid(m.0, m.1, |i: int, j: int| if within_rounded(m.0 as int, m.1 as int, radius as int, i, j) {
        model_at(m, i, j)
    } else {
        CLEAR
    }))
}

/// Whether the source position `(sx, sy)` comes before `(x, y)` in row order.
pub open spec fn before(sx: int, sy: int, x: int, y: int) -> bool {
    sy < y || (sy == y && sx < x)
}

/// Copies every fully opaque pixel of `source` onto `target`, the source's top left corner
/// at column `x0`, row `y0`; pixels that would fall outside `target` are dropped.
pub fn paste(target: &mut RasterImage, x0: u32, y0: u32, source: &RasterImage)
    requires
        old(target).wf(),
        source.wf(),
    ensures
        final(target).wf(),
        final(target).width == old(target).width,
        final(target).height == old(target).height,
        forall|i: int, j: int|
            #![trigger final(target).at(i, j)]
            final(target).contains(i, j) ==> final(target).at(i, j) == pasted(
                old(target)@,
                x0 as int,
                y0 as int,
                source@,
                i,
                j,
            ),
        final(target)@ == paste_model(old(target)@, x0 as int, y0 as int, source@),
{
    let ghost start = *target;
    let tw = target.width;
    let th = target.height;
    let mut y: u32 = 0;
    while y < source.height
        invariant
            target.wf(),
            target.width == tw == start.width,
            target.height == th == start.height,
            source.wf(),
            y <= source.height,
            forall|i: int, j: int|
                #![trigger target.at(i, j)]
                target.contains(i, j) ==> target.at(i, j) == if before(i - x0, j - y0, 0, y as int) {
                    pasted(start@, x0 as int, y0 as int, source@, i, j)
                } else {
                    start.at(i, j)
                },
        decreases source.height - y,
    {
        let mut x: u32 = 0;
        while x < source.width
            invariant
                target.wf(),
                target.width == tw == start.width,
                target.height == th == start.height,
                source.wf(),
                y < source.height,
                x <= source.width,
                forall|i: int, j: int|
                    #![trigger target.at(i, j)]
                    target.contains(i, j) ==> target.at(i, j) == if before(i - x0, j - y0, x as int, y as int) {
                        pasted(start@, x0 as int, y0 as int, source@, i, j)
                    } else {
                        start.at(i, j)
                    },
            decreases source.width - x,
        {
            if (x0 as u64 + x as u64) < tw as u64 && (y0 as u64 + y as u64) < th as u64 {
                let p = source.get(x, y);
                if p[3] == OPAQUE {
                    target.put(x0 + x, y0 + y, p);
                }
            }
            x = x + 1;
        }
        y = y + 1;
    }
    proof {
        lemma_grid(*target, |i: int, j: int| pasted(start@, x0 as int, y0 as int, source@, i, j));
    }
}

/// Pasting keeps the target's dimensions, and changes a target pixel only where a fully
/// opaque source pixel lands on it.
pub proof fn lemma_paste_writes_only_opaque(target: Model, x0: int, y0: int, source: Model, i: int, j: int)
    requires
        target.2.len() == target.0 as int * target.1 as int,
        model_contains(target, i, j),
    ensures
        paste_model(target, x0, y0, source).0 == target.0,
        paste_model(target, x0, y0, source).1 == target.1,
        model_at(paste_model(target, x0, y0, source), i, j) != model_at(target, i, j) ==> {
            &&& model_contains(source, i - x0, j - y0)
            &&& model_at(source, i - x0, j - y0)[3] == OPAQUE
            &&& model_at(paste_model(target, x0, y0, source), i, j) == model_at(source, i - x0, j - y0)
        },
{
    let w = target.0 as int;
    let k = j * w + i;
    crate::raster::lemma_offset_in_bounds(w, target.1 as int, i, j);
    vstd::arithmetic::div_mod::lemma_fundamental_div_mod_converse(k, w, j, i);
}

/// A fully opaque white pixel.
pub const WHITE: Rgba = [255, 255, 255, 255];

/// A fully transparent pixel.
pub const CLEAR: Rgba = [0, 0, 0, 0];

/// How far position `x` of a span `n` long lies inside a corner zone of width `r` at either
/// end, counted from the zone's inner edge; zero between the two zones.
pub open spec fn corner_gap(n: int, r: int, x: int) -> int {
    if x < r {
        r - x
    } else if x >= n - r {
        x - (n - r)
    } else {
        0
    }
}

/// Whether column `x`, row `y` of a `w` by `h` rectangle lies within its corners rounded to
/// radius `r`: its distance to the nearest corner centre is at most `r`.
pub open spec fn within_rounded(w: int, h: int, r: int, x: int, y: int) -> bool {
    let dx = corner_gap(w, r, x);
    let dy = corner_gap(h, r, y);
    dx * dx + dy * dy <= r * r
}

fn corner_gap_of(n: u32, r: u32, x: u32) -> (g: u128)
    requires
        r <= n,
        x < n,
    ensures
        g == corner_gap(n as int, r as int, x as int),
        g <= r,
{
    if x < r {
        (r - x) as u128
    } else if x >= n - r {
        (x - (n - r)) as u128
    } else {
        0
    }
}

/// Whether column `x`, row `y` of a `w` by `h` rectangle lies within its corners rounded to
/// radius `r`.
pub fn is_within_rounded(w: u32, h: u32, r: u32, x: u32, y: u32) -> (b: bool)
    requires
        r <= w,
        r <= h,
        x < w,
        y < h,
    ensures
        b == within_rounded(w as int, h as int, r as int, x as int, y as int),
{
    let dx = corner_gap_of(w, r, x);
    let dy = corner_gap_of(h, r, y);
    assert(dx * dx <= r as u128 * r as u128) by (nonlinear_arith)
        requires dx <= r;
    assert(dy * dy <= r as u128 * r as u128) by (nonlinear_arith)
        requires dy <= r;
    assert(r as u128 * r as u128 <= 0xffff_ffff * 0xffff_ffff) by (nonlinear_arith)
        requires r <= 0xffff_ffff;
    dx * dx + dy * dy <= r as u128 * r as u128
}

/// A `side` by `side` square: opaque white within its corners rounded to `radius`,
/// transparent outside them.
pub fn rounded_frame(side: u32, radius: u32) -> (r: RasterImage)
    requires
        radius <= side,
        RasterImage::fits(side, side),
    ensures
        r.wf(),
        r.width == side,
        r.height == side,
        forall|i: int, j: int|
            #![trigger r.at(i, j)]
            r.contains(i, j) ==> r.at(i, j) == if within_rounded(
                side as int,
                side as int,
                radius as int,
                i,
                j,
            ) {
                WHITE
            } else {
                CLEAR
            },
        r@ == frame_model(side, radius),
{
    let mut img = RasterImage::filled(side, side, CLEAR);
    let mut y: u32 = 0;
    while y < side
        invariant
            img.wf(),
            img.width == side,
            img.height == side,
            radius <= side,
            y <= side,
            forall|i: int, j: int|
                #![trigger img.at(i, j)]
                img.contains(i, j) ==> img.at(i, j) == if before(i, j, 0, y as int)
                    && within_rounded(side as int, side as int, radius as int, i, j) {
                    WHITE
                } else {
                    CLEAR
                },
        decreases side - y,
    {
        let mut x: u32 = 0;
        while x < side
            invariant
                img.wf(),
                img.width == side,
                img.height == side,
                radius <= side,
                y < side,
                x <= side,
                forall|i: int, j: int|
                    #![trigger img.at(i, j)]
                    img.contains(i, j) ==> img.at(i, j) == if before(i, j, x as int, y as int)
                        && within_rounded(side as int, side as int, radius as int, i, j) {
                        WHITE
                    } else {
                        CLEAR
                    },
            decreases side - x,
        {
            if is_within_rounded(side, side, radius, x, y) {
                img.put(x, y, WHITE);
            }
            x = x + 1;
        }
        y = y + 1;
    }
    proof {
        lemma_grid(img, |i: int, j: int| if within_rounded(side as int, side as int, radius as int, i, j) {
            WHITE
        } else {
            CLEAR
        });
    }
    img
}

/// Makes every pixel of `img` outside its corners rounded to `radius` transparent, leaving
/// the others as they were.
pub fn round_corners(img: &mut RasterImage, radius: u32)
    requires
        old(img).wf(),
        radius <= old(img).width,
        radius <= old(img).height,
    ensures
        final(img).wf(),
        final(img).width == old(img).width,
        final(img).height == old(img).height,
        forall|i: int, j: int|
            #![trigger final(img).at(i, j)]
            final(img).contains(i, j) ==> final(img).at(i, j) == if within_rounded(
                old(img).width as int,
                old(img).height as int,
                radius as int,
                i,
                j,
            ) {
                old(img).at(i, j)
            } else {
                CLEAR
            },
        final(img)@ == rounded_model(old(img)@, radius),
{
    let ghost start = *img;
    let w = img.width;
    let h = img.height;
    let mut y: u32 = 0;
    while y < h
        invariant
            img.wf(),
            img.width == w == start.width,
            img.height == h == start.height,
            radius <= w,
            radius <= h,
            y <= h,
            forall|i: int, j: int|
                #![trigger img.at(i, j)]
                img.contains(i, j) ==> img.at(i, j) == if before(i, j, 0, y as int)
                    && !within_rounded(w as int, h as int, radius as int, i, j) {
                    CLEAR
                } else {
                    start.at(i, j)
                },
        decreases h - y,
    {
        let mut x: u32 = 0;
        while x < w
            invariant
                img.wf(),
                img.width == w == start.width,
                img.height == h == start.height,
                radius <= w,
                radius <= h,
                y < h,
                x <= w,
                forall|i: int, j: int|
                    #![trigger img.at(i, j)]
                    img.contains(i, j) ==> img.at(i, j) == if before(i, j, x as int, y as int)
                        && !within_rounded(w as int, h as int, radius as int, i, j) {
                        CLEAR
                    } else {
                        start.at(i, j)
                    },
            decreases w - x,
        {
            if !is_within_rounded(w, h, radius, x, y) {
                img.put(x, y, CLEAR);
            }
            x = x + 1;
        }
        y = y + 1;
    }
    proof {
        lemma_grid(*img, |i: int, j: int| if within_rounded(w as int, h as int, radius as int, i, j) {
            model_at(start@, i, j)
        } else {
            CLEAR
        });
    }
}

} // verus!
