use vstd::prelude::*;

verus! {

/// One pixel: red, green, blue and alpha, eight bits each.
pub type Rgba = [u8; 4];

/// The alpha value of a fully opaque pixel.
pub const OPAQUE: u8 = 255;

/// A `width` by `height` RGBA image; the pixel at column `x` and row `y` is
/// `pixels[y * width + x]`.
pub struct RasterImage {
    pub width: u32,
    pub height: u32,
    pub pixels: Vec<Rgba>,
}

/// The position in the pixel buffer of column `x`, row `y` of an image `w` pixels wide.
pub open spec fn offset(w: int, x: int, y: int) -> int {
    y * w + x
}

/// Width, height and pixels in row order.
pub type Model = (u32, u32, Seq<Rgba>);

impl View for RasterImage {
    type V = Model;

    open spec fn view(&self) -> Model {
        (self.width, self.height, self.pixels@)
    }
}

/// The pixels, in row order, of the `cw` by `ch` window whose top left corner is at column
/// `x`, row `y` of an image `w` pixels wide with pixels `pixels`.
pub open spec fn window(w: u32, pixels: Seq<Rgba>, x: int, y: int, cw: int, ch: int) -> Seq<Rgba> {
    Seq::new((cw * ch) as nat, |k: int| pixels[offset(w as int, x + k % cw, y + k / cw)])
}

impl RasterImage {
    /// The buffer holds exactly one pixel per position.
    pub open spec fn wf(&self) -> bool {
        self.pixels.len() == self.width as int * self.height as int
    }

    /// Whether column `x`, row `y` lies inside the image.
    pub open spec fn contains(&self, x: int, y: int) -> bool {
        0 <= x < self.width && 0 <= y < self.height
    }

    /// The pixel at column `x`, row `y`.
    pub open spec fn at(&self, x: int, y: int) -> Rgba {
        self.pixels@[offset(self.width as int, x, y)]
    }

    /// Whether the pixel buffer of a `w` by `h` image fits in memory addresses.
    pub open spec fn fits(w: u32, h: u32) -> bool {
        w as int * h as int <= usize::MAX
    }

    /// A `w` by `h` image filled with `fill`.
    pub fn filled(w: u32, h: u32, fill: Rgba) -> (r: RasterImage)
        requires
            Self::fits(w, h),
        ensures
            r.wf(),
            r.width == w,
            r.height == h,
            forall|i: int, j: int| #![trigger r.at(i, j)] r.contains(i, j) ==> r.at(i, j) == fill,
    {
        let n = w as usize * h as usize;
        let mut pixels: Vec<Rgba> = Vec::with_capacity(n);
        let mut i: usize = 0;
        while i < n
            invariant
                i <= n,
                pixels.len() == i,
                forall|j: int| 0 <= j < i ==> pixels@[j] == fill,
            decreases n - i,
        {
            pixels.push(fill);
            i = i + 1;
        }
        let r = RasterImage { width: w, height: h, pixels };
        assert forall|i: int, j: int| #![trigger r.at(i, j)] r.contains(i, j) implies r.at(i, j)
            == fill by {
            lemma_offset_in_bounds(w as int, h as int, i, j);
        }
        r
    }

    /// The pixel at column `x`, row `y`.
    pub fn get(&self, x: u32, y: u32) -> (r: Rgba)
        requires
            self.wf(),
            self.contains(x as int, y as int),
        ensures
            r == self.at(x as int, y as int),
    {
        proof {
            lemma_offset_in_bounds(self.width as int, self.height as int, x as int, y as int);
        }
        self.pixels[y as usize * self.width as usize + x as usize]
    }

    /// Sets the pixel at column `x`, row `y` to `p`, leaving every other pixel as it was.
    pub fn put(&mut self, x: u32, y: u32, p: Rgba)
        requires
            old(self).wf(),
            old(self).contains(x as int, y as int),
        ensures
            final(self).wf(),
            final(self).width == old(self).width,
            final(self).height == old(self).height,
            final(self).at(x as int, y as int) == p,
            forall|i: int, j: int|
                #![trigger final(self).at(i, j)]
                final(self).contains(i, j) && (i != x || j != y) ==> final(self).at(i, j)
                    == old(self).at(i, j),
    {
        proof {
            lemma_offset_in_bounds(self.width as int, self.height as int, x as int, y as int);
            lemma_offset_distinct(self.width as int, self.height as int, x as int, y as int);
        }
        let k = y as usize * self.width as usize + x as usize;
        self.pixels.set(k, p);
    }
}

/// A position inside a `w` by `h` image lies inside its buffer.
pub proof fn lemma_offset_in_bounds(w: int, h: int, x: int, y: int)
    requires
        0 <= x < w,
        0 <= y < h,
    ensures
        0 <= offset(w, x, y) < w * h,
{
    assert(y * w + x < w * h) by (nonlinear_arith)
        requires 0 <= x < w, 0 <= y < h;
    assert(0 <= y * w) by (nonlinear_arith)
        requires 0 <= x < w, 0 <= y < h;
}

/// Distinct positions of a `w` wide image have distinct offsets.
pub proof fn lemma_offset_distinct(w: int, h: int, x: int, y: int)
    requires
        0 <= x < w,
        0 <= y < h,
    ensures
        forall|i: int, j: int|
            #![trigger offset(w, i, j)]
            0 <= i < w && 0 <= j < h ==> 0 <= offset(w, i, j) < w * h && ((i != x || j != y)
                ==> offset(w, i, j) != offset(w, x, y)),
{
    assert forall|i: int, j: int|
        #![trigger offset(w, i, j)]
        0 <= i < w && 0 <= j < h implies 0 <= offset(w, i, j) < w * h && ((i != x || j != y)
            ==> offset(w, i, j) != offset(w, x, y)) by {
        lemma_offset_in_bounds(w, h, i, j);
        if j == y {
        } else if j < y {
            assert(j * w + w <= y * w) by (nonlinear_arith)
                requires j < y, w > 0;
        } else {
            assert(y * w + w <= j * w) by (nonlinear_arith)
                requires y < j, w > 0;
        }
    }
}

/// The pixel at column `x`, row `y` of the image `m`.
pub open spec fn model_at(m: Model, x: int, y: int) -> Rgba {
    m.2[offset(m.0 as int, x, y)]
}

/// Whether column `x`, row `y` lies inside the image `m`.
pub open spec fn model_contains(m: Model, x: int, y: int) -> bool {
    0 <= x < m.0 && 0 <= y < m.1
}

/// The pixels, in row order, of a `w` by `h` image whose pixel at column `x`, row `y` is
/// `f(x, y)`.
pub open spec fn grid(w: u32, h: u32, f: spec_fn(int, int) -> Rgba) -> Seq<Rgba> {
    Seq::new((w as int * h as int) as nat, |k: int| f(k % (w as int), k / (w as int)))
}

/// An image whose every pixel is given by `f` holds the pixels `grid(w, h, f)`.
pub proof fn lemma_grid(img: RasterImage, f: spec_fn(int, int) -> Rgba)
    requires
        img.wf(),
        forall|i: int, j: int| #![trigger img.at(i, j)] img.contains(i, j) ==> img.at(i, j) == f(i, j),
    ensures
        img.pixels@ == grid(img.width, img.height, f),
{
    let w = img.width as int;
    let h = img.height as int;
    assert forall|k: int| 0 <= k < w * h implies img.pixels@[k] == #[trigger] grid(
        img.width,
        img.height,
        f,
    )[k] by {
        assert(w > 0) by (nonlinear_arith)
            requires 0 <= k < w * h, h >= 0;
        vstd::arithmetic::div_mod::lemma_fundamental_div_mod(k, w);
        let i = k % w;
        let j = k / w;
        assert(0 <= j < h) by (nonlinear_arith)
            requires 0 <= k < w * h, k == w * j + i, 0 <= i < w, w > 0;
        assert(img.contains(i, j));
        assert(offset(w, i, j) == k) by (nonlinear_arith)
            requires k == w * j + i;
        assert(img.at(i, j) == f(i, j));
    }
    assert(img.pixels@ =~= grid(img.width, img.height, f));
}

/// An image no wider and no taller than one whose buffer fits in memory fits too.
pub proof fn lemma_fits_within(w: u32, h: u32, nw: u32, nh: u32)
    requires
        RasterImage::fits(w, h),
        nw <= w,
        nh <= h,
    ensures
        RasterImage::fits(nw, nh),
{
    assert(nw as int * nh as int <= w as int * h as int) by (nonlinear_arith)
        requires nw <= w, nh <= h;
}

/// An image of at most 65535 by 65535 pixels fits in memory.
pub proof fn lemma_fits_small(w: u32, h: u32)
    requires
        w <= 0xffff,
        h <= 0xffff,
    ensures
        RasterImage::fits(w, h),
{
    assert(w as int * h as int <= 0xffff * 0xffff) by (nonlinear_arith)
        requires w <= 0xffff, h <= 0xffff;
}

} // verus!
