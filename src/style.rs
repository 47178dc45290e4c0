use vstd::prelude::*;

use crate::codec::{crop, decode, decoded, resampled, resize, ResizeFilter};
use crate::error::MediaError;
use crate::params::{form_pairs, lookup, RequestParams, MAX_QUERY_LEN};
use crate::raster::{lemma_fits_within, window, Model, RasterImage};
use crate::text::{
    chars_of, decimal_value, is_digit_text, lemma_digit_text_reads_as_is, lemma_split_at_one_sep,
    lemma_split_without_sep, parse_unsigned, slice_of, split, split_at_char, trim, trimmed,
    unsigned_value,
};

verus! {

/// The most operations that one request applies.
pub const MAX_OPERATIONS: usize = 5;

/// Where a crop window sits in the image.
#[derive(Clone, Copy, Debug, PartialEq, Eq, Structural)]
pub enum Anchor {
    LeftTop,
    RightTop,
    LeftBottom,
    RightBottom,
    LeftCenter,
    RightCenter,
    Center,
}

/// One step of a transformation chain.
#[derive(Clone, Copy, Debug, PartialEq, Eq, Structural)]
pub enum Operation {
    /// Shrink to this width, keeping the aspect ratio.
    ResizeToWidth(u32),
    /// Shrink to this height, keeping the aspect ratio.
    ResizeToHeight(u32),
    /// Scale both sides to this many tenths.
    ScalePercent(u32),
    /// Cut a window of this width and height at the anchor.
    CropAnchored(u32, u32, Anchor),
}

/// The anchor named by the two characters `a`, `b`.
pub open spec fn anchor_of(a: char, b: char) -> Option<Anchor> {
    if a == 'L' && b == 'T' {
        Some(Anchor::LeftTop)
    } else if a == 'R' && b == 'T' {
        Some(Anchor::RightTop)
    } else if a == 'L' && b == 'B' {
        Some(Anchor::LeftBottom)
    } else if a == 'R' && b == 'B' {
        Some(Anchor::RightBottom)
    } else if a == 'L' && b == 'C' {
        Some(Anchor::LeftCenter)
    } else if a == 'R' && b == 'C' {
        Some(Anchor::RightCenter)
    } else if a == 'C' && b == 'C' {
        Some(Anchor::Center)
    } else {
        None
    }
}

/// The number written in `s`, white space around it allowed.
pub open spec fn number_in(s: Seq<char>) -> Option<nat> {
    unsigned_value(trim(s), u32::MAX as nat)
}

/// The operation that token `t` names: `Z` then `W`, `H` or `S` and a number, or `C`, a
/// two-letter anchor and a width, optionally followed by `X` and a height; `None` for
/// anything else, including a zero width or height.
pub open spec fn token_op(t: Seq<char>) -> Option<Operation> {
    if t.len() >= 2 && t[0] == 'Z' && (t[1] == 'W' || t[1] == 'H' || t[1] == 'S') {
        match number_in(t.skip(2)) {
            Some(v) => Some(
                if t[1] == 'W' {
                    Operation::ResizeToWidth(v as u32)
                } else if t[1] == 'H' {
                    Operation::ResizeToHeight(v as u32)
                } else {
                    Operation::ScalePercent(v as u32)
                },
            ),
            None => None,
        }
    } else if t.len() > 2 && t[0] == 'C' {
        let sizes = split(t.skip(3), 'X');
        let w = number_in(sizes[0]);
        let h = if sizes.len() > 1 {
            number_in(sizes[1])
        } else {
            w
        };
        match (w, h, anchor_of(t[1], t[2])) {
            (Some(w), Some(h), Some(a)) => if w > 0 && h > 0 {
                Some(Operation::CropAnchored(w as u32, h as u32, a))
            } else {
                None
            },
            _ => None,
        }
    } else {
        None
    }
}

/// The top left corner of a `cw` by `ch` crop window at `anchor` in a `w` by `h` image.
pub open spec fn origin(anchor: Anchor, w: int, h: int, cw: int, ch: int) -> (int, int) {
    match anchor {
        Anchor::LeftTop => (0, 0),
        Anchor::RightTop => (w - cw, 0),
        Anchor::LeftBottom => (0, h - ch),
        Anchor::RightBottom => (w - cw, h - ch),
        Anchor::LeftCenter => (0, (h - ch) / 2),
        Anchor::RightCenter => (w - cw, (h - ch) / 2),
        Anchor::Center => ((w - cw) / 2, (h - ch) / 2),
    }
}

/// `a * b / c` rounded down, but at least one.
pub open spec fn scaled_side(a: int, b: int, c: int) -> int {
    if a * b / c >= 1 {
        a * b / c
    } else {
        1
    }
}

/// The image `m` after `op`; an operation that would enlarge the image, leave its bounds or
/// scale outside one to ten tenths leaves it as it is.
pub open spec fn apply_spec(m: Model, op: Operation) -> Model {
    let (w, h, px) = m;
    match op {
        Operation::ResizeToWidth(v) => if v == 0 || v >= w || h == 0 {
            m
        } else {
            let nh = scaled_side(h as int, v as int, w as int) as u32;
            (v, nh, resampled(w, h, px, v, nh, ResizeFilter::CatmullRom))
        },
        Operation::ResizeToHeight(v) => if v == 0 || v >= h || w == 0 {
            m
        } else {
            let nw = scaled_side(w as int, v as int, h as int) as u32;
            (nw, v, resampled(w, h, px, nw, v, ResizeFilter::CatmullRom))
        },
        Operation::ScalePercent(v) => if v < 1 || v > 10 || w == 0 || h == 0 {
            m
        } else {
            let nw = scaled_side(w as int, v as int, 10) as u32;
            let nh = scaled_side(h as int, v as int, 10) as u32;
            (nw, nh, resampled(w, h, px, nw, nh, ResizeFilter::CatmullRom))
        },
        Operation::CropAnchored(cw, ch, a) => if cw > w || ch > h {
            m
        } else {
            let (x, y) = origin(a, w as int, h as int, cw as int, ch as int);
            (cw, ch, window(w, px, x, y, cw as int, ch as int))
        },
    }
}

/// The image `m` after the token `t`: unchanged where `t` names no operation.
pub open spec fn apply_token(m: Model, t: Seq<char>) -> Model {
    match token_op(t) {
        Some(op) => apply_spec(m, op),
        None => m,
    }
}

/// The image `m` after the tokens `ts`, left to right.
pub open spec fn apply_tokens(m: Model, ts: Seq<Seq<char>>) -> Model
    decreases ts.len(),
{
    if ts.len() == 0 {
        m
    } else {
        apply_tokens(apply_token(m, ts[0]), ts.drop_first())
    }
}

/// The tokens of `args` that are applied: its pieces between `A`s, the first five.
pub open spec fn tokens_of(args: Seq<char>) -> Seq<Seq<char>> {
    let ts = split(args, 'A');
    if ts.len() > MAX_OPERATIONS {
        ts.take(MAX_OPERATIONS as int)
    } else {
        ts
    }
}

/// The image `m` after the chain `args`.
pub open spec fn run_args(m: Model, args: Seq<char>) -> Model {
    apply_tokens(m, tokens_of(args))
}

fn anchor_from(a: char, b: char) -> (r: Option<Anchor>)
    ensures
        r == anchor_of(a, b),
{
    if a == 'L' && b == 'T' {
        Some(Anchor::LeftTop)
    } else if a == 'R' && b == 'T' {
        Some(Anchor::RightTop)
    } else if a == 'L' && b == 'B' {
        Some(Anchor::LeftBottom)
    } else if a == 'R' && b == 'B' {
        Some(Anchor::RightBottom)
    } else if a == 'L' && b == 'C' {
        Some(Anchor::LeftCenter)
    } else if a == 'R' && b == 'C' {
        Some(Anchor::RightCenter)
    } else if a == 'C' && b == 'C' {
        Some(Anchor::Center)
    } else {
        None
    }
}

fn number_from(s: &Vec<char>) -> (r: Option<u32>)
    ensures
        r is Some <==> number_in(s@) is Some,
        r is Some ==> number_in(s@) == Some(r->0 as nat),
{
    let t = trimmed(s);
    parse_unsigned(&t, u32::MAX)
}

/// The operation that the token `t` names, if any.
pub fn parse_operation(t: &Vec<char>) -> (r: Option<Operation>)
    ensures
        r == token_op(t@),
{
    let n = t.len();
    if n >= 2 && t[0] == 'Z' && (t[1] == 'W' || t[1] == 'H' || t[1] == 'S') {
        let rest = slice_of(t, 2, n);
        assert(rest@ =~= t@.skip(2));
        match number_from(&rest) {
            Some(v) => Some(
                if t[1] == 'W' {
                    Operation::ResizeToWidth(v)
                } else if t[1] == 'H' {
                    Operation::ResizeToHeight(v)
                } else {
                    Operation::ScalePercent(v)
                },
            ),
            None => None,
        }
    } else if n > 2 && t[0] == 'C' {
        let rest = slice_of(t, 3, n);
        assert(rest@ =~= t@.skip(3));
        let sizes = split_at_char(&rest, 'X');
        assert(sizes@.map_values(|p: Vec<char>| p@)[0] == sizes@[0]@);
        let w = number_from(&sizes[0]);
        let h = if sizes.len() > 1 {
            assert(sizes@.map_values(|p: Vec<char>| p@)[1] == sizes@[1]@);
            number_from(&sizes[1])
        } else {
            w
        };
        match (w, h, anchor_from(t[1], t[2])) {
            (Some(w), Some(h), Some(a)) => if w > 0 && h > 0 {
                Some(Operation::CropAnchored(w, h, a))
            } else {
                None
            },
            _ => None,
        }
    } else {
        None
    }
}

/// The top left corner of a `cw` by `ch` crop window at `anchor` in a `w` by `h` image.
pub fn crop_origin(anchor: Anchor, w: u32, h: u32, cw: u32, ch: u32) -> (r: (u32, u32))
    requires
        cw <= w,
        ch <= h,
    ensures
        (r.0 as int, r.1 as int) == origin(anchor, w as int, h as int, cw as int, ch as int),
        r.0 + cw <= w,
        r.1 + ch <= h,
{
    match anchor {
        Anchor::LeftTop => (0, 0),
        Anchor::RightTop => (w - cw, 0),
        Anchor::LeftBottom => (0, h - ch),
        Anchor::RightBottom => (w - cw, h - ch),
        Anchor::LeftCenter => (0, (h - ch) / 2),
        Anchor::RightCenter => (w - cw, (h - ch) / 2),
        Anchor::Center => ((w - cw) / 2, (h - ch) / 2),
    }
}

fn scaled(a: u32, b: u32, c: u32) -> (r: u32)
    requires
        a >= 1,
        c > 0,
        b <= c,
    ensures
        r == scaled_side(a as int, b as int, c as int),
        1 <= r <= a,
{
    assert(a as int * b as int <= 0xffff_ffff * 0xffff_ffff) by (nonlinear_arith)
        requires a <= 0xffff_ffff, b <= 0xffff_ffff;
    let p: u64 = a as u64 * b as u64;
    let q: u64 = p / c as u64;
    assert(q <= a) by (nonlinear_arith)
        requires p == a as int * b as int, b <= c, c > 0, q == p as int / c as int;
    if q >= 1 {
        q as u32
    } else {
        1
    }
}

/// The image after `op`; an operation that would enlarge the image, leave its bounds or
/// scale outside one to ten tenths leaves it as it is.
pub fn apply_operation(img: RasterImage, op: Operation) -> (r: RasterImage)
    requires
        img.wf(),
    ensures
        r.wf(),
        r@ == apply_spec(img@, op),
{
    let w = img.width;
    let h = img.height;
    assert(RasterImage::fits(w, h));
    match op {
        Operation::ResizeToWidth(v) => if v == 0 || v >= w || h == 0 {
            img
        } else {
            let nh = scaled(h, v, w);
            proof {
                lemma_fits_within(w, h, v, nh);
            }
            resize(&img, v, nh, ResizeFilter::CatmullRom)
        },
        Operation::ResizeToHeight(v) => if v == 0 || v >= h || w == 0 {
            img
        } else {
            let nw = scaled(w, v, h);
            proof {
                lemma_fits_within(w, h, nw, v);
            }
            resize(&img, nw, v, ResizeFilter::CatmullRom)
        },
        Operation::ScalePercent(v) => if v < 1 || v > 10 || w == 0 || h == 0 {
            img
        } else {
            let nw = scaled(w, v, 10);
            let nh = scaled(h, v, 10);
            proof {
                lemma_fits_within(w, h, nw, nh);
            }
            resize(&img, nw, nh, ResizeFilter::CatmullRom)
        },
        Operation::CropAnchored(cw, ch, a) => if cw > w || ch > h {
            img
        } else {
            let (x, y) = crop_origin(a, w, h, cw, ch);
            crop(&img, x, y, cw, ch)
        },
    }
}

/// The image after the chain `args`: its pieces between `A`s, the first five, applied left to
/// right; a piece that names no operation is skipped.
pub fn transform(img: RasterImage, args: &str) -> (r: RasterImage)
    requires
        img.wf(),
    ensures
        r.wf(),
        r@ == run_args(img@, args@),
{
    let chars = chars_of(args);
    let tokens = split_at_char(&chars, 'A');
    let ghost ts = tokens_of(args@);
    let n: usize = if tokens.len() > MAX_OPERATIONS { MAX_OPERATIONS } else { tokens.len() };
    assert(ts =~= tokens@.map_values(|p: Vec<char>| p@).take(n as int));
    let mut cur = img;
    let mut i: usize = 0;
    assert(ts.skip(0) =~= ts);
    while i < n
        invariant
            i <= n <= tokens.len(),
            ts.len() == n,
            forall|k: int| 0 <= k < n ==> ts[k] == #[trigger] tokens@[k]@,
            cur.wf(),
            run_args(img@, args@) == apply_tokens(cur@, ts.skip(i as int)),
        decreases n - i,
    {
        assert(ts.skip(i as int).drop_first() =~= ts.skip(i + 1));
        assert(ts.skip(i as int)[0] == tokens@[i as int]@);
        match parse_operation(&tokens[i]) {
            Some(op) => {
                cur = apply_operation(cur, op);
            },
            None => {},
        }
        i = i + 1;
    }
    cur
}

/// The fields of a style edit request.
pub struct EditRequest {
    /// Where the source image is stored, used where the caller has no bytes.
    pub from: Option<String>,
    /// The chain of operations.
    pub args: Option<String>,
    /// Whether the output is WebP rather than PNG.
    pub webp: bool,
    /// Where the output goes; returned as bytes where absent.
    pub to: Option<String>,
    /// The WebP quality as written.
    pub quality: Option<String>,
}

/// Whether `o` holds the text `t`, or is absent exactly where `t` is.
pub open spec fn holds_text(o: Option<String>, t: Option<Seq<char>>) -> bool {
    &&& (o is Some <==> t is Some)
    &&& (o is Some ==> t == Some(o->0@))
}

/// Whether `r` holds the fields `p` of a style edit request.
pub open spec fn reads_edit(r: EditRequest, p: Seq<(Seq<char>, Seq<char>)>) -> bool {
    &&& holds_text(r.from, lookup(p, "from"@))
    &&& holds_text(r.args, lookup(p, "args"@))
    &&& r.webp == lookup(p, "type"@) is Some
    &&& holds_text(r.to, lookup(p, "to"@))
    &&& holds_text(r.quality, lookup(p, "quality"@))
}

impl EditRequest {
    /// Reads a style edit request from its fields.
    pub fn from_params(params: &RequestParams) -> (r: EditRequest)
        ensures
            reads_edit(r, params@),
    {
        EditRequest {
            from: params.get("from"),
            args: params.get("args"),
            webp: params.has("type"),
            to: params.get("to"),
            quality: params.get("quality"),
        }
    }

    /// Reads a style edit request from the request text `query_params`.
    pub fn parse(query_params: &str) -> (r: Result<EditRequest, MediaError>)
        ensures
            query_params@.len() <= MAX_QUERY_LEN ==> r is Ok,
            r is Ok ==> reads_edit(r->Ok_0, form_pairs(query_params@)),
            r is Err ==> r->Err_0 is ParseError,
    {
        let params = RequestParams::parse(query_params)?;
        Ok(EditRequest::from_params(&params))
    }
}

/// The image `m` after the chain `args`, where there is one.
pub open spec fn edited(m: Model, args: Option<String>) -> Model {
    match args {
        None => m,
        Some(a) => run_args(m, a@),
    }
}

/// Decodes `image` and applies the request's chain of operations to it.
pub fn edit(image: &[u8], request: &EditRequest) -> (r: Result<RasterImage, MediaError>)
    ensures
        r is Ok <==> decoded(image@) is Some,
        r is Ok ==> r->Ok_0.wf() && r->Ok_0@ == edited(decoded(image@)->0, request.args),
        r is Err ==> r->Err_0 is QRCodeImageError,
{
    let img = decode(image)?;
    match &request.args {
        None => Ok(img),
        Some(args) => Ok(transform(img, args.as_str())),
    }
}

/// An empty chain leaves the image as it is.
pub proof fn lemma_empty_args_keep_image(m: Model)
    ensures
        run_args(m, Seq::empty()) == m,
{
    let ts = split(Seq::<char>::empty(), 'A');
    assert(ts =~= seq![Seq::<char>::empty()]);
    assert(tokens_of(Seq::empty()) =~= ts);
    assert(ts.drop_first() =~= Seq::<Seq<char>>::empty());
    assert(token_op(ts[0]) is None);
    assert(apply_token(m, ts[0]) == m);
    assert(apply_tokens(m, ts) == apply_tokens(m, ts.drop_first()));
}

/// A crop wider or taller than the image leaves it as it is.
pub proof fn lemma_oversized_crop_skipped(m: Model, cw: u32, ch: u32, a: Anchor)
    requires
        cw > m.0 || ch > m.1,
    ensures
        apply_spec(m, Operation::CropAnchored(cw, ch, a)) == m,
{
}

/// Resizing to a width or height no smaller than the image's own leaves it as it is.
pub proof fn lemma_resize_only_shrinks(m: Model, v: u32)
    ensures
        v >= m.0 ==> apply_spec(m, Operation::ResizeToWidth(v)) == m,
        v >= m.1 ==> apply_spec(m, Operation::ResizeToHeight(v)) == m,
{
}

/// Scaling by a number of tenths outside one to ten leaves the image as it is.
pub proof fn lemma_scale_out_of_range_skipped(m: Model, v: u32)
    requires
        v < 1 || v > 10,
    ensures
        apply_spec(m, Operation::ScalePercent(v)) == m,
{
}

/// A chain without `A` is one token, applied alone.
pub proof fn lemma_single_token(m: Model, t: Seq<char>)
    requires
        forall|i: int| 0 <= i < t.len() ==> t[i] != 'A',
    ensures
        run_args(m, t) == apply_token(m, t),
{
    lemma_split_without_sep(t, 'A', Seq::empty());
    assert(Seq::<char>::empty() + t =~= t);
    let ts = tokens_of(t);
    assert(ts =~= seq![t]);
    assert(ts[0] == t);
    assert(ts.drop_first() =~= Seq::<Seq<char>>::empty());
    assert(apply_tokens(m, ts) == apply_tokens(apply_token(m, t), ts.drop_first()));
    assert(apply_tokens(apply_token(m, t), Seq::<Seq<char>>::empty()) == apply_token(m, t));
}

/// Digits read as their decimal value, where it fits in 32 bits.
pub proof fn lemma_number_in_digits(d: Seq<char>)
    requires
        is_digit_text(d),
    ensures
        number_in(d) == if decimal_value(d) <= u32::MAX {
            Some(decimal_value(d))
        } else {
            None::<nat>
        },
{
    lemma_digit_text_reads_as_is(d);
}

/// A crop text `C`, an anchor, a width and `X` and a height, wider or taller than the image,
/// leaves it as it is.
pub proof fn lemma_oversized_crop_text_skipped(m: Model, a0: char, a1: char, wd: Seq<char>, hd: Seq<char>)
    requires
        anchor_of(a0, a1) is Some,
        is_digit_text(wd),
        is_digit_text(hd),
        decimal_value(wd) > m.0 || decimal_value(hd) > m.1,
    ensures
        run_args(m, seq!['C', a0, a1] + wd + seq!['X'] + hd) == m,
{
    let t = seq!['C', a0, a1] + wd + seq!['X'] + hd;
    assert forall|i: int| 0 <= i < t.len() implies t[i] != 'A' by {
        if 3 <= i < 3 + wd.len() {
            assert(t[i] == wd[i - 3]);
        } else if 3 + wd.len() < i {
            assert(t[i] == hd[i - 4 - wd.len()]);
        }
    }
    lemma_single_token(m, t);
    assert(t.skip(3) =~= wd + seq!['X'] + hd);
    lemma_split_at_one_sep(wd, hd, 'X', Seq::empty());
    assert(Seq::<char>::empty() + wd =~= wd);
    lemma_number_in_digits(wd);
    lemma_number_in_digits(hd);
}

/// A square crop text `C`, an anchor and a side larger than a side of the image leaves it as
/// it is.
pub proof fn lemma_oversized_square_crop_text_skipped(m: Model, a0: char, a1: char, wd: Seq<char>)
    requires
        anchor_of(a0, a1) is Some,
        is_digit_text(wd),
        decimal_value(wd) > m.0 || decimal_value(wd) > m.1,
    ensures
        run_args(m, seq!['C', a0, a1] + wd) == m,
{
    let t = seq!['C', a0, a1] + wd;
    assert forall|i: int| 0 <= i < t.len() implies t[i] != 'A' by {
        if 3 <= i {
            assert(t[i] == wd[i - 3]);
        }
    }
    lemma_single_token(m, t);
    assert(t.skip(3) =~= wd);
    assert forall|i: int| 0 <= i < wd.len() implies wd[i] != 'X' by {}
    lemma_split_without_sep(wd, 'X', Seq::empty());
    assert(Seq::<char>::empty() + wd =~= wd);
    lemma_number_in_digits(wd);
}

/// A resize text `ZW` or `ZH` and a number no smaller than the image's width or height
/// leaves it as it is.
pub proof fn lemma_resize_text_only_shrinks(m: Model, vd: Seq<char>)
    requires
        is_digit_text(vd),
    ensures
        decimal_value(vd) >= m.0 ==> run_args(m, seq!['Z', 'W'] + vd) == m,
        decimal_value(vd) >= m.1 ==> run_args(m, seq!['Z', 'H'] + vd) == m,
{
    let tw = seq!['Z', 'W'] + vd;
    let th = seq!['Z', 'H'] + vd;
    assert forall|i: int| 0 <= i < tw.len() implies tw[i] != 'A' && th[i] != 'A' by {
        if 2 <= i {
            assert(tw[i] == vd[i - 2] && th[i] == vd[i - 2]);
        }
    }
    lemma_single_token(m, tw);
    lemma_single_token(m, th);
    assert(tw.skip(2) =~= vd);
    assert(th.skip(2) =~= vd);
    lemma_number_in_digits(vd);
}

/// A scale text `ZS` and a number outside one to ten leaves the image as it is.
pub proof fn lemma_scale_text_out_of_range_skipped(m: Model, vd: Seq<char>)
    requires
        is_digit_text(vd),
        decimal_value(vd) < 1 || decimal_value(vd) > 10,
    ensures
        run_args(m, seq!['Z', 'S'] + vd) == m,
{
    let t = seq!['Z', 'S'] + vd;
    assert forall|i: int| 0 <= i < t.len() implies t[i] != 'A' by {
        if 2 <= i {
            assert(t[i] == vd[i - 2]);
        }
    }
    lemma_single_token(m, t);
    assert(t.skip(2) =~= vd);
    lemma_number_in_digits(vd);
}

/// A centre crop text `CCC`, a width and `X` and a height that fit the image yields the
/// window of that size whose top left corner is at ((W - w) / 2, (H - h) / 2).
pub proof fn lemma_center_crop_text(m: Model, wd: Seq<char>, hd: Seq<char>)
    requires
        is_digit_text(wd),
        is_digit_text(hd),
        1 <= decimal_value(wd) <= m.0,
        1 <= decimal_value(hd) <= m.1,
    ensures
        ({
            let w = decimal_value(wd) as int;
            let h = decimal_value(hd) as int;
            run_args(m, seq!['C', 'C', 'C'] + wd + seq!['X'] + hd) == (
                w as u32,
                h as u32,
                window(m.0, m.2, (m.0 - w) / 2, (m.1 - h) / 2, w, h),
            )
        }),
{
    let t = seq!['C', 'C', 'C'] + wd + seq!['X'] + hd;
    assert forall|i: int| 0 <= i < t.len() implies t[i] != 'A' by {
        if 3 <= i < 3 + wd.len() {
            assert(t[i] == wd[i - 3]);
        } else if 3 + wd.len() < i {
            assert(t[i] == hd[i - 4 - wd.len()]);
        }
    }
    lemma_single_token(m, t);
    assert(t.skip(3) =~= wd + seq!['X'] + hd);
    lemma_split_at_one_sep(wd, hd, 'X', Seq::empty());
    assert(Seq::<char>::empty() + wd =~= wd);
    lemma_number_in_digits(wd);
    lemma_number_in_digits(hd);
}

} // verus!
