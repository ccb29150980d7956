//! Grayscale frames and the motion classifier.
//!
//! A [`GrayFrame`] holds one decoded frame as a row-major byte buffer.
//! The classifier compares three consecutive frames: it marks the pixels
//! whose luma changed by more than a sensitivity threshold between each
//! pair of neighbouring frames, binarises both difference images, and
//! counts the pixels set in both. The count is the movement score.

use vstd::prelude::*;

verus! {

/// Per-pixel luma change above which a pixel counts as differing.
pub const SENSITIVITY_THRESHOLD: u8 = 30;

/// Binarisation threshold applied to each difference image.
pub const THRESHOLD_VALUE: u8 = 60;

/// Movement is declared when the score exceeds this pixel count.
pub const MOVEMENT_PIXEL_THRESHOLD: u32 = 5;

/// One decoded grayscale frame, pixels in row-major order.
pub struct GrayFrame {
    pub width: u32,
    pub height: u32,
    pub pixels: Vec<u8>,
}

/// Absolute difference of two luma values.
pub open spec fn abs_diff_spec(a: u8, b: u8) -> u8 {
    if a >= b {
        (a - b) as u8
    } else {
        (b - a) as u8
    }
}

impl GrayFrame {
    /// The buffer holds exactly one byte per pixel.
    pub open spec fn wf(&self) -> bool {
        self.pixels@.len() == (self.width as nat) * (self.height as nat)
    }

    /// The pixel at column `x`, row `y`.
    pub open spec fn pix(&self, x: int, y: int) -> u8 {
        self.pixels@[y * (self.width as int) + x]
    }

    pub open spec fn same_dims(&self, other: &GrayFrame) -> bool {
        self.width == other.width && self.height == other.height
    }

    /// An all-black frame of the given size.
    pub fn new(width: u32, height: u32) -> (r: GrayFrame)
        requires
            (width as nat) * (height as nat) <= usize::MAX,
        ensures
            r.wf(),
            r.width == width,
            r.height == height,
            forall|i: int| 0 <= i < r.pixels@.len() ==> r.pixels@[i] == 0,
    {
        let n = (width as usize) * (height as usize);
        let mut pixels: Vec<u8> = Vec::new();
        let mut k: usize = 0;
        while k < n
            invariant
                k <= n,
                pixels@.len() == k,
                forall|i: int| 0 <= i < k ==> pixels@[i] == 0,
            decreases n - k,
        {
            pixels.push(0);
            k += 1;
        }
        GrayFrame { width, height, pixels }
    }

    /// Wraps an existing row-major buffer.
    pub fn from_pixels(width: u32, height: u32, pixels: Vec<u8>) -> (r: GrayFrame)
        requires
            pixels@.len() == (width as nat) * (height as nat),
        ensures
            r.wf(),
            r.width == width,
            r.height == height,
            r.pixels == pixels,
    {
        GrayFrame { width, height, pixels }
    }

    /// Reads the pixel at column `x`, row `y`.
    pub fn get(&self, x: u32, y: u32) -> (v: u8)
        requires
            self.wf(),
            x < self.width,
            y < self.height,
        ensures
            v == self.pix(x as int, y as int),
    {
        // the buffer length bounds the index, keeping the arithmetic in range
        let n = self.pixels.len();
        proof {
            lemma_rowmajor_in_bounds(x as int, y as int, self.width as int, self.height as int);
        }
        let i = (y as usize) * (self.width as usize) + (x as usize);
        self.pixels[i]
    }

    /// Writes the pixel at column `x`, row `y`; every other pixel keeps
    /// its value.
    pub fn set(&mut self, x: u32, y: u32, v: u8)
        requires
            old(self).wf(),
            x < old(self).width,
            y < old(self).height,
        ensures
            final(self).wf(),
            final(self).width == old(self).width,
            final(self).height == old(self).height,
            final(self).pix(x as int, y as int) == v,
            final(self).pixels@ == old(self).pixels@.update(
                (y as int) * (old(self).width as int) + (x as int),
                v,
            ),
    {
        // the buffer length bounds the index, keeping the arithmetic in range
        let n = self.pixels.len();
        proof {
            lemma_rowmajor_in_bounds(x as int, y as int, self.width as int, self.height as int);
        }
        let i = (y as usize) * (self.width as usize) + (x as usize);
        self.pixels[i] = v;
    }
}

/// A row-major index stays inside the buffer.
pub proof fn lemma_rowmajor_in_bounds(x: int, y: int, w: int, h: int)
    by (nonlinear_arith)
    requires
        0 <= x < w,
        0 <= y < h,
    ensures
        0 <= y * w + x < w * h,
{
}

/// Distinct coordinates give distinct row-major indices.
pub proof fn lemma_rowmajor_injective(x1: int, y1: int, x2: int, y2: int, w: int)
    by (nonlinear_arith)
    requires
        0 <= x1 < w,
        0 <= x2 < w,
        0 <= y1,
        0 <= y2,
        !(x1 == x2 && y1 == y2),
    ensures
        y1 * w + x1 != y2 * w + x2,
{
}

/// Every in-range index is the row-major index of its coordinates.
pub proof fn lemma_rowmajor_decompose(i: int, w: int, h: int)
    by (nonlinear_arith)
    requires
        0 < w,
        0 <= i < w * h,
    ensures
        0 <= i % w < w,
        0 <= i / w < h,
        i == (i / w) * w + i % w,
{
}

/// A frame the capture pipeline accepts: well-formed, with dimensions
/// that fit the 16-bit fields of a JPEG header.
pub open spec fn frame_ok(f: GrayFrame) -> bool {
    f.wf() && f.width <= 65535 && f.height <= 65535
}

/// JPEG-sized dimensions keep the pixel count within range.
pub proof fn lemma_dims_bound_len(w: nat, h: nat)
    requires
        w <= 65535,
        h <= 65535,
    ensures
        w * h <= u32::MAX,
        w * h <= usize::MAX,
{
    assert(w * h <= 65535 * 65535) by (nonlinear_arith)
        requires
            w <= 65535,
            h <= 65535,
    ;
}

/// Absolute difference of two luma values.
pub fn abs_diff(a: u8, b: u8) -> (r: u8)
    ensures
        r == abs_diff_spec(a, b),
{
    if a >= b {
        a - b
    } else {
        b - a
    }
}

/// One differing pixel: its coordinates and the two luma values there.
pub struct PixelDiff {
    pub x: u32,
    pub y: u32,
    pub actual: u8,
    pub expected: u8,
}

/// `d` records a genuine difference between `a` and `e` above `s`.
pub open spec fn diff_entry_ok(d: PixelDiff, a: GrayFrame, e: GrayFrame, s: u8) -> bool {
    &&& d.x < a.width
    &&& d.y < a.height
    &&& d.actual == a.pix(d.x as int, d.y as int)
    &&& d.expected == e.pix(d.x as int, d.y as int)
    &&& abs_diff_spec(d.actual, d.expected) > s
}

/// `ds` lists exactly the pixels of `a` and `e` whose absolute difference
/// exceeds `s`, each position once.
pub open spec fn diffs_ok(ds: Seq<PixelDiff>, a: GrayFrame, e: GrayFrame, s: u8) -> bool {
    &&& forall|i: int| 0 <= i < ds.len() ==> diff_entry_ok(#[trigger] ds[i], a, e, s)
    &&& forall|x: int, y: int|
        0 <= x < a.width && 0 <= y < a.height && abs_diff_spec(
            #[trigger] a.pix(x, y),
            e.pix(x, y),
        ) > s ==> exists|i: int| 0 <= i < ds.len() && (#[trigger] ds[i]).x == x && ds[i].y == y
    &&& forall|i: int, j: int|
        0 <= i < j < ds.len() ==> !((#[trigger] ds[i]).x == (#[trigger] ds[j]).x && ds[i].y
            == ds[j].y)
}

/// Collects every pixel whose absolute luma difference between `actual`
/// and `expected` exceeds `sensitivity`, scanning rows top to bottom.
pub fn pixel_diffs(actual: &GrayFrame, expected: &GrayFrame, sensitivity: u8) -> (r: Vec<
    PixelDiff,
>)
    requires
        actual.wf(),
        expected.wf(),
        actual.same_dims(expected),
    ensures
        diffs_ok(r@, *actual, *expected, sensitivity),
{
    let mut diffs: Vec<PixelDiff> = Vec::new();
    let mut y: u32 = 0;
    while y < actual.height
        invariant
            actual.wf(),
            expected.wf(),
            actual.same_dims(expected),
            y <= actual.height,
            forall|i: int|
                0 <= i < diffs@.len() ==> diff_entry_ok(
                    #[trigger] diffs@[i],
                    *actual,
                    *expected,
                    sensitivity,
                ),
            forall|i: int| 0 <= i < diffs@.len() ==> (#[trigger] diffs@[i]).y < y,
            forall|xx: int, yy: int|
                0 <= xx < actual.width && 0 <= yy < y && abs_diff_spec(
                    #[trigger] actual.pix(xx, yy),
                    expected.pix(xx, yy),
                ) > sensitivity ==> exists|i: int|
                    0 <= i < diffs@.len() && (#[trigger] diffs@[i]).x == xx && diffs@[i].y == yy,
            forall|i: int, j: int|
                0 <= i < j < diffs@.len() ==> !((#[trigger] diffs@[i]).x == (#[trigger] diffs@[j]).x
                    && diffs@[i].y == diffs@[j].y),
        decreases actual.height - y,
    {
        let mut x: u32 = 0;
        while x < actual.width
            invariant
                actual.wf(),
                expected.wf(),
                actual.same_dims(expected),
                y < actual.height,
                x <= actual.width,
                forall|i: int|
                    0 <= i < diffs@.len() ==> diff_entry_ok(
                        #[trigger] diffs@[i],
                        *actual,
                        *expected,
                        sensitivity,
                    ),
                forall|i: int|
                    0 <= i < diffs@.len() ==> ((#[trigger] diffs@[i]).y < y || (diffs@[i].y == y
                        && diffs@[i].x < x)),
                forall|xx: int, yy: int|
                    0 <= xx < actual.width && 0 <= yy < y && abs_diff_spec(
                        #[trigger] actual.pix(xx, yy),
                        expected.pix(xx, yy),
                    ) > sensitivity ==> exists|i: int|
                        0 <= i < diffs@.len() && (#[trigger] diffs@[i]).x == xx && diffs@[i].y
                            == yy,
                forall|xx: int|
                    0 <= xx < x && abs_diff_spec(
                        #[trigger] actual.pix(xx, y as int),
                        expected.pix(xx, y as int),
                    ) > sensitivity ==> exists|i: int|
                        0 <= i < diffs@.len() && (#[trigger] diffs@[i]).x == xx && diffs@[i].y
                            == y,
                forall|i: int, j: int|
                    0 <= i < j < diffs@.len() ==> !((#[trigger] diffs@[i]).x
                        == (#[trigger] diffs@[j]).x && diffs@[i].y == diffs@[j].y),
            decreases actual.width - x,
        {
            let p = actual.get(x, y);
            let q = expected.get(x, y);
            if abs_diff(p, q) > sensitivity {
                let ghost pre = diffs@;
                diffs.push(PixelDiff { x, y, actual: p, expected: q });
                proof {
                    assert(diffs@.len() == pre.len() + 1);
                    assert(forall|i: int| 0 <= i < pre.len() ==> diffs@[i] == pre[i]);
                    assert(diffs@[pre.len() as int].x == x && diffs@[pre.len() as int].y == y);
                    assert forall|xx: int, yy: int|
                        0 <= xx < actual.width && 0 <= yy < y && abs_diff_spec(
                            #[trigger] actual.pix(xx, yy),
                            expected.pix(xx, yy),
                        ) > sensitivity implies exists|i: int|
                        0 <= i < diffs@.len() && (#[trigger] diffs@[i]).x == xx && diffs@[i].y
                            == yy by {
                        let i = choose|i: int|
                            0 <= i < pre.len() && (#[trigger] pre[i]).x == xx && pre[i].y == yy;
                        assert(diffs@[i].x == xx && diffs@[i].y == yy);
                    }
                    assert forall|xx: int|
                        0 <= xx < x + 1 && abs_diff_spec(
                            #[trigger] actual.pix(xx, y as int),
                            expected.pix(xx, y as int),
                        ) > sensitivity implies exists|i: int|
                        0 <= i < diffs@.len() && (#[trigger] diffs@[i]).x == xx && diffs@[i].y
                            == y by {
                        if xx < x {
                            let i = choose|i: int|
                                0 <= i < pre.len() && (#[trigger] pre[i]).x == xx && pre[i].y
                                    == y;
                            assert(diffs@[i].x == xx && diffs@[i].y == y);
                        } else {
                            assert(diffs@[pre.len() as int].x == xx);
                        }
                    }
                }
            }
            x += 1;
        }
        y += 1;
    }
    diffs
}

/// Renders a diff list as a grayscale image: each listed pixel carries the
/// absolute difference of its two recorded values, every other pixel is 0.
pub fn diffs_to_gray_image(diffs: Vec<PixelDiff>, width: u32, height: u32) -> (r: GrayFrame)
    requires
        (width as nat) * (height as nat) <= usize::MAX,
        forall|i: int|
            0 <= i < diffs@.len() ==> (#[trigger] diffs@[i]).x < width && diffs@[i].y < height,
        forall|i: int, j: int|
            0 <= i < j < diffs@.len() ==> !((#[trigger] diffs@[i]).x == (#[trigger] diffs@[j]).x
                && diffs@[i].y == diffs@[j].y),
    ensures
        r.wf(),
        r.width == width,
        r.height == height,
        forall|i: int|
            0 <= i < diffs@.len() ==> r.pix((#[trigger] diffs@[i]).x as int, diffs@[i].y as int)
                == abs_diff_spec(diffs@[i].actual, diffs@[i].expected),
        forall|x: int, y: int|
            0 <= x < width && 0 <= y < height && !(exists|i: int|
                0 <= i < diffs@.len() && (#[trigger] diffs@[i]).x == x && diffs@[i].y == y)
                ==> #[trigger] r.pix(x, y) == 0,
{
    let mut grey_image = GrayFrame::new(width, height);
    proof {
        assert forall|x: int, y: int| 0 <= x < width && 0 <= y < height implies #[trigger] grey_image.pix(
            x,
            y,
        ) == 0 by {
            lemma_rowmajor_in_bounds(x, y, width as int, height as int);
        }
    }
    let mut k: usize = 0;
    while k < diffs.len()
        invariant
            grey_image.wf(),
            grey_image.width == width,
            grey_image.height == height,
            k <= diffs@.len(),
            (width as nat) * (height as nat) <= usize::MAX,
            forall|i: int|
                0 <= i < diffs@.len() ==> (#[trigger] diffs@[i]).x < width && diffs@[i].y < height,
            forall|i: int, j: int|
                0 <= i < j < diffs@.len() ==> !((#[trigger] diffs@[i]).x
                    == (#[trigger] diffs@[j]).x && diffs@[i].y == diffs@[j].y),
            forall|i: int|
                0 <= i < k ==> grey_image.pix(
                    (#[trigger] diffs@[i]).x as int,
                    diffs@[i].y as int,
                ) == abs_diff_spec(diffs@[i].actual, diffs@[i].expected),
            forall|x: int, y: int|
                0 <= x < width && 0 <= y < height && !(exists|i: int|
                    0 <= i < k && (#[trigger] diffs@[i]).x == x && diffs@[i].y == y)
                    ==> #[trigger] grey_image.pix(x, y) == 0,
        decreases diffs@.len() - k,
    {
        let d = &diffs[k];
        let ghost pre = grey_image;
        let val = abs_diff(d.actual, d.expected);
        grey_image.set(d.x, d.y, val);
        proof {
            let w = width as int;
            let dx = diffs@[k as int].x as int;
            let dy = diffs@[k as int].y as int;
            assert forall|x: int, y: int|
                0 <= x < width && 0 <= y < height && !(x == dx && y == dy) implies #[trigger] grey_image.pix(
                x,
                y,
            ) == pre.pix(x, y) by {
                lemma_rowmajor_in_bounds(x, y, w, height as int);
                lemma_rowmajor_in_bounds(dx, dy, w, height as int);
                lemma_rowmajor_injective(x, y, dx, dy, w);
                let idx = y * w + x;
                let didx = dy * w + dx;
                assert(grey_image.pixels@ == pre.pixels@.update(didx, val));
                assert(0 <= idx < pre.pixels@.len());
                assert(grey_image.pixels@[idx] == pre.pixels@[idx]);
            }
            assert forall|i: int|
                0 <= i < k + 1 implies grey_image.pix(
                (#[trigger] diffs@[i]).x as int,
                diffs@[i].y as int,
            ) == abs_diff_spec(diffs@[i].actual, diffs@[i].expected) by {
                if i < k {
                    assert(!(diffs@[i].x == diffs@[k as int].x && diffs@[i].y
                        == diffs@[k as int].y));
                }
            }
        }
        k += 1;
    }
    grey_image
}

/// A binarised pixel: strictly above the threshold becomes 255, else 0.
pub open spec fn thresh_val(v: u8, t: u8) -> u8 {
    if v > t {
        255
    } else {
        0
    }
}

/// Binary thresholding of a grayscale image: each pixel strictly above
/// `t` becomes 255 and every other pixel becomes 0.
pub fn threshold(image: &GrayFrame, t: u8) -> (r: GrayFrame)
    requires
        image.wf(),
    ensures
        r.wf(),
        r.width == image.width,
        r.height == image.height,
        r.pixels@.len() == image.pixels@.len(),
        forall|i: int|
            0 <= i < image.pixels@.len() ==> r.pixels@[i] == thresh_val(
                #[trigger] image.pixels@[i],
                t,
            ),
{
    let n = image.pixels.len();
    let mut out: Vec<u8> = Vec::new();
    let mut i: usize = 0;
    while i < n
        invariant
            n == image.pixels@.len(),
            i <= n,
            out@.len() == i,
            forall|j: int|
                0 <= j < i ==> out@[j] == thresh_val(#[trigger] image.pixels@[j], t),
        decreases n - i,
    {
        let v = image.pixels[i];
        if v > t {
            out.push(255);
        } else {
            out.push(0);
        }
        i += 1;
    }
    GrayFrame { width: image.width, height: image.height, pixels: out }
}

/// How many of the first `n` pixel pairs have a non-zero bitwise AND.
pub open spec fn and_hot_count(a: Seq<u8>, b: Seq<u8>, n: int) -> nat
    decreases n,
{
    if n <= 0 {
        0
    } else {
        and_hot_count(a, b, n - 1) + (if (a[n - 1] & b[n - 1]) != 0 {
            1nat
        } else {
            0nat
        })
    }
}

/// Counts the pixels set in both binarised difference images: the
/// movement score of the frame window.
pub fn movement_score(image1: &GrayFrame, image2: &GrayFrame) -> (count: u32)
    requires
        image1.wf(),
        image2.wf(),
        image1.same_dims(image2),
        image1.pixels@.len() <= u32::MAX,
    ensures
        count == and_hot_count(image1.pixels@, image2.pixels@, image1.pixels@.len() as int),
{
    let n = image1.pixels.len();
    let mut count: u32 = 0;
    let mut i: usize = 0;
    while i < n
        invariant
            n == image1.pixels@.len(),
            n == image2.pixels@.len(),
            n <= u32::MAX,
            i <= n,
            count <= i,
            count == and_hot_count(image1.pixels@, image2.pixels@, i as int),
        decreases n - i,
    {
        let pixel = image1.pixels[i];
        let pixel2 = image2.pixels[i];
        if (pixel & pixel2) != 0 {
            count += 1;
        }
        i += 1;
    }
    count
}

/// The difference image of `a` over `b` at flat index `i`: the absolute
/// difference where it exceeds the sensitivity, 0 elsewhere.
pub open spec fn masked_diff_at(a: GrayFrame, b: GrayFrame, s: u8, i: int) -> u8 {
    if abs_diff_spec(a.pixels@[i], b.pixels@[i]) > s {
        abs_diff_spec(a.pixels@[i], b.pixels@[i])
    } else {
        0
    }
}

/// Whether flat index `i` is set in both binarised difference images of
/// the window `f1, f2, f3` (oldest first).
pub open spec fn double_diff_hot(f1: GrayFrame, f2: GrayFrame, f3: GrayFrame, i: int) -> bool {
    (thresh_val(masked_diff_at(f2, f1, SENSITIVITY_THRESHOLD, i), THRESHOLD_VALUE) & thresh_val(
        masked_diff_at(f3, f2, SENSITIVITY_THRESHOLD, i),
        THRESHOLD_VALUE,
    )) != 0
}

/// How many of the first `n` pixels are hot in both difference images.
pub open spec fn motion_count(f1: GrayFrame, f2: GrayFrame, f3: GrayFrame, n: int) -> nat
    decreases n,
{
    if n <= 0 {
        0
    } else {
        motion_count(f1, f2, f3, n - 1) + (if double_diff_hot(f1, f2, f3, n - 1) {
            1nat
        } else {
            0nat
        })
    }
}

/// The movement score of the window `f1, f2, f3`.
pub open spec fn movement_score_spec(f1: GrayFrame, f2: GrayFrame, f3: GrayFrame) -> nat {
    motion_count(f1, f2, f3, f1.pixels@.len() as int)
}

/// Movement is declared when the score exceeds the pixel-count threshold.
pub open spec fn is_movement(f1: GrayFrame, f2: GrayFrame, f3: GrayFrame) -> bool {
    movement_score_spec(f1, f2, f3) > MOVEMENT_PIXEL_THRESHOLD
}

/// A pixel is hot exactly when both of its absolute differences exceed
/// the binarisation threshold.
pub proof fn lemma_hot_characterization(f1: GrayFrame, f2: GrayFrame, f3: GrayFrame, i: int)
    requires
        0 <= i < f1.pixels@.len(),
        0 <= i < f2.pixels@.len(),
        0 <= i < f3.pixels@.len(),
    ensures
        double_diff_hot(f1, f2, f3, i) <==> (abs_diff_spec(f2.pixels@[i], f1.pixels@[i])
            > THRESHOLD_VALUE && abs_diff_spec(f3.pixels@[i], f2.pixels@[i]) > THRESHOLD_VALUE),
{
    let a = thresh_val(masked_diff_at(f2, f1, SENSITIVITY_THRESHOLD, i), THRESHOLD_VALUE);
    let b = thresh_val(masked_diff_at(f3, f2, SENSITIVITY_THRESHOLD, i), THRESHOLD_VALUE);
    assert(a == 0 || a == 255);
    assert(b == 0 || b == 255);
    assert((255u8 & 255u8) != 0) by (bit_vector);
    assert((255u8 & 0u8) == 0) by (bit_vector);
    assert((0u8 & 255u8) == 0) by (bit_vector);
    assert((0u8 & 0u8) == 0) by (bit_vector);
}

proof fn lemma_count_equiv(
    t1: Seq<u8>,
    t2: Seq<u8>,
    f1: GrayFrame,
    f2: GrayFrame,
    f3: GrayFrame,
    n: int,
)
    requires
        forall|i: int|
            0 <= i < n ==> t1[i] == thresh_val(
                masked_diff_at(f2, f1, SENSITIVITY_THRESHOLD, i),
                THRESHOLD_VALUE,
            ),
        forall|i: int|
            0 <= i < n ==> t2[i] == thresh_val(
                masked_diff_at(f3, f2, SENSITIVITY_THRESHOLD, i),
                THRESHOLD_VALUE,
            ),
    ensures
        and_hot_count(t1, t2, n) == motion_count(f1, f2, f3, n),
    decreases n,
{
    if n > 0 {
        lemma_count_equiv(t1, t2, f1, f2, f3, n - 1);
    }
}

proof fn lemma_diff_image_pointwise(
    g: GrayFrame,
    ds: Seq<PixelDiff>,
    a: GrayFrame,
    b: GrayFrame,
    s: u8,
)
    requires
        a.wf(),
        b.wf(),
        g.wf(),
        a.same_dims(&b),
        g.width == a.width,
        g.height == a.height,
        diffs_ok(ds, a, b, s),
        forall|i: int|
            0 <= i < ds.len() ==> g.pix((#[trigger] ds[i]).x as int, ds[i].y as int)
                == abs_diff_spec(ds[i].actual, ds[i].expected),
        forall|x: int, y: int|
            0 <= x < g.width && 0 <= y < g.height && !(exists|i: int|
                0 <= i < ds.len() && (#[trigger] ds[i]).x == x && ds[i].y == y)
                ==> #[trigger] g.pix(x, y) == 0,
    ensures
        forall|i: int| 0 <= i < g.pixels@.len() ==> g.pixels@[i] == masked_diff_at(a, b, s, i),
{
    let w = g.width as int;
    let h = g.height as int;
    assert forall|i: int| 0 <= i < g.pixels@.len() implies g.pixels@[i] == masked_diff_at(
        a,
        b,
        s,
        i,
    ) by {
        lemma_rowmajor_decompose(i, w, h);
        let x = i % w;
        let y = i / w;
        assert(g.pixels@[i] == g.pix(x, y));
        assert(a.pixels@[i] == a.pix(x, y));
        assert(b.pixels@[i] == b.pix(x, y));
        if abs_diff_spec(a.pix(x, y), b.pix(x, y)) > s {
            let j = choose|j: int| 0 <= j < ds.len() && (#[trigger] ds[j]).x == x && ds[j].y == y;
            assert(g.pix(x, y) == abs_diff_spec(ds[j].actual, ds[j].expected));
        } else {
            if exists|j: int| 0 <= j < ds.len() && (#[trigger] ds[j]).x == x && ds[j].y == y {
                let j = choose|j: int|
                    0 <= j < ds.len() && (#[trigger] ds[j]).x == x && ds[j].y == y;
                assert(diff_entry_ok(ds[j], a, b, s));
                assert(false);
            }
            assert(g.pix(x, y) == 0);
        }
    }
}

/// The movement score of a window of three equally sized frames:
/// two pixel-difference lists, two difference images, binarisation,
/// and a combined count.
pub fn window_movement_score(f1: &GrayFrame, f2: &GrayFrame, f3: &GrayFrame) -> (score: u32)
    requires
        f1.wf(),
        f2.wf(),
        f3.wf(),
        f1.same_dims(f2),
        f2.same_dims(f3),
        f1.pixels@.len() <= u32::MAX,
    ensures
        score == movement_score_spec(*f1, *f2, *f3),
{
    let diff1 = pixel_diffs(f2, f1, SENSITIVITY_THRESHOLD);
    let diff2 = pixel_diffs(f3, f2, SENSITIVITY_THRESHOLD);
    let g1 = diffs_to_gray_image(diff1, f3.width, f3.height);
    let g2 = diffs_to_gray_image(diff2, f3.width, f3.height);
    proof {
        lemma_diff_image_pointwise(g1, diff1@, *f2, *f1, SENSITIVITY_THRESHOLD);
        lemma_diff_image_pointwise(g2, diff2@, *f3, *f2, SENSITIVITY_THRESHOLD);
    }
    let thresholded_diff1 = threshold(&g1, THRESHOLD_VALUE);
    let thresholded_diff2 = threshold(&g2, THRESHOLD_VALUE);
    let score = movement_score(&thresholded_diff1, &thresholded_diff2);
    proof {
        lemma_count_equiv(
            thresholded_diff1.pixels@,
            thresholded_diff2.pixels@,
            *f1,
            *f2,
            *f3,
            f1.pixels@.len() as int,
        );
    }
    score
}

proof fn lemma_identical_count_zero(f: GrayFrame, n: int)
    ensures
        motion_count(f, f, f, n) == 0,
    decreases n,
{
    if n > 0 {
        lemma_identical_count_zero(f, n - 1);
        assert((0u8 & 0u8) == 0) by (bit_vector);
    }
}

/// A static scene raises no score: three identical frames always score 0.
pub proof fn lemma_identical_frames_score_zero(f: GrayFrame)
    ensures
        movement_score_spec(f, f, f) == 0,
{
    lemma_identical_count_zero(f, f.pixels@.len() as int);
}

proof fn lemma_motion_count_mono(f1: GrayFrame, f2: GrayFrame, f3: GrayFrame, m: int, n: int)
    requires
        m <= n,
    ensures
        motion_count(f1, f2, f3, m) <= motion_count(f1, f2, f3, n),
    decreases n - m,
{
    if m < n {
        lemma_motion_count_mono(f1, f2, f3, m, n - 1);
    }
}

proof fn lemma_motion_count_run(f1: GrayFrame, f2: GrayFrame, f3: GrayFrame, lo: int, n: int)
    requires
        0 <= lo <= n,
        forall|i: int| lo <= i < n ==> double_diff_hot(f1, f2, f3, i),
    ensures
        motion_count(f1, f2, f3, n) >= motion_count(f1, f2, f3, lo) + (n - lo),
    decreases n - lo,
{
    if lo < n {
        lemma_motion_count_run(f1, f2, f3, lo, n - 1);
    }
}

/// A contiguous block of pixels whose luma jumps past the binarisation
/// threshold between both pairs of consecutive frames, longer than the
/// movement pixel threshold, forces a score above the threshold: movement
/// is declared.
pub proof fn lemma_contiguous_block_triggers_movement(
    f1: GrayFrame,
    f2: GrayFrame,
    f3: GrayFrame,
    lo: int,
    hi: int,
)
    requires
        0 <= lo <= hi <= f1.pixels@.len(),
        hi <= f2.pixels@.len(),
        hi <= f3.pixels@.len(),
        forall|i: int|
            lo <= i < hi ==> abs_diff_spec(#[trigger] f2.pixels@[i], f1.pixels@[i])
                > THRESHOLD_VALUE,
        forall|i: int|
            lo <= i < hi ==> abs_diff_spec(#[trigger] f3.pixels@[i], f2.pixels@[i])
                > THRESHOLD_VALUE,
        hi - lo > MOVEMENT_PIXEL_THRESHOLD,
    ensures
        movement_score_spec(f1, f2, f3) > MOVEMENT_PIXEL_THRESHOLD,
        is_movement(f1, f2, f3),
{
    assert forall|i: int| lo <= i < hi implies double_diff_hot(f1, f2, f3, i) by {
        lemma_hot_characterization(f1, f2, f3, i);
    }
    lemma_motion_count_run(f1, f2, f3, lo, hi);
    lemma_motion_count_mono(f1, f2, f3, hi, f1.pixels@.len() as int);
}

} // verus!
