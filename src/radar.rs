//! Radar reclassification: every pixel of a colour snapshot takes the
//! intensity of the nearest colour of a fixed palette.

use vstd::prelude::*;

verus! {

/// Number of palette anchors.
pub const ANCHORS: usize = 10;

/// The palette, in declaration order: red, green, blue, intensity.
pub open spec fn anchor(i: int) -> (u8, u8, u8, u8) {
    if i == 0 {
        (205, 255, 255, 255)
    } else if i == 1 {
        (0, 0, 254, 242)
    } else if i == 2 {
        (129, 243, 255, 230)
    } else if i == 3 {
        (0, 255, 0, 190)
    } else if i == 4 {
        (255, 255, 75, 160)
    } else if i == 5 {
        (255, 218, 0, 140)
    } else if i == 6 {
        (255, 181, 0, 120)
    } else if i == 7 {
        (255, 0, 0, 80)
    } else if i == 8 {
        (231, 0, 129, 60)
    } else {
        (181, 0, 181, 40)
    }
}

pub open spec fn anchor_rgb(i: int) -> (u8, u8, u8) {
    (anchor(i).0, anchor(i).1, anchor(i).2)
}

pub fn anchor_at(i: usize) -> (r: (u8, u8, u8, u8))
    requires
        i < ANCHORS,
    ensures
        r == anchor(i as int),
{
    if i == 0 {
        (205, 255, 255, 255)
    } else if i == 1 {
        (0, 0, 254, 242)
    } else if i == 2 {
        (129, 243, 255, 230)
    } else if i == 3 {
        (0, 255, 0, 190)
    } else if i == 4 {
        (255, 255, 75, 160)
    } else if i == 5 {
        (255, 218, 0, 140)
    } else if i == 6 {
        (255, 181, 0, 120)
    } else if i == 7 {
        (255, 0, 0, 80)
    } else if i == 8 {
        (231, 0, 129, 60)
    } else {
        (181, 0, 181, 40)
    }
}

/// Squared Euclidean distance between two colours.
pub open spec fn dist_sq(c1: (u8, u8, u8), c2: (u8, u8, u8)) -> int {
    (c1.0 - c2.0) * (c1.0 - c2.0) + (c1.1 - c2.1) * (c1.1 - c2.1) + (c1.2 - c2.2) * (c1.2
        - c2.2)
}

/// Computes the squared Euclidean distance between two RGB colours.
pub fn color_distance_sq(c1: (u8, u8, u8), c2: (u8, u8, u8)) -> (r: u32)
    ensures
        r == dist_sq(c1, c2),
{
    let dr = c1.0 as i32 - c2.0 as i32;
    let dg = c1.1 as i32 - c2.1 as i32;
    let db = c1.2 as i32 - c2.2 as i32;
    assert(dr * dr <= 65025 && dg * dg <= 65025 && db * db <= 65025) by (nonlinear_arith)
        requires
            -255 <= dr <= 255,
            -255 <= dg <= 255,
            -255 <= db <= 255,
    ;
    assert(dr * dr >= 0 && dg * dg >= 0 && db * db >= 0) by (nonlinear_arith);
    (dr * dr + dg * dg + db * db) as u32
}

pub proof fn lemma_dist_bounds(c1: (u8, u8, u8), c2: (u8, u8, u8))
    ensures
        0 <= dist_sq(c1, c2) <= 195075,
        dist_sq(c1, c2) == 0 ==> c1 == c2,
{
    let dr = c1.0 - c2.0;
    let dg = c1.1 - c2.1;
    let db = c1.2 - c2.2;
    assert(0 <= dr * dr <= 65025 && 0 <= dg * dg <= 65025 && 0 <= db * db <= 65025)
        by (nonlinear_arith)
        requires
            -255 <= dr <= 255,
            -255 <= dg <= 255,
            -255 <= db <= 255,
    ;
    assert(dr * dr == 0 ==> dr == 0) by (nonlinear_arith);
    assert(dg * dg == 0 ==> dg == 0) by (nonlinear_arith);
    assert(db * db == 0 ==> db == 0) by (nonlinear_arith);
}

/// The index of the first anchor among the first `k` that lies nearest to `c`.
pub open spec fn nearest_among(c: (u8, u8, u8), k: int) -> int
    decreases k,
{
    if k <= 1 {
        0
    } else {
        let i = nearest_among(c, k - 1);
        if dist_sq(c, anchor_rgb(k - 1)) < dist_sq(c, anchor_rgb(i)) {
            k - 1
        } else {
            i
        }
    }
}

/// The intensity that a colour classifies to.
pub open spec fn nearest_level(c: (u8, u8, u8)) -> u8 {
    anchor(nearest_among(c, ANCHORS as int)).3
}

/// The anchor chosen is at minimal distance, and no earlier anchor is as near.
pub proof fn lemma_nearest_is_first_minimum(c: (u8, u8, u8), k: int)
    requires
        1 <= k,
    ensures
        0 <= nearest_among(c, k) < k,
        forall|j: int|
            0 <= j < k ==> dist_sq(c, anchor_rgb(nearest_among(c, k))) <= dist_sq(
                c,
                #[trigger] anchor_rgb(j),
            ),
        forall|j: int|
            0 <= j < nearest_among(c, k) ==> dist_sq(c, #[trigger] anchor_rgb(j)) > dist_sq(
                c,
                anchor_rgb(nearest_among(c, k)),
            ),
    decreases k,
{
    if k > 1 {
        lemma_nearest_is_first_minimum(c, k - 1);
    }
}

/// Every anchor colour classifies to its own intensity.
pub proof fn lemma_anchor_colors_exact(i: int)
    requires
        0 <= i < ANCHORS,
    ensures
        nearest_level(anchor_rgb(i)) == anchor(i).3,
{
    let c = anchor_rgb(i);
    lemma_nearest_is_first_minimum(c, ANCHORS as int);
    let m = nearest_among(c, ANCHORS as int);
    lemma_dist_bounds(c, anchor_rgb(i));
    lemma_dist_bounds(c, anchor_rgb(m));
    assert(dist_sq(c, anchor_rgb(i)) == 0);
    assert(dist_sq(c, anchor_rgb(m)) <= dist_sq(c, anchor_rgb(i)));
    assert(anchor_rgb(m) == c);
    assert(m == i);
}

/// The intensity of the anchor nearest to `rgb`, the first on a tie.
pub fn nearest_intensity(rgb: (u8, u8, u8)) -> (r: u8)
    ensures
        r == nearest_level(rgb),
{
    let mut best_gray: u8 = 255;
    let mut best_dist: u32 = u32::MAX;
    let mut i: usize = 0;
    while i < ANCHORS
        invariant
            i <= ANCHORS,
            i == 0 ==> best_dist == u32::MAX,
            i > 0 ==> best_dist == dist_sq(rgb, anchor_rgb(nearest_among(rgb, i as int)))
                && best_gray == anchor(nearest_among(rgb, i as int)).3,
        decreases ANCHORS - i,
    {
        let a = anchor_at(i);
        let dist = color_distance_sq(rgb, (a.0, a.1, a.2));
        proof {
            lemma_dist_bounds(rgb, anchor_rgb(i as int));
        }
        if dist < best_dist {
            best_dist = dist;
            best_gray = a.3;
        }
        i += 1;
    }
    best_gray
}

/// A colour raster, row-major, three bytes (red, green, blue) per pixel.
#[derive(Clone, Debug)]
pub struct RgbRaster {
    pub width: u32,
    pub height: u32,
    pub data: Vec<u8>,
}

impl RgbRaster {
    pub open spec fn wf(&self) -> bool {
        self.data@.len() == 3 * (self.width as int) * (self.height as int)
    }
}

/// A single-channel intensity raster, row-major, one byte per pixel.
#[derive(Clone, Debug, PartialEq, Eq)]
pub struct RadarIntensity {
    pub width: u32,
    pub height: u32,
    pub data: Vec<u8>,
}

impl RadarIntensity {
    pub open spec fn wf(&self) -> bool {
        self.data@.len() == (self.width as int) * (self.height as int)
    }
}

/// The colour of pixel `k` of raw RGB bytes.
pub open spec fn pixel_at(data: Seq<u8>, k: int) -> (u8, u8, u8) {
    (data[3 * k], data[3 * k + 1], data[3 * k + 2])
}

/// The intensities of every pixel of raw RGB bytes.
pub open spec fn classified(data: Seq<u8>) -> Seq<u8> {
    Seq::new(data.len() / 3, |k: int| nearest_level(pixel_at(data, k)))
}

/// Maps each pixel of a colour raster to the intensity of its nearest anchor.
pub fn remap_colors_to_grayscale_fuzzy(img: &RgbRaster) -> (r: RadarIntensity)
    requires
        img.wf(),
    ensures
        r.wf(),
        r.width == img.width,
        r.height == img.height,
        r.data@ == classified(img.data@),
{
    let n = img.data.len() / 3;
    let mut out: Vec<u8> = Vec::new();
    let mut k: usize = 0;
    while k < n
        invariant
            n == img.data@.len() / 3,
            3 * n <= img.data@.len(),
            img.data@.len() <= usize::MAX,
            k <= n,
            out@.len() == k,
            forall|j: int| 0 <= j < k ==> out@[j] == nearest_level(pixel_at(img.data@, j)),
        decreases n - k,
    {
        let base: usize = 3 * k;
        let rgb = (img.data[base], img.data[base + 1], img.data[base + 2]);
        let level = nearest_intensity(rgb);
        out.push(level);
        k += 1;
    }
    assert(out@ =~= classified(img.data@));
    let ghost w = img.width as int;
    let ghost h = img.height as int;
    assert((3 * w * h) / 3 == w * h) by (nonlinear_arith);
    RadarIntensity { width: img.width, height: img.height, data: out }
}

/// Classification is pointwise: a pixel's intensity depends on that pixel
/// alone, so equal pixels of any two rasters (or of one raster classified
/// twice) give equal intensities.
pub proof fn lemma_classify_pointwise(a: Seq<u8>, b: Seq<u8>, ka: int, kb: int)
    requires
        0 <= ka < a.len() / 3,
        0 <= kb < b.len() / 3,
        pixel_at(a, ka) == pixel_at(b, kb),
    ensures
        classified(a)[ka] == classified(b)[kb],
{
}

/// A raster of anchor colours alone classifies to exactly their intensities.
pub proof fn lemma_anchor_raster_exact(data: Seq<u8>, k: int, i: int)
    requires
        0 <= k < data.len() / 3,
        0 <= i < ANCHORS,
        pixel_at(data, k) == anchor_rgb(i),
    ensures
        classified(data)[k] == anchor(i).3,
{
    lemma_anchor_colors_exact(i);
}

/// The top-left corner of the square of side `height` at the right edge of
/// a `width` by `height` raster.
pub fn right_square_origin(width: u32, height: u32) -> (r: (u32, u32))
    ensures
        r == (if width >= height { (width - height) as u32 } else { 0u32 }, 0u32),
{
    (width.saturating_sub(height), 0)
}

/// The top-left corner of a square crop of side `side` centred on `(cx, cy)`
/// as far as the raster allows: each coordinate is pulled back so that the
/// crop stays inside, and never goes below zero.
pub fn zoom_crop_origin(width: u32, height: u32, cx: u32, cy: u32, side: u32) -> (r: (u32, u32))
    ensures
        r.0 == clamp_origin(cx as int, side as int, width as int),
        r.1 == clamp_origin(cy as int, side as int, height as int),
{
    let half = side / 2;
    let x = cx.saturating_sub(half);
    let max_x = width.saturating_sub(side);
    let y = cy.saturating_sub(half);
    let max_y = height.saturating_sub(side);
    (if x > max_x { max_x } else { x }, if y > max_y { max_y } else { y })
}

/// `c - side / 2`, bounded to `[0, extent - side]` (each end at least zero).
pub open spec fn clamp_origin(c: int, side: int, extent: int) -> int {
    let start = if c >= side / 2 { c - side / 2 } else { 0 };
    let last = if extent >= side { extent - side } else { 0 };
    if start > last { last } else { start }
}

} // verus!
