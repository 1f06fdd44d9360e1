use vstd::prelude::*;

verus! {

/// Channels above this value, all three at once, make a pixel background.
pub const BACKGROUND_THRESHOLD: u8 = 230;

/// One pixel's red, green and blue channels.
#[derive(Clone, Copy)]
pub struct Rgb {
    pub r: u8,
    pub g: u8,
    pub b: u8,
}

/// An image as rows of RGB pixels, top row first, three bytes per pixel.
pub struct Raster {
    pub width: u32,
    pub height: u32,
    pub pixels: Vec<u8>,
}

/// The mathematical content of a `Raster`.
pub struct RasterView {
    pub width: u32,
    pub height: u32,
    pub pixels: Seq<u8>,
}

impl View for Raster {
    type V = RasterView;

    open spec fn view(&self) -> RasterView {
        RasterView { width: self.width, height: self.height, pixels: self.pixels@ }
    }
}

impl RasterView {
    /// Holds exactly three bytes per position.
    pub open spec fn wf(self) -> bool {
        self.pixels.len() == 3 * (self.width as int * self.height as int)
    }

    /// The pixel in column `x` of row `y`.
    pub open spec fn pixel(self, x: int, y: int) -> Rgb {
        let i = 3 * (y * self.width as int + x);
        Rgb { r: self.pixels[i], g: self.pixels[i + 1], b: self.pixels[i + 2] }
    }
}

pub open spec fn background(p: Rgb) -> bool {
    p.r > BACKGROUND_THRESHOLD && p.g > BACKGROUND_THRESHOLD && p.b > BACKGROUND_THRESHOLD
}

/// Whether a pixel counts as the light border colour.
pub fn is_background(p: &Rgb) -> (r: bool)
    ensures
        r == background(*p),
{
    p.r > BACKGROUND_THRESHOLD && p.g > BACKGROUND_THRESHOLD && p.b > BACKGROUND_THRESHOLD
}

/// Whether the pixel at `pos` along a line is content. A horizontal line is
/// the row `line`; a vertical one is the column `line`.
pub open spec fn content_on(img: RasterView, vertical: bool, line: int, pos: int) -> bool {
    if vertical {
        !background(img.pixel(line, pos))
    } else {
        !background(img.pixel(pos, line))
    }
}

/// The first content position in `[lo, hi)` along a line, or `hi` if none.
pub open spec fn first_content(img: RasterView, vertical: bool, line: int, lo: int, hi: int) -> int
    decreases hi - lo,
{
    if lo >= hi {
        hi
    } else if content_on(img, vertical, line, lo) {
        lo
    } else {
        first_content(img, vertical, line, lo + 1, hi)
    }
}

/// The last content position in `[lo, hi)` along a line, or `lo - 1` if none.
pub open spec fn last_content(img: RasterView, vertical: bool, line: int, lo: int, hi: int) -> int
    decreases hi - lo,
{
    if hi <= lo {
        lo - 1
    } else if content_on(img, vertical, line, hi - 1) {
        hi - 1
    } else {
        last_content(img, vertical, line, lo, hi - 1)
    }
}

/// Length of the image along a line of the given direction.
pub open spec fn extent(img: RasterView, vertical: bool) -> int {
    if vertical {
        img.height as int
    } else {
        img.width as int
    }
}

/// Where content starts along a line: the first content position in the
/// line's first quarter, else the line's middle.
pub open spec fn near_edge(img: RasterView, vertical: bool, line: int) -> int {
    let n = extent(img, vertical);
    let f = first_content(img, vertical, line, 0, n / 4);
    if f < n / 4 {
        f
    } else {
        n / 2
    }
}

/// Where content ends along a line: the last content position in the line's
/// last quarter, but never before the middle.
pub open spec fn far_edge(img: RasterView, vertical: bool, line: int) -> int {
    let n = extent(img, vertical);
    let l = last_content(img, vertical, line, 3 * (n / 4), n);
    if l >= 3 * (n / 4) && l > n / 2 {
        l
    } else {
        n / 2
    }
}

pub open spec fn fold_min(acc: int, e: int) -> int {
    if e < acc {
        e
    } else {
        acc
    }
}

pub open spec fn fold_max(acc: int, e: int) -> int {
    if e > acc {
        e
    } else {
        acc
    }
}

/// Leftmost (or topmost, for `vertical`) content edge over the three lines
/// sampled at the quarters of the other dimension.
pub open spec fn low_bound(img: RasterView, vertical: bool) -> int {
    let s = extent(img, !vertical) / 4;
    let m = extent(img, vertical) / 2;
    fold_min(
        fold_min(fold_min(m, near_edge(img, vertical, s)), near_edge(img, vertical, 2 * s)),
        near_edge(img, vertical, 3 * s),
    )
}

/// Rightmost (or bottommost, for `vertical`) content edge over the same lines.
pub open spec fn high_bound(img: RasterView, vertical: bool) -> int {
    let s = extent(img, !vertical) / 4;
    let m = extent(img, vertical) / 2;
    fold_max(
        fold_max(fold_max(m, far_edge(img, vertical, s)), far_edge(img, vertical, 2 * s)),
        far_edge(img, vertical, 3 * s),
    )
}

proof fn lemma_pixel_index(x: int, y: int, w: int, h: int)
    requires
        0 <= x < w,
        0 <= y < h,
    ensures
        0 <= 3 * (y * w + x),
        3 * (y * w + x) + 2 < 3 * (w * h),
{
    assert(y * w + x < w * h) by (nonlinear_arith)
        requires
            0 <= x < w,
            0 <= y < h,
    ;
    assert(0 <= y * w) by (nonlinear_arith)
        requires
            0 <= x < w,
            0 <= y,
    ;
}

fn content_at(img: &Raster, vertical: bool, line: u32, pos: u32) -> (r: bool)
    requires
        img@.wf(),
        vertical ==> line < img.width && pos < img.height,
        !vertical ==> line < img.height && pos < img.width,
    ensures
        r == content_on(img@, vertical, line as int, pos as int),
{
    let (x, y) = if vertical {
        (line, pos)
    } else {
        (pos, line)
    };
    proof {
        lemma_pixel_index(x as int, y as int, img.width as int, img.height as int);
    }
    let total: usize = img.pixels.len();
    let i: usize = 3 * ((y as usize) * (img.width as usize) + (x as usize));
    let p = Rgb { r: img.pixels[i], g: img.pixels[i + 1], b: img.pixels[i + 2] };
    !is_background(&p)
}

/// Whether `line` is a line of the given direction, `hi` stays on it.
pub open spec fn on_line(img: RasterView, vertical: bool, line: int, hi: int) -> bool {
    &&& 0 <= line < extent(img, !vertical)
    &&& hi <= extent(img, vertical)
}

fn scan_first(img: &Raster, vertical: bool, line: u32, hi: u32) -> (r: u32)
    requires
        img@.wf(),
        on_line(img@, vertical, line as int, hi as int),
    ensures
        r == first_content(img@, vertical, line as int, 0, hi as int),
{
    let mut i: u32 = 0;
    while i < hi
        invariant
            img@.wf(),
            on_line(img@, vertical, line as int, hi as int),
            i <= hi,
            first_content(img@, vertical, line as int, 0, hi as int) == first_content(
                img@,
                vertical,
                line as int,
                i as int,
                hi as int,
            ),
        decreases hi - i,
    {
        if content_at(img, vertical, line, i) {
            return i;
        }
        i = i + 1;
    }
    hi
}

fn scan_last(img: &Raster, vertical: bool, line: u32, lo: u32, hi: u32) -> (r: Option<u32>)
    requires
        img@.wf(),
        lo <= hi,
        on_line(img@, vertical, line as int, hi as int),
    ensures
        r matches Some(v) ==> lo <= v < hi,
        r matches Some(v) ==> v == last_content(img@, vertical, line as int, lo as int, hi as int),
        r is None ==> last_content(img@, vertical, line as int, lo as int, hi as int) == lo - 1,
{
    let mut i: u32 = hi;
    while i > lo
        invariant
            img@.wf(),
            on_line(img@, vertical, line as int, hi as int),
            lo <= i <= hi,
            last_content(img@, vertical, line as int, lo as int, hi as int) == last_content(
                img@,
                vertical,
                line as int,
                lo as int,
                i as int,
            ),
        decreases i,
    {
        if content_at(img, vertical, line, i - 1) {
            return Some(i - 1);
        }
        i = i - 1;
    }
    None
}

fn near_edge_of(img: &Raster, vertical: bool, line: u32) -> (r: u32)
    requires
        img@.wf(),
        on_line(img@, vertical, line as int, 0),
    ensures
        r == near_edge(img@, vertical, line as int),
{
    let n: u32 = if vertical {
        img.height
    } else {
        img.width
    };
    let f = scan_first(img, vertical, line, n / 4);
    if f < n / 4 {
        f
    } else {
        n / 2
    }
}

fn far_edge_of(img: &Raster, vertical: bool, line: u32) -> (r: u32)
    requires
        img@.wf(),
        on_line(img@, vertical, line as int, 0),
    ensures
        r == far_edge(img@, vertical, line as int),
        r <= extent(img@, vertical),
{
    let n: u32 = if vertical {
        img.height
    } else {
        img.width
    };
    match scan_last(img, vertical, line, 3 * (n / 4), n) {
        Some(l) => {
            if l > n / 2 {
                l
            } else {
                n / 2
            }
        },
        None => n / 2,
    }
}

/// Content edges along one direction, sampled on the three lines at the
/// quarters of the other dimension: the least start and the greatest end.
fn edges(img: &Raster, vertical: bool) -> (r: (u32, u32))
    requires
        img@.wf(),
        (img.width == 0) == (img.height == 0),
    ensures
        r.0 == low_bound(img@, vertical),
        r.1 == high_bound(img@, vertical),
        r.0 <= extent(img@, vertical) / 2 <= r.1 <= extent(img@, vertical),
{
    let (n, other): (u32, u32) = if vertical {
        (img.height, img.width)
    } else {
        (img.width, img.height)
    };
    let s: u32 = other / 4;
    let mut lo: u32 = n / 2;
    let mut hi: u32 = n / 2;
    let mut k: u32 = 1;
    while k <= 3
        invariant
            img@.wf(),
            (img.width == 0) == (img.height == 0),
            n == extent(img@, vertical),
            other == extent(img@, !vertical),
            s == other / 4,
            1 <= k <= 4,
            lo <= n / 2 <= hi <= n,
            k == 1 ==> lo == n / 2 && hi == n / 2,
            k == 2 ==> lo == fold_min((n / 2) as int, near_edge(img@, vertical, s as int)) && hi == fold_max(
                (n / 2) as int,
                far_edge(img@, vertical, s as int),
            ),
            k == 3 ==> lo == fold_min(
                fold_min((n / 2) as int, near_edge(img@, vertical, s as int)),
                near_edge(img@, vertical, 2 * s as int),
            ) && hi == fold_max(
                fold_max((n / 2) as int, far_edge(img@, vertical, s as int)),
                far_edge(img@, vertical, 2 * s as int),
            ),
            k == 4 ==> lo == low_bound(img@, vertical) && hi == high_bound(img@, vertical),
        decreases 4 - k,
    {
        let line: u32 = s * k;
        if n > 0 {
            let a = near_edge_of(img, vertical, line);
            if a < lo {
                lo = a;
            }
            let b = far_edge_of(img, vertical, line);
            if b > hi {
                hi = b;
            }
        } else {
            assert(n / 4 == 0);
            assert(near_edge(img@, vertical, line as int) == 0);
            assert(far_edge(img@, vertical, line as int) == 0);
        }
        k = k + 1;
    }
    (lo, hi)
}

/// The rectangle `(x, y, width, height)` that content is estimated to fill.
pub open spec fn content_bounds(img: RasterView) -> (int, int, int, int) {
    let min_x = low_bound(img, false);
    let min_y = low_bound(img, true);
    (min_x, min_y, high_bound(img, false) - min_x, high_bound(img, true) - min_y)
}

/// Estimates where real content lies inside a light, uniform border.
///
/// Rows at a quarter, half and three quarters of the height are scanned for
/// the first content pixel in their first quarter and the last in their last
/// quarter; columns at the same fractions of the width likewise. A line with
/// no content there contributes the image's middle.
pub fn detect_inner_image_bounds(img: &Raster) -> (r: (u32, u32, u32, u32))
    requires
        img@.wf(),
        (img.width == 0) == (img.height == 0),
    ensures
        (r.0 as int, r.1 as int, r.2 as int, r.3 as int) == content_bounds(img@),
        r.0 + r.2 <= img.width,
        r.1 + r.3 <= img.height,
{
    let (min_x, max_x) = edges(img, false);
    let (min_y, max_y) = edges(img, true);
    (min_x, min_y, max_x - min_x, max_y - min_y)
}

/// Every pixel of the image is background.
pub open spec fn all_background(img: RasterView) -> bool {
    forall|x: int, y: int|
        0 <= x < img.width && 0 <= y < img.height ==> background(#[trigger] img.pixel(x, y))
}

proof fn lemma_no_content_scan(img: RasterView, vertical: bool, line: int, lo: int, hi: int)
    requires
        forall|p: int| lo <= p < hi ==> !#[trigger] content_on(img, vertical, line, p),
    ensures
        lo <= hi ==> first_content(img, vertical, line, lo, hi) == hi,
        lo <= hi ==> last_content(img, vertical, line, lo, hi) == lo - 1,
    decreases hi - lo,
{
    if lo < hi {
        lemma_no_content_scan(img, vertical, line, lo + 1, hi);
        lemma_no_content_scan(img, vertical, line, lo, hi - 1);
    }
}

proof fn lemma_background_line(img: RasterView, vertical: bool, line: int)
    requires
        all_background(img),
        extent(img, vertical) > 0 ==> 0 <= line < extent(img, !vertical),
    ensures
        near_edge(img, vertical, line) == extent(img, vertical) / 2,
        far_edge(img, vertical, line) == extent(img, vertical) / 2,
{
    let n = extent(img, vertical);
    assert forall|p: int| 0 <= p < n implies !#[trigger] content_on(img, vertical, line, p) by {
        if vertical {
            assert(background(img.pixel(line, p)));
        } else {
            assert(background(img.pixel(p, line)));
        }
    }
    lemma_no_content_scan(img, vertical, line, 0, n / 4);
    lemma_no_content_scan(img, vertical, line, 3 * (n / 4), n);
}

/// On an image that is background throughout, no content is found: the
/// rectangle is empty and sits at the image's middle.
pub proof fn lemma_uniform_background_bounds(img: RasterView)
    requires
        (img.width == 0) == (img.height == 0),
        all_background(img),
    ensures
        content_bounds(img) == ((img.width / 2) as int, (img.height / 2) as int, 0int, 0int),
{
    let sx = img.width / 4;
    let sy = img.height / 4;
    lemma_background_line(img, false, sy as int);
    lemma_background_line(img, false, 2 * sy as int);
    lemma_background_line(img, false, 3 * sy as int);
    lemma_background_line(img, true, sx as int);
    lemma_background_line(img, true, 2 * sx as int);
    lemma_background_line(img, true, 3 * sx as int);
}

} // verus!
