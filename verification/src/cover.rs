//! Cover-color analysis: classifying a decoded raster image as likely
//! grayscale (an interior page) or likely color (a volume-starting cover).
//!
//! Decoding and pixel access go through the `image` crate; what a decoded
//! image holds is named by the uninterpreted `pixel_grid` and `image_dims`
//! functions, and the classification logic is verified over those names.

use vstd::prelude::*;

use image::GenericImageView;

verus! {

#[verifier::external_type_specification]
#[verifier::external_body]
pub struct ExDynamicImage(image::DynamicImage);

/// The pixels of a decoded image, keyed by `(x, y)`, each an RGB triple.
/// A function of the image value alone.
pub uninterp spec fn pixel_grid(img: image::DynamicImage) -> Map<(u32, u32), (u8, u8, u8)>;

/// The width and height of a decoded image.  A function of the image value
/// alone.
pub uninterp spec fn image_dims(img: image::DynamicImage) -> (u32, u32);

/// What downscaling produces from a decoded image when asked to fit within
/// `(w, h)`: the resulting pixels and dimensions.  A function of the image
/// value and the bounds alone — the scaling runs in the image's native
/// sample depth, so it is keyed on the image itself, not on its 8-bit
/// projection.
pub uninterp spec fn thumbnail_of(img: image::DynamicImage, w: u32, h: u32) -> (
    Map<(u32, u32), (u8, u8, u8)>,
    (u32, u32),
);

/// Decodes the image file at `path`; `None` when opening or decoding
/// fails.  What comes back depends on the file system, so nothing more is
/// promised.
///
/// Relies on `image::open`.
#[verifier::external_body]
pub fn open_image(path: &str) -> (r: Option<image::DynamicImage>)
{
    match image::open(path) {
        Ok(img) => Some(img),
        Err(_) => None,
    }
}

/// The dimensions of a decoded image.
///
/// Relies on `image::DynamicImage::dimensions` (through
/// `image::GenericImageView`).
#[verifier::external_body]
pub fn dimensions_of(img: &image::DynamicImage) -> (r: (u32, u32))
    ensures
        r == image_dims(*img),
{
    img.dimensions()
}

/// The RGB channels of the pixel at `(x, y)`.
///
/// Relies on `image::DynamicImage::get_pixel` (through
/// `image::GenericImageView`), whose result carries the RGB channels in its
/// first three components; the call panics outside the image's bounds,
/// which the precondition rules out.
#[verifier::external_body]
pub fn pixel_rgb(img: &image::DynamicImage, x: u32, y: u32) -> (r: (u8, u8, u8))
    requires
        x < image_dims(*img).0,
        y < image_dims(*img).1,
    ensures
        r == pixel_grid(*img)[(x, y)],
{
    let p = img.get_pixel(x, y);
    (p.0[0], p.0[1], p.0[2])
}

/// Scales the image down to fit within `(w, h)`, preserving aspect ratio.
///
/// Relies on `image::DynamicImage::thumbnail`; the result is a function of
/// the source image value and the bounds, which `thumbnail_of` names.
#[verifier::external_body]
pub fn make_thumbnail(img: &image::DynamicImage, w: u32, h: u32) -> (r: image::DynamicImage)
    ensures
        pixel_grid(r) == thumbnail_of(*img, w, h).0,
        image_dims(r) == thumbnail_of(*img, w, h).1,
{
    img.thumbnail(w, h)
}

/// The largest dimension an image may keep before classification downscales
/// it.
pub const GRAYSCALE_MAX_DIMENSION: u32 = 500;

/// How far apart two channels of one pixel may lie while the pixel still
/// counts as near-gray.
pub const RGB_GRAYSCALE_THRESHOLD: u8 = 10;

/// Whether a pixel is near-gray: each pair of its channels differs by at
/// most the threshold.
pub open spec fn near_gray(p: (u8, u8, u8)) -> bool {
    &&& -10 <= p.0 - p.1 <= 10
    &&& -10 <= p.1 - p.2 <= 10
    &&& -10 <= p.2 - p.0 <= 10
}

/// How many sample columns a width yields: one per started stride.
pub open spec fn grid_cols(w: u32) -> int {
    (w + 9) / 10
}

/// How many sample rows a height yields.
pub open spec fn grid_rows(h: u32) -> int {
    (h + 9) / 10
}

/// The sampled pixel with index `k`, walking the sample grid row by row.
pub open spec fn sample_at(grid: Map<(u32, u32), (u8, u8, u8)>, w: u32, k: int) -> (u8, u8, u8) {
    grid[(((k % grid_cols(w)) * 10) as u32, ((k / grid_cols(w)) * 10) as u32)]
}

/// How many of the first `n` sampled pixels are near-gray.
pub open spec fn gray_count(grid: Map<(u32, u32), (u8, u8, u8)>, w: u32, n: int) -> int
    decreases n,
{
    if n <= 0 {
        0
    } else {
        gray_count(grid, w, n - 1) + if near_gray(sample_at(grid, w, n - 1)) {
            1int
        } else {
            0int
        }
    }
}

/// The classification of an already-small image: there is at least one
/// sample, and the near-gray samples outnumber the sensitivity's share of
/// all samples.  (Scaling the sampled fraction up to the full pixel count
/// and comparing against `sensitivity × total` reduces to exactly this.)
pub open spec fn spec_classify_grid(
    grid: Map<(u32, u32), (u8, u8, u8)>,
    dims: (u32, u32),
    sensibility: u8,
) -> bool {
    let n = grid_rows(dims.1) * grid_cols(dims.0);
    n > 0 && 100 * gray_count(grid, dims.0, n) > (sensibility as int) * n
}

/// The dimensions an oversized image is scaled to: the larger dimension
/// becomes the threshold, the other shrinks proportionally.
pub open spec fn spec_scaled_dims(dims: (u32, u32)) -> (u32, u32) {
    let maxd = if dims.0 >= dims.1 {
        dims.0
    } else {
        dims.1
    };
    (
        ((dims.0 as int) * 500 / (maxd as int)) as u32,
        ((dims.1 as int) * 500 / (maxd as int)) as u32,
    )
}

/// What `is_grayscale` returns: the grid classification of the image
/// itself when it is small enough, else of its thumbnail.
pub open spec fn spec_is_grayscale(img: image::DynamicImage, sensibility: u8) -> bool {
    let dims = image_dims(img);
    if dims.0 > 500 || dims.1 > 500 {
        let bounds = spec_scaled_dims(dims);
        let t = thumbnail_of(img, bounds.0, bounds.1);
        spec_classify_grid(t.0, t.1, sensibility)
    } else {
        spec_classify_grid(pixel_grid(img), dims, sensibility)
    }
}

/// Classifies a small image by sampling its pixel grid.
fn classify_grid(img: &image::DynamicImage, sensibility: u8) -> (r: bool)
    ensures
        r == spec_classify_grid(pixel_grid(*img), image_dims(*img), sensibility),
{
    let (w, h) = dimensions_of(img);
    let cols: u64 = ((w as u64) + 9) / 10;
    let rows: u64 = ((h as u64) + 9) / 10;
    let n: u64 = match cols.checked_mul(rows) {
        Some(n) => n,
        None => {
            proof {
                assert(cols * rows <= u64::MAX) by (nonlinear_arith)
                    requires
                        cols <= 0x1999_999A,
                        rows <= 0x1999_999A,
                ;
            }
            0
        },
    };
    proof {
        assert(cols == grid_cols(w) && rows == grid_rows(h));
        assert(n == grid_rows(h) * grid_cols(w)) by (nonlinear_arith)
            requires
                cols == grid_cols(w),
                rows == grid_rows(h),
                n == cols * rows,
        ;
    }
    let mut gray: u64 = 0;
    let mut k: u64 = 0;
    while k < n
        invariant
            k <= n,
            n == grid_rows(h) * grid_cols(w),
            cols == grid_cols(w),
            rows == grid_rows(h),
            w == image_dims(*img).0,
            h == image_dims(*img).1,
            gray == gray_count(pixel_grid(*img), w, k as int),
            gray <= k,
        decreases n - k,
    {
        let ix: u64 = k % cols;
        let iy: u64 = k / cols;
        proof {
            assert(cols > 0) by (nonlinear_arith)
                requires
                    n == rows * cols,
                    k < n,
                    0 <= rows,
                    0 <= cols,
            ;
            assert(ix < cols && iy < rows) by (nonlinear_arith)
                requires
                    cols > 0,
                    n == rows * cols,
                    k < n,
                    ix == k % cols,
                    iy == k / cols,
            ;
            assert(ix * 10 < w) by (nonlinear_arith)
                requires
                    ix < cols,
                    cols == (w + 9) / 10,
            ;
            assert(iy * 10 < h) by (nonlinear_arith)
                requires
                    iy < rows,
                    rows == (h + 9) / 10,
            ;
        }
        let x: u32 = (ix as u32) * 10;
        let y: u32 = (iy as u32) * 10;
        let p = pixel_rgb(img, x, y);
        let d1 = if p.0 >= p.1 {
            p.0 - p.1
        } else {
            p.1 - p.0
        };
        let d2 = if p.1 >= p.2 {
            p.1 - p.2
        } else {
            p.2 - p.1
        };
        let d3 = if p.2 >= p.0 {
            p.2 - p.0
        } else {
            p.0 - p.2
        };
        let is_gray = d1 <= RGB_GRAYSCALE_THRESHOLD && d2 <= RGB_GRAYSCALE_THRESHOLD && d3
            <= RGB_GRAYSCALE_THRESHOLD;
        proof {
            assert(sample_at(pixel_grid(*img), w, k as int) == pixel_grid(*img)[(x, y)]);
            assert(is_gray == near_gray(pixel_grid(*img)[(x, y)]));
        }
        if is_gray {
            gray = gray + 1;
        }
        k = k + 1;
    }
    if n == 0 {
        return false;
    }
    proof {
        assert((gray as u128) * 100 <= u128::MAX) by (nonlinear_arith)
            requires
                gray <= 0xFFFF_FFFF_FFFF_FFFFu64,
        ;
        assert((sensibility as u128) * (n as u128) <= u128::MAX) by (nonlinear_arith)
            requires
                sensibility <= 255,
                n <= 0xFFFF_FFFF_FFFF_FFFFu64,
        ;
    }
    let lhs: u128 = (gray as u128) * 100;
    let rhs: u128 = (sensibility as u128) * (n as u128);
    lhs > rhs
}

/// Determines whether an image is predominantly grayscale.
///
/// An image whose larger dimension exceeds the threshold is first scaled
/// down; then every tenth pixel along each axis is sampled, and the image
/// counts as grayscale exactly when the near-gray samples outnumber the
/// sensitivity's share (in percent) of all samples.  An image without
/// samples is not grayscale.
pub fn is_grayscale(img: &image::DynamicImage, sensibility: u8) -> (r: bool)
    ensures
        r == spec_is_grayscale(*img, sensibility),
{
    let (w, h) = dimensions_of(img);
    if w > GRAYSCALE_MAX_DIMENSION || h > GRAYSCALE_MAX_DIMENSION {
        let maxd: u32 = if w >= h {
            w
        } else {
            h
        };
        let nw: u32 = (((w as u64) * 500) / (maxd as u64)) as u32;
        let nh: u32 = (((h as u64) * 500) / (maxd as u64)) as u32;
        proof {
            assert((w as int) * 500 / (maxd as int) <= 500 && (h as int) * 500 / (maxd as int)
                <= 500) by (nonlinear_arith)
                requires
                    maxd >= w || maxd >= h,
                    maxd >= w && maxd >= h,
                    maxd > 0,
            ;
            assert((nw, nh) == spec_scaled_dims((w, h)));
        }
        let thumb = make_thumbnail(img, nw, nh);
        classify_grid(&thumb, sensibility)
    } else {
        classify_grid(img, sensibility)
    }
}

/// Classification is a function of the image value and the sensitivity
/// alone: any two results of `is_grayscale` on the same image and
/// sensitivity are the same boolean.
pub proof fn lemma_classify_idempotent(
    img: image::DynamicImage,
    sensibility: u8,
    r1: bool,
    r2: bool,
)
    requires
        r1 == spec_is_grayscale(img, sensibility),
        r2 == spec_is_grayscale(img, sensibility),
    ensures
        r1 == r2,
{
}

/// All of the first `n` samples of an all-gray grid are near-gray.
proof fn lemma_gray_count_full(
    grid: Map<(u32, u32), (u8, u8, u8)>,
    dims: (u32, u32),
    n: int,
)
    requires
        forall|x: u32, y: u32|
            x < dims.0 && y < dims.1 ==> near_gray(#[trigger] grid[(x, y)]),
        n <= grid_rows(dims.1) * grid_cols(dims.0),
    ensures
        gray_count(grid, dims.0, n) == if n >= 0 {
            n
        } else {
            0
        },
    decreases n,
{
    if n > 0 {
        lemma_gray_count_full(grid, dims, n - 1);
        let cols = grid_cols(dims.0);
        let rows = grid_rows(dims.1);
        let k = n - 1;
        assert(cols > 0) by (nonlinear_arith)
            requires
                k >= 0,
                k < rows * cols,
                0 <= rows,
                0 <= cols,
        ;
        assert(k % cols < cols && k / cols < rows) by (nonlinear_arith)
            requires
                cols > 0,
                k < rows * cols,
                k >= 0,
        ;
        assert((k % cols) * 10 < dims.0) by (nonlinear_arith)
            requires
                k % cols < cols,
                cols == (dims.0 + 9) / 10,
        ;
        assert((k / cols) * 10 < dims.1) by (nonlinear_arith)
            requires
                k / cols < rows,
                rows == (dims.1 + 9) / 10,
        ;
        assert(near_gray(sample_at(grid, dims.0, k)));
    }
}

/// None of the first `n` samples of a grid without near-gray pixels is
/// near-gray.
proof fn lemma_gray_count_empty(
    grid: Map<(u32, u32), (u8, u8, u8)>,
    dims: (u32, u32),
    n: int,
)
    requires
        forall|x: u32, y: u32|
            x < dims.0 && y < dims.1 ==> !near_gray(#[trigger] grid[(x, y)]),
        n <= grid_rows(dims.1) * grid_cols(dims.0),
    ensures
        gray_count(grid, dims.0, n) == 0,
    decreases n,
{
    if n > 0 {
        lemma_gray_count_empty(grid, dims, n - 1);
        let cols = grid_cols(dims.0);
        let rows = grid_rows(dims.1);
        let k = n - 1;
        assert(cols > 0) by (nonlinear_arith)
            requires
                k >= 0,
                k < rows * cols,
                0 <= rows,
                0 <= cols,
        ;
        assert(k % cols < cols && k / cols < rows) by (nonlinear_arith)
            requires
                cols > 0,
                k < rows * cols,
                k >= 0,
        ;
        assert((k % cols) * 10 < dims.0) by (nonlinear_arith)
            requires
                k % cols < cols,
                cols == (dims.0 + 9) / 10,
        ;
        assert((k / cols) * 10 < dims.1) by (nonlinear_arith)
            requires
                k / cols < rows,
                rows == (dims.1 + 9) / 10,
        ;
        assert(!near_gray(sample_at(grid, dims.0, k)));
    }
}

/// A non-degenerate image within the size threshold whose every pixel has
/// equal channels classifies as grayscale at any sensitivity below 100
/// percent.
pub proof fn lemma_uniform_gray_classifies_grayscale(img: image::DynamicImage, sensibility: u8)
    requires
        1 <= image_dims(img).0 <= 500,
        1 <= image_dims(img).1 <= 500,
        sensibility < 100,
        forall|x: u32, y: u32|
            x < image_dims(img).0 && y < image_dims(img).1 ==> {
                let p = #[trigger] pixel_grid(img)[(x, y)];
                p.0 == p.1 && p.1 == p.2
            },
    ensures
        spec_is_grayscale(img, sensibility),
{
    let grid = pixel_grid(img);
    let dims = image_dims(img);
    let cols = grid_cols(dims.0);
    let rows = grid_rows(dims.1);
    let n = rows * cols;
    assert(cols >= 1 && rows >= 1);
    assert(n >= 1) by (nonlinear_arith)
        requires
            cols >= 1,
            rows >= 1,
            n == rows * cols,
    ;
    assert forall|x: u32, y: u32| x < dims.0 && y < dims.1 implies near_gray(
        #[trigger] grid[(x, y)],
    ) by {
        let p = grid[(x, y)];
        assert(p.0 == p.1 && p.1 == p.2);
    }
    lemma_gray_count_full(grid, dims, n);
    assert(100 * n > (sensibility as int) * n) by (nonlinear_arith)
        requires
            n >= 1,
            sensibility < 100,
    ;
}

/// An image within the size threshold whose every pixel is saturated red
/// classifies as color — not grayscale — at every sensitivity.
pub proof fn lemma_uniform_red_not_grayscale(img: image::DynamicImage, sensibility: u8)
    requires
        image_dims(img).0 <= 500,
        image_dims(img).1 <= 500,
        forall|x: u32, y: u32|
            x < image_dims(img).0 && y < image_dims(img).1 ==> #[trigger] pixel_grid(img)[
                (x, y)
            ] == (255u8, 0u8, 0u8),
    ensures
        !spec_is_grayscale(img, sensibility),
{
    let grid = pixel_grid(img);
    let dims = image_dims(img);
    let cols = grid_cols(dims.0);
    let rows = grid_rows(dims.1);
    let n = rows * cols;
    assert forall|x: u32, y: u32| x < dims.0 && y < dims.1 implies !near_gray(
        #[trigger] grid[(x, y)],
    ) by {
        assert(grid[(x, y)] == (255u8, 0u8, 0u8));
    }
    lemma_gray_count_empty(grid, dims, n);
    assert((sensibility as int) * n >= 0) by (nonlinear_arith)
        requires
            n >= 0,
            sensibility >= 0,
    ;
    assert(n >= 0) by (nonlinear_arith)
        requires
            rows >= 0,
            cols >= 0,
            n == rows * cols,
    ;
}

} // verus!
