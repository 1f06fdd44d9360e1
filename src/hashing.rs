use crate::bounds::{content_bounds, detect_inner_image_bounds, Raster, RasterView};
use crate::cache::Role;
use crate::hash::PerceptualHash;
use vstd::prelude::*;

verus! {

/// Bound on each side of the reduced image that is hashed.
pub const THUMBNAIL_LIMIT: u32 = 255;

/// Width, height and RGB bytes of the reduced copy that image makes of an
/// RGB image, keeping its aspect ratio within the thumbnail limit.
pub uninterp spec fn thumbnail_of(width: u32, height: u32, pixels: Seq<u8>) -> (u32, u32, Seq<u8>);

/// The bytes of img_hash's default gradient hash of an RGB image.
pub uninterp spec fn gradient_hash_of(width: u32, height: u32, pixels: Seq<u8>) -> Seq<u8>;

/// The bytes of the sub-rectangle at `(x, y)` of size `w` by `h`.
pub open spec fn cropped(img: RasterView, x: int, y: int, w: int, h: int) -> Seq<u8> {
    Seq::new(
        (3 * (w * h)) as nat,
        |k: int| img.pixels[3 * ((y + (k / 3) / w) * img.width + x + (k / 3) % w) + k % 3],
    )
}

/// Relies on image's `imageops::crop_imm` and `SubImage::to_image`: a copy of
/// the rectangle, which lies inside the image and so is taken unclipped.
#[verifier::external_body]
fn crop(img: &Raster, x: u32, y: u32, w: u32, h: u32) -> (r: Raster)
    requires
        img@.wf(),
        x + w <= img.width,
        y + h <= img.height,
    ensures
        r.width == w,
        r.height == h,
        r.pixels@ == cropped(img@, x as int, y as int, w as int, h as int),
{
    match image::RgbImage::from_raw(img.width, img.height, img.pixels.clone()) {
        Some(buf) => {
            let part = image::imageops::crop_imm(&buf, x, y, w, h).to_image();
            Raster { width: part.width(), height: part.height(), pixels: part.into_raw() }
        },
        None => Raster { width: 0, height: 0, pixels: Vec::new() },
    }
}

/// Relies on image's `DynamicImage::thumbnail`: an aspect-preserving reduced
/// copy whose sides are both at least one pixel.
#[verifier::external_body]
fn thumbnail(img: &Raster) -> (r: Raster)
    requires
        img@.wf(),
        img.width > 0,
        img.height > 0,
    ensures
        (r.width, r.height, r.pixels@) == thumbnail_of(img.width, img.height, img.pixels@),
        r@.wf(),
        r.width > 0,
        r.height > 0,
{
    match image::RgbImage::from_raw(img.width, img.height, img.pixels.clone()) {
        Some(buf) => {
            let small = image::DynamicImage::ImageRgb8(buf).thumbnail(THUMBNAIL_LIMIT, THUMBNAIL_LIMIT).to_rgb8();
            Raster { width: small.width(), height: small.height(), pixels: small.into_raw() }
        },
        None => Raster { width: 0, height: 0, pixels: Vec::new() },
    }
}

/// Relies on img_hash's `Hasher::hash_image` under `HasherConfig::new()`:
/// an 8 by 8 bit gradient hash, that is 8 bytes.
#[verifier::external_body]
fn gradient_hash(img: &Raster) -> (r: Vec<u8>)
    requires
        img@.wf(),
        img.width > 0,
        img.height > 0,
    ensures
        r@ == gradient_hash_of(img.width, img.height, img.pixels@),
        r@.len() == 8,
{
    match image::RgbImage::from_raw(img.width, img.height, img.pixels.clone()) {
        Some(buf) => {
            let hasher = img_hash::HasherConfig::new().to_hasher();
            hasher.hash_image(&image::DynamicImage::ImageRgb8(buf)).as_bytes().to_vec()
        },
        None => Vec::new(),
    }
}

/// The image that is hashed for a file of the given role: thumbnails have
/// their border trimmed first, full-size images are taken whole.
pub open spec fn prepared(img: RasterView, role: Role) -> (u32, u32, Seq<u8>) {
    if role == Role::Thumbnail {
        let b = content_bounds(img);
        (b.2 as u32, b.3 as u32, cropped(img, b.0, b.1, b.2, b.3))
    } else {
        (img.width, img.height, img.pixels)
    }
}

/// The hash of an image of the given role.
pub open spec fn image_hash(img: RasterView, role: Role) -> Seq<u8> {
    let p = prepared(img, role);
    let t = thumbnail_of(p.0, p.1, p.2);
    gradient_hash_of(t.0, t.1, t.2)
}

/// Whether an image can be hashed for the given role: it has pixels, and a
/// thumbnail keeps some content once its border is trimmed.
pub open spec fn hashable(img: RasterView, role: Role) -> bool {
    &&& img.wf()
    &&& img.width > 0
    &&& img.height > 0
    &&& role == Role::Thumbnail ==> content_bounds(img).2 > 0 && content_bounds(img).3 > 0
}

/// Computes the perceptual hash of an image: trimmed of its border when it
/// is a thumbnail, reduced, then hashed.
pub fn compute_hash(img: &Raster, role: Role) -> (r: PerceptualHash)
    requires
        hashable(img@, role),
    ensures
        r.bytes@ == image_hash(img@, role),
        r.wf(),
{
    let small = if role.trims_borders() {
        let (x, y, w, h) = detect_inner_image_bounds(img);
        let inner = crop(img, x, y, w, h);
        proof {
            assert(inner@.wf());
        }
        thumbnail(&inner)
    } else {
        thumbnail(img)
    };
    PerceptualHash { bytes: gradient_hash(&small) }
}

/// Identical images get equal hashes, at distance zero from each other.
pub proof fn lemma_identical_images(a: RasterView, b: RasterView, role: Role)
    requires
        a == b,
    ensures
        image_hash(a, role) == image_hash(b, role),
        crate::hash::hamming(image_hash(a, role), image_hash(b, role)) == 0,
{
    crate::hash::lemma_distance_symmetric(image_hash(a, role), image_hash(b, role));
}

} // verus!
