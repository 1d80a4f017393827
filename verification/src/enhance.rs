//! Where a picture is laid over a photo, and how large.

use vstd::prelude::*;

verus! {

/// The size to which the picture is scaled and the corner of the photo at
/// which it is laid.
#[derive(Clone, Copy, Debug, PartialEq, Eq, Structural)]
pub struct Placement {
    pub width: u32,
    pub height: u32,
    pub x: u32,
    pub y: u32,
}

/// Whether a picture of `ovr_w` by `ovr_h` is, for its height, narrower
/// than a photo of `img_w` by `img_h`, so that scaled to the photo's width
/// it stays below the photo's height.
pub open spec fn fits_by_width(img_w: int, img_h: int, ovr_w: int, ovr_h: int) -> bool {
    img_w * ovr_h < img_h * ovr_w
}

/// The width of the scaled picture: that of the photo where the picture
/// fits by width, else what keeps its shape at the photo's height.
pub open spec fn placed_width(img_w: int, img_h: int, ovr_w: int, ovr_h: int) -> int {
    if fits_by_width(img_w, img_h, ovr_w, ovr_h) {
        img_w
    } else {
        ovr_w * img_h / ovr_h
    }
}

/// The height of the scaled picture: what keeps its shape at the photo's
/// width where the picture fits by width, else that of the photo.
pub open spec fn placed_height(img_w: int, img_h: int, ovr_w: int, ovr_h: int) -> int {
    if fits_by_width(img_w, img_h, ovr_w, ovr_h) {
        ovr_h * img_w / ovr_w
    } else {
        img_h
    }
}

/// The scaled picture is never larger than the photo.
pub proof fn lemma_placed_within(img_w: int, img_h: int, ovr_w: int, ovr_h: int)
    requires
        0 <= img_w,
        0 <= img_h,
        0 <= ovr_w,
        0 <= ovr_h,
        fits_by_width(img_w, img_h, ovr_w, ovr_h) || ovr_h > 0,
    ensures
        0 <= placed_width(img_w, img_h, ovr_w, ovr_h) <= img_w,
        0 <= placed_height(img_w, img_h, ovr_w, ovr_h) <= img_h,
{
    if fits_by_width(img_w, img_h, ovr_w, ovr_h) {
        assert(ovr_w > 0) by (nonlinear_arith)
            requires
                img_w * ovr_h < img_h * ovr_w,
                0 <= img_w,
                0 <= ovr_h,
                0 <= ovr_w,
        ;
        assert(0 <= ovr_h * img_w / ovr_w <= img_h) by (nonlinear_arith)
            requires
                img_w * ovr_h < img_h * ovr_w,
                ovr_w > 0,
                0 <= img_w,
                0 <= ovr_h,
                0 <= img_h,
        ;
    } else {
        assert(0 <= ovr_w * img_h / ovr_h <= img_w) by (nonlinear_arith)
            requires
                img_w * ovr_h >= img_h * ovr_w,
                ovr_h > 0,
                0 <= img_w,
                0 <= ovr_w,
                0 <= img_h,
        ;
    }
}

/// The product of two sizes, which may be too large for a size.
fn area(a: u32, b: u32) -> (r: u64)
    ensures
        r == a * b,
{
    assert(0 <= a * b <= 0xffff_ffff * 0xffff_ffff) by (nonlinear_arith)
        requires
            0 <= a <= 0xffff_ffff,
            0 <= b <= 0xffff_ffff,
    ;
    a as u64 * b as u64
}

/// Where and how large a picture of `ovr_w` by `ovr_h` is laid over a
/// photo of `img_w` by `img_h`. The picture keeps its shape, is as large as
/// the photo allows and stands on the photo's lower edge: at the left, or at
/// the right where it is mirrored.
pub fn overlay_placement(img_w: u32, img_h: u32, ovr_w: u32, ovr_h: u32, mirror: bool) -> (r:
    Placement)
    requires
        fits_by_width(img_w as int, img_h as int, ovr_w as int, ovr_h as int) || ovr_h > 0,
    ensures
        r.width == placed_width(img_w as int, img_h as int, ovr_w as int, ovr_h as int),
        r.height == placed_height(img_w as int, img_h as int, ovr_w as int, ovr_h as int),
        r.x == if mirror {
            img_w - r.width
        } else {
            0
        },
        r.y == img_h - r.height,
{
    proof {
        lemma_placed_within(img_w as int, img_h as int, ovr_w as int, ovr_h as int);
    }
    let by_width: u64 = area(img_w, ovr_h);
    let by_height: u64 = area(img_h, ovr_w);
    let (width, height) = if by_width < by_height {
        assert(ovr_h * img_w == img_w * ovr_h) by (nonlinear_arith);
        (img_w, (by_width / ovr_w as u64) as u32)
    } else {
        assert(ovr_w * img_h == img_h * ovr_w) by (nonlinear_arith);
        ((by_height / ovr_h as u64) as u32, img_h)
    };
    let x = if mirror {
        img_w - width
    } else {
        0
    };
    Placement { width, height, x, y: img_h - height }
}

/// Whether `overlay_placement` can be asked for these sizes.
pub fn can_place(img_w: u32, img_h: u32, ovr_w: u32, ovr_h: u32) -> (r: bool)
    ensures
        r == (fits_by_width(img_w as int, img_h as int, ovr_w as int, ovr_h as int) || ovr_h > 0),
{
    let by_width: u64 = area(img_w, ovr_h);
    let by_height: u64 = area(img_h, ovr_w);
    by_width < by_height || ovr_h > 0
}

} // verus!
