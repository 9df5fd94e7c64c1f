use vstd::prelude::*;

verus! {

/// The narrowest width that the sizing policy produces.
pub const MIN_TARGET_WIDTH: u32 = 1080;

/// `floor(width / 1.7)`, written over integers.
pub open spec fn provisional_width(width: nat) -> nat {
    (10 * width) / 17
}

/// The width of the resized frame: the provisional width, but never less
/// than `MIN_TARGET_WIDTH` (small sources are upscaled).
pub open spec fn target_width(width: nat) -> nat {
    if provisional_width(width) >= MIN_TARGET_WIDTH as nat {
        provisional_width(width)
    } else {
        MIN_TARGET_WIDTH as nat
    }
}

/// `n / d` rounded to the nearest integer, halves upwards.
pub open spec fn round_div(n: nat, d: nat) -> nat
    recommends
        d > 0,
{
    (2 * n + d) / (2 * d)
}

/// The height of the resized frame: the source height scaled by
/// `target_width / width`, rounded to the nearest integer.
pub open spec fn target_height(width: nat, height: nat) -> nat
    recommends
        width > 0,
{
    round_div(height * target_width(width), width)
}

proof fn lemma_target_width_bounds(width: nat)
    ensures
        target_width(width) >= MIN_TARGET_WIDTH as nat,
        target_width(width) <= if width >= MIN_TARGET_WIDTH as nat { width } else { MIN_TARGET_WIDTH as nat },
        2 * target_width(width) >= width,
{
    assert((10 * width) / 17 <= width);
    assert(17 * ((10 * width) / 17) >= 10 * width - 16);
}

/// The scaled height is never zero for a frame with pixels, and stays
/// within half a pixel of the exact proportion (`height * tw / width`).
pub proof fn lemma_target_height(width: nat, height: nat)
    requires
        width > 0,
        height > 0,
    ensures
        target_height(width, height) >= 1,
        2 * (target_height(width, height) * width) <= 2 * (height * target_width(width)) + width,
        2 * (height * target_width(width)) < 2 * (target_height(width, height) * width) + width,
{
    lemma_target_width_bounds(width);
    let tw = target_width(width);
    let n = height * tw;
    let q = (2 * n + width) / (2 * width);
    assert(n >= tw) by (nonlinear_arith)
        requires
            height >= 1,
            n == height * tw,
    ;
    assert(2 * n + width >= 2 * width);
    assert(q >= 1) by (nonlinear_arith)
        requires
            2 * n + width >= 2 * width,
            width > 0,
            q == (2 * n + width) / (2 * width),
    ;
    assert(2 * (q * width) <= 2 * n + width && 2 * n < 2 * (q * width) + width) by (nonlinear_arith)
        requires
            width > 0,
            q == (2 * n + width) / (2 * width),
    ;
}

/// The target width and the rounded target height, computed once for both
/// the plain sizing function and its checked form.
pub(crate) fn scaled_dimensions(width: u32, height: u32) -> (r: (u64, u128))
    requires
        width > 0,
    ensures
        r.0 == target_width(width as nat),
        r.0 <= u32::MAX,
        r.1 == target_height(width as nat, height as nat),
{
    proof {
        lemma_target_width_bounds(width as nat);
    }
    let w = width as u64;
    let provisional: u64 = (10 * w) / 17;
    let tw: u64 = if provisional >= MIN_TARGET_WIDTH as u64 {
        provisional
    } else {
        MIN_TARGET_WIDTH as u64
    };
    assert((height as u128) * (tw as u128) <= 0xffff_ffff * 0xffff_ffff) by (nonlinear_arith)
        requires
            height <= 0xffff_ffff,
            tw <= 0xffff_ffff,
    ;
    let n: u128 = (height as u128) * (tw as u128);
    let th: u128 = (2 * n + w as u128) / (2 * w as u128);
    (tw, th)
}

/// Sizes the resized frame for a `width` x `height` source: the width is
/// `max(floor(width / 1.7), 1080)` and the height keeps the aspect ratio,
/// rounded to the nearest pixel.
pub fn resize_image_with_max_width(original_width: u32, original_height: u32) -> (r: (u32, u32))
    requires
        original_width > 0,
        target_height(original_width as nat, original_height as nat) <= u32::MAX,
    ensures
        r.0 == target_width(original_width as nat),
        r.1 == target_height(original_width as nat, original_height as nat),
        r.0 >= MIN_TARGET_WIDTH,
        original_height > 0 ==> r.1 >= 1,
        // the aspect ratio is kept to within half a pixel of height
        original_height > 0 ==> 2 * (r.1 * original_width) <= 2 * (original_height * r.0) + original_width,
        original_height > 0 ==> 2 * (original_height * r.0) < 2 * (r.1 * original_width) + original_width,
{
    proof {
        lemma_target_width_bounds(original_width as nat);
        if original_height > 0 {
            lemma_target_height(original_width as nat, original_height as nat);
        }
    }
    let (tw, th) = scaled_dimensions(original_width, original_height);
    (tw as u32, th as u32)
}

/// The target keeps the source's aspect ratio to within one pixel of
/// height: `|th * width - height * tw| <= width`.
pub proof fn lemma_aspect_ratio(width: nat, height: nat)
    requires
        width > 0,
        height > 0,
    ensures
        -(width as int) <= target_height(width, height) * width - height * target_width(width) <= width,
{
    lemma_target_height(width, height);
}

/// Sources up to 1837 pixels wide get the minimum width of 1080; those
/// narrower than 1080 are upscaled, never downscaled.
pub proof fn lemma_small_sources_upscaled(width: nat, height: nat)
    requires
        0 < width <= 1837,
        height > 0,
    ensures
        target_width(width) == MIN_TARGET_WIDTH as nat,
        width < MIN_TARGET_WIDTH as nat ==> target_width(width) > width && target_height(width, height) >= height,
{
    assert((10 * width) / 17 <= 1080);
    if width < MIN_TARGET_WIDTH as nat {
        let n = height * 1080;
        assert(2 * n + width >= 2 * width * height) by (nonlinear_arith)
            requires
                n == height * 1080,
                width < 1080,
        ;
        assert((2 * n + width) / (2 * width) >= height) by (nonlinear_arith)
            requires
                2 * n + width >= 2 * width * height,
                width > 0,
        ;
    }
}

} // verus!
