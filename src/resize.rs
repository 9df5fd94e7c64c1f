use vstd::prelude::*;
use fast_image_resize as fir;
use std::num::NonZeroU32;
use crate::frame::{Frame, has_pixels, rgba_len};
use crate::sizing::{scaled_dimensions, target_height, target_width};

verus! {

/// Why a frame could not be resized.
#[derive(Clone, Copy, Debug, PartialEq, Eq, Structural)]
pub enum ResizeError {
    /// The source has a zero width or height.
    ZeroDimension,
    /// The source or the target has more pixels than a `u32` counts.
    TooLarge,
}

/// Both the source and the target pixel counts fit in a `u32`, as the
/// resampler counts them.
pub open spec fn fits_resampler(width: u32, height: u32) -> bool {
    &&& (width as int) * (height as int) <= u32::MAX
    &&& target_width(width as nat) * target_height(width as nat, height as nat) <= u32::MAX
}

/// The sizing policy with its failures: a zero dimension, or a source or
/// target too large for the resampler, is an error; otherwise the target
/// dimensions.
pub open spec fn sized_target(width: u32, height: u32) -> Result<(u32, u32), ResizeError> {
    if width == 0 || height == 0 {
        Err(ResizeError::ZeroDimension)
    } else if !fits_resampler(width, height) {
        Err(ResizeError::TooLarge)
    } else {
        Ok((target_width(width as nat) as u32, target_height(width as nat, height as nat) as u32))
    }
}

/// Computes `sized_target`: the target dimensions, or why there are none.
pub fn resize_target(width: u32, height: u32) -> (r: Result<(u32, u32), ResizeError>)
    ensures
        r == sized_target(width, height),
{
    if width == 0 || height == 0 {
        return Err(ResizeError::ZeroDimension);
    }
    assert((width as u64) * (height as u64) <= 0xffff_ffff * 0xffff_ffff) by (nonlinear_arith)
        requires
            width <= 0xffff_ffff,
            height <= 0xffff_ffff,
    ;
    if (width as u64) * (height as u64) > u32::MAX as u64 {
        return Err(ResizeError::TooLarge);
    }
    let (tw, th) = scaled_dimensions(width, height);
    if th > u32::MAX as u128 {
        assert(target_width(width as nat) * target_height(width as nat, height as nat) > u32::MAX) by (nonlinear_arith)
            requires
                tw >= 1,
                th > u32::MAX,
                tw == target_width(width as nat),
                th == target_height(width as nat, height as nat),
        ;
        return Err(ResizeError::TooLarge);
    }
    assert(tw * (th as u64) <= 0xffff_ffff * 0xffff_ffff) by (nonlinear_arith)
        requires
            tw <= 0xffff_ffff,
            th <= 0xffff_ffff,
    ;
    if tw * (th as u64) > u32::MAX as u64 {
        return Err(ResizeError::TooLarge);
    }
    Ok((tw as u32, th as u32))
}

/// Relies on fast_image_resize: `Image::from_vec_u8` wraps the RGBA source
/// (it fails only on a short buffer, or a misaligned one, which `U8x4`
/// pixels of alignment 1 never are), `Image::new` allocates a
/// `target_width` x `target_height` RGBA destination, `Resizer::resize` with
/// `ResizeAlg::Convolution(FilterType::Lanczos3)` fills it (it fails only on
/// differing pixel types; it copies the source when the sizes are equal),
/// and `Image::into_vec` hands back its buffer of `4 * tw * th` bytes. Other
/// pixel values depend on the CPU extensions in use, so they are not stated.
#[verifier::external_body]
fn lanczos3_resample(frame: &Frame, target_width: u32, target_height: u32) -> (r: Vec<u8>)
    requires
        frame.wf(),
        has_pixels(frame@),
        target_width > 0,
        target_height > 0,
        (frame.width as int) * (frame.height as int) <= u32::MAX,
        (target_width as int) * (target_height as int) <= u32::MAX,
    ensures
        r@.len() == rgba_len(target_width, target_height),
        target_width == frame.width && target_height == frame.height ==> r@ == frame.pixels@,
{
    let nz = |v: u32| NonZeroU32::new(v).expect("dimensions are positive");
    let src = fir::Image::from_vec_u8(nz(frame.width), nz(frame.height), frame.pixels.clone(), fir::PixelType::U8x4)
        .expect("the buffer holds one aligned RGBA pixel per position");
    let mut dst = fir::Image::new(nz(target_width), nz(target_height), fir::PixelType::U8x4);
    let mut resizer = fir::Resizer::new(fir::ResizeAlg::Convolution(fir::FilterType::Lanczos3));
    resizer.resize(&src.view(), &mut dst.view_mut()).expect("both images hold U8x4 pixels");
    dst.into_vec()
}

/// Resizes a frame to the target of the sizing policy with a Lanczos3
/// filter. Fails exactly where `sized_target` does (a zero dimension or an
/// oversized frame); a frame already at its target size comes back as it is.
pub fn resize_image_img(image: &Frame) -> (r: Result<Frame, ResizeError>)
    requires
        image.wf(),
    ensures
        match sized_target(image.width, image.height) {
            Err(e) => r == Err::<Frame, ResizeError>(e),
            Ok(t) => r matches Ok(f) && (f.width, f.height) == t && f.wf()
                && (t == (image.width, image.height) ==> f.pixels@ == image.pixels@),
        },
{
    let (tw, th) = match resize_target(image.width, image.height) {
        Ok(t) => t,
        Err(e) => return Err(e),
    };
    proof {
        let w = image.width as nat;
        let h = image.height as nat;
        crate::sizing::lemma_target_height(w, h);
        assert(target_height(w, h) <= target_width(w) * target_height(w, h)) by (nonlinear_arith)
            requires
                target_width(w) >= 1,
        ;
        assert(target_width(w) <= target_width(w) * target_height(w, h)) by (nonlinear_arith)
            requires
                target_height(w, h) >= 1,
        ;
    }
    let pixels = lanczos3_resample(image, tw, th);
    Ok(Frame { width: tw, height: th, pixels })
}

} // verus!
