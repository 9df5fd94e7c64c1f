use vstd::prelude::*;

verus! {

/// What a frame is, as a value: width, height and RGBA bytes.
pub type FrameModel = (u32, u32, Seq<u8>);

/// One captured image: `width` x `height` pixels, 4 bytes (RGBA) each,
/// row by row.
#[derive(Debug)]
pub struct Frame {
    pub width: u32,
    pub height: u32,
    pub pixels: Vec<u8>,
}

/// Number of bytes that a `width` x `height` RGBA buffer holds.
pub open spec fn rgba_len(width: u32, height: u32) -> int {
    4 * (width as int) * (height as int)
}

/// A frame model whose buffer has exactly one RGBA quadruple per pixel.
pub open spec fn model_wf(f: FrameModel) -> bool {
    f.2.len() == rgba_len(f.0, f.1)
}

/// A frame with at least one pixel.
pub open spec fn has_pixels(f: FrameModel) -> bool {
    f.0 > 0 && f.1 > 0
}

impl View for Frame {
    type V = FrameModel;

    open spec fn view(&self) -> FrameModel {
        (self.width, self.height, self.pixels@)
    }
}

impl Frame {
    pub open spec fn wf(&self) -> bool {
        model_wf(self@)
    }

    /// Builds a frame from its dimensions and RGBA bytes; `None` when the
    /// buffer does not hold exactly `4 * width * height` bytes.
    pub fn new(width: u32, height: u32, pixels: Vec<u8>) -> (r: Option<Frame>)
        ensures
            r is Some <==> pixels@.len() == rgba_len(width, height),
            r is Some ==> r->Some_0@ == (width, height, pixels@),
    {
        let n: u64 = 4u64 * (width as u64);
        assert((n as u128) * (height as u128) <= 0x4_0000_0000 * 0x1_0000_0000) by (nonlinear_arith)
            requires
                n <= 0x4_0000_0000,
                height <= 0xffff_ffff,
        ;
        let expected: u128 = (n as u128) * (height as u128);
        if pixels.len() as u128 == expected {
            Some(Frame { width, height, pixels })
        } else {
            None
        }
    }

    /// A copy of the frame, with its own buffer.
    pub fn duplicate(&self) -> (r: Frame)
        ensures
            r@ == self@,
    {
        let pixels = self.pixels.clone();
        assert(pixels@ =~= self.pixels@);
        Frame { width: self.width, height: self.height, pixels }
    }
}

} // verus!
