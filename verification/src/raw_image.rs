use vstd::prelude::*;

use crate::errors::CodecError;

verus! {

/// An owned pixel buffer: 8 bits per channel, channel order RGBA,
/// row-major, no padding. The buffer holds exactly
/// `width * height * 4` bytes and is never partially populated.
#[derive(Debug)]
pub struct RawImage {
    pub width: u32,
    pub height: u32,
    pub pixels: Vec<u8>,
}

impl RawImage {
    /// Well-formedness: the pixel buffer length matches the dimensions.
    pub open spec fn wf(&self) -> bool {
        self.pixels@.len() == 4 * self.width * self.height
    }
}

/// Wraps caller-supplied pixel data into an owned `RawImage` without
/// re-encoding. The first `width * height * 4` bytes of `bytes` become
/// the pixel buffer; excess bytes are ignored; a deficit is rejected
/// with `InvalidBufferLength` and nothing past the end of `bytes` is
/// ever read.
pub fn image_from_raw(width: u32, height: u32, bytes: &Vec<u8>) -> (r: Result<
    RawImage,
    CodecError,
>)
    ensures
        match r {
            Ok(img) => {
                &&& bytes@.len() >= 4 * width * height
                &&& img.wf()
                &&& img.width == width
                &&& img.height == height
                &&& img.pixels@ == bytes@.subrange(0, 4 * width * height)
            },
            Err(e) => {
                &&& e == CodecError::InvalidBufferLength
                &&& bytes@.len() < 4 * width * height
            },
        },
{
    proof {
        assert((width as int) * (height as int) <= 0xffff_ffff * 0xffff_ffff)
            by (nonlinear_arith)
            requires
                width <= 0xffff_ffffu32,
                height <= 0xffff_ffffu32,
        ;
        assert(4 * ((width as int) * (height as int)) == 4 * (width as int) * (height as int))
            by (nonlinear_arith);
    }
    let wh128: u128 = (width as u128) * (height as u128);
    let needed128: u128 = 4u128 * wh128;
    if (bytes.len() as u128) < needed128 {
        return Err(CodecError::InvalidBufferLength);
    }
    assert(needed128 <= usize::MAX as u128);
    let needed: usize = needed128 as usize;
    let mut pixels: Vec<u8> = Vec::new();
    let mut i: usize = 0;
    while i < needed
        invariant
            i <= needed,
            needed <= bytes@.len(),
            needed == 4 * width * height,
            pixels@ == bytes@.subrange(0, i as int),
        decreases needed - i,
    {
        pixels.push(bytes[i]);
        proof {
            assert(pixels@ =~= bytes@.subrange(0, i + 1));
        }
        i = i + 1;
    }
    proof {
        assert(pixels@ == bytes@.subrange(0, 4 * width * height));
    }
    Ok(RawImage { width, height, pixels })
}

} // verus!
