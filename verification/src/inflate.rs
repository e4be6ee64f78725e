use vstd::prelude::*;

use crate::errors::CodecError;

verus! {

/// What one call of the zlib inflater returns on a given input with a
/// given output capacity: `None` on a malformed stream, otherwise the
/// bytes it wrote. The result is a function of the two arguments alone:
/// the inflater is deterministic.
pub uninterp spec fn zlib_inflate_of(input: Seq<u8>, out_len: usize) -> Option<Seq<u8>>;

/// A raw DEFLATE block stream framed as a zlib stream: a conformant
/// two-byte zlib header (compression method 8, 32 KiB window, check
/// bits valid) in front of the raw bits. This is how the decompressor
/// is entered directly at a block header without replaying a real zlib
/// envelope: the framing supplies one, and the absent trailing checksum
/// is ignored.
pub open spec fn zlib_framed(raw: Seq<u8>) -> Seq<u8> {
    seq![0x78u8, 0x01u8] + raw
}

/// Relies on `fdeflate::Decompressor`: `new`, `ignore_adler32`, and a
/// single `read` of `input` into a zeroed buffer of `out_len` bytes at
/// position 0 with `end_of_input = false`. Per its documentation, on
/// `Ok` the number of bytes written never exceeds the buffer, and with
/// `end_of_input = false` the call reports an error only on a malformed
/// stream, never for missing input. The result is truncated to exactly
/// the bytes written.
#[verifier::external_body]
fn zlib_inflate(input: &Vec<u8>, out_len: usize) -> (r: Option<Vec<u8>>)
    ensures
        r matches Some(v) ==> {
            &&& Some(v@) == zlib_inflate_of(input@, out_len)
            &&& v@.len() <= out_len
        },
        r is None ==> zlib_inflate_of(input@, out_len) is None,
{
    let mut decompressor = fdeflate::Decompressor::new();
    decompressor.ignore_adler32();
    let mut out = vec![0u8; out_len];
    match decompressor.read(input.as_slice(), &mut out, 0, false) {
        Ok((_, produced)) => {
            out.truncate(produced);
            Some(out)
        },
        Err(_) => None,
    }
}

/// Decompresses a single raw DEFLATE block stream (no zlib/gzip
/// envelope, no checksum) into at most `out_capacity` bytes.
///
/// The decompressor is entered directly at the first block header: the
/// input must already start at the first bit of a valid block header,
/// exactly as the surrounding container framing establishes it. The
/// call probes one byte beyond the requested capacity, so output that
/// would not fit is reported as `BufferTooSmall` rather than silently
/// truncated, and a successful result never exceeds `out_capacity`.
pub fn decompress_block(input: &Vec<u8>, out_capacity: usize) -> (r: Result<Vec<u8>, CodecError>)
    requires
        out_capacity < usize::MAX,
    ensures
        match r {
            Ok(v) => {
                &&& input@.len() > 0
                &&& Some(v@) == zlib_inflate_of(zlib_framed(input@), (out_capacity + 1) as usize)
                &&& v@.len() <= out_capacity
            },
            Err(CodecError::InvalidInput) => input@.len() == 0,
            Err(CodecError::DecodeFailure) => {
                &&& input@.len() > 0
                &&& zlib_inflate_of(zlib_framed(input@), (out_capacity + 1) as usize) is None
            },
            Err(CodecError::BufferTooSmall) => {
                &&& input@.len() > 0
                &&& (zlib_inflate_of(zlib_framed(input@), (out_capacity + 1) as usize)
                    matches Some(full) && full.len() > out_capacity)
            },
            Err(_) => false,
        },
{
    if input.len() == 0 {
        return Err(CodecError::InvalidInput);
    }
    let mut framed: Vec<u8> = Vec::new();
    framed.push(0x78);
    framed.push(0x01);
    let mut i: usize = 0;
    while i < input.len()
        invariant
            i <= input@.len(),
            framed@ == zlib_framed(input@.subrange(0, i as int)),
        decreases input@.len() - i,
    {
        framed.push(input[i]);
        proof {
            assert(framed@ =~= zlib_framed(input@.subrange(0, i + 1)));
        }
        i = i + 1;
    }
    proof {
        assert(input@.subrange(0, input@.len() as int) =~= input@);
    }
    match zlib_inflate(&framed, out_capacity + 1) {
        None => Err(CodecError::DecodeFailure),
        Some(v) => {
            if v.len() > out_capacity {
                Err(CodecError::BufferTooSmall)
            } else {
                Ok(v)
            }
        },
    }
}

} // verus!
