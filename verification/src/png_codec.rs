use vstd::prelude::*;

use vstd::arithmetic::div_mod::lemma_div_multiples_vanish;
use vstd::arithmetic::div_mod::lemma_fundamental_div_mod;
use vstd::arithmetic::div_mod::lemma_fundamental_div_mod_converse;

use crate::errors::CodecError;
use crate::raw_image::RawImage;

verus! {

/// What decoding a byte stream as a PNG yields: `None` on malformed or
/// unsupported input, otherwise the frame `(width, height, channels,
/// data)` after normalization to 8 bits per sample, with `channels`
/// telling the samples per pixel (1 grayscale, 2 grayscale+alpha,
/// 3 RGB, 4 RGBA). Decoding is deterministic, so the frame is a
/// function of the bytes alone.
pub uninterp spec fn png_frame_of(bytes: Seq<u8>) -> Option<(u32, u32, u8, Seq<u8>)>;

/// What encoding a `width` x `height` 8-bit RGBA pixel buffer as a
/// single-frame, non-interlaced PNG yields. Encoding is deterministic,
/// so the stream is a function of the three arguments alone.
pub uninterp spec fn png_bytes_of(width: u32, height: u32, pixels: Seq<u8>) -> Seq<u8>;

/// The eight-byte PNG signature stands at the front of the stream.
pub open spec fn has_png_signature(bytes: Seq<u8>) -> bool {
    &&& bytes.len() >= 8
    &&& bytes[0] == 137u8
    &&& bytes[1] == 80u8
    &&& bytes[2] == 78u8
    &&& bytes[3] == 71u8
    &&& bytes[4] == 13u8
    &&& bytes[5] == 10u8
    &&& bytes[6] == 26u8
    &&& bytes[7] == 10u8
}

/// Byte `k` (0 red, 1 green, 2 blue, 3 alpha) of pixel `p` after
/// normalizing a frame with `ch` samples per pixel to RGBA: grayscale
/// replicates the luma, a missing alpha channel becomes fully opaque.
pub open spec fn rgba_pixel_byte(ch: u8, data: Seq<u8>, p: int, k: int) -> u8 {
    if ch == 1 {
        if k == 3 {
            255u8
        } else {
            data[p]
        }
    } else if ch == 2 {
        if k == 3 {
            data[2 * p + 1]
        } else {
            data[2 * p]
        }
    } else if ch == 3 {
        if k == 3 {
            255u8
        } else {
            data[3 * p + k]
        }
    } else {
        data[4 * p + k]
    }
}

/// A whole frame normalized to RGBA: four bytes for each complete
/// pixel of the input.
pub open spec fn rgba_of(ch: u8, data: Seq<u8>) -> Seq<u8> {
    Seq::new((data.len() / (ch as nat)) * 4, |j: int| rgba_pixel_byte(ch, data, j / 4, j % 4))
}

/// The normalized pixel buffer fits the machine's address space.
pub open spec fn rgba_fits(ch: u8, data: Seq<u8>) -> bool {
    4 * (data.len() as int / ch as int) <= usize::MAX
}

/// What `decode_image` yields on a byte stream: the decoded frame,
/// normalized to RGBA, as `(width, height, pixels)`; `None` where the
/// stream is malformed, unsupported, or too large for this machine.
pub open spec fn decode_model(bytes: Seq<u8>) -> Option<(u32, u32, Seq<u8>)> {
    match png_frame_of(bytes) {
        Some(f) => if 1 <= f.2 <= 4 && rgba_fits(f.2, f.3) {
            Some((f.0, f.1, rgba_of(f.2, f.3)))
        } else {
            None
        },
        None => None,
    }
}

/// An optional image as a plain `(width, height, pixels)` triple.
pub open spec fn image_model(r: Option<RawImage>) -> Option<(u32, u32, Seq<u8>)> {
    match r {
        Some(img) => Some((img.width, img.height, img.pixels@)),
        None => None,
    }
}

/// Relies on `png::Decoder` (with `Transformations::normalize_to_color8`,
/// so every sample comes out 8 bits wide and a palette is expanded, and
/// with the decoder's allocation allowance raised from its 64 MiB
/// default to the whole address space, so no well-formed stream is
/// turned away for its size alone), `Reader::read_info`,
/// `output_buffer_size` and `next_frame`, and on `ColorType::samples`
/// for the samples per pixel: after expansion the output color type is
/// grayscale, grayscale+alpha, RGB or RGBA, so `samples` is between 1
/// and 4 and the frame holds `samples * width * height` bytes. A
/// stream shorter than the eight-byte PNG signature, or one that does
/// not start with it, is rejected before anything else is read.
#[verifier::external_body]
fn png_read_frame(bytes: &Vec<u8>) -> (r: Option<(u32, u32, u8, Vec<u8>)>)
    ensures
        r matches Some(f) ==> {
            &&& png_frame_of(bytes@) == Some((f.0, f.1, f.2, f.3@))
            &&& 1 <= f.2 <= 4
            &&& f.3@.len() == (f.2 as int) * (f.0 as int) * (f.1 as int)
        },
        r is None ==> png_frame_of(bytes@) is None,
        !has_png_signature(bytes@) ==> r is None,
{
    let cursor = std::io::Cursor::new(bytes.as_slice());
    let mut decoder = png::Decoder::new_with_limits(cursor, png::Limits { bytes: usize::MAX });
    decoder.set_transformations(png::Transformations::normalize_to_color8());
    let mut reader = match decoder.read_info() { Ok(r) => r, Err(_) => return None };
    let size = match reader.output_buffer_size() { Some(s) => s, None => return None };
    let mut data = vec![0u8; size];
    let info = match reader.next_frame(&mut data) { Ok(i) => i, Err(_) => return None };
    data.truncate(info.buffer_size());
    Some((info.width, info.height, info.color_type.samples() as u8, data))
}

/// Relies on `png::Encoder` with color `Rgba` and depth `Eight`:
/// `write_header` fails exactly on a zero dimension (RGBA8 is a valid
/// color/depth combination), and with the pixel buffer holding exactly
/// `width * height * 4` bytes, `write_image_data` and `finish` only
/// write into the in-memory `Vec`, which cannot fail. The stream
/// written is a complete single-frame RGBA8 PNG of those pixels, and a
/// conformant PNG codec is lossless: decoding the stream yields the
/// same dimensions and pixel bytes back.
#[verifier::external_body]
fn png_write_rgba(width: u32, height: u32, pixels: &Vec<u8>) -> (r: Option<Vec<u8>>)
    requires
        pixels@.len() == 4 * width * height,
    ensures
        r matches Some(v) ==> {
            &&& v@ == png_bytes_of(width, height, pixels@)
            &&& png_frame_of(v@) == Some((width, height, 4u8, pixels@))
        },
        r is Some <==> (width > 0 && height > 0),
{
    let mut buf: Vec<u8> = Vec::new();
    let mut encoder = png::Encoder::new(&mut buf, width, height);
    encoder.set_color(png::ColorType::Rgba);
    encoder.set_depth(png::BitDepth::Eight);
    let mut writer = match encoder.write_header() {
        Ok(writer) => writer,
        Err(_) => return None,
    };
    if writer.write_image_data(pixels.as_slice()).is_err() {
        return None;
    }
    if writer.finish().is_err() {
        return None;
    }
    Some(buf)
}

/// Normalizes a decoded frame of `npix` complete pixels with `ch`
/// samples each to four bytes per pixel.
fn to_rgba(ch: u8, data: &Vec<u8>, npix: usize) -> (out: Vec<u8>)
    requires
        1 <= ch <= 4,
        data@.len() == (ch as int) * (npix as int),
        4 * npix <= usize::MAX,
    ensures
        out@ == rgba_of(ch, data@),
{
    let chu: usize = ch as usize;
    let mut out: Vec<u8> = Vec::new();
    let mut p: usize = 0;
    while p < npix
        invariant
            p <= npix,
            1 <= ch <= 4,
            chu == ch as usize,
            data@.len() == (ch as int) * (npix as int),
            4 * npix <= usize::MAX,
            out@.len() == 4 * p,
            forall|j: int|
                0 <= j < 4 * p ==> out@[j] == rgba_pixel_byte(ch, data@, j / 4, j % 4),
        decreases npix - p,
    {
        proof {
            assert((p as int) * (chu as int) + (chu as int) <= (ch as int) * (npix as int)
                && (ch as int) * (npix as int) <= 4 * (npix as int))
                by (nonlinear_arith)
                requires
                    (p as int) < (npix as int),
                    1 <= (ch as int) <= 4,
                    (chu as int) == (ch as int),
            ;
        }
        let base: usize = p * chu;
        let ghost pre = out@;
        let (b0, b1, b2, b3): (u8, u8, u8, u8) = if ch == 1 {
            let g = data[base];
            (g, g, g, 255)
        } else if ch == 2 {
            let g = data[base];
            (g, g, g, data[base + 1])
        } else if ch == 3 {
            (data[base], data[base + 1], data[base + 2], 255)
        } else {
            (data[base], data[base + 1], data[base + 2], data[base + 3])
        };
        out.push(b0);
        out.push(b1);
        out.push(b2);
        out.push(b3);
        proof {
            if ch == 1 {
                assert(base as int == p as int) by (nonlinear_arith)
                    requires
                        (base as int) == (p as int) * (chu as int),
                        (chu as int) == 1,
                ;
            } else if ch == 2 {
                assert(base as int == 2 * (p as int)) by (nonlinear_arith)
                    requires
                        (base as int) == (p as int) * (chu as int),
                        (chu as int) == 2,
                ;
            } else if ch == 3 {
                assert(base as int == 3 * (p as int)) by (nonlinear_arith)
                    requires
                        (base as int) == (p as int) * (chu as int),
                        (chu as int) == 3,
                ;
            } else {
                assert(base as int == 4 * (p as int)) by (nonlinear_arith)
                    requires
                        (base as int) == (p as int) * (chu as int),
                        (chu as int) == 4,
                ;
            }
            assert(out@ == pre.push(b0).push(b1).push(b2).push(b3));
            assert(out@.len() == 4 * p + 4);
            assert(b0 == rgba_pixel_byte(ch, data@, p as int, 0));
            assert(b1 == rgba_pixel_byte(ch, data@, p as int, 1));
            assert(b2 == rgba_pixel_byte(ch, data@, p as int, 2));
            assert(b3 == rgba_pixel_byte(ch, data@, p as int, 3));
            assert(out@[4 * p] == b0 && out@[4 * p + 1] == b1 && out@[4 * p + 2] == b2 && out@[4
                * p + 3] == b3);
            assert forall|j: int| 0 <= j < 4 * (p + 1) implies out@[j] == rgba_pixel_byte(
                ch,
                data@,
                j / 4,
                j % 4,
            ) by {
                if j < 4 * p {
                    assert(out@[j] == pre[j]);
                } else {
                    let k = j - 4 * p;
                    lemma_fundamental_div_mod_converse(j, 4, p as int, k);
                    assert(j / 4 == p && j % 4 == k);
                    assert(out@[j] == rgba_pixel_byte(ch, data@, p as int, k));
                }
            }
        }
        p = p + 1;
    }
    proof {
        lemma_div_multiples_vanish(npix as int, ch as int);
        assert(data@.len() / (ch as nat) == npix);
        assert(out@ =~= rgba_of(ch, data@));
    }
    out
}

/// Decodes a PNG byte stream into an owned 8-bit RGBA `RawImage`,
/// whatever the source color type and bit depth. Returns `None`, with
/// no partial result, on malformed or truncated input — in particular
/// on an empty stream or one without the PNG signature — on an
/// unsupported stream, and on a frame whose normalized size would not
/// fit this machine.
pub fn decode_image(bytes: &Vec<u8>) -> (r: Option<RawImage>)
    ensures
        image_model(r) == decode_model(bytes@),
        r matches Some(img) ==> img.wf(),
        bytes@.len() == 0 ==> r is None,
        !has_png_signature(bytes@) ==> r is None,
{
    match png_read_frame(bytes) {
        None => None,
        Some((width, height, ch, data)) => {
            let npix: usize = data.len() / (ch as usize);
            proof {
                lemma_fundamental_div_mod(usize::MAX as int, 4);
                assert((ch as int) * (width as int) * (height as int) == (ch as int) * ((
                width as int) * (height as int))) by (nonlinear_arith);
                lemma_div_multiples_vanish((width as int) * (height as int), ch as int);
                assert(npix == (width as int) * (height as int));
                assert(data@.len() / (ch as nat) == npix);
            }
            if npix > usize::MAX / 4 {
                proof {
                    assert(4 * (npix as int) > usize::MAX);
                }
                return None;
            }
            assert(4 * (npix as int) <= usize::MAX);
            let pixels = to_rgba(ch, &data, npix);
            proof {
                assert(pixels@.len() == 4 * (npix as int));
                assert(4 * (width as int) * (height as int) == 4 * ((width as int) * (
                height as int))) by (nonlinear_arith);
            }
            Some(RawImage { width, height, pixels })
        },
    }
}

/// Law: the codec is lossless. Any stream whose decoded frame is the
/// encoder's RGBA frame of an image decodes back to that very image:
/// together with `encode_image`'s postcondition this says that
/// `decode_image` applied to `encode_image`'s output restores the
/// original width, height and pixel buffer exactly.
pub proof fn lemma_encode_round_trip(width: u32, height: u32, pixels: Seq<u8>, encoded: Seq<u8>)
    ensures
        (pixels.len() == 4 * width * height && pixels.len() <= usize::MAX && png_frame_of(encoded)
            == Some((width, height, 4u8, pixels))) ==> decode_model(encoded) == Some(
            (width, height, pixels),
        ),
{
    if pixels.len() == 4 * width * height && pixels.len() <= usize::MAX && png_frame_of(encoded)
        == Some((width, height, 4u8, pixels)) {
        assert(pixels.len() as int == ((width as int) * (height as int)) * 4)
            by (nonlinear_arith)
            requires
                pixels.len() as int == 4 * (width as int) * (height as int),
        ;
        vstd::arithmetic::div_mod::lemma_mod_multiples_basic(
            (width as int) * (height as int),
            4,
        );
        lemma_fundamental_div_mod(pixels.len() as int, 4);
        lemma_rgba_identity_of_multiple(pixels);
    }
}

/// Law: wrapping an exactly-sized raw buffer round-trips. A raw pixel
/// buffer of exactly `width * height * 4` bytes, wrapped by
/// `image_from_raw` (whose postcondition makes the pixel buffer that
/// very prefix of `buf`) and then encoded, decodes back to `buf`
/// itself.
pub proof fn lemma_raw_buffer_round_trip(width: u32, height: u32, buf: Seq<u8>, encoded: Seq<u8>)
    ensures
        (buf.len() == 4 * width * height && buf.len() <= usize::MAX && png_frame_of(encoded)
            == Some((width, height, 4u8, buf.subrange(0, 4 * width * height)))) ==> decode_model(
            encoded,
        ) == Some((width, height, buf)),
{
    if buf.len() == 4 * width * height && buf.len() <= usize::MAX && png_frame_of(encoded) == Some(
        (width, height, 4u8, buf.subrange(0, 4 * width * height)),
    ) {
        assert(buf.subrange(0, 4 * width * height) =~= buf);
        lemma_encode_round_trip(width, height, buf, encoded);
    }
}

/// Normalizing an RGBA frame changes nothing: on a buffer holding
/// whole four-byte pixels, `rgba_of` with four channels is the
/// identity.
pub proof fn lemma_rgba_identity_of_multiple(data: Seq<u8>)
    requires
        data.len() % 4 == 0,
    ensures
        rgba_of(4u8, data) == data,
{
    lemma_fundamental_div_mod(data.len() as int, 4);
    assert forall|j: int| 0 <= j < data.len() implies rgba_of(4u8, data)[j] == data[j] by {
        lemma_fundamental_div_mod(j, 4);
        assert(j == 4 * (j / 4) + j % 4);
    }
    assert(rgba_of(4u8, data) =~= data);
}

/// Encodes a well-formed image as a complete, single-frame,
/// non-interlaced 8-bit RGBA PNG stream. Fails, with no side effect,
/// exactly on an image with a zero dimension; the stream it returns
/// decodes back to the very same image.
pub fn encode_image(img: &RawImage) -> (r: Result<Vec<u8>, CodecError>)
    requires
        img.wf(),
    ensures
        r matches Ok(v) ==> {
            &&& v@ == png_bytes_of(img.width, img.height, img.pixels@)
            &&& png_frame_of(v@) == Some((img.width, img.height, 4u8, img.pixels@))
            &&& decode_model(v@) == image_model(Some(*img))
        },
        r is Ok <==> (img.width > 0 && img.height > 0),
        r matches Err(e) ==> e == CodecError::EncodeFailure,
{
    match png_write_rgba(img.width, img.height, &img.pixels) {
        Some(v) => {
            proof {
                assert(img.pixels@.len() == img.pixels.len());
                lemma_encode_round_trip(img.width, img.height, img.pixels@, v@);
            }
            Ok(v)
        },
        None => Err(CodecError::EncodeFailure),
    }
}

} // verus!
