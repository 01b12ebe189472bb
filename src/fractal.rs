//! The pixel buffer of the sample fractal image: rows of RGB bytes, copied
//! into place line by line, and encoded as PNG.

use vstd::prelude::*;
use image::ImageEncoder;

verus! {

pub const WIDTH: u32 = 384;

pub const HEIGHT: u32 = 384;

/// The bytes of a whole frame: three per pixel.
pub const BUF_SIZE: u32 = 442368;

/// The PNG encoding of an RGB image with eight bits per channel.
pub uninterp spec fn png_of(pixels: Seq<u8>, width: u32, height: u32) -> Seq<u8>;

/// Relies on image's `PngEncoder::write_image` with `ExtendedColorType::Rgb8`,
/// which panics unless the buffer holds three bytes per pixel.
#[verifier::external_body]
fn encode_rgb_png(pixels: &Vec<u8>, width: u32, height: u32) -> (r: Option<Vec<u8>>)
    requires
        pixels@.len() == 3 * (width as int) * (height as int),
    ensures
        r matches Some(v) ==> v@ == png_of(pixels@, width, height),
{
    let mut out: Vec<u8> = Vec::new();
    let encoder = image::codecs::png::PngEncoder::new(&mut out);
    match encoder.write_image(pixels.as_slice(), width, height, image::ExtendedColorType::Rgb8) {
        Ok(()) => Some(out),
        Err(_) => None,
    }
}

/// Encodes a whole frame as PNG; `None` where the encoder fails.
pub fn encode_frame(buffer: &Vec<u8>) -> (r: Option<Vec<u8>>)
    requires
        buffer@.len() == BUF_SIZE,
    ensures
        r matches Some(v) ==> v@ == png_of(buffer@, WIDTH, HEIGHT),
{
    encode_rgb_png(buffer, WIDTH, HEIGHT)
}

/// Copies one rendered line of `WIDTH` pixels into row `line_number` of the
/// frame; every other byte of the frame is left as it was.
pub fn write_line(buffer: &mut Vec<u8>, line: &Vec<u8>, line_number: u32)
    requires
        line@.len() >= 3 * WIDTH,
        (line_number as int + 1) * WIDTH * 3 <= old(buffer)@.len(),
        (line_number as int + 1) * WIDTH * 3 <= u32::MAX,
    ensures
        final(buffer)@.len() == old(buffer)@.len(),
        forall|k: int|
            0 <= k < old(buffer)@.len() ==> #[trigger] final(buffer)@[k] == if line_number * WIDTH
                * 3 <= k < (line_number + 1) * WIDTH * 3 {
                line@[k - line_number * WIDTH * 3]
            } else {
                old(buffer)@[k]
            },
{
    let ghost start = line_number * WIDTH * 3;
    let mut i: u32 = 0;
    while i < WIDTH
        invariant
            0 <= i <= WIDTH,
            start == line_number * WIDTH * 3,
            line@.len() >= 3 * WIDTH,
            (line_number as int + 1) * WIDTH * 3 <= old(buffer)@.len(),
            (line_number as int + 1) * WIDTH * 3 <= u32::MAX,
            buffer@.len() == old(buffer)@.len(),
            forall|k: int|
                0 <= k < old(buffer)@.len() ==> #[trigger] buffer@[k] == if start <= k < start + 3
                    * i {
                    line@[k - start]
                } else {
                    old(buffer)@[k]
                },
        decreases WIDTH - i,
    {
        proof {
            assert((line_number * WIDTH + i) * 3 + 2 < (line_number as int + 1) * WIDTH * 3) by (nonlinear_arith)
                requires
                    i < WIDTH,
            ;
            assert((line_number * WIDTH + i) * 3 == start + 3 * i) by (nonlinear_arith)
                requires
                    start == line_number * WIDTH * 3,
            ;
        }
        let base: u32 = (line_number * WIDTH + i) * 3;
        buffer.set(base as usize, line[(i * 3) as usize]);
        buffer.set((base + 1) as usize, line[(i * 3 + 1) as usize]);
        buffer.set((base + 2) as usize, line[(i * 3 + 2) as usize]);
        i += 1;
    }
}

} // verus!
