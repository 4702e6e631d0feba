//! The binary portable pixmap encoding of a canvas.

use vstd::prelude::*;
use crate::canvas::Canvas;

verus! {

/// The decimal digits of `n` in ASCII, most significant first, without
/// leading zeros.
pub open spec fn decimal(n: nat) -> Seq<u8>
    decreases n,
{
    if n < 10 {
        seq![(0x30 + n) as u8]
    } else {
        decimal(n / 10).push((0x30 + n % 10) as u8)
    }
}

/// The header of an image: `P6`, a line break, the width, a space, the
/// height, a line break, `255`, a line break.
pub open spec fn ppm_header(width: nat, height: nat) -> Seq<u8> {
    seq![0x50u8, 0x36u8, 0x0au8] + decimal(width) + seq![0x20u8] + decimal(height) + seq![
        0x0au8,
        0x32u8,
        0x35u8,
        0x35u8,
        0x0au8,
    ]
}

/// An image: the header, then the bytes of the pixels, row-major, red
/// first, with nothing between or after.
pub open spec fn ppm_image(width: nat, height: nat, bytes: Seq<u8>) -> Seq<u8> {
    ppm_header(width, height) + bytes
}

/// Appends the decimal digits of `n`.
fn push_decimal(out: &mut Vec<u8>, n: usize)
    ensures
        final(out)@ == old(out)@ + decimal(n as nat),
    decreases n,
{
    if n >= 10 {
        push_decimal(out, n / 10);
    }
    out.push(0x30 + (n % 10) as u8);
    assert(out@ =~= old(out)@ + decimal(n as nat));
}

/// Encodes canvases as binary portable pixmaps.
pub struct PPMExporter {}

impl PPMExporter {
    /// The header of an image of the given dimensions.
    pub fn header(width: usize, height: usize) -> (h: Vec<u8>)
        ensures
            h@ == ppm_header(width as nat, height as nat),
    {
        let mut h: Vec<u8> = Vec::new();
        h.push(0x50);
        h.push(0x36);
        h.push(0x0a);
        push_decimal(&mut h, width);
        h.push(0x20);
        push_decimal(&mut h, height);
        h.push(0x0a);
        h.push(0x32);
        h.push(0x35);
        h.push(0x35);
        h.push(0x0a);
        assert(h@ =~= ppm_header(width as nat, height as nat));
        h
    }

    /// The image of a canvas: what one presented frame puts on a stream.
    pub fn encode(canvas: &Canvas) -> (image: Vec<u8>)
        ensures
            image@ == ppm_image(canvas.spec_width() as nat, canvas.spec_height() as nat, canvas@),
            image@.len() == ppm_header(canvas.spec_width() as nat, canvas.spec_height() as nat).len()
                + 3 * (canvas.spec_width() * canvas.spec_height()),
    {
        let mut image = Self::header(canvas.width(), canvas.height());
        let bytes = canvas.as_raw_buffer();
        image.extend_from_slice(bytes);
        assert(image@ =~= ppm_image(
            canvas.spec_width() as nat,
            canvas.spec_height() as nat,
            canvas@,
        ));
        image
    }
}

} // verus!
