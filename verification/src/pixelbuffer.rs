//! A fixed-size RGB byte store with clipped pixel writes.

use vstd::prelude::*;
use crate::color::Color;

verus! {

/// The pixels that a run of interleaved RGB bytes holds, first pixel first.
pub open spec fn pixels_of(bytes: Seq<u8>) -> Seq<Color> {
    Seq::new(
        (bytes.len() / 3) as nat,
        |i: int| Color { red: bytes[3 * i], green: bytes[3 * i + 1], blue: bytes[3 * i + 2] },
    )
}

/// The row-major position of `(x, y)` among the pixels of rows `width` wide.
pub open spec fn pixel_index(width: int, x: int, y: int) -> int {
    y * width + x
}

/// Whether a write at `(x, y)` is kept by a store of `len` pixels in rows
/// `width` wide: neither coordinate is negative and the position lies inside
/// the store. No other bound is put on `x`.
pub open spec fn is_kept(width: int, len: int, x: int, y: int) -> bool {
    x >= 0 && y >= 0 && pixel_index(width, x, y) < len
}

/// The pixels after one clipped write of `color` at `(x, y)`.
pub open spec fn plot(pixels: Seq<Color>, width: int, x: int, y: int, color: Color) -> Seq<Color> {
    if is_kept(width, pixels.len() as int, x, y) {
        pixels.update(pixel_index(width, x, y), color)
    } else {
        pixels
    }
}

/// A point inside the rectangle of the store is kept, at the position of its
/// row and column.
pub proof fn lemma_inside_is_kept(width: int, height: int, x: int, y: int)
    requires
        0 <= x < width,
        0 <= y < height,
    ensures
        is_kept(width, width * height, x, y),
        0 <= pixel_index(width, x, y) < width * height,
{
    assert(y * width + x < width * height) by (nonlinear_arith)
        requires
            0 <= x < width,
            0 <= y < height,
    ;
    assert(0 <= y * width + x) by (nonlinear_arith)
        requires
            0 <= x < width,
            0 <= y < height,
    ;
}

/// The store proper: `width * height` pixels of three bytes each, row-major,
/// red first. Its size never changes.
pub struct PixelBuffer {
    buffer: Vec<u8>,
    width: usize,
    height: usize,
}

impl View for PixelBuffer {
    type V = Seq<u8>;

    /// The raw bytes.
    closed spec fn view(&self) -> Seq<u8> {
        self.buffer@
    }
}

impl PixelBuffer {
    pub closed spec fn spec_width(&self) -> usize {
        self.width
    }

    pub closed spec fn spec_height(&self) -> usize {
        self.height
    }

    /// The pixels, row-major.
    pub open spec fn pixels(&self) -> Seq<Color> {
        pixels_of(self@)
    }

    /// Whether the byte count agrees with the dimensions. Every buffer is
    /// consistent at all times.
    #[verifier::type_invariant]
    pub open spec fn consistent(&self) -> bool {
        &&& self@.len() == 3 * (self.spec_width() * self.spec_height())
        &&& self.pixels().len() == self.spec_width() * self.spec_height()
        &&& 3 * (self.spec_width() * self.spec_height()) <= isize::MAX
    }

    /// A white buffer of the given dimensions.
    pub fn new(width: usize, height: usize) -> (b: Self)
        requires
            3 * (width * height) <= isize::MAX,
        ensures
            b.spec_width() == width,
            b.spec_height() == height,
            b.consistent(),
            forall|i: int| 0 <= i < b@.len() ==> b@[i] == 255u8,
            forall|i: int|
                0 <= i < width * height ==> #[trigger] b.pixels()[i] == (Color {
                    red: 255,
                    green: 255,
                    blue: 255,
                }),
    {
        assert(width * height <= 3 * (width * height)) by (nonlinear_arith);
        let n: usize = width * height * 3;
        let buffer: Vec<u8> = vec![255u8; n];
        PixelBuffer { buffer, width, height }
    }

    #[verifier::when_used_as_spec(spec_height)]
    pub fn height(&self) -> (h: usize)
        ensures
            h == self.spec_height(),
    {
        self.height
    }

    #[verifier::when_used_as_spec(spec_width)]
    pub fn width(&self) -> (w: usize)
        ensures
            w == self.spec_width(),
    {
        self.width
    }

    /// Fills every pixel with `color`.
    pub fn clear(&mut self, color: &Color)
        ensures
            final(self).spec_width() == old(self).spec_width(),
            final(self).spec_height() == old(self).spec_height(),
            final(self).consistent(),
            final(self).pixels() == Seq::new(old(self).pixels().len(), |i: int| *color),
    {
        proof {
            use_type_invariant(&*self);
        }
        let n: usize = self.buffer.len() / 3;
        let mut i: usize = 0;
        while i < n
            invariant
                i <= n,
                n * 3 == self.buffer@.len(),
                self.width == old(self).width,
                self.height == old(self).height,
                self.buffer@.len() == old(self).buffer@.len(),
                self.buffer@.len() == 3 * (self.width * self.height),
                3 * (self.width * self.height) <= isize::MAX,
                forall|j: int|
                    0 <= j < i ==> #[trigger] pixels_of(self.buffer@)[j] == *color,
            decreases n - i,
        {
            let ghost before = self.buffer@;
            self.buffer[3 * i] = color.red;
            self.buffer[3 * i + 1] = color.green;
            self.buffer[3 * i + 2] = color.blue;
            assert forall|j: int| 0 <= j < i + 1 implies #[trigger] pixels_of(self.buffer@)[j]
                == *color by {
                if j < i {
                    assert(pixels_of(before)[j] == *color);
                }
            }
            i = i + 1;
        }
        assert(self.pixels() =~= Seq::new(old(self).pixels().len(), |i: int| *color));
    }

    /// Writes `color` at `(x, y)`, or does nothing where the write is not kept.
    pub fn set_pixel(&mut self, x: isize, y: isize, color: &Color)
        ensures
            final(self).spec_width() == old(self).spec_width(),
            final(self).spec_height() == old(self).spec_height(),
            final(self).consistent(),
            final(self).pixels() == plot(
                old(self).pixels(),
                old(self).spec_width() as int,
                x as int,
                y as int,
                *color,
            ),
    {
        self.put(x as i128, y as i128, color);
    }

    /// `set_pixel` for coordinates of any size that the rasterizer computes.
    pub(crate) fn put(&mut self, x: i128, y: i128, color: &Color)
        ensures
            final(self).spec_width() == old(self).spec_width(),
            final(self).spec_height() == old(self).spec_height(),
            final(self).consistent(),
            final(self).pixels() == plot(
                old(self).pixels(),
                old(self).spec_width() as int,
                x as int,
                y as int,
                *color,
            ),
    {
        proof {
            use_type_invariant(&*self);
        }
        if x < 0 || y < 0 {
            return ;
        }
        let n: usize = self.buffer.len() / 3;
        // A row at or beyond the height, or a column at or beyond the pixel
        // count, puts the position past the end whatever the other is.
        if y >= self.height as i128 || x >= n as i128 {
            proof {
                let w = self.width as int;
                let h = self.height as int;
                if y >= h {
                    assert(y * w + x >= w * h) by (nonlinear_arith)
                        requires
                            y >= h,
                            x >= 0,
                            w >= 0,
                            h >= 0,
                    ;
                } else {
                    assert(y * w + x >= w * h) by (nonlinear_arith)
                        requires
                            x >= w * h,
                            y >= 0,
                            w >= 0,
                    ;
                }
            }
            return ;
        }
        assert(y * self.width <= self.width * self.height) by (nonlinear_arith)
            requires
                0 <= y < self.height,
                self.width >= 0,
        ;
        let index: usize = y as usize * self.width + x as usize;
        if index >= n {
            return ;
        }
        let ghost before = self.buffer@;
        self.buffer[3 * index] = color.red;
        self.buffer[3 * index + 1] = color.green;
        self.buffer[3 * index + 2] = color.blue;
        assert(pixels_of(self.buffer@) =~= pixels_of(before).update(index as int, *color));
    }

    /// The pixel at the position of `(x, y)`, or `None` where that position
    /// lies past the end.
    pub fn at(&self, x: usize, y: usize) -> (c: Option<Color>)
        ensures
            c == if pixel_index(self.spec_width() as int, x as int, y as int) < self.pixels().len() {
                Some(self.pixels()[pixel_index(self.spec_width() as int, x as int, y as int)])
            } else {
                None
            },
    {
        proof {
            use_type_invariant(self);
        }
        let n: usize = self.buffer.len() / 3;
        if y >= self.height || x >= n {
            proof {
                let w = self.width as int;
                let h = self.height as int;
                if y >= h {
                    assert(y * w + x >= w * h) by (nonlinear_arith)
                        requires
                            y >= h,
                            x >= 0,
                            w >= 0,
                            h >= 0,
                    ;
                } else {
                    assert(y * w + x >= w * h) by (nonlinear_arith)
                        requires
                            x >= w * h,
                            y >= 0,
                            w >= 0,
                    ;
                }
            }
            return None;
        }
        assert(y * self.width <= self.width * self.height) by (nonlinear_arith)
            requires
                0 <= y < self.height,
                self.width >= 0,
        ;
        let index: usize = y * self.width + x;
        if index >= n {
            None
        } else {
            Some(
                Color {
                    red: self.buffer[3 * index],
                    green: self.buffer[3 * index + 1],
                    blue: self.buffer[3 * index + 2],
                },
            )
        }
    }

    /// The bytes, three to a pixel.
    pub fn as_raw_buffer(&self) -> (bytes: &[u8])
        ensures
            bytes@ == self@,
            self.consistent(),
    {
        proof {
            use_type_invariant(self);
        }
        self.buffer.as_slice()
    }
}

} // verus!
