//! The drawing surface: a pixel buffer, paint attributes and the operations
//! that rasterize geometry into the buffer.

use vstd::prelude::*;
use crate::pixelbuffer::{lemma_inside_is_kept, pixel_index, pixels_of, plot, PixelBuffer};
use crate::path::PathSegment;
use crate::primitives::{normalized_extent, normalized_origin};
use crate::raster::{
    direction, either, ellipse_holds, ellipse_row_fill, ellipse_row_stroke, is_half_width,
    lemma_ellipse_holds_center, lemma_ellipse_holds_less, lemma_half_width_splits,
    lemma_minor_offset_unique, lemma_paint_nothing, lemma_paint_point, lemma_paint_same,
    lemma_paint_single_point, lemma_paint_twice, line_shape, magnitude, paint, paint_ellipse,
    paint_rect, path_cursor, path_shape, point_shape, rect_area, rect_area_above, rect_outline,
    run_prefix, span_prefix, span_shape,
};
use crate::text::{
    bitmap_or_blank, glyph_prefix, glyph_shape, glyph_width, text_column, text_line, text_shape,
    width_of, GlyphHeight, INK_THRESHOLD,
};
use vstd::string::StrSliceExecFns;

pub use crate::color::Color;
pub use crate::path::Path;
pub use crate::primitives::{IntPoint, IntRect};

verus! {

/// The weight of the text face.
#[derive(Clone, Copy, Debug, PartialEq, Eq, Structural)]
pub enum FontWeight {
    Light,
    Regular,
    Bold,
}

/// How text is set: a point size and a weight.
#[derive(Clone, Copy, Debug, PartialEq, Eq, Structural)]
pub struct TextStyle {
    weight: FontWeight,
    size: usize,
}

impl TextStyle {
    pub closed spec fn spec_size(&self) -> usize {
        self.size
    }

    pub closed spec fn spec_weight(&self) -> FontWeight {
        self.weight
    }

    pub fn new(size: usize, weight: FontWeight) -> (s: Self)
        ensures
            s.spec_size() == size,
            s.spec_weight() == weight,
    {
        TextStyle { size, weight }
    }

    #[verifier::when_used_as_spec(spec_size)]
    pub fn size(&self) -> (s: usize)
        ensures
            s == self.spec_size(),
    {
        self.size
    }

    #[verifier::when_used_as_spec(spec_weight)]
    pub fn weight(&self) -> (w: FontWeight)
        ensures
            w == self.spec_weight(),
    {
        self.weight
    }
}

/// A pixel buffer with a fill color, a stroke color, a background color and a
/// text style. Either of fill and stroke may be unset; what an operation
/// would draw in an unset color it does not draw.
pub struct Canvas {
    pixelbuffer: PixelBuffer,
    fill: Option<Color>,
    stroke: Option<Color>,
    background: Color,
    text_style: TextStyle,
}

/// Which of the two paint colors a write takes.
#[derive(Clone, Copy)]
enum ColorSource {
    Fill,
    Stroke,
}

/// The largest coordinate that the rasterizer computes with.
const REACH: i128 = 0x10_0000_0000_0000_0000_0000_0000;

/// The largest half-axis of an ellipse: the products of four half-axes must
/// fit in 128 bits.
pub const MAX_HALF_AXIS: usize = 0xffff_ffff;

/// Whether the ellipse of the half-axes `w` and `h` holds the offset `(dx, dy)`.
fn ellipse_holds_at(w: u128, h: u128, dx: u128, dy: u128) -> (r: bool)
    requires
        w <= MAX_HALF_AXIS,
        h <= MAX_HALF_AXIS,
        dx <= w,
        dy <= h,
    ensures
        r == ellipse_holds(w as int, h as int, dx as int, dy as int),
{
    assert(w * w <= 18446744065119617025 && dx * dx <= w * w) by (nonlinear_arith)
        requires
            dx <= w <= 0xffff_ffff,
    ;
    assert(h * h <= 18446744065119617025 && dy * dy <= h * h) by (nonlinear_arith)
        requires
            dy <= h <= 0xffff_ffff,
    ;
    let ww: u128 = w * w;
    let hh: u128 = h * h;
    assert(hh * ww <= 340282366604025813516997721482669850625) by (nonlinear_arith)
        requires
            hh <= 18446744065119617025,
            ww <= 18446744065119617025,
    ;
    assert(dy * dy * ww <= hh * ww) by (nonlinear_arith)
        requires
            dy * dy <= hh,
    ;
    assert(dx * dx * hh <= ww * hh && ww * hh == hh * ww) by (nonlinear_arith)
        requires
            dx * dx <= ww,
    ;
    dx * dx * hh <= hh * ww - dy * dy * ww
}

impl View for Canvas {
    type V = Seq<u8>;

    /// The raw bytes of the buffer.
    closed spec fn view(&self) -> Seq<u8> {
        self.pixelbuffer@
    }
}

impl Canvas {
    pub closed spec fn spec_width(&self) -> usize {
        self.pixelbuffer.spec_width()
    }

    pub closed spec fn spec_height(&self) -> usize {
        self.pixelbuffer.spec_height()
    }

    /// The pixels, row-major.
    pub open spec fn pixels(&self) -> Seq<Color> {
        pixels_of(self@)
    }

    pub closed spec fn fill_color(&self) -> Option<Color> {
        self.fill
    }

    pub closed spec fn stroke_color(&self) -> Option<Color> {
        self.stroke
    }

    pub closed spec fn background_color(&self) -> Color {
        self.background
    }

    pub closed spec fn text_style(&self) -> TextStyle {
        self.text_style
    }

    /// Whether the buffer holds three bytes for each pixel of the canvas.
    /// Every canvas that this module hands out is consistent.
    pub open spec fn consistent(&self) -> bool {
        &&& self@.len() == 3 * (self.spec_width() * self.spec_height())
        &&& self.pixels().len() == self.spec_width() * self.spec_height()
        &&& 3 * (self.spec_width() * self.spec_height()) <= isize::MAX
    }

    /// Whether the canvas has the dimensions and the paint attributes of `before`.
    pub open spec fn same_setup(&self, before: Canvas) -> bool {
        &&& self.spec_width() == before.spec_width()
        &&& self.spec_height() == before.spec_height()
        &&& self.fill_color() == before.fill_color()
        &&& self.stroke_color() == before.stroke_color()
        &&& self.background_color() == before.background_color()
        &&& self.text_style() == before.text_style()
    }

    /// What every drawing operation leaves: the setup of `before`, and the
    /// given pixels.
    pub open spec fn redrawn(&self, before: Canvas, pixels: Seq<Color>) -> bool {
        &&& self.same_setup(before)
        &&& self.consistent()
        &&& self.pixels() == pixels
    }

    /// A white canvas with a black stroke, no fill, a white background and
    /// regular text of size 16.
    pub fn new(width: usize, height: usize) -> (c: Self)
        requires
            3 * (width * height) <= isize::MAX,
        ensures
            c.spec_width() == width,
            c.spec_height() == height,
            c.consistent(),
            c.stroke_color() == Some(Color { red: 0, green: 0, blue: 0 }),
            c.fill_color() == None::<Color>,
            c.background_color() == (Color { red: 255, green: 255, blue: 255 }),
            c.text_style().spec_size() == 16,
            c.text_style().spec_weight() == FontWeight::Regular,
            forall|i: int|
                0 <= i < width * height ==> #[trigger] c.pixels()[i] == (Color {
                    red: 255,
                    green: 255,
                    blue: 255,
                }),
    {
        Canvas {
            pixelbuffer: PixelBuffer::new(width, height),
            stroke: Some(Color::rgb(0, 0, 0)),
            fill: None,
            background: Color::rgb(255, 255, 255),
            text_style: TextStyle::new(16, FontWeight::Regular),
        }
    }

    #[verifier::when_used_as_spec(spec_height)]
    pub fn height(&self) -> (h: usize)
        ensures
            h == self.spec_height(),
    {
        self.pixelbuffer.height()
    }

    #[verifier::when_used_as_spec(spec_width)]
    pub fn width(&self) -> (w: usize)
        ensures
            w == self.spec_width(),
    {
        self.pixelbuffer.width()
    }

    /// The bytes of the buffer, three to a pixel, row-major.
    pub fn as_raw_buffer(&self) -> (bytes: &[u8])
        ensures
            bytes@ == self@,
            self.consistent(),
    {
        self.pixelbuffer.as_raw_buffer()
    }

    pub fn set_background(&mut self, color: Color)
        ensures
            final(self).background_color() == color,
            final(self)@ == old(self)@,
            final(self).spec_width() == old(self).spec_width(),
            final(self).spec_height() == old(self).spec_height(),
            final(self).fill_color() == old(self).fill_color(),
            final(self).stroke_color() == old(self).stroke_color(),
            final(self).text_style() == old(self).text_style(),
    {
        self.background = color;
    }

    pub fn stroke(&mut self, color: Color)
        ensures
            final(self).stroke_color() == Some(color),
            final(self)@ == old(self)@,
            final(self).spec_width() == old(self).spec_width(),
            final(self).spec_height() == old(self).spec_height(),
            final(self).fill_color() == old(self).fill_color(),
            final(self).background_color() == old(self).background_color(),
            final(self).text_style() == old(self).text_style(),
    {
        self.stroke = Some(color);
    }

    pub fn fill(&mut self, color: Color)
        ensures
            final(self).fill_color() == Some(color),
            final(self)@ == old(self)@,
            final(self).spec_width() == old(self).spec_width(),
            final(self).spec_height() == old(self).spec_height(),
            final(self).stroke_color() == old(self).stroke_color(),
            final(self).background_color() == old(self).background_color(),
            final(self).text_style() == old(self).text_style(),
    {
        self.fill = Some(color);
    }

    pub fn no_fill(&mut self)
        ensures
            final(self).fill_color() == None::<Color>,
            final(self)@ == old(self)@,
            final(self).spec_width() == old(self).spec_width(),
            final(self).spec_height() == old(self).spec_height(),
            final(self).stroke_color() == old(self).stroke_color(),
            final(self).background_color() == old(self).background_color(),
            final(self).text_style() == old(self).text_style(),
    {
        self.fill = None;
    }

    pub fn no_stroke(&mut self)
        ensures
            final(self).stroke_color() == None::<Color>,
            final(self)@ == old(self)@,
            final(self).spec_width() == old(self).spec_width(),
            final(self).spec_height() == old(self).spec_height(),
            final(self).fill_color() == old(self).fill_color(),
            final(self).background_color() == old(self).background_color(),
            final(self).text_style() == old(self).text_style(),
    {
        self.stroke = None;
    }

    pub fn font_size(&mut self, size: usize)
        ensures
            final(self).text_style().spec_size() == size,
            final(self).text_style().spec_weight() == old(self).text_style().spec_weight(),
            final(self)@ == old(self)@,
            final(self).spec_width() == old(self).spec_width(),
            final(self).spec_height() == old(self).spec_height(),
            final(self).fill_color() == old(self).fill_color(),
            final(self).stroke_color() == old(self).stroke_color(),
            final(self).background_color() == old(self).background_color(),
    {
        self.text_style.size = size;
    }

    pub fn font_weight(&mut self, weight: FontWeight)
        ensures
            final(self).text_style().spec_weight() == weight,
            final(self).text_style().spec_size() == old(self).text_style().spec_size(),
            final(self)@ == old(self)@,
            final(self).spec_width() == old(self).spec_width(),
            final(self).spec_height() == old(self).spec_height(),
            final(self).fill_color() == old(self).fill_color(),
            final(self).stroke_color() == old(self).stroke_color(),
            final(self).background_color() == old(self).background_color(),
    {
        self.text_style.weight = weight;
    }

    /// Fills every pixel with the background color.
    pub fn clear(&mut self)
        ensures
            final(self).redrawn(
                *old(self),
                Seq::new(old(self).pixels().len(), |i: int| old(self).background_color()),
            ),
    {
        let background = self.background;
        self.pixelbuffer.clear(&background);
    }

    /// One clipped write of `color`.
    fn write(&mut self, x: i128, y: i128, color: &Color)
        ensures
            final(self).redrawn(
                *old(self),
                plot(old(self).pixels(), old(self).spec_width() as int, x as int, y as int, *color),
            ),
    {
        self.pixelbuffer.put(x, y, color);
    }

    /// The color that a source names, if it is set.
    fn color_of(&self, color_source: ColorSource) -> (color: Option<Color>)
        ensures
            color == match color_source {
                ColorSource::Fill => self.fill_color(),
                ColorSource::Stroke => self.stroke_color(),
            },
    {
        match color_source {
            ColorSource::Fill => self.fill,
            ColorSource::Stroke => self.stroke,
        }
    }

    /// One clipped write in the fill or the stroke color, if that color is set.
    fn set_pixel_from_color_source(&mut self, x: i128, y: i128, color_source: ColorSource)
        ensures
            final(self).redrawn(
                *old(self),
                paint(
                    old(self).pixels(),
                    old(self).spec_width() as int,
                    point_shape(x as int, y as int),
                    match color_source {
                        ColorSource::Fill => old(self).fill_color(),
                        ColorSource::Stroke => old(self).stroke_color(),
                    },
                ),
            ),
    {
        proof {
            use_type_invariant(&self.pixelbuffer);
        }
        match self.color_of(color_source) {
            Some(c) => {
                proof {
                    lemma_paint_single_point(
                        self.pixels(),
                        self.spec_width() as int,
                        x as int,
                        y as int,
                        c,
                    );
                }
                self.write(x, y, &c);
            },
            None => {},
        }
    }

    /// Writes the stroke color at `point`. The write is dropped where a
    /// coordinate is negative or the position lies past the end of the
    /// buffer; a point within the canvas is always written.
    pub fn draw_point(&mut self, point: &IntPoint)
        ensures
            final(self).redrawn(
                *old(self),
                match old(self).stroke_color() {
                    Some(c) => plot(
                        old(self).pixels(),
                        old(self).spec_width() as int,
                        point.x as int,
                        point.y as int,
                        c,
                    ),
                    None => old(self).pixels(),
                },
            ),
            0 <= point.x < old(self).spec_width() && 0 <= point.y < old(self).spec_height() ==> (old(
                self,
            ).stroke_color() matches Some(c) ==> final(self).pixels()[pixel_index(
                old(self).spec_width() as int,
                point.x as int,
                point.y as int,
            )] == c),
            point.x < 0 || point.y < 0 || pixel_index(
                old(self).spec_width() as int,
                point.x as int,
                point.y as int,
            ) >= old(self).spec_width() * old(self).spec_height() ==> final(self).pixels() == old(
                self,
            ).pixels(),
    {
        proof {
            use_type_invariant(&self.pixelbuffer);
            if 0 <= point.x < self.spec_width() && 0 <= point.y < self.spec_height() {
                lemma_inside_is_kept(
                    self.spec_width() as int,
                    self.spec_height() as int,
                    point.x as int,
                    point.y as int,
                );
            }
            if let Some(c) = self.stroke_color() {
                lemma_paint_single_point(
                    self.pixels(),
                    self.spec_width() as int,
                    point.x as int,
                    point.y as int,
                    c,
                );
            }
        }
        self.set_pixel_from_color_source(point.x as i128, point.y as i128, ColorSource::Stroke);
    }

    /// Writes the points of one run: `major + 1` steps along the major axis
    /// from `(a0, b0)`, moving by `minor` in all across the other. An error
    /// term gathers twice the minor extent at each step; when it reaches the
    /// major extent the minor coordinate moves by one.
    fn stroke_run(
        &mut self,
        a0: i128,
        b0: i128,
        major: i128,
        minor: i128,
        transposed: bool,
        color: &Color,
    )
        requires
            -REACH <= a0 <= REACH,
            -REACH <= b0 <= REACH,
            0 <= major <= REACH,
            -major <= minor <= major,
        ensures
            final(self).redrawn(
                *old(self),
                paint(
                    old(self).pixels(),
                    old(self).spec_width() as int,
                    run_prefix(a0 as int, b0 as int, major as int, minor as int, transposed, major + 1),
                    Some(*color),
                ),
            ),
    {
        let step: i128 = if minor > 0 {
            1
        } else if minor < 0 {
            -1
        } else {
            0
        };
        let swing: i128 = if minor < 0 {
            -minor
        } else {
            minor
        };
        let ghost width = self.spec_width() as int;
        let ghost before = self.pixels();
        let mut i: i128 = 0;
        let mut b: i128 = b0;
        let mut error: i128 = 0;
        let ghost mut k: int = 0;
        proof {
            use_type_invariant(&self.pixelbuffer);
            lemma_paint_nothing(
                before,
                width,
                run_prefix(a0 as int, b0 as int, major as int, minor as int, transposed, 0),
                Some(*color),
            );
        }
        while i <= major
            invariant
                -REACH <= a0 <= REACH,
                -REACH <= b0 <= REACH,
                0 <= major <= REACH,
                -major <= minor <= major,
                0 <= i <= major + 1,
                step == direction(minor as int),
                swing == magnitude(minor as int),
                0 <= k <= i,
                b == b0 + step * k,
                error == 2 * i * swing - 2 * major * k,
                major > 0 ==> -major <= error < major,
                major == 0 ==> error == 0 && swing == 0,
                width == old(self).spec_width(),
                before == old(self).pixels(),
                self.redrawn(
                    *old(self),
                    paint(
                        before,
                        width,
                        run_prefix(a0 as int, b0 as int, major as int, minor as int, transposed, i as int),
                        Some(*color),
                    ),
                ),
            decreases major + 1 - i,
        {
            assert(-i <= step * k <= i) by (nonlinear_arith)
                requires
                    -1 <= step <= 1,
                    0 <= k <= i,
            ;
            let ghost px: int = if transposed {
                b as int
            } else {
                a0 + i
            };
            let ghost py: int = if transposed {
                a0 + i
            } else {
                b as int
            };
            proof {
                if major > 0 {
                    lemma_minor_offset_unique(i as int, swing as int, major as int, k);
                } else {
                    assert(step * k == 0) by (nonlinear_arith)
                        requires
                            step == 0,
                    ;
                }
                lemma_paint_point(
                    before,
                    width,
                    run_prefix(a0 as int, b0 as int, major as int, minor as int, transposed, i as int),
                    run_prefix(
                        a0 as int,
                        b0 as int,
                        major as int,
                        minor as int,
                        transposed,
                        i + 1,
                    ),
                    px,
                    py,
                    *color,
                );
            }
            if transposed {
                self.write(b, a0 + i, color);
            } else {
                self.write(a0 + i, b, color);
            }
            assert(2 * (i + 1) * swing == 2 * i * swing + 2 * swing) by (nonlinear_arith);
            error = error + 2 * swing;
            if error >= major {
                assert(2 * major * (k + 1) == 2 * major * k + 2 * major) by (nonlinear_arith);
                assert(step * (k + 1) == step * k + step) by (nonlinear_arith);
                b = b + step;
                error = error - 2 * major;
                proof {
                    k = k + 1;
                }
            }
            i = i + 1;
        }
    }

    /// The line between two points of any coordinates within reach.
    fn stroke_line(&mut self, x0: i128, y0: i128, x1: i128, y1: i128, color: &Color)
        requires
            -REACH / 2 <= x0 <= REACH / 2,
            -REACH / 2 <= y0 <= REACH / 2,
            -REACH / 2 <= x1 <= REACH / 2,
            -REACH / 2 <= y1 <= REACH / 2,
        ensures
            final(self).redrawn(
                *old(self),
                paint(
                    old(self).pixels(),
                    old(self).spec_width() as int,
                    line_shape(x0 as int, y0 as int, x1 as int, y1 as int),
                    Some(*color),
                ),
            ),
    {
        let ghost width = self.spec_width() as int;
        let ghost before = self.pixels();
        let ghost line = line_shape(x0 as int, y0 as int, x1 as int, y1 as int);
        let adx: i128 = if x1 >= x0 {
            x1 - x0
        } else {
            x0 - x1
        };
        let ady: i128 = if y1 >= y0 {
            y1 - y0
        } else {
            y0 - y1
        };
        if adx > ady {
            if x0 > x1 {
                proof {
                    lemma_paint_same(
                        before,
                        width,
                        run_prefix(x1 as int, y1 as int, x0 - x1, y0 - y1, false, x0 - x1 + 1),
                        line,
                        Some(*color),
                    );
                }
                self.stroke_run(x1, y1, x0 - x1, y0 - y1, false, color);
            } else {
                proof {
                    lemma_paint_same(
                        before,
                        width,
                        run_prefix(x0 as int, y0 as int, x1 - x0, y1 - y0, false, x1 - x0 + 1),
                        line,
                        Some(*color),
                    );
                }
                self.stroke_run(x0, y0, x1 - x0, y1 - y0, false, color);
            }
        } else {
            if y0 > y1 {
                proof {
                    lemma_paint_same(
                        before,
                        width,
                        run_prefix(y1 as int, x1 as int, y0 - y1, x0 - x1, true, y0 - y1 + 1),
                        line,
                        Some(*color),
                    );
                }
                self.stroke_run(y1, x1, y0 - y1, x0 - x1, true, color);
            } else {
                proof {
                    lemma_paint_same(
                        before,
                        width,
                        run_prefix(y0 as int, x0 as int, y1 - y0, x1 - x0, true, y1 - y0 + 1),
                        line,
                        Some(*color),
                    );
                }
                self.stroke_run(y0, x0, y1 - y0, x1 - x0, true, color);
            }
        }
    }

    /// Draws the line between `start` and `end` in the stroke color, both
    /// end points included, one pixel for each step along the axis of the
    /// larger extent. Axis-aligned lines take the same path as every other
    /// line; a pass of their own would write the same pixels again.
    pub fn draw_line(&mut self, start: &IntPoint, end: &IntPoint)
        ensures
            final(self).redrawn(
                *old(self),
                paint(
                    old(self).pixels(),
                    old(self).spec_width() as int,
                    line_shape(start.x as int, start.y as int, end.x as int, end.y as int),
                    old(self).stroke_color(),
                ),
            ),
    {
        proof {
            use_type_invariant(&self.pixelbuffer);
        }
        match self.color_of(ColorSource::Stroke) {
            Some(c) => {
                self.stroke_line(start.x as i128, start.y as i128, end.x as i128, end.y as i128, &c);
            },
            None => {},
        }
    }

    /// Writes the columns `xa` to `xb` of row `y`, both included.
    fn fill_span(&mut self, xa: i128, xb: i128, y: i128, color: &Color)
        requires
            -REACH <= xa <= REACH,
            -REACH <= xb <= REACH,
        ensures
            final(self).redrawn(
                *old(self),
                paint(
                    old(self).pixels(),
                    old(self).spec_width() as int,
                    span_shape(xa as int, xb as int, y as int),
                    Some(*color),
                ),
            ),
    {
        let ghost width = self.spec_width() as int;
        let ghost before = self.pixels();
        proof {
            use_type_invariant(&self.pixelbuffer);
        }
        let mut x: i128 = xa;
        proof {
            lemma_paint_nothing(
                before,
                width,
                span_prefix(xa as int, xb as int, y as int, 0),
                Some(*color),
            );
        }
        while x <= xb
            invariant
                -REACH <= xa <= REACH,
                -REACH <= xb <= REACH,
                xa <= x,
                x <= xb + 1 || xb < xa,
                width == old(self).spec_width(),
                before == old(self).pixels(),
                self.redrawn(
                    *old(self),
                    paint(
                        before,
                        width,
                        span_prefix(xa as int, xb as int, y as int, x - xa),
                        Some(*color),
                    ),
                ),
            decreases xb + 1 - x,
        {
            proof {
                lemma_paint_point(
                    before,
                    width,
                    span_prefix(xa as int, xb as int, y as int, x - xa),
                    span_prefix(xa as int, xb as int, y as int, x + 1 - xa),
                    x as int,
                    y as int,
                    *color,
                );
            }
            self.write(x, y, color);
            x = x + 1;
        }
        proof {
            lemma_paint_same(
                before,
                width,
                span_prefix(xa as int, xb as int, y as int, x - xa),
                span_shape(xa as int, xb as int, y as int),
                Some(*color),
            );
        }
    }

    /// Fills the area of a rectangle, row by row.
    fn fill_area(&mut self, x: i128, y: i128, width: i128, height: i128, color: &Color)
        requires
            -REACH / 2 <= x <= REACH / 2,
            -REACH / 2 <= y <= REACH / 2,
            -REACH / 2 <= width <= REACH / 2,
            -REACH / 2 <= height <= REACH / 2,
        ensures
            final(self).redrawn(
                *old(self),
                paint(
                    old(self).pixels(),
                    old(self).spec_width() as int,
                    rect_area(x as int, y as int, width as int, height as int),
                    Some(*color),
                ),
            ),
    {
        let ghost canvas_width = self.spec_width() as int;
        let ghost before = self.pixels();
        proof {
            use_type_invariant(&self.pixelbuffer);
        }
        let mut row: i128 = y;
        proof {
            lemma_paint_nothing(
                before,
                canvas_width,
                rect_area_above(x as int, y as int, width as int, height as int, y as int),
                Some(*color),
            );
        }
        while row <= y + height
            invariant
                -REACH / 2 <= x <= REACH / 2,
                -REACH / 2 <= y <= REACH / 2,
                -REACH / 2 <= width <= REACH / 2,
                -REACH / 2 <= height <= REACH / 2,
                y <= row,
                row <= y + height + 1 || height < 0,
                canvas_width == old(self).spec_width(),
                before == old(self).pixels(),
                self.redrawn(
                    *old(self),
                    paint(
                        before,
                        canvas_width,
                        rect_area_above(x as int, y as int, width as int, height as int, row as int),
                        Some(*color),
                    ),
                ),
            decreases y + height + 1 - row,
        {
            let ghost above = rect_area_above(
                x as int,
                y as int,
                width as int,
                height as int,
                row as int,
            );
            let ghost span = span_shape(x as int, x + width, row as int);
            proof {
                lemma_paint_twice(before, canvas_width, above, span, Some(*color));
                lemma_paint_same(
                    before,
                    canvas_width,
                    either(above, span),
                    rect_area_above(x as int, y as int, width as int, height as int, row + 1),
                    Some(*color),
                );
            }
            self.fill_span(x, x + width, row, color);
            row = row + 1;
        }
        proof {
            lemma_paint_same(
                before,
                canvas_width,
                rect_area_above(x as int, y as int, width as int, height as int, row as int),
                rect_area(x as int, y as int, width as int, height as int),
                Some(*color),
            );
        }
    }

    /// Strokes the outline of a rectangle: four lines, top, right, bottom, left.
    fn stroke_outline(&mut self, x: i128, y: i128, width: i128, height: i128, color: &Color)
        requires
            -REACH / 4 <= x <= REACH / 4,
            -REACH / 4 <= y <= REACH / 4,
            -REACH / 4 <= width <= REACH / 4,
            -REACH / 4 <= height <= REACH / 4,
        ensures
            final(self).redrawn(
                *old(self),
                paint(
                    old(self).pixels(),
                    old(self).spec_width() as int,
                    rect_outline(x as int, y as int, width as int, height as int),
                    Some(*color),
                ),
            ),
    {
        let ghost canvas_width = self.spec_width() as int;
        let ghost before = self.pixels();
        let ghost top = line_shape(x as int, y as int, x + width, y as int);
        let ghost right = line_shape(x + width, y as int, x + width, y + height);
        let ghost bottom = line_shape(x + width, y + height, x as int, y + height);
        let ghost left = line_shape(x as int, y + height, x as int, y as int);
        proof {
            lemma_paint_twice(before, canvas_width, top, right, Some(*color));
            lemma_paint_twice(before, canvas_width, either(top, right), bottom, Some(*color));
            lemma_paint_twice(
                before,
                canvas_width,
                either(either(top, right), bottom),
                left,
                Some(*color),
            );
        }
        self.stroke_line(x, y, x + width, y, color);
        self.stroke_line(x + width, y, x + width, y + height, color);
        self.stroke_line(x + width, y + height, x, y + height, color);
        self.stroke_line(x, y + height, x, y, color);
    }

    /// A rectangle of any corner and extents within reach.
    fn rect(&mut self, x: i128, y: i128, width: i128, height: i128)
        requires
            -REACH / 4 <= x <= REACH / 4,
            -REACH / 4 <= y <= REACH / 4,
            -REACH / 4 <= width <= REACH / 4,
            -REACH / 4 <= height <= REACH / 4,
        ensures
            final(self).redrawn(
                *old(self),
                paint_rect(
                    old(self).pixels(),
                    old(self).spec_width() as int,
                    x as int,
                    y as int,
                    width as int,
                    height as int,
                    old(self).fill_color(),
                    old(self).stroke_color(),
                ),
            ),
    {
        proof {
            use_type_invariant(&self.pixelbuffer);
        }
        match self.color_of(ColorSource::Fill) {
            Some(c) => {
                self.fill_area(x, y, width, height, &c);
            },
            None => {},
        }
        match self.color_of(ColorSource::Stroke) {
            Some(c) => {
                self.stroke_outline(x, y, width, height, &c);
            },
            None => {},
        }
    }

    /// Draws a rectangle. With a fill color set, every pixel from the corner
    /// to `width` columns and `height` rows beyond it is filled, the far
    /// column and row included; a negative extent fills nothing. With a
    /// stroke color set, the four lines between the corners are then drawn
    /// over the fill.
    pub fn draw_rect(&mut self, rect: &IntRect)
        ensures
            final(self).redrawn(
                *old(self),
                paint_rect(
                    old(self).pixels(),
                    old(self).spec_width() as int,
                    rect.location.x as int,
                    rect.location.y as int,
                    rect.width as int,
                    rect.height as int,
                    old(self).fill_color(),
                    old(self).stroke_color(),
                ),
            ),
    {
        self.rect(
            rect.location.x as i128,
            rect.location.y as i128,
            rect.width as i128,
            rect.height as i128,
        );
    }

    /// Draws the rectangle of equal extents at `origin`. A negative size is
    /// negated and the corner moved back by it.
    pub fn draw_square(&mut self, origin: &IntPoint, size: isize)
        ensures
            final(self).redrawn(
                *old(self),
                paint_rect(
                    old(self).pixels(),
                    old(self).spec_width() as int,
                    normalized_origin(origin.x as int, size as int),
                    normalized_origin(origin.y as int, size as int),
                    normalized_extent(size as int),
                    normalized_extent(size as int),
                    old(self).fill_color(),
                    old(self).stroke_color(),
                ),
            ),
    {
        let size: i128 = size as i128;
        if size < 0 {
            self.rect(origin.x as i128 + size, origin.y as i128 + size, -size, -size);
        } else {
            self.rect(origin.x as i128, origin.y as i128, size, size);
        }
    }

    /// Draws the lines of a path in the stroke color. The cursor starts at
    /// the origin; a move relocates it, a line is drawn from it to the
    /// line's target and leaves it there.
    pub fn draw_path(&mut self, path: &Path)
        ensures
            final(self).redrawn(
                *old(self),
                paint(
                    old(self).pixels(),
                    old(self).spec_width() as int,
                    path_shape(path@, path@.len() as int),
                    old(self).stroke_color(),
                ),
            ),
    {
        proof {
            use_type_invariant(&self.pixelbuffer);
        }
        let color = match self.color_of(ColorSource::Stroke) {
            Some(c) => c,
            None => {
                return ;
            },
        };
        let ghost canvas_width = self.spec_width() as int;
        let ghost before = self.pixels();
        let segments = path.segments();
        let mut cursor = IntPoint::new(0, 0);
        let mut i: usize = 0;
        proof {
            lemma_paint_nothing(before, canvas_width, path_shape(path@, 0), Some(color));
        }
        while i < segments.len()
            invariant
                i <= segments@.len(),
                segments@ == path@,
                cursor == path_cursor(path@, i as int),
                canvas_width == old(self).spec_width(),
                before == old(self).pixels(),
                Some(color) == old(self).stroke_color(),
                self.redrawn(
                    *old(self),
                    paint(before, canvas_width, path_shape(path@, i as int), Some(color)),
                ),
            decreases segments@.len() - i,
        {
            match segments[i] {
                PathSegment::MoveTo(pt) => {
                    cursor = pt;
                },
                PathSegment::LineTo(pt) => {
                    proof {
                        lemma_paint_twice(
                            before,
                            canvas_width,
                            path_shape(path@, i as int),
                            line_shape(cursor.x as int, cursor.y as int, pt.x as int, pt.y as int),
                            Some(color),
                        );
                    }
                    self.stroke_line(
                        cursor.x as i128,
                        cursor.y as i128,
                        pt.x as i128,
                        pt.y as i128,
                        &color,
                    );
                    cursor = pt;
                },
            }
            i = i + 1;
        }
    }

    /// Draws the two rows `n` away from the center of an ellipse whose
    /// half-width there is `half`: first the fill strictly inside the
    /// half-width, then the stroke at it.
    fn ellipse_rows(&mut self, cx: i128, cy: i128, w: i128, h: i128, n: i128, half: i128)
        requires
            -REACH / 2 <= cx <= REACH / 2,
            -REACH / 2 <= cy <= REACH / 2,
            0 <= w <= MAX_HALF_AXIS,
            0 < n <= h <= MAX_HALF_AXIS,
            is_half_width(w as int, h as int, n as int, half as int),
            half <= w,
        ensures
            final(self).redrawn(
                *old(self),
                paint(
                    paint(
                        old(self).pixels(),
                        old(self).spec_width() as int,
                        ellipse_row_fill(cx as int, cy as int, w as int, h as int, n as int),
                        old(self).fill_color(),
                    ),
                    old(self).spec_width() as int,
                    ellipse_row_stroke(cx as int, cy as int, w as int, h as int, n as int),
                    old(self).stroke_color(),
                ),
            ),
    {
        let ghost canvas_width = self.spec_width() as int;
        let ghost before = self.pixels();
        let ghost row_fill = ellipse_row_fill(cx as int, cy as int, w as int, h as int, n as int);
        let ghost row_stroke = ellipse_row_stroke(
            cx as int,
            cy as int,
            w as int,
            h as int,
            n as int,
        );
        proof {
            use_type_invariant(&self.pixelbuffer);
        }
        match self.color_of(ColorSource::Fill) {
            Some(c) => {
                let ghost upper = span_shape(cx - (half - 1), cx + half - 1, cy - n);
                let ghost lower = span_shape(cx - (half - 1), cx + half - 1, cy + n);
                proof {
                    assert forall|x: int, y: int| #[trigger]
                        either(upper, lower)(x, y) <==> #[trigger] row_fill(x, y) by {
                        lemma_half_width_splits(
                            w as int,
                            h as int,
                            n as int,
                            half as int,
                            magnitude(x - cx),
                        );
                    }
                    lemma_paint_twice(before, canvas_width, upper, lower, Some(c));
                    lemma_paint_same(before, canvas_width, either(upper, lower), row_fill, Some(c));
                }
                self.fill_span(cx - (half - 1), cx + half - 1, cy - n, &c);
                self.fill_span(cx - (half - 1), cx + half - 1, cy + n, &c);
            },
            None => {},
        }
        let ghost filled = self.pixels();
        match self.color_of(ColorSource::Stroke) {
            Some(c) => {
                let ghost upper_right = point_shape(cx + half, cy - n);
                let ghost lower_right = point_shape(cx + half, cy + n);
                let ghost lower_left = point_shape(cx - half, cy + n);
                let ghost upper_left = point_shape(cx - half, cy - n);
                let ghost two = either(upper_right, lower_right);
                let ghost three = either(two, lower_left);
                let ghost all = either(three, upper_left);
                proof {
                    assert forall|x: int, y: int| #[trigger] all(x, y) <==> #[trigger] row_stroke(
                        x,
                        y,
                    ) by {
                        lemma_half_width_splits(
                            w as int,
                            h as int,
                            n as int,
                            half as int,
                            magnitude(x - cx),
                        );
                    }
                    lemma_paint_single_point(filled, canvas_width, cx + half, cy - n, c);
                    let first = paint(filled, canvas_width, upper_right, Some(c));
                    lemma_paint_single_point(first, canvas_width, cx + half, cy + n, c);
                    let second = paint(first, canvas_width, lower_right, Some(c));
                    lemma_paint_single_point(second, canvas_width, cx - half, cy + n, c);
                    let third = paint(second, canvas_width, lower_left, Some(c));
                    lemma_paint_single_point(third, canvas_width, cx - half, cy - n, c);
                    lemma_paint_twice(filled, canvas_width, upper_right, lower_right, Some(c));
                    lemma_paint_twice(filled, canvas_width, two, lower_left, Some(c));
                    lemma_paint_twice(filled, canvas_width, three, upper_left, Some(c));
                    lemma_paint_same(filled, canvas_width, all, row_stroke, Some(c));
                }
                self.write(cx + half, cy - n, &c);
                self.write(cx + half, cy + n, &c);
                self.write(cx - half, cy + n, &c);
                self.write(cx - half, cy - n, &c);
            },
            None => {},
        }
    }

    /// Draws the ellipse of the half-axes `width` and `height` around
    /// `center`, row by row from the center outwards. The center row is
    /// filled from `width` columns left of the center to `width` columns
    /// right of it, both included. In each row above and below, up to
    /// `height` rows away, the half-width is the largest offset `x` with
    /// `x² height² + y² width² <= height² width²`; the columns strictly
    /// inside it are filled and the two columns at it are stroked.
    pub fn draw_ellipse(&mut self, center: &IntPoint, width: usize, height: usize)
        requires
            width <= MAX_HALF_AXIS,
            height <= MAX_HALF_AXIS,
        ensures
            final(self).redrawn(
                *old(self),
                paint_ellipse(
                    old(self).pixels(),
                    old(self).spec_width() as int,
                    center.x as int,
                    center.y as int,
                    width as int,
                    height as int,
                    old(self).fill_color(),
                    old(self).stroke_color(),
                    height as int,
                ),
            ),
    {
        let ghost canvas_width = self.spec_width() as int;
        let ghost before = self.pixels();
        let ghost fill = self.fill_color();
        let ghost stroke = self.stroke_color();
        let cx: i128 = center.x as i128;
        let cy: i128 = center.y as i128;
        let w: i128 = width as i128;
        let h: i128 = height as i128;
        proof {
            use_type_invariant(&self.pixelbuffer);
        }
        match self.color_of(ColorSource::Fill) {
            Some(c) => {
                proof {
                    lemma_paint_same(
                        before,
                        canvas_width,
                        span_shape(cx - w, cx + w, cy as int),
                        ellipse_row_fill(cx as int, cy as int, w as int, h as int, 0),
                        Some(c),
                    );
                }
                self.fill_span(cx - w, cx + w, cy, &c);
            },
            None => {},
        }
        let mut half: i128 = w;
        let mut n: i128 = 1;
        proof {
            if h >= 1 {
                assert(!ellipse_holds(w as int, h as int, w + 1, 0)) by (nonlinear_arith)
                    requires
                        h >= 1,
                        w >= 0,
                ;
            }
        }
        while n <= h
            invariant
                1 <= n <= h + 1,
                0 <= half <= w,
                h >= 1 ==> !ellipse_holds(w as int, h as int, half + 1, n - 1),
                cx == center.x,
                cy == center.y,
                w == width,
                h == height,
                width <= MAX_HALF_AXIS,
                height <= MAX_HALF_AXIS,
                canvas_width == old(self).spec_width(),
                before == old(self).pixels(),
                fill == old(self).fill_color(),
                stroke == old(self).stroke_color(),
                self.redrawn(
                    *old(self),
                    paint_ellipse(
                        before,
                        canvas_width,
                        cx as int,
                        cy as int,
                        w as int,
                        h as int,
                        fill,
                        stroke,
                        n - 1,
                    ),
                ),
            decreases h + 1 - n,
        {
            proof {
                if ellipse_holds(w as int, h as int, half + 1, n as int) {
                    lemma_ellipse_holds_less(w as int, h as int, half + 1, n - 1, half + 1, n as int);
                }
                lemma_ellipse_holds_center(w as int, h as int, n as int);
            }
            while half > 0 && !ellipse_holds_at(w as u128, h as u128, half as u128, n as u128)
                invariant
                    1 <= n <= h,
                    0 <= half <= w,
                    w <= MAX_HALF_AXIS,
                    h <= MAX_HALF_AXIS,
                    !ellipse_holds(w as int, h as int, half + 1, n as int),
                decreases half,
            {
                half = half - 1;
            }
            assert(is_half_width(w as int, h as int, n as int, half as int));
            assert(paint_ellipse(
                before,
                canvas_width,
                cx as int,
                cy as int,
                w as int,
                h as int,
                fill,
                stroke,
                n as int,
            ) == paint(
                paint(
                    paint_ellipse(
                        before,
                        canvas_width,
                        cx as int,
                        cy as int,
                        w as int,
                        h as int,
                        fill,
                        stroke,
                        n - 1,
                    ),
                    canvas_width,
                    ellipse_row_fill(cx as int, cy as int, w as int, h as int, n as int),
                    fill,
                ),
                canvas_width,
                ellipse_row_stroke(cx as int, cy as int, w as int, h as int, n as int),
                stroke,
            ));
            self.ellipse_rows(cx, cy, w, h, n, half);
            n = n + 1;
        }
    }

    /// Writes the drawn pixels of a bitmap, its top left pixel at `(x, y)`.
    fn blit(&mut self, x: i128, y: i128, rows: &Vec<Vec<u8>>, color: &Color)
        requires
            -REACH / 2 <= x <= REACH / 2,
            -REACH / 2 <= y <= REACH / 2,
        ensures
            final(self).redrawn(
                *old(self),
                paint(
                    old(self).pixels(),
                    old(self).spec_width() as int,
                    glyph_shape(x as int, y as int, rows.deep_view()),
                    Some(*color),
                ),
            ),
    {
        let ghost canvas_width = self.spec_width() as int;
        let ghost before = self.pixels();
        let ghost bitmap = rows.deep_view();
        proof {
            use_type_invariant(&self.pixelbuffer);
        }
        let mut r: usize = 0;
        proof {
            lemma_paint_nothing(
                before,
                canvas_width,
                glyph_prefix(x as int, y as int, bitmap, 0, 0),
                Some(*color),
            );
        }
        while r < rows.len()
            invariant
                -REACH / 2 <= x <= REACH / 2,
                -REACH / 2 <= y <= REACH / 2,
                r <= rows@.len(),
                bitmap == rows.deep_view(),
                canvas_width == old(self).spec_width(),
                before == old(self).pixels(),
                self.redrawn(
                    *old(self),
                    paint(
                        before,
                        canvas_width,
                        glyph_prefix(x as int, y as int, bitmap, r as int, 0),
                        Some(*color),
                    ),
                ),
            decreases rows@.len() - r,
        {
            let row = &rows[r];
            assert(bitmap[r as int] == row@);
            let mut q: usize = 0;
            while q < row.len()
                invariant
                    -REACH / 2 <= x <= REACH / 2,
                    -REACH / 2 <= y <= REACH / 2,
                    r < rows@.len(),
                    q <= row@.len(),
                    bitmap == rows.deep_view(),
                    bitmap[r as int] == row@,
                    canvas_width == old(self).spec_width(),
                    before == old(self).pixels(),
                    self.redrawn(
                        *old(self),
                        paint(
                            before,
                            canvas_width,
                            glyph_prefix(x as int, y as int, bitmap, r as int, q as int),
                            Some(*color),
                        ),
                    ),
                decreases row@.len() - q,
            {
                if row[q] > INK_THRESHOLD {
                    proof {
                        lemma_paint_point(
                            before,
                            canvas_width,
                            glyph_prefix(x as int, y as int, bitmap, r as int, q as int),
                            glyph_prefix(x as int, y as int, bitmap, r as int, q + 1),
                            x + q,
                            y + r,
                            *color,
                        );
                    }
                    self.write(x + q as i128, y + r as i128, color);
                } else {
                    proof {
                        lemma_paint_same(
                            before,
                            canvas_width,
                            glyph_prefix(x as int, y as int, bitmap, r as int, q as int),
                            glyph_prefix(x as int, y as int, bitmap, r as int, q + 1),
                            Some(*color),
                        );
                    }
                }
                q = q + 1;
            }
            proof {
                lemma_paint_same(
                    before,
                    canvas_width,
                    glyph_prefix(x as int, y as int, bitmap, r as int, q as int),
                    glyph_prefix(x as int, y as int, bitmap, r + 1, 0),
                    Some(*color),
                );
            }
            r = r + 1;
        }
        proof {
            lemma_paint_same(
                before,
                canvas_width,
                glyph_prefix(x as int, y as int, bitmap, r as int, 0),
                glyph_shape(x as int, y as int, bitmap),
                Some(*color),
            );
        }
    }

    /// Draws a glyph bitmap in the fill color, its top left pixel at
    /// `origin`: every pixel whose intensity exceeds the threshold is
    /// written, no other.
    pub fn draw_glyph(&mut self, origin: &IntPoint, rows: &Vec<Vec<u8>>)
        ensures
            final(self).redrawn(
                *old(self),
                paint(
                    old(self).pixels(),
                    old(self).spec_width() as int,
                    glyph_shape(origin.x as int, origin.y as int, rows.deep_view()),
                    old(self).fill_color(),
                ),
            ),
    {
        proof {
            use_type_invariant(&self.pixelbuffer);
        }
        match self.color_of(ColorSource::Fill) {
            Some(c) => {
                self.blit(origin.x as i128, origin.y as i128, rows, &c);
            },
            None => {},
        }
    }

    /// Draws a message in the fill color, its first glyph's top left pixel
    /// at `origin`. The text style selects the glyphs: its weight, and the
    /// bitmap height for its size. A line break starts a new line one
    /// bitmap height further down; every other character takes one glyph
    /// width. A character that the face lacks is drawn as a space.
    pub fn draw_text(&mut self, origin: &IntPoint, msg: &str)
        ensures
            final(self).redrawn(
                *old(self),
                paint(
                    old(self).pixels(),
                    old(self).spec_width() as int,
                    text_shape(
                        origin.x as int,
                        origin.y as int,
                        msg@,
                        old(self).text_style().spec_weight(),
                        GlyphHeight::spec_for_size(old(self).text_style().spec_size() as int),
                        msg@.len() as int,
                    ),
                    old(self).fill_color(),
                ),
            ),
    {
        proof {
            use_type_invariant(&self.pixelbuffer);
        }
        let color = match self.color_of(ColorSource::Fill) {
            Some(c) => c,
            None => {
                return ;
            },
        };
        let ghost canvas_width = self.spec_width() as int;
        let ghost before = self.pixels();
        let weight = self.text_style.weight;
        let height = GlyphHeight::for_size(self.text_style.size);
        let advance: i128 = width_of(weight, height) as i128;
        let line_height: i128 = height.pixels() as i128;
        let x0: i128 = origin.x as i128;
        let y0: i128 = origin.y as i128;
        let n: usize = msg.unicode_len();
        let mut line: i128 = 0;
        let mut column: i128 = 0;
        proof {
            lemma_paint_nothing(
                before,
                canvas_width,
                text_shape(x0 as int, y0 as int, msg@, weight, height, 0),
                Some(color),
            );
        }
        for c in it: msg.chars()
            invariant
                it.seq() == msg@,
                n == msg@.len(),
                x0 == origin.x,
                y0 == origin.y,
                advance == glyph_width(weight, height),
                line_height == height.spec_pixels(),
                line == text_line(msg@, it.index() as int),
                column == text_column(msg@, it.index() as int),
                0 <= line <= it.index(),
                0 <= column <= it.index(),
                canvas_width == old(self).spec_width(),
                before == old(self).pixels(),
                weight == old(self).text_style().spec_weight(),
                height == GlyphHeight::spec_for_size(old(self).text_style().spec_size() as int),
                self.redrawn(
                    *old(self),
                    paint(
                        before,
                        canvas_width,
                        text_shape(x0 as int, y0 as int, msg@, weight, height, it.index() as int),
                        Some(color),
                    ),
                ),
        {
            let ghost i = it.index() as int;
            if c == '\n' {
                line = line + 1;
                column = 0;
            } else {
                let rows = bitmap_or_blank(c, weight, height);
                assert(0 <= column * advance <= i * 37) by (nonlinear_arith)
                    requires
                        0 <= column <= i,
                        0 <= advance <= 37,
                ;
                assert(0 <= line * line_height <= i * 64) by (nonlinear_arith)
                    requires
                        0 <= line <= i,
                        0 <= line_height <= 64,
                ;
                proof {
                    lemma_paint_twice(
                        before,
                        canvas_width,
                        text_shape(x0 as int, y0 as int, msg@, weight, height, i),
                        glyph_shape(
                            x0 + column * advance,
                            y0 + line * line_height,
                            rows.deep_view(),
                        ),
                        Some(color),
                    );
                }
                self.blit(x0 + column * advance, y0 + line * line_height, &rows, &color);
                column = column + 1;
            }
        }
    }
}

} // verus!
