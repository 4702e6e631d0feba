//! Bitmap text: which glyph bitmaps a style selects, and what a message
//! covers on the canvas.

use vstd::prelude::*;
use noto_sans_mono_bitmap::{get_bitmap, get_bitmap_width, BitmapHeight};
use crate::canvas::FontWeight;
use crate::raster::{either, no_shape};

verus! {

/// The heights, in pixels, that glyph bitmaps come in.
#[derive(Clone, Copy, Debug, PartialEq, Eq, Structural)]
pub enum GlyphHeight {
    Size14,
    Size16,
    Size18,
    Size20,
    Size22,
    Size24,
    Size32,
    Size64,
}

/// A glyph pixel is drawn where its intensity exceeds this.
pub const INK_THRESHOLD: u8 = 80;

impl GlyphHeight {
    /// The height in pixels; a line of text is this tall.
    pub open spec fn spec_pixels(self) -> int {
        match self {
            GlyphHeight::Size14 => 14,
            GlyphHeight::Size16 => 16,
            GlyphHeight::Size18 => 18,
            GlyphHeight::Size20 => 20,
            GlyphHeight::Size22 => 22,
            GlyphHeight::Size24 => 24,
            GlyphHeight::Size32 => 32,
            GlyphHeight::Size64 => 64,
        }
    }

    /// The smallest height that is no less than a point size, and the
    /// largest height for every size beyond it.
    pub open spec fn spec_for_size(size: int) -> GlyphHeight {
        if size <= 14 {
            GlyphHeight::Size14
        } else if size <= 16 {
            GlyphHeight::Size16
        } else if size <= 18 {
            GlyphHeight::Size18
        } else if size <= 20 {
            GlyphHeight::Size20
        } else if size <= 22 {
            GlyphHeight::Size22
        } else if size <= 24 {
            GlyphHeight::Size24
        } else if size <= 32 {
            GlyphHeight::Size32
        } else {
            GlyphHeight::Size64
        }
    }

    pub fn pixels(self) -> (p: usize)
        ensures
            p == self.spec_pixels(),
    {
        match self {
            GlyphHeight::Size14 => 14,
            GlyphHeight::Size16 => 16,
            GlyphHeight::Size18 => 18,
            GlyphHeight::Size20 => 20,
            GlyphHeight::Size22 => 22,
            GlyphHeight::Size24 => 24,
            GlyphHeight::Size32 => 32,
            GlyphHeight::Size64 => 64,
        }
    }

    /// The bitmap height that text of a point size is set in.
    pub fn for_size(size: usize) -> (h: GlyphHeight)
        ensures
            h == Self::spec_for_size(size as int),
    {
        if size <= 14 {
            GlyphHeight::Size14
        } else if size <= 16 {
            GlyphHeight::Size16
        } else if size <= 18 {
            GlyphHeight::Size18
        } else if size <= 20 {
            GlyphHeight::Size20
        } else if size <= 22 {
            GlyphHeight::Size22
        } else if size <= 24 {
            GlyphHeight::Size24
        } else if size <= 32 {
            GlyphHeight::Size32
        } else {
            GlyphHeight::Size64
        }
    }
}

/// The bitmap of a character in a weight and height, as rows of pixel
/// intensities, top row first; `None` for a character that the face lacks.
pub uninterp spec fn glyph_bitmap(c: char, weight: FontWeight, height: GlyphHeight) -> Option<
    Seq<Seq<u8>>,
>;

/// The width in pixels of every glyph of a weight and height; the face is
/// monospaced.
pub open spec fn glyph_width(weight: FontWeight, height: GlyphHeight) -> int {
    match (weight, height) {
        (FontWeight::Light, GlyphHeight::Size14) => 8,
        (FontWeight::Light, GlyphHeight::Size16) => 9,
        (FontWeight::Light, GlyphHeight::Size18) => 10,
        (FontWeight::Light, GlyphHeight::Size20) => 11,
        (FontWeight::Light, GlyphHeight::Size22) => 12,
        (FontWeight::Light, GlyphHeight::Size24) => 13,
        (FontWeight::Light, GlyphHeight::Size32) => 17,
        (FontWeight::Light, GlyphHeight::Size64) => 33,
        (FontWeight::Regular, GlyphHeight::Size14) => 8,
        (FontWeight::Regular, GlyphHeight::Size16) => 9,
        (FontWeight::Regular, GlyphHeight::Size18) => 11,
        (FontWeight::Regular, GlyphHeight::Size20) => 11,
        (FontWeight::Regular, GlyphHeight::Size22) => 13,
        (FontWeight::Regular, GlyphHeight::Size24) => 14,
        (FontWeight::Regular, GlyphHeight::Size32) => 17,
        (FontWeight::Regular, GlyphHeight::Size64) => 33,
        (FontWeight::Bold, GlyphHeight::Size14) => 9,
        (FontWeight::Bold, GlyphHeight::Size16) => 10,
        (FontWeight::Bold, GlyphHeight::Size18) => 12,
        (FontWeight::Bold, GlyphHeight::Size20) => 12,
        (FontWeight::Bold, GlyphHeight::Size22) => 14,
        (FontWeight::Bold, GlyphHeight::Size24) => 15,
        (FontWeight::Bold, GlyphHeight::Size32) => 19,
        (FontWeight::Bold, GlyphHeight::Size64) => 37,
    }
}

/// Calls `noto_sans_mono_bitmap::get_bitmap` and copies the rows of the
/// bitmap it returns. Trusted: that the rows are those of `glyph_bitmap`,
/// that is, that they depend on the character, the weight and the height
/// alone. The crate reads them from tables compiled into it.
#[verifier::external_body]
pub(crate) fn bitmap_of(c: char, weight: FontWeight, height: GlyphHeight) -> (rows: Option<
    Vec<Vec<u8>>,
>)
    ensures
        rows.deep_view() == glyph_bitmap(c, weight, height),
{
    let style = match weight {
        FontWeight::Light => noto_sans_mono_bitmap::FontWeight::Light,
        FontWeight::Regular => noto_sans_mono_bitmap::FontWeight::Regular,
        FontWeight::Bold => noto_sans_mono_bitmap::FontWeight::Bold,
    };
    let size = match height {
        GlyphHeight::Size14 => BitmapHeight::Size14, GlyphHeight::Size16 => BitmapHeight::Size16,
        GlyphHeight::Size18 => BitmapHeight::Size18, GlyphHeight::Size20 => BitmapHeight::Size20,
        GlyphHeight::Size22 => BitmapHeight::Size22, GlyphHeight::Size24 => BitmapHeight::Size24,
        GlyphHeight::Size32 => BitmapHeight::Size32, GlyphHeight::Size64 => BitmapHeight::Size64,
    };
    get_bitmap(c, style, size).map(|g| g.bitmap().iter().map(|row| row.to_vec()).collect())
}

/// Calls `noto_sans_mono_bitmap::get_bitmap_width`. Trusted: that it returns
/// the width that the crate's tables give for the weight and height, which
/// `glyph_width` lists.
#[verifier::external_body]
pub(crate) fn width_of(weight: FontWeight, height: GlyphHeight) -> (w: usize)
    ensures
        w == glyph_width(weight, height),
{
    let style = match weight {
        FontWeight::Light => noto_sans_mono_bitmap::FontWeight::Light,
        FontWeight::Regular => noto_sans_mono_bitmap::FontWeight::Regular,
        FontWeight::Bold => noto_sans_mono_bitmap::FontWeight::Bold,
    };
    let size = match height {
        GlyphHeight::Size14 => BitmapHeight::Size14, GlyphHeight::Size16 => BitmapHeight::Size16,
        GlyphHeight::Size18 => BitmapHeight::Size18, GlyphHeight::Size20 => BitmapHeight::Size20,
        GlyphHeight::Size22 => BitmapHeight::Size22, GlyphHeight::Size24 => BitmapHeight::Size24,
        GlyphHeight::Size32 => BitmapHeight::Size32, GlyphHeight::Size64 => BitmapHeight::Size64,
    };
    get_bitmap_width(style, size)
}

/// The bitmap that stands for a character: its own, or that of the space
/// where the face lacks the character, or no rows where it lacks both.
pub open spec fn glyph_or_blank(c: char, weight: FontWeight, height: GlyphHeight) -> Seq<Seq<u8>> {
    match glyph_bitmap(c, weight, height) {
        Some(rows) => rows,
        None => match glyph_bitmap(' ', weight, height) {
            Some(rows) => rows,
            None => Seq::empty(),
        },
    }
}

/// The bitmap that stands for a character.
pub fn bitmap_or_blank(c: char, weight: FontWeight, height: GlyphHeight) -> (rows: Vec<Vec<u8>>)
    ensures
        rows.deep_view() == glyph_or_blank(c, weight, height),
{
    match bitmap_of(c, weight, height) {
        Some(rows) => rows,
        None => match bitmap_of(' ', weight, height) {
            Some(rows) => rows,
            None => {
                let rows: Vec<Vec<u8>> = Vec::new();
                assert(rows.deep_view() =~= Seq::<Seq<u8>>::empty());
                rows
            },
        },
    }
}

/// Whether the pixel in row `row` and column `column` of a bitmap is drawn:
/// it exists and its intensity exceeds the threshold.
pub open spec fn is_inked(rows: Seq<Seq<u8>>, row: int, column: int) -> bool {
    &&& 0 <= row < rows.len()
    &&& 0 <= column < rows[row].len()
    &&& rows[row][column] > INK_THRESHOLD
}

/// What a bitmap covers with its top left pixel at `(x0, y0)`.
pub open spec fn glyph_shape(x0: int, y0: int, rows: Seq<Seq<u8>>) -> spec_fn(int, int) -> bool {
    |x: int, y: int| is_inked(rows, y - y0, x - x0)
}

/// What a bitmap covers in its pixels before row `row`, column `column`, in
/// reading order.
pub open spec fn glyph_prefix(x0: int, y0: int, rows: Seq<Seq<u8>>, row: int, column: int) -> spec_fn(
    int,
    int,
) -> bool {
    |x: int, y: int|
        is_inked(rows, y - y0, x - x0) && (y - y0 < row || (y - y0 == row && x - x0 < column))
}

/// The line that the character at position `n` of a message stands in: the
/// number of line breaks before it.
pub open spec fn text_line(msg: Seq<char>, n: int) -> int
    decreases n,
{
    if n <= 0 {
        0
    } else if msg[n - 1] == '\n' {
        text_line(msg, n - 1) + 1
    } else {
        text_line(msg, n - 1)
    }
}

/// The column that the character at position `n` of a message stands in:
/// the number of characters between it and the line break before it.
pub open spec fn text_column(msg: Seq<char>, n: int) -> int
    decreases n,
{
    if n <= 0 {
        0
    } else if msg[n - 1] == '\n' {
        0
    } else {
        text_column(msg, n - 1) + 1
    }
}

/// What the first `n` characters of a message cover, set from `(x0, y0)`:
/// each character but the line break puts its bitmap one glyph width
/// further right for each column and one glyph height further down for each
/// line.
pub open spec fn text_shape(
    x0: int,
    y0: int,
    msg: Seq<char>,
    weight: FontWeight,
    height: GlyphHeight,
    n: int,
) -> spec_fn(int, int) -> bool
    decreases n,
{
    if n <= 0 {
        no_shape()
    } else if msg[n - 1] == '\n' {
        text_shape(x0, y0, msg, weight, height, n - 1)
    } else {
        either(
            text_shape(x0, y0, msg, weight, height, n - 1),
            glyph_shape(
                x0 + text_column(msg, n - 1) * glyph_width(weight, height),
                y0 + text_line(msg, n - 1) * height.spec_pixels(),
                glyph_or_blank(msg[n - 1], weight, height),
            ),
        )
    }
}

} // verus!
