//! What the drawing operations cover, as sets of integer points, and what
//! painting such a set does to a row-major run of pixels.

use vstd::prelude::*;
use vstd::arithmetic::div_mod::{
    lemma_fundamental_div_mod, lemma_fundamental_div_mod_converse,
    lemma_mod_division_less_than_divisor,
};
use crate::color::Color;
use crate::path::PathSegment;
use crate::pixelbuffer::{is_kept, pixel_index, plot};
use crate::primitives::IntPoint;

verus! {

/// Whether a write at `(x, y)` is one to position `k`: neither coordinate is
/// negative and the row-major position is `k`. A column beyond the row width
/// lands in a later row.
pub open spec fn lands(width: int, x: int, y: int, k: int) -> bool {
    x >= 0 && y >= 0 && pixel_index(width, x, y) == k
}

/// Whether some point of `shape` lands on position `k`.
pub open spec fn hit(width: int, shape: spec_fn(int, int) -> bool, k: int) -> bool {
    exists|x: int, y: int| #[trigger] lands(width, x, y, k) && shape(x, y)
}

/// The pixels after every point of `shape` was written with `color`: a
/// position that a point lands on holds the color, every other keeps what it
/// held. Without a color nothing is written.
pub open spec fn paint(
    pixels: Seq<Color>,
    width: int,
    shape: spec_fn(int, int) -> bool,
    color: Option<Color>,
) -> Seq<Color> {
    match color {
        Some(c) => Seq::new(
            pixels.len(),
            |k: int|
                if hit(width, shape, k) {
                    c
                } else {
                    pixels[k]
                },
        ),
        None => pixels,
    }
}

/// The shape of no point.
pub open spec fn no_shape() -> spec_fn(int, int) -> bool {
    |x: int, y: int| false
}

/// The shape of the single point `(px, py)`.
pub open spec fn point_shape(px: int, py: int) -> spec_fn(int, int) -> bool {
    |x: int, y: int| x == px && y == py
}

/// The points of either shape.
pub open spec fn either(p: spec_fn(int, int) -> bool, q: spec_fn(int, int) -> bool) -> spec_fn(
    int,
    int,
) -> bool {
    |x: int, y: int| p(x, y) || q(x, y)
}

/// Whether two shapes hold the same points.
pub open spec fn same_points(p: spec_fn(int, int) -> bool, q: spec_fn(int, int) -> bool) -> bool {
    forall|x: int, y: int| #[trigger] p(x, y) <==> #[trigger] q(x, y)
}

/// Shapes of the same points paint alike.
pub proof fn lemma_paint_same(
    pixels: Seq<Color>,
    width: int,
    p: spec_fn(int, int) -> bool,
    q: spec_fn(int, int) -> bool,
    color: Option<Color>,
)
    requires
        same_points(p, q),
    ensures
        paint(pixels, width, p, color) == paint(pixels, width, q, color),
{
    if let Some(c) = color {
        assert forall|k: int| hit(width, p, k) == hit(width, q, k) by {
            if hit(width, p, k) {
                let (x, y) = choose|x: int, y: int| #[trigger] lands(width, x, y, k) && p(x, y);
                assert(lands(width, x, y, k) && q(x, y));
            }
            if hit(width, q, k) {
                let (x, y) = choose|x: int, y: int| #[trigger] lands(width, x, y, k) && q(x, y);
                assert(lands(width, x, y, k) && p(x, y));
            }
        }
        assert(paint(pixels, width, p, color) =~= paint(pixels, width, q, color));
    }
}

/// A shape without points paints nothing.
pub proof fn lemma_paint_nothing(
    pixels: Seq<Color>,
    width: int,
    p: spec_fn(int, int) -> bool,
    color: Option<Color>,
)
    requires
        forall|x: int, y: int| !#[trigger] p(x, y),
    ensures
        paint(pixels, width, p, color) == pixels,
{
    if let Some(c) = color {
        assert(paint(pixels, width, p, color) =~= pixels);
    }
}

/// Painting one point more is one clipped write more.
pub proof fn lemma_paint_point(
    pixels: Seq<Color>,
    width: int,
    p: spec_fn(int, int) -> bool,
    q: spec_fn(int, int) -> bool,
    px: int,
    py: int,
    c: Color,
)
    requires
        width >= 0,
        forall|x: int, y: int| #[trigger] q(x, y) <==> (p(x, y) || (x == px && y == py)),
    ensures
        paint(pixels, width, q, Some(c)) == plot(paint(pixels, width, p, Some(c)), width, px, py, c),
{
    let before = paint(pixels, width, p, Some(c));
    let after = plot(before, width, px, py, c);
    let painted = paint(pixels, width, q, Some(c));
    if px >= 0 && py >= 0 {
        assert(py * width >= 0) by (nonlinear_arith)
            requires
                py >= 0,
                width >= 0,
        ;
    }
    assert(before.len() == pixels.len());
    assert(after.len() == pixels.len());
    assert(painted.len() == pixels.len());
    assert forall|k: int| 0 <= k < pixels.len() implies painted[k] == after[k] by {
        assert(hit(width, q, k) == (hit(width, p, k) || lands(width, px, py, k))) by {
            if hit(width, p, k) {
                let (x, y) = choose|x: int, y: int| #[trigger] lands(width, x, y, k) && p(x, y);
                assert(lands(width, x, y, k) && q(x, y));
            }
            if lands(width, px, py, k) {
                assert(q(px, py));
                assert(lands(width, px, py, k) && q(px, py));
            }
            if hit(width, q, k) {
                let (x, y) = choose|x: int, y: int| #[trigger] lands(width, x, y, k) && q(x, y);
                if !(x == px && y == py) {
                    assert(p(x, y));
                    assert(lands(width, x, y, k) && p(x, y));
                }
            }
        }
        assert(before[k] == if hit(width, p, k) {
            c
        } else {
            pixels[k]
        });
        if is_kept(width, before.len() as int, px, py) {
            assert(after == before.update(pixel_index(width, px, py), c));
            if pixel_index(width, px, py) == k {
                assert(lands(width, px, py, k));
            } else {
                assert(!lands(width, px, py, k));
            }
        } else {
            assert(after == before);
            assert(!lands(width, px, py, k));
        }
    }
    assert(painted =~= after);
}

/// Painting two shapes in one color, one after the other, paints the points
/// of either.
pub proof fn lemma_paint_twice(
    pixels: Seq<Color>,
    width: int,
    p: spec_fn(int, int) -> bool,
    q: spec_fn(int, int) -> bool,
    color: Option<Color>,
)
    ensures
        paint(paint(pixels, width, p, color), width, q, color) == paint(
            pixels,
            width,
            either(p, q),
            color,
        ),
{
    if let Some(c) = color {
        let both = either(p, q);
        assert forall|k: int| hit(width, both, k) == (hit(width, p, k) || hit(width, q, k)) by {
            if hit(width, p, k) {
                let (x, y) = choose|x: int, y: int| #[trigger] lands(width, x, y, k) && p(x, y);
                assert(lands(width, x, y, k) && both(x, y));
            }
            if hit(width, q, k) {
                let (x, y) = choose|x: int, y: int| #[trigger] lands(width, x, y, k) && q(x, y);
                assert(lands(width, x, y, k) && both(x, y));
            }
            if hit(width, both, k) {
                let (x, y) = choose|x: int, y: int| #[trigger] lands(width, x, y, k) && both(x, y);
                if p(x, y) {
                    assert(lands(width, x, y, k) && p(x, y));
                } else {
                    assert(lands(width, x, y, k) && q(x, y));
                }
            }
        }
        assert(paint(paint(pixels, width, p, color), width, q, color) =~= paint(
            pixels,
            width,
            both,
            color,
        ));
    }
}

/// A single point paints as one clipped write.
pub proof fn lemma_paint_single_point(pixels: Seq<Color>, width: int, px: int, py: int, c: Color)
    requires
        width >= 0,
    ensures
        paint(pixels, width, point_shape(px, py), Some(c)) == plot(pixels, width, px, py, c),
{
    lemma_paint_nothing(pixels, width, no_shape(), Some(c));
    lemma_paint_point(pixels, width, no_shape(), point_shape(px, py), px, py, c);
}

/// The distance of `v` from zero.
pub open spec fn magnitude(v: int) -> int {
    if v < 0 {
        -v
    } else {
        v
    }
}

/// The direction of `v`: 1, 0 or -1.
pub open spec fn direction(v: int) -> int {
    if v > 0 {
        1
    } else if v < 0 {
        -1
    } else {
        0
    }
}

/// How far a line has moved across its minor axis after `i` steps along its
/// major axis: `i * minor / major`, rounded to the nearest integer, a half
/// rounded up.
pub open spec fn minor_offset(i: int, minor: int, major: int) -> int {
    if major == 0 {
        0
    } else {
        (2 * i * minor + major) / (2 * major)
    }
}

/// Whether `(a, b)`, major coordinate first, is on the run that starts at
/// `(a0, b0)`, takes `major` unit steps along the major axis and moves by
/// `minor` in all across the other.
pub open spec fn run_covers(a0: int, b0: int, major: int, minor: int, a: int, b: int) -> bool {
    &&& a0 <= a <= a0 + major
    &&& b == b0 + direction(minor) * minor_offset(a - a0, magnitude(minor), major)
}

/// Whether `(x, y)` is on the rasterized line between `(x0, y0)` and
/// `(x1, y1)`. The axis of the larger extent is the major one, the vertical
/// where they tie, and the line runs from the end point that is lower on it.
pub open spec fn line_covers(x0: int, y0: int, x1: int, y1: int, x: int, y: int) -> bool {
    if magnitude(x1 - x0) > magnitude(y1 - y0) {
        if x0 > x1 {
            run_covers(x1, y1, x0 - x1, y0 - y1, x, y)
        } else {
            run_covers(x0, y0, x1 - x0, y1 - y0, x, y)
        }
    } else {
        if y0 > y1 {
            run_covers(y1, x1, y0 - y1, x0 - x1, y, x)
        } else {
            run_covers(y0, x0, y1 - y0, x1 - x0, y, x)
        }
    }
}

/// The points of the line between `(x0, y0)` and `(x1, y1)`.
pub open spec fn line_shape(x0: int, y0: int, x1: int, y1: int) -> spec_fn(int, int) -> bool {
    |x: int, y: int| line_covers(x0, y0, x1, y1, x, y)
}

/// The first `n` points of a run, along the major axis; with `transposed`
/// the major axis is the vertical one.
pub open spec fn run_prefix(
    a0: int,
    b0: int,
    major: int,
    minor: int,
    transposed: bool,
    n: int,
) -> spec_fn(int, int) -> bool {
    |x: int, y: int|
        if transposed {
            run_covers(a0, b0, major, minor, y, x) && y - a0 < n
        } else {
            run_covers(a0, b0, major, minor, x, y) && x - a0 < n
        }
}

/// The offset across the minor axis is the one count `k` that keeps the
/// accumulated error `2 * i * minor - 2 * major * k` within `[-major, major)`.
pub proof fn lemma_minor_offset_unique(i: int, minor: int, major: int, k: int)
    requires
        major > 0,
        -major <= 2 * i * minor - 2 * major * k < major,
    ensures
        minor_offset(i, minor, major) == k,
{
    let x = 2 * i * minor + major;
    let r = x - 2 * major * k;
    assert(x == k * (2 * major) + r) by (nonlinear_arith)
        requires
            r == x - 2 * major * k,
    ;
    lemma_fundamental_div_mod_converse(x, 2 * major, k, r);
}

/// A run starts at its first point and ends `minor` across from it.
pub proof fn lemma_run_covers_its_ends(a0: int, b0: int, major: int, minor: int)
    requires
        0 <= major,
        -major <= minor <= major,
    ensures
        run_covers(a0, b0, major, minor, a0, b0),
        run_covers(a0, b0, major, minor, a0 + major, b0 + minor),
{
    let swing = magnitude(minor);
    if major > 0 {
        assert(2 * 0 * swing == 0) by (nonlinear_arith);
        lemma_minor_offset_unique(0, swing, major, 0);
        assert(2 * major * swing - 2 * major * swing == 0);
        lemma_minor_offset_unique(major, swing, major, swing);
    }
    assert(direction(minor) * 0 == 0);
    assert(direction(minor) * swing == minor) by (nonlinear_arith)
        requires
            swing == magnitude(minor),
            direction(minor) == if minor > 0 {
                1int
            } else if minor < 0 {
                -1int
            } else {
                0int
            },
    ;
}

/// A line holds both of its end points.
pub proof fn lemma_line_covers_its_ends(x0: int, y0: int, x1: int, y1: int)
    ensures
        line_covers(x0, y0, x1, y1, x0, y0),
        line_covers(x0, y0, x1, y1, x1, y1),
{
    if magnitude(x1 - x0) > magnitude(y1 - y0) {
        if x0 > x1 {
            lemma_run_covers_its_ends(x1, y1, x0 - x1, y0 - y1);
        } else {
            lemma_run_covers_its_ends(x0, y0, x1 - x0, y1 - y0);
        }
    } else {
        if y0 > y1 {
            lemma_run_covers_its_ends(y1, x1, y0 - y1, x0 - x1);
        } else {
            lemma_run_covers_its_ends(y0, x0, y1 - y0, x1 - x0);
        }
    }
}

/// From one step along the major axis to the next, a line moves across the
/// minor axis by one or not at all: its pixels touch, at a side or a corner.
pub proof fn lemma_run_is_connected(i: int, minor: int, major: int)
    requires
        0 <= minor <= major,
        0 < major,
    ensures
        0 <= minor_offset(i + 1, minor, major) - minor_offset(i, minor, major) <= 1,
{
    let x = 2 * i * minor + major;
    let k = minor_offset(i, minor, major);
    lemma_fundamental_div_mod(x, 2 * major);
    lemma_mod_division_less_than_divisor(x, 2 * major);
    let r = x % (2 * major);
    assert(x == 2 * major * k + r);
    assert(2 * (i + 1) * minor == 2 * i * minor + 2 * minor) by (nonlinear_arith);
    if r + 2 * minor < 2 * major {
        lemma_minor_offset_unique(i + 1, minor, major, k);
    } else {
        assert(2 * major * (k + 1) == 2 * major * k + 2 * major) by (nonlinear_arith);
        lemma_minor_offset_unique(i + 1, minor, major, k + 1);
    }
}

/// A line from a point to itself is that point and no other, and painting it
/// is one clipped write.
pub proof fn lemma_line_to_itself(pixels: Seq<Color>, width: int, px: int, py: int, c: Color)
    requires
        width >= 0,
    ensures
        forall|x: int, y: int| #[trigger]
            line_covers(px, py, px, py, x, y) <==> (x == px && y == py),
        paint(pixels, width, line_shape(px, py, px, py), Some(c)) == plot(pixels, width, px, py, c),
{
    lemma_paint_single_point(pixels, width, px, py, c);
    lemma_paint_same(pixels, width, line_shape(px, py, px, py), point_shape(px, py), Some(c));
}

/// Two points within the row width that land on one position are one point.
pub proof fn lemma_position_is_unique(width: int, x1: int, y1: int, x2: int, y2: int)
    requires
        0 <= x1 < width,
        0 <= x2 < width,
        pixel_index(width, x1, y1) == pixel_index(width, x2, y2),
    ensures
        x1 == x2,
        y1 == y2,
{
    assert(y1 * width + x1 == y2 * width + x2);
    if y1 < y2 {
        assert(y2 * width >= (y1 + 1) * width) by (nonlinear_arith)
            requires
                y1 < y2,
                width > 0,
        ;
        assert((y1 + 1) * width == y1 * width + width) by (nonlinear_arith);
    }
    if y2 < y1 {
        assert(y1 * width >= (y2 + 1) * width) by (nonlinear_arith)
            requires
                y2 < y1,
                width > 0,
        ;
        assert((y2 + 1) * width == y2 * width + width) by (nonlinear_arith);
    }
}

/// Whether every point of a shape lies left of column `width`, so that none
/// lands in a later row than its own.
pub open spec fn fits(width: int, shape: spec_fn(int, int) -> bool) -> bool {
    forall|x: int, y: int| #[trigger] shape(x, y) ==> x < width
}

/// What painting leaves at a point of the canvas: the color where the shape
/// holds the point; what was there where it does not and the shape fits the
/// row width.
pub proof fn lemma_paint_at(
    pixels: Seq<Color>,
    width: int,
    shape: spec_fn(int, int) -> bool,
    c: Color,
    px: int,
    py: int,
)
    requires
        0 <= px < width,
        0 <= py,
        pixel_index(width, px, py) < pixels.len(),
    ensures
        0 <= pixel_index(width, px, py),
        shape(px, py) ==> paint(pixels, width, shape, Some(c))[pixel_index(width, px, py)] == c,
        !hit(width, shape, pixel_index(width, px, py)) ==> paint(pixels, width, shape, Some(c))[pixel_index(
            width,
            px,
            py,
        )] == pixels[pixel_index(width, px, py)],
        fits(width, shape) && !shape(px, py) ==> !hit(width, shape, pixel_index(width, px, py)),
{
    let k = pixel_index(width, px, py);
    assert(py * width >= 0) by (nonlinear_arith)
        requires
            py >= 0,
            width >= 0,
    ;
    if shape(px, py) {
        assert(lands(width, px, py, k) && shape(px, py));
    }
    if fits(width, shape) && !shape(px, py) && hit(width, shape, k) {
        let (x, y) = choose|x: int, y: int| #[trigger] lands(width, x, y, k) && shape(x, y);
        lemma_position_is_unique(width, x, y, px, py);
    }
}

/// The points of row `y` from column `xa` to column `xb`, both included.
pub open spec fn span_shape(xa: int, xb: int, y: int) -> spec_fn(int, int) -> bool {
    |px: int, py: int| py == y && xa <= px <= xb
}

/// The points of the first `n` columns of a span.
pub open spec fn span_prefix(xa: int, xb: int, y: int, n: int) -> spec_fn(int, int) -> bool {
    |px: int, py: int| py == y && xa <= px <= xb && px < xa + n
}

/// The area that a filled rectangle covers: its extents count from the
/// corner and both far edges are included, so `width + 1` columns and
/// `height + 1` rows. A negative extent leaves no area.
pub open spec fn rect_area(x: int, y: int, width: int, height: int) -> spec_fn(int, int) -> bool {
    |px: int, py: int| x <= px <= x + width && y <= py <= y + height
}

/// The rows of a rectangle's area above row `row`.
pub open spec fn rect_area_above(x: int, y: int, width: int, height: int, row: int) -> spec_fn(
    int,
    int,
) -> bool {
    |px: int, py: int| x <= px <= x + width && y <= py <= y + height && py < row
}

/// The outline of a rectangle: the four lines from corner to corner, top,
/// right, bottom, left.
pub open spec fn rect_outline(x: int, y: int, width: int, height: int) -> spec_fn(int, int) -> bool {
    either(
        either(
            either(
                line_shape(x, y, x + width, y),
                line_shape(x + width, y, x + width, y + height),
            ),
            line_shape(x + width, y + height, x, y + height),
        ),
        line_shape(x, y + height, x, y),
    )
}

/// The pixels after a rectangle was drawn: its area in the fill color, then
/// its outline in the stroke color over it.
pub open spec fn paint_rect(
    pixels: Seq<Color>,
    canvas_width: int,
    x: int,
    y: int,
    width: int,
    height: int,
    fill: Option<Color>,
    stroke: Option<Color>,
) -> Seq<Color> {
    paint(
        paint(pixels, canvas_width, rect_area(x, y, width, height), fill),
        canvas_width,
        rect_outline(x, y, width, height),
        stroke,
    )
}

/// Whether the offset `(dx, dy)` from the center, neither negative, lies in
/// the ellipse of the half-axes `w` and `h`: `dx² h² + dy² w² <= h² w²`.
pub open spec fn ellipse_holds(w: int, h: int, dx: int, dy: int) -> bool {
    dx * dx * (h * h) + dy * dy * (w * w) <= (h * h) * (w * w)
}

/// Whether `half` is the half-width of the ellipse in the rows `dy` away from
/// the center: the largest offset that the ellipse holds there.
pub open spec fn is_half_width(w: int, h: int, dy: int, half: int) -> bool {
    half >= 0 && ellipse_holds(w, h, half, dy) && !ellipse_holds(w, h, half + 1, dy)
}

/// Whether an ellipse puts its fill color at `(x, y)`: in the center row the
/// columns up to `w` away from the center, on either side; in the rows up to
/// `h` away the columns strictly inside the half-width.
pub open spec fn ellipse_fill_covers(cx: int, cy: int, w: int, h: int, x: int, y: int) -> bool {
    let dx = magnitude(x - cx);
    let dy = magnitude(y - cy);
    if dy == 0 {
        dx <= w
    } else {
        dy <= h && ellipse_holds(w, h, dx + 1, dy)
    }
}

/// Whether an ellipse puts its stroke color at `(x, y)`: in the rows up to
/// `h` away from the center, not the center row, the two columns at the
/// half-width.
pub open spec fn ellipse_stroke_covers(cx: int, cy: int, w: int, h: int, x: int, y: int) -> bool {
    let dx = magnitude(x - cx);
    let dy = magnitude(y - cy);
    0 < dy <= h && is_half_width(w, h, dy, dx)
}

/// What an ellipse fills in the two rows `n` away from the center.
pub open spec fn ellipse_row_fill(cx: int, cy: int, w: int, h: int, n: int) -> spec_fn(
    int,
    int,
) -> bool {
    |x: int, y: int| magnitude(y - cy) == n && ellipse_fill_covers(cx, cy, w, h, x, y)
}

/// What an ellipse strokes in the two rows `n` away from the center.
pub open spec fn ellipse_row_stroke(cx: int, cy: int, w: int, h: int, n: int) -> spec_fn(
    int,
    int,
) -> bool {
    |x: int, y: int| magnitude(y - cy) == n && ellipse_stroke_covers(cx, cy, w, h, x, y)
}

/// The pixels after the rows of an ellipse up to `n` away from the center
/// were drawn, from the center outwards: each pair of rows is filled, then
/// stroked. The order shows only where a column beyond the canvas width
/// lands in a later row.
pub open spec fn paint_ellipse(
    pixels: Seq<Color>,
    canvas_width: int,
    cx: int,
    cy: int,
    w: int,
    h: int,
    fill: Option<Color>,
    stroke: Option<Color>,
    n: int,
) -> Seq<Color>
    decreases n,
{
    if n <= 0 {
        paint(pixels, canvas_width, ellipse_row_fill(cx, cy, w, h, 0), fill)
    } else {
        paint(
            paint(
                paint_ellipse(pixels, canvas_width, cx, cy, w, h, fill, stroke, n - 1),
                canvas_width,
                ellipse_row_fill(cx, cy, w, h, n),
                fill,
            ),
            canvas_width,
            ellipse_row_stroke(cx, cy, w, h, n),
            stroke,
        )
    }
}

/// The point that a segment ends at.
pub open spec fn segment_target(segment: PathSegment) -> IntPoint {
    match segment {
        PathSegment::MoveTo(p) => p,
        PathSegment::LineTo(p) => p,
    }
}

/// Where the cursor stands after the first `n` segments: at the origin
/// before any, else at the end of the last.
pub open spec fn path_cursor(segments: Seq<PathSegment>, n: int) -> IntPoint {
    if n <= 0 {
        IntPoint { x: 0, y: 0 }
    } else {
        segment_target(segments[n - 1])
    }
}

/// The lines that the first `n` segments draw: a move draws none, a line
/// draws from the cursor to its target.
pub open spec fn path_shape(segments: Seq<PathSegment>, n: int) -> spec_fn(int, int) -> bool
    decreases n,
{
    if n <= 0 {
        no_shape()
    } else {
        match segments[n - 1] {
            PathSegment::MoveTo(_) => path_shape(segments, n - 1),
            PathSegment::LineTo(p) => either(
                path_shape(segments, n - 1),
                line_shape(
                    path_cursor(segments, n - 1).x as int,
                    path_cursor(segments, n - 1).y as int,
                    p.x as int,
                    p.y as int,
                ),
            ),
        }
    }
}

/// The ellipse holds less as an offset grows.
pub proof fn lemma_ellipse_holds_less(w: int, h: int, dx: int, dy: int, ex: int, ey: int)
    requires
        0 <= dx <= ex,
        0 <= dy <= ey,
        ellipse_holds(w, h, ex, ey),
    ensures
        ellipse_holds(w, h, dx, dy),
{
    assert(dx * dx <= ex * ex) by (nonlinear_arith)
        requires
            0 <= dx <= ex,
    ;
    assert(dy * dy <= ey * ey) by (nonlinear_arith)
        requires
            0 <= dy <= ey,
    ;
    assert(h * h >= 0 && w * w >= 0) by (nonlinear_arith);
    assert(dx * dx * (h * h) <= ex * ex * (h * h)) by (nonlinear_arith)
        requires
            dx * dx <= ex * ex,
            h * h >= 0,
    ;
    assert(dy * dy * (w * w) <= ey * ey * (w * w)) by (nonlinear_arith)
        requires
            dy * dy <= ey * ey,
            w * w >= 0,
    ;
}

/// In the rows up to `h` away the ellipse holds the center column.
pub proof fn lemma_ellipse_holds_center(w: int, h: int, dy: int)
    requires
        0 <= dy <= h,
    ensures
        ellipse_holds(w, h, 0, dy),
{
    assert(dy * dy <= h * h) by (nonlinear_arith)
        requires
            0 <= dy <= h,
    ;
    assert(w * w >= 0) by (nonlinear_arith);
    assert(dy * dy * (w * w) <= (h * h) * (w * w)) by (nonlinear_arith)
        requires
            dy * dy <= h * h,
            w * w >= 0,
    ;
    assert(0 * 0 * (h * h) == 0) by (nonlinear_arith);
}

/// A row has one half-width: the offsets below it lie strictly inside, and
/// no other offset is at it.
pub proof fn lemma_half_width_splits(w: int, h: int, dy: int, half: int, dx: int)
    requires
        0 <= dy,
        0 <= dx,
        is_half_width(w, h, dy, half),
    ensures
        ellipse_holds(w, h, dx + 1, dy) <==> dx < half,
        is_half_width(w, h, dy, dx) <==> dx == half,
{
    if dx < half {
        lemma_ellipse_holds_less(w, h, dx + 1, dy, half, dy);
    }
    if ellipse_holds(w, h, dx + 1, dy) && dx >= half {
        lemma_ellipse_holds_less(w, h, half + 1, dy, dx + 1, dy);
    }
    if is_half_width(w, h, dy, dx) && dx > half {
        lemma_ellipse_holds_less(w, h, half + 1, dy, dx, dy);
    }
}

/// Whether `(px, py)` is on an edge of the rectangle.
pub open spec fn on_rect_edge(x: int, y: int, width: int, height: int, px: int, py: int) -> bool {
    &&& x <= px <= x + width
    &&& y <= py <= y + height
    &&& (px == x || px == x + width || py == y || py == y + height)
}

/// Whether `(px, py)` is strictly inside the four edges of the rectangle.
pub open spec fn inside_rect_edges(x: int, y: int, width: int, height: int, px: int, py: int) -> bool {
    x < px < x + width && y < py < y + height
}

/// The outline of a rectangle of extents that are not negative is its four
/// edges.
pub proof fn lemma_rect_outline_is_edges(x: int, y: int, width: int, height: int)
    requires
        width >= 0,
        height >= 0,
    ensures
        forall|px: int, py: int| #[trigger]
            rect_outline(x, y, width, height)(px, py) <==> on_rect_edge(x, y, width, height, px, py),
{
    assert forall|px: int, py: int| #[trigger]
        rect_outline(x, y, width, height)(px, py) <==> on_rect_edge(
            x,
            y,
            width,
            height,
            px,
            py,
        ) by {
        lemma_straight_line(x, y, x + width, y, px, py);
        lemma_straight_line(x + width, y, x + width, y + height, px, py);
        lemma_straight_line(x + width, y + height, x, y + height, px, py);
        lemma_straight_line(x, y + height, x, y, px, py);
    }
}

/// A line along an axis covers the points between its ends.
pub proof fn lemma_straight_line(x0: int, y0: int, x1: int, y1: int, px: int, py: int)
    requires
        x0 == x1 || y0 == y1,
    ensures
        line_covers(x0, y0, x1, y1, px, py) <==> {
            &&& (x0 <= px <= x1 || x1 <= px <= x0)
            &&& (y0 <= py <= y1 || y1 <= py <= y0)
        },
{
    let i = if x0 == x1 {
        if y0 > y1 {
            py - y1
        } else {
            py - y0
        }
    } else {
        if x0 > x1 {
            px - x1
        } else {
            px - x0
        }
    };
    let major = if x0 == x1 {
        magnitude(y1 - y0)
    } else {
        magnitude(x1 - x0)
    };
    assert(2 * i * 0 == 0);
    assert(minor_offset(i, 0, major) == 0) by {
        if major > 0 {
            lemma_minor_offset_unique(i, 0, major, 0);
        }
    }
    assert(direction(0) * minor_offset(i, 0, major) == 0);
}

/// With both colors set, a drawn rectangle of extents that are not negative
/// shows the stroke color on its edges, and the fill color strictly inside
/// them wherever no point of the outline lands from beyond the row width.
/// None does where the right edge lies within the row width.
pub proof fn lemma_rect_edges_and_inside(
    pixels: Seq<Color>,
    canvas_width: int,
    x: int,
    y: int,
    width: int,
    height: int,
    fill: Color,
    stroke: Color,
    px: int,
    py: int,
)
    requires
        width >= 0,
        height >= 0,
        0 <= px < canvas_width,
        0 <= py,
        pixel_index(canvas_width, px, py) < pixels.len(),
    ensures
        on_rect_edge(x, y, width, height, px, py) ==> paint_rect(
            pixels,
            canvas_width,
            x,
            y,
            width,
            height,
            Some(fill),
            Some(stroke),
        )[pixel_index(canvas_width, px, py)] == stroke,
        inside_rect_edges(x, y, width, height, px, py) && !hit(
            canvas_width,
            rect_outline(x, y, width, height),
            pixel_index(canvas_width, px, py),
        ) ==> paint_rect(pixels, canvas_width, x, y, width, height, Some(fill), Some(stroke))[pixel_index(
            canvas_width,
            px,
            py,
        )] == fill,
        inside_rect_edges(x, y, width, height, px, py) && x + width < canvas_width ==> !hit(
            canvas_width,
            rect_outline(x, y, width, height),
            pixel_index(canvas_width, px, py),
        ),
{
    let filled = paint(pixels, canvas_width, rect_area(x, y, width, height), Some(fill));
    let outline = rect_outline(x, y, width, height);
    lemma_rect_outline_is_edges(x, y, width, height);
    lemma_paint_at(pixels, canvas_width, rect_area(x, y, width, height), fill, px, py);
    lemma_paint_at(filled, canvas_width, outline, stroke, px, py);
    if on_rect_edge(x, y, width, height, px, py) {
        assert(outline(px, py));
    }
    if inside_rect_edges(x, y, width, height, px, py) {
        assert(rect_area(x, y, width, height)(px, py));
        assert(!outline(px, py));
        if x + width < canvas_width {
            assert forall|a: int, b: int| #[trigger] outline(a, b) implies a < canvas_width by {
                assert(on_rect_edge(x, y, width, height, a, b));
            }
            assert(fits(canvas_width, outline));
        }
    }
}

/// What an ellipse covers is symmetric about both axes through its center,
/// the horizontal and the vertical, fill and stroke alike.
pub proof fn lemma_ellipse_is_symmetric(cx: int, cy: int, w: int, h: int, x: int, y: int)
    ensures
        ellipse_stroke_covers(cx, cy, w, h, x, y) <==> ellipse_stroke_covers(
            cx,
            cy,
            w,
            h,
            x,
            2 * cy - y,
        ),
        ellipse_stroke_covers(cx, cy, w, h, x, y) <==> ellipse_stroke_covers(
            cx,
            cy,
            w,
            h,
            2 * cx - x,
            y,
        ),
        ellipse_fill_covers(cx, cy, w, h, x, y) <==> ellipse_fill_covers(cx, cy, w, h, x, 2 * cy - y),
        ellipse_fill_covers(cx, cy, w, h, x, y) <==> ellipse_fill_covers(cx, cy, w, h, 2 * cx - x, y),
{
}

/// In a row off the center, the ellipse holds no offset beyond its width.
pub proof fn lemma_ellipse_within_width(w: int, h: int, dx: int, dy: int)
    requires
        0 <= w,
        0 <= dx,
        0 < dy <= h,
        ellipse_holds(w, h, dx, dy),
    ensures
        dx <= w,
{
    if dx > w {
        assert(dx * dx > w * w) by (nonlinear_arith)
            requires
                dx > w >= 0,
        ;
        assert(h * h > 0) by (nonlinear_arith)
            requires
                h > 0,
        ;
        assert(dx * dx * (h * h) > (h * h) * (w * w)) by (nonlinear_arith)
            requires
                dx * dx > w * w,
                h * h > 0,
        ;
        assert(dy * dy * (w * w) >= 0) by (nonlinear_arith);
    }
}

/// The color that an ellipse whose rightmost column lies within the row
/// width leaves at a point of the canvas, after its rows up to `n` away from
/// the center: the stroke color where the stroke covers the point, else the
/// fill color where the fill covers it, else what was there. A color that
/// is not set covers nothing.
pub open spec fn ellipse_color_at(
    cx: int,
    cy: int,
    w: int,
    h: int,
    fill: Option<Color>,
    stroke: Option<Color>,
    n: int,
    px: int,
    py: int,
    was: Color,
) -> Color {
    if stroke is Some && magnitude(py - cy) <= n && ellipse_stroke_covers(cx, cy, w, h, px, py) {
        stroke->0
    } else if fill is Some && magnitude(py - cy) <= n && ellipse_fill_covers(cx, cy, w, h, px, py) {
        fill->0
    } else {
        was
    }
}

/// Painting a shape that fits the row width leaves the color at a point of
/// the canvas where the shape holds the point and a color is set, and what
/// was there elsewhere.
pub proof fn lemma_fitting_paint_at(
    pixels: Seq<Color>,
    width: int,
    shape: spec_fn(int, int) -> bool,
    color: Option<Color>,
    px: int,
    py: int,
)
    requires
        0 <= px < width,
        0 <= py,
        pixel_index(width, px, py) < pixels.len(),
        fits(width, shape),
    ensures
        paint(pixels, width, shape, color).len() == pixels.len(),
        paint(pixels, width, shape, color)[pixel_index(width, px, py)] == if color is Some && shape(
            px,
            py,
        ) {
            color->0
        } else {
            pixels[pixel_index(width, px, py)]
        },
{
    if let Some(c) = color {
        lemma_paint_at(pixels, width, shape, c, px, py);
    }
}

/// An ellipse whose rightmost column lies within the row width leaves, at
/// each point of the canvas, the color that `ellipse_color_at` names.
pub proof fn lemma_ellipse_pixels(
    pixels: Seq<Color>,
    canvas_width: int,
    cx: int,
    cy: int,
    w: int,
    h: int,
    fill: Option<Color>,
    stroke: Option<Color>,
    n: int,
    px: int,
    py: int,
)
    requires
        0 <= w,
        0 <= n <= h,
        cx + w < canvas_width,
        0 <= px < canvas_width,
        0 <= py,
        pixel_index(canvas_width, px, py) < pixels.len(),
    ensures
        paint_ellipse(pixels, canvas_width, cx, cy, w, h, fill, stroke, n).len() == pixels.len(),
        paint_ellipse(pixels, canvas_width, cx, cy, w, h, fill, stroke, n)[pixel_index(
            canvas_width,
            px,
            py,
        )] == ellipse_color_at(
            cx,
            cy,
            w,
            h,
            fill,
            stroke,
            n,
            px,
            py,
            pixels[pixel_index(canvas_width, px, py)],
        ),
    decreases n,
{
    let row_fill = ellipse_row_fill(cx, cy, w, h, n);
    let row_stroke = ellipse_row_stroke(cx, cy, w, h, n);
    if n == 0 {
        assert(fits(canvas_width, row_fill));
        lemma_fitting_paint_at(pixels, canvas_width, row_fill, fill, px, py);
    } else {
        let inner = paint_ellipse(pixels, canvas_width, cx, cy, w, h, fill, stroke, n - 1);
        let filled = paint(inner, canvas_width, row_fill, fill);
        lemma_ellipse_pixels(pixels, canvas_width, cx, cy, w, h, fill, stroke, n - 1, px, py);
        assert forall|x: int, y: int| #[trigger] row_fill(x, y) implies x < canvas_width by {
            lemma_ellipse_within_width(w, h, magnitude(x - cx) + 1, magnitude(y - cy));
        }
        assert forall|x: int, y: int| #[trigger] row_stroke(x, y) implies x < canvas_width by {
            lemma_ellipse_within_width(w, h, magnitude(x - cx), magnitude(y - cy));
        }
        lemma_fitting_paint_at(inner, canvas_width, row_fill, fill, px, py);
        lemma_fitting_paint_at(filled, canvas_width, row_stroke, stroke, px, py);
    }
}

/// An ellipse whose rightmost column lies within the row width leaves two
/// points of the canvas that mirror each other about an axis through its
/// center in one color, where they were of one color before: the pixels it
/// writes, and the colors it writes them in, are symmetric about both axes.
pub proof fn lemma_ellipse_pixels_mirror(
    pixels: Seq<Color>,
    canvas_width: int,
    cx: int,
    cy: int,
    w: int,
    h: int,
    fill: Option<Color>,
    stroke: Option<Color>,
    px: int,
    py: int,
    qx: int,
    qy: int,
)
    requires
        0 <= w,
        0 <= h,
        cx + w < canvas_width,
        0 <= px < canvas_width,
        0 <= qx < canvas_width,
        0 <= py,
        0 <= qy,
        pixel_index(canvas_width, px, py) < pixels.len(),
        pixel_index(canvas_width, qx, qy) < pixels.len(),
        qx == px || qx == 2 * cx - px,
        qy == py || qy == 2 * cy - py,
        pixels[pixel_index(canvas_width, px, py)] == pixels[pixel_index(canvas_width, qx, qy)],
    ensures
        paint_ellipse(pixels, canvas_width, cx, cy, w, h, fill, stroke, h)[pixel_index(
            canvas_width,
            px,
            py,
        )] == paint_ellipse(pixels, canvas_width, cx, cy, w, h, fill, stroke, h)[pixel_index(
            canvas_width,
            qx,
            qy,
        )],
{
    lemma_ellipse_pixels(pixels, canvas_width, cx, cy, w, h, fill, stroke, h, px, py);
    lemma_ellipse_pixels(pixels, canvas_width, cx, cy, w, h, fill, stroke, h, qx, qy);
    lemma_ellipse_is_symmetric(cx, cy, w, h, px, py);
    lemma_ellipse_is_symmetric(cx, cy, w, h, 2 * cx - px, py);
    lemma_ellipse_is_symmetric(cx, cy, w, h, px, 2 * cy - py);
}

} // verus!
