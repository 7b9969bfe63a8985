//! The display renderer: a frame of 128 x 64 binary pixels, divided into
//! horizontal bands of one text line each.
//!
//! The renderer only composes the frame in memory. Handing the frame to the
//! display controller is the caller's business; the renderer is told how the
//! controller answered and reports failures as `DisplayError`.

use vstd::prelude::*;
use crate::frame::{
    blank_frame, draw_text, erase_rect, glyph_pixels, is_lit, line_pixels, lit_pixels,
    outline_pixels, rect_pixels, screen, single_line, stroke_line, stroke_rect, wipe, Frame,
    FRAME_HEIGHT, FRAME_WIDTH,
};
use crate::graph::{
    highest, lemma_extent_bounds, lemma_scaled_within, lowest, offset_in_span, scaled_points, xs,
    ys,
};
use crate::layout::{lemma_wrap_rejoins, line_views, wrap_text, wrapped};

verus! {

/// Height of one band in pixel rows: the height of a glyph.
pub const BAND_HEIGHT: u32 = 10;

/// Number of bands that have at least one row on the frame. The last one is
/// cut off by the lower edge.
pub const BAND_COUNT: usize = 7;

/// Characters that fit on one line of the frame.
pub const CHARS_PER_LINE: usize = 21;

/// Longest message `update_line` can place: beyond it the glyph positions
/// leave the coordinate range of the frame.
pub const MAX_MESSAGE_CHARS: usize = 214_748_356;

/// Why the display could not be used.
#[derive(Clone, Copy, Debug, PartialEq, Eq, Structural)]
pub enum DisplayError {
    /// The controller did not acknowledge its power-on sequence.
    Init,
    /// The controller did not take a frame that was sent to it.
    Io,
}

/// The renderer's state: the frame as it will look once flushed.
pub struct DisplayManager {
    frame: Frame,
}

/// The first pixel row of band `band`.
pub open spec fn band_top(band: int) -> int {
    band * BAND_HEIGHT
}

/// The rectangle owned by band `band`: the full width of the frame,
/// `BAND_HEIGHT` rows from `band_top(band)`.
pub open spec fn band_rect(band: int) -> Set<(int, int)> {
    rect_pixels(0, band_top(band), FRAME_WIDTH as int, BAND_HEIGHT as int)
}

/// `pixels` after `text` has been drawn at the top-left corner of band
/// `band`, over what was there.
pub open spec fn band_draw(pixels: Set<(int, int)>, band: int, text: Seq<char>) -> Set<(int, int)> {
    pixels.union(glyph_pixels(text, 0, band_top(band)).intersect(screen()))
}

/// `pixels` after band `band` has been erased and `text` drawn into it.
/// A band below the lower edge of the frame has no pixels to change.
pub open spec fn band_update(pixels: Set<(int, int)>, band: int, text: Seq<char>) -> Set<
    (int, int),
> {
    if 0 <= band < BAND_COUNT {
        band_draw(pixels.difference(band_rect(band)), band, text)
    } else {
        pixels
    }
}

/// A blank frame after the first `count` of `lines` have been drawn, line
/// `i` into band `i`.
pub open spec fn rendered(lines: Seq<Seq<char>>, count: int) -> Set<(int, int)>
    decreases count,
{
    if count <= 0 {
        Set::empty()
    } else {
        band_draw(rendered(lines, count - 1), count - 1, lines[count - 1])
    }
}

/// The frame that shows `message` from the top: the message wrapped at
/// `CHARS_PER_LINE`, one line per band, as many lines as there are bands.
pub open spec fn full_render(message: Seq<char>) -> Set<(int, int)> {
    let lines = wrapped(message, CHARS_PER_LINE as int);
    rendered(
        lines,
        if lines.len() <= BAND_COUNT {
            lines.len() as int
        } else {
            BAND_COUNT as int
        },
    )
}

/// `pixels` after the rectangle outline with the given corners has been
/// drawn over it.
pub open spec fn with_outline(
    pixels: Set<(int, int)>,
    top_left: (int, int),
    bottom_right: (int, int),
) -> Set<(int, int)> {
    pixels.union(
        outline_pixels(
            top_left.0,
            top_left.1,
            bottom_right.0 - top_left.0,
            bottom_right.1 - top_left.1,
        ).intersect(screen()),
    )
}

/// `pixels` after the first `count` segments of the polyline through
/// `points` have been drawn over it.
pub open spec fn traced(pixels: Set<(int, int)>, points: Seq<(int, int)>, count: int) -> Set<
    (int, int),
>
    decreases count,
{
    if count <= 0 {
        pixels
    } else {
        traced(pixels, points, count - 1).union(
            line_pixels(
                points[count - 1].0,
                points[count - 1].1,
                points[count].0,
                points[count].1,
            ).intersect(screen()),
        )
    }
}

/// The plot area of `draw_xy_graph`: the whole frame.
pub open spec fn plot_area() -> (i32, i32, i32, i32) {
    (0i32, 0i32, 128i32, 64i32)
}

/// The rectangles of two different bands share no pixel.
pub proof fn lemma_bands_disjoint(i: int, j: int)
    requires
        i != j,
    ensures
        band_rect(i).disjoint(band_rect(j)),
{
    assert forall|p: (int, int)| !(band_rect(i).contains(p) && band_rect(j).contains(p)) by {
        if i < j {
            assert(band_top(i) + BAND_HEIGHT <= band_top(j)) by (nonlinear_arith)
                requires
                    i + 1 <= j,
                    band_top(i) == i * 10,
                    band_top(j) == j * 10,
                    BAND_HEIGHT == 10,
            ;
        } else {
            assert(band_top(j) + BAND_HEIGHT <= band_top(i)) by (nonlinear_arith)
                requires
                    j + 1 <= i,
                    band_top(i) == i * 10,
                    band_top(j) == j * 10,
                    BAND_HEIGHT == 10,
            ;
        }
    }
}

/// The bands `0 .. BAND_COUNT` cover the frame without gaps: every pixel of
/// the frame lies in the band that its row selects.
pub proof fn lemma_bands_tile(p: (int, int))
    requires
        screen().contains(p),
    ensures
        0 <= p.1 / (BAND_HEIGHT as int) < BAND_COUNT,
        band_rect(p.1 / (BAND_HEIGHT as int)).contains(p),
{
}

/// Updating a band a second time with the same message changes nothing.
pub proof fn lemma_update_idempotent(pixels: Set<(int, int)>, band: int, text: Seq<char>)
    ensures
        band_update(band_update(pixels, band, text), band, text) == band_update(
            pixels,
            band,
            text,
        ),
{
    assert(band_update(band_update(pixels, band, text), band, text) =~= band_update(
        pixels,
        band,
        text,
    ));
}

/// An update changes no pixel outside its band's rectangle and the glyphs
/// it draws.
pub proof fn lemma_update_frame(
    pixels: Set<(int, int)>,
    band: int,
    text: Seq<char>,
    p: (int, int),
)
    requires
        !band_rect(band).contains(p),
        !glyph_pixels(text, 0, band_top(band)).contains(p),
    ensures
        band_update(pixels, band, text).contains(p) == pixels.contains(p),
{
}

impl DisplayManager {
    /// The pixels that are on, as (column, row) pairs.
    pub closed spec fn pixels(self) -> Set<(int, int)> {
        lit_pixels(self.frame)
    }

    /// Well-formedness: no position outside the frame is on.
    pub open spec fn wf(self) -> bool {
        self.pixels().subset_of(screen())
    }

    /// Starts a display session. `acknowledged` tells whether the controller
    /// answered its power-on sequence; if it did not, there is no session.
    /// A new session starts with every pixel off.
    pub fn new(acknowledged: bool) -> (session: Result<DisplayManager, DisplayError>)
        ensures
            acknowledged ==> session is Ok && session->Ok_0.wf() && session->Ok_0.pixels()
                == Set::<(int, int)>::empty(),
            !acknowledged ==> session is Err && session->Err_0 == DisplayError::Init,
    {
        if acknowledged {
            Ok(DisplayManager { frame: blank_frame() })
        } else {
            Err(DisplayError::Init)
        }
    }

    /// Turns every pixel off.
    pub fn clear(&mut self)
        ensures
            final(self).wf(),
            final(self).pixels() == Set::<(int, int)>::empty(),
    {
        wipe(&mut self.frame);
    }

    /// The frame itself, for handing it to the display controller.
    pub fn frame(&self) -> (frame: &Frame)
        ensures
            lit_pixels(*frame) == self.pixels(),
    {
        &self.frame
    }

    /// Whether the pixel in column `x`, row `y` is on.
    pub fn pixel(&self, x: u32, y: u32) -> (lit: bool)
        requires
            self.wf(),
        ensures
            lit == self.pixels().contains((x as int, y as int)),
    {
        if x < FRAME_WIDTH && y < FRAME_HEIGHT {
            is_lit(&self.frame, x as i32, y as i32)
        } else {
            false
        }
    }

    /// Replaces the frame by `message`, wrapped into lines of
    /// `CHARS_PER_LINE` characters, line `i` in band `i`. Lines that would
    /// start below the frame are not drawn.
    pub fn log_and_show(&mut self, message: &str)
        ensures
            final(self).wf(),
            final(self).pixels() == full_render(message@),
    {
        self.clear();
        let lines = wrap_text(message, (128, 64), (6, 10));
        let ghost texts = wrapped(message@, CHARS_PER_LINE as int);
        proof {
            lemma_wrap_rejoins(message@, CHARS_PER_LINE as int);
        }
        let mut i: usize = 0;
        while i < lines.len() && i < BAND_COUNT
            invariant
                i <= lines.len(),
                i <= BAND_COUNT,
                line_views(lines@) == texts,
                forall|k: int| 0 <= k < texts.len() ==> (#[trigger] texts[k]).len() <= CHARS_PER_LINE,
                self.pixels() == rendered(texts, i as int),
                self.wf(),
            decreases lines.len() - i,
        {
            let y: i32 = (i * 10) as i32;
            assert(line_views(lines@)[i as int] == lines@[i as int]@);
            assert(texts[i as int].len() <= CHARS_PER_LINE);
            draw_text(&mut self.frame, lines[i], 0, y);
            i += 1;
        }
    }

    /// Redraws one band: erases the rectangle of band `line_number`, then
    /// draws `message` at its top-left corner. A message without a line
    /// break leaves every pixel outside the band as it was. A band below
    /// the frame has no pixels, and nothing changes.
    pub fn update_line(&mut self, line_number: usize, message: &str)
        requires
            old(self).wf(),
            message@.len() <= MAX_MESSAGE_CHARS,
        ensures
            final(self).wf(),
            final(self).pixels() == band_update(old(self).pixels(), line_number as int, message@),
            single_line(message@) ==> forall|p: (int, int)|
                !band_rect(line_number as int).contains(p) ==> (#[trigger] final(self).pixels()
                    .contains(p) == old(self).pixels().contains(p)),
    {
        if line_number < BAND_COUNT {
            let y: i32 = (line_number * 10) as i32;
            erase_rect(&mut self.frame, 0, y, FRAME_WIDTH, BAND_HEIGHT);
            draw_text(&mut self.frame, message, 0, y);
        }
    }

    /// Reports how a transfer of the frame to the controller ended. The
    /// frame itself is not changed by a transfer.
    pub fn flush(&self, transferred: bool) -> (outcome: Result<(), DisplayError>)
        ensures
            transferred ==> outcome is Ok,
            !transferred ==> outcome is Err && outcome->Err_0 == DisplayError::Io,
    {
        if transferred {
            Ok(())
        } else {
            Err(DisplayError::Io)
        }
    }

    /// Draws the one-pixel outline of the rectangle that spans from
    /// `top_left` up to, but not including, the column and row of
    /// `bottom_right`.
    pub fn draw_rect(&mut self, top_left: (u32, u32), bottom_right: (u32, u32))
        requires
            old(self).wf(),
            top_left.0 <= bottom_right.0 <= i32::MAX,
            top_left.1 <= bottom_right.1 <= i32::MAX,
        ensures
            final(self).wf(),
            final(self).pixels() == with_outline(
                old(self).pixels(),
                (top_left.0 as int, top_left.1 as int),
                (bottom_right.0 as int, bottom_right.1 as int),
            ),
    {
        let x: i32 = top_left.0 as i32;
        let y: i32 = top_left.1 as i32;
        let width: u32 = bottom_right.0 - top_left.0;
        let height: u32 = bottom_right.1 - top_left.1;
        stroke_rect(&mut self.frame, x, y, width, height);
    }

    /// Scales `points` onto the plot area `graph_area`, given as
    /// `(x_min, y_min, x_max, y_max)`: the smallest `x` among the points
    /// lands on `x_min`, the largest on `x_max`; the smallest `y` lands on
    /// `y_max`, the largest on `y_min`. Points that all share one coordinate
    /// land in the middle of the area in that direction.
    pub fn scale_xy_to_raph_coords(
        &self,
        points: &[(i32, i32)],
        graph_area: (i32, i32, i32, i32),
    ) -> (scaled: Vec<(i32, i32)>)
        ensures
            scaled@.len() == points@.len(),
            forall|i: int|
                0 <= i < points@.len() ==> (#[trigger] scaled@[i].0 as int, scaled@[i].1 as int)
                    == scaled_points(points@, graph_area)[i],
    {
        let count: usize = points.len();
        let mut x_min: i32 = i32::MAX;
        let mut y_min: i32 = i32::MAX;
        let mut x_max: i32 = i32::MIN;
        let mut y_max: i32 = i32::MIN;
        let mut i: usize = 0;
        while i < count
            invariant
                i <= count,
                count == points@.len(),
                x_min == lowest(xs(points@).take(i as int)),
                x_max == highest(xs(points@).take(i as int)),
                y_min == lowest(ys(points@).take(i as int)),
                y_max == highest(ys(points@).take(i as int)),
            decreases count - i,
        {
            let (x, y) = points[i];
            proof {
                let next = i as int + 1;
                assert(xs(points@).take(next).drop_last() =~= xs(points@).take(i as int));
                assert(ys(points@).take(next).drop_last() =~= ys(points@).take(i as int));
                assert(xs(points@).take(next).last() == x);
                assert(ys(points@).take(next).last() == y);
            }
            if x < x_min {
                x_min = x;
            }
            if x > x_max {
                x_max = x;
            }
            if y < y_min {
                y_min = y;
            }
            if y > y_max {
                y_max = y;
            }
            i += 1;
        }
        proof {
            assert(xs(points@).take(count as int) =~= xs(points@));
            assert(ys(points@).take(count as int) =~= ys(points@));
        }
        let width: i64 = graph_area.2 as i64 - graph_area.0 as i64;
        let height: i64 = graph_area.3 as i64 - graph_area.1 as i64;
        let mut scaled: Vec<(i32, i32)> = Vec::new();
        let mut k: usize = 0;
        while k < count
            invariant
                k <= count,
                count == points@.len(),
                scaled@.len() == k,
                x_min == lowest(xs(points@)),
                x_max == highest(xs(points@)),
                y_min == lowest(ys(points@)),
                y_max == highest(ys(points@)),
                width == graph_area.2 - graph_area.0,
                height == graph_area.3 - graph_area.1,
                forall|i: int|
                    0 <= i < k ==> (#[trigger] scaled@[i].0 as int, scaled@[i].1 as int)
                        == scaled_points(points@, graph_area)[i],
            decreases count - k,
        {
            let (x, y) = points[k];
            proof {
                lemma_extent_bounds(xs(points@), k as int);
                lemma_extent_bounds(ys(points@), k as int);
            }
            let across: i64 = offset_in_span(x, x_min, x_max, width);
            let along: i64 = offset_in_span(y, y_min, y_max, height);
            let column: i64 = graph_area.0 as i64 + across;
            let row: i64 = if y_max != y_min {
                graph_area.3 as i64 - along
            } else {
                graph_area.1 as i64 + along
            };
            scaled.push((column as i32, row as i32));
            k += 1;
        }
        scaled
    }

    /// Draws the polyline through `points`, scaled onto the whole frame:
    /// one line from each point to the next.
    pub fn draw_xy_graph(&mut self, points: &[(i32, i32)])
        requires
            old(self).wf(),
        ensures
            final(self).wf(),
            final(self).pixels() == traced(
                old(self).pixels(),
                scaled_points(points@, plot_area()),
                points@.len() - 1,
            ),
    {
        let scaled = self.scale_xy_to_raph_coords(points, (0, 0, 128, 64));
        let ghost targets = scaled_points(points@, plot_area());
        let ghost before = self.pixels();
        let segments: usize = if scaled.len() == 0 {
            0
        } else {
            scaled.len() - 1
        };
        let mut i: usize = 0;
        while i < segments
            invariant
                scaled@.len() == points@.len(),
                i <= segments,
                segments == points@.len() - 1 || (segments == 0 && points@.len() == 0),
                targets == scaled_points(points@, plot_area()),
                forall|k: int|
                    0 <= k < points@.len() ==> (#[trigger] scaled@[k].0 as int, scaled@[k].1 as int)
                        == targets[k],
                self.wf(),
                self.pixels() == traced(before, targets, i as int),
            decreases segments - i,
        {
            let start = scaled[i];
            let end = scaled[i + 1];
            proof {
                lemma_scaled_within(points@, plot_area(), i as int);
                lemma_scaled_within(points@, plot_area(), i as int + 1);
                assert((scaled@[i as int].0 as int, scaled@[i as int].1 as int) == targets[i as int]);
                assert((scaled@[i as int + 1].0 as int, scaled@[i as int + 1].1 as int)
                    == targets[i as int + 1]);
            }
            stroke_line(&mut self.frame, start.0, start.1, end.0, end.1);
            i += 1;
        }
    }
}

} // verus!
