//! Pure conversions between timeline time units and screen pixels, and
//! rectangle clipping for the play-cursor display.

use vstd::prelude::*;

verus! {

/// Largest value, in time units, that a timeline duration, a note position
/// or a note width may take. Keeps products with pixel widths inside `u64`.
pub const MAX_TIME: u64 = 0xFFFF_FFFF;

/// Largest width, in pixels, that a track may have.
pub const MAX_TRACK_WIDTH: u64 = 0xFFFF_FFFF;

/// Largest magnitude, in pixels, of a pointer coordinate or a rectangle
/// corner delivered by the platform layer.
pub const MAX_COORD: i64 = 0x7FFF_FFFF;

/// An axis-aligned rectangle in screen pixels, as resolved by the layout
/// engine. `min` is the top-left corner, `max` the bottom-right one.
#[derive(Clone, Copy, PartialEq, Eq, Structural, Debug)]
pub struct Rect {
    pub min_x: i64,
    pub min_y: i64,
    pub max_x: i64,
    pub max_y: i64,
}

/// A rectangle whose corners are small enough that sums and differences of
/// coordinates stay far from the `i64` range ends.
pub open spec fn rect_wf(r: Rect) -> bool {
    &&& -MAX_COORD <= r.min_x <= MAX_COORD
    &&& -MAX_COORD <= r.min_y <= MAX_COORD
    &&& -MAX_COORD <= r.max_x <= MAX_COORD
    &&& -MAX_COORD <= r.max_y <= MAX_COORD
}

/// The intersection of two rectangles: the largest of the two minima and
/// the smallest of the two maxima, in each axis.
pub open spec fn spec_intersect(a: Rect, b: Rect) -> Rect {
    Rect {
        min_x: if a.min_x >= b.min_x { a.min_x } else { b.min_x },
        min_y: if a.min_y >= b.min_y { a.min_y } else { b.min_y },
        max_x: if a.max_x <= b.max_x { a.max_x } else { b.max_x },
        max_y: if a.max_y <= b.max_y { a.max_y } else { b.max_y },
    }
}

/// A rectangle cut down to an optional clip rectangle: the intersection
/// where a clip is present, the rectangle itself where none is.
pub open spec fn spec_clipped(rect: Rect, clip: Option<Rect>) -> Rect {
    match clip {
        Some(c) => spec_intersect(rect, c),
        None => rect,
    }
}

impl Rect {
    /// The intersection of `self` and `other`. The result is not
    /// normalised: disjoint rectangles yield inverted extents.
    pub fn intersect(&self, other: &Rect) -> (r: Rect)
        ensures
            r == spec_intersect(*self, *other),
    {
        Rect {
            min_x: if self.min_x >= other.min_x { self.min_x } else { other.min_x },
            min_y: if self.min_y >= other.min_y { self.min_y } else { other.min_y },
            max_x: if self.max_x <= other.max_x { self.max_x } else { other.max_x },
            max_y: if self.max_y <= other.max_y { self.max_y } else { other.max_y },
        }
    }
}

/// A container's logical rectangle cut down to its optional clip rectangle.
/// Layout rectangles resolve lazily upstream, so callers recompute this
/// every tick instead of caching it.
pub fn get_clipped_rect(rect: Rect, clip: Option<Rect>) -> (r: Rect)
    ensures
        r == spec_clipped(rect, clip),
{
    match clip {
        Some(c) => rect.intersect(&c),
        None => rect,
    }
}

/// Where a time value lands on a track, in pixels from the track's left
/// edge: `t / duration * track_width`, in integer arithmetic.
pub open spec fn spec_seconds_to_pixels(t: u64, duration: u64, track_width: u64) -> int
    recommends
        duration > 0,
{
    t * track_width / duration as int
}

/// Which time value a pixel offset within a track stands for:
/// `px / track_width * duration`, in integer arithmetic.
pub open spec fn spec_pixels_to_seconds(px: u64, duration: u64, track_width: u64) -> int
    recommends
        track_width > 0,
{
    px * duration / track_width as int
}

/// Converts a time value to a pixel offset within a track.
pub fn seconds_to_pixels(t: u64, duration: u64, track_width: u64) -> (px: u64)
    requires
        0 < duration <= MAX_TIME,
        track_width <= MAX_TRACK_WIDTH,
        t <= duration,
    ensures
        px == spec_seconds_to_pixels(t, duration, track_width),
        px <= track_width,
{
    proof {
        lemma_scale_bounds(t as int, duration as int, track_width as int);
    }
    t * track_width / duration
}

/// Converts a pixel offset within a track back to a time value.
pub fn pixels_to_seconds(px: u64, duration: u64, track_width: u64) -> (t: u64)
    requires
        0 < track_width <= MAX_TRACK_WIDTH,
        duration <= MAX_TIME,
        px <= track_width,
    ensures
        t == spec_pixels_to_seconds(px, duration, track_width),
        t <= duration,
{
    proof {
        lemma_scale_bounds(px as int, track_width as int, duration as int);
    }
    px * duration / track_width
}

/// Scaling a value `x <= b` by `s / b` neither overflows `u64` nor exceeds
/// `s`, for the coordinate ranges this module admits.
proof fn lemma_scale_bounds(x: int, b: int, s: int)
    requires
        0 <= x <= b,
        0 < b <= 0xFFFF_FFFF,
        0 <= s <= 0xFFFF_FFFF,
    ensures
        0 <= x * s <= u64::MAX,
        0 <= x * s / b <= s,
{
    assert(x * s <= b * s) by (nonlinear_arith)
        requires 0 <= x <= b && 0 <= s;
    assert(b * s <= 0xFFFF_FFFF * 0xFFFF_FFFF) by (nonlinear_arith)
        requires 0 < b <= 0xFFFF_FFFF && 0 <= s <= 0xFFFF_FFFF;
    assert(0 <= x * s) by (nonlinear_arith)
        requires 0 <= x && 0 <= s;
    assert(x * s / b <= b * s / b) by (nonlinear_arith)
        requires 0 < b && x * s <= b * s;
    assert(b * s / b == s) by (nonlinear_arith)
        requires 0 < b;
    assert(0 <= x * s / b) by (nonlinear_arith)
        requires 0 < b && 0 <= x * s;
}

/// The play cursor's pixel offset in the frame of the sequencer container:
/// the play position scaled onto the track, shifted by how far the
/// (clipped) track rectangle sits from the (clipped) sequencer rectangle.
pub open spec fn spec_seek_bar_left(
    play_pos: u64,
    duration: u64,
    track_width: u64,
    seq_rect: Rect,
    seq_clip: Option<Rect>,
    track_rect: Rect,
    track_clip: Option<Rect>,
) -> int {
    spec_seconds_to_pixels(play_pos, duration, track_width)
        + spec_clipped(track_rect, track_clip).min_x - spec_clipped(seq_rect, seq_clip).min_x
}

/// Computes the play cursor's pixel offset for rendering. The seek bar is a
/// sibling of the tracks inside the sequencer container, so the offset is
/// taken relative to the sequencer's own rectangle.
pub fn update_seek_bar(
    play_pos: u64,
    duration: u64,
    track_width: u64,
    seq_rect: Rect,
    seq_clip: Option<Rect>,
    track_rect: Rect,
    track_clip: Option<Rect>,
) -> (left: i64)
    requires
        0 < duration <= MAX_TIME,
        track_width <= MAX_TRACK_WIDTH,
        play_pos <= duration,
        rect_wf(seq_rect),
        rect_wf(track_rect),
        (seq_clip matches Some(c) ==> rect_wf(c)),
        (track_clip matches Some(c) ==> rect_wf(c)),
    ensures
        left == spec_seek_bar_left(
            play_pos, duration, track_width,
            seq_rect, seq_clip, track_rect, track_clip,
        ),
{
    let sequencer_rect = get_clipped_rect(seq_rect, seq_clip);
    let tr_rect = get_clipped_rect(track_rect, track_clip);
    let rel_track_x_min = tr_rect.min_x - sequencer_rect.min_x;
    let cursor = seconds_to_pixels(play_pos, duration, track_width);
    cursor as i64 + rel_track_x_min
}

} // verus!
