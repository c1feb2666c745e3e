use sequencer::geometry::{
    get_clipped_rect, pixels_to_seconds, seconds_to_pixels, update_seek_bar, Rect,
};

#[test]
fn seconds_to_pixels_exact() {
    // Half of an 8000-unit timeline on a 500-pixel track is pixel 250.
    assert_eq!(seconds_to_pixels(4000, 8000, 500), 250);
    assert_eq!(seconds_to_pixels(0, 8000, 500), 0);
    assert_eq!(seconds_to_pixels(8000, 8000, 500), 500);
}

#[test]
fn seconds_to_pixels_rounds_down() {
    // 3750 * 500 / 8000 = 234.375, floored.
    assert_eq!(seconds_to_pixels(3750, 8000, 500), 234);
}

#[test]
fn pixels_to_seconds_exact() {
    assert_eq!(pixels_to_seconds(250, 8000, 500), 4000);
    assert_eq!(pixels_to_seconds(0, 8000, 500), 0);
    assert_eq!(pixels_to_seconds(500, 8000, 500), 8000);
    assert_eq!(pixels_to_seconds(334, 8000, 500), 5344);
}

#[test]
fn clipped_rect_without_clip_is_identity() {
    let r = Rect { min_x: 10, min_y: 20, max_x: 110, max_y: 70 };
    assert_eq!(get_clipped_rect(r, None), r);
}

#[test]
fn clipped_rect_intersects() {
    let r = Rect { min_x: 10, min_y: 20, max_x: 110, max_y: 70 };
    let clip = Rect { min_x: 40, min_y: 0, max_x: 90, max_y: 60 };
    let c = get_clipped_rect(r, Some(clip));
    assert_eq!(c, Rect { min_x: 40, min_y: 20, max_x: 90, max_y: 60 });
}

#[test]
fn clipped_rect_disjoint_inverts() {
    // Disjoint rectangles yield inverted extents; nothing normalises them.
    let r = Rect { min_x: 0, min_y: 0, max_x: 10, max_y: 10 };
    let clip = Rect { min_x: 20, min_y: 20, max_x: 30, max_y: 30 };
    let c = get_clipped_rect(r, Some(clip));
    assert_eq!(c, Rect { min_x: 20, min_y: 20, max_x: 10, max_y: 10 });
}

#[test]
fn seek_bar_offset_combines_cursor_and_frames() {
    // Cursor at a quarter of the timeline: 125 px; the track rectangle
    // starts 30 px right of the sequencer rectangle.
    let seq_rect = Rect { min_x: 10, min_y: 0, max_x: 600, max_y: 300 };
    let track_rect = Rect { min_x: 40, min_y: 50, max_x: 540, max_y: 100 };
    let left = update_seek_bar(2000, 8000, 500, seq_rect, None, track_rect, None);
    assert_eq!(left, 155);
}

#[test]
fn seek_bar_offset_respects_clips() {
    let seq_rect = Rect { min_x: 10, min_y: 0, max_x: 600, max_y: 300 };
    let seq_clip = Rect { min_x: 25, min_y: 0, max_x: 600, max_y: 300 };
    let track_rect = Rect { min_x: 40, min_y: 50, max_x: 540, max_y: 100 };
    let track_clip = Rect { min_x: 60, min_y: 50, max_x: 500, max_y: 100 };
    // Clipped minima: track 60, sequencer 25; cursor at 0.
    let left = update_seek_bar(0, 8000, 500, seq_rect, Some(seq_clip), track_rect, Some(track_clip));
    assert_eq!(left, 35);
}
