use fractal_view::region::{aspect_locked_corner, fix_aspect_region, normalize, Region, Vec2I};
use fractal_view::view::{InputEvent, TouchPhase, UniformRegion, ViewState};

fn vec2(x: i64, y: i64) -> Vec2I {
    Vec2I { x, y }
}

fn region(l: i64, t: i64, r: i64, b: i64) -> Region {
    Region { top_left: vec2(l, t), bottom_right: vec2(r, b) }
}

fn default_region() -> Region {
    region(-2_200_000, -1_400_000, 600_000, 1_400_000)
}

#[test]
fn map_center_of_viewport() {
    // Pixel 300 of 600 maps to the middle of the default x span.
    assert_eq!(fractal_view::coord::map(300, 0, 600, -2_200_000, 600_000), -800_000);
    // The edges map to the edges.
    assert_eq!(fractal_view::coord::map(0, 0, 600, -2_200_000, 600_000), -2_200_000);
    assert_eq!(fractal_view::coord::map(600, 0, 600, -2_200_000, 600_000), 600_000);
    // A quarter of the way down the default y span.
    assert_eq!(fractal_view::coord::map(150, 0, 600, -1_400_000, 1_400_000), -700_000);
}

#[test]
fn normalize_reorders_corners() {
    let n = normalize(region(500, -200, -300, 400));
    assert_eq!(n, region(-300, -200, 500, 400));
    // Already ordered regions stay as they are.
    assert_eq!(normalize(region(-300, -200, 500, 400)), region(-300, -200, 500, 400));
}

#[test]
fn commit_normalizes_drag() {
    let mut v = ViewState::new();
    v.dragging = true;
    v.select_region = region(500, -200, -300, 400);
    v.commit();
    assert_eq!(v.draw_region, region(-300, -200, 500, 400));
    assert!(!v.dragging);
    assert_eq!(v.history.len(), 1);
    assert_eq!(v.history[0], default_region());
}

#[test]
fn aspect_lock_square_viewport() {
    // Anchor at the origin, cursor at (300, 400): the distance is 500, so
    // the locked half-extent is isqrt(250000 / 2) = 353 on each axis for a
    // square viewport.
    let br = aspect_locked_corner(vec2(0, 0), vec2(300, 400), 1, 1);
    assert_eq!(br, vec2(353, 353));
    // The sign follows the cursor's direction.
    let br = aspect_locked_corner(vec2(0, 0), vec2(-300, 400), 1, 1);
    assert_eq!(br, vec2(-353, 353));
    let br = aspect_locked_corner(vec2(0, 0), vec2(-300, -400), 1, 1);
    assert_eq!(br, vec2(-353, -353));
}

#[test]
fn aspect_lock_wide_viewport() {
    // A 2:1 viewport doubles the width relative to the height.
    let br = aspect_locked_corner(vec2(100, 100), vec2(400, 500), 2, 1);
    let w = br.x - 100;
    let h = br.y - 100;
    assert_eq!(h, 353);
    assert_eq!(w, 706);
    // Width over height matches the viewport ratio to within one unit.
    assert!(1 * w <= 2 * h && 2 * h < 1 * (w + 1));
}

#[test]
fn aspect_lock_ratio_within_one_unit() {
    // An 800x600 viewport: the locked rectangle's width over height matches
    // 800/600 to within one unit of width.
    let br = aspect_locked_corner(vec2(0, 0), vec2(300, 400), 800, 600);
    let w = br.x;
    let h = br.y;
    assert_eq!(h, 353);
    assert_eq!(w, 470);
    assert!(600 * w <= 800 * h && 800 * h < 600 * (w + 1));
}

#[test]
fn fix_aspect_derives_width_from_height() {
    // A 2:1 viewport: the width becomes twice the 2.8-unit height.
    let r = fix_aspect_region(default_region(), 1200, 600);
    assert_eq!(r.top_left, vec2(-2_200_000, -1_400_000));
    assert_eq!(r.bottom_right, vec2(3_400_000, 1_400_000));
    // A square viewport keeps the default region as it is.
    let r = fix_aspect_region(default_region(), 600, 600);
    assert_eq!(r, default_region());
}

#[test]
fn history_round_trip_restores_default() {
    let mut v = ViewState::new();
    for i in 0..3 {
        v.dragging = true;
        v.select_region = region(-100_000 * (i + 1), -50_000, 200_000, 150_000);
        v.commit();
    }
    assert_eq!(v.history.len(), 3);
    v.back();
    v.back();
    v.back();
    assert_eq!(v.draw_region, default_region());
    assert_eq!(v.history.len(), 0);
    // Back on empty history is a no-op.
    let before = v.draw_region;
    v.back();
    assert_eq!(v.draw_region, before);
    assert_eq!(v.history.len(), 0);
}

#[test]
fn reset_is_fresh_start() {
    let mut v = ViewState::new();
    v.dragging = true;
    v.select_region = region(0, 0, 100, 100);
    v.commit();
    v.scroll(0, 3);
    v.reset(600, 600);
    assert_eq!(v.draw_region, default_region());
    assert_eq!(v.history.len(), 0);
    // Reset after reset changes nothing.
    v.reset(600, 600);
    assert_eq!(v.draw_region, default_region());
    assert_eq!(v.history.len(), 0);
    // Iterations are untouched by reset.
    assert_eq!(v.iterations, 542);
}

#[test]
fn scroll_steps_and_clamp() {
    let mut v = ViewState::new();
    assert_eq!(v.iterations, 512);
    v.scroll(3, 2);
    assert_eq!(v.iterations, 535);
    // Scroll down hard enough to drive the raw counter negative.
    v.scroll(0, -100);
    assert_eq!(v.iterations, -465);
    let u = v.uniform_snapshot();
    assert_eq!(u.iterations, 0);
    // Back above zero, the snapshot shows the raw counter.
    v.scroll(5, 50);
    assert_eq!(v.iterations, 40);
    assert_eq!(v.uniform_snapshot().iterations, 40);
}

#[test]
fn snapshot_shows_selection_while_dragging() {
    let mut v = ViewState::new();
    v.select_region = region(1, 2, 3, 4);
    let idle = v.uniform_snapshot();
    assert_eq!(idle.select_top_left, v.draw_region.top_left);
    assert_eq!(idle.select_bottom_right, v.draw_region.bottom_right);
    assert_eq!(v.current_display_region(), v.draw_region);
    v.dragging = true;
    let live = v.uniform_snapshot();
    assert_eq!(live.select_top_left, vec2(1, 2));
    assert_eq!(live.select_bottom_right, vec2(3, 4));
    assert_eq!(v.current_display_region(), region(1, 2, 3, 4));
}

#[test]
fn uniform_region_default_matches_fresh_state() {
    let u = UniformRegion::default();
    assert_eq!(u.draw_top_left, vec2(-2_200_000, -1_400_000));
    assert_eq!(u.draw_bottom_right, vec2(600_000, 1_400_000));
    assert_eq!(u.select_top_left, u.draw_top_left);
    assert_eq!(u.select_bottom_right, u.draw_bottom_right);
    assert_eq!(u.iterations, 512);
}

#[test]
fn event_driven_drag_and_back() {
    let mut v = ViewState::new();
    // Hold shift: drag without the aspect constraint.
    v.event(InputEvent::Shift { pressed: true }, 600, 600);
    v.event(InputEvent::CursorMoved { x: 150, y: 150 }, 600, 600);
    assert_eq!(v.select_region.top_left, vec2(-1_500_000, -700_000));
    v.event(InputEvent::Primary { pressed: true }, 600, 600);
    assert!(v.dragging);
    assert_eq!(v.select_region.bottom_right, v.select_region.top_left);
    v.event(InputEvent::CursorMoved { x: 300, y: 300 }, 600, 600);
    assert_eq!(v.select_region.bottom_right, vec2(-800_000, 0));
    v.event(InputEvent::Primary { pressed: false }, 600, 600);
    assert_eq!(v.draw_region, region(-1_500_000, -700_000, -800_000, 0));
    assert_eq!(v.history.len(), 1);
    // The secondary button goes back to the previous region.
    v.event(InputEvent::SecondaryReleased, 600, 600);
    assert_eq!(v.draw_region, default_region());
    assert_eq!(v.history.len(), 0);
}

#[test]
fn touch_drag_commits_like_pointer_drag() {
    let mut v = ViewState::new();
    v.event(InputEvent::Shift { pressed: true }, 600, 600);
    v.event(InputEvent::Touch { phase: TouchPhase::Started, x: 150, y: 150 }, 600, 600);
    assert!(v.dragging);
    v.event(InputEvent::Touch { phase: TouchPhase::Moved, x: 300, y: 300 }, 600, 600);
    v.event(InputEvent::Touch { phase: TouchPhase::Ended, x: 300, y: 300 }, 600, 600);
    assert!(!v.dragging);
    assert_eq!(v.draw_region, region(-1_500_000, -700_000, -800_000, 0));
}

#[test]
fn resize_refits_aspect() {
    let mut v = ViewState::new();
    v.event(InputEvent::Resized, 1200, 600);
    assert_eq!(v.draw_region, region(-2_200_000, -1_400_000, 3_400_000, 1_400_000));
    v.event(InputEvent::FixAspectKey, 600, 600);
    assert_eq!(v.draw_region, default_region());
}
