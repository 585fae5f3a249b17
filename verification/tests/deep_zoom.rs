use fractal_view::orbit::{generate, points, DeepZoom, DeepZoomPoint, PanKeys};

const UNIT: i64 = 65536; // one plane unit in sample scale (2^16)
const ESCAPE_BOUND: i64 = 0x1000_0000; // 4096 plane units in sample scale

fn no_keys() -> PanKeys {
    PanKeys { left: false, right: false, up: false, down: false, zoom_in: false, zoom_out: false }
}

#[test]
fn escaping_point_stops_before_cap() {
    // (2, 2) escapes on the fourth sample: z runs (2,2), (2,10), (-94,42),
    // (7074,-7894), and the doubled narrowed samples follow it exactly.
    let p = DeepZoomPoint::new(64, 2 * UNIT, 2 * UNIT);
    let orbit = generate(&p, 100);
    assert_eq!(orbit.len(), 4);
    assert_eq!(orbit[0], (4 * UNIT, 4 * UNIT));
    assert_eq!(orbit[1], (4 * UNIT, 20 * UNIT));
    assert_eq!(orbit[2], (-188 * UNIT, 84 * UNIT));
    assert_eq!(orbit[3], (14148 * UNIT, -15788 * UNIT));
    // Every sample before the last is inside the escape range; the last is
    // outside it.
    for &(re, im) in &orbit[..3] {
        assert!(-ESCAPE_BOUND <= re && re < ESCAPE_BOUND);
        assert!(-ESCAPE_BOUND <= im && im < ESCAPE_BOUND);
    }
    let (re, im) = orbit[3];
    assert!(re >= ESCAPE_BOUND || re < -ESCAPE_BOUND || im >= ESCAPE_BOUND || im < -ESCAPE_BOUND);
}

#[test]
fn bounded_point_runs_to_cap() {
    // The origin never escapes: exactly `cap` samples, all zero.
    let p = DeepZoomPoint::new(512, 0, 0);
    let orbit = generate(&p, 50);
    assert_eq!(orbit.len(), 50);
    for &s in &orbit {
        assert_eq!(s, (0, 0));
    }
}

#[test]
fn zero_cap_gives_empty_orbit() {
    let p = DeepZoomPoint::new(64, 2 * UNIT, 2 * UNIT);
    let orbit = generate(&p, 0);
    assert_eq!(orbit.len(), 0);
}

#[test]
fn generate_is_deterministic() {
    let p = DeepZoomPoint::new(512, -1 * UNIT, UNIT / 5);
    let a = generate(&p, 2048);
    let b = generate(&p, 2048);
    assert_eq!(a, b);
    // A separately built identical point gives the same orbit too.
    let q = DeepZoomPoint::new(512, -1 * UNIT, UNIT / 5);
    let c = generate(&q, 2048);
    assert_eq!(a, c);
}

#[test]
fn fractional_point_escapes_like_high_precision() {
    // A non-integral point exercises the fixed-point rounding path.
    let p = DeepZoomPoint::new(512, 2 * UNIT + UNIT / 2, 0);
    let orbit = generate(&p, 100);
    // 2.5 escapes quickly: z = 2.5, 8.75, 79.0625, ...
    assert!(orbit.len() < 100);
    assert_eq!(orbit[0], (5 * UNIT, 0));
    let (re, _) = orbit[orbit.len() - 1];
    assert!(re >= ESCAPE_BOUND || re < -ESCAPE_BOUND);
}

#[test]
fn points_reports_valid_length() {
    let p = DeepZoomPoint::new(64, 2 * UNIT, 2 * UNIT);
    let (orbit, len) = points(&p, 100);
    assert_eq!(len, 4);
    assert_eq!(orbit.len(), 4);
}

#[test]
fn update_pans_and_regenerates() {
    let mut d = DeepZoom::new(64, 0, 0);
    assert_eq!(d.zoom_tenths, 10);
    assert_eq!(d.orbit.len(), 0);
    let keys = PanKeys { right: true, ..no_keys() };
    let moved = d.update(keys, UNIT, 10);
    assert!(moved);
    // The point is now (1, 0): its orbit grows 2, 4, 10, 52, 1354, 916660
    // in doubled units and escapes on the sixth sample.
    assert_eq!(d.orbit.len(), 6);
    assert_eq!(d.orbit[0], (2 * UNIT, 0));
    assert_eq!(d.orbit[1], (4 * UNIT, 0));
    assert_eq!(d.orbit[2], (10 * UNIT, 0));
    assert_eq!(d.orbit[3], (52 * UNIT, 0));
    assert_eq!(d.orbit[4], (1354 * UNIT, 0));
    assert_eq!(d.orbit[5], (916660 * UNIT, 0));
}

#[test]
fn update_without_movement_keeps_orbit() {
    let mut d = DeepZoom::new(64, 2 * UNIT, 2 * UNIT);
    let moved = d.update(no_keys(), UNIT, 10);
    assert!(!moved);
    assert_eq!(d.orbit.len(), 0);
}

#[test]
fn update_zoom_keys_step_by_tenths() {
    let mut d = DeepZoom::new(64, 0, 0);
    let keys = PanKeys { zoom_in: true, ..no_keys() };
    d.update(keys, UNIT, 10);
    assert_eq!(d.zoom_tenths, 11);
    let keys = PanKeys { zoom_out: true, ..no_keys() };
    d.update(keys, UNIT, 10);
    d.update(keys, UNIT, 10);
    assert_eq!(d.zoom_tenths, 9);
    // Opposing keys cancel.
    let keys = PanKeys { zoom_in: true, zoom_out: true, ..no_keys() };
    d.update(keys, UNIT, 10);
    assert_eq!(d.zoom_tenths, 9);
}

#[test]
fn opposing_pan_keys_cancel_but_still_regenerate() {
    let mut d = DeepZoom::new(64, 2 * UNIT, 2 * UNIT);
    let keys = PanKeys { left: true, right: true, ..no_keys() };
    let moved = d.update(keys, UNIT, 100);
    assert!(moved);
    // The point is unchanged, so the regenerated orbit is the (2, 2) orbit.
    assert_eq!(d.orbit.len(), 4);
    assert_eq!(d.orbit[0], (4 * UNIT, 4 * UNIT));
}
