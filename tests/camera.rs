use pixel_perfect::{
    canvas_to_screen, compute_geometry, device_to_fine, sampling_bias, screen_to_canvas,
    Alignment, CameraState, FinePoint, Offset, Resolution, SamplingBias, Scale, SizingMode,
};

const S3: Scale = Scale { num: 3, den: 1 };

fn camera_at(x: i64, y: i64) -> CameraState {
    let mut c = CameraState::new();
    c.update(Offset { x, y }, 1);
    c
}

#[test]
fn new_camera_is_at_origin() {
    let c = CameraState::new();
    assert_eq!(c.ideal, Offset { x: 0, y: 0 });
    assert_eq!(c.angle, 0);
    assert!(c.freelook);
}

#[test]
fn update_moves_by_input_times_speed() {
    let mut c = CameraState::new();
    c.update(Offset { x: 1, y: -1 }, 100);
    c.update(Offset { x: 1, y: 0 }, 100);
    assert_eq!(c.ideal, Offset { x: 200, y: -100 });
}

#[test]
fn orbit_overrides_input() {
    let mut c = CameraState::new();
    c.toggle_freelook();
    c.update(Offset { x: 1, y: 1 }, 100);
    assert_eq!(c.ideal, Offset { x: 0, y: 0 });
    c.orbit(Offset { x: 3000, y: -2000 }, Offset { x: 5000, y: 5000 }, 52_360);
    assert_eq!(c.ideal, Offset { x: -2000, y: -7000 });
    assert_eq!(c.angle, 52_360);
    c.toggle_freelook();
    c.orbit(Offset { x: 1, y: 1 }, Offset { x: 0, y: 0 }, 1);
    assert_eq!(c.ideal, Offset { x: -2000, y: -7000 });
    assert_eq!(c.angle, 52_360);
}

#[test]
fn reset_returns_to_origin_keeping_angle() {
    let mut c = CameraState::new();
    c.toggle_freelook();
    c.orbit(Offset { x: 123, y: 456 }, Offset { x: 0, y: 0 }, 777);
    c.reset();
    assert_eq!(c.ideal, Offset { x: 0, y: 0 });
    assert_eq!(c.angle, 777);
    assert!(!c.freelook);
}

#[test]
fn world_alignment_rounds_to_virtual_pixels() {
    for (k, expect) in [(1500i64, 2i128), (-1500, -2), (1499, 1), (-1499, -1), (0, 0), (2999, 3)] {
        let a = camera_at(k, 0).aligned_offset(Alignment::WorldPixel, S3);
        assert_eq!(a.x(), expect);
        assert_eq!(a.grid(), Alignment::WorldPixel);
        // whole virtual pixels: a multiple of one virtual pixel in fine units
        assert_eq!(a.to_fine(S3).x % 3000, 0);
    }
}

#[test]
fn screen_alignment_rounds_to_device_pixels() {
    // 1.5 virtual pixels at scale 3 are 4.5 device pixels
    let a = camera_at(1500, -1500).aligned_offset(Alignment::ScreenPixel, S3);
    assert_eq!((a.x(), a.y()), (5, -5));
    // 0.1 virtual pixels at scale 3 are 0.3 device pixels
    let a = camera_at(100, 400).aligned_offset(Alignment::ScreenPixel, S3);
    assert_eq!((a.x(), a.y()), (0, 1));
    let f = a.to_fine(S3);
    assert_eq!((f.x, f.y), (0, 1000));
    assert_eq!(f.y % 1000, 0);
}

#[test]
fn bias_is_fractional_residual_with_vertical_flip() {
    let c = camera_at(1500, 200);
    let a = c.aligned_offset(Alignment::WorldPixel, S3);
    let b = sampling_bias(c.ideal, &a, S3);
    // x: (1.5 - 2) * 3 = -1.5 device pixels, fraction 0.5
    // y: (0.2 - 0) * 3 = 0.6 device pixels, flipped to 0.4
    assert_eq!(b, SamplingBias { x: 500, y: 400, den: 1000 });
}

#[test]
fn bias_stays_in_unit_range() {
    for (k, grid) in [
        (1234i64, Alignment::WorldPixel),
        (-98765, Alignment::WorldPixel),
        (333, Alignment::ScreenPixel),
        (-1, Alignment::ScreenPixel),
        (0, Alignment::WorldPixel),
    ] {
        let scale = Scale { num: 5, den: 2 };
        let c = camera_at(k, -k);
        let a = c.aligned_offset(grid, scale);
        let b = sampling_bias(c.ideal, &a, scale);
        assert_eq!(b.den, 2000);
        assert!(b.x < b.den && b.y < b.den);
    }
    let c = camera_at(3000, 0);
    let a = c.aligned_offset(Alignment::WorldPixel, S3);
    assert_eq!(sampling_bias(c.ideal, &a, S3), SamplingBias { x: 0, y: 0, den: 1000 });
}

#[test]
fn pointer_maps_through_letterbox_and_scale() {
    let g = compute_geometry(Resolution { width: 1000, height: 700 }, Scale { num: 7, den: 1 }, SizingMode::Trim)
        .unwrap();
    let origin = FinePoint { x: 0, y: 0 };
    let p = device_to_fine(10, 14, g.scale);
    assert_eq!(p, FinePoint { x: 10_000, y: 14_000 });
    // (10 - 3) / 7 = 1 and 14 / 7 = 2 virtual pixels
    assert_eq!(screen_to_canvas(p, &g, origin, false), FinePoint { x: 7_000, y: 14_000 });
    // (12 - 3) / 7 = 9/7, floored to 1; 15 / 7 floored to 2
    let p = device_to_fine(12, 15, g.scale);
    assert_eq!(screen_to_canvas(p, &g, origin, false), FinePoint { x: 9_000, y: 15_000 });
    assert_eq!(screen_to_canvas(p, &g, origin, true), FinePoint { x: 7_000, y: 14_000 });
    // left of the canvas: -3/7 floors to -1
    let p = device_to_fine(0, 0, g.scale);
    assert_eq!(screen_to_canvas(p, &g, origin, true), FinePoint { x: -7_000, y: 0 });
}

#[test]
fn pointer_follows_camera_offset() {
    let g = compute_geometry(Resolution { width: 900, height: 900 }, S3, SizingMode::Trim).unwrap();
    let c = camera_at(1500, -200);
    let ideal = c.ideal.to_fine(S3);
    let aligned = c.aligned_offset(Alignment::WorldPixel, S3).to_fine(S3);
    let p = device_to_fine(30, 30, S3);
    // 10 virtual pixels plus 1.5 (ideal) or 2 (aligned)
    assert_eq!(screen_to_canvas(p, &g, ideal, false), FinePoint { x: 34_500, y: 29_400 });
    assert_eq!(screen_to_canvas(p, &g, aligned, false), FinePoint { x: 36_000, y: 30_000 });
    assert_eq!(screen_to_canvas(p, &g, ideal, true), FinePoint { x: 33_000, y: 27_000 });
}

#[test]
fn canvas_screen_round_trip() {
    let g = compute_geometry(Resolution { width: 1001, height: 703 }, Scale { num: 5, den: 2 }, SizingMode::Trim)
        .unwrap();
    let cam = FinePoint { x: 12_345, y: -678 };
    for (x, y) in [(0i128, 0i128), (1, -1), (123_456, 987_654), (-5_000_000, 42)] {
        let p = FinePoint { x, y };
        let s = canvas_to_screen(p, &g, cam);
        assert_eq!(screen_to_canvas(s, &g, cam, false), p);
    }
}
