use strolle::camera::{Camera, CameraController, PassParams, Viewport};
use strolle::math::{UVec2, Vec3};

fn camera(width: u32, height: u32) -> Camera {
    Camera {
        viewport: Viewport { position: UVec2::new(0, 0), size: UVec2::new(width, height) },
        origin: Vec3::new(0, 0, 0),
        forward: Vec3::new(0, 0, -100),
        right: Vec3::new(10, 0, 0),
        up: Vec3::new(0, 10, 0),
    }
}

#[test]
fn slots_run_along_the_rows() {
    let v = camera(5, 3).viewport;
    assert_eq!(v.screen_to_idx(UVec2::new(0, 0)), 0);
    assert_eq!(v.screen_to_idx(UVec2::new(4, 0)), 4);
    assert_eq!(v.screen_to_idx(UVec2::new(0, 1)), 5);
    assert_eq!(v.screen_to_idx(UVec2::new(4, 2)), 14);
    assert_eq!(v.pixel_count(), 15);
    assert_eq!(camera(5, 3).screen_to_idx(UVec2::new(2, 2)), 12);
}

#[test]
fn slots_and_pixels_match_one_to_one() {
    let v = camera(7, 4).viewport;
    let mut seen = vec![false; 28];
    for y in 0..4 {
        for x in 0..7 {
            let pos = UVec2::new(x, y);
            assert!(v.contains(pos));
            let idx = v.screen_to_idx(pos);
            assert!(idx < 28);
            assert!(!seen[idx as usize]);
            seen[idx as usize] = true;
            assert_eq!(v.idx_to_screen(idx), pos);
        }
    }
    assert!(!v.contains(UVec2::new(7, 0)));
    assert!(!v.contains(UVec2::new(0, 4)));
}

#[test]
fn slot_of_the_largest_viewport_does_not_overflow() {
    let v = camera(u32::MAX, u32::MAX).viewport;
    let last = UVec2::new(u32::MAX - 1, u32::MAX - 1);
    assert_eq!(v.screen_to_idx(last), (u32::MAX as u64 - 1) * u32::MAX as u64 + u32::MAX as u64 - 1);
    assert_eq!(v.pixel_count(), u32::MAX as u64 * u32::MAX as u64);
}

#[test]
fn rays_lean_by_one_step_for_each_pixel() {
    let c = camera(4, 4);
    // (0, 0, -100), brought to unit length
    assert_eq!(c.ray(UVec2::new(2, 2)).direction, Vec3::new(0, 0, -4096));
    assert_eq!(c.ray(UVec2::new(2, 2)).origin, Vec3::new(0, 0, 0));
    // (10, 10, -100), of length 100
    assert_eq!(c.ray(UVec2::new(3, 1)).direction, Vec3::new(409, 409, -4096));
    // (-20, -10, -100), of length 102
    assert_eq!(c.ray(UVec2::new(0, 3)).direction, Vec3::new(-803, -401, -4015));
    // far outside the direction is cut off at the range of a coordinate: (32767, 0, -100)
    assert_eq!(c.ray(UVec2::new(1_000_000, 2)).direction, Vec3::new(4096, 0, -12));
}

#[test]
fn points_on_a_pixels_ray_project_to_the_pixel() {
    let c = camera(4, 4);
    for y in 0..4 {
        for x in 0..4 {
            let pos = UVec2::new(x, y);
            let d = c.ray(pos).direction;
            for t in [1, 3, 7] {
                assert_eq!(c.project(Vec3::new(d.x * t, d.y * t, d.z * t)), Some(pos));
            }
        }
    }
}

#[test]
fn points_behind_or_beside_the_view_project_to_nothing() {
    let c = camera(4, 4);
    assert_eq!(c.project(Vec3::new(0, 0, 100)), None);
    assert_eq!(c.project(Vec3::new(0, 0, 0)), None);
    assert_eq!(c.project(Vec3::new(100, 0, -100)), None);
    assert_eq!(c.project(Vec3::new(0, -100, -100)), None);
    // a camera whose axes lie in one plane sees nothing
    let mut flat = camera(4, 4);
    flat.up = Vec3::new(10, 0, 0);
    assert_eq!(flat.project(Vec3::new(0, 0, -100)), None);
}

#[test]
fn projection_rounds_to_the_nearest_pixel() {
    let c = camera(4, 4);
    // 0.4 pixels right of the middle, 0.6 pixels above
    assert_eq!(c.project(Vec3::new(4, 6, -100)), Some(UVec2::new(2, 1)));
    assert_eq!(c.project(Vec3::new(5, 4, -100)), Some(UVec2::new(3, 2)));
    assert_eq!(c.project(Vec3::new(-4, -4, -100)), Some(UVec2::new(2, 2)));
    assert_eq!(c.project(Vec3::new(-6, -6, -100)), Some(UVec2::new(1, 3)));
}

#[test]
fn controller_hands_out_seed_and_frame() {
    let controller = CameraController { camera: camera(4, 4), frame: 17, seed: 99 };
    assert_eq!(controller.pass_params(), PassParams { seed: 99, frame: 17 });
}
