use render3d::action::{Action, ActionManager};
use render3d::color::{rgb, rgbf, to_web_color};
use render3d::fixed::ONE;
use render3d::fps::FpsCounter;
use render3d::rng::SampleRng;
use render3d::scene::{Light, Sphere};
use render3d::tracer::RayTracing;
use render3d::vector::Vec3;

#[test]
fn action_set_tracks_triggers_and_withdrawals() {
    let mut am = ActionManager::new();
    assert!(!am.has_actions());
    assert!(!am.is_triggerred(Action::CameraMoveForward));
    am.trigger(Action::CameraMoveForward);
    am.trigger(Action::CameraMoveForward);
    assert!(am.is_triggerred(Action::CameraMoveForward));
    assert!(!am.is_triggerred(Action::CameraMoveBackward));
    assert!(am.has_actions());
    am.withdraw(Action::CameraMoveForward);
    assert!(!am.is_triggerred(Action::CameraMoveForward));
    assert!(!am.has_actions());
    am.withdraw(Action::RequestRender);
    assert!(!am.has_actions());
}

#[test]
fn clearing_empties_the_action_set() {
    let mut am = ActionManager::new();
    am.trigger(Action::CameraRotationCW);
    am.trigger(Action::RequestRender);
    am.clear();
    assert!(!am.has_actions());
    assert!(!am.is_triggerred(Action::RequestRender));
}

#[test]
fn idle_renderer_returns_no_frame() {
    let mut r = RayTracing::new(4, 4, 7);
    assert!(r.render().is_none());
    assert!(r.render().is_none());
    assert!(r.render().is_none());
}

#[test]
fn request_render_forces_exactly_one_frame() {
    let mut r = RayTracing::new(2, 2, 7);
    assert!(r.render().is_none());
    r.trigger_action(Action::RequestRender);
    let frame = r.render();
    assert!(frame.is_some());
    assert_eq!(frame.unwrap().len(), 4);
    // With the default action draining, the next call is idle again.
    assert!(r.render().is_none());
}

#[test]
fn persistent_actions_keep_forcing_frames() {
    let mut r = RayTracing::new(2, 2, 7);
    r.set_withdraw_actions_on_render(false);
    r.trigger_action(Action::RequestRender);
    assert!(r.render().is_some());
    assert!(r.render().is_some());
    r.withdraw_action(Action::RequestRender);
    assert!(r.render().is_none());
}

#[test]
fn identical_seeds_render_identical_frames() {
    let mut frames: Vec<Vec<u32>> = Vec::new();
    for _ in 0..2 {
        let mut r = RayTracing::new(4, 4, 42);
        r.put_sphere(Sphere::new(Vec3::new(0, 0, ONE), ONE));
        r.put_light(Light::new(Vec3::new(0, 5 * ONE, 3 * ONE), ONE));
        r.trigger_action(Action::RequestRender);
        frames.push(r.render().unwrap());
    }
    assert_eq!(frames[0].len(), 16);
    assert_eq!(frames[0], frames[1]);
}

#[test]
fn different_seeds_may_jitter_differently() {
    let mut a = SampleRng::new(1);
    let mut b = SampleRng::new(1);
    let mut c = SampleRng::new(2);
    let mut same = true;
    let mut diverged = false;
    for _ in 0..16 {
        let x = a.next_range(-1_000, 1_000);
        let y = b.next_range(-1_000, 1_000);
        let z = c.next_range(-1_000, 1_000);
        assert!(x >= -1_000 && x < 1_000);
        same = same && (x == y);
        diverged = diverged || (x != z);
    }
    assert!(same);
    assert!(diverged);
}

#[test]
fn packed_colors_hold_their_channels() {
    assert_eq!(rgb(0, 0, 0), 0xFF00_0000);
    assert_eq!(rgb(255, 255, 255), 0xFFFF_FFFF);
    assert_eq!(rgb(0x12, 0x34, 0x56), 0xFF12_3456);
    assert_eq!(to_web_color(0xFF12_3456), [0x12, 0x34, 0x56, 0xFF]);
}

#[test]
fn fixed_colors_scale_and_clamp_to_bytes() {
    assert_eq!(rgbf(ONE, 0, 500_000), 0xFFFF_007F);
    assert_eq!(rgbf(2 * ONE, -ONE, ONE), 0xFFFF_00FF);
    assert_eq!(rgbf(0, 0, 0), 0xFF00_0000);
}

#[test]
fn fps_counter_prunes_its_window() {
    let mut fps = FpsCounter::new(1_000_000);
    // A single tick over an empty span reports the saturated rate.
    assert_eq!(fps.tick_at(0), 1_000_000_000);
    let at_half = fps.tick_at(500_000);
    assert_eq!(at_half, 4_000);
    let late = fps.tick_at(2_000_000);
    // The tick at zero has left the window: two ticks over 1.5 seconds.
    assert_eq!(late, 1_333);
}

#[test]
fn camera_moves_forward_by_speed_times_time() {
    let mut r = RayTracing::new(2, 2, 7);
    r.trigger_action(Action::CameraMoveForward);
    // One second ahead along the positive x gaze.
    r.handle_actions(1_000_000);
    assert_eq!(r.camera_pos, Vec3::new(ONE, 0, 0));
    assert_eq!(r.camera_gaze, Vec3::new(ONE, 0, 0));
}

#[test]
fn camera_rotation_keeps_the_gaze_unit() {
    let mut r = RayTracing::new(2, 2, 7);
    r.trigger_action(Action::CameraRotationCW);
    // One second of turning: thirty degrees of yaw.
    r.handle_actions(1_000_000);
    let g = r.camera_gaze;
    assert!(g.is_normalized());
    assert!(g.x > 830_000 && g.x < 900_000);
    assert!(g.y > 460_000 && g.y < 540_000);
    assert!(g.z.abs() < 10_000);
    // Persistent pitching stays clamped away from the poles and unit.
    r.withdraw_action(Action::CameraRotationCW);
    for _ in 0..20 {
        r.trigger_action(Action::CameraRotationUp);
        r.handle_actions(1_000_000);
        assert!(r.camera_gaze.is_normalized());
    }
    assert!(r.camera_gaze.z < ONE);
}

#[test]
fn camera_teleports_and_renormalizes_its_gaze() {
    let mut r = RayTracing::new(2, 2, 7);
    r.move_camera_to(Vec3::new(0, 0, 4 * ONE));
    assert_eq!(r.camera_pos, Vec3::new(0, 0, 4 * ONE));
    r.rotate_camera_to(Vec3::new(3 * ONE, 4 * ONE, 0));
    assert_eq!(r.camera_gaze, Vec3::new(600_000, 800_000, 0));
}
