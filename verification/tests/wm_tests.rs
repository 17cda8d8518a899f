use xfce_rs::error::{ErrorCategory, ErrorTracker};
use xfce_rs::placement::{cascade_fits, cascade_placement, center_window};
use xfce_rs::wm::client::Client;
use xfce_rs::wm::focus::{FocusOutcome, FocusSteps};
use xfce_rs::wm::geometry::{
    gravitate, is_double_click, plan_configure_request, plan_configure_request_checked, resize_dims, snap_geometry, snap_zone_for_pointer, SnapZone,
    CONFIG_HEIGHT, CONFIG_WIDTH, CONFIG_X, CONFIG_Y,
};
use xfce_rs::wm::ops::{StateAtoms, WindowConfig};
use xfce_rs::wm::settings::{Settings, SettingsManager};
use xfce_rs::wm::state::WindowManager;

fn framed(w: u32, x: i16, y: i16, width: u16, height: u16, user_time: u32) -> Client {
    let mut c = Client::new(w, x, y, width, height);
    c.frame = Some(w + 1000);
    c.hints.user_time = user_time;
    c
}

fn atoms() -> StateAtoms {
    StateAtoms {
        maximized_vert: 1,
        maximized_horz: 2,
        fullscreen: 3,
        hidden: 4,
        focused: 5,
        demands_attention: 6,
        skip_taskbar: 7,
        skip_pager: 8,
        shaded: 9,
        above: 10,
        below: 11,
        modal: 12,
        sticky: 13,
    }
}

#[test]
fn center_and_cascade() {
    assert_eq!(center_window(1920, 1080, 800, 600), (560, 240));
    assert_eq!(center_window(800, 600, 1000, 700), (0, 0));
    assert_eq!(cascade_placement(1920, 1080, 400, 300, &[]), (20, 40));
    assert_eq!(cascade_placement(1920, 1080, 400, 300, &[(20, 40), (45, 65)]), (70, 90));
    assert_eq!(cascade_placement(500, 400, 450, 300, &[(20, 40), (45, 65)]), (80, 100));
}

#[test]
fn cascade_has_no_place_once_the_walk_leaves_the_coordinate_range() {
    assert!(cascade_fits(1920, 1080, 400, 300, &[]));
    let diagonal: Vec<(i16, i16)> = (0..1310).map(|k: i32| ((20 + 25 * k) as i16, (40 + 25 * k) as i16)).collect();
    assert!(!cascade_fits(1920, 1080, 400, 300, &diagonal));
    let few: Vec<(i16, i16)> = diagonal[..654].to_vec();
    assert!(cascade_fits(1920, 1080, 400, 300, &few));
    let far_away: Vec<(i16, i16)> = (0..1000).map(|k: i32| (-30000 + k as i16, -30000)).collect();
    assert!(cascade_fits(1920, 1080, 400, 300, &far_away));
    assert_eq!(cascade_placement(1920, 1080, 400, 300, &far_away), (20, 40));
}

#[test]
fn cascade_never_lands_on_an_existing_window() {
    let origins = [(30i16, 50i16)];
    let (x, y) = cascade_placement(100, 100, 80, 80, &origins);
    for &(ex, ey) in origins.iter() {
        assert!(!((x - ex).abs() < 15 && (y - ey).abs() < 15));
    }
    assert_eq!((x, y), (55, 75));
}

#[test]
fn gravity_round_trip() {
    for g in 1..=10 {
        let (mut x, mut y) = (100i16, 200i16);
        gravitate(g, 1, 4, 24, &mut x, &mut y);
        gravitate(g, -1, 4, 24, &mut x, &mut y);
        assert_eq!((x, y), (100, 200));
    }
    let (mut x, mut y) = (100i16, 200i16);
    gravitate(1, 1, 4, 24, &mut x, &mut y);
    assert_eq!((x, y), (104, 228));
}

#[test]
fn snapping_and_resizing() {
    assert_eq!(snap_zone_for_pointer(0, 300, 1920, 1080), SnapZone::Left);
    assert_eq!(snap_zone_for_pointer(1919, 300, 1920, 1080), SnapZone::Right);
    assert_eq!(snap_zone_for_pointer(500, 0, 1920, 1080), SnapZone::Top);
    assert_eq!(snap_zone_for_pointer(500, 500, 1920, 1080), SnapZone::NoZone);
    let g = snap_geometry(SnapZone::Right, 0, 30, 1920, 1050).unwrap();
    assert_eq!((g.frame_x, g.frame_y, g.frame_width, g.frame_height), (960, 30, 960, 1050));
    assert_eq!((g.client_width, g.client_height), (952, 1018));
    assert!(snap_geometry(SnapZone::Top, 0, 0, 100, 100).is_none());
    assert_eq!(resize_dims(300, 200, -250, 10), (100, 210));
    assert!(is_double_click(7, 1000, 7, 700));
    assert!(!is_double_click(7, 1200, 7, 700));
    assert!(is_double_click(7, 100, 7, u32::MAX - 50));
}

#[test]
fn configure_request_of_maximized_window_keeps_geometry() {
    let mut c = framed(1, 100, 100, 800, 600, 1);
    c.state.is_maximized = true;
    let p = plan_configure_request(&c, CONFIG_X | CONFIG_Y | CONFIG_WIDTH | CONFIG_HEIGHT, 5, 5, 10, 10);
    assert!(!p.set_x && !p.set_y && !p.set_width && !p.set_height);
}

#[test]
fn configure_request_with_same_geometry_changes_nothing() {
    let c = framed(1, 100, 100, 800, 600, 1);
    let p = plan_configure_request(&c, CONFIG_WIDTH | CONFIG_HEIGHT, 0, 0, 800, 600);
    assert!(!p.set_x && !p.set_y && !p.set_width && !p.set_height);
    let q = plan_configure_request(&c, CONFIG_WIDTH, 0, 0, 640, 600);
    assert!(q.set_width && q.width == 640);
}

#[test]
fn maximize_and_restore() {
    let mut wm = WindowManager::new(1, 1920, 1080);
    wm.add_client(framed(10, 100, 120, 800, 600, 5));
    let cfg = wm.toggle_maximize(10, (0, 0, 1920, 1080)).unwrap();
    assert_eq!(cfg, WindowConfig { frame_x: 0, frame_y: 0, frame_width: 1920, frame_height: 1080, client_width: 1912, client_height: 1048 });
    let back = wm.toggle_maximize(10, (0, 0, 1920, 1080)).unwrap();
    assert_eq!((back.frame_x, back.frame_y, back.client_width, back.client_height), (100, 120, 800, 600));
    assert!(wm.toggle_maximize(99, (0, 0, 1920, 1080)).is_none());
    let fs = wm.toggle_fullscreen(10).unwrap();
    assert_eq!((fs.frame_width, fs.frame_height), (1920, 1080));
    assert_eq!(wm.toggle_minimize(10), Some(true));
    assert_eq!(wm.toggle_minimize(10), Some(false));
}

#[test]
fn net_wm_state_list_and_requests() {
    let mut wm = WindowManager::new(1, 1920, 1080);
    wm.add_client(framed(10, 0, 0, 100, 100, 5));
    let a = atoms();
    let req = wm.apply_state_request(10, 1, a.above, &a);
    assert!(!req.toggle_fullscreen && !req.toggle_maximize);
    let req = wm.apply_state_request(10, 2, a.fullscreen, &a);
    assert!(req.toggle_fullscreen);
    assert_eq!(wm.net_wm_state_atoms(10, &a), Some(vec![a.above]));
    wm.apply_state_request(10, 1, a.below, &a);
    assert_eq!(wm.net_wm_state_atoms(10, &a), Some(vec![a.below]));
    assert_eq!(wm.net_wm_state_atoms(11, &a), None);
}

#[test]
fn focus_goes_to_new_window_and_modal() {
    let mut wm = WindowManager::new(1, 1920, 1080);
    wm.add_client(framed(10, 0, 0, 100, 100, 100));
    wm.add_client(framed(20, 0, 0, 100, 100, 200));
    assert_eq!(wm.mru_stack, vec![20, 10]);
    assert_eq!(wm.focus_window(20), FocusOutcome::Focused { target: 20, accepts_input: true });
    assert_eq!(wm.confirm_focus(20), None);
    let mut dialog = framed(30, 0, 0, 50, 50, 300);
    dialog.hints.transient_for = Some(20);
    dialog.state.is_modal = true;
    wm.add_client(dialog);
    assert_eq!(wm.focus_window(20), FocusOutcome::Focused { target: 30, accepts_input: true });
    assert_eq!(wm.focus_window(99), FocusOutcome::NotManaged);
}

#[test]
fn focus_follows_modal_chain_to_innermost() {
    let mut wm = WindowManager::new(1, 1920, 1080);
    wm.add_client(framed(10, 0, 0, 100, 100, 100));
    let mut first = framed(20, 0, 0, 50, 50, 200);
    first.hints.transient_for = Some(10);
    first.state.is_modal = true;
    wm.add_client(first);
    let mut second = framed(30, 0, 0, 40, 40, 300);
    second.hints.transient_for = Some(20);
    second.state.is_modal = true;
    wm.add_client(second);
    assert_eq!(wm.focus_window(10), FocusOutcome::Focused { target: 30, accepts_input: true });
    assert_eq!(wm.mru_stack[0], 30);
    assert_eq!(wm.mru_stack.iter().filter(|&&w| w == 30).count(), 1);
}

#[test]
fn focus_on_modals_naming_each_other_ends() {
    let mut wm = WindowManager::new(1, 1920, 1080);
    let mut a = framed(10, 0, 0, 100, 100, 100);
    a.hints.transient_for = Some(20);
    a.state.is_modal = true;
    let mut b = framed(20, 0, 0, 100, 100, 200);
    b.hints.transient_for = Some(10);
    b.state.is_modal = true;
    wm.add_client(a);
    wm.add_client(b);
    assert_eq!(wm.focus_window(10), FocusOutcome::Focused { target: 10, accepts_input: true });
}

#[test]
fn focus_steps_follow_protocols_and_input_hint() {
    let granted = FocusOutcome::Focused { target: 30, accepts_input: true };
    assert_eq!(granted.steps(&[5, 7], 7), FocusSteps { take_focus: Some(30), input_focus: Some(30) });
    assert_eq!(granted.steps(&[5], 7), FocusSteps { take_focus: None, input_focus: Some(30) });
    let no_input = FocusOutcome::Focused { target: 30, accepts_input: false };
    assert_eq!(no_input.steps(&[7], 7), FocusSteps { take_focus: Some(30), input_focus: None });
    let refused = FocusOutcome::Prevented { target: 30 };
    assert_eq!(refused.steps(&[7], 7), FocusSteps { take_focus: None, input_focus: None });
    assert_eq!(FocusOutcome::NotManaged.steps(&[7], 7), FocusSteps { take_focus: None, input_focus: None });
}

#[test]
fn configure_request_places_frame_at_requested_point() {
    let mut wm = WindowManager::new(1, 1920, 1080);
    wm.add_client(framed(1, 200, 200, 800, 600, 1));
    let i = wm.find_client(1).unwrap();
    let p = plan_configure_request(&wm.clients[i], CONFIG_X | CONFIG_Y, 100, 100, 800, 600);
    assert!(p.set_x && p.set_y && !p.set_width && !p.set_height);
    assert_eq!((p.frame_x, p.frame_y), (100, 100));
    assert_eq!((p.x, p.y), (104, 128));
    wm.apply_configure_plan(i, &p);
    let c = &wm.clients[i];
    assert_eq!((c.x, c.y, c.width, c.height), (100, 100, 800, 600));
}

#[test]
fn focus_stealing_is_prevented_for_old_timestamps() {
    let mut wm = WindowManager::new(1, 1920, 1080);
    wm.add_client(framed(10, 0, 0, 100, 100, 100));
    wm.add_client(framed(20, 0, 0, 100, 100, 200));
    // 10 was last used before the window in front: refused.
    assert_eq!(wm.focus_window(10), FocusOutcome::Prevented { target: 10 });
    assert_eq!(wm.mru_stack, vec![20, 10]);
    wm.add_client(framed(30, 0, 0, 100, 100, 0));
    // 30 never had user interaction (time 0): refused.
    wm.focus_window(20);
    assert_eq!(wm.focus_window(30), FocusOutcome::Prevented { target: 30 });
    wm.add_client(framed(40, 0, 0, 100, 100, 900));
    assert_eq!(wm.focus_window(20), FocusOutcome::Prevented { target: 20 });
    assert_eq!(wm.mru_stack[0], 40);
}

#[test]
fn unmanage_gives_next_focus() {
    let mut wm = WindowManager::new(1, 1920, 1080);
    wm.add_client(framed(10, 0, 0, 100, 100, 1));
    wm.add_client(framed(20, 0, 0, 100, 100, 2));
    let (c, next) = wm.unmanage_window(20).unwrap();
    assert_eq!(c.window, 20);
    assert_eq!(next, Some(10));
    assert!(wm.unmanage_window(20).is_none());
    assert_eq!(wm.mru_stack, vec![10]);
}

#[test]
fn error_health() {
    let mut t = ErrorTracker::new();
    assert!(t.health_check().is_healthy);
    for _ in 0..5 {
        t.record_compositor_error("paint", "broken");
    }
    let h = t.health_check();
    assert_eq!(h.compositor_errors, 5);
    assert!(!h.is_healthy);
    let r: Result<u8, &str> = Err("x");
    assert_eq!(t.warn_if_failed(r, "op", ErrorCategory::Window), None);
    assert_eq!(t.health_check().window_errors, 1);
    assert_eq!(t.warn_if_failed(Ok::<u8, &str>(3), "op", ErrorCategory::X11), Some(3));
}

#[test]
fn wm_settings_default_maximize() {
    let s = Settings::default();
    assert!(s.double_click_maximizes());
    let mut m = SettingsManager::new();
    m.apply_double_click_action(Some("shade".to_string()));
    assert!(!m.current.double_click_maximizes());
}

#[test]
fn configure_requests_far_out_are_left_alone() {
    let c = framed(1, 100, 100, 800, 600, 1);
    let p = plan_configure_request_checked(&c, CONFIG_X | CONFIG_WIDTH, 200, 0, 640, 600).unwrap();
    assert!(p.set_x && p.set_width && p.width == 640);
    assert_eq!(p, plan_configure_request(&c, CONFIG_X | CONFIG_WIDTH, 200, 0, 640, 600));
    let far = plan_configure_request_checked(&c, CONFIG_X, 30000, 0, 800, 600).unwrap();
    assert_eq!((far.frame_x, far.x), (30000, 30004));
    let wide = plan_configure_request_checked(&c, CONFIG_WIDTH, 0, 0, 40000, 600).unwrap();
    assert!(wide.set_width && wide.width == 40000 && !wide.set_x);
    assert!(plan_configure_request_checked(&c, CONFIG_X, 32766, 0, 800, 600).is_none());
    let edge = framed(2, 32760, 100, 800, 600, 1);
    assert!(plan_configure_request_checked(&edge, CONFIG_Y, 0, 50, 800, 600).is_none());
}
