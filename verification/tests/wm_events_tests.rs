use xfce_rs::frame::FramePart;
use xfce_rs::wm::client::{Client, ALL_WORKSPACES, LAYER_DOCK, LAYER_NORMAL, LAYER_ONTOP};
use xfce_rs::wm::draw::{decoration_plan, FillRect};
use xfce_rs::wm::geometry::SnapZone;
use xfce_rs::wm::hints::{
    initial_state, new_decoration, new_layer, parse_motif_hints, parse_size_hints, parse_wm_hints, window_kind, TypeAtoms,
};
use xfce_rs::wm::layout::SnapOutcome;
use xfce_rs::wm::manage::ManageInput;
use xfce_rs::wm::ops::StateAtoms;
use xfce_rs::wm::pointer::{cursor_for_part, drag_in_range, CursorShape, DragEffect, PressAction};
use xfce_rs::wm::props::PropertyUpdate;
use xfce_rs::wm::ping::{PingMonitor, PingRound, PING_TIMEOUT_MS};
use xfce_rs::wm::state::{DragState, UnmanagedWindow, WindowManager};

fn framed(w: u32, x: i16, y: i16, width: u16, height: u16) -> Client {
    let mut c = Client::new(w, x, y, width, height);
    c.frame = Some(w + 1000);
    c.hints.user_time = 1;
    c
}

fn state_atoms() -> StateAtoms {
    StateAtoms {
        maximized_vert: 1,
        maximized_horz: 2,
        fullscreen: 3,
        hidden: 4,
        focused: 5,
        demands_attention: 6,
        skip_taskbar: 7,
        skip_pager: 8,
        shaded: 9,
        above: 10,
        below: 11,
        modal: 12,
        sticky: 13,
    }
}

fn type_atoms() -> TypeAtoms {
    TypeAtoms { dock: 20, desktop: 21, dialog: 22, splash: 23, utility: 24, toolbar: 25, menu: 26, notification: 27 }
}

fn input(w: u32, x: i16, y: i16) -> ManageInput {
    ManageInput {
        window: w,
        name: "app".to_string(),
        desktop: None,
        x,
        y,
        width: 400,
        height: 300,
        window_types: vec![],
        states: vec![],
        transient_for: None,
        wm_hints: vec![],
        client_leader: None,
        user_time_window: None,
        startup_id: None,
        user_time: 10,
        pid: 42,
        frame_extents: vec![],
        has_csd_hint: false,
        size_hints: vec![],
        motif_hints: vec![],
        sync_counter: None,
        is_shaped: false,
        opacity: 0xFFFF_FFFF,
    }
}

#[test]
fn hint_decoding() {
    assert_eq!(parse_wm_hints(&[]), (None, true, false));
    assert_eq!(parse_wm_hints(&[1 | 64 | 256, 0, 1, 0, 0, 0, 0, 0, 77]), (Some(77), false, true));
    assert_eq!(parse_wm_hints(&[64]), (Some(0), true, false));
    assert_eq!(parse_motif_hints(&[2, 0, 0]), (false, false));
    assert_eq!(parse_motif_hints(&[0, 0, 0]), (true, true));
    assert_eq!(parse_motif_hints(&[2, 0]), (true, true));
    let mut sh = vec![0u32; 18];
    sh[0] = 16 | 256;
    sh[5] = 100;
    sh[6] = 50;
    sh[17] = 5;
    assert_eq!(parse_size_hints(&sh), (5, 100, 50, 0, 0));
    assert_eq!(parse_size_hints(&sh[..14]), (1, 0, 0, 0, 0));
}

#[test]
fn classification() {
    let ta = type_atoms();
    let sa = state_atoms();
    let dock = window_kind(&[20], &ta);
    let st = initial_state(&[], &sa);
    assert_eq!(new_decoration(&dock, &st, (true, true), false), (0, 0));
    assert_eq!(new_layer(&dock, &st), LAYER_DOCK);
    let util = window_kind(&[24], &ta);
    assert_eq!(new_decoration(&util, &st, (true, true), false), (4, 0));
    let normal = window_kind(&[], &ta);
    assert_eq!(new_decoration(&normal, &st, (true, true), false), (4, 24));
    let above = initial_state(&[10, 2], &sa);
    assert!(above.is_above && above.is_maximized);
    assert_eq!(new_layer(&normal, &above), LAYER_ONTOP);
    assert_eq!(new_layer(&normal, &st), LAYER_NORMAL);
}

#[test]
fn workarea_and_placement() {
    let mut wm = WindowManager::new(1, 1920, 1080);
    let mut panel = framed(5, 0, 1040, 1920, 40);
    panel.hints.strut = Some(vec![0, 0, 0, 40]);
    wm.add_client(panel);
    assert_eq!(wm.calculate_workarea(), (0, 0, 1920, 1040));
    let mut top = framed(6, 0, 0, 1920, 30);
    top.hints.strut = Some(vec![10, 0, 30, 0]);
    wm.add_client(top);
    assert_eq!(wm.calculate_workarea(), (10, 30, 1910, 1010));
    assert_eq!(wm.place_window(400, 300), Some((30, 70)));
}

#[test]
fn snapping_a_window() {
    let mut wm = WindowManager::new(1, 1920, 1080);
    wm.add_client(framed(10, 300, 300, 640, 480));
    match wm.apply_snap(10, SnapZone::Left) {
        SnapOutcome::Snapped { frame, config } => {
            assert_eq!(frame, 1010);
            assert_eq!((config.frame_x, config.frame_y, config.frame_width, config.frame_height), (0, 0, 960, 1080));
            assert_eq!((config.client_width, config.client_height), (952, 1048));
        },
        other => panic!("unexpected {:?}", other),
    }
    assert_eq!(wm.apply_snap(10, SnapZone::NoZone), SnapOutcome::Unchanged);
    assert!(matches!(wm.apply_snap(10, SnapZone::Top), SnapOutcome::Maximize(Some(_))));
    assert_eq!(wm.apply_snap(99, SnapZone::Left), SnapOutcome::Unchanged);
}

#[test]
fn workspace_switch() {
    let mut wm = WindowManager::new(1, 1920, 1080);
    let mut a = framed(10, 0, 0, 100, 100);
    a.workspace = 1;
    let mut b = framed(20, 0, 0, 100, 100);
    b.workspace = ALL_WORKSPACES;
    let c = framed(30, 0, 0, 100, 100);
    wm.add_client(a);
    wm.add_client(b);
    wm.add_client(c);
    assert!(wm.switch_workspace(0).is_none());
    let s = wm.switch_workspace(1).unwrap();
    assert_eq!(s.map, vec![(1010, 10)]);
    assert_eq!(s.unmap, vec![1030]);
    assert_eq!(s.focus, Some(20));
    assert_eq!(wm.current_workspace, 1);
}

#[test]
fn click_drag_and_release() {
    let mut wm = WindowManager::new(1, 1920, 1080);
    wm.add_client(framed(10, 100, 100, 400, 300));
    assert_eq!(wm.frame_click(10, FramePart::TitleBar, 1000, 150, 110, (100, 100, 408, 332)), PressAction::StartMove);
    assert_eq!(wm.drag_motion(170, 140), DragEffect::Move { window: 10, frame: Some(1010), x: 120, y: 130 });
    assert_eq!(wm.drag_motion(0, 140), DragEffect::Move { window: 10, frame: Some(1010), x: -50, y: 130 });
    assert_eq!(wm.button_release(1), (true, Some((10, SnapZone::Left))));
    assert_eq!(wm.drag_state, DragState::Idle);
    assert_eq!(wm.button_release(1), (false, None));
    // a second click within 400 ms on the title bar maximizes
    match wm.frame_click(10, FramePart::TitleBar, 1200, 150, 110, (0, 0, 0, 0)) {
        PressAction::DoubleClick { maximized } => assert!(maximized.is_some()),
        other => panic!("unexpected {:?}", other),
    }
    assert_eq!(wm.frame_click(10, FramePart::CloseButton, 5000, 0, 0, (0, 0, 0, 0)), PressAction::Close);
    assert_eq!(wm.frame_click(10, FramePart::CornerBottomRight, 9000, 500, 400, (0, 0, 400, 300)), PressAction::StartResize);
    match wm.drag_motion(450, 300) {
        DragEffect::Resize { client_width, client_height, sync, .. } => {
            assert_eq!((client_width, client_height), (350, 200));
            assert_eq!(sync, None);
        },
        other => panic!("unexpected {:?}", other),
    }
    assert_eq!(wm.button_release(1), (true, None));
}

#[test]
fn resize_waits_for_the_client_counter() {
    let mut wm = WindowManager::new(1, 1920, 1080);
    let mut c = framed(10, 100, 100, 400, 300);
    c.sync.counter = Some(77);
    c.sync.alarm = Some(88);
    wm.add_client(c);
    assert_eq!(wm.frame_click(10, FramePart::CornerBottomRight, 9000, 500, 400, (0, 0, 400, 300)), PressAction::StartResize);
    match wm.drag_motion(450, 300) {
        DragEffect::Resize { client_width, client_height, sync, .. } => {
            assert_eq!((client_width, client_height), (350, 200));
            assert!(sync.is_some());
        },
        other => panic!("unexpected {:?}", other),
    }
    // the request is still outstanding: no resize
    assert_eq!(wm.drag_motion(480, 320), DragEffect::Nothing);
    let i = wm.find_client(10).unwrap();
    assert_eq!((wm.clients[i].width, wm.clients[i].height), (350, 200));
    // the client's counter arrives: the next motion resizes again
    assert_eq!(wm.sync_alarm_fired(88), Some(10));
    match wm.drag_motion(480, 320) {
        DragEffect::Resize { client_width, client_height, .. } => assert_eq!((client_width, client_height), (380, 220)),
        other => panic!("unexpected {:?}", other),
    }
}

#[test]
fn xsync_requests() {
    let mut wm = WindowManager::new(1, 1920, 1080);
    let mut c = framed(10, 0, 0, 100, 100);
    c.sync.counter = Some(77);
    c.sync.alarm = Some(88);
    c.sync.next_value = 0xFFFF_FFFF;
    wm.add_client(c);
    let v = wm.xsync_request(10).unwrap();
    assert_eq!((v.lo, v.hi), (0, 1));
    assert!(wm.xsync_request(10).is_none());
    assert_eq!(wm.sync_alarm_fired(88), Some(10));
    assert!(wm.xsync_request(10).is_some());
    assert_eq!(wm.sync_alarm_fired(99), None);
}

#[test]
fn property_updates_and_paint_list() {
    let mut wm = WindowManager::new(1, 1920, 1080);
    let mut a = framed(10, 0, 0, 100, 100);
    a.content_picture = Some(500);
    let mut b = framed(20, 50, 50, 200, 100);
    b.content_picture = Some(600);
    b.state.layer = LAYER_ONTOP;
    wm.add_client(b);
    wm.add_client(a);
    assert_eq!(wm.apply_property(10, PropertyUpdate::Opacity(7)), Some(true));
    assert_eq!(wm.apply_property(99, PropertyUpdate::Opacity(7)), None);
    assert_eq!(wm.apply_property(20, PropertyUpdate::Modal(true)), Some(false));
    let list = wm.paint_list();
    let contents: Vec<u32> = list.iter().map(|p| p.content).collect();
    assert_eq!(contents, vec![500, 600]);
    assert_eq!(list[0].opacity, 7);
    assert_eq!((list[0].width, list[0].height), (108, 132));
    assert_eq!(wm.property_target(10), Some(10));
    assert_eq!(wm.property_target(11), None);
}

#[test]
fn planning_a_new_window() {
    let wm = WindowManager::new(1, 1920, 1080);
    let ta = type_atoms();
    let sa = state_atoms();
    let p = wm.plan_manage(input(7, 200, 150), &ta, &sa).unwrap();
    assert_eq!((p.frame.x, p.frame.y, p.frame.width, p.frame.height), (200, 150, 408, 332));
    assert_eq!((p.frame.client_x, p.frame.client_y), (4, 28));
    assert!(p.map && p.grab_buttons && !p.stack_below);
    assert_eq!(p.client.name, "app");
    assert_eq!((p.extents.left, p.extents.top), (4, 28));
    let placed = wm.plan_manage(input(8, 0, 0), &ta, &sa).unwrap();
    assert_eq!((placed.frame.x, placed.frame.y), (20, 40));
    let mut dialog = input(9, 1, 1);
    dialog.window_types = vec![22];
    let d = wm.plan_manage(dialog, &ta, &sa).unwrap();
    assert_eq!((d.frame.x, d.frame.y), (760, 390));
    let mut desk = input(11, 0, 0);
    desk.window_types = vec![21];
    let dp = wm.plan_manage(desk, &ta, &sa).unwrap();
    assert_eq!((dp.frame.x, dp.frame.y, dp.frame.width, dp.frame.height), (0, 0, 1920, 1080));
    assert!(dp.stack_below && !dp.grab_buttons);
    let mut sticky = input(12, 300, 300);
    sticky.states = vec![13];
    assert_eq!(wm.plan_manage(sticky, &ta, &sa).unwrap().client.workspace, ALL_WORKSPACES);
}

#[test]
fn published_extents_are_the_decoration_added() {
    let wm = WindowManager::new(1, 1920, 1080);
    let ta = type_atoms();
    let sa = state_atoms();
    let p = wm.plan_manage(input(7, 200, 150), &ta, &sa).unwrap();
    assert_eq!((p.extents.left, p.extents.right, p.extents.top, p.extents.bottom), (4, 4, 28, 4));
    assert_eq!(p.client_win_gravity, 1);
    assert_eq!(p.client.pid, 42);
    let mut csd = input(8, 200, 150);
    csd.has_csd_hint = true;
    let c = wm.plan_manage(csd, &ta, &sa).unwrap();
    assert_eq!((c.extents.left, c.extents.right, c.extents.top, c.extents.bottom), (0, 0, 0, 0));
    assert_eq!((c.frame.client_x, c.frame.client_y), (0, 0));
    let mut bare = input(9, 200, 150);
    bare.motif_hints = vec![2, 0, 0];
    let b = wm.plan_manage(bare, &ta, &sa).unwrap();
    assert_eq!((b.extents.left, b.extents.right, b.extents.top, b.extents.bottom), (0, 0, 0, 0));
}

#[test]
fn drags_stay_in_coordinate_range() {
    let moving = DragState::Moving {
        window: 1,
        start_pointer_x: 100,
        start_pointer_y: 100,
        start_frame_x: 30000,
        start_frame_y: 0,
        snap: SnapZone::NoZone,
    };
    assert!(drag_in_range(&moving, 1920, 1080, 200, 200));
    assert!(!drag_in_range(&moving, 1920, 1080, 5000, 200));
    assert!(!drag_in_range(&moving, 32768, 1080, 200, 200));
    let resizing = DragState::Resizing { window: 1, start_pointer_x: -30000, start_pointer_y: 0, start_width: 100, start_height: 100 };
    assert!(!drag_in_range(&resizing, 1920, 1080, 30000, 0));
    assert!(drag_in_range(&resizing, 1920, 1080, -29000, 0));
    assert!(drag_in_range(&DragState::Idle, 1920, 1080, 0, 0));
}

#[test]
fn decorations_are_laid_out() {
    assert!(decoration_plan(0, 100, 24, true, true).is_none());
    let p = decoration_plan(400, 300, 24, true, true).unwrap();
    assert_eq!(p.background, FillRect { x: 0, y: 0, width: 400, height: 300, color: 0x3c3c3c });
    assert_eq!(p.title_at, Some((12, 17, 0xe0e0e0)));
    let xs: Vec<(i16, u32)> = p.buttons.iter().map(|b| (b.x, b.color)).collect();
    assert_eq!(xs, vec![(380, 0xff5555), (360, 0x50fa7b), (340, 0xf1fa8c)]);
    assert!(p.buttons.iter().all(|b| b.y == 6 && b.width == 12 && b.height == 12));
    let q = decoration_plan(400, 300, 24, false, true).unwrap();
    assert!(q.title_at.is_none() && q.buttons.len() == 3);
    let r = decoration_plan(400, 300, 0, true, true).unwrap();
    assert!(r.title_at.is_none() && r.buttons.is_empty());
    let f = decoration_plan(400, 300, 24, true, false).unwrap();
    assert!(f.title_at.is_none() && f.buttons.is_empty());
}

#[test]
fn cursors_over_frame_parts() {
    assert_eq!(cursor_for_part(FramePart::CornerTopLeft), CursorShape::ResizeNorthWest);
    assert_eq!(cursor_for_part(FramePart::BottomBorder), CursorShape::ResizeSouth);
    assert_eq!(cursor_for_part(FramePart::CloseButton), CursorShape::Hand);
    assert_eq!(cursor_for_part(FramePart::TitleBar), CursorShape::Move);
    assert_eq!(cursor_for_part(FramePart::ClientArea), CursorShape::Normal);
    assert_eq!(CursorShape::ResizeEast.theme_name(), "right_side");
    assert_eq!(CursorShape::Normal.theme_name(), "left_ptr");
}

#[test]
fn unmanaged_windows_are_tracked_moved_and_forgotten() {
    let mut wm = WindowManager::new(1, 1920, 1080);
    wm.add_client(framed(10, 0, 0, 100, 100));
    let menu = UnmanagedWindow { window: 50, picture: 500, damage: Some(501), x: 5, y: 6, width: 70, height: 80 };
    assert!(wm.should_track(50));
    assert!(!wm.should_track(10));
    assert!(!wm.should_track(1010));
    assert!(wm.track_unmanaged(menu));
    assert!(!wm.track_unmanaged(menu));
    assert_eq!(wm.unmanaged_windows.len(), 1);
    assert!(wm.configure_unmanaged(50, 40, 41, 20, 21));
    assert!(!wm.configure_unmanaged(51, 0, 0, 1, 1));
    let u = wm.unmanaged_windows[0];
    assert_eq!((u.x, u.y, u.width, u.height, u.picture), (40, 41, 20, 21, 500));
    assert_eq!(wm.forget_unmanaged(50), Some(u));
    assert_eq!(wm.forget_unmanaged(50), None);
    assert!(wm.unmanaged_windows.is_empty());
}

#[test]
fn sync_alarm_and_requested_moves_are_recorded() {
    let mut wm = WindowManager::new(1, 1920, 1080);
    wm.add_client(framed(10, 0, 0, 100, 100));
    assert!(wm.attach_sync_alarm(10, 88));
    assert!(!wm.attach_sync_alarm(11, 89));
    assert_eq!(wm.clients[0].sync.alarm, Some(88));
    assert!(wm.begin_move(10, 5, 6, 0, 0));
    assert_eq!(
        wm.drag_state,
        DragState::Moving { window: 10, start_pointer_x: 5, start_pointer_y: 6, start_frame_x: 0, start_frame_y: 0, snap: SnapZone::NoZone }
    );
    assert!(!wm.begin_move(11, 5, 6, 0, 0));
}

#[test]
fn pings_are_sent_answered_and_timed_out() {
    let mut m = PingMonitor::new();
    let r = m.round(0, &[10, 20]);
    assert_eq!(r, PingRound { send: vec![10, 20], not_responding: vec![] });
    assert_eq!(m.pending, vec![(10, 0), (20, 0)]);
    assert!(m.clear(10));
    assert!(!m.clear(10));
    let r = m.round(3000, &[10, 20]);
    assert_eq!(r, PingRound { send: vec![10], not_responding: vec![] });
    let r = m.round(PING_TIMEOUT_MS, &[10, 20]);
    assert_eq!(r, PingRound { send: vec![], not_responding: vec![20] });
    let r = m.round(PING_TIMEOUT_MS + 3000, &[10, 20]);
    assert_eq!(r, PingRound { send: vec![], not_responding: vec![10, 20] });
}
