use xfce_rs::frame::{FrameGeometry, FramePart};

#[test]
fn test_from_client_geometry() {
    let frame = FrameGeometry::from_client(100, 100, 800, 600, 4, 24);
    assert_eq!(frame.x, 96);
    assert_eq!(frame.y, 72);
    assert_eq!(frame.width, 808);
    assert_eq!(frame.height, 632);
    assert_eq!(frame.client_x, 4);
    assert_eq!(frame.client_y, 28);
}

#[test]
fn test_hit_test_execution() {
    let w = 808;
    let h = 632;
    assert_eq!(FrameGeometry::hit_test(w, h, 0, 0), FramePart::CornerTopLeft);
    assert_eq!(FrameGeometry::hit_test(w, h, 100, 10), FramePart::TitleBar);
    assert_eq!(FrameGeometry::hit_test(w, h, 790, 8), FramePart::CloseButton);
    assert_eq!(FrameGeometry::hit_test(w, h, 100, 100), FramePart::ClientArea);
    assert_eq!(FrameGeometry::hit_test(w, h, 807, 631), FramePart::CornerBottomRight);
}

#[test]
fn hit_test_outside_frame_is_outside() {
    assert_eq!(FrameGeometry::hit_test(808, 632, -1, 10), FramePart::Outside);
    assert_eq!(FrameGeometry::hit_test(808, 632, 10, 632), FramePart::Outside);
    assert_eq!(FrameGeometry::hit_test(808, 632, 808, 10), FramePart::Outside);
    assert_eq!(FrameGeometry::hit_test(40000, 632, 100, 100), FramePart::Outside);
    assert_eq!(FrameGeometry::hit_test(32767, 632, 100, 100), FramePart::ClientArea);
}

#[test]
fn hit_test_borders() {
    assert_eq!(FrameGeometry::hit_test(808, 632, 2, 300), FramePart::LeftBorder);
    assert_eq!(FrameGeometry::hit_test(808, 632, 806, 300), FramePart::RightBorder);
    assert_eq!(FrameGeometry::hit_test(808, 632, 300, 630), FramePart::BottomBorder);
}

#[test]
fn from_client_without_decorations_is_client_geometry() {
    let frame = FrameGeometry::from_client(10, 20, 300, 200, 0, 0);
    assert_eq!((frame.x, frame.y, frame.width, frame.height), (10, 20, 300, 200));
    assert_eq!((frame.client_x, frame.client_y), (0, 0));
}
