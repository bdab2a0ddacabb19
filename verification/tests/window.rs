use myocyte::sort::depth_order_key;
use myocyte::window::{
    failure_action, surface_extent, DragAction, DragState, FailureAction, SurfaceFailure,
};

#[test]
fn drag_first_move_records_then_orbits() {
    let mut d = DragState::new();
    assert_eq!(d.cursor_moved(), DragAction::Ignore);
    d.left_button(true);
    assert_eq!(d.cursor_moved(), DragAction::Record);
    assert_eq!(d.cursor_moved(), DragAction::OrbitAndRecord);
    assert_eq!(d.cursor_moved(), DragAction::OrbitAndRecord);
}

#[test]
fn drag_release_forgets_position() {
    let mut d = DragState::new();
    d.left_button(true);
    d.cursor_moved();
    d.left_button(false);
    assert_eq!(d, DragState { pressed: false, has_last: false });
    assert_eq!(d.cursor_moved(), DragAction::Ignore);
    assert_eq!(d.cursor_moved(), DragAction::Ignore);
    d.left_button(true);
    assert_eq!(d.cursor_moved(), DragAction::Record);
}

#[test]
fn drag_repeated_press_keeps_position() {
    let mut d = DragState::new();
    d.left_button(true);
    d.cursor_moved();
    d.left_button(true);
    assert_eq!(d, DragState { pressed: true, has_last: true });
    assert_eq!(d.cursor_moved(), DragAction::OrbitAndRecord);
}

#[test]
fn surface_extent_floors_at_one() {
    assert_eq!(surface_extent(0, 0), (1, 1));
    assert_eq!(surface_extent(960, 0), (960, 1));
    assert_eq!(surface_extent(0, 720), (1, 720));
    assert_eq!(surface_extent(960, 720), (960, 720));
}

#[test]
fn depth_keys_follow_float_order() {
    let depths: [f32; 9] = [-100.0, -3.5, -1.0, -0.25, -0.0, 0.0, 0.5, 2.0, 1e30];
    for a in depths {
        for b in depths {
            if a < b {
                assert!(depth_order_key(a.to_bits()) < depth_order_key(b.to_bits()), "{} {}", a, b);
            }
        }
    }
    assert_eq!(depth_order_key(0.0f32.to_bits()), 0x8000_0000);
    assert_eq!(depth_order_key((-0.0f32).to_bits()), 0x7FFF_FFFF);
    assert_eq!(depth_order_key(1.0f32.to_bits()), 0x3F80_0000 + 0x8000_0000);
}

#[test]
fn failed_frames() {
    assert_eq!(failure_action(SurfaceFailure::Lost), FailureAction::Reconfigure);
    assert_eq!(failure_action(SurfaceFailure::Outdated), FailureAction::Reconfigure);
    assert_eq!(failure_action(SurfaceFailure::OutOfMemory), FailureAction::ReportAndExit);
    assert_eq!(failure_action(SurfaceFailure::Timeout), FailureAction::Report);
}

#[test]
fn depth_keys_are_distinct_for_distinct_bits() {
    let bits = [0u32, 1, 0x7FFF_FFFF, 0x8000_0000, 0x8000_0001, 0xFFFF_FFFF, 0x3F80_0000, 0xBF80_0000];
    for a in bits {
        for b in bits {
            assert_eq!(a == b, depth_order_key(a) == depth_order_key(b));
        }
    }
}
