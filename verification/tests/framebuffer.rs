use fantasy_console::system::DrawError;
use fantasy_console::system::SystemImpl;

#[test]
fn fresh_console_is_black_with_color_six() {
    let mut sys = SystemImpl::new();
    assert_eq!(sys.screen.len(), 128 * 128);
    assert_eq!(sys.color, 6);
    for y in 0..128u8 {
        for x in 0..128u8 {
            assert_eq!(sys.pget(x, y), 0);
        }
    }
}

#[test]
fn clear_sets_every_pixel() {
    let mut sys = SystemImpl::new();
    sys.pset(10, 10, 3);
    sys.cls(5);
    for y in 0..128u8 {
        for x in 0..128u8 {
            assert_eq!(sys.pget(x, y), 5);
        }
    }
    // cls writes pixels only; the current color keeps its last value.
    assert_eq!(sys.color, 3);
}

#[test]
fn pset_sets_pixel_and_current_color() {
    let mut sys = SystemImpl::new();
    for &(x, y, k) in &[(0u8, 0u8, 15u8), (127, 127, 1), (64, 3, 9), (3, 64, 0)] {
        sys.pset(x, y, k);
        assert_eq!(sys.pget(x, y), k);
        assert_eq!(sys.color, k);
    }
}

#[test]
fn pset_out_of_range_is_dropped_but_sets_color() {
    let mut sys = SystemImpl::new();
    sys.pset(5, 6, 11);
    sys.pset(128, 0, 9);
    sys.pset(0, 128, 9);
    sys.pset(255, 255, 9);
    assert_eq!(sys.screen.len(), 128 * 128);
    for y in 0..128u8 {
        for x in 0..128u8 {
            let expected = if (x, y) == (5, 6) { 11 } else { 0 };
            assert_eq!(sys.pget(x, y), expected);
        }
    }
    assert_eq!(sys.color, 9);
}

#[test]
fn color_sets_current_color_only() {
    let mut sys = SystemImpl::new();
    sys.color(13);
    assert_eq!(sys.color, 13);
    for y in 0..128u8 {
        for x in 0..128u8 {
            assert_eq!(sys.pget(x, y), 0);
        }
    }
}

#[test]
fn circle_primitives_are_unsupported_and_touch_nothing() {
    let mut sys = SystemImpl::new();
    sys.pset(4, 4, 2);
    assert_eq!(sys.circ(10, 10, 5, 7), Err(DrawError::Unsupported));
    assert_eq!(sys.circfill(10, 10, 5, 7), Err(DrawError::Unsupported));
    assert_eq!(sys.pget(4, 4), 2);
    assert_eq!(sys.color, 2);
}
