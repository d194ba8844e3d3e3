use fantasy_console::system::SystemImpl;

fn expect_exactly(sys: &mut SystemImpl, points: &[(u8, u8)], color: u8, background: u8) {
    for y in 0..128u8 {
        for x in 0..128u8 {
            let expected = if points.contains(&(x, y)) { color } else { background };
            assert_eq!(sys.pget(x, y), expected, "pixel ({}, {})", x, y);
        }
    }
}

#[test]
fn horizontal_line_fills_span_and_touches_no_other_row() {
    let mut sys = SystemImpl::new();
    sys.line(10, 20, 3, 20, 7);
    let points: Vec<(u8, u8)> = (3..=10).map(|x| (x, 20)).collect();
    expect_exactly(&mut sys, &points, 7, 0);
    assert_eq!(sys.color, 7);
}

#[test]
fn vertical_line_fills_span() {
    let mut sys = SystemImpl::new();
    sys.line(40, 9, 40, 2, 12);
    let points: Vec<(u8, u8)> = (2..=9).map(|y| (40, y)).collect();
    expect_exactly(&mut sys, &points, 12, 0);
    assert_eq!(sys.color, 12);
}

#[test]
fn single_point_line_plots_one_pixel() {
    let mut sys = SystemImpl::new();
    sys.line(5, 5, 5, 5, 3);
    expect_exactly(&mut sys, &[(5, 5)], 3, 0);
}

#[test]
fn diagonal_line_plots_exactly_the_diagonal() {
    let mut sys = SystemImpl::new();
    sys.line(0, 0, 3, 3, 7);
    expect_exactly(&mut sys, &[(0, 0), (1, 1), (2, 2), (3, 3)], 7, 0);
}

#[test]
fn steep_line_plots_the_error_term_walk() {
    let mut sys = SystemImpl::new();
    sys.line(1, 1, 2, 5, 8);
    expect_exactly(&mut sys, &[(1, 1), (1, 2), (2, 3), (2, 4), (2, 5)], 8, 0);
}

#[test]
fn reversed_diagonal_plots_the_same_octant_walk() {
    let mut sys = SystemImpl::new();
    sys.line(3, 3, 0, 0, 9);
    expect_exactly(&mut sys, &[(0, 0), (1, 1), (2, 2), (3, 3)], 9, 0);
}

#[test]
fn off_screen_span_is_clipped_silently() {
    let mut sys = SystemImpl::new();
    sys.line(120, 5, 135, 5, 4);
    let points: Vec<(u8, u8)> = (120..=127).map(|x| (x, 5)).collect();
    expect_exactly(&mut sys, &points, 4, 0);
    assert_eq!(sys.screen.len(), 128 * 128);
}

#[test]
fn line_never_leaves_the_endpoint_bounding_box() {
    let mut sys = SystemImpl::new();
    sys.line(5, 5, 9, 7, 6);
    for y in 0..128u8 {
        for x in 0..128u8 {
            if !(5..=9).contains(&x) || !(5..=7).contains(&y) {
                assert_eq!(sys.pget(x, y), 0, "pixel ({}, {})", x, y);
            }
        }
    }
    assert_eq!(sys.pget(5, 5), 6);
    assert_eq!(sys.pget(9, 7), 6);
}

#[test]
fn line_drawn_over_content_leaves_the_rest() {
    let mut sys = SystemImpl::new();
    sys.cls(2);
    sys.line(0, 0, 3, 3, 7);
    expect_exactly(&mut sys, &[(0, 0), (1, 1), (2, 2), (3, 3)], 7, 2);
}
