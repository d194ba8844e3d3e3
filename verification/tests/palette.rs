use fantasy_console::palette::palette_rgb;

#[test]
fn palette_has_the_sixteen_console_colors() {
    let expected: [(u8, u8, u8); 16] = [
        (0, 0, 0),
        (29, 43, 83),
        (126, 37, 83),
        (0, 135, 81),
        (171, 82, 54),
        (95, 87, 79),
        (194, 195, 199),
        (255, 241, 232),
        (255, 0, 77),
        (255, 163, 0),
        (255, 236, 39),
        (0, 228, 54),
        (41, 173, 255),
        (131, 118, 156),
        (255, 119, 168),
        (255, 204, 170),
    ];
    for i in 0..16u8 {
        assert_eq!(palette_rgb(i), expected[i as usize]);
    }
}
