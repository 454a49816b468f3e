use windowscodexmonitor::color::blend;
use windowscodexmonitor::glyphs::{
    can_draw_glyphs, draw_builtin_glyphs, draw_glyph, draw_glyphs, draw_text, Glyph,
};

fn rows(buffer: &[u32], width: usize) -> Vec<String> {
    buffer
        .chunks(width)
        .map(|row| row.iter().map(|pixel| if *pixel == 0 { '.' } else { '#' }).collect())
        .collect()
}

fn glyph(advance: i32) -> Glyph {
    Glyph { width: 2, height: 2, xmin: 1, ymin: -1, advance, coverage: vec![255, 0, 128, 64] }
}

#[test]
fn blends_a_glyph_into_the_buffer() {
    let mut buffer = vec![0x101010; 20];
    draw_glyph(&mut buffer, 5, 4, 1, 2, &glyph(3), 0xffffff);
    let mut expected = vec![0x101010; 20];
    expected[5 + 2] = 0xffffff;
    expected[10 + 2] = blend(0x101010, 0xffffff, 128);
    expected[10 + 3] = blend(0x101010, 0xffffff, 64);
    assert_eq!(buffer, expected);
}

#[test]
fn leaves_pixels_without_coverage_as_they_are() {
    let mut buffer = vec![0xff000000; 20];
    draw_glyph(&mut buffer, 5, 4, 1, 2, &glyph(3), 0xffffff);
    assert_eq!(buffer[5 + 3], 0xff000000);
}

#[test]
fn draws_only_the_visible_part_of_a_glyph() {
    // The left column of the glyph lies left of the buffer; of the right one
    // only the lower pixel is covered.
    let mut buffer = vec![0; 4];
    draw_glyph(&mut buffer, 2, 2, -2, 1, &glyph(3), 0xffffff);
    assert_eq!(buffer, vec![0, 0, blend(0, 0xffffff, 64), 0]);
}

#[test]
fn draws_glyphs_one_behind_the_other() {
    let glyphs = vec![glyph(3), glyph(2), glyph(0)];
    assert!(can_draw_glyphs(40, 10, 4, 0, 2, &glyphs));
    let mut buffer = vec![0; 40];
    draw_glyphs(&mut buffer, 10, 4, 0, 2, &glyphs, 0xffffff);
    let mut expected = vec![0; 40];
    for cursor in [0, 3, 5] {
        draw_glyph(&mut expected, 10, 4, cursor, 2, &glyph(0), 0xffffff);
    }
    assert_eq!(buffer, expected);
    assert_eq!(rows(&buffer, 10)[1], ".#..#.#...");
}

#[test]
fn tells_which_glyphs_cannot_be_drawn() {
    assert!(!can_draw_glyphs(40, 10, 4, i32::MAX, 2, &vec![glyph(1)]));
    assert!(!can_draw_glyphs(39, 10, 4, 7, 3, &vec![glyph(1)]));
    assert!(can_draw_glyphs(40, 10, 4, 7, 3, &vec![glyph(1)]));
    let mut short = glyph(1);
    short.coverage.pop();
    assert!(!short.is_valid());
    assert!(!can_draw_glyphs(40, 10, 4, 0, 2, &vec![short]));
}

#[test]
fn draws_the_builtin_font() {
    let mut buffer = vec![0; 128];
    draw_text(&mut buffer, 16, 8, 0, 0, 1, "I!", 1);
    assert_eq!(
        rows(&buffer, 16),
        vec![
            ".####......##...",
            "..##......####..",
            "..##......####..",
            "..##.......##...",
            "..##.......##...",
            "..##............",
            ".####......##...",
            "................",
        ]
    );
}

#[test]
fn a_character_that_the_builtin_font_lacks_leaves_a_gap() {
    let mut buffer = vec![0; 128];
    draw_text(&mut buffer, 16, 8, 0, 0, 1, "\u{e9}I", 1);
    let mut expected = vec![0; 128];
    draw_text(&mut expected, 16, 8, 8, 0, 1, "I", 1);
    assert_eq!(buffer, expected);
    assert!(expected.contains(&1));
}

#[test]
fn scales_the_builtin_glyphs() {
    let corner = vec![Some([1, 0, 0, 0, 0, 0, 0, 0x80]), None];
    let mut buffer = vec![0; 20 * 20];
    draw_builtin_glyphs(&mut buffer, 20, 20, 1, 2, 2, &corner, 1);
    let lit: Vec<(usize, usize)> =
        (0..400).filter(|place| buffer[*place] != 0).map(|place| (place % 20, place / 20)).collect();
    assert_eq!(
        lit,
        vec![(1, 2), (2, 2), (1, 3), (2, 3), (15, 16), (16, 16), (15, 17), (16, 17)]
    );
}

#[test]
fn draws_only_the_visible_part_of_a_text() {
    let mut buffer = vec![0; 16];
    draw_builtin_glyphs(&mut buffer, 4, 4, -6, -6, 1, &vec![Some([0xff; 8])], 1);
    assert_eq!(rows(&buffer, 4), vec!["##..", "##..", "....", "...."]);
}

#[test]
fn a_scale_of_nought_draws_nothing() {
    let mut buffer = vec![0; 4];
    draw_text(&mut buffer, 2, 2, 0, 0, 0, "I", 1);
    assert_eq!(buffer, vec![0; 4]);
}
