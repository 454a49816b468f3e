use windowscodexmonitor::color::gauge_band_color;
use windowscodexmonitor::pixels::{
    clip, fill_area, fill_rect_pixels, fill_where, paint_gauge_ring, repaint, rounded_rect, Area,
};

fn rows(buffer: &[u32], width: usize) -> Vec<String> {
    buffer
        .chunks(width)
        .map(|row| row.iter().map(|pixel| if *pixel == 0 { '.' } else { '#' }).collect())
        .collect()
}

#[test]
fn clips_rectangles() {
    assert_eq!(clip(1, 2, 3, 4, 10, 10), Area { left: 1, top: 2, right: 4, bottom: 6 });
    assert_eq!(clip(-2, -1, 5, 20, 4, 6), Area { left: 0, top: 0, right: 3, bottom: 6 });
    assert_eq!(clip(9, 9, 5, 5, 4, 6), Area { left: 4, top: 6, right: 4, bottom: 6 });
}

#[test]
fn tells_what_fits() {
    let area = Area { left: 0, top: 0, right: 3, bottom: 2 };
    assert!(area.fits_in(3, 6));
    assert!(!area.fits_in(3, 5));
    assert!(area.fits_in(4, 7));
    assert!(!area.fits_in(4, 6));
    assert!(!area.fits_in(2, 100));
    assert!(Area { left: 3, top: 0, right: 3, bottom: 2 }.fits_in(0, 0));
    assert!(!Area { left: 0, top: 0, right: 1, bottom: u32::MAX }.fits_in(2, usize::MAX));
}

#[test]
fn repaints_an_area_and_nothing_else() {
    let mut buffer: Vec<u32> = (0..20).collect();
    repaint(
        &mut buffer,
        5,
        Area { left: 1, top: 1, right: 3, bottom: 3 },
        |column: u32, row: u32, below: u32| 1000 * row + 100 * column + below,
    );
    let mut expected: Vec<u32> = (0..20).collect();
    for (column, row) in [(1, 1), (2, 1), (1, 2), (2, 2)] {
        let place = row * 5 + column;
        expected[place as usize] = 1000 * row + 100 * column + place;
    }
    assert_eq!(buffer, expected);
}

#[test]
fn fills_an_area() {
    let mut buffer = vec![0; 12];
    fill_area(&mut buffer, 4, Area { left: 0, top: 1, right: 4, bottom: 2 }, 9);
    assert_eq!(buffer, vec![0, 0, 0, 0, 9, 9, 9, 9, 0, 0, 0, 0]);
}

#[test]
fn fills_a_rectangle_as_far_as_it_is_visible() {
    let mut buffer = vec![0; 20];
    fill_rect_pixels(&mut buffer, 5, 4, -1, 2, 3, 9, 7);
    assert_eq!(rows(&buffer, 5), vec![".....", ".....", "##...", "##..."]);
    let mut buffer = vec![0; 20];
    fill_rect_pixels(&mut buffer, 5, 4, 3, -2, 9, 3, 7);
    assert_eq!(rows(&buffer, 5), vec!["...##", ".....", ".....", "....."]);
    let mut buffer = vec![0; 20];
    fill_rect_pixels(&mut buffer, 5, 4, 1, 1, 0, 2, 7);
    fill_rect_pixels(&mut buffer, 5, 4, 5, 0, 2, 2, 7);
    fill_rect_pixels(&mut buffer, 5, 4, 0, 0, u32::MAX, 2, 7);
    assert_eq!(buffer, vec![0; 20]);
}

#[test]
fn fills_a_shape() {
    let mut buffer = vec![0; 25];
    fill_where(
        &mut buffer,
        5,
        Area { left: 0, top: 0, right: 5, bottom: 5 },
        |column: u32, row: u32| {
            let (dx, dy) = (column as f32 - 2.0, row as f32 - 2.0);
            dx * dx + dy * dy <= 4.0
        },
        1,
    );
    assert_eq!(rows(&buffer, 5), vec!["..#..", ".###.", "#####", ".###.", "..#.."]);
}

#[test]
fn rounds_the_corners_that_are_visible() {
    let mut buffer = vec![0; 30];
    rounded_rect(
        &mut buffer,
        6,
        5,
        1,
        1,
        9,
        3,
        |column: u32, row: u32| !(column == 1 && (row == 1 || row == 3)),
        1,
    );
    assert_eq!(rows(&buffer, 6), vec!["......", "..####", ".#####", "..####", "......"]);
}

#[test]
fn paints_the_ring_in_the_colours_of_its_bands() {
    let mut buffer = vec![5; 6];
    paint_gauge_ring(&mut buffer, 3, 2, |column: u32, row: u32| match (column, row) {
        (0, 0) => Some(0),
        (1, 0) => Some(24),
        (0, 1) => Some(49),
        (2, 1) => Some(100),
        _ => None,
    });
    assert_eq!(
        buffer,
        vec![
            gauge_band_color(0),
            gauge_band_color(24),
            5,
            gauge_band_color(49),
            5,
            gauge_band_color(100)
        ]
    );
}
