use windowscodexmonitor::color::{rgb, zone_color_for};
use windowscodexmonitor::icon::{needle_color, render_gauge_icon, ICON_SIZE};
use windowscodexmonitor::MonitorStatus;

fn pixel(bytes: &[u8], x: usize, y: usize) -> [u8; 4] {
    let place = 4 * (y * ICON_SIZE as usize + x);
    [bytes[place], bytes[place + 1], bytes[place + 2], bytes[place + 3]]
}

#[test]
fn draws_the_needle_over_the_ring() {
    let bytes = render_gauge_icon(
        80,
        MonitorStatus::Idle,
        |x: u32, y: u32| y == 3 && x < 20,
        |percent: u8, x: u32, _y: u32| percent == 80 && x == 7,
    );
    assert_eq!(bytes.len(), 4096);
    for y in 0..32 {
        for x in 0..32 {
            let expected = if x == 7 {
                [67, 201, 122, 255]
            } else if y == 3 && x < 20 {
                [57, 62, 70, 255]
            } else {
                [0, 0, 0, 0]
            };
            assert_eq!(pixel(&bytes, x, y), expected);
        }
    }
}

#[test]
fn the_needle_has_the_colour_of_its_band() {
    assert_eq!(needle_color(50, MonitorStatus::Working), (67, 201, 122, 255));
    assert_eq!(needle_color(49, MonitorStatus::Waiting), (246, 201, 63, 255));
    assert_eq!(needle_color(24, MonitorStatus::SuspectedHung), (239, 142, 50, 255));
    assert_eq!(needle_color(9, MonitorStatus::Idle), (228, 75, 75, 255));
    assert_eq!(needle_color(100, MonitorStatus::Offline), (120, 124, 132, 255));
}

#[test]
fn an_icon_without_shapes_is_transparent() {
    let bytes = render_gauge_icon(
        5,
        MonitorStatus::Offline,
        |_x: u32, _y: u32| false,
        |_percent: u8, _x: u32, _y: u32| false,
    );
    assert_eq!(bytes, vec![0; 4096]);
}

#[test]
fn the_needle_stands_at_the_remaining_percentage() {
    let column = |percent: u8, x: u32, _y: u32| x == u32::from(percent) / 4;
    for percent in [0, 40, 100] {
        let bytes =
            render_gauge_icon(percent, MonitorStatus::Offline, |_x: u32, _y: u32| false, column);
        for x in 0..32 {
            let covered = x == usize::from(percent) / 4;
            assert_eq!(pixel(&bytes, x, 9)[3], if covered { 255 } else { 0 });
        }
    }
}

#[test]
fn the_icon_and_the_popup_show_one_colour() {
    for percent in 0..=100 {
        let (red, green, blue, alpha) = needle_color(percent, MonitorStatus::Working);
        assert_eq!(rgb(red, green, blue), zone_color_for(MonitorStatus::Working, percent));
        assert_eq!(alpha, 255);
    }
}
