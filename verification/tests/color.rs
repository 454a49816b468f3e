use windowscodexmonitor::color::{blend, gauge_band_color, rgb, status_color, zone_color_for};
use windowscodexmonitor::MonitorStatus;

#[test]
fn packs_colours() {
    assert_eq!(rgb(0x12, 0x34, 0x56), 0x123456);
    assert_eq!(rgb(255, 255, 255), 0xffffff);
    assert_eq!(rgb(0, 0, 0), 0);
}

#[test]
fn blends_colours() {
    assert_eq!(blend(0x000000, 0xffffff, 128), 0x808080);
    assert_eq!(blend(0x102030, 0xf0e0d0, 100), 0x676b6e);
    assert_eq!(blend(0x102030, 0xf0e0d0, 0), 0x102030);
    assert_eq!(blend(0x102030, 0xf0e0d0, 255), 0xf0e0d0);
    assert_eq!(blend(0xff102030, 0xf0e0d0, 0), 0x102030);
}

#[test]
fn a_blend_drops_what_lies_above_the_red_part() {
    assert_eq!(blend(0xff10_2030, 0x8040_5060, 0), 0x10_2030);
    assert_eq!(blend(0xff10_2030, 0x8040_5060, 255), 0x40_5060);
    assert_eq!(blend(0x10_2030, 0x40_5060, 0), 0x10_2030);
}

#[test]
fn blends_like_the_formula_on_each_part() {
    for alpha in 0..=255u8 {
        let part = |below: u32, above: u32| {
            (below * (255 - u32::from(alpha)) + above * u32::from(alpha)) / 255
        };
        assert_eq!(
            blend(0x0a64ff, 0xc80000, alpha),
            (part(0x0a, 0xc8) << 16) | (part(0x64, 0) << 8) | part(0xff, 0)
        );
    }
}

#[test]
fn bands_have_their_colours() {
    assert_eq!(gauge_band_color(100), rgb(67, 201, 122));
    assert_eq!(gauge_band_color(49), rgb(246, 201, 63));
    assert_eq!(gauge_band_color(24), rgb(239, 142, 50));
    assert_eq!(gauge_band_color(9), rgb(228, 75, 75));
}

#[test]
fn the_needle_is_grey_offline() {
    assert_eq!(zone_color_for(MonitorStatus::Offline, 100), rgb(140, 147, 160));
    assert_eq!(zone_color_for(MonitorStatus::Idle, 100), rgb(67, 201, 122));
    assert_eq!(zone_color_for(MonitorStatus::Working, 3), rgb(228, 75, 75));
}

#[test]
fn statuses_have_their_colours() {
    assert_eq!(status_color(MonitorStatus::Working), rgb(67, 201, 122));
    assert_eq!(status_color(MonitorStatus::Waiting), rgb(246, 201, 63));
    assert_eq!(status_color(MonitorStatus::Idle), rgb(170, 178, 188));
    assert_eq!(status_color(MonitorStatus::Offline), rgb(140, 147, 160));
    assert_eq!(status_color(MonitorStatus::SuspectedHung), rgb(239, 142, 50));
}
