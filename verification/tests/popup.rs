use windowscodexmonitor::color::rgb;
use windowscodexmonitor::double::Double;
use windowscodexmonitor::popup::{
    auto_start_bounds, builtin_font_scale, checked_size, contains, dated_popup_marks, gauge_marks,
    popup_marks, refresh_bounds, target_at, Bounds, Mark, PopupTarget,
};
use windowscodexmonitor::state::{reset_date, AppState};
use windowscodexmonitor::MonitorStatus;

fn double(value: f64) -> Double {
    Double { bits: value.to_bits() }
}

fn target(x: f64, y: f64) -> PopupTarget {
    target_at(double(x), double(y))
}

#[test]
fn clicks_on_the_refresh_button() {
    assert_eq!(target(256.0, 241.0), PopupTarget::Refresh);
    assert_eq!(target(370.0, 278.0), PopupTarget::Refresh);
    assert_eq!(target(300.5, 250.25), PopupTarget::Refresh);
    assert_eq!(target(255.999, 250.0), PopupTarget::Nothing);
    assert_eq!(target(370.001, 250.0), PopupTarget::Nothing);
    assert_eq!(target(300.0, 240.999), PopupTarget::Nothing);
    assert_eq!(target(300.0, 278.001), PopupTarget::Nothing);
}

#[test]
fn clicks_on_the_auto_start_switch() {
    assert_eq!(target(16.0, 282.0), PopupTarget::AutoStart);
    assert_eq!(target(370.0, 310.0), PopupTarget::AutoStart);
    assert_eq!(target(15.9, 300.0), PopupTarget::Nothing);
    assert_eq!(target(100.0, 281.9), PopupTarget::Nothing);
}

#[test]
fn clicks_on_nothing() {
    assert_eq!(target(-1.0, -1.0), PopupTarget::Nothing);
    assert_eq!(target(f64::NAN, 250.0), PopupTarget::Nothing);
    assert_eq!(target(300.0, f64::INFINITY), PopupTarget::Nothing);
}

#[test]
fn a_rectangle_holds_its_edges() {
    let bounds = Bounds { x: 0, y: 0, width: 1, height: 2 };
    assert!(contains(double(-0.0), double(2.0), bounds));
    assert!(!contains(double(-0.1), double(2.0), bounds));
    assert!(contains(double(270.0), double(260.0), refresh_bounds()));
    assert!(!contains(double(270.0), double(260.0), auto_start_bounds()));
}

#[test]
fn a_window_without_size_cannot_be_drawn_in() {
    assert_eq!(checked_size(0, 0), Err("Popup width was zero".to_owned()));
    assert_eq!(checked_size(5, 0), Err("Popup height was zero".to_owned()));
    assert_eq!(checked_size(390, 310), Ok((390, 310)));
}

#[test]
fn scales_the_builtin_font() {
    for point_size in 1..100u32 {
        assert_eq!(
            builtin_font_scale(point_size),
            (point_size as f32 / 8.0).max(1.0) as u32
        );
    }
}

fn label(x: u32, y: u32, point_size: u32, words: &str, color: u32) -> Mark {
    Mark::Label { x, y, point_size, words: words.to_owned(), color }
}

#[test]
fn lays_out_the_gauge() {
    let marks = gauge_marks(MonitorStatus::Idle, 36);
    assert_eq!(marks.len(), 9);
    assert_eq!(marks[0], Mark::GaugeRing);
    assert_eq!(marks[3], Mark::GaugeTick { percent: 50, color: rgb(226, 232, 240) });
    assert_eq!(marks[6], Mark::GaugeNeedle { percent: 36, color: rgb(246, 201, 63) });
    assert_eq!(marks[8], label(118, 155, 11, "100", rgb(148, 163, 184)));
}

fn state() -> AppState {
    AppState {
        remaining_percent: 36,
        status: MonitorStatus::Working,
        reset_at: Some(1_785_258_188),
        last_error: None,
    }
}

#[test]
fn lays_out_the_popup() {
    let marks = popup_marks(
        &state(),
        false,
        Some("Tue, 28 Jul 2026".to_owned()),
        Some(1_785_000_000),
    );
    assert_eq!(marks.len(), 26);
    assert_eq!(marks[0], Mark::Background { color: rgb(15, 23, 42) });
    assert_eq!(marks[2], label(32, 31, 18, "Codex Monitor", rgb(241, 245, 249)));
    assert_eq!(marks[13], label(154, 66, 48, "36%", rgb(246, 201, 63)));
    assert_eq!(
        marks[15],
        Mark::RoundedRect {
            bounds: Bounds { x: 158, y: 143, width: 164, height: 28 },
            radius: 14,
            color: rgb(67, 201, 122),
        }
    );
    assert_eq!(marks[16], label(173, 151, 12, "Working", rgb(15, 23, 42)));
    assert_eq!(marks[18], label(32, 207, 18, "2d 23h", rgb(241, 245, 249)));
    assert_eq!(marks[19], label(32, 232, 12, "Tue, 28 Jul 2026", rgb(148, 163, 184)));
    assert_eq!(
        marks[20],
        Mark::RoundedRect { bounds: refresh_bounds(), radius: 10, color: rgb(59, 130, 246) }
    );
    assert_eq!(
        marks[22],
        Mark::RoundedRect { bounds: auto_start_bounds(), radius: 10, color: rgb(30, 41, 59) }
    );
    assert_eq!(
        marks[25],
        Mark::Disc { x: 335, y: 296, radius: 6, color: rgb(245, 247, 250) }
    );
}

#[test]
fn shows_the_switch_on() {
    let marks = popup_marks(&state(), true, None, None);
    assert_eq!(
        marks[24],
        Mark::RoundedRect {
            bounds: Bounds { x: 326, y: 288, width: 30, height: 16 },
            radius: 8,
            color: rgb(67, 201, 122),
        }
    );
    assert_eq!(
        marks[25],
        Mark::Disc { x: 347, y: 296, radius: 6, color: rgb(245, 247, 250) }
    );
    assert_eq!(marks[19], label(32, 232, 12, "Date unavailable", rgb(148, 163, 184)));
}

#[test]
fn shows_an_error_in_short() {
    let mut state = state();
    state.reset_at = None;
    state.last_error = Some("Timed out waiting for Codex weekly usage".to_owned());
    let marks = popup_marks(&state, false, None, None);
    assert_eq!(marks.len(), 27);
    assert_eq!(marks[18], label(32, 207, 18, "reset unknown", rgb(241, 245, 249)));
    assert_eq!(marks[26], label(32, 252, 11, "Timed out waiting for Cod...", rgb(238, 138, 79)));
}

#[test]
fn dates_the_reset_in_the_popup() {
    let mut state = state();
    let now = Some(1_785_000_000);
    for reset_at in [Some(1_785_258_188), Some(9_000_000_000_000), None] {
        state.reset_at = reset_at;
        let marks = dated_popup_marks(&state, true, now);
        assert_eq!(marks, popup_marks(&state, true, reset_date(reset_at), now));
    }
    assert_eq!(
        dated_popup_marks(&state, true, now)[19],
        label(32, 232, 12, "Date unavailable", rgb(148, 163, 184))
    );
}
