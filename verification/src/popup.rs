//! What the popup shows, and what a click in it means.
//!
//! Lengths are in logical pixels: the drawing scales them to the window.

use vstd::prelude::*;

use crate::color;
use crate::double::Double;
use crate::json;
use crate::state;
use crate::state::AppState;
use crate::status::MonitorStatus;
use crate::text;

verus! {

broadcast use vstd::string::group_string_axioms;

/// The width of the popup.
pub const POPUP_WIDTH: u32 = 390;

/// The height of the popup.
pub const POPUP_HEIGHT: u32 = 310;

/// How many characters of an error the popup shows.
pub const ERROR_LIMIT: usize = 28;

/// Whether a size is accepted, or what is said against it.
pub open spec fn is_checked_size(
    size: Result<(u32, u32), String>,
    width: u32,
    height: u32,
) -> bool {
    &&& width == 0 ==> (size matches Err(reason) && reason@ == "Popup width was zero"@)
    &&& width > 0 && height == 0 ==> (size matches Err(reason) && reason@
        == "Popup height was zero"@)
    &&& width > 0 && height > 0 ==> size == Ok::<(u32, u32), String>((width, height))
}

/// Accepts the size of a window to draw in; a window without width or height
/// cannot be drawn in.
pub fn checked_size(width: u32, height: u32) -> (size: Result<(u32, u32), String>)
    ensures
        is_checked_size(size, width, height),
{
    if width == 0 {
        Err("Popup width was zero".to_owned())
    } else if height == 0 {
        Err("Popup height was zero".to_owned())
    } else {
        Ok((width, height))
    }
}

/// A rectangle of the popup.
#[derive(Debug, Clone, Copy, PartialEq, Eq, Structural)]
pub struct Bounds {
    pub x: u32,
    pub y: u32,
    pub width: u32,
    pub height: u32,
}

impl Bounds {
    /// Whether the far edges can be told.
    pub open spec fn valid(self) -> bool {
        self.x + self.width <= u32::MAX && self.y + self.height <= u32::MAX
    }

    /// Whether a position lies in the rectangle or on its edge.
    pub open spec fn holds(self, x: Double, y: Double) -> bool {
        &&& x.reaches(self.x as int)
        &&& x.stays_within(self.x + self.width)
        &&& y.reaches(self.y as int)
        &&& y.stays_within(self.y + self.height)
    }
}

/// Where the refresh button is.
pub open spec fn refresh_bounds_spec() -> Bounds {
    Bounds { x: 256, y: 241, width: 114, height: 37 }
}

/// Where the auto-start switch is.
pub open spec fn auto_start_bounds_spec() -> Bounds {
    Bounds { x: 16, y: 282, width: 354, height: 28 }
}

/// Where the refresh button is.
pub fn refresh_bounds() -> (bounds: Bounds)
    ensures
        bounds == refresh_bounds_spec(),
{
    Bounds { x: 256, y: 241, width: 114, height: 37 }
}

/// Where the auto-start switch is.
pub fn auto_start_bounds() -> (bounds: Bounds)
    ensures
        bounds == auto_start_bounds_spec(),
{
    Bounds { x: 16, y: 282, width: 354, height: 28 }
}

/// Tells whether a position lies in a rectangle or on its edge.
pub fn contains(x: Double, y: Double, bounds: Bounds) -> (answer: bool)
    requires
        bounds.valid(),
    ensures
        answer == bounds.holds(x, y),
{
    x.at_least(bounds.x) && x.at_most(bounds.x + bounds.width) && y.at_least(bounds.y)
        && y.at_most(bounds.y + bounds.height)
}

/// What a click is on.
#[derive(Debug, Clone, Copy, PartialEq, Eq, Structural)]
pub enum PopupTarget {
    Refresh,
    AutoStart,
    Nothing,
}

/// What a click at a position is on.
pub open spec fn target_of(x: Double, y: Double) -> PopupTarget {
    if refresh_bounds_spec().holds(x, y) {
        PopupTarget::Refresh
    } else if auto_start_bounds_spec().holds(x, y) {
        PopupTarget::AutoStart
    } else {
        PopupTarget::Nothing
    }
}

/// Tells what a click at a position is on.
pub fn target_at(x: Double, y: Double) -> (target: PopupTarget)
    ensures
        target == target_of(x, y),
{
    if contains(x, y, refresh_bounds()) {
        PopupTarget::Refresh
    } else if contains(x, y, auto_start_bounds()) {
        PopupTarget::AutoStart
    } else {
        PopupTarget::Nothing
    }
}

/// No click is on both buttons.
pub proof fn law_buttons_are_apart(x: Double, y: Double)
    ensures
        !(refresh_bounds_spec().holds(x, y) && auto_start_bounds_spec().holds(x, y)),
{
    vstd::arithmetic::power2::lemma_pow2_pos(1074);
    assert(!(y.stays_within(278) && y.reaches(282)));
}

/// A piece of the popup, in the order of drawing.
#[derive(Debug, PartialEq)]
pub enum Mark {
    /// Fills the whole popup.
    Background { color: u32 },
    /// A rectangle with rounded corners.
    RoundedRect { bounds: Bounds, radius: u32, color: u32 },
    /// A line of text, by the upper left corner.
    Label { x: u32, y: u32, point_size: u32, words: String, color: u32 },
    /// The ring of the gauge, in the colours of its bands.
    GaugeRing,
    /// A stroke across the ring of the gauge at a percentage.
    GaugeTick { percent: u8, color: u32 },
    /// The needle of the gauge at a percentage, with its hub.
    GaugeNeedle { percent: u8, color: u32 },
    /// A disc, by its centre.
    Disc { x: u32, y: u32, radius: u32, color: u32 },
}

/// The contents of a piece of the popup.
pub enum MarkView {
    Background { color: int },
    RoundedRect { bounds: Bounds, radius: int, color: int },
    Label { x: int, y: int, point_size: int, words: Seq<char>, color: int },
    GaugeRing,
    GaugeTick { percent: int, color: int },
    GaugeNeedle { percent: int, color: int },
    Disc { x: int, y: int, radius: int, color: int },
}

impl View for Mark {
    type V = MarkView;

    open spec fn view(&self) -> MarkView {
        match *self {
            Mark::Background { color } => MarkView::Background { color: color as int },
            Mark::RoundedRect { bounds, radius, color } => MarkView::RoundedRect {
                bounds,
                radius: radius as int,
                color: color as int,
            },
            Mark::Label { x, y, point_size, words, color } => MarkView::Label {
                x: x as int,
                y: y as int,
                point_size: point_size as int,
                words: words@,
                color: color as int,
            },
            Mark::GaugeRing => MarkView::GaugeRing,
            Mark::GaugeTick { percent, color } => MarkView::GaugeTick {
                percent: percent as int,
                color: color as int,
            },
            Mark::GaugeNeedle { percent, color } => MarkView::GaugeNeedle {
                percent: percent as int,
                color: color as int,
            },
            Mark::Disc { x, y, radius, color } => MarkView::Disc {
                x: x as int,
                y: y as int,
                radius: radius as int,
                color: color as int,
            },
        }
    }
}

/// The contents of a list of pieces.
pub open spec fn mark_views(marks: Seq<Mark>) -> Seq<MarkView> {
    marks.map_values(|mark: Mark| mark@)
}

/// A line of text.
pub open spec fn label_view(
    x: int,
    y: int,
    point_size: int,
    words: Seq<char>,
    color: int,
) -> MarkView {
    MarkView::Label { x, y, point_size, words, color }
}

/// A rectangle with rounded corners.
pub open spec fn rect_view(
    x: u32,
    y: u32,
    width: u32,
    height: u32,
    radius: int,
    color: int,
) -> MarkView {
    MarkView::RoundedRect { bounds: Bounds { x, y, width, height }, radius, color }
}

/// The pieces of the gauge.
pub open spec fn gauge_view(status: MonitorStatus, remaining_percent: u8) -> Seq<MarkView> {
    let pale = color::packed(226, 232, 240);
    let dim = color::packed(148, 163, 184);
    seq![
        MarkView::GaugeRing,
        MarkView::GaugeTick { percent: 0, color: pale },
        MarkView::GaugeTick { percent: 25, color: pale },
        MarkView::GaugeTick { percent: 50, color: pale },
        MarkView::GaugeTick { percent: 75, color: pale },
        MarkView::GaugeTick { percent: 100, color: pale },
        MarkView::GaugeNeedle {
            percent: remaining_percent as int,
            color: color::needle_rgb(status, remaining_percent),
        },
        label_view(20, 155, 11, "0"@, dim),
        label_view(118, 155, 11, "100"@, dim),
    ]
}

/// The pieces above the gauge.
pub open spec fn heading_view() -> Seq<MarkView> {
    seq![
        MarkView::Background { color: color::packed(15, 23, 42) },
        rect_view(16, 14, 358, 294, 16, color::packed(24, 34, 55)),
        label_view(32, 31, 18, "Codex Monitor"@, color::packed(241, 245, 249)),
        label_view(32, 55, 12, "WEEKLY USAGE"@, color::packed(148, 163, 184)),
    ]
}

/// The pieces that say how much remains and what Codex does.
pub open spec fn remaining_view(state: AppState) -> Seq<MarkView> {
    seq![
        label_view(
            154,
            66,
            48,
            text::decimal(state.remaining_percent as nat) + "%"@,
            color::needle_rgb(state.status, state.remaining_percent),
        ),
        label_view(158, 118, 14, "weekly remaining"@, color::packed(203, 213, 225)),
        rect_view(158, 143, 164, 28, 14, color::status_rgb(state.status)),
        label_view(173, 151, 12, state.status.words(), color::packed(15, 23, 42)),
    ]
}

/// The pieces that say when the usage is reset.
pub open spec fn reset_view(
    reset_at: Option<i64>,
    date: Option<Seq<char>>,
    now: Option<u64>,
) -> Seq<MarkView> {
    seq![
        label_view(32, 190, 12, "RESETS IN"@, color::packed(148, 163, 184)),
        label_view(32, 207, 18, state::reset_words(reset_at, now), color::packed(241, 245, 249)),
        label_view(32, 232, 12, state::date_words(date), color::packed(148, 163, 184)),
    ]
}

/// The pieces of the refresh button and the auto-start switch.
pub open spec fn buttons_view(start_with_windows: bool) -> Seq<MarkView> {
    seq![
        rect_view(256, 241, 114, 37, 10, color::packed(59, 130, 246)),
        label_view(281, 253, 13, "Refresh"@, color::packed(255, 255, 255)),
        rect_view(16, 282, 354, 28, 10, color::packed(30, 41, 59)),
        label_view(31, 290, 12, "Start with Windows"@, color::packed(203, 213, 225)),
        rect_view(
            326,
            288,
            30,
            16,
            8,
            if start_with_windows {
                color::packed(67, 201, 122)
            } else {
                color::packed(100, 107, 119)
            },
        ),
        MarkView::Disc {
            x: if start_with_windows {
                347
            } else {
                335
            },
            y: 296,
            radius: 6,
            color: color::packed(245, 247, 250),
        },
    ]
}

/// The piece that shows an error, where there is one.
pub open spec fn error_view(error: Option<Seq<char>>) -> Seq<MarkView> {
    match error {
        Some(error) => seq![
            label_view(
                32,
                252,
                11,
                text::truncated(error, ERROR_LIMIT as nat),
                color::packed(238, 138, 79),
            ),
        ],
        None => Seq::empty(),
    }
}

/// All that the popup shows. `date` is the local date of the reset, where
/// there is one.
pub open spec fn popup_view(
    state: AppState,
    start_with_windows: bool,
    date: Option<Seq<char>>,
    now: Option<u64>,
) -> Seq<MarkView> {
    heading_view() + gauge_view(state.status, state.remaining_percent) + remaining_view(state)
        + reset_view(state.reset_at, date, now) + buttons_view(start_with_windows) + error_view(
        json::optional_view(state.last_error),
    )
}

fn label(x: u32, y: u32, point_size: u32, words: &str, color: u32) -> (mark: Mark)
    ensures
        mark@ == label_view(x as int, y as int, point_size as int, words@, color as int),
{
    Mark::Label { x, y, point_size, words: words.to_owned(), color }
}

fn rounded(x: u32, y: u32, width: u32, height: u32, radius: u32, color: u32) -> (mark: Mark)
    ensures
        mark@ == rect_view(x, y, width, height, radius as int, color as int),
{
    Mark::RoundedRect { bounds: Bounds { x, y, width, height }, radius, color }
}

fn heading() -> (marks: Vec<Mark>)
    ensures
        mark_views(marks@) == heading_view(),
{
    let mut marks: Vec<Mark> = Vec::new();
    marks.push(Mark::Background { color: color::rgb(15, 23, 42) });
    marks.push(rounded(16, 14, 358, 294, 16, color::rgb(24, 34, 55)));
    marks.push(label(32, 31, 18, "Codex Monitor", color::rgb(241, 245, 249)));
    marks.push(label(32, 55, 12, "WEEKLY USAGE", color::rgb(148, 163, 184)));
    proof {
        assert(mark_views(marks@) =~= heading_view());
    }
    marks
}

/// Lays out the gauge.
pub fn gauge_marks(status: MonitorStatus, remaining_percent: u8) -> (marks: Vec<Mark>)
    ensures
        mark_views(marks@) == gauge_view(status, remaining_percent),
{
    let pale: u32 = color::rgb(226, 232, 240);
    let dim: u32 = color::rgb(148, 163, 184);
    let needle: u32 = color::zone_color_for(status, remaining_percent);
    let mut marks: Vec<Mark> = Vec::new();
    marks.push(Mark::GaugeRing);
    marks.push(Mark::GaugeTick { percent: 0, color: pale });
    marks.push(Mark::GaugeTick { percent: 25, color: pale });
    marks.push(Mark::GaugeTick { percent: 50, color: pale });
    marks.push(Mark::GaugeTick { percent: 75, color: pale });
    marks.push(Mark::GaugeTick { percent: 100, color: pale });
    marks.push(Mark::GaugeNeedle { percent: remaining_percent, color: needle });
    marks.push(label(20, 155, 11, "0", dim));
    marks.push(label(118, 155, 11, "100", dim));
    proof {
        assert(mark_views(marks@) =~= gauge_view(status, remaining_percent));
    }
    marks
}

fn remaining_marks(state: &AppState) -> (marks: Vec<Mark>)
    ensures
        mark_views(marks@) == remaining_view(*state),
{
    let percentage = text::joined(
        text::decimal_text(state.remaining_percent as u64).as_str(),
        "%",
    );
    let mut marks: Vec<Mark> = Vec::new();
    marks.push(label(154, 66, 48, percentage.as_str(), state::zone_color(state)));
    marks.push(label(158, 118, 14, "weekly remaining", color::rgb(203, 213, 225)));
    marks.push(rounded(158, 143, 164, 28, 14, color::status_color(state.status)));
    marks.push(label(173, 151, 12, state.status.label(), color::rgb(15, 23, 42)));
    proof {
        assert(mark_views(marks@) =~= remaining_view(*state));
    }
    marks
}

fn reset_marks(reset_at: Option<i64>, date: Option<String>, now: Option<u64>) -> (marks: Vec<Mark>)
    requires
        state::known_reset_is_near(reset_at, now),
    ensures
        mark_views(marks@) == reset_view(reset_at, json::optional_view(date), now),
{
    let remaining = state::reset_text(reset_at, now);
    let ghost shown = json::optional_view(date);
    let date = state::date_text(date);
    let mut marks: Vec<Mark> = Vec::new();
    marks.push(label(32, 190, 12, "RESETS IN", color::rgb(148, 163, 184)));
    marks.push(label(32, 207, 18, remaining.as_str(), color::rgb(241, 245, 249)));
    marks.push(label(32, 232, 12, date.as_str(), color::rgb(148, 163, 184)));
    proof {
        assert(mark_views(marks@) =~= reset_view(reset_at, shown, now));
    }
    marks
}

fn button_marks(start_with_windows: bool) -> (marks: Vec<Mark>)
    ensures
        mark_views(marks@) == buttons_view(start_with_windows),
{
    let switch: u32 = if start_with_windows {
        color::rgb(67, 201, 122)
    } else {
        color::rgb(100, 107, 119)
    };
    let knob: u32 = if start_with_windows {
        347
    } else {
        335
    };
    let mut marks: Vec<Mark> = Vec::new();
    marks.push(rounded(256, 241, 114, 37, 10, color::rgb(59, 130, 246)));
    marks.push(label(281, 253, 13, "Refresh", color::rgb(255, 255, 255)));
    marks.push(rounded(16, 282, 354, 28, 10, color::rgb(30, 41, 59)));
    marks.push(label(31, 290, 12, "Start with Windows", color::rgb(203, 213, 225)));
    marks.push(rounded(326, 288, 30, 16, 8, switch));
    marks.push(Mark::Disc { x: knob, y: 296, radius: 6, color: color::rgb(245, 247, 250) });
    proof {
        assert(mark_views(marks@) =~= buttons_view(start_with_windows));
    }
    marks
}

fn append_marks(marks: &mut Vec<Mark>, more: Vec<Mark>)
    ensures
        mark_views(final(marks)@) == mark_views(old(marks)@) + mark_views(more@),
{
    let ghost before = marks@;
    let ghost added = more@;
    let mut more = more;
    marks.append(&mut more);
    proof {
        assert(marks@ == before + added);
        assert(mark_views(marks@) =~= mark_views(before) + mark_views(added));
    }
}

/// Lays out the popup.
pub fn popup_marks(
    state: &AppState,
    start_with_windows: bool,
    date: Option<String>,
    now: Option<u64>,
) -> (marks: Vec<Mark>)
    requires
        state::known_reset_is_near(state.reset_at, now),
    ensures
        mark_views(marks@) == popup_view(
            *state,
            start_with_windows,
            json::optional_view(date),
            now,
        ),
{
    let mut marks = heading();
    append_marks(&mut marks, gauge_marks(state.status, state.remaining_percent));
    append_marks(&mut marks, remaining_marks(state));
    append_marks(&mut marks, reset_marks(state.reset_at, date, now));
    append_marks(&mut marks, button_marks(start_with_windows));
    let mut errors: Vec<Mark> = Vec::new();
    if let Some(error) = &state.last_error {
        errors.push(
            label(
                32,
                252,
                11,
                text::truncate(error.as_str(), ERROR_LIMIT).as_str(),
                color::rgb(238, 138, 79),
            ),
        );
    }
    proof {
        assert(mark_views(errors@) =~= error_view(json::optional_view(state.last_error)));
    }
    append_marks(&mut marks, errors);
    marks
}

/// Lays out the popup with the local date of the reset.
pub fn dated_popup_marks(state: &AppState, start_with_windows: bool, now: Option<u64>) -> (marks:
    Vec<Mark>)
    requires
        state::known_reset_is_near(state.reset_at, now),
    ensures
        exists|date: Option<Seq<char>>|
            state::is_reset_date(date, state.reset_at) && mark_views(marks@)
                == #[trigger] popup_view(*state, start_with_windows, date, now),
{
    let date = state::reset_date(state.reset_at);
    let ghost shown = json::optional_view(date);
    let marks = popup_marks(state, start_with_windows, date, now);
    assert(mark_views(marks@) == popup_view(*state, start_with_windows, shown, now));
    marks
}

/// The buttons take clicks where they are drawn.
pub proof fn law_buttons_are_where_they_are_drawn(
    state: AppState,
    start_with_windows: bool,
    date: Option<Seq<char>>,
    now: Option<u64>,
)
    ensures
        popup_view(state, start_with_windows, date, now).contains(
            MarkView::RoundedRect {
                bounds: refresh_bounds_spec(),
                radius: 10,
                color: color::packed(59, 130, 246),
            },
        ),
        popup_view(state, start_with_windows, date, now).contains(
            MarkView::RoundedRect {
                bounds: auto_start_bounds_spec(),
                radius: 10,
                color: color::packed(30, 41, 59),
            },
        ),
{
    let marks = popup_view(state, start_with_windows, date, now);
    assert(marks[20] == MarkView::RoundedRect {
        bounds: refresh_bounds_spec(),
        radius: 10,
        color: color::packed(59, 130, 246),
    });
    assert(marks[22] == MarkView::RoundedRect {
        bounds: auto_start_bounds_spec(),
        radius: 10,
        color: color::packed(30, 41, 59),
    });
}

/// How many squares make a pixel of the built-in font at a point size: one
/// for every eight points, and at least one.
pub fn builtin_font_scale(point_size: u32) -> (scale: u32)
    ensures
        scale == font_scale_of(point_size as nat),
{
    if point_size < 16 {
        1
    } else {
        point_size / 8
    }
}

/// Whether a piece stands in a list, and is the only one that is like it.
pub open spec fn is_the_only(
    marks: Seq<MarkView>,
    mark: MarkView,
    like: spec_fn(MarkView) -> bool,
) -> bool {
    exists|i: int|
        0 <= i < marks.len() && #[trigger] marks[i] == mark && like(mark) && forall|j: int|
            0 <= j < marks.len() && j != i ==> !like(#[trigger] marks[j])
}

/// The gauge has just one needle, and it stands at the remaining percentage
/// itself, in the colour of that percentage.
pub proof fn law_gauge_has_one_needle(status: MonitorStatus, remaining_percent: u8)
    ensures
        ({
            let percent = remaining_percent as int;
            let color = color::needle_rgb(status, remaining_percent);
            is_the_only(
                gauge_view(status, remaining_percent),
                MarkView::GaugeNeedle { percent, color },
                |mark: MarkView| mark is GaugeNeedle,
            )
        }),
{
    let marks = gauge_view(status, remaining_percent);
    assert(marks[6] is GaugeNeedle);
}

/// Needles of different percentages stand at different places.
pub proof fn law_needle_tells_the_percentage(
    status: MonitorStatus,
    one: u8,
    other: u8,
)
    requires
        gauge_view(status, one) == gauge_view(status, other),
    ensures
        one == other,
{
    assert(gauge_view(status, one)[6] == gauge_view(status, other)[6]);
}

/// The gauge has one ring, and strokes at each quarter and at both ends, all in
/// the same colour, and no others.
pub proof fn law_gauge_has_its_strokes(
    status: MonitorStatus,
    remaining_percent: u8,
    percent: int,
    color: int,
)
    ensures
        ({
            let marks = gauge_view(status, remaining_percent);
            &&& is_the_only(marks, MarkView::GaugeRing, |mark: MarkView| mark is GaugeRing)
            &&& marks.contains(MarkView::GaugeTick { percent, color }) <==> color == 0xe2_e8_f0 && (
            percent == 0 || percent == 25 || percent == 50 || percent == 75 || percent == 100)
            &&& marks.contains(label_view(20, 155, 11, "0"@, 0x94_a3_b8))
            &&& marks.contains(label_view(118, 155, 11, "100"@, 0x94_a3_b8))
            &&& marks.len() == 9
        }),
{
    let marks = gauge_view(status, remaining_percent);
    assert(marks[0] is GaugeRing);
    assert(marks[1] == MarkView::GaugeTick { percent: 0, color: 0xe2_e8_f0 });
    assert(marks[2] == MarkView::GaugeTick { percent: 25, color: 0xe2_e8_f0 });
    assert(marks[3] == MarkView::GaugeTick { percent: 50, color: 0xe2_e8_f0 });
    assert(marks[4] == MarkView::GaugeTick { percent: 75, color: 0xe2_e8_f0 });
    assert(marks[5] == MarkView::GaugeTick { percent: 100, color: 0xe2_e8_f0 });
    assert(marks[7] == label_view(20, 155, 11, "0"@, 0x94_a3_b8));
    assert(marks[8] == label_view(118, 155, 11, "100"@, 0x94_a3_b8));
}

/// The popup shows the gauge of its state, whole and once: its needle stands at
/// the percentage that the large label writes, in the same colour.
pub proof fn law_needle_and_label_agree(
    state: AppState,
    start_with_windows: bool,
    date: Option<Seq<char>>,
    now: Option<u64>,
)
    ensures
        ({
            let marks = popup_view(state, start_with_windows, date, now);
            let color = color::needle_rgb(state.status, state.remaining_percent);
            let percent = state.remaining_percent;
            &&& is_the_only(
                marks,
                MarkView::GaugeNeedle { percent: percent as int, color },
                |mark: MarkView| mark is GaugeNeedle,
            )
            &&& is_the_only(
                marks,
                label_view(154, 66, 48, text::decimal(percent as nat) + "%"@, color),
                |mark: MarkView| mark matches MarkView::Label { point_size, .. } && point_size > 18,
            )
            &&& marks.subrange(4, 13) == gauge_view(state.status, percent)
        }),
{
    let marks = popup_view(state, start_with_windows, date, now);
    assert(marks.subrange(4, 13) =~= gauge_view(state.status, state.remaining_percent));
    assert(marks[10] is GaugeNeedle);
    assert(marks[13] is Label);
}

/// The popup begins with one background and has as many pieces as it has parts:
/// one more where there is an error.
pub proof fn law_popup_has_its_parts(
    state: AppState,
    start_with_windows: bool,
    date: Option<Seq<char>>,
    now: Option<u64>,
)
    ensures
        ({
            let marks = popup_view(state, start_with_windows, date, now);
            &&& marks[0] == MarkView::Background { color: 0x0f_17_2a }
            &&& is_the_only(marks, marks[0], |mark: MarkView| mark is Background)
            &&& marks[1] == rect_view(16, 14, 358, 294, 16, 0x18_22_37)
            &&& marks.contains(label_view(32, 31, 18, "Codex Monitor"@, 0xf1_f5_f9))
            &&& marks.contains(label_view(32, 55, 12, "WEEKLY USAGE"@, 0x94_a3_b8))
            &&& marks.contains(label_view(158, 118, 14, "weekly remaining"@, 0xcb_d5_e1))
            &&& marks.contains(label_view(32, 190, 12, "RESETS IN"@, 0x94_a3_b8))
            &&& marks.contains(label_view(281, 253, 13, "Refresh"@, 0xff_ff_ff))
            &&& marks.contains(label_view(31, 290, 12, "Start with Windows"@, 0xcb_d5_e1))
            &&& marks.len() == if state.last_error is Some {
                27nat
            } else {
                26nat
            }
        }),
{
    let marks = popup_view(state, start_with_windows, date, now);
    assert(marks[2] == label_view(32, 31, 18, "Codex Monitor"@, 0xf1_f5_f9));
    assert(marks[3] == label_view(32, 55, 12, "WEEKLY USAGE"@, 0x94_a3_b8));
    assert(marks[14] == label_view(158, 118, 14, "weekly remaining"@, 0xcb_d5_e1));
    assert(marks[17] == label_view(32, 190, 12, "RESETS IN"@, 0x94_a3_b8));
    assert(marks[21] == label_view(281, 253, 13, "Refresh"@, 0xff_ff_ff));
    assert(marks[23] == label_view(31, 290, 12, "Start with Windows"@, 0xcb_d5_e1));
}

/// The popup names the status, on the colour of that status, and in one place.
pub proof fn law_popup_names_the_status(
    state: AppState,
    start_with_windows: bool,
    date: Option<Seq<char>>,
    now: Option<u64>,
)
    ensures
        ({
            let marks = popup_view(state, start_with_windows, date, now);
            &&& is_the_only(
                marks,
                label_view(173, 151, 12, state.status.words(), 0x0f_17_2a),
                |mark: MarkView| mark matches MarkView::Label { y, .. } && y == 151,
            )
            &&& is_the_only(
                marks,
                rect_view(158, 143, 164, 28, 14, color::status_rgb(state.status)),
                |mark: MarkView| mark matches MarkView::RoundedRect { bounds, .. } && bounds.y == 143,
            )
        }),
{
    let marks = popup_view(state, start_with_windows, date, now);
    assert(marks[15] is RoundedRect);
    assert(marks[16] is Label);
}

/// The popup says how far the reset is and on which date, each in one place.
pub proof fn law_popup_tells_the_reset(
    state: AppState,
    start_with_windows: bool,
    date: Option<Seq<char>>,
    now: Option<u64>,
)
    ensures
        ({
            let marks = popup_view(state, start_with_windows, date, now);
            &&& is_the_only(
                marks,
                label_view(32, 207, 18, state::reset_words(state.reset_at, now), 0xf1_f5_f9),
                |mark: MarkView| mark matches MarkView::Label { y, .. } && y == 207,
            )
            &&& is_the_only(
                marks,
                label_view(
                    32,
                    232,
                    12,
                    match date {
                        Some(date) => date,
                        None => "Date unavailable"@,
                    },
                    0x94_a3_b8,
                ),
                |mark: MarkView| mark matches MarkView::Label { y, .. } && y == 232,
            )
        }),
{
    let marks = popup_view(state, start_with_windows, date, now);
    assert(marks[18] is Label);
    assert(marks[19] is Label);
}

/// The knob of the switch stands to the right on green where the monitor starts
/// with Windows, else to the left on grey.
pub proof fn law_switch_shows_the_setting(
    state: AppState,
    start_with_windows: bool,
    date: Option<Seq<char>>,
    now: Option<u64>,
)
    ensures
        ({
            let marks = popup_view(state, start_with_windows, date, now);
            let (x, color) = if start_with_windows {
                (347int, 0x43_c9_7aint)
            } else {
                (335int, 0x64_6b_77int)
            };
            &&& is_the_only(
                marks,
                MarkView::Disc { x, y: 296, radius: 6, color: 0xf5_f7_fa },
                |mark: MarkView| mark is Disc,
            )
            &&& is_the_only(
                marks,
                rect_view(326, 288, 30, 16, 8, color),
                |mark: MarkView| mark matches MarkView::RoundedRect { bounds, .. } && bounds.y == 288,
            )
        }),
{
    let marks = popup_view(state, start_with_windows, date, now);
    assert(marks[24] is RoundedRect);
    assert(marks[25] is Disc);
}

/// An error is shown in one place, cut to its first characters where it is long;
/// without an error nothing stands there.
pub proof fn law_error_is_shown(
    state: AppState,
    start_with_windows: bool,
    date: Option<Seq<char>>,
    now: Option<u64>,
)
    ensures
        ({
            let marks = popup_view(state, start_with_windows, date, now);
            match state.last_error {
                Some(error) => is_the_only(
                    marks,
                    label_view(32, 252, 11, text::truncated(error@, 28), 0xee_8a_4f),
                    |mark: MarkView| mark matches MarkView::Label { y, .. } && y == 252,
                ),
                None => forall|i: int|
                    0 <= i < marks.len() ==> !(#[trigger] marks[i] matches MarkView::Label {
                        y,
                        ..
                    } && y == 252),
            }
        }),
{
    let marks = popup_view(state, start_with_windows, date, now);
    if state.last_error is Some {
        assert(marks[26] is Label);
    }
}

/// What is set and when it is do not change what the popup says of the usage: the
/// first pieces depend on the status and the percentage alone.
pub proof fn law_usage_is_shown_the_same(
    one: AppState,
    other: AppState,
    one_setting: bool,
    other_setting: bool,
    one_date: Option<Seq<char>>,
    other_date: Option<Seq<char>>,
    one_now: Option<u64>,
    other_now: Option<u64>,
)
    requires
        one.status == other.status,
        one.remaining_percent == other.remaining_percent,
    ensures
        popup_view(one, one_setting, one_date, one_now).take(17) == popup_view(
            other,
            other_setting,
            other_date,
            other_now,
        ).take(17),
{
    assert(popup_view(one, one_setting, one_date, one_now).take(17) =~= popup_view(
        other,
        other_setting,
        other_date,
        other_now,
    ).take(17));
}

/// A click is on the refresh button from 256 to 370 and from 241 to 278, on the
/// switch from 16 to 370 and from 282 to 310, edges and all, and nowhere else
/// on anything.
pub proof fn law_clicks_hit_their_targets(x: Double, y: Double)
    ensures
        target_of(x, y) == PopupTarget::Refresh <==> x.reaches(256) && x.stays_within(370)
            && y.reaches(241) && y.stays_within(278),
        target_of(x, y) == PopupTarget::AutoStart <==> x.reaches(16) && x.stays_within(370)
            && y.reaches(282) && y.stays_within(310),
{
    law_buttons_are_apart(x, y);
}

/// The view of a list of pieces has each of them in its place, with all that it
/// holds.
pub proof fn law_views_hold_the_pieces(marks: Seq<Mark>, i: int)
    requires
        0 <= i < marks.len(),
    ensures
        mark_views(marks).len() == marks.len(),
        match marks[i] {
            Mark::Background { color } => mark_views(marks)[i] == (MarkView::Background {
                color: color as int,
            }),
            Mark::RoundedRect { bounds, radius, color } => mark_views(marks)[i]
                == (MarkView::RoundedRect { bounds, radius: radius as int, color: color as int }),
            Mark::Label { x, y, point_size, words, color } => mark_views(marks)[i]
                == (MarkView::Label {
                x: x as int,
                y: y as int,
                point_size: point_size as int,
                words: words@,
                color: color as int,
            }),
            Mark::GaugeRing => mark_views(marks)[i] is GaugeRing,
            Mark::GaugeTick { percent, color } => mark_views(marks)[i] == (MarkView::GaugeTick {
                percent: percent as int,
                color: color as int,
            }),
            Mark::GaugeNeedle { percent, color } => mark_views(marks)[i]
                == (MarkView::GaugeNeedle { percent: percent as int, color: color as int }),
            Mark::Disc { x, y, radius, color } => mark_views(marks)[i] == (MarkView::Disc {
                x: x as int,
                y: y as int,
                radius: radius as int,
                color: color as int,
            }),
        },
{
}

/// How many squares make a pixel of the built-in font at a point size.
pub open spec fn font_scale_of(point_size: nat) -> nat {
    if point_size < 16 {
        1
    } else {
        point_size / 8
    }
}

/// A glyph of the built-in font is as large as its point size allows, which is
/// eight squares across, and at least one square for each of its pixels.
pub proof fn law_builtin_font_fits_its_size(point_size: nat)
    ensures
        font_scale_of(point_size) >= 1,
        point_size >= 8 ==> 8 * font_scale_of(point_size) <= point_size < 8 * font_scale_of(
            point_size,
        ) + 8,
        point_size < 8 ==> font_scale_of(point_size) == 1,
{
}

/// A size is accepted as it is exactly where it has width and height.
pub proof fn law_only_a_real_size_is_accepted(
    size: Result<(u32, u32), String>,
    width: u32,
    height: u32,
)
    requires
        is_checked_size(size, width, height),
    ensures
        size is Ok <==> width != 0 && height != 0,
        size matches Ok(accepted) ==> accepted == (width, height),
        size matches Err(reason) ==> reason@ == if width == 0 {
            "Popup width was zero"@
        } else {
            "Popup height was zero"@
        },
{
}

} // verus!
