//! Colours as packed red, green and blue.

use vstd::prelude::*;

use crate::quota;
use crate::quota::GaugeZone;
use crate::status::MonitorStatus;

verus! {

/// A colour with eight bits for each of red, green and blue, blue lowest.
pub open spec fn packed(red: int, green: int, blue: int) -> int {
    red * 65536 + green * 256 + blue
}

/// Packs a colour.
pub fn rgb(red: u8, green: u8, blue: u8) -> (color: u32)
    ensures
        color == packed(red as int, green as int, blue as int),
{
    let r: u32 = red as u32;
    let g: u32 = green as u32;
    let b: u32 = blue as u32;
    assert(b | (g << 8) | (r << 16) == r * 65536 + g * 256 + b) by (bit_vector)
        requires
            r < 256,
            g < 256,
            b < 256,
    ;
    b | (g << 8) | (r << 16)
}

/// The red part of a colour.
pub open spec fn red_of(color: u32) -> int {
    (color as int / 65536) % 256
}

/// The green part of a colour.
pub open spec fn green_of(color: u32) -> int {
    (color as int / 256) % 256
}

/// The blue part of a colour.
pub open spec fn blue_of(color: u32) -> int {
    color as int % 256
}

/// A packed colour has the parts that it was packed from.
pub proof fn law_packed_parts(red: int, green: int, blue: int)
    requires
        0 <= red < 256,
        0 <= green < 256,
        0 <= blue < 256,
    ensures
        0 <= packed(red, green, blue) < 0x1_00_00_00,
        red_of(packed(red, green, blue) as u32) == red,
        green_of(packed(red, green, blue) as u32) == green,
        blue_of(packed(red, green, blue) as u32) == blue,
{
    let color = packed(red, green, blue);
    assert(color as u32 as int == color);
    assert(color / 65536 == red);
    assert(color / 256 == red * 256 + green);
    assert(color % 256 == blue);
}

/// One part of two colours laid over each other: the share of the upper one is
/// `alpha` of 255.
pub open spec fn mixed(background: int, foreground: int, alpha: int) -> int {
    (background * (255 - alpha) + foreground * alpha) / 255
}

/// A colour laid over another.
pub open spec fn blended(background: u32, foreground: u32, alpha: u8) -> u32 {
    packed(
        mixed(red_of(background), red_of(foreground), alpha as int),
        mixed(green_of(background), green_of(foreground), alpha as int),
        mixed(blue_of(background), blue_of(foreground), alpha as int),
    ) as u32
}

proof fn lemma_mixed_between(background: int, foreground: int, alpha: int)
    requires
        0 <= background < 256,
        0 <= foreground < 256,
        0 <= alpha <= 255,
    ensures
        0 <= mixed(background, foreground, alpha) <= 255,
        background <= foreground ==> background <= mixed(background, foreground, alpha)
            <= foreground,
        foreground <= background ==> foreground <= mixed(background, foreground, alpha)
            <= background,
        0 <= background * (255 - alpha) <= 65025,
        0 <= foreground * alpha <= 65025,
{
    let sum = background * (255 - alpha) + foreground * alpha;
    assert(sum == 255 * background + (foreground - background) * alpha) by (nonlinear_arith)
        requires
            sum == background * (255 - alpha) + foreground * alpha,
    ;
    assert(sum == 255 * foreground + (background - foreground) * (255 - alpha)) by (nonlinear_arith)
        requires
            sum == background * (255 - alpha) + foreground * alpha,
    ;
    if background <= foreground {
        assert((foreground - background) * alpha >= 0) by (nonlinear_arith)
            requires
                background <= foreground,
                alpha >= 0,
        ;
        assert((background - foreground) * (255 - alpha) <= 0) by (nonlinear_arith)
            requires
                background <= foreground,
                alpha <= 255,
        ;
    } else {
        assert((foreground - background) * alpha <= 0) by (nonlinear_arith)
            requires
                background >= foreground,
                alpha >= 0,
        ;
        assert((background - foreground) * (255 - alpha) >= 0) by (nonlinear_arith)
            requires
                background >= foreground,
                alpha <= 255,
        ;
    }
    assert(0 <= background * (255 - alpha) <= 65025) by (nonlinear_arith)
        requires
            0 <= background < 256,
            0 <= alpha <= 255,
    ;
    assert(0 <= foreground * alpha <= 65025) by (nonlinear_arith)
        requires
            0 <= foreground < 256,
            0 <= alpha <= 255,
    ;
}

fn mix(background: u32, foreground: u32, alpha: u32) -> (part: u32)
    requires
        background < 256,
        foreground < 256,
        alpha < 256,
    ensures
        part == mixed(background as int, foreground as int, alpha as int),
        part < 256,
{
    proof {
        lemma_mixed_between(background as int, foreground as int, alpha as int);
    }
    (background * (255 - alpha) + foreground * alpha) / 255
}

/// Lays a colour over another; what lies above the red part is dropped.
pub fn blend(background: u32, foreground: u32, alpha: u8) -> (color: u32)
    ensures
        color == blended(background, foreground, alpha),
{
    let alpha: u32 = alpha as u32;
    let red: u32 = mix((background / 65536) % 256, (foreground / 65536) % 256, alpha);
    let green: u32 = mix((background / 256) % 256, (foreground / 256) % 256, alpha);
    let blue: u32 = mix(background % 256, foreground % 256, alpha);
    red * 65536 + green * 256 + blue
}

proof fn lemma_parts_make_the_colour(color: u32)
    ensures
        packed(red_of(color), green_of(color), blue_of(color)) == color & 0xff_ffff,
{
    assert(((color / 65536) % 256) * 65536 + ((color / 256) % 256) * 256 + color % 256 == color
        & 0xff_ffff) by (bit_vector);
}

proof fn lemma_mixed_extremes(below: int, above: int)
    ensures
        mixed(below, above, 0) == below,
        mixed(below, above, 255) == above,
{
    assert(below * 255 + above * 0 == below * 255) by (nonlinear_arith);
    assert(below * 0 + above * 255 == above * 255) by (nonlinear_arith);
}

/// Nothing laid over a colour leaves the colour, and all of a colour hides
/// what is below; what lies above the red part is dropped.
#[verifier::spinoff_prover]
pub proof fn law_blend_extremes(background: u32, foreground: u32)
    ensures
        blended(background, foreground, 0) == background & 0xff_ffff,
        blended(background, foreground, 255) == foreground & 0xff_ffff,
{
    lemma_parts_make_the_colour(background);
    lemma_parts_make_the_colour(foreground);
    let (r, g, b) = (red_of(background), green_of(background), blue_of(background));
    let (s, h, c) = (red_of(foreground), green_of(foreground), blue_of(foreground));
    lemma_mixed_extremes(r, s);
    lemma_mixed_extremes(g, h);
    lemma_mixed_extremes(b, c);
}

/// Each part of a blend lies between those of the two colours.
#[verifier::spinoff_prover]
pub proof fn law_blend_stays_between(background: u32, foreground: u32, alpha: u8)
    ensures
        between(red_of(background), red_of(foreground), red_of(
            blended(background, foreground, alpha),
        )),
        between(green_of(background), green_of(foreground), green_of(
            blended(background, foreground, alpha),
        )),
        between(blue_of(background), blue_of(foreground), blue_of(
            blended(background, foreground, alpha),
        )),
{
    let a = alpha as int;
    lemma_mixed_between(red_of(background), red_of(foreground), a);
    lemma_mixed_between(green_of(background), green_of(foreground), a);
    lemma_mixed_between(blue_of(background), blue_of(foreground), a);
    law_packed_parts(
        mixed(red_of(background), red_of(foreground), a),
        mixed(green_of(background), green_of(foreground), a),
        mixed(blue_of(background), blue_of(foreground), a),
    );
}

/// Whether `value` lies between two bounds, whichever is the lower.
pub open spec fn between(one: int, other: int, value: int) -> bool {
    (one <= value <= other) || (other <= value <= one)
}

/// The colour of a gauge band.
pub open spec fn zone_rgb(zone: GaugeZone) -> int {
    match zone {
        GaugeZone::Green => packed(67, 201, 122),
        GaugeZone::Yellow => packed(246, 201, 63),
        GaugeZone::Orange => packed(239, 142, 50),
        GaugeZone::Red => packed(228, 75, 75),
    }
}

/// The colour of the band in which a percentage lies.
pub fn gauge_band_color(remaining_percent: u8) -> (color: u32)
    ensures
        color == zone_rgb(quota::zone_of(remaining_percent)),
{
    match GaugeZone::for_remaining(remaining_percent) {
        GaugeZone::Green => rgb(67, 201, 122),
        GaugeZone::Yellow => rgb(246, 201, 63),
        GaugeZone::Orange => rgb(239, 142, 50),
        GaugeZone::Red => rgb(228, 75, 75),
    }
}

/// The colour of the percentage and the needle: grey while Codex is offline.
pub open spec fn needle_rgb(status: MonitorStatus, remaining_percent: u8) -> int {
    if status == MonitorStatus::Offline {
        packed(140, 147, 160)
    } else {
        zone_rgb(quota::zone_of(remaining_percent))
    }
}

/// The colour of the percentage and the needle.
pub fn zone_color_for(status: MonitorStatus, remaining_percent: u8) -> (color: u32)
    ensures
        color == needle_rgb(status, remaining_percent),
{
    if status == MonitorStatus::Offline {
        rgb(140, 147, 160)
    } else {
        gauge_band_color(remaining_percent)
    }
}

/// The colour behind the name of a status.
pub open spec fn status_rgb(status: MonitorStatus) -> int {
    match status {
        MonitorStatus::Working => packed(67, 201, 122),
        MonitorStatus::Waiting => packed(246, 201, 63),
        MonitorStatus::Idle => packed(170, 178, 188),
        MonitorStatus::Offline => packed(140, 147, 160),
        MonitorStatus::SuspectedHung => packed(239, 142, 50),
    }
}

/// The colour behind the name of a status.
pub fn status_color(status: MonitorStatus) -> (color: u32)
    ensures
        color == status_rgb(status),
{
    match status {
        MonitorStatus::Working => rgb(67, 201, 122),
        MonitorStatus::Waiting => rgb(246, 201, 63),
        MonitorStatus::Idle => rgb(170, 178, 188),
        MonitorStatus::Offline => rgb(140, 147, 160),
        MonitorStatus::SuspectedHung => rgb(239, 142, 50),
    }
}

/// The colours of the bands, of the statuses and of an offline monitor.
pub proof fn law_colours(status: MonitorStatus, remaining_percent: u8)
    ensures
        status == MonitorStatus::Offline ==> needle_rgb(status, remaining_percent) == 0x8c_93_a0,
        status != MonitorStatus::Offline ==> needle_rgb(status, remaining_percent) == zone_rgb(
            quota::zone_of(remaining_percent),
        ),
        status != MonitorStatus::Offline && 50 <= remaining_percent <= 100 ==> needle_rgb(
            status,
            remaining_percent,
        ) == 0x43_c9_7a,
        status != MonitorStatus::Offline && 25 <= remaining_percent <= 49 ==> needle_rgb(
            status,
            remaining_percent,
        ) == 0xf6_c9_3f,
        status != MonitorStatus::Offline && 10 <= remaining_percent <= 24 ==> needle_rgb(
            status,
            remaining_percent,
        ) == 0xef_8e_32,
        status != MonitorStatus::Offline && (remaining_percent <= 9 || remaining_percent > 100)
            ==> needle_rgb(status, remaining_percent) == 0xe4_4b_4b,
        status_rgb(status) == 0x43_c9_7a <==> status == MonitorStatus::Working,
        status_rgb(status) == 0xf6_c9_3f <==> status == MonitorStatus::Waiting,
        status_rgb(status) == 0xaa_b2_bc <==> status == MonitorStatus::Idle,
        status_rgb(status) == 0x8c_93_a0 <==> status == MonitorStatus::Offline,
        status_rgb(status) == 0xef_8e_32 <==> status == MonitorStatus::SuspectedHung,
{
}

/// The colours of the bands.
pub proof fn law_band_colours(zone: GaugeZone)
    ensures
        zone_rgb(zone) == 0x43_c9_7a <==> zone == GaugeZone::Green,
        zone_rgb(zone) == 0xf6_c9_3f <==> zone == GaugeZone::Yellow,
        zone_rgb(zone) == 0xef_8e_32 <==> zone == GaugeZone::Orange,
        zone_rgb(zone) == 0xe4_4b_4b <==> zone == GaugeZone::Red,
{
}

/// Each part of a blend is the share of the two parts below and above, rounded
/// down; nothing lies above the red part.
#[verifier::spinoff_prover]
pub proof fn law_blend_takes_shares(background: u32, foreground: u32, alpha: u8)
    ensures
        ({
            let color = blended(background, foreground, alpha);
            &&& color < 0x100_0000
            &&& is_share(red_of(color), red_of(background), red_of(foreground), alpha as int)
            &&& is_share(green_of(color), green_of(background), green_of(foreground), alpha as int)
            &&& is_share(blue_of(color), blue_of(background), blue_of(foreground), alpha as int)
        }),
{
    let a = alpha as int;
    lemma_mixed_between(red_of(background), red_of(foreground), a);
    lemma_mixed_between(green_of(background), green_of(foreground), a);
    lemma_mixed_between(blue_of(background), blue_of(foreground), a);
    law_packed_parts(
        mixed(red_of(background), red_of(foreground), a),
        mixed(green_of(background), green_of(foreground), a),
        mixed(blue_of(background), blue_of(foreground), a),
    );
}

/// Whether a part is the share of two others, rounded down: `alpha` of 255 of the
/// one above, and the rest of the one below.
pub open spec fn is_share(part: int, below: int, above: int, alpha: int) -> bool {
    255 * part <= below * (255 - alpha) + above * alpha < 255 * part + 255
}

} // verus!
