//! The tray icon: a ring and a needle in an image of the `image` crate.

use image::{Rgba, RgbaImage};
use vstd::prelude::*;

use crate::color;
use crate::quota;
use crate::quota::GaugeZone;
use crate::status::MonitorStatus;

verus! {

/// The width and height of the icon.
pub const ICON_SIZE: u32 = 32;

/// Red, green, blue and opacity of a pixel.
pub type Shade = (u8, u8, u8, u8);

/// An image with red, green, blue and opacity.
#[verifier::external_body]
pub struct IconImage {
    image: RgbaImage,
}

/// The pixels of an image, row by row.
pub uninterp spec fn image_pixels(image: IconImage) -> Seq<(u8, u8, u8, u8)>;

/// The width that an image was made with.
pub uninterp spec fn image_width(image: IconImage) -> u32;

/// `RgbaImage::from_pixel`: an image of the given size whose pixels are all the
/// same.
#[verifier::external_body]
fn from_pixel(width: u32, height: u32, shade: Shade) -> (image: IconImage)
    requires
        4 * width <= isize::MAX,
        4 * (width * height) <= isize::MAX,
    ensures
        image_width(image) == width,
        image_pixels(image).len() == width * height,
        forall|place: int|
            0 <= place < width * height ==> #[trigger] image_pixels(image)[place] == shade,
{
    let pixel = Rgba([shade.0, shade.1, shade.2, shade.3]);
    IconImage { image: RgbaImage::from_pixel(width, height, pixel) }
}

/// `RgbaImage::put_pixel`: sets the pixel in a column and a row, and no other.
#[verifier::external_body]
fn put_pixel(image: &mut IconImage, x: u32, y: u32, shade: Shade)
    requires
        x < image_width(*old(image)),
        y * image_width(*old(image)) + x < image_pixels(*old(image)).len(),
    ensures
        image_width(*final(image)) == image_width(*old(image)),
        image_pixels(*final(image)) == image_pixels(*old(image)).update(
            y * image_width(*old(image)) + x,
            shade,
        ),
{
    let pixel = Rgba([shade.0, shade.1, shade.2, shade.3]);
    image.image.put_pixel(x, y, pixel);
}

/// `RgbaImage::into_raw`: the bytes of an image, four for each pixel: red,
/// green, blue, opacity.
#[verifier::external_body]
fn into_raw(image: IconImage) -> (bytes: Vec<u8>)
    ensures
        bytes@.len() == 4 * image_pixels(image).len(),
        forall|place: int|
            0 <= place < image_pixels(image).len() ==> #[trigger] image_pixels(image)[place]
                == shade_at(bytes@, place),
{
    image.image.into_raw()
}

/// The pixel at a place among the bytes of an image.
pub open spec fn shade_at(bytes: Seq<u8>, place: int) -> Shade {
    (bytes[4 * place], bytes[4 * place + 1], bytes[4 * place + 2], bytes[4 * place + 3])
}

/// The shade of the needle: grey while Codex is offline, else that of the band
/// in which the remaining percentage lies.
pub open spec fn needle_shade(remaining_percent: u8, status: MonitorStatus) -> Shade {
    if status == MonitorStatus::Offline {
        (120, 124, 132, 255)
    } else {
        match quota::zone_of(remaining_percent) {
            GaugeZone::Green => (67, 201, 122, 255),
            GaugeZone::Yellow => (246, 201, 63, 255),
            GaugeZone::Orange => (239, 142, 50, 255),
            GaugeZone::Red => (228, 75, 75, 255),
        }
    }
}

/// Tells the shade of the needle.
pub fn needle_color(remaining_percent: u8, status: MonitorStatus) -> (shade: Shade)
    ensures
        shade == needle_shade(remaining_percent, status),
{
    match status {
        MonitorStatus::Offline => (120, 124, 132, 255),
        _ => match GaugeZone::for_remaining(remaining_percent) {
            GaugeZone::Green => (67, 201, 122, 255),
            GaugeZone::Yellow => (246, 201, 63, 255),
            GaugeZone::Orange => (239, 142, 50, 255),
            GaugeZone::Red => (228, 75, 75, 255),
        },
    }
}

/// The shade of a pixel of the icon: the needle lies over the ring, and what is
/// neither is transparent.
pub open spec fn icon_shade(
    remaining_percent: u8,
    status: MonitorStatus,
    ring: bool,
    needle: bool,
) -> Shade {
    if needle {
        needle_shade(remaining_percent, status)
    } else if ring {
        (57, 62, 70, 255)
    } else {
        (0, 0, 0, 0)
    }
}

/// Whether a pixel is set where a shape covers it, and left alone where it
/// does not.
pub open spec fn shaded_where<F: Fn(u32, u32) -> bool>(
    inside: F,
    x: u32,
    y: u32,
    below: Shade,
    above: Shade,
    shade: Shade,
) -> bool {
    ||| inside.ensures((x, y), true) && above == shade
    ||| inside.ensures((x, y), false) && above == below
}

/// Sets the pixels of an icon that a shape covers: `inside` tells which those
/// are.
fn draw_shape<F: Fn(u32, u32) -> bool>(image: &mut IconImage, inside: &F, shade: Shade)
    requires
        image_width(*old(image)) == ICON_SIZE,
        image_pixels(*old(image)).len() == ICON_SIZE * ICON_SIZE,
        forall|x: u32, y: u32|
            x < ICON_SIZE && y < ICON_SIZE ==> #[trigger] inside.requires((x, y)),
    ensures
        image_width(*final(image)) == ICON_SIZE,
        image_pixels(*final(image)).len() == ICON_SIZE * ICON_SIZE,
        forall|place: int|
            0 <= place < ICON_SIZE * ICON_SIZE ==> shaded_where(
                *inside,
                (place % 32) as u32,
                (place / 32) as u32,
                image_pixels(*old(image))[place],
                #[trigger] image_pixels(*final(image))[place],
                shade,
            ),
{
    let ghost before = image_pixels(*image);
    let mut y: u32 = 0;
    while y < ICON_SIZE
        invariant
            y <= ICON_SIZE,
            image_width(*image) == ICON_SIZE,
            before.len() == ICON_SIZE * ICON_SIZE,
            image_pixels(*image).len() == ICON_SIZE * ICON_SIZE,
            forall|x: u32, y: u32|
                x < ICON_SIZE && y < ICON_SIZE ==> #[trigger] inside.requires((x, y)),
            forall|place: int|
                0 <= place < 32 * y ==> shaded_where(
                    *inside,
                    (place % 32) as u32,
                    (place / 32) as u32,
                    before[place],
                    #[trigger] image_pixels(*image)[place],
                    shade,
                ),
            forall|place: int|
                32 * y <= place < ICON_SIZE * ICON_SIZE ==> #[trigger] image_pixels(*image)[place]
                    == before[place],
        decreases ICON_SIZE - y,
    {
        let mut x: u32 = 0;
        while x < ICON_SIZE
            invariant
                y < ICON_SIZE,
                x <= ICON_SIZE,
                image_width(*image) == ICON_SIZE,
                before.len() == ICON_SIZE * ICON_SIZE,
                image_pixels(*image).len() == ICON_SIZE * ICON_SIZE,
                forall|x: u32, y: u32|
                    x < ICON_SIZE && y < ICON_SIZE ==> #[trigger] inside.requires((x, y)),
                forall|place: int|
                    0 <= place < 32 * y + x ==> shaded_where(
                        *inside,
                        (place % 32) as u32,
                        (place / 32) as u32,
                        before[place],
                        #[trigger] image_pixels(*image)[place],
                        shade,
                    ),
                forall|place: int|
                    32 * y + x <= place < ICON_SIZE * ICON_SIZE ==> #[trigger] image_pixels(
                        *image,
                    )[place] == before[place],
            decreases ICON_SIZE - x,
        {
            proof {
                let place = 32 * y + x;
                assert(place % 32 == x && place / 32 == y as int);
            }
            if inside(x, y) {
                put_pixel(image, x, y, shade);
            }
            x = x + 1;
        }
        y = y + 1;
    }
}

/// Whether a pixel of the icon has its shade, for the ring and for the needle
/// at the remaining percentage as the caller tells them.
pub open spec fn icon_shaded<F: Fn(u32, u32) -> bool, G: Fn(u8, u32, u32) -> bool + Copy>(
    remaining_percent: u8,
    status: MonitorStatus,
    on_ring: F,
    needle_at: G,
    x: u32,
    y: u32,
    shade: Shade,
) -> bool {
    exists|ring: bool, needle: bool|
        on_ring.ensures((x, y), ring) && needle_at.ensures((remaining_percent, x, y), needle)
            && shade == #[trigger] icon_shade(remaining_percent, status, ring, needle)
}

/// Draws the tray icon, and gives its bytes: four for each pixel, row by row.
/// `on_ring` tells which pixels the ring covers, `needle_at` which the needle
/// covers at a percentage; it is asked for the remaining one.
pub fn render_gauge_icon<F: Fn(u32, u32) -> bool, G: Fn(u8, u32, u32) -> bool + Copy>(
    remaining_percent: u8,
    status: MonitorStatus,
    on_ring: F,
    needle_at: G,
) -> (bytes: Vec<u8>)
    requires
        forall|x: u32, y: u32|
            x < ICON_SIZE && y < ICON_SIZE ==> #[trigger] on_ring.requires((x, y)),
        forall|x: u32, y: u32|
            x < ICON_SIZE && y < ICON_SIZE ==> #[trigger] needle_at.requires(
                (remaining_percent, x, y),
            ),
    ensures
        bytes@.len() == 4 * (ICON_SIZE * ICON_SIZE),
        forall|place: int|
            0 <= place < ICON_SIZE * ICON_SIZE ==> icon_shaded(
                remaining_percent,
                status,
                on_ring,
                needle_at,
                (place % 32) as u32,
                (place / 32) as u32,
                #[trigger] shade_at(bytes@, place),
            ),
{
    let mut image = from_pixel(ICON_SIZE, ICON_SIZE, (0, 0, 0, 0));
    let ghost blank = image_pixels(image);
    draw_shape(&mut image, &on_ring, (57, 62, 70, 255));
    let ghost ringed = image_pixels(image);
    let on_needle = |x: u32, y: u32| -> (covered: bool)
        requires
            needle_at.requires((remaining_percent, x, y)),
        ensures
            needle_at.ensures((remaining_percent, x, y), covered),
        { needle_at(remaining_percent, x, y) };
    draw_shape(&mut image, &on_needle, needle_color(remaining_percent, status));
    let ghost done = image_pixels(image);
    let bytes = into_raw(image);
    proof {
        assert forall|place: int| 0 <= place < ICON_SIZE * ICON_SIZE implies icon_shaded(
            remaining_percent,
            status,
            on_ring,
            needle_at,
            (place % 32) as u32,
            (place / 32) as u32,
            #[trigger] shade_at(bytes@, place),
        ) by {
            let (x, y) = ((place % 32) as u32, (place / 32) as u32);
            assert(done[place] == shade_at(bytes@, place));
            assert(shaded_where(
                on_ring,
                x,
                y,
                blank[place],
                ringed[place],
                (57, 62, 70, 255),
            ));
            assert(shaded_where(
                on_needle,
                x,
                y,
                ringed[place],
                done[place],
                needle_shade(remaining_percent, status),
            ));
            let ring = on_ring.ensures((x, y), true) && ringed[place] == (57u8, 62u8, 70u8, 255u8);
            let needle = needle_at.ensures((remaining_percent, x, y), true) && done[place] == needle_shade(
                remaining_percent,
                status,
            );
            assert(on_ring.ensures((x, y), ring));
            assert(needle_at.ensures((remaining_percent, x, y), needle));
            assert(done[place] == icon_shade(remaining_percent, status, ring, needle));
        }
    }
    bytes
}

/// Unless Codex is offline, the needle of the icon has the colour of the
/// needle in the popup.
pub proof fn law_icon_and_popup_agree(remaining_percent: u8, status: MonitorStatus)
    requires
        status != MonitorStatus::Offline,
    ensures
        ({
            let shade = needle_shade(remaining_percent, status);
            color::packed(shade.0 as int, shade.1 as int, shade.2 as int) == color::needle_rgb(
                status,
                remaining_percent,
            )
        }),
{
}

/// Every needle is opaque.
pub proof fn law_needle_is_opaque(remaining_percent: u8, status: MonitorStatus)
    ensures
        needle_shade(remaining_percent, status).3 == 255,
{
}

/// The needle is grey while Codex is offline, else green from half of the week,
/// yellow from a quarter, orange from a tenth and red below that.
pub proof fn law_needle_has_the_colour_of_its_band(remaining_percent: u8, status: MonitorStatus)
    ensures
        ({
            let shade = needle_shade(remaining_percent, status);
            let online = status != MonitorStatus::Offline;
            &&& shade == (120u8, 124u8, 132u8, 255u8) <==> !online
            &&& shade == (67u8, 201u8, 122u8, 255u8) <==> online && 50 <= remaining_percent <= 100
            &&& shade == (246u8, 201u8, 63u8, 255u8) <==> online && 25 <= remaining_percent <= 49
            &&& shade == (239u8, 142u8, 50u8, 255u8) <==> online && 10 <= remaining_percent <= 24
            &&& shade == (228u8, 75u8, 75u8, 255u8) <==> online && (remaining_percent <= 9
                || remaining_percent > 100)
        }),
{
}

/// A pixel of the icon shows the needle where the shape of the needle at the
/// remaining percentage covers it, else the ring where that does, and is else
/// transparent.
pub proof fn law_needle_lies_over_the_ring<
    F: Fn(u32, u32) -> bool,
    G: Fn(u8, u32, u32) -> bool + Copy,
>(
    remaining_percent: u8,
    status: MonitorStatus,
    on_ring: F,
    needle_at: G,
    x: u32,
    y: u32,
    shade: Shade,
    ring: bool,
    needle: bool,
)
    requires
        icon_shaded(remaining_percent, status, on_ring, needle_at, x, y, shade),
        forall|answer: bool| on_ring.ensures((x, y), answer) ==> answer == ring,
        forall|answer: bool|
            needle_at.ensures((remaining_percent, x, y), answer) ==> answer == needle,
    ensures
        needle ==> shade == needle_shade(remaining_percent, status),
        !needle && ring ==> shade == (57u8, 62u8, 70u8, 255u8),
        !needle && !ring ==> shade == (0u8, 0u8, 0u8, 0u8),
{
}

/// The bytes of a pixel stand in its place, four by four: red, green, blue and
/// opacity.
pub proof fn law_bytes_of_a_pixel(bytes: Seq<u8>, x: int, y: int)
    requires
        0 <= x < 32,
        0 <= y < 32,
        bytes.len() == 4096,
    ensures
        shade_at(bytes, 32 * y + x) == (
            bytes[128 * y + 4 * x],
            bytes[128 * y + 4 * x + 1],
            bytes[128 * y + 4 * x + 2],
            bytes[128 * y + 4 * x + 3],
        ),
        ((32 * y + x) % 32) == x,
        ((32 * y + x) / 32) == y,
{
}

} // verus!
