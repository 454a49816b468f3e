//! Painting in a buffer of pixels, row by row.
//!
//! The pixel in a column of a row stands at `row * width + column`. Which
//! pixels a curved shape covers is told by a function of the caller.

use vstd::arithmetic::div_mod::*;
use vstd::prelude::*;

use crate::color;

verus! {

/// `value` moved into the range from nought to `limit`.
pub open spec fn held(value: int, limit: u32) -> u32 {
    if value < 0 {
        0
    } else if value > limit {
        limit
    } else {
        value as u32
    }
}

/// A number of 32 bits read as a signed one.
pub open spec fn signed(value: u32) -> int {
    if value <= i32::MAX {
        value as int
    } else {
        value - 0x1_0000_0000
    }
}

/// A width or height as far as signed positions reach: one that is negative
/// when read as signed leaves no room.
pub open spec fn signed_limit(value: u32) -> u32 {
    if value <= i32::MAX {
        value
    } else {
        0
    }
}

/// The column of the pixel at a place.
pub open spec fn column_of(width: u32, place: int) -> int {
    place % width as int
}

/// The row of the pixel at a place.
pub open spec fn row_of(width: u32, place: int) -> int {
    place / width as int
}

/// A rectangle of pixels: the columns from `left` up to `right` of the rows
/// from `top` up to `bottom`, the upper bounds not among them.
#[derive(Debug, Clone, Copy, PartialEq, Eq, Structural)]
pub struct Area {
    pub left: u32,
    pub top: u32,
    pub right: u32,
    pub bottom: u32,
}

impl Area {
    /// Whether a pixel lies in the rectangle.
    pub open spec fn holds(self, column: int, row: int) -> bool {
        self.left <= column < self.right && self.top <= row < self.bottom
    }

    /// Whether no pixel lies in the rectangle.
    pub open spec fn is_empty(self) -> bool {
        self.right <= self.left || self.bottom <= self.top
    }

    /// Whether all pixels of the rectangle lie in rows of `width` pixels of a
    /// buffer of `length`, at places that 32 bits can tell.
    pub open spec fn fits(self, width: u32, length: nat) -> bool {
        self.is_empty() || {
            &&& self.right <= width
            &&& (self.bottom - 1) * width + (self.right - 1) < length
            &&& (self.bottom - 1) * width + (self.right - 1) <= u32::MAX
        }
    }

    /// Whether the pixel at a place of a buffer with rows of `width` pixels
    /// lies in the rectangle.
    pub open spec fn covers(self, width: u32, place: int) -> bool {
        width > 0 && self.holds(column_of(width, place), row_of(width, place))
    }

    /// Tells whether the rectangle fits in a buffer.
    pub fn fits_in(self, width: u32, length: usize) -> (answer: bool)
        ensures
            answer == self.fits(width, length as nat),
    {
        if self.right <= self.left || self.bottom <= self.top {
            return true;
        }
        proof {
            assert((self.bottom - 1) * width <= 0xffff_ffff * 0xffff_ffff) by (nonlinear_arith)
                requires
                    0 <= self.bottom - 1 <= 0xffff_ffff,
                    width <= 0xffff_ffff,
            ;
            assert((self.bottom - 1) * width >= 0) by (nonlinear_arith)
                requires
                    self.bottom - 1 >= 0,
            ;
        }
        let last: u128 = (self.bottom - 1) as u128 * width as u128 + (self.right - 1) as u128;
        self.right <= width && last < length as u128 && last <= 0xffff_ffff
    }
}

/// The part of a rectangle at `x`, `y` that lies within `width` columns and
/// `height` rows.
pub open spec fn clipped(
    x: int,
    y: int,
    rect_width: int,
    rect_height: int,
    width: u32,
    height: u32,
) -> Area {
    Area {
        left: held(x, width),
        top: held(y, height),
        right: held(x + rect_width, width),
        bottom: held(y + rect_height, height),
    }
}

/// The clipped part holds just the pixels of the rectangle that lie within.
pub proof fn law_clipped_holds(
    x: int,
    y: int,
    rect_width: int,
    rect_height: int,
    width: u32,
    height: u32,
    column: int,
    row: int,
)
    ensures
        clipped(x, y, rect_width, rect_height, width, height).holds(column, row) <==> {
            &&& x <= column < x + rect_width
            &&& y <= row < y + rect_height
            &&& 0 <= column < width
            &&& 0 <= row < height
        },
{
}

fn hold(value: i64, limit: u32) -> (result: u32)
    ensures
        result == held(value as int, limit),
{
    if value < 0 {
        0
    } else if value > limit as i64 {
        limit
    } else {
        value as u32
    }
}

/// Cuts a rectangle to `width` columns and `height` rows.
pub fn clip(
    x: i64,
    y: i64,
    rect_width: i64,
    rect_height: i64,
    width: u32,
    height: u32,
) -> (area: Area)
    requires
        i64::MIN <= x + rect_width <= i64::MAX,
        i64::MIN <= y + rect_height <= i64::MAX,
    ensures
        area == clipped(
            x as int,
            y as int,
            rect_width as int,
            rect_height as int,
            width,
            height,
        ),
{
    Area {
        left: hold(x, width),
        top: hold(y, height),
        right: hold(x + rect_width, width),
        bottom: hold(y + rect_height, height),
    }
}

fn to_signed(value: u32) -> (result: i64)
    ensures
        result == signed(value),
{
    if value <= 0x7fff_ffff {
        value as i64
    } else {
        value as i64 - 0x1_0000_0000
    }
}

pub(crate) fn to_signed_limit(value: u32) -> (result: u32)
    ensures
        result == signed_limit(value),
{
    if value <= 0x7fff_ffff {
        value
    } else {
        0
    }
}

/// The place of a pixel tells its column and its row.
proof fn lemma_place(width: u32, column: int, row: int)
    requires
        0 <= column < width,
        0 <= row,
    ensures
        column_of(width, row * width + column) == column,
        row_of(width, row * width + column) == row,
        row * width + column >= 0,
{
    assert(row * width >= 0) by (nonlinear_arith)
        requires
            row >= 0,
    ;
    lemma_fundamental_div_mod_converse(row * width + column, width as int, row, column);
}

/// A pixel further up or left stands earlier.
proof fn lemma_place_ordered(width: u32, column: int, row: int, last_column: int, last_row: int)
    requires
        column <= last_column,
        row <= last_row,
    ensures
        row * width + column <= last_row * width + last_column,
{
    assert(row * width <= last_row * width) by (nonlinear_arith)
        requires
            row <= last_row,
    ;
}

/// Paints each pixel of a rectangle anew: `ink` gives the new pixel from its
/// column, its row and the old pixel. Nothing else changes.
pub fn repaint<F: Fn(u32, u32, u32) -> u32>(buffer: &mut [u32], width: u32, area: Area, ink: F)
    requires
        area.fits(width, old(buffer)@.len()),
        forall|column: u32, row: u32, below: u32|
            area.holds(column as int, row as int) ==> #[trigger] ink.requires((column, row, below)),
    ensures
        final(buffer)@.len() == old(buffer)@.len(),
        forall|place: int|
            #![trigger final(buffer)@[place]]
            0 <= place < final(buffer)@.len() ==> if area.covers(width, place) {
                ink.ensures(
                    (
                        column_of(width, place) as u32,
                        row_of(width, place) as u32,
                        old(buffer)@[place],
                    ),
                    final(buffer)@[place],
                )
            } else {
                final(buffer)@[place] == old(buffer)@[place]
            },
{
    if area.right <= area.left || area.bottom <= area.top {
        return;
    }
    let ghost before = buffer@;
    let mut row: u32 = area.top;
    while row < area.bottom
        invariant
            !area.is_empty(),
            area.fits(width, before.len()),
            area.top <= row <= area.bottom,
            buffer@.len() == before.len(),
            forall|column: u32, row: u32, below: u32|
                area.holds(column as int, row as int) ==> #[trigger] ink.requires(
                    (column, row, below),
                ),
            forall|place: int|
                #![trigger buffer@[place]]
                0 <= place < buffer@.len() ==> if area.covers(width, place) && row_of(width, place) < row {
                    ink.ensures(
                        (
                            column_of(width, place) as u32,
                            row_of(width, place) as u32,
                            before[place],
                        ),
                        buffer@[place],
                    )
                } else {
                    buffer@[place] == before[place]
                },
        decreases area.bottom - row,
    {
        let mut column: u32 = area.left;
        while column < area.right
            invariant
                !area.is_empty(),
                area.fits(width, before.len()),
                area.top <= row < area.bottom,
                area.left <= column <= area.right,
                buffer@.len() == before.len(),
                forall|column: u32, row: u32, below: u32|
                    area.holds(column as int, row as int) ==> #[trigger] ink.requires(
                        (column, row, below),
                    ),
                forall|place: int|
                    #![trigger buffer@[place]]
                    0 <= place < buffer@.len() ==> if area.covers(width, place) && (row_of(width, place) < row || (
                    row_of(width, place) == row && column_of(width, place) < column)) {
                        ink.ensures(
                            (
                                column_of(width, place) as u32,
                                row_of(width, place) as u32,
                                before[place],
                            ),
                            buffer@[place],
                        )
                    } else {
                        buffer@[place] == before[place]
                    },
            decreases area.right - column,
        {
            let ghost earlier = buffer@;
            proof {
                lemma_place_ordered(
                    width,
                    column as int,
                    row as int,
                    area.right - 1,
                    area.bottom - 1,
                );
                lemma_place_ordered(width, 0, row as int, area.right - 1, area.bottom - 1);
                lemma_place(width, column as int, row as int);
                assert(row * width >= 0) by (nonlinear_arith);
            }
            let place: usize = (row * width + column) as usize;
            let painted: u32 = ink(column, row, buffer[place]);
            buffer[place] = painted;
            proof {
                assert forall|other: int|
                    #![trigger buffer@[other]]
                    0 <= other < buffer@.len() && other != place implies buffer@[other]
                    == earlier[other] && !(row_of(width, other) == row && column_of(width, other)
                    == column) by {
                    lemma_fundamental_div_mod(other, width as int);
                    if other / width as int == row && other % width as int == column {
                        assert(other == row * width + column) by (nonlinear_arith)
                            requires
                                other == width * (other / width as int) + other % width as int,
                                other / width as int == row,
                                other % width as int == column,
                        ;
                    }
                }
            }
            column = column + 1;
        }
        row = row + 1;
    }
}

/// A buffer with each pixel of a rectangle painted anew.
pub open spec fn repainted(
    buffer: Seq<u32>,
    width: u32,
    area: Area,
    ink: spec_fn(int, int, u32) -> u32,
) -> Seq<u32> {
    Seq::new(
        buffer.len(),
        |place: int|
            if area.covers(width, place) {
                ink(column_of(width, place), row_of(width, place), buffer[place])
            } else {
                buffer[place]
            },
    )
}

/// A buffer with a rectangle in one colour.
pub open spec fn filled(buffer: Seq<u32>, width: u32, area: Area, color: u32) -> Seq<u32> {
    repainted(buffer, width, area, |column: int, row: int, below: u32| color)
}

/// Fills a rectangle with one colour.
pub fn fill_area(buffer: &mut [u32], width: u32, area: Area, color: u32)
    requires
        area.fits(width, old(buffer)@.len()),
    ensures
        final(buffer)@ == filled(old(buffer)@, width, area, color),
{
    let ghost before = buffer@;
    let ink = |column: u32, row: u32, below: u32| -> (painted: u32)
        ensures
            painted == color,
        { color };
    repaint(buffer, width, area, ink);
    proof {
        assert(buffer@ =~= filled(before, width, area, color));
    }
}

/// Fills the part of a rectangle that lies within `width` columns and `height`
/// rows. The size of the rectangle is read as signed.
pub fn fill_rect_pixels(
    buffer: &mut [u32],
    width: u32,
    height: u32,
    x: i32,
    y: i32,
    rect_width: u32,
    rect_height: u32,
    color: u32,
)
    requires
        i32::MIN <= y + signed(rect_height) <= i32::MAX,
        signed(rect_height) > 0 && y + signed(rect_height) > 0 ==> i32::MIN <= x + signed(
            rect_width,
        ) <= i32::MAX,
        clipped(x as int, y as int, signed(rect_width), signed(rect_height), width, height).fits(
            width,
            old(buffer)@.len(),
        ),
    ensures
        final(buffer)@ == filled(
            old(buffer)@,
            width,
            clipped(x as int, y as int, signed(rect_width), signed(rect_height), width, height),
            color,
        ),
{
    let area = clip(
        x as i64,
        y as i64,
        to_signed(rect_width),
        to_signed(rect_height),
        width,
        height,
    );
    fill_area(buffer, width, area, color);
}

/// Whether a pixel is painted where a shape of the caller covers it, and left
/// alone where it does not.
pub open spec fn painted_where<F: Fn(u32, u32) -> bool + Copy>(
    inside: F,
    column: u32,
    row: u32,
    below: u32,
    painted: u32,
    color: u32,
) -> bool {
    ||| inside.ensures((column, row), true) && painted == color
    ||| inside.ensures((column, row), false) && painted == below
}

/// Fills the pixels of a rectangle that a shape covers: `inside` tells which
/// those are.
pub fn fill_where<F: Fn(u32, u32) -> bool + Copy>(
    buffer: &mut [u32],
    width: u32,
    area: Area,
    inside: F,
    color: u32,
)
    requires
        area.fits(width, old(buffer)@.len()),
        forall|column: u32, row: u32|
            area.holds(column as int, row as int) ==> #[trigger] inside.requires((column, row)),
    ensures
        final(buffer)@.len() == old(buffer)@.len(),
        forall|place: int|
            #![trigger final(buffer)@[place]]
            0 <= place < final(buffer)@.len() ==> if area.covers(width, place) {
                painted_where(
                    inside,
                    column_of(width, place) as u32,
                    row_of(width, place) as u32,
                    old(buffer)@[place],
                    final(buffer)@[place],
                    color,
                )
            } else {
                final(buffer)@[place] == old(buffer)@[place]
            },
{
    let ink = |column: u32, row: u32, below: u32| -> (painted: u32)
        requires
            inside.requires((column, row)),
        ensures
            painted_where(inside, column, row, below, painted, color),
        {
            if inside(column, row) {
                color
            } else {
                below
            }
        };
    repaint(buffer, width, area, ink);
}

/// Fills the part of a rounded rectangle that lies within `width` columns and
/// `height` rows: `inside` tells which pixels of the rectangle its corners
/// leave.
pub fn rounded_rect<F: Fn(u32, u32) -> bool + Copy>(
    buffer: &mut [u32],
    width: u32,
    height: u32,
    x: i32,
    y: i32,
    rect_width: i32,
    rect_height: i32,
    inside: F,
    color: u32,
)
    requires
        i32::MIN <= y + rect_height <= i32::MAX,
        rect_height > 0 && y + rect_height > 0 && y < signed_limit(height) && 0 < signed_limit(
            height,
        ) ==> i32::MIN <= x + rect_width <= i32::MAX,
        clipped(
            x as int,
            y as int,
            rect_width as int,
            rect_height as int,
            signed_limit(width),
            signed_limit(height),
        ).fits(width, old(buffer)@.len()),
        forall|column: u32, row: u32|
            clipped(
                x as int,
                y as int,
                rect_width as int,
                rect_height as int,
                signed_limit(width),
                signed_limit(height),
            ).holds(column as int, row as int) ==> #[trigger] inside.requires((column, row)),
    ensures
        final(buffer)@.len() == old(buffer)@.len(),
        ({
            let area = clipped(
                x as int,
                y as int,
                rect_width as int,
                rect_height as int,
                signed_limit(width),
                signed_limit(height),
            );
            forall|place: int|
                #![trigger final(buffer)@[place]]
                0 <= place < final(buffer)@.len() ==> if area.covers(width, place) {
                    painted_where(
                        inside,
                        column_of(width, place) as u32,
                        row_of(width, place) as u32,
                        old(buffer)@[place],
                        final(buffer)@[place],
                        color,
                    )
                } else {
                    final(buffer)@[place] == old(buffer)@[place]
                }
        }),
{
    let area = clip(
        x as i64,
        y as i64,
        rect_width as i64,
        rect_height as i64,
        to_signed_limit(width),
        to_signed_limit(height),
    );
    fill_where(buffer, width, area, inside, color);
}

/// Whether a pixel of the gauge is painted in the colour of the band that the
/// caller tells for it, and left alone where there is none.
pub open spec fn painted_band<F: Fn(u32, u32) -> Option<u8> + Copy>(
    percent_at: F,
    column: u32,
    row: u32,
    below: u32,
    painted: u32,
) -> bool {
    exists|percent: Option<u8>|
        percent_at.ensures((column, row), percent) && painted == #[trigger] band_ink(percent, below)
}

/// The colour of the band at a percentage; without one, what lies below.
pub open spec fn band_ink(percent: Option<u8>, below: u32) -> u32 {
    match percent {
        Some(percent) => color::zone_rgb(crate::quota::zone_of(percent)) as u32,
        None => below,
    }
}

/// Paints the ring of the gauge: `percent_at` tells which percentage a pixel
/// stands for, and nothing off the ring.
pub fn paint_gauge_ring<F: Fn(u32, u32) -> Option<u8> + Copy>(
    buffer: &mut [u32],
    width: u32,
    height: u32,
    percent_at: F,
)
    requires
        (Area { left: 0, top: 0, right: width, bottom: height }).fits(width, old(buffer)@.len()),
        forall|column: u32, row: u32|
            column < width && row < height ==> #[trigger] percent_at.requires((column, row)),
    ensures
        final(buffer)@.len() == old(buffer)@.len(),
        forall|place: int|
            #![trigger final(buffer)@[place]]
            0 <= place < final(buffer)@.len() ==> if (Area {
                left: 0,
                top: 0,
                right: width,
                bottom: height,
            }).covers(width, place) {
                painted_band(
                    percent_at,
                    column_of(width, place) as u32,
                    row_of(width, place) as u32,
                    old(buffer)@[place],
                    final(buffer)@[place],
                )
            } else {
                final(buffer)@[place] == old(buffer)@[place]
            },
{
    let area = Area { left: 0, top: 0, right: width, bottom: height };
    let ink = |column: u32, row: u32, below: u32| -> (painted: u32)
        requires
            percent_at.requires((column, row)),
        ensures
            painted_band(percent_at, column, row, below, painted),
        {
            let percent = percent_at(column, row);
            let painted: u32 = match percent {
                Some(percent) => color::gauge_band_color(percent),
                None => below,
            };
            assert(painted == band_ink(percent, below));
            painted
        };
    repaint(buffer, width, area, ink);
}

/// The pixel in a column of a row stands at the start of the row and as many
/// places behind it.
pub proof fn law_place_of_a_pixel(width: u32, column: int, row: int)
    requires
        0 <= column < width,
        0 <= row,
    ensures
        column_of(width, row * width + column) == column,
        row_of(width, row * width + column) == row,
{
    lemma_place(width, column, row);
}

/// An area that fits has all its pixels in the buffer.
pub proof fn law_fitting_area_lies_in_the_buffer(
    area: Area,
    width: u32,
    length: nat,
    column: int,
    row: int,
)
    requires
        area.fits(width, length),
        area.left <= column < area.right,
        area.top <= row < area.bottom,
    ensures
        column < width,
        0 <= row * width + column < length,
        row * width + column <= u32::MAX,
        area.covers(width, row * width + column),
{
    lemma_place_ordered(width, column, row, area.right - 1, area.bottom - 1);
    lemma_place(width, column, row);
}

/// Painting an area anew gives each of its pixels its ink, and leaves every
/// other pixel alone.
pub proof fn law_repainted_pixel(
    buffer: Seq<u32>,
    width: u32,
    area: Area,
    ink: spec_fn(int, int, u32) -> u32,
    column: int,
    row: int,
)
    requires
        0 <= column < width,
        0 <= row,
        row * width + column < buffer.len(),
    ensures
        ({
            let place = row * width + column;
            let painted = repainted(buffer, width, area, ink);
            let inside = area.left <= column < area.right && area.top <= row < area.bottom;
            &&& painted.len() == buffer.len()
            &&& inside ==> painted[place] == ink(column, row, buffer[place])
            &&& !inside ==> painted[place] == buffer[place]
        }),
{
    lemma_place(width, column, row);
}

/// Filling an area gives each of its pixels the colour, and leaves every other
/// pixel alone.
pub proof fn law_filled_pixel(
    buffer: Seq<u32>,
    width: u32,
    area: Area,
    color: u32,
    column: int,
    row: int,
)
    requires
        0 <= column < width,
        0 <= row,
        row * width + column < buffer.len(),
    ensures
        ({
            let place = row * width + column;
            let painted = filled(buffer, width, area, color);
            let inside = area.left <= column < area.right && area.top <= row < area.bottom;
            &&& painted.len() == buffer.len()
            &&& painted[place] == if inside {
                color
            } else {
                buffer[place]
            }
        }),
{
    lemma_place(width, column, row);
}

/// A shape paints the pixels that it covers, and no others.
pub proof fn law_shape_paints_what_it_covers<F: Fn(u32, u32) -> bool + Copy>(
    inside: F,
    column: u32,
    row: u32,
    below: u32,
    painted: u32,
    color: u32,
    covered: bool,
)
    requires
        painted_where(inside, column, row, below, painted, color),
        forall|answer: bool| inside.ensures((column, row), answer) ==> answer == covered,
    ensures
        painted == if covered {
            color
        } else {
            below
        },
{
}

/// The ring is painted in the colour of the band of the percentage that a pixel
/// stands for, and not where it stands for none.
pub proof fn law_ring_has_its_bands<F: Fn(u32, u32) -> Option<u8> + Copy>(
    percent_at: F,
    column: u32,
    row: u32,
    below: u32,
    painted: u32,
    percent: Option<u8>,
)
    requires
        painted_band(percent_at, column, row, below, painted),
        forall|answer: Option<u8>| percent_at.ensures((column, row), answer) ==> answer == percent,
    ensures
        match percent {
            None => painted == below,
            Some(percent) => painted == if 50 <= percent <= 100 {
                0x43_c9_7au32
            } else if 25 <= percent <= 49 {
                0xf6_c9_3fu32
            } else if 10 <= percent <= 24 {
                0xef_8e_32u32
            } else {
                0xe4_4b_4bu32
            },
        },
{
}

/// A number of 32 bits reads the same modulo 2^32 as signed, between the bounds
/// of one; a width or height that is negative so leaves no room.
pub proof fn law_read_as_signed(value: u32)
    ensures
        -0x8000_0000 <= signed(value) <= 0x7fff_ffff,
        signed(value) == value || signed(value) == value - 0x1_0000_0000,
        signed_limit(value) == if signed(value) >= 0 {
            value
        } else {
            0
        },
{
}

} // verus!
