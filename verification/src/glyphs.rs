//! Text in a buffer of pixels.
//!
//! A glyph of a scalable font comes as a rectangle of coverages; a glyph of the
//! built-in font is eight rows of eight bits.

use font8x8::{UnicodeFonts, BASIC_FONTS};
use vstd::prelude::*;

use crate::color;
use crate::pixels;
use crate::pixels::Area;

verus! {

broadcast use vstd::string::group_string_axioms;

/// A character as a font draws it at some size.
#[derive(Debug, PartialEq)]
pub struct Glyph {
    /// The columns of the coverage.
    pub width: usize,
    /// The rows of the coverage.
    pub height: usize,
    /// How far right of the cursor the coverage begins.
    pub xmin: i32,
    /// How far above the baseline the coverage ends.
    pub ymin: i32,
    /// How far the cursor moves on.
    pub advance: i32,
    /// How much of each pixel is covered, row by row, of 255.
    pub coverage: Vec<u8>,
}

impl Glyph {
    /// Each pixel of the glyph has a coverage, and its size can be read as
    /// signed.
    pub open spec fn valid(&self) -> bool {
        &&& self.width <= i32::MAX
        &&& self.height <= i32::MAX
        &&& self.width * self.height <= self.coverage.len()
    }

    /// The column where the coverage begins.
    pub open spec fn left(&self, cursor_x: int) -> int {
        cursor_x + self.xmin
    }

    /// The row where the coverage begins.
    pub open spec fn top(&self, baseline_y: int) -> int {
        baseline_y - self.height - self.ymin
    }

    /// The pixels of the glyph that lie within `width` columns and `height`
    /// rows.
    pub open spec fn area(&self, cursor_x: int, baseline_y: int, width: u32, height: u32) -> Area {
        pixels::clipped(
            self.left(cursor_x),
            self.top(baseline_y),
            self.width as int,
            self.height as int,
            pixels::signed_limit(width),
            pixels::signed_limit(height),
        )
    }

    /// The pixel of the glyph in a column and a row laid over the one below.
    pub open spec fn ink(
        &self,
        cursor_x: int,
        baseline_y: int,
        color: u32,
        column: int,
        row: int,
        below: u32,
    ) -> u32 {
        let alpha = self.coverage@[(row - self.top(baseline_y)) * self.width + (column - self.left(
            cursor_x,
        ))];
        if alpha == 0 {
            below
        } else {
            color::blended(below, color, alpha)
        }
    }

    /// Tells which pixels of the glyph lie within `width` columns and `height`
    /// rows.
    fn visible_area(&self, cursor_x: i32, baseline_y: i32, width: u32, height: u32) -> (area: Area)
        requires
            self.valid(),
        ensures
            area == self.area(cursor_x as int, baseline_y as int, width, height),
    {
        pixels::clip(
            cursor_x as i64 + self.xmin as i64,
            baseline_y as i64 - self.height as i64 - self.ymin as i64,
            self.width as i64,
            self.height as i64,
            pixels::to_signed_limit(width),
            pixels::to_signed_limit(height),
        )
    }

    /// Tells whether the glyph is valid.
    pub fn is_valid(&self) -> (answer: bool)
        ensures
            answer == self.valid(),
    {
        if self.width > 0x7fff_ffff || self.height > 0x7fff_ffff {
            return false;
        }
        proof {
            assert(self.width * self.height <= 0x7fff_ffff * 0x7fff_ffff) by (nonlinear_arith)
                requires
                    self.width <= 0x7fff_ffff,
                    self.height <= 0x7fff_ffff,
            ;
        }
        self.width as u64 * self.height as u64 <= self.coverage.len() as u64
    }
}

/// A buffer with a glyph drawn in it.
pub open spec fn glyph_drawn(
    buffer: Seq<u32>,
    width: u32,
    height: u32,
    cursor_x: int,
    baseline_y: int,
    glyph: Glyph,
    color: u32,
) -> Seq<u32> {
    pixels::repainted(
        buffer,
        width,
        glyph.area(cursor_x, baseline_y, width, height),
        |column: int, row: int, below: u32|
            glyph.ink(cursor_x, baseline_y, color, column, row, below),
    )
}

/// The coverage of a pixel of a glyph is one of those that the glyph has.
proof fn lemma_coverage(glyph: &Glyph, column: int, row: int)
    requires
        glyph.valid(),
        0 <= column < glyph.width,
        0 <= row < glyph.height,
    ensures
        0 <= row * glyph.width + column < glyph.coverage.len(),
        0 <= row * glyph.width <= row * glyph.width + column,
{
    let width = glyph.width as int;
    let height = glyph.height as int;
    assert(row * width + column < height * width) by (nonlinear_arith)
        requires
            0 <= column < width,
            row + 1 <= height,
    ;
    assert(row * width >= 0) by (nonlinear_arith)
        requires
            row >= 0,
            width >= 0,
    ;
    assert(height * width == width * height) by (nonlinear_arith);
}

/// Draws a glyph: its pixels within `width` columns and `height` rows are laid
/// over what is there.
pub fn draw_glyph(
    buffer: &mut [u32],
    width: u32,
    height: u32,
    cursor_x: i32,
    baseline_y: i32,
    glyph: &Glyph,
    color: u32,
)
    requires
        glyph.valid(),
        glyph.area(cursor_x as int, baseline_y as int, width, height).fits(
            width,
            old(buffer)@.len(),
        ),
    ensures
        final(buffer)@ == glyph_drawn(
            old(buffer)@,
            width,
            height,
            cursor_x as int,
            baseline_y as int,
            *glyph,
            color,
        ),
{
    let ghost before = buffer@;
    let left: i64 = cursor_x as i64 + glyph.xmin as i64;
    let top: i64 = baseline_y as i64 - glyph.height as i64 - glyph.ymin as i64;
    let area = glyph.visible_area(cursor_x, baseline_y, width, height);
    let ink = |column: u32, row: u32, below: u32| -> (painted: u32)
        requires
            area.holds(column as int, row as int),
        ensures
            painted == glyph.ink(
                cursor_x as int,
                baseline_y as int,
                color,
                column as int,
                row as int,
                below,
            ),
        {
            proof {
                lemma_coverage(glyph, column - left, row - top);
            }
            let glyph_x: usize = (column as i64 - left) as usize;
            let glyph_y: usize = (row as i64 - top) as usize;
            let alpha: u8 = glyph.coverage[glyph_y * glyph.width + glyph_x];
            if alpha == 0 {
                below
            } else {
                color::blend(below, color, alpha)
            }
        };
    pixels::repaint(buffer, width, area, ink);
    proof {
        assert(buffer@ =~= glyph_drawn(
            before,
            width,
            height,
            cursor_x as int,
            baseline_y as int,
            *glyph,
            color,
        ));
    }
}

/// Where the cursor stands after a list of glyphs.
pub open spec fn cursor_after(cursor_x: int, glyphs: Seq<Glyph>) -> int
    decreases glyphs.len(),
{
    if glyphs.len() == 0 {
        cursor_x
    } else {
        cursor_after(cursor_x, glyphs.drop_last()) + glyphs.last().advance
    }
}

/// A buffer with a list of glyphs drawn in it, one behind the other on the
/// same baseline.
pub open spec fn glyphs_drawn(
    buffer: Seq<u32>,
    width: u32,
    height: u32,
    cursor_x: int,
    baseline_y: int,
    glyphs: Seq<Glyph>,
    color: u32,
) -> Seq<u32>
    decreases glyphs.len(),
{
    if glyphs.len() == 0 {
        buffer
    } else {
        let earlier = glyphs.drop_last();
        glyph_drawn(
            glyphs_drawn(buffer, width, height, cursor_x, baseline_y, earlier, color),
            width,
            height,
            cursor_after(cursor_x, earlier),
            baseline_y,
            glyphs.last(),
            color,
        )
    }
}

/// Whether glyphs can be drawn in a buffer of `length` pixels: each is valid,
/// the cursor stays within 32 bits, and what is drawn lies in the buffer.
pub open spec fn glyphs_fit(
    length: nat,
    width: u32,
    height: u32,
    cursor_x: int,
    baseline_y: int,
    glyphs: Seq<Glyph>,
) -> bool {
    &&& forall|i: int| 0 <= i < glyphs.len() ==> (#[trigger] glyphs[i]).valid()
    &&& forall|i: int|
        0 <= i <= glyphs.len() ==> i32::MIN <= cursor_after(cursor_x, #[trigger] glyphs.take(i))
            <= i32::MAX
    &&& forall|i: int|
        0 <= i < glyphs.len() ==> (#[trigger] glyphs[i]).area(
            cursor_after(cursor_x, glyphs.take(i)),
            baseline_y,
            width,
            height,
        ).fits(width, length)
}

/// Tells whether glyphs can be drawn in a buffer of `length` pixels.
pub fn can_draw_glyphs(
    length: usize,
    width: u32,
    height: u32,
    cursor_x: i32,
    baseline_y: i32,
    glyphs: &Vec<Glyph>,
) -> (answer: bool)
    ensures
        answer == glyphs_fit(
            length as nat,
            width,
            height,
            cursor_x as int,
            baseline_y as int,
            glyphs@,
        ),
{
    let mut cursor: i32 = cursor_x;
    let mut i: usize = 0;
    while i < glyphs.len()
        invariant
            i <= glyphs.len(),
            cursor == cursor_after(cursor_x as int, glyphs@.take(i as int)),
            forall|j: int| 0 <= j < i ==> (#[trigger] glyphs@[j]).valid(),
            forall|j: int|
                0 <= j <= i ==> i32::MIN <= cursor_after(
                    cursor_x as int,
                    #[trigger] glyphs@.take(j),
                ) <= i32::MAX,
            forall|j: int|
                0 <= j < i ==> (#[trigger] glyphs@[j]).area(
                    cursor_after(cursor_x as int, glyphs@.take(j)),
                    baseline_y as int,
                    width,
                    height,
                ).fits(width, length as nat),
        decreases glyphs.len() - i,
    {
        let glyph = &glyphs[i];
        if !glyph.is_valid() {
            return false;
        }
        if !glyph.visible_area(cursor, baseline_y, width, height).fits_in(width, length) {
            return false;
        }
        let next: i64 = cursor as i64 + glyph.advance as i64;
        proof {
            let more = glyphs@.take(i + 1);
            assert(more.drop_last() =~= glyphs@.take(i as int));
            assert(more.last() == glyphs@[i as int]);
            assert(cursor_after(cursor_x as int, more) == next);
        }
        if next < i32::MIN as i64 || next > i32::MAX as i64 {
            return false;
        }
        cursor = next as i32;
        i = i + 1;
    }
    true
}

/// Draws glyphs one behind the other on the same baseline.
pub fn draw_glyphs(
    buffer: &mut [u32],
    width: u32,
    height: u32,
    cursor_x: i32,
    baseline_y: i32,
    glyphs: &Vec<Glyph>,
    color: u32,
)
    requires
        glyphs_fit(
            old(buffer)@.len(),
            width,
            height,
            cursor_x as int,
            baseline_y as int,
            glyphs@,
        ),
    ensures
        final(buffer)@ == glyphs_drawn(
            old(buffer)@,
            width,
            height,
            cursor_x as int,
            baseline_y as int,
            glyphs@,
            color,
        ),
{
    let ghost before = buffer@;
    let mut cursor: i32 = cursor_x;
    let mut i: usize = 0;
    while i < glyphs.len()
        invariant
            i <= glyphs.len(),
            before.len() == buffer@.len(),
            glyphs_fit(
                before.len(),
                width,
                height,
                cursor_x as int,
                baseline_y as int,
                glyphs@,
            ),
            cursor == cursor_after(cursor_x as int, glyphs@.take(i as int)),
            buffer@ == glyphs_drawn(
                before,
                width,
                height,
                cursor_x as int,
                baseline_y as int,
                glyphs@.take(i as int),
                color,
            ),
        decreases glyphs.len() - i,
    {
        proof {
            let next = glyphs@.take(i + 1);
            assert(next.drop_last() =~= glyphs@.take(i as int));
            assert(next.last() == glyphs@[i as int]);
        }
        draw_glyph(buffer, width, height, cursor, baseline_y, &glyphs[i], color);
        cursor = cursor + glyphs[i].advance;
        i = i + 1;
    }
    proof {
        assert(glyphs@.take(glyphs.len() as int) =~= glyphs@);
    }
}

/// The rows that the built-in font has for a character, upper row first; the
/// lowest bit of a row is its leftmost pixel.
pub uninterp spec fn builtin_rows(character: char) -> Option<Seq<u8>>;

/// The contents of an optional glyph of the built-in font.
pub open spec fn rows_view(rows: Option<[u8; 8]>) -> Option<Seq<u8>> {
    match rows {
        Some(rows) => Some(rows@),
        None => None,
    }
}

/// `UnicodeFonts::get` of `font8x8::BASIC_FONTS`: the rows of a character. The
/// font has the characters of Basic Latin and no others.
#[verifier::external_body]
pub(crate) fn builtin_glyph(character: char) -> (rows: Option<[u8; 8]>)
    ensures
        rows_view(rows) == builtin_rows(character),
        rows is Some <==> character as u32 <= 0x7f,
{
    BASIC_FONTS.get(character)
}

/// Whether a glyph of the built-in font has a pixel in a column and a row.
pub open spec fn has_pixel(rows: Option<Seq<u8>>, column: int, row: int) -> bool {
    rows matches Some(rows) && rows[row] & (1u8 << (column as u8)) != 0
}

/// Whether a line of text in the built-in font covers a pixel that lies `right`
/// columns and `down` rows from its upper left corner. Each glyph is a square
/// of eight by eight pixels, and each of these a square of `scale` by `scale`.
pub open spec fn line_covers(
    glyphs: Seq<Option<Seq<u8>>>,
    scale: u32,
    right: int,
    down: int,
) -> bool {
    let side = 8 * scale;
    &&& scale > 0
    &&& 0 <= right < side * glyphs.len()
    &&& 0 <= down < side
    &&& has_pixel(
        glyphs[right / side],
        (right % side) / (scale as int),
        down / (scale as int),
    )
}

/// The square or line of squares that a text in the built-in font takes.
pub open spec fn line_area(
    x: int,
    y: int,
    scale: u32,
    length: nat,
    width: u32,
    height: u32,
) -> Area {
    pixels::clipped(x, y, 8 * scale * length, 8 * scale as int, width, height)
}

/// A buffer with a line of text in the built-in font drawn in it.
pub open spec fn line_drawn(
    buffer: Seq<u32>,
    width: u32,
    height: u32,
    x: int,
    y: int,
    scale: u32,
    glyphs: Seq<Option<Seq<u8>>>,
    color: u32,
) -> Seq<u32> {
    pixels::repainted(
        buffer,
        width,
        line_area(x, y, scale, glyphs.len(), width, height),
        |column: int, row: int, below: u32|
            if line_covers(glyphs, scale, column - x, row - y) {
                color
            } else {
                below
            },
    )
}

/// The contents of a list of glyphs of the built-in font.
pub open spec fn glyph_views(glyphs: Seq<Option<[u8; 8]>>) -> Seq<Option<Seq<u8>>> {
    glyphs.map_values(|rows: Option<[u8; 8]>| rows_view(rows))
}

fn covers(glyphs: &Vec<Option<[u8; 8]>>, scale: u32, right: u32, down: u32) -> (answer: bool)
    requires
        0 < scale,
        8 * scale <= u32::MAX,
        right < 8 * scale * glyphs.len(),
        down < 8 * scale,
    ensures
        answer == line_covers(glyph_views(glyphs@), scale, right as int, down as int),
{
    let side: u32 = 8 * scale;
    let index: u32 = right / side;
    let column: u32 = (right % side) / scale;
    let row: u32 = down / scale;
    proof {
        assert(index < glyphs.len()) by (nonlinear_arith)
            requires
                right < side * glyphs.len(),
                index == right / side,
                side > 0,
        ;
        assert(column < 8) by (nonlinear_arith)
            requires
                column == (right % side) / scale,
                side == 8 * scale,
                scale > 0,
        ;
        assert(row < 8) by (nonlinear_arith)
            requires
                row == down / scale,
                down < 8 * scale,
                scale > 0,
        ;
        assert(glyph_views(glyphs@)[index as int] == rows_view(glyphs@[index as int]));
    }
    match &glyphs[index as usize] {
        Some(rows) => rows[row as usize] & (1u8 << (column as u8)) != 0,
        None => false,
    }
}

/// Draws glyphs of the built-in font side by side from an upper left corner,
/// as far as they lie within `width` columns and `height` rows.
pub fn draw_builtin_glyphs(
    buffer: &mut [u32],
    width: u32,
    height: u32,
    x: i32,
    y: i32,
    scale: u32,
    glyphs: &Vec<Option<[u8; 8]>>,
    color: u32,
)
    requires
        x + 8 * scale * glyphs.len() <= i32::MAX,
        line_area(x as int, y as int, scale, glyphs.len() as nat, width, height).fits(
            width,
            old(buffer)@.len(),
        ),
    ensures
        final(buffer)@ == line_drawn(
            old(buffer)@,
            width,
            height,
            x as int,
            y as int,
            scale,
            glyph_views(glyphs@),
            color,
        ),
{
    let ghost before = buffer@;
    let ghost shown = glyph_views(glyphs@);
    if scale == 0 || glyphs.len() == 0 {
        proof {
            assert(8 * scale * glyphs.len() == 0) by (nonlinear_arith)
                requires
                    scale == 0 || glyphs.len() == 0,
            ;
            assert(buffer@ =~= line_drawn(
                before,
                width,
                height,
                x as int,
                y as int,
                scale,
                shown,
                color,
            ));
        }
        return;
    }
    proof {
        assert(8 * scale <= 8 * scale * glyphs.len()) by (nonlinear_arith)
            requires
                glyphs.len() >= 1,
        ;
        assert(glyphs.len() <= 8 * scale * glyphs.len()) by (nonlinear_arith)
            requires
                scale >= 1,
                glyphs.len() >= 0,
        ;
    }
    let side: i64 = 8 * scale as i64;
    let length: i64 = side * glyphs.len() as i64;
    let area = pixels::clip(x as i64, y as i64, length, side, width, height);
    let left: i64 = x as i64;
    let top: i64 = y as i64;
    let ink = |column: u32, row: u32, below: u32| -> (painted: u32)
        requires
            area.holds(column as int, row as int),
        ensures
            painted == if line_covers(glyph_views(glyphs@), scale, column - x, row - y) {
                color
            } else {
                below
            },
        {
            let right: u32 = (column as i64 - left) as u32;
            let down: u32 = (row as i64 - top) as u32;
            if covers(glyphs, scale, right, down) {
                color
            } else {
                below
            }
        };
    pixels::repaint(buffer, width, area, ink);
    proof {
        assert(buffer@ =~= line_drawn(
            before,
            width,
            height,
            x as int,
            y as int,
            scale,
            shown,
            color,
        ));
    }
}

/// The glyphs that the built-in font has for a text.
pub open spec fn text_rows(words: Seq<char>) -> Seq<Option<Seq<u8>>> {
    words.map_values(|character: char| builtin_rows(character))
}

/// Draws a text in the built-in font. The font has the characters of Basic
/// Latin; any other leaves a gap.
pub fn draw_text(
    buffer: &mut [u32],
    width: u32,
    height: u32,
    x: i32,
    y: i32,
    scale: u32,
    words: &str,
    color: u32,
)
    requires
        x + 8 * scale * words@.len() <= i32::MAX,
        line_area(x as int, y as int, scale, words@.len(), width, height).fits(
            width,
            old(buffer)@.len(),
        ),
    ensures
        final(buffer)@ == line_drawn(
            old(buffer)@,
            width,
            height,
            x as int,
            y as int,
            scale,
            text_rows(words@),
            color,
        ),
        forall|i: int|
            0 <= i < words@.len() ==> (#[trigger] builtin_rows(words@[i]) is Some <==> words@[i] as u32
                <= 0x7f),
{
    let mut glyphs: Vec<Option<[u8; 8]>> = Vec::new();
    for character in it: words.chars()
        invariant
            it.seq() == words@,
            glyphs.len() == it.index(),
            forall|i: int|
                0 <= i < glyphs.len() ==> rows_view(#[trigger] glyphs@[i]) == builtin_rows(
                    words@[i],
                ),
            forall|i: int|
                0 <= i < glyphs.len() ==> (#[trigger] builtin_rows(words@[i]) is Some
                    <==> words@[i] as u32 <= 0x7f),
    {
        glyphs.push(builtin_glyph(character));
    }
    proof {
        assert(glyph_views(glyphs@) =~= text_rows(words@));
    }
    draw_builtin_glyphs(buffer, width, height, x, y, scale, &glyphs, color);
}

/// Drawing a text changes no pixel outside its line, and every pixel that it
/// changes gets its colour.
pub proof fn law_text_stays_in_its_line(
    buffer: Seq<u32>,
    width: u32,
    height: u32,
    x: int,
    y: int,
    scale: u32,
    glyphs: Seq<Option<Seq<u8>>>,
    color: u32,
    place: int,
)
    requires
        0 <= place < buffer.len(),
    ensures
        ({
            let drawn = line_drawn(buffer, width, height, x, y, scale, glyphs, color);
            &&& drawn.len() == buffer.len()
            &&& drawn[place] == color || drawn[place] == buffer[place]
            &&& !line_area(x, y, scale, glyphs.len(), width, height).covers(width, place)
                ==> drawn[place] == buffer[place]
        }),
{
}

/// Drawing a glyph lays each of its visible pixels, in its colour, over what is
/// there, by its coverage, and leaves every other pixel alone. A buffer whose
/// width or height is beyond signed positions is left alone.
pub proof fn law_glyph_pixel(
    buffer: Seq<u32>,
    width: u32,
    height: u32,
    cursor_x: int,
    baseline_y: int,
    glyph: Glyph,
    color: u32,
    column: int,
    row: int,
)
    requires
        glyph.valid(),
        0 <= column < width,
        0 <= row < height,
        row * width + column < buffer.len(),
    ensures
        ({
            let place = row * width + column;
            let drawn = glyph_drawn(buffer, width, height, cursor_x, baseline_y, glyph, color);
            let right = column - cursor_x - glyph.xmin;
            let down = row - (baseline_y - glyph.ymin - glyph.height);
            let alpha = glyph.coverage@[down * glyph.width + right];
            let inside = 0 <= right < glyph.width && 0 <= down < glyph.height && width
                <= 0x7fff_ffff && height <= 0x7fff_ffff;
            &&& drawn.len() == buffer.len()
            &&& inside && alpha != 0 ==> drawn[place] == color::blended(buffer[place], color, alpha)
            &&& !inside || alpha == 0 ==> drawn[place] == buffer[place]
        }),
{
    pixels::law_place_of_a_pixel(width, column, row);
    pixels::law_clipped_holds(
        glyph.left(cursor_x),
        glyph.top(baseline_y),
        glyph.width as int,
        glyph.height as int,
        pixels::signed_limit(width),
        pixels::signed_limit(height),
        column,
        row,
    );
}

/// Glyphs stand one behind the other: each is drawn where the advances of those
/// before it have brought the cursor, on the same baseline.
pub proof fn law_glyphs_follow_each_other(
    buffer: Seq<u32>,
    width: u32,
    height: u32,
    cursor_x: int,
    baseline_y: int,
    glyphs: Seq<Glyph>,
    glyph: Glyph,
    color: u32,
)
    ensures
        glyphs_drawn(buffer, width, height, cursor_x, baseline_y, Seq::empty(), color) == buffer,
        glyphs_drawn(buffer, width, height, cursor_x, baseline_y, glyphs.push(glyph), color)
            == glyph_drawn(
            glyphs_drawn(buffer, width, height, cursor_x, baseline_y, glyphs, color),
            width,
            height,
            cursor_after(cursor_x, glyphs),
            baseline_y,
            glyph,
            color,
        ),
        cursor_after(cursor_x, Seq::empty()) == cursor_x,
        cursor_after(cursor_x, glyphs.push(glyph)) == cursor_after(cursor_x, glyphs)
            + glyph.advance,
{
    assert(glyphs.push(glyph).drop_last() =~= glyphs);
}

/// Each pixel of the built-in font is a square in its place: the square in a
/// column and a row of the glyph of the character at `index` has the colour where
/// the font has a pixel there, and is left alone where it has none.
pub proof fn law_builtin_square(
    buffer: Seq<u32>,
    width: u32,
    height: u32,
    x: int,
    y: int,
    scale: u32,
    glyphs: Seq<Option<Seq<u8>>>,
    color: u32,
    index: int,
    column: int,
    row: int,
    right: int,
    down: int,
)
    requires
        0 <= index < glyphs.len(),
        0 <= column < 8,
        0 <= row < 8,
        0 <= right < scale,
        0 <= down < scale,
        0 <= x + (8 * index + column) * scale + right < width,
        0 <= y + row * scale + down < height,
        (y + row * scale + down) * width + (x + (8 * index + column) * scale + right)
            < buffer.len(),
    ensures
        ({
            let place = (y + row * scale + down) * width + (x + (8 * index + column) * scale
                + right);
            let drawn = line_drawn(buffer, width, height, x, y, scale, glyphs, color);
            &&& drawn.len() == buffer.len()
            &&& drawn[place] == if has_pixel(glyphs[index], column, row) {
                color
            } else {
                buffer[place]
            }
        }),
{
    let side = 8 * scale;
    let across = (8 * index + column) * scale + right;
    let within = column * scale + right;
    let below = row * scale + down;
    assert(across == index * side + within) by (nonlinear_arith)
        requires
            across == (8 * index + column) * scale + right,
            within == column * scale + right,
            side == 8 * scale,
    ;
    assert(0 <= within < side) by (nonlinear_arith)
        requires
            within == column * scale + right,
            side == 8 * scale,
            0 <= column < 8,
            0 <= right < scale,
    ;
    assert(0 <= below < side) by (nonlinear_arith)
        requires
            below == row * scale + down,
            side == 8 * scale,
            0 <= row < 8,
            0 <= down < scale,
    ;
    assert(0 <= across < side * glyphs.len()) by (nonlinear_arith)
        requires
            across == index * side + within,
            0 <= within < side,
            0 <= index < glyphs.len(),
    ;
    vstd::arithmetic::div_mod::lemma_fundamental_div_mod_converse(across, side, index, within);
    vstd::arithmetic::div_mod::lemma_fundamental_div_mod_converse(
        within,
        scale as int,
        column,
        right,
    );
    vstd::arithmetic::div_mod::lemma_fundamental_div_mod_converse(below, scale as int, row, down);
    pixels::law_place_of_a_pixel(width, x + across, y + below);
    pixels::law_clipped_holds(
        x,
        y,
        side * glyphs.len(),
        side,
        width,
        height,
        x + across,
        y + below,
    );
}

/// A glyph of the built-in font has a pixel where the bit of the column is set in
/// the row; a character without a glyph has none.
pub proof fn law_builtin_bits(rows: Seq<u8>, column: u8, row: int)
    requires
        column < 8,
    ensures
        has_pixel(Some(rows), column as int, row) <==> rows[row] & (1u8 << column) != 0,
        !has_pixel(None, column as int, row),
{
}

/// The glyphs of a text are those of its characters, one for one.
pub proof fn law_glyphs_of_a_text(words: Seq<char>, i: int)
    requires
        0 <= i < words.len(),
    ensures
        text_rows(words).len() == words.len(),
        text_rows(words)[i] == builtin_rows(words[i]),
{
}

} // verus!
