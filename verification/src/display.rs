//! The monochrome 64x32 display buffer and sprite compositing.

use vstd::prelude::*;

verus! {

/// Number of pixels in one display row.
pub const WIDTH: usize = 64;

/// Number of display rows.
pub const HEIGHT: usize = 32;

/// Number of pixels in a sprite row.
pub const SPRITE_WIDTH: usize = 8;

/// Value of a pixel that is lit.
pub const PIXEL_ON: u32 = 0xFFFFFF;

/// Value of a pixel that is dark.
pub const PIXEL_OFF: u32 = 0;

/// The pixels of the display, row by row from the top, left to right within a row.
pub type DisplayBuffer = [u32; 2048];

/// Whether the pixel `column` places from the left of a sprite row is set.
/// The leftmost pixel is the most significant bit of the row.
pub open spec fn sprite_bit(row: u8, column: int) -> bool {
    (row >> ((7 - column) as u8)) & 1 == 1
}

/// Whether a sprite placed with its top-left corner at (`x`, `y`) has a set bit over the
/// display pixel (`px`, `py`). Sprite pixels that would fall beyond the right or bottom edge
/// cover nothing: the sprite is clipped, never wrapped.
pub open spec fn sprite_covers(sprite: Seq<u8>, x: int, y: int, px: int, py: int) -> bool {
    &&& 0 <= px < WIDTH
    &&& 0 <= py < HEIGHT
    &&& x <= px < x + SPRITE_WIDTH
    &&& y <= py < y + sprite.len()
    &&& sprite_bit(sprite[py - y], px - x)
}

/// Whether a sprite placed at (`x`, `y`) has a set bit over the pixel stored at `position`.
pub open spec fn sprite_covers_at(sprite: Seq<u8>, x: int, y: int, position: int) -> bool {
    sprite_covers(sprite, x, y, position % (WIDTH as int), position / (WIDTH as int))
}

/// The display after a sprite has been combined into it by exclusive or: every pixel under a
/// set sprite bit is toggled, every other pixel is left as it was.
pub open spec fn blit(display: Seq<u32>, sprite: Seq<u8>, x: int, y: int) -> Seq<u32> {
    Seq::new(
        display.len(),
        |position: int|
            if sprite_covers_at(sprite, x, y, position) {
                display[position] ^ PIXEL_ON
            } else {
                display[position]
            },
    )
}

/// Whether at least one pixel under a set sprite bit is lit.
pub open spec fn collides(display: Seq<u32>, sprite: Seq<u8>, x: int, y: int) -> bool {
    exists|position: int|
        0 <= position < display.len() && sprite_covers_at(sprite, x, y, position)
            && #[trigger] display[position] == PIXEL_ON
}

/// A display with every pixel dark.
pub open spec fn blank() -> Seq<u32> {
    Seq::new((WIDTH * HEIGHT) as nat, |position: int| PIXEL_OFF)
}

/// A sprite whose corner lies beyond the right or the bottom edge of the display draws
/// nothing: the display stays as it was and nothing collides.
pub proof fn lemma_sprite_outside(display: Seq<u32>, sprite: Seq<u8>, x: int, y: int)
    requires
        x >= WIDTH || y >= HEIGHT,
    ensures
        blit(display, sprite, x, y) == display,
        !collides(display, sprite, x, y),
{
    assert(blit(display, sprite, x, y) =~= display);
}

/// A sprite is clipped at the edges of the display and never wraps around them: a pixel
/// that lies left of the sprite's corner, above it, eight or more columns to its right, or
/// as many rows below it as the sprite has or more, keeps its value.
pub proof fn lemma_sprite_clipped(
    display: Seq<u32>,
    sprite: Seq<u8>,
    x: int,
    y: int,
    position: int,
)
    requires
        0 <= position < display.len(),
        ({
            let (px, py) = (position % (WIDTH as int), position / (WIDTH as int));
            px < x || py < y || px >= x + SPRITE_WIDTH || py >= y + sprite.len()
        }),
    ensures
        blit(display, sprite, x, y)[position] == display[position],
{
}

/// Drawing changes a pixel exactly when a set sprite bit lies over it, and it changes it by
/// toggling the bits of `PIXEL_ON`.
pub proof fn lemma_blit_pixel(display: Seq<u32>, sprite: Seq<u8>, x: int, y: int, position: int)
    requires
        0 <= position < display.len(),
    ensures
        blit(display, sprite, x, y).len() == display.len(),
        sprite_covers_at(sprite, x, y, position) ==> blit(display, sprite, x, y)[position]
            == display[position] ^ PIXEL_ON,
        !sprite_covers_at(sprite, x, y, position) ==> blit(display, sprite, x, y)[position]
            == display[position],
        display[position] == PIXEL_ON ==> (display[position] ^ PIXEL_ON) == PIXEL_OFF,
        display[position] == PIXEL_OFF ==> (display[position] ^ PIXEL_ON) == PIXEL_ON,
{
    let pixel = display[position];
    assert(pixel == 0xFFFFFFu32 ==> pixel ^ 0xFFFFFFu32 == 0u32) by (bit_vector);
    assert(pixel == 0u32 ==> pixel ^ 0xFFFFFFu32 == 0xFFFFFFu32) by (bit_vector);
}

/// Drawing the same sprite at the same place a second time restores the display.
pub proof fn lemma_blit_twice(display: Seq<u32>, sprite: Seq<u8>, x: int, y: int)
    ensures
        blit(blit(display, sprite, x, y), sprite, x, y) == display,
{
    assert forall|position: int| 0 <= position < display.len() implies blit(
        blit(display, sprite, x, y),
        sprite,
        x,
        y,
    )[position] == display[position] by {
        let pixel = display[position];
        assert((pixel ^ 0xFFFFFFu32) ^ 0xFFFFFFu32 == pixel) by (bit_vector);
    }
    assert(blit(blit(display, sprite, x, y), sprite, x, y) =~= display);
}

/// Whether drawing, by the time it reaches row `row`, column `column` of the sprite, has
/// toggled the pixel stored at `position`: a set sprite bit lies over the pixel, in an earlier
/// row or earlier in that row.
spec fn drawn(sprite: Seq<u8>, x: int, y: int, row: int, column: int, position: int) -> bool {
    let (px, py) = (position % (WIDTH as int), position / (WIDTH as int));
    sprite_covers_at(sprite, x, y, position) && (py - y < row || (py - y == row && px - x
        < column))
}

/// The display once drawing has reached row `row`, column `column` of the sprite.
spec fn blit_until(display: Seq<u32>, sprite: Seq<u8>, x: int, y: int, row: int, column: int) -> Seq<
    u32,
> {
    Seq::new(
        display.len(),
        |position: int|
            if drawn(sprite, x, y, row, column, position) {
                display[position] ^ PIXEL_ON
            } else {
                display[position]
            },
    )
}

/// Whether the pixel stored at `position` was lit and has been toggled by the time drawing
/// reaches row `row`, column `column` of the sprite.
spec fn hit(
    display: Seq<u32>,
    sprite: Seq<u8>,
    x: int,
    y: int,
    row: int,
    column: int,
    position: int,
) -> bool {
    0 <= position < display.len() && drawn(sprite, x, y, row, column, position)
        && display[position] == PIXEL_ON
}

/// Whether a lit pixel has been toggled by the time drawing reaches row `row`, column
/// `column` of the sprite.
spec fn collides_until(
    display: Seq<u32>,
    sprite: Seq<u8>,
    x: int,
    y: int,
    row: int,
    column: int,
) -> bool {
    exists|position: int| hit(display, sprite, x, y, row, column, position)
}

/// If two stages of drawing have toggled the same pixels, they have met the same collisions.
proof fn lemma_same_pixels_same_collisions(
    display: Seq<u32>,
    sprite: Seq<u8>,
    x: int,
    y: int,
    row: int,
    column: int,
    later_row: int,
    later_column: int,
)
    requires
        forall|position: int|
            0 <= position < display.len() ==> drawn(sprite, x, y, row, column, position) == drawn(
                sprite,
                x,
                y,
                later_row,
                later_column,
                position,
            ),
    ensures
        blit_until(display, sprite, x, y, row, column) == blit_until(
            display,
            sprite,
            x,
            y,
            later_row,
            later_column,
        ),
        collides_until(display, sprite, x, y, row, column) == collides_until(
            display,
            sprite,
            x,
            y,
            later_row,
            later_column,
        ),
{
    assert(blit_until(display, sprite, x, y, row, column) =~= blit_until(
        display,
        sprite,
        x,
        y,
        later_row,
        later_column,
    ));
    if collides_until(display, sprite, x, y, row, column) {
        let position = choose|position: int| hit(display, sprite, x, y, row, column, position);
        assert(hit(display, sprite, x, y, later_row, later_column, position));
    }
    if collides_until(display, sprite, x, y, later_row, later_column) {
        let position = choose|position: int|
            hit(display, sprite, x, y, later_row, later_column, position);
        assert(hit(display, sprite, x, y, row, column, position));
    }
}

/// Drawing the next column of a row toggles the pixel under it if the sprite bit is set, and
/// no other pixel; a collision is met if that pixel was lit.
proof fn lemma_next_column(
    display: Seq<u32>,
    sprite: Seq<u8>,
    x: int,
    y: int,
    row: int,
    column: int,
)
    requires
        display.len() == WIDTH * HEIGHT,
        0 <= x,
        0 <= y,
        0 <= row < sprite.len(),
        y + row < HEIGHT,
        0 <= column < SPRITE_WIDTH,
        x + column < WIDTH,
    ensures
        ({
            let position = (y + row) * WIDTH + x + column;
            let set = sprite_bit(sprite[row], column);
            let now = blit_until(display, sprite, x, y, row, column);
            &&& now[position] == display[position]
            &&& blit_until(display, sprite, x, y, row, column + 1) == if set {
                now.update(position, display[position] ^ PIXEL_ON)
            } else {
                now
            }
            &&& collides_until(display, sprite, x, y, row, column + 1) == (collides_until(
                display,
                sprite,
                x,
                y,
                row,
                column,
            ) || (set && display[position] == PIXEL_ON))
        }),
{
    let position = (y + row) * WIDTH + x + column;
    let set = sprite_bit(sprite[row], column);
    let now = blit_until(display, sprite, x, y, row, column);
    assert(position % (WIDTH as int) == x + column && position / (WIDTH as int) == y + row);
    assert forall|other: int| 0 <= other < display.len() implies drawn(
        sprite,
        x,
        y,
        row,
        column + 1,
        other,
    ) == (drawn(sprite, x, y, row, column, other) || (other == position && set)) by {
        if other != position {
            assert(other % (WIDTH as int) != x + column || other / (WIDTH as int) != y + row);
        }
    }
    assert(blit_until(display, sprite, x, y, row, column + 1) =~= if set {
        now.update(position, display[position] ^ PIXEL_ON)
    } else {
        now
    });
    let next = column + 1;
    if collides_until(display, sprite, x, y, row, next) {
        let met = choose|met: int| hit(display, sprite, x, y, row, next, met);
        if met != position {
            assert(hit(display, sprite, x, y, row, column, met));
        }
    }
    if collides_until(display, sprite, x, y, row, column) {
        let met = choose|met: int| hit(display, sprite, x, y, row, column, met);
        assert(hit(display, sprite, x, y, row, next, met));
    }
    if set && display[position] == PIXEL_ON {
        assert(hit(display, sprite, x, y, row, next, position));
    }
}

/// Turns every pixel dark.
pub fn clear(display_buffer: &mut DisplayBuffer)
    ensures
        final(display_buffer)@ == blank(),
{
    *display_buffer = [PIXEL_OFF; 2048];
}

/// Combines `sprite` into the display with its top-left corner at (`x`, `y`) and reports
/// whether a lit pixel was toggled. Rows and columns of the sprite that would fall beyond the
/// bottom or the right edge of the display are left out.
pub fn draw_sprite(display_buffer: &mut DisplayBuffer, sprite: &[u8], x: u8, y: u8) -> (collision:
    bool)
    ensures
        final(display_buffer)@ == blit(old(display_buffer)@, sprite@, x as int, y as int),
        collision == collides(old(display_buffer)@, sprite@, x as int, y as int),
{
    let ghost before = display_buffer@;
    let mut collision = false;
    let mut row: usize = 0;
    assert(display_buffer@ =~= blit_until(before, sprite@, x as int, y as int, 0, 0));
    while row < sprite.len() && y as usize + row < HEIGHT
        invariant
            row <= sprite@.len(),
            row <= HEIGHT,
            before.len() == WIDTH * HEIGHT,
            display_buffer@ == blit_until(before, sprite@, x as int, y as int, row as int, 0),
            collision == collides_until(before, sprite@, x as int, y as int, row as int, 0),
        decreases sprite@.len() - row,
    {
        let bits = sprite[row];
        let mut column: usize = 0;
        while column < SPRITE_WIDTH && x as usize + column < WIDTH
            invariant
                row < sprite@.len(),
                y + row < HEIGHT,
                column <= SPRITE_WIDTH,
                bits == sprite@[row as int],
                before.len() == WIDTH * HEIGHT,
                display_buffer@ == blit_until(
                    before,
                    sprite@,
                    x as int,
                    y as int,
                    row as int,
                    column as int,
                ),
                collision == collides_until(
                    before,
                    sprite@,
                    x as int,
                    y as int,
                    row as int,
                    column as int,
                ),
            decreases SPRITE_WIDTH - column,
        {
            proof {
                lemma_next_column(before, sprite@, x as int, y as int, row as int, column as int);
            }
            if (bits >> ((7 - column) as u8)) & 1 == 1 {
                let position = (y as usize + row) * WIDTH + x as usize + column;
                if display_buffer[position] == PIXEL_ON {
                    collision = true;
                }
                display_buffer[position] = display_buffer[position] ^ PIXEL_ON;
            }
            column += 1;
        }
        proof {
            lemma_same_pixels_same_collisions(
                before,
                sprite@,
                x as int,
                y as int,
                row as int,
                column as int,
                row + 1,
                0,
            );
        }
        row += 1;
    }
    proof {
        assert(display_buffer@ =~= blit(before, sprite@, x as int, y as int));
        if collision {
            let met = choose|met: int|
                hit(before, sprite@, x as int, y as int, row as int, 0, met);
            assert(before[met] == PIXEL_ON);
        }
        if collides(before, sprite@, x as int, y as int) {
            let met = choose|met: int|
                0 <= met < before.len() && sprite_covers_at(sprite@, x as int, y as int, met)
                    && #[trigger] before[met] == PIXEL_ON;
            assert(hit(before, sprite@, x as int, y as int, row as int, 0, met));
        }
    }
    collision
}

} // verus!
