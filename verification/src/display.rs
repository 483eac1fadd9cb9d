//! The 64x32 monochrome display and what drawing a sprite does to it.
//!
//! Pixels are stored row by row: the pixel in column `x` of row `y` has index
//! `x + 64 * y`. A sprite is eight pixels wide and one byte per row tall; the
//! most significant bit of a row is its leftmost pixel. Drawing toggles the
//! pixels under the set bits of the sprite and wraps around both edges.

use vstd::prelude::*;

verus! {

/// Number of pixel columns.
pub const GAME_WIDTH: usize = 64;

/// Number of pixel rows.
pub const GAME_HEIGHT: usize = 32;

/// Whether the pixel in column `col` of a sprite row is set, columns counted
/// from the most significant bit.
pub open spec fn sprite_bit(row: u8, col: int) -> bool {
    0 <= col < 8 && (row >> ((7 - col) as u8)) & 1 == 1
}

/// Whether a sprite drawn at `(vx, vy)` has a set bit over the pixel in
/// column `px` of row `py`.
pub open spec fn sprite_covers(sprite: Seq<u8>, vx: int, vy: int, px: int, py: int) -> bool {
    let col: int = (px - vx) % 64;
    let row: int = (py - vy) % 32;
    col < 8 && row < sprite.len() && sprite_bit(sprite[row], col)
}

/// Whether drawing the sprite at `(vx, vy)` toggles the pixel with index `p`.
pub open spec fn toggles(sprite: Seq<u8>, vx: int, vy: int, p: int) -> bool {
    sprite_covers(sprite, vx, vy, p % 64, p / 64)
}

/// The display after the sprite has been drawn at `(vx, vy)`.
pub open spec fn draw_sprite(screen: Seq<bool>, sprite: Seq<u8>, vx: int, vy: int) -> Seq<bool> {
    Seq::new(screen.len(), |p: int| screen[p] != toggles(sprite, vx, vy, p))
}

/// Whether drawing the sprite at `(vx, vy)` switches off a pixel that was on.
pub open spec fn sprite_collides(screen: Seq<bool>, sprite: Seq<u8>, vx: int, vy: int) -> bool {
    exists|p: int| 0 <= p < screen.len() && screen[p] && #[trigger] toggles(sprite, vx, vy, p)
}

/// A display with every pixel off.
pub open spec fn blank_screen() -> Seq<bool> {
    Seq::new(2048, |p: int| false)
}

/// The sprite row that passes over pixel `p` when the sprite is drawn with
/// its top edge in row `vy`, rows counted from the top of the sprite.
pub open spec fn row_under(vy: int, p: int) -> int {
    (p / 64 - vy) % 32
}

/// The sprite column that passes over pixel `p` when the sprite is drawn with
/// its left edge in column `vx`.
pub open spec fn col_under(vx: int, p: int) -> int {
    (p % 64 - vx) % 64
}

/// Whether pixel `p` is toggled by one of the sprite bits that come before
/// row `i`, column `j` in reading order.
pub open spec fn toggles_before(sprite: Seq<u8>, vx: int, vy: int, p: int, i: int, j: int) -> bool {
    &&& toggles(sprite, vx, vy, p)
    &&& row_under(vy, p) < i || (row_under(vy, p) == i && col_under(vx, p) < j)
}

/// Whether one of the sprite bits that come before row `i`, column `j` in
/// reading order lies over a pixel that is on.
pub open spec fn collides_before(
    screen: Seq<bool>,
    sprite: Seq<u8>,
    vx: int,
    vy: int,
    i: int,
    j: int,
) -> bool {
    exists|p: int|
        0 <= p < screen.len() && screen[p] && #[trigger] toggles_before(sprite, vx, vy, p, i, j)
}

/// Exactly one pixel lies under row `i`, column `j` of a sprite.
pub proof fn lemma_pixel_under(vx: int, vy: int, i: int, j: int, p: int)
    requires
        0 <= i < 32,
        0 <= j < 64,
        0 <= p < 2048,
    ensures
        (row_under(vy, p) == i && col_under(vx, p) == j) <==> p == (vx + j) % 64 + 64 * ((vy + i)
            % 32),
{
}

/// A set bit in row `row`, column `col` of a sprite drawn at `(vx, vy)`
/// lands on the pixel in column `(vx + col) mod 64` of row `(vy + row) mod 32`,
/// and that pixel is toggled by no other bit of the sprite.
pub proof fn lemma_sprite_bit_lands(sprite: Seq<u8>, vx: int, vy: int, row: int, col: int)
    requires
        sprite.len() <= 32,
        0 <= row < sprite.len(),
        0 <= col < 8,
    ensures
        ({
            let px: int = (vx + col) % 64;
            let py: int = (vy + row) % 32;
            &&& 0 <= px + 64 * py < 2048
            &&& toggles(sprite, vx, vy, px + 64 * py) == sprite_bit(sprite[row], col)
        }),
{
    let px: int = (vx + col) % 64;
    let py: int = (vy + row) % 32;
    assert((px - vx) % 64 == col);
    assert((py - vy) % 32 == row);
    assert((px + 64 * py) % 64 == px);
    assert((px + 64 * py) / 64 == py);
}

/// Drawing the same sprite twice at the same place restores the display.
pub proof fn lemma_draw_twice_restores(screen: Seq<bool>, sprite: Seq<u8>, vx: int, vy: int)
    ensures
        draw_sprite(draw_sprite(screen, sprite, vx, vy), sprite, vx, vy) == screen,
{
    assert(draw_sprite(draw_sprite(screen, sprite, vx, vy), sprite, vx, vy) =~= screen);
}

/// The second of two equal draws collides exactly when the first one switched
/// a pixel on.
pub proof fn lemma_second_draw_collides(screen: Seq<bool>, sprite: Seq<u8>, vx: int, vy: int)
    ensures
        sprite_collides(draw_sprite(screen, sprite, vx, vy), sprite, vx, vy) <==> exists|p: int|
            0 <= p < screen.len() && !screen[p] && #[trigger] toggles(sprite, vx, vy, p),
{
    let once: Seq<bool> = draw_sprite(screen, sprite, vx, vy);
    if sprite_collides(once, sprite, vx, vy) {
        let p: int = choose|p: int|
            0 <= p < once.len() && once[p] && #[trigger] toggles(sprite, vx, vy, p);
        assert(!screen[p] && toggles(sprite, vx, vy, p));
    }
    if exists|p: int|
        0 <= p < screen.len() && !screen[p] && #[trigger] toggles(sprite, vx, vy, p) {
        let p: int = choose|p: int|
            0 <= p < screen.len() && !screen[p] && #[trigger] toggles(sprite, vx, vy, p);
        assert(once[p] && toggles(sprite, vx, vy, p));
    }
}

/// Tests the bit of a sprite row that stands for column `col`.
pub(crate) fn bit_is_set(row: u8, col: u8) -> (b: bool)
    requires
        col < 8,
    ensures
        b == sprite_bit(row, col as int),
{
    assert((row & (0x80u8 >> col) != 0) == ((row >> ((7u8 - col) as u8)) & 1 == 1)) by (bit_vector)
        requires
            col < 8,
    ;
    row & (0x80u8 >> col) != 0
}

} // verus!
