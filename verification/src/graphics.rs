//! The framebuffer and the sprite-drawing rule.
//!
//! The screen is a row-major grid of 64 by 32 cells; cell `k` lies in column
//! `k % 64` of row `k / 64`. A sprite is up to fifteen bytes, one per row,
//! eight pixels wide, the highest bit leftmost. Drawing XORs the sprite onto
//! the screen and clips it at the right and bottom edges.

use vstd::prelude::*;

verus! {

/// Columns of the screen.
pub const SCREEN_WIDTH: usize = 64;

/// Rows of the screen.
pub const SCREEN_HEIGHT: usize = 32;

/// Cells of the screen.
pub const SCREEN_SIZE: usize = 2048;

/// Pixels in one sprite row.
pub const SPRITE_WIDTH: usize = 8;

/// The mask that selects pixel `col` of a sprite row, column 0 leftmost.
pub open spec fn pixel_mask(col: usize) -> u8 {
    0x80u8 >> col
}

/// Whether pixel `col` of the sprite row `row` is set.
pub open spec fn sprite_bit(row: u8, col: int) -> bool {
    row & pixel_mask(col as usize) != 0
}

/// Whether the sprite, with its top left corner at `(x0, y0)`, has a set
/// pixel on cell `k` of the screen. Pixels that would fall beyond the right
/// or the bottom edge are on no cell.
pub open spec fn lit(sprite: Seq<u8>, x0: int, y0: int, k: int) -> bool {
    let cx = k % 64;
    let cy = k / 64;
    &&& 0 <= k < 2048
    &&& x0 <= cx < x0 + 8
    &&& y0 <= cy < y0 + sprite.len()
    &&& sprite_bit(sprite[cy - y0], cx - x0)
}

/// The value of a cell after a set sprite pixel was drawn on it.
pub open spec fn toggled(cell: u8) -> u8 {
    cell ^ 1
}

/// The screen after the sprite was drawn at `(x0, y0)`: every cell under a
/// set pixel is toggled, every other cell is kept.
pub open spec fn drawn(gfx: Seq<u8>, sprite: Seq<u8>, x0: int, y0: int) -> Seq<u8> {
    Seq::new(
        gfx.len(),
        |k: int|
            if lit(sprite, x0, y0, k) {
                toggled(gfx[k])
            } else {
                gfx[k]
            },
    )
}

/// Whether drawing the sprite at `(x0, y0)` turns a set cell off.
pub open spec fn collides(gfx: Seq<u8>, sprite: Seq<u8>, x0: int, y0: int) -> bool {
    exists|k: int| lit(sprite, x0, y0, k) && #[trigger] gfx[k] == 1
}

/// Every cell of the screen holds 0 or 1.
pub open spec fn is_binary(cells: Seq<u8>) -> bool {
    forall|k: int| 0 <= k < cells.len() ==> #[trigger] cells[k] == 0 || cells[k] == 1
}

/// A screen of `len` dark cells.
pub open spec fn blank(len: nat) -> Seq<u8> {
    Seq::new(len, |k: int| 0u8)
}

/// Toggling turns a dark cell on and a lit cell off, and undoes itself.
pub proof fn lemma_toggled(cell: u8)
    ensures
        toggled(0) == 1,
        toggled(1) == 0,
        toggled(toggled(cell)) == cell,
        toggled(cell) != cell,
{
    assert(0u8 ^ 1 == 1) by (bit_vector);
    assert(1u8 ^ 1 == 0) by (bit_vector);
    assert((cell ^ 1) ^ 1 == cell) by (bit_vector);
    assert(cell ^ 1 != cell) by (bit_vector);
}

/// Drawing changes exactly the cells under a set pixel of the sprite, and
/// those lie within the sprite's eight columns and its rows, from `(x0, y0)`
/// rightwards and downwards: a sprite that reaches the right or the bottom
/// edge is cut off there and does not come back in at column 0 or row 0.
pub proof fn lemma_draw_is_clipped(gfx: Seq<u8>, sprite: Seq<u8>, x0: int, y0: int, k: int)
    requires
        gfx.len() == 2048,
        0 <= k < 2048,
    ensures
        drawn(gfx, sprite, x0, y0)[k] != gfx[k] <==> lit(sprite, x0, y0, k),
        lit(sprite, x0, y0, k) ==> x0 <= k % 64 < x0 + 8 && y0 <= k / 64 < y0 + sprite.len(),
{
    lemma_toggled(gfx[k]);
}

/// Drawing keeps a screen of zeros and ones a screen of zeros and ones.
pub proof fn lemma_draw_keeps_binary(gfx: Seq<u8>, sprite: Seq<u8>, x0: int, y0: int)
    requires
        is_binary(gfx),
    ensures
        is_binary(drawn(gfx, sprite, x0, y0)),
{
    lemma_toggled(0);
}

/// Drawing a sprite a second time at the same place restores the screen.
pub proof fn lemma_draw_twice_restores(gfx: Seq<u8>, sprite: Seq<u8>, x0: int, y0: int)
    ensures
        drawn(drawn(gfx, sprite, x0, y0), sprite, x0, y0) == gfx,
{
    let once = drawn(gfx, sprite, x0, y0);
    let twice = drawn(once, sprite, x0, y0);
    assert forall|k: int| 0 <= k < gfx.len() implies twice[k] == gfx[k] by {
        lemma_toggled(gfx[k]);
    }
    assert(twice =~= gfx);
}

/// Whether the sprite, drawn at `(x0, y0)`, has a set pixel on the screen.
pub open spec fn is_visible(sprite: Seq<u8>, x0: int, y0: int) -> bool {
    exists|k: int| #[trigger] lit(sprite, x0, y0, k)
}

/// A sprite that is drawn where no cell under its set pixels is lit does not
/// collide. Drawn there a second time it collides if it has a set pixel on
/// the screen, and only then.
pub proof fn lemma_second_draw_collides(gfx: Seq<u8>, sprite: Seq<u8>, x0: int, y0: int)
    requires
        gfx.len() == 2048,
        forall|k: int| lit(sprite, x0, y0, k) ==> #[trigger] gfx[k] == 0,
    ensures
        !collides(gfx, sprite, x0, y0),
        collides(drawn(gfx, sprite, x0, y0), sprite, x0, y0) == is_visible(sprite, x0, y0),
{
    lemma_toggled(0);
    let once = drawn(gfx, sprite, x0, y0);
    if is_visible(sprite, x0, y0) {
        let k = choose|k: int| #[trigger] lit(sprite, x0, y0, k);
        assert(once[k] == 1);
    }
}

/// On a dark screen no sprite collides.
pub proof fn lemma_blank_never_collides(sprite: Seq<u8>, x0: int, y0: int)
    ensures
        !collides(blank(2048), sprite, x0, y0),
        is_binary(blank(2048)),
{
}

/// The cells that rows `0..rows` and, of row `rows`, columns `0..cols` of the
/// sprite have lit so far.
spec fn lit_before(sprite: Seq<u8>, x0: int, y0: int, rows: int, cols: int, k: int) -> bool {
    let cx = k % 64;
    let cy = k / 64;
    &&& lit(sprite, x0, y0, k)
    &&& (cy - y0 < rows || (cy - y0 == rows && cx - x0 < cols))
}

/// The screen while a sprite is being drawn.
spec fn drawn_before(gfx: Seq<u8>, sprite: Seq<u8>, x0: int, y0: int, rows: int, cols: int) -> Seq<
    u8,
> {
    Seq::new(
        gfx.len(),
        |k: int|
            if lit_before(sprite, x0, y0, rows, cols, k) {
                toggled(gfx[k])
            } else {
                gfx[k]
            },
    )
}

/// Whether a set cell was turned off so far.
spec fn collides_before(
    gfx: Seq<u8>,
    sprite: Seq<u8>,
    x0: int,
    y0: int,
    rows: int,
    cols: int,
) -> bool {
    exists|k: int| lit_before(sprite, x0, y0, rows, cols, k) && #[trigger] gfx[k] == 1
}

/// Draws the `height` rows stored at `memory[addr..]` with the top left corner
/// at `(x0, y0)` and reports whether a set cell was turned off.
///
/// The caller has clipped the sprite at the bottom edge already.
pub(crate) fn draw_sprite(
    gfx: &mut [u8; 2048],
    memory: &[u8; 4096],
    addr: usize,
    height: usize,
    x0: usize,
    y0: usize,
) -> (collision: bool)
    requires
        addr + height <= 4096,
        x0 < 64,
        y0 + height <= 32,
    ensures
        final(gfx)@ == drawn(
            old(gfx)@,
            memory@.subrange(addr as int, addr + height),
            x0 as int,
            y0 as int,
        ),
        collision == collides(
            old(gfx)@,
            memory@.subrange(addr as int, addr + height),
            x0 as int,
            y0 as int,
        ),
{
    let ghost before = gfx@;
    let ghost sprite = memory@.subrange(addr as int, addr + height);
    let width: usize = if x0 + 8 > 64 {
        64 - x0
    } else {
        8
    };
    let mut collision = false;
    let mut row: usize = 0;
    assert(gfx@ =~= drawn_before(before, sprite, x0 as int, y0 as int, 0, 0));
    while row < height
        invariant
            row <= height,
            addr + height <= 4096,
            x0 < 64,
            y0 + height <= 32,
            width == if x0 + 8 > 64 { 64 - x0 } else { 8 },
            sprite == memory@.subrange(addr as int, addr + height),
            sprite.len() == height,
            before.len() == 2048,
            gfx@ == drawn_before(before, sprite, x0 as int, y0 as int, row as int, 0),
            collision == collides_before(before, sprite, x0 as int, y0 as int, row as int, 0),
        decreases height - row,
    {
        let bits = memory[addr + row];
        assert(bits == sprite[row as int]);
        let mut col: usize = 0;
        while col < width
            invariant
                row < height,
                col <= width,
                x0 < 64,
                y0 + height <= 32,
                width == if x0 + 8 > 64 { 64 - x0 } else { 8 },
                sprite.len() == height,
                bits == sprite[row as int],
                before.len() == 2048,
                gfx@ == drawn_before(before, sprite, x0 as int, y0 as int, row as int, col as int),
                collision == collides_before(
                    before,
                    sprite,
                    x0 as int,
                    y0 as int,
                    row as int,
                    col as int,
                ),
            decreases width - col,
        {
            let pixel = bits & (0x80u8 >> col);
            let idx: usize = x0 + col + (y0 + row) * 64;
            assert(idx % 64 == x0 + col && idx / 64 == y0 + row);
            let ghost now = gfx@;
            if pixel != 0 {
                assert(lit(sprite, x0 as int, y0 as int, idx as int));
                if gfx[idx] == 1 {
                    collision = true;
                }
                gfx[idx] = gfx[idx] ^ 1;
            }
            proof {
                let (x, y, r, c) = (x0 as int, y0 as int, row as int, col as int);
                assert forall|k: int| lit_before(sprite, x, y, r, c + 1, k) <==> (lit_before(
                    sprite,
                    x,
                    y,
                    r,
                    c,
                    k,
                ) || (k == idx && pixel != 0)) by {
                    if k == idx {
                        assert(((k % 64) - x) as usize == col);
                    }
                }
                assert(gfx@ =~= drawn_before(before, sprite, x, y, r, c + 1));
                if pixel != 0 && now[idx as int] == 1 {
                    assert(lit_before(sprite, x, y, r, c + 1, idx as int) && before[idx as int]
                        == 1);
                }
            }
            col += 1;
        }
        proof {
            let (x, y, r) = (x0 as int, y0 as int, row as int);
            assert forall|k: int| lit_before(sprite, x, y, r, width as int, k) <==> lit_before(
                sprite,
                x,
                y,
                r + 1,
                0,
                k,
            ) by {}
            assert(gfx@ =~= drawn_before(before, sprite, x, y, r + 1, 0));
        }
        row += 1;
    }
    proof {
        let (x, y) = (x0 as int, y0 as int);
        assert forall|k: int| lit_before(sprite, x, y, height as int, 0, k) <==> lit(
            sprite,
            x,
            y,
            k,
        ) by {}
        assert(gfx@ =~= drawn(before, sprite, x, y));
    }
    collision
}

} // verus!
