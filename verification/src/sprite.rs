//! Sprites on the display: which cells a sprite toggles, what the display
//! holds after a draw, and when a draw reports a collision.

use vstd::prelude::*;

verus! {

/// Index of the display cell in which column `col` of row `row` of a sprite
/// lands, for a sprite whose corner is at column `vx` and row `vy`. Columns
/// wrap at 64 and rows at 32.
pub open spec fn cell(vx: int, vy: int, row: int, col: int) -> int {
    (vx + col) % 64 + ((vy + row) % 32) * 64
}

/// Whether the sprite stored at `i` has the bit of column `col`, counted from
/// the left, set in its row `row`. Row addresses wrap at the end of memory.
pub open spec fn sprite_bit(memory: Seq<u8>, i: int, row: int, col: int) -> bool {
    memory[(i + row) % 4096] & (0x80u8 >> col) != 0
}

/// Whether drawing the `n`-row sprite stored at `i` with its corner at
/// (`vx`, `vy`) toggles the display cell `c`: some set bit of the sprite
/// lands in it.
pub open spec fn toggles(memory: Seq<u8>, i: int, vx: int, vy: int, n: int, c: int) -> bool {
    exists|row: int, col: int|
        0 <= row < n && 0 <= col < 8 && cell(vx, vy, row, col) == c && #[trigger] sprite_bit(
            memory,
            i,
            row,
            col,
        )
}

/// The display after the sprite is drawn: the cells it toggles are flipped
/// by exclusive or with 1, the others are kept.
pub open spec fn draw(gfx: Seq<u8>, memory: Seq<u8>, i: int, vx: int, vy: int, n: int) -> Seq<u8> {
    Seq::new(
        2048,
        |c: int|
            if toggles(memory, i, vx, vy, n, c) {
                gfx[c] ^ 1u8
            } else {
                gfx[c]
            },
    )
}

/// Whether drawing the sprite turns a lit cell dark.
pub open spec fn collides(gfx: Seq<u8>, memory: Seq<u8>, i: int, vx: int, vy: int, n: int) -> bool {
    exists|c: int| 0 <= c < 2048 && #[trigger] toggles(memory, i, vx, vy, n, c) && gfx[c] == 1
}

/// The sprite row that lands in the display row of cell `c`.
pub open spec fn row_of(vy: int, c: int) -> int {
    (c / 64 - vy) % 32
}

/// The sprite column that lands in the display column of cell `c`.
pub open spec fn col_of(vx: int, c: int) -> int {
    (c % 64 - vx) % 64
}

/// Going `k` columns to the right of column `vx` and coming back by `vx`
/// gives `k` again, and the other way round, with columns wrapping at 64.
proof fn lemma_wrap_64(vx: int, k: int)
    requires
        0 <= k < 64,
    ensures
        ((vx + k) % 64 - vx) % 64 == k,
        (vx + (k - vx) % 64) % 64 == k,
{
}

/// The same for rows, which wrap at 32.
proof fn lemma_wrap_32(vy: int, r: int)
    requires
        0 <= r < 32,
    ensures
        ((vy + r) % 32 - vy) % 32 == r,
        (vy + (r - vy) % 32) % 32 == r,
{
}

/// A sprite of at most 32 rows reaches each display cell from at most one of
/// its bits, the one at (`row_of`, `col_of`): the cell is toggled exactly if
/// that bit lies within the sprite and is set.
pub proof fn lemma_toggles_by_one_bit(
    memory: Seq<u8>,
    i: int,
    vx: int,
    vy: int,
    n: int,
    c: int,
)
    requires
        0 <= n <= 32,
        0 <= c < 2048,
    ensures
        toggles(memory, i, vx, vy, n, c) <==> (row_of(vy, c) < n && col_of(vx, c) < 8 && sprite_bit(
            memory,
            i,
            row_of(vy, c),
            col_of(vx, c),
        )),
{
    let r = row_of(vy, c);
    let k = col_of(vx, c);
    if toggles(memory, i, vx, vy, n, c) {
        let (row, col) = choose|row: int, col: int|
            0 <= row < n && 0 <= col < 8 && cell(vx, vy, row, col) == c && #[trigger] sprite_bit(
                memory,
                i,
                row,
                col,
            );
        lemma_wrap_64(vx, col);
        lemma_wrap_32(vy, row);
        let a = (vx + col) % 64;
        let b = (vy + row) % 32;
        assert(c == a + b * 64);
        assert(c % 64 == a && c / 64 == b);
        assert(row == r && col == k);
    }
    if r < n && k < 8 && sprite_bit(memory, i, r, k) {
        lemma_wrap_64(vx, c % 64);
        lemma_wrap_32(vy, c / 64);
        assert(cell(vx, vy, r, k) == c);
    }
}

/// The cell in which a sprite bit lands is on the display, and it is the only
/// cell whose sprite row and column are those of the bit.
pub proof fn lemma_cell_of_bit(vx: int, vy: int, row: int, col: int, c: int)
    requires
        0 <= row < 32,
        0 <= col < 64,
        0 <= c < 2048,
    ensures
        0 <= cell(vx, vy, row, col) < 2048,
        (row_of(vy, c) == row && col_of(vx, c) == col) <==> c == cell(vx, vy, row, col),
{
    lemma_wrap_64(vx, col);
    lemma_wrap_32(vy, row);
    lemma_wrap_64(vx, c % 64);
    lemma_wrap_32(vy, c / 64);
    let a = (vx + col) % 64;
    let b = (vy + row) % 32;
    assert((a + b * 64) % 64 == a && (a + b * 64) / 64 == b);
}

/// Whether the sprite toggles cell `c` with one of the bits that come before
/// column `col` of row `row`, rows taken from the top and columns from the
/// left.
pub open spec fn toggles_before(
    memory: Seq<u8>,
    i: int,
    vx: int,
    vy: int,
    row: int,
    col: int,
    c: int,
) -> bool {
    let r = row_of(vy, c);
    let k = col_of(vx, c);
    (r < row || (r == row && k < col)) && k < 8 && sprite_bit(memory, i, r, k)
}

/// Whether one of the bits that come before column `col` of row `row` lands
/// in a lit cell of `gfx`.
pub open spec fn collides_before(
    gfx: Seq<u8>,
    memory: Seq<u8>,
    i: int,
    vx: int,
    vy: int,
    row: int,
    col: int,
) -> bool {
    exists|c: int|
        0 <= c < 2048 && #[trigger] toggles_before(memory, i, vx, vy, row, col, c) && gfx[c] == 1
}

/// Taking the bit at column `col` of row `row` into account changes at most
/// the cell in which that bit lands, and changes it exactly if the bit is set.
pub proof fn lemma_next_bit(
    gfx: Seq<u8>,
    memory: Seq<u8>,
    i: int,
    vx: int,
    vy: int,
    row: int,
    col: int,
)
    requires
        0 <= row < 32,
        0 <= col < 8,
    ensures
        0 <= cell(vx, vy, row, col) < 2048,
        !toggles_before(memory, i, vx, vy, row, col, cell(vx, vy, row, col)),
        toggles_before(memory, i, vx, vy, row, col + 1, cell(vx, vy, row, col)) == sprite_bit(
            memory,
            i,
            row,
            col,
        ),
        forall|c: int|
            0 <= c < 2048 && c != cell(vx, vy, row, col) ==> #[trigger] toggles_before(
                memory,
                i,
                vx,
                vy,
                row,
                col + 1,
                c,
            ) == toggles_before(memory, i, vx, vy, row, col, c),
        collides_before(gfx, memory, i, vx, vy, row, col + 1) <==> (collides_before(
            gfx,
            memory,
            i,
            vx,
            vy,
            row,
            col,
        ) || (sprite_bit(memory, i, row, col) && gfx[cell(vx, vy, row, col)] == 1)),
{
    let p = cell(vx, vy, row, col);
    lemma_cell_of_bit(vx, vy, row, col, 0);
    lemma_cell_of_bit(vx, vy, row, col, p);
    assert forall|c: int| 0 <= c < 2048 && c != p implies #[trigger] toggles_before(
        memory,
        i,
        vx,
        vy,
        row,
        col + 1,
        c,
    ) == toggles_before(memory, i, vx, vy, row, col, c) by {
        lemma_cell_of_bit(vx, vy, row, col, c);
    }
    if collides_before(gfx, memory, i, vx, vy, row, col + 1) {
        let c = choose|c: int|
            0 <= c < 2048 && #[trigger] toggles_before(memory, i, vx, vy, row, col + 1, c)
                && gfx[c] == 1;
        if c != p {
            assert(toggles_before(memory, i, vx, vy, row, col, c));
        }
    }
    if collides_before(gfx, memory, i, vx, vy, row, col) {
        let c = choose|c: int|
            0 <= c < 2048 && #[trigger] toggles_before(memory, i, vx, vy, row, col, c) && gfx[c]
                == 1;
        assert(toggles_before(memory, i, vx, vy, row, col + 1, c));
    }
    if sprite_bit(memory, i, row, col) && gfx[p] == 1 {
        assert(toggles_before(memory, i, vx, vy, row, col + 1, p));
    }
}

/// The bits before the end of a row are the bits before the start of the
/// next row.
pub proof fn lemma_next_row(gfx: Seq<u8>, memory: Seq<u8>, i: int, vx: int, vy: int, row: int)
    ensures
        forall|c: int| #[trigger]
            toggles_before(memory, i, vx, vy, row, 8, c) == toggles_before(
                memory,
                i,
                vx,
                vy,
                row + 1,
                0,
                c,
            ),
        collides_before(gfx, memory, i, vx, vy, row, 8) == collides_before(
            gfx,
            memory,
            i,
            vx,
            vy,
            row + 1,
            0,
        ),
{
    if collides_before(gfx, memory, i, vx, vy, row, 8) {
        let c = choose|c: int|
            0 <= c < 2048 && #[trigger] toggles_before(memory, i, vx, vy, row, 8, c) && gfx[c]
                == 1;
        assert(toggles_before(memory, i, vx, vy, row + 1, 0, c));
    }
    if collides_before(gfx, memory, i, vx, vy, row + 1, 0) {
        let c = choose|c: int|
            0 <= c < 2048 && #[trigger] toggles_before(memory, i, vx, vy, row + 1, 0, c)
                && gfx[c] == 1;
        assert(toggles_before(memory, i, vx, vy, row, 8, c));
    }
}

/// Once every row of the sprite is done, the bits that came before are all
/// its bits.
pub proof fn lemma_all_rows_done(
    gfx: Seq<u8>,
    memory: Seq<u8>,
    i: int,
    vx: int,
    vy: int,
    n: int,
)
    requires
        0 <= n <= 32,
    ensures
        forall|c: int|
            0 <= c < 2048 ==> (#[trigger] toggles_before(memory, i, vx, vy, n, 0, c) <==> toggles(
                memory,
                i,
                vx,
                vy,
                n,
                c,
            )),
        collides_before(gfx, memory, i, vx, vy, n, 0) <==> collides(gfx, memory, i, vx, vy, n),
{
    assert forall|c: int| 0 <= c < 2048 implies (#[trigger] toggles_before(
        memory,
        i,
        vx,
        vy,
        n,
        0,
        c,
    ) <==> toggles(memory, i, vx, vy, n, c)) by {
        lemma_toggles_by_one_bit(memory, i, vx, vy, n, c);
    }
    if collides_before(gfx, memory, i, vx, vy, n, 0) {
        let c = choose|c: int|
            0 <= c < 2048 && #[trigger] toggles_before(memory, i, vx, vy, n, 0, c) && gfx[c] == 1;
        assert(toggles(memory, i, vx, vy, n, c));
    }
    if collides(gfx, memory, i, vx, vy, n) {
        let c = choose|c: int|
            0 <= c < 2048 && #[trigger] toggles(memory, i, vx, vy, n, c) && gfx[c] == 1;
        assert(toggles_before(memory, i, vx, vy, n, 0, c));
    }
}

/// Flipping a cell twice gives it back, and flipping keeps a cell 0 or 1.
pub proof fn lemma_flip(g: u8)
    ensures
        (g ^ 1u8) ^ 1u8 == g,
        g <= 1 ==> g ^ 1u8 == 1 - g,
{
    assert((g ^ 1u8) ^ 1u8 == g) by (bit_vector);
    assert(g <= 1 ==> g ^ 1u8 == 1 - g) by (bit_vector);
}

/// Drawing the same sprite twice at the same place gives back the display
/// as it was before the first draw. The second draw reports a collision
/// exactly if the first draw lit a cell that was dark.
pub proof fn lemma_draw_twice(gfx: Seq<u8>, memory: Seq<u8>, i: int, vx: int, vy: int, n: int)
    requires
        gfx.len() == 2048,
        forall|c: int| 0 <= c < 2048 ==> #[trigger] gfx[c] <= 1,
    ensures
        draw(draw(gfx, memory, i, vx, vy, n), memory, i, vx, vy, n) == gfx,
        collides(draw(gfx, memory, i, vx, vy, n), memory, i, vx, vy, n) <==> (exists|c: int|
            0 <= c < 2048 && gfx[c] == 0 && #[trigger] draw(gfx, memory, i, vx, vy, n)[c] == 1),
{
    let once = draw(gfx, memory, i, vx, vy, n);
    let twice = draw(once, memory, i, vx, vy, n);
    assert forall|c: int| 0 <= c < 2048 implies twice[c] == gfx[c] by {
        lemma_flip(gfx[c]);
    }
    assert(twice =~= gfx);
    if collides(once, memory, i, vx, vy, n) {
        let c = choose|c: int|
            0 <= c < 2048 && #[trigger] toggles(memory, i, vx, vy, n, c) && once[c] == 1;
        lemma_flip(gfx[c]);
        assert(gfx[c] == 0 && once[c] == 1);
    }
    if exists|c: int| 0 <= c < 2048 && gfx[c] == 0 && #[trigger] once[c] == 1 {
        let c = choose|c: int| 0 <= c < 2048 && gfx[c] == 0 && #[trigger] once[c] == 1;
        assert(toggles(memory, i, vx, vy, n, c));
    }
}

} // verus!
