//! The 64x32 one-bit display: rows as 64-bit words, pixels as their bits,
//! and the placement of sprite rows.

use vstd::prelude::*;

verus! {

/// Number of pixel columns.
pub const WIDTH: usize = 64;

/// Number of pixel rows.
pub const HEIGHT: usize = 32;

/// Whether the pixel in column `col` of a row is lit. Column 0 is the
/// leftmost pixel and lives in bit 63; column 63 lives in bit 0.
pub open spec fn pixel_lit(row: u64, col: int) -> bool {
    0 <= col < 64 && (row >> ((63 - col) as u64)) & 1 == 1
}

/// Whether pixel `j` of a sprite row is set, counted from the left.
pub open spec fn sprite_bit(byte: u8, j: int) -> bool {
    0 <= j < 8 && (byte >> ((7 - j) as u8)) & 1 == 1
}

/// The row word that holds the eight pixels of `byte` with the leftmost in
/// column `x % 64`; pixels that pass column 63 come back in at column 0.
pub open spec fn sprite_mask(byte: u8, x: u8) -> u64 {
    let shift = (x % 64) as u64;
    let left = (byte as u64) << 56;
    if shift == 0 {
        left
    } else {
        (left >> shift) | (left << ((64 - shift) as u64))
    }
}

/// Whether writing `new` over `old` turns a lit pixel off.
pub open spec fn erases(old_row: u64, new_row: u64) -> bool {
    old_row & !new_row != 0
}

/// The display after the rows of `sprite` are drawn one after the other
/// from row `y` down, each XORed onto row `(y + i) % 32` at column `x`,
/// together with whether any of them turned a lit pixel off.
pub open spec fn draw_rows(frame: Seq<u64>, sprite: Seq<u8>, x: u8, y: u8) -> (Seq<u64>, bool)
    decreases sprite.len(),
{
    if sprite.len() == 0 {
        (frame, false)
    } else {
        let (before, collided) = draw_rows(frame, sprite.drop_last(), x, y);
        let r = (y + sprite.len() - 1) % 32;
        let new_row = before[r] ^ sprite_mask(sprite.last(), x);
        (before.update(r, new_row), collided || erases(before[r], new_row))
    }
}

/// Places a sprite row at column `x % 64` of an empty display row.
pub fn position_sprite(byte: u8, x: u8) -> (mask: u64)
    ensures
        mask == sprite_mask(byte, x),
{
    let shift: u8 = x % 64;
    let left: u64 = (byte as u64) << 56;
    if shift == 0 {
        left
    } else {
        (left >> shift) | (left << (64 - shift))
    }
}

/// Reads one pixel of a display row.
pub fn is_lit(row: u64, col: usize) -> (lit: bool)
    requires
        col < WIDTH,
    ensures
        lit == pixel_lit(row, col as int),
{
    (row >> (63 - col)) & 1 == 1
}

/// The lit pixels among the first `count` of the display in reading
/// order (left to right, then top to bottom), as `(column, row)`.
pub open spec fn lit_among(frame: Seq<u64>, count: int) -> Seq<(u8, u8)>
    decreases count,
{
    if count <= 0 {
        Seq::empty()
    } else {
        let rest = lit_among(frame, count - 1);
        let col = (count - 1) % 64;
        let row = (count - 1) / 64;
        if pixel_lit(frame[row], col) {
            rest.push((col as u8, row as u8))
        } else {
            rest
        }
    }
}

/// Lists the lit pixels of the display in reading order, as `(column, row)`.
pub fn lit_pixels(frame: &[u64; 32]) -> (pixels: Vec<(u8, u8)>)
    ensures
        pixels@ == lit_among(frame@, (WIDTH * HEIGHT) as int),
{
    let mut pixels: Vec<(u8, u8)> = Vec::new();
    let mut row: usize = 0;
    while row < HEIGHT
        invariant
            row <= HEIGHT,
            pixels@ == lit_among(frame@, 64 * row),
        decreases HEIGHT - row,
    {
        let mut col: usize = 0;
        while col < WIDTH
            invariant
                row < HEIGHT,
                col <= WIDTH,
                pixels@ == lit_among(frame@, 64 * row + col),
            decreases WIDTH - col,
        {
            assert((64 * row + col) % 64 == col && (64 * row + col) / 64 == row);
            if is_lit(frame[row], col) {
                pixels.push((col as u8, row as u8));
            }
            col += 1;
        }
        row += 1;
    }
    pixels
}

/// XORs one sprite row onto a display row; says whether a pixel went dark.
pub fn blend_row(old_row: u64, byte: u8, x: u8) -> (out: (u64, bool))
    ensures
        out.0 == old_row ^ sprite_mask(byte, x),
        out.1 == erases(old_row, out.0),
{
    let new_row: u64 = old_row ^ position_sprite(byte, x);
    (new_row, (old_row & !new_row) != 0)
}

/// A sprite row at column `x` covers the eight columns `x, x+1, .., x+7`
/// taken modulo 64, and lights exactly those whose sprite bit is set.
pub proof fn lemma_sprite_mask_columns(byte: u8, x: u8, col: int)
    requires
        0 <= col < 64,
    ensures
        pixel_lit(sprite_mask(byte, x), col) == sprite_bit(byte, (col - x) % 64),
{
    let c = col as u64;
    let s = (x % 64) as u64;
    let j = ((col - x) % 64) as u64;
    assert(j == (c + 64 - s) % 64);
    assert(sprite_mask(byte, x) == if s == 0 {
        (byte as u64) << 56
    } else {
        (((byte as u64) << 56) >> s) | (((byte as u64) << 56) << ((64 - s) as u64))
    });
    let m = sprite_mask(byte, x);
    assert(((m >> ((63 - c) as u64)) & 1 == 1) == (j < 8 && (byte >> ((7 - j) as u8)) & 1 == 1))
        by (bit_vector)
        requires
            c < 64,
            s < 64,
            j == (c + 64 - s) % 64,
            m == if s == 0 {
                (byte as u64) << 56
            } else {
                (((byte as u64) << 56) >> s) | (((byte as u64) << 56) << ((64 - s) as u64))
            },
    ;
}

/// Drawing flips exactly the pixels that the sprite row lights.
pub proof fn lemma_xor_flips(row: u64, mask: u64, col: int)
    requires
        0 <= col < 64,
    ensures
        pixel_lit(row ^ mask, col) == (pixel_lit(row, col) != pixel_lit(mask, col)),
{
    let c = col as u64;
    assert((((row ^ mask) >> ((63 - c) as u64)) & 1 == 1) == (((row >> ((63 - c) as u64)) & 1 == 1)
        != ((mask >> ((63 - c) as u64)) & 1 == 1))) by (bit_vector)
        requires
            c < 64,
    ;
}

/// A word that is not zero has a bit set among its lowest `n`, where
/// every bit from `n` up is known to be clear.
proof fn lemma_set_bit(v: u64, n: u64) -> (b: u64)
    requires
        v != 0,
        n <= 64,
        n < 64 ==> v >> n == 0,
    ensures
        b < 64,
        (v >> b) & 1 == 1,
    decreases n,
{
    if n == 0 {
        assert(v >> 0 == v) by (bit_vector);
        0
    } else {
        let top = (n - 1) as u64;
        if (v >> top) & 1 == 1 {
            top
        } else {
            assert(v >> top == 0) by (bit_vector)
                requires
                    (v >> top) & 1 != 1,
                    top < 64,
                    top < 63 ==> v >> ((top + 1) as u64) == 0,
            ;
            lemma_set_bit(v, top)
        }
    }
}

/// The collision test on two row words says exactly that some pixel was
/// lit before and is dark after.
pub proof fn lemma_erases_pixels(old_row: u64, new_row: u64)
    ensures
        erases(old_row, new_row) <==> exists|col: int|
            0 <= col < 64 && #[trigger] pixel_lit(old_row, col) && !pixel_lit(new_row, col),
{
    let gone = old_row & !new_row;
    if gone != 0 {
        let b = lemma_set_bit(gone, 64);
        assert((old_row >> b) & 1 == 1 && (new_row >> b) & 1 != 1) by (bit_vector)
            requires
                b < 64,
                ((old_row & !new_row) >> b) & 1 == 1,
        ;
        assert((63 - (63 - b)) as u64 == b);
        assert(pixel_lit(old_row, 63 - b) && !pixel_lit(new_row, 63 - b));
    }
    assert forall|col: int|
        0 <= col < 64 && #[trigger] pixel_lit(old_row, col) && !pixel_lit(new_row, col) implies gone
        != 0 by {
        let b = (63 - col) as u64;
        assert(old_row & !new_row != 0) by (bit_vector)
            requires
                b < 64,
                (old_row >> b) & 1 == 1,
                (new_row >> b) & 1 != 1,
        ;
    }
}

/// What drawing `sprite` at column `x`, row `y` XORs onto display row `r`
/// in all: the masks of the sprite rows that land on `r`.
pub open spec fn row_mask(sprite: Seq<u8>, x: u8, y: u8, r: int) -> u64
    decreases sprite.len(),
{
    if sprite.len() == 0 {
        0
    } else {
        let rest = row_mask(sprite.drop_last(), x, y, r);
        if (y + sprite.len() - 1) % 32 == r {
            rest ^ sprite_mask(sprite.last(), x)
        } else {
            rest
        }
    }
}

/// Drawing keeps the number of rows and changes each row by its mask.
pub proof fn lemma_draw_rows_by_row(frame: Seq<u64>, sprite: Seq<u8>, x: u8, y: u8)
    requires
        frame.len() == 32,
    ensures
        draw_rows(frame, sprite, x, y).0.len() == 32,
        forall|r: int|
            0 <= r < 32 ==> #[trigger] draw_rows(frame, sprite, x, y).0[r] == frame[r] ^ row_mask(
                sprite,
                x,
                y,
                r,
            ),
    decreases sprite.len(),
{
    if sprite.len() == 0 {
        assert forall|r: int| 0 <= r < 32 implies #[trigger] draw_rows(frame, sprite, x, y).0[r]
            == frame[r] ^ row_mask(sprite, x, y, r) by {
            let a = frame[r];
            assert(a == a ^ 0) by (bit_vector);
        }
    } else {
        lemma_draw_rows_by_row(frame, sprite.drop_last(), x, y);
        let before = draw_rows(frame, sprite.drop_last(), x, y).0;
        let target = (y + sprite.len() - 1) % 32;
        let mask = sprite_mask(sprite.last(), x);
        assert forall|r: int| 0 <= r < 32 implies #[trigger] draw_rows(frame, sprite, x, y).0[r]
            == frame[r] ^ row_mask(sprite, x, y, r) by {
            let a = frame[r];
            let rest = row_mask(sprite.drop_last(), x, y, r);
            assert(before[r] == a ^ rest);
            if r == target {
                assert((a ^ rest) ^ mask == a ^ (rest ^ mask)) by (bit_vector);
            }
        }
    }
}

/// Drawing the same sprite twice at the same place gives back the
/// display as it was before the first draw.
pub proof fn lemma_draw_twice_restores(frame: Seq<u64>, sprite: Seq<u8>, x: u8, y: u8)
    requires
        frame.len() == 32,
    ensures
        draw_rows(draw_rows(frame, sprite, x, y).0, sprite, x, y).0 == frame,
{
    let once = draw_rows(frame, sprite, x, y).0;
    let twice = draw_rows(once, sprite, x, y).0;
    lemma_draw_rows_by_row(frame, sprite, x, y);
    lemma_draw_rows_by_row(once, sprite, x, y);
    assert forall|r: int| 0 <= r < 32 implies twice[r] == frame[r] by {
        let a = frame[r];
        let m = row_mask(sprite, x, y, r);
        assert(once[r] == a ^ m);
        assert(twice[r] == (a ^ m) ^ m);
        assert((a ^ m) ^ m == a) by (bit_vector);
    }
    assert(twice =~= frame);
}

/// Drawing a sprite row a second time at the same place restores the
/// display row, so every pixel that the first draw lit is dark again, and
/// reports a collision exactly if the first draw lit a pixel.
pub proof fn lemma_redraw_row(row: u64, byte: u8, x: u8)
    ensures
        ({
            let mask = sprite_mask(byte, x);
            let first = row ^ mask;
            let second = first ^ mask;
            &&& second == row
            &&& erases(first, second) <==> exists|col: int|
                0 <= col < 64 && #[trigger] pixel_lit(mask, col) && !pixel_lit(row, col)
        }),
{
    let mask = sprite_mask(byte, x);
    let first = row ^ mask;
    assert((row ^ mask) ^ mask == row) by (bit_vector);
    lemma_erases_pixels(first, row);
    assert forall|col: int| 0 <= col < 64 implies ((pixel_lit(first, col) && !pixel_lit(row, col))
        <==> (#[trigger] pixel_lit(mask, col) && !pixel_lit(row, col))) by {
        lemma_xor_flips(row, mask, col);
    }
    if erases(first, row) {
        let col = choose|col: int|
            0 <= col < 64 && #[trigger] pixel_lit(first, col) && !pixel_lit(row, col);
        assert(pixel_lit(mask, col) && !pixel_lit(row, col));
    }
    if exists|col: int| 0 <= col < 64 && #[trigger] pixel_lit(mask, col) && !pixel_lit(row, col) {
        let col = choose|col: int|
            0 <= col < 64 && #[trigger] pixel_lit(mask, col) && !pixel_lit(row, col);
        assert(pixel_lit(first, col) && !pixel_lit(row, col));
    }
}

/// The list of lit pixels holds a pixel exactly if it is lit and lies
/// among those looked at.
pub proof fn lemma_lit_among_is_exact(frame: Seq<u64>, count: int, col: u8, row: u8)
    requires
        0 <= count <= 64 * 32,
    ensures
        lit_among(frame, count).contains((col, row)) <==> col < 64 && 64 * row + col < count
            && pixel_lit(frame[row as int], col as int),
    decreases count,
{
    if count > 0 {
        let rest = lit_among(frame, count - 1);
        let c = (count - 1) % 64;
        let r = (count - 1) / 64;
        lemma_lit_among_is_exact(frame, count - 1, col, row);
        if pixel_lit(frame[r], c) {
            let all = rest.push((c as u8, r as u8));
            assert(all.last() == (c as u8, r as u8));
            assert(all.drop_last() =~= rest);
            if all.contains((col, row)) {
                let k = choose|k: int| 0 <= k < all.len() && all[k] == (col, row);
                if k < rest.len() {
                    assert(rest[k] == (col, row));
                }
            }
            if rest.contains((col, row)) {
                let k = choose|k: int| 0 <= k < rest.len() && rest[k] == (col, row);
                assert(all[k] == (col, row));
            }
            if col == c && row == r {
                assert(all[all.len() - 1] == (col, row));
            }
        }
    } else {
        assert(!lit_among(frame, count).contains((col, row)));
    }
}

} // verus!
