//! The monochrome frame buffer and the sprite drawing algorithm.
//!
//! The screen is seen from outside as rows of pixels (`self@[y][x]`); how
//! the pixels are packed is private to this module.

use vstd::prelude::*;

verus! {

/// Number of pixel columns.
pub const DISPLAY_WIDTH: usize = 64;

/// Number of pixel rows.
pub const DISPLAY_HEIGHT: usize = 32;

/// Number of pixel columns in one sprite row (one byte).
pub const SPRITE_WIDTH: usize = 8;

/// Whether column `j` of a sprite row is lit. Column 0 is the most
/// significant bit of the byte; columns outside `[0, 8)` are never lit.
pub open spec fn sprite_row_bit(b: u8, j: int) -> bool {
    0 <= j < 8 && (b >> ((7 - j) as u8)) & 1u8 == 1u8
}

/// Whether the sprite whose rows are `sprite`, placed with its top-left
/// corner at `(x0, y0)`, lights pixel `(x, y)`.
pub open spec fn sprite_covers(sprite: Seq<u8>, x0: int, y0: int, x: int, y: int) -> bool {
    y0 <= y < y0 + sprite.len() && sprite_row_bit(sprite[y - y0], x - x0)
}

/// A screen with every pixel off.
pub open spec fn blank_screen() -> Seq<Seq<bool>> {
    Seq::new(DISPLAY_HEIGHT as nat, |y: int| Seq::new(DISPLAY_WIDTH as nat, |x: int| false))
}

/// The screen after XOR-ing a sprite at `(x0, y0)` into it. Parts of the
/// sprite past the right or bottom edge are clipped.
pub open spec fn drawn(screen: Seq<Seq<bool>>, sprite: Seq<u8>, x0: int, y0: int) -> Seq<Seq<bool>> {
    Seq::new(
        DISPLAY_HEIGHT as nat,
        |y: int|
            Seq::new(
                DISPLAY_WIDTH as nat,
                |x: int| screen[y][x] != sprite_covers(sprite, x0, y0, x, y),
            ),
    )
}

/// Whether the sprite at `(x0, y0)` lights a pixel that is already on.
pub open spec fn collides(screen: Seq<Seq<bool>>, sprite: Seq<u8>, x0: int, y0: int) -> bool {
    exists|x: int, y: int|
        0 <= x < DISPLAY_WIDTH && 0 <= y < DISPLAY_HEIGHT && #[trigger] screen[y][x]
            && #[trigger] sprite_covers(sprite, x0, y0, x, y)
}

/// Pixel `x` of a packed row: bit 63 is the leftmost column.
spec fn row_pixel(row: u64, x: int) -> bool {
    (row << (x as u64)) >> 63u64 == 1u64
}

/// A sprite row byte moved to start at column `x0` of a packed row.
spec fn sprite_mask(b: u8, x0: u64) -> u64 {
    ((b as u64) << 56u64) >> x0
}

proof fn lemma_mask_pixel(b: u8, x0: u64, x: u64)
    by (bit_vector)
    requires
        x0 < 64,
        x < 64,
    ensures
        row_pixel(sprite_mask(b, x0), x as int) == sprite_row_bit(b, x as int - x0 as int),
{
}

proof fn lemma_xor_pixel(row: u64, m: u64, x: u64)
    by (bit_vector)
    requires
        x < 64,
    ensures
        row_pixel(row ^ m, x as int) == (row_pixel(row, x as int) != row_pixel(m, x as int)),
{
}

proof fn lemma_and_pixel(row: u64, m: u64, x: u64)
    by (bit_vector)
    requires
        x < 64,
    ensures
        row_pixel(row & m, x as int) == (row_pixel(row, x as int) && row_pixel(m, x as int)),
{
}

proof fn lemma_zero_pixel(x: u64)
    by (bit_vector)
    requires
        x < 64,
    ensures
        !row_pixel(0u64, x as int),
{
}

proof fn lemma_set_pixel(row: u64, x: u64, z: u64)
    by (bit_vector)
    requires
        x < 64,
        z < 64,
    ensures
        row_pixel(row | (0x8000_0000_0000_0000u64 >> x), z as int) == (row_pixel(row, z as int)
            || z == x),
        row_pixel(row & !(0x8000_0000_0000_0000u64 >> x), z as int) == (row_pixel(row, z as int)
            && z != x),
{
}

proof fn lemma_shifted_nonzero(v: u64, k: u64)
    by (bit_vector)
    requires
        k < 64,
        v << k != 0,
        (v << k) >> 63u64 != 1u64,
    ensures
        k + 1 < 64,
        v << ((k + 1) as u64) != 0,
{
}

/// A nonzero packed row has a lit pixel at or after column `k`.
proof fn lemma_nonzero_has_pixel(v: u64, k: u64)
    requires
        k < 64,
        v << k != 0,
    ensures
        exists|x: int| k <= x < 64 && row_pixel(v, x),
    decreases 64 - k,
{
    if (v << k) >> 63u64 == 1u64 {
        assert(row_pixel(v, k as int));
    } else {
        lemma_shifted_nonzero(v, k);
        lemma_nonzero_has_pixel(v, (k + 1) as u64);
    }
}

/// A row of the screen and the sprite row drawn over it overlap exactly
/// when their packed forms share a bit.
proof fn lemma_row_overlap(row: u64, b: u8, x0: u64)
    requires
        x0 < 64,
    ensures
        (row & sprite_mask(b, x0)) != 0 <==> exists|x: int|
            0 <= x < 64 && row_pixel(row, x) && sprite_row_bit(b, x - x0),
{
    let v = row & sprite_mask(b, x0);
    if v != 0 {
        assert(v << 0u64 == v) by (bit_vector);
        lemma_nonzero_has_pixel(v, 0);
        let x = choose|x: int| 0 <= x < 64 && row_pixel(v, x);
        lemma_and_pixel(row, sprite_mask(b, x0), x as u64);
        lemma_mask_pixel(b, x0, x as u64);
    }
    if exists|x: int| 0 <= x < 64 && row_pixel(row, x) && sprite_row_bit(b, x - x0) {
        let x = choose|x: int| 0 <= x < 64 && row_pixel(row, x) && sprite_row_bit(b, x - x0);
        lemma_and_pixel(row, sprite_mask(b, x0), x as u64);
        lemma_mask_pixel(b, x0, x as u64);
        lemma_zero_pixel(x as u64);
    }
}

/// Drawing a sprite twice at the same place gives back the screen it
/// started from; the second draw reports a collision exactly when the
/// sprite lights a visible pixel that was off before the first draw.
pub proof fn lemma_redraw_restores(screen: Seq<Seq<bool>>, sprite: Seq<u8>, x0: int, y0: int)
    requires
        screen.len() == DISPLAY_HEIGHT,
        forall|y: int| 0 <= y < DISPLAY_HEIGHT ==> #[trigger] screen[y].len() == DISPLAY_WIDTH,
    ensures
        drawn(drawn(screen, sprite, x0, y0), sprite, x0, y0) == screen,
        collides(drawn(screen, sprite, x0, y0), sprite, x0, y0) <==> exists|x: int, y: int|
            0 <= x < DISPLAY_WIDTH && 0 <= y < DISPLAY_HEIGHT && !#[trigger] screen[y][x]
                && #[trigger] sprite_covers(sprite, x0, y0, x, y),
{
    let once = drawn(screen, sprite, x0, y0);
    assert(drawn(once, sprite, x0, y0) =~~= screen);
    if collides(once, sprite, x0, y0) {
        let (x, y) = choose|x: int, y: int|
            0 <= x < DISPLAY_WIDTH && 0 <= y < DISPLAY_HEIGHT && #[trigger] once[y][x]
                && #[trigger] sprite_covers(sprite, x0, y0, x, y);
        assert(!screen[y][x]);
    }
    if exists|x: int, y: int|
        0 <= x < DISPLAY_WIDTH && 0 <= y < DISPLAY_HEIGHT && !#[trigger] screen[y][x]
            && #[trigger] sprite_covers(sprite, x0, y0, x, y) {
        let (x, y) = choose|x: int, y: int|
            0 <= x < DISPLAY_WIDTH && 0 <= y < DISPLAY_HEIGHT && !#[trigger] screen[y][x]
                && #[trigger] sprite_covers(sprite, x0, y0, x, y);
        assert(once[y][x]);
    }
}

/// A 64 by 32 monochrome screen.
pub struct AhoyFrame {
    rows: [u64; DISPLAY_HEIGHT],
}

impl View for AhoyFrame {
    type V = Seq<Seq<bool>>;

    closed spec fn view(&self) -> Seq<Seq<bool>> {
        Seq::new(
            DISPLAY_HEIGHT as nat,
            |y: int| Seq::new(DISPLAY_WIDTH as nat, |x: int| row_pixel(self.rows[y], x)),
        )
    }
}

impl AhoyFrame {
    /// Every screen has 32 rows of 64 pixels.
    pub proof fn lemma_shape(&self)
        ensures
            self@.len() == DISPLAY_HEIGHT,
            forall|y: int| 0 <= y < DISPLAY_HEIGHT ==> #[trigger] self@[y].len() == DISPLAY_WIDTH,
    {
    }

    /// A screen with every pixel off.
    pub fn new() -> (r: Self)
        ensures
            r@ == blank_screen(),
    {
        let r = AhoyFrame { rows: [0u64; DISPLAY_HEIGHT] };
        assert forall|y: int, x: int| 0 <= y < DISPLAY_HEIGHT && 0 <= x < DISPLAY_WIDTH implies !r@[y][x] by {
            lemma_zero_pixel(x as u64);
        }
        assert(r@ =~~= blank_screen());
        r
    }

    /// Turns every pixel off.
    pub fn clear(&mut self)
        ensures
            final(self)@ == blank_screen(),
    {
        *self = AhoyFrame::new();
    }

    /// Whether pixel `(x, y)` is on.
    pub fn pixel(&self, x: usize, y: usize) -> (r: bool)
        requires
            x < DISPLAY_WIDTH,
            y < DISPLAY_HEIGHT,
        ensures
            r == self@[y as int][x as int],
    {
        (self.rows[y] << (x as u64)) >> 63 == 1
    }

    /// Turns pixel `(x, y)` on or off, leaving every other pixel as it was.
    pub fn set_pixel(&mut self, x: usize, y: usize, on: bool)
        requires
            x < DISPLAY_WIDTH,
            y < DISPLAY_HEIGHT,
        ensures
            final(self)@ == old(self)@.update(y as int, old(self)@[y as int].update(x as int, on)),
    {
        let bit: u64 = 0x8000_0000_0000_0000u64 >> (x as u64);
        let row = self.rows[y];
        if on {
            self.rows[y] = row | bit;
        } else {
            self.rows[y] = row & !bit;
        }
        assert forall|z: int| 0 <= z < DISPLAY_WIDTH implies row_pixel(self.rows[y as int], z)
            == (if z == x { on } else { row_pixel(row, z) }) by {
            lemma_set_pixel(row, x as u64, z as u64);
        }
        assert(self@ =~~= old(self)@.update(y as int, old(self)@[y as int].update(x as int, on)));
    }

    /// XORs a sprite into the screen with its top-left corner at `(x0, y0)`
    /// and reports whether it lit a pixel that was already on. Each byte of
    /// `sprite` is one row, most significant bit leftmost; rows and columns
    /// past the bottom or right edge are clipped, never wrapped.
    pub fn draw_sprite(&mut self, x0: usize, y0: usize, sprite: &[u8]) -> (collision: bool)
        requires
            x0 < DISPLAY_WIDTH,
            y0 < DISPLAY_HEIGHT,
        ensures
            final(self)@ == drawn(old(self)@, sprite@, x0 as int, y0 as int),
            collision == collides(old(self)@, sprite@, x0 as int, y0 as int),
    {
        let shift = x0 as u64;
        let height = sprite.len();
        let mut collision = false;
        let mut i: usize = 0;
        while i < height && y0 + i < DISPLAY_HEIGHT
            invariant
                x0 < DISPLAY_WIDTH,
                y0 < DISPLAY_HEIGHT,
                shift == x0,
                height == sprite@.len(),
                i <= height,
                y0 + i <= DISPLAY_HEIGHT,
                forall|y: int|
                    0 <= y < DISPLAY_HEIGHT ==> #[trigger] self.rows[y] == if y0 <= y < y0 + i {
                        old(self).rows[y] ^ sprite_mask(sprite@[y - y0], shift)
                    } else {
                        old(self).rows[y]
                    },
                collision == exists|k: int|
                    0 <= k < i && (old(self).rows[y0 + k] & sprite_mask(sprite@[k], shift)) != 0,
            decreases height - i,
        {
            let y = y0 + i;
            let mask = ((sprite[i] as u64) << 56) >> shift;
            let row = self.rows[y];
            if row & mask != 0 {
                collision = true;
            }
            self.rows[y] = row ^ mask;
            i = i + 1;
        }
        let ghost old_screen = old(self)@;
        let ghost target = drawn(old_screen, sprite@, x0 as int, y0 as int);
        assert forall|y: int, x: int| 0 <= y < DISPLAY_HEIGHT && 0 <= x < DISPLAY_WIDTH implies self@[y][x]
            == target[y][x] by {
            if y0 <= y < y0 + i {
                lemma_xor_pixel(old(self).rows[y], sprite_mask(sprite@[y - y0], shift), x as u64);
                lemma_mask_pixel(sprite@[y - y0], shift, x as u64);
            }
        }
        assert(self@ =~~= target);
        assert(collision == collides(old_screen, sprite@, x0 as int, y0 as int)) by {
            if collision {
                let k = choose|k: int|
                    0 <= k < i && (old(self).rows[y0 + k] & sprite_mask(sprite@[k], shift)) != 0;
                lemma_row_overlap(old(self).rows[y0 + k], sprite@[k], shift);
                let x = choose|x: int|
                    0 <= x < 64 && #[trigger] row_pixel(old(self).rows[y0 + k], x) && sprite_row_bit(
                        sprite@[k],
                        x - x0,
                    );
                assert(old_screen[y0 + k][x] && sprite_covers(sprite@, x0 as int, y0 as int, x, y0 + k));
            }
            if collides(old_screen, sprite@, x0 as int, y0 as int) {
                let (x, y) = choose|x: int, y: int|
                    0 <= x < DISPLAY_WIDTH && 0 <= y < DISPLAY_HEIGHT && #[trigger] old_screen[y][x]
                        && #[trigger] sprite_covers(sprite@, x0 as int, y0 as int, x, y);
                let k = y - y0;
                lemma_row_overlap(old(self).rows[y], sprite@[k], shift);
                assert(row_pixel(old(self).rows[y0 + k], x));
            }
        }
        collision
    }
}

} // verus!
