//! The monochrome framebuffer: 64 x 32 pixels, one bit each, row by row,
//! kept in a `bitvec` bit array.

use bitvec::array::BitArray;
use bitvec::order::Msb0;
use vstd::prelude::*;

verus! {

/// Width of the framebuffer in pixels.
pub const DISP_WIDTH: u16 = 64;

/// Height of the framebuffer in pixels.
pub const DISP_HEIGHT: u16 = 32;

/// The framebuffer. Its storage is a fixed `bitvec::array::BitArray` of 2048
/// bits over bytes, most significant bit first, which the verifier does not
/// look into: what is known of it is what the four functions `zeroed`,
/// `bit_at`, `put_bit` and `raw_bytes` state.
#[verifier::external_body]
pub struct FrameBuffer {
    bits: BitArray<[u8; 256], Msb0>,
}

/// The pixels that a framebuffer holds, row by row from the top left, `true`
/// for a lit pixel: bit `i` of the bit array is entry `i`.
pub uninterp spec fn framebuffer_bits(fb: FrameBuffer) -> Seq<bool>;

impl View for FrameBuffer {
    type V = Seq<bool>;

    open spec fn view(&self) -> Seq<bool> {
        framebuffer_bits(*self)
    }
}

/// Calls `BitArray::ZERO`. Trusted: the array it gives has 2048 bits, all of
/// them clear.
#[verifier::external_body]
fn zeroed() -> (fb: FrameBuffer)
    ensures
        framebuffer_bits(fb) == blank_screen(),
{
    FrameBuffer { bits: BitArray::ZERO }
}

/// Indexes the `BitArray` with a `usize`, which goes to `BitSlice`'s
/// `Index<usize>` and panics at an index past the end. Trusted: it returns
/// the bit at `index`.
#[verifier::external_body]
fn bit_at(fb: &FrameBuffer, index: usize) -> (lit: bool)
    requires
        index < 2048,
    ensures
        lit == framebuffer_bits(*fb)[index as int],
{
    fb.bits[index]
}

/// Calls `BitSlice::set`, which panics at an index past the end. Trusted: it
/// writes `value` to the bit at `index` and leaves every other bit as it was.
#[verifier::external_body]
fn put_bit(fb: &mut FrameBuffer, index: usize, value: bool)
    requires
        index < 2048,
    ensures
        framebuffer_bits(*final(fb)) == framebuffer_bits(*old(fb)).update(index as int, value),
{
    fb.bits.set(index, value);
}

/// Calls `BitArray::as_raw_slice` and copies the bytes out. Trusted: the
/// array has 256 bytes, and with the order `Msb0` bit `i` of the array is
/// bit `7 - i % 8`, counted from the least significant, of byte `i / 8`.
#[verifier::external_body]
fn raw_bytes(fb: &FrameBuffer) -> (bytes: Vec<u8>)
    ensures
        bytes@.len() == 256,
        forall|i: int|
            0 <= i < 2048 ==> #[trigger] packed_bit(bytes@, i) == framebuffer_bits(*fb)[i],
{
    fb.bits.as_raw_slice().to_vec()
}

/// The framebuffer with every pixel unlit.
pub open spec fn blank_screen() -> Seq<bool> {
    Seq::new(2048, |p: int| false)
}

/// Where the pixel in column `x` of row `y` stands in the framebuffer; both
/// coordinates wrap around at the edges.
pub open spec fn pixel_index(x: int, y: int) -> int {
    (y % 32) * 64 + x % 64
}

/// Pixel `i` as the packed bytes hold it: eight pixels to a byte, the
/// leftmost in the most significant bit.
pub open spec fn packed_bit(bytes: Seq<u8>, i: int) -> bool {
    (bytes[i / 8] as int / pow2_small(7 - i % 8)) % 2 == 1
}

/// Two to the power `k`, for the eight bit positions of a byte.
pub open spec fn pow2_small(k: int) -> int {
    if k <= 0 {
        1
    } else if k == 1 {
        2
    } else if k == 2 {
        4
    } else if k == 3 {
        8
    } else if k == 4 {
        16
    } else if k == 5 {
        32
    } else if k == 6 {
        64
    } else {
        128
    }
}

/// Bit `k` of a sprite row, counted from the most significant: the bit for
/// the `k`-th pixel from the left.
pub open spec fn sprite_bit(byte: u8, k: int) -> bool {
    (byte as int / pow2_small(7 - k)) % 2 == 1
}

/// How many columns pixel `p` lies to the right of column `x`, going round
/// the right edge.
#[verifier::opaque]
pub open spec fn col_offset(x: u8, p: int) -> int {
    (p % 64 + 64 - x as int % 64) % 64
}

/// How many rows pixel `p` lies below row `y`, going round the bottom edge.
#[verifier::opaque]
pub open spec fn row_offset(y: u8, p: int) -> int {
    (p / 64 + 32 - y as int % 32) % 32
}

/// Whether the sprite row `byte`, drawn with its leftmost pixel in column `x`
/// of row `y`, has a set bit on pixel `p`.
pub open spec fn row_lit(x: u8, y: u8, byte: u8, p: int) -> bool {
    p / 64 == y as int % 32 && col_offset(x, p) < 8 && sprite_bit(byte, col_offset(x, p))
}

/// Whether the sprite `sprite`, one byte to a row and drawn with its top left
/// pixel at column `x` of row `y`, has a set bit on pixel `p`.
pub open spec fn sprite_lit(x: u8, y: u8, sprite: Seq<u8>, p: int) -> bool {
    row_offset(y, p) < sprite.len() && col_offset(x, p) < 8 && sprite_bit(
        sprite[row_offset(y, p)],
        col_offset(x, p),
    )
}

/// A pixel that one sprite row turns off, among the first `done` pixels of
/// the row.
spec fn row_hit(before: Seq<bool>, x: u8, y: u8, byte: u8, done: int, p: int) -> bool {
    0 <= p < 2048 && before[p] && row_lit(x, y, byte, p) && col_offset(x, p) < done
}

/// A pixel that the sprite turns off, among the first `done` rows of the
/// sprite.
spec fn sprite_hit(before: Seq<bool>, x: u8, y: u8, sprite: Seq<u8>, done: int, p: int) -> bool {
    0 <= p < 2048 && before[p] && sprite_lit(x, y, sprite, p) && row_offset(y, p) < done
}

/// Whether drawing one sprite row onto `before` turns a lit pixel off.
pub open spec fn row_collides(before: Seq<bool>, x: u8, y: u8, byte: u8) -> bool {
    exists|p: int| 0 <= p < 2048 && before[p] && #[trigger] row_lit(x, y, byte, p)
}

/// The framebuffer after the sprite has been drawn onto `before`: each pixel
/// under a set bit of the sprite is flipped, every other pixel stays.
pub open spec fn drawn(before: Seq<bool>, x: u8, y: u8, sprite: Seq<u8>) -> Seq<bool> {
    Seq::new(2048, |p: int| before[p] != sprite_lit(x, y, sprite, p))
}

/// Whether drawing the sprite onto `before` turns a lit pixel off.
pub open spec fn collides(before: Seq<bool>, x: u8, y: u8, sprite: Seq<u8>) -> bool {
    exists|p: int| 0 <= p < 2048 && before[p] && #[trigger] sprite_lit(x, y, sprite, p)
}

/// Column and row offsets lie inside the framebuffer's width and height.
pub proof fn lemma_offsets_in_range(x: u8, y: u8)
    ensures
        forall|p: int| 0 <= #[trigger] col_offset(x, p) < 64,
        forall|p: int| 0 <= p < 2048 ==> 0 <= #[trigger] row_offset(y, p) < 32,
{
    reveal(col_offset);
    reveal(row_offset);
}

/// The pixel that lies `j` columns to the right of column `x` in row `row`
/// is the only pixel of that row with column offset `j`.
pub proof fn lemma_col_offset(x: u8, row: int, j: int)
    requires
        0 <= row < 32,
        0 <= j < 64,
    ensures
        0 <= pixel_index(x + j, row) < 2048,
        pixel_index(x + j, row) == row * 64 + (x + j) % 64,
        pixel_index(x + j, row) / 64 == row,
        col_offset(x, pixel_index(x + j, row)) == j,
        forall|p: int|
            0 <= p < 2048 && p / 64 == row && #[trigger] col_offset(x, p) == j
                ==> p == pixel_index(x + j, row),
{
    reveal(col_offset);
}

/// The pixels that lie `i` rows below row `y` are those of row `y + i`,
/// taken round the bottom edge.
pub proof fn lemma_row_offset(y: u8, i: int)
    requires
        0 <= i < 32,
    ensures
        forall|p: int|
            0 <= p < 2048 ==> (p / 64 == (y + i) % 32 <==> #[trigger] row_offset(y, p) == i),
{
    reveal(row_offset);
}

impl FrameBuffer {
    /// The framebuffer holds its 2048 pixels, as every framebuffer does that
    /// `new` has made.
    pub open spec fn wf(&self) -> bool {
        self@.len() == 2048
    }

    /// A framebuffer with every pixel unlit.
    pub fn new() -> (fb: Self)
        ensures
            fb.wf(),
            fb@ == blank_screen(),
    {
        zeroed()
    }

    /// Turns every pixel off.
    pub fn clear(&mut self)
        ensures
            final(self).wf(),
            final(self)@ == blank_screen(),
    {
        *self = zeroed();
    }

    /// Reads the pixel in column `x` of row `y`; both wrap around.
    pub fn pixel(&self, x: usize, y: usize) -> (lit: bool)
        requires
            self.wf(),
        ensures
            lit == self@[pixel_index(x as int, y as int)],
    {
        bit_at(self, (y % 32) * 64 + x % 64)
    }

    /// Writes the pixel in column `x` of row `y`; both wrap around. No other
    /// pixel changes.
    pub fn set_pixel(&mut self, x: usize, y: usize, lit: bool)
        requires
            old(self).wf(),
        ensures
            final(self).wf(),
            final(self)@ == old(self)@.update(pixel_index(x as int, y as int), lit),
    {
        put_bit(self, (y % 32) * 64 + x % 64, lit);
    }

    /// The framebuffer as packed bytes, for a renderer to copy out: 256
    /// bytes, eight pixels each, the leftmost pixel in the top bit.
    pub fn to_bytes(&self) -> (bytes: Vec<u8>)
        requires
            self.wf(),
        ensures
            bytes@.len() == 256,
            forall|i: int| 0 <= i < 2048 ==> #[trigger] packed_bit(bytes@, i) == self@[i],
    {
        raw_bytes(self)
    }

    /// Draws one sprite row: the eight bits of `byte`, most significant
    /// first, are XORed onto row `y` from column `x` on, wrapping round the
    /// edges. Returns whether a lit pixel was turned off.
    pub fn xor_byte(&mut self, x: u8, y: u8, byte: u8) -> (collision: bool)
        requires
            old(self).wf(),
        ensures
            final(self).wf(),
            forall|p: int|
                0 <= p < 2048 ==> #[trigger] final(self)@[p] == (old(self)@[p] != row_lit(
                    x,
                    y,
                    byte,
                    p,
                )),
            collision == row_collides(old(self)@, x, y, byte),
    {
        let row: usize = (y % 32) as usize;
        let mut collision = false;
        let mut j: u8 = 0;
        proof {
            lemma_offsets_in_range(x, y);
        }
        while j < 8
            invariant
                j <= 8,
                row == y as int % 32,
                self.wf(),
                forall|p: int|
                    0 <= p < 2048 ==> #[trigger] self@[p] == (old(self)@[p] != (row_lit(
                        x,
                        y,
                        byte,
                        p,
                    ) && col_offset(x, p) < j)),
                collision == exists|p: int|
                    #[trigger] row_hit(old(self)@, x, y, byte, j as int, p),
            decreases 8 - j,
        {
            let index: usize = row * 64 + (x as usize + j as usize) % 64;
            let bit: bool = sprite_bit_of(byte, j);
            let was: bool = bit_at(self, index);
            let ghost prev_collision = collision;
            proof {
                lemma_offsets_in_range(x, y);
                lemma_col_offset(x, row as int, j as int);
            }
            if bit {
                put_bit(self, index, !was);
                if was {
                    collision = true;
                }
            }
            proof {
                assert(was == old(self)@[index as int]);
                if bit && was {
                    assert(row_hit(old(self)@, x, y, byte, j + 1, index as int));
                } else if prev_collision {
                    let w = choose|p: int| #[trigger] row_hit(old(self)@, x, y, byte, j as int, p);
                    assert(row_hit(old(self)@, x, y, byte, j + 1, w));
                } else {
                    assert forall|p: int| !#[trigger] row_hit(
                        old(self)@,
                        x,
                        y,
                        byte,
                        j + 1,
                        p,
                    ) by {
                        if row_hit(old(self)@, x, y, byte, j + 1, p) {
                            assert(!row_hit(old(self)@, x, y, byte, j as int, p));
                            assert(col_offset(x, p) == j);
                            assert(p == index);
                        }
                    }
                }
            }
            j = j + 1;
        }
        proof {
            if collision {
                let w = choose|p: int| #[trigger] row_hit(old(self)@, x, y, byte, 8, p);
                assert(row_lit(x, y, byte, w));
            }
            if row_collides(old(self)@, x, y, byte) {
                let w = choose|p: int|
                    0 <= p < 2048 && old(self)@[p] && #[trigger] row_lit(x, y, byte, p);
                assert(row_hit(old(self)@, x, y, byte, 8, w));
            }
        }
        collision
    }

    /// Draws a sprite, one byte to a row, with its top left pixel at column
    /// `x` of row `y`: every pixel under a set bit is flipped, rows and
    /// columns wrapping round the edges. Returns whether a lit pixel was
    /// turned off. A sprite has at most 32 rows, so that no row of the
    /// framebuffer is drawn on twice.
    pub fn draw_sprite(&mut self, x: u8, y: u8, sprite: &[u8]) -> (collision: bool)
        requires
            old(self).wf(),
            sprite@.len() <= 32,
        ensures
            final(self).wf(),
            final(self)@ == drawn(old(self)@, x, y, sprite@),
            collision == collides(old(self)@, x, y, sprite@),
    {
        let mut collision = false;
        let mut i: usize = 0;
        proof {
            lemma_offsets_in_range(x, y);
        }
        while i < sprite.len()
            invariant
                i <= sprite@.len() <= 32,
                self.wf(),
                forall|p: int|
                    0 <= p < 2048 ==> #[trigger] self@[p] == (old(self)@[p] != (sprite_lit(
                        x,
                        y,
                        sprite@,
                        p,
                    ) && row_offset(y, p) < i)),
                collision == exists|p: int|
                    #[trigger] sprite_hit(old(self)@, x, y, sprite@, i as int, p),
            decreases sprite@.len() - i,
        {
            let line: u8 = ((y as usize + i) % 32) as u8;
            let byte: u8 = sprite[i];
            let ghost prev = self@;
            let ghost prev_collision = collision;
            let hit = self.xor_byte(x, line, byte);
            proof {
                lemma_offsets_in_range(x, y);
                lemma_row_offset(y, i as int);
                if hit {
                    let w = choose|p: int|
                        0 <= p < 2048 && prev[p] && #[trigger] row_lit(x, line, byte, p);
                    assert(sprite_hit(old(self)@, x, y, sprite@, i + 1, w));
                } else if prev_collision {
                    let w = choose|p: int|
                        #[trigger] sprite_hit(old(self)@, x, y, sprite@, i as int, p);
                    assert(sprite_hit(old(self)@, x, y, sprite@, i + 1, w));
                } else {
                    assert forall|p: int| !#[trigger] sprite_hit(
                        old(self)@,
                        x,
                        y,
                        sprite@,
                        i + 1,
                        p,
                    ) by {
                        if sprite_hit(old(self)@, x, y, sprite@, i + 1, p) {
                            assert(!sprite_hit(old(self)@, x, y, sprite@, i as int, p));
                            assert(prev[p] && row_lit(x, line, byte, p));
                        }
                    }
                }
            }
            if hit {
                collision = true;
            }
            i = i + 1;
        }
        proof {
            assert(self@ =~= drawn(old(self)@, x, y, sprite@));
            if collision {
                let w = choose|p: int|
                    #[trigger] sprite_hit(old(self)@, x, y, sprite@, sprite@.len() as int, p);
                assert(sprite_lit(x, y, sprite@, w));
            }
            if collides(old(self)@, x, y, sprite@) {
                let w = choose|p: int|
                    0 <= p < 2048 && old(self)@[p] && #[trigger] sprite_lit(x, y, sprite@, p);
                assert(sprite_hit(old(self)@, x, y, sprite@, sprite@.len() as int, w));
            }
        }
        collision
    }
}

/// Reads bit `k` of a sprite row, counted from the most significant.
pub fn sprite_bit_of(byte: u8, k: u8) -> (bit: bool)
    requires
        k < 8,
    ensures
        bit == sprite_bit(byte, k as int),
{
    let shift: u8 = 7 - k;
    assert((byte >> shift) & 1 == 1 <==> (byte as int / pow2_small(shift as int)) % 2 == 1) by {
        assert(shift == 0 ==> ((byte >> shift) & 1 == 1 <==> (byte / 1) % 2 == 1)) by (bit_vector);
        assert(shift == 1 ==> ((byte >> shift) & 1 == 1 <==> (byte / 2) % 2 == 1)) by (bit_vector);
        assert(shift == 2 ==> ((byte >> shift) & 1 == 1 <==> (byte / 4) % 2 == 1)) by (bit_vector);
        assert(shift == 3 ==> ((byte >> shift) & 1 == 1 <==> (byte / 8) % 2 == 1)) by (bit_vector);
        assert(shift == 4 ==> ((byte >> shift) & 1 == 1 <==> (byte / 16) % 2 == 1)) by (bit_vector);
        assert(shift == 5 ==> ((byte >> shift) & 1 == 1 <==> (byte / 32) % 2 == 1)) by (bit_vector);
        assert(shift == 6 ==> ((byte >> shift) & 1 == 1 <==> (byte / 64) % 2 == 1)) by (bit_vector);
        assert(shift == 7 ==> ((byte >> shift) & 1 == 1 <==> (byte / 128) % 2 == 1)) by (bit_vector);
    }
    (byte >> shift) & 1 == 1
}

} // verus!
