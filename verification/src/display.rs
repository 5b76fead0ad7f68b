use vstd::prelude::*;
use vstd::arithmetic::power2::pow2;

use crate::error::Chip8Error;

verus! {

/// Display width in pixels.
pub const DISPLAY_WIDTH: usize = 64;

/// Display height in pixels.
pub const DISPLAY_HEIGHT: usize = 32;

/// Whether bit `b` of `byte`, counted from the most significant bit, is set.
pub open spec fn pixel_bit(byte: u8, b: int) -> bool {
    0 <= b < 8 && ((byte as nat) / pow2((7 - b) as nat)) % 2 == 1
}

/// Whether sprite row `i`, bit `b` (from the left) is set.
pub open spec fn sprite_bit(sprite: Seq<u8>, i: int, b: int) -> bool {
    0 <= i < sprite.len() && pixel_bit(sprite[i], b)
}

/// The sprite row that lands on display row `r` when drawing from row `y0`.
pub open spec fn source_row(y0: int, r: int, wrap: bool) -> int {
    if wrap {
        (r - y0) % (DISPLAY_HEIGHT as int)
    } else {
        r - y0
    }
}

/// The sprite bit that lands on display column `c` when drawing from column `x0`.
pub open spec fn source_col(x0: int, c: int, wrap: bool) -> int {
    if wrap {
        (c - x0) % (DISPLAY_WIDTH as int)
    } else {
        c - x0
    }
}

/// Whether drawing `sprite` at (`x0`, `y0`) flips the pixel at row `r`, column `c`.
/// Without wrapping the parts of the sprite beyond the right and bottom
/// edges are clipped; with wrapping they reappear on the opposite edge.
pub open spec fn sprite_covers(x0: int, y0: int, sprite: Seq<u8>, wrap: bool, r: int, c: int) -> bool {
    sprite_bit(sprite, source_row(y0, r, wrap), source_col(x0, c, wrap))
}

/// Whether (`r`, `c`) is a coordinate of the framebuffer.
pub open spec fn on_screen(r: int, c: int) -> bool {
    0 <= r < DISPLAY_HEIGHT && 0 <= c < DISPLAY_WIDTH
}

/// A framebuffer of the right shape: `DISPLAY_HEIGHT` rows of `DISPLAY_WIDTH` pixels.
pub open spec fn well_shaped(pixels: Seq<Seq<bool>>) -> bool {
    &&& pixels.len() == DISPLAY_HEIGHT
    &&& forall|r: int| 0 <= r < DISPLAY_HEIGHT ==> #[trigger] pixels[r].len() == DISPLAY_WIDTH
}

/// The framebuffer with every pixel off.
pub open spec fn blank_pixels() -> Seq<Seq<bool>> {
    Seq::new(DISPLAY_HEIGHT as nat, |r: int| Seq::new(DISPLAY_WIDTH as nat, |c: int| false))
}

/// The framebuffer after XOR-drawing `sprite` at (`x0`, `y0`).
pub open spec fn drawn_pixels(
    pixels: Seq<Seq<bool>>,
    x0: int,
    y0: int,
    sprite: Seq<u8>,
    wrap: bool,
) -> Seq<Seq<bool>> {
    Seq::new(
        DISPLAY_HEIGHT as nat,
        |r: int|
            Seq::new(
                DISPLAY_WIDTH as nat,
                |c: int| pixels[r][c] != sprite_covers(x0, y0, sprite, wrap, r, c),
            ),
    )
}

/// Whether drawing `sprite` at (`x0`, `y0`) turns off a pixel that was on.
pub open spec fn sprite_collides(
    pixels: Seq<Seq<bool>>,
    x0: int,
    y0: int,
    sprite: Seq<u8>,
    wrap: bool,
) -> bool {
    exists|r: int, c: int|
        on_screen(r, c) && #[trigger] pixels[r][c] && sprite_covers(x0, y0, sprite, wrap, r, c)
}

/// Whether the pixel at (`r`, `c`) has been drawn once the sprite rows before
/// `i`, and the first `b` bits of row `i`, have been drawn.
pub open spec fn drawn_before(x0: int, y0: int, wrap: bool, r: int, c: int, i: int, b: int) -> bool {
    let sr = source_row(y0, r, wrap);
    sr < i || (sr == i && source_col(x0, c, wrap) < b)
}

/// The pixel at (`r`, `c`) partway through a draw.
pub open spec fn partly_drawn(
    pixels: Seq<Seq<bool>>,
    x0: int,
    y0: int,
    sprite: Seq<u8>,
    wrap: bool,
    i: int,
    b: int,
    r: int,
    c: int,
) -> bool {
    pixels[r][c] != (sprite_covers(x0, y0, sprite, wrap, r, c) && drawn_before(
        x0,
        y0,
        wrap,
        r,
        c,
        i,
        b,
    ))
}

/// Whether a collision has been seen partway through a draw.
pub open spec fn partly_collides(
    pixels: Seq<Seq<bool>>,
    x0: int,
    y0: int,
    sprite: Seq<u8>,
    wrap: bool,
    i: int,
    b: int,
) -> bool {
    exists|r: int, c: int|
        on_screen(r, c) && #[trigger] pixels[r][c] && sprite_covers(x0, y0, sprite, wrap, r, c)
            && drawn_before(x0, y0, wrap, r, c, i, b)
}

proof fn lemma_wrap_position(start: int, k: int, p: int, m: int)
    requires
        0 < m,
        0 <= start < m,
        0 <= k < m,
        0 <= p < m,
    ensures
        ((p - start) % m == k) <==> (p == (start + k) % m),
{
    if start + k < m {
        assert((start + k) % m == start + k) by (nonlinear_arith)
            requires 0 <= start + k < m;
    } else {
        assert((start + k) % m == start + k - m) by (nonlinear_arith)
            requires m <= start + k < 2 * m;
    }
    if p >= start {
        assert((p - start) % m == p - start) by (nonlinear_arith)
            requires 0 <= p - start < m;
    } else {
        assert((p - start) % m == p - start + m) by (nonlinear_arith)
            requires -m < p - start < 0;
    }
}

proof fn lemma_pixel_bit(byte: u8, b: u8)
    requires
        b < 8,
    ensures
        ((byte >> (7 - b) as u8) & 1u8 == 1u8) == pixel_bit(byte, b as int),
{
    let s: u8 = (7 - b) as u8;
    vstd::bits::lemma_u8_shr_is_div(byte, s);
    let shifted: u8 = byte >> s;
    assert(shifted & 1u8 == shifted % 2) by (bit_vector);
}

/// A 64 x 32 monochrome CHIP-8 display buffer.
pub struct Display {
    content: [[bool; 64]; 32],
    dirty: bool,
}

impl Display {
    /// Display width in pixels.
    pub const WIDTH: usize = 64;

    /// Display height in pixels.
    pub const HEIGHT: usize = 32;

    /// The pixels, row by row.
    pub closed spec fn view(&self) -> Seq<Seq<bool>> {
        self.content@.map_values(|row: [bool; 64]| row@)
    }

    /// Whether the framebuffer was written since the dirty flag was last taken.
    pub closed spec fn is_dirty(&self) -> bool {
        self.dirty
    }

    /// Every display has `HEIGHT` rows of `WIDTH` pixels.
    pub proof fn lemma_shape(&self)
        ensures
            well_shaped(self@),
    {
    }

    pub fn new() -> (d: Self)
        ensures
            d@ == blank_pixels(),
            !d.is_dirty(),
    {
        let d = Display { content: [[false; 64]; 32], dirty: false };
        assert(d@ =~~= blank_pixels());
        d
    }

    /// Return the current framebuffer.
    pub fn get_content(&self) -> (content: &[[bool; 64]; 32])
        ensures
            forall|r: int, c: int|
                on_screen(r, c) ==> #[trigger] content@[r]@[c] == self@[r][c],
    {
        &self.content
    }

    /// Set one pixel without applying sprite XOR behavior.
    pub fn set_pixel(&mut self, row: usize, col: usize, value: bool) -> (res: Result<(), Chip8Error>)
        ensures
            on_screen(row as int, col as int) ==> {
                &&& res == Ok::<(), Chip8Error>(())
                &&& final(self)@ == old(self)@.update(
                    row as int,
                    old(self)@[row as int].update(col as int, value),
                )
                &&& final(self).is_dirty()
            },
            !on_screen(row as int, col as int) ==> {
                &&& res == Err::<(), Chip8Error>(Chip8Error::DisplayOutOfBounds { row, col })
                &&& *final(self) == *old(self)
            },
    {
        if self.out_of_bounds(row, col) {
            Err(Chip8Error::DisplayOutOfBounds { row, col })
        } else {
            let ghost before = self@;
            self.content[row][col] = value;
            self.dirty = true;
            assert(self@ =~~= before.update(row as int, before[row as int].update(col as int, value)));
            Ok(())
        }
    }

    /// Clear every pixel in the framebuffer.
    pub fn clear(&mut self)
        ensures
            final(self)@ == blank_pixels(),
            final(self).is_dirty(),
    {
        self.content = [[false; 64]; 32];
        self.dirty = true;
        assert(self@ =~~= blank_pixels());
    }

    /// Return the dirty flag and reset it.
    pub fn take_dirty(&mut self) -> (was_dirty: bool)
        ensures
            was_dirty == old(self).is_dirty(),
            final(self)@ == old(self)@,
            !final(self).is_dirty(),
    {
        let was_dirty = self.dirty;
        self.dirty = false;
        was_dirty
    }

    /// Draw a sprite using XOR semantics and return whether a collision occurred.
    /// Parts of the sprite beyond the right or bottom edge are clipped.
    pub fn draw_sprite(&mut self, x_start: usize, y_start: usize, sprite: &[u8]) -> (res: Result<
        bool,
        Chip8Error,
    >)
        ensures
            on_screen(y_start as int, x_start as int) ==> {
                &&& res == Ok::<bool, Chip8Error>(
                    sprite_collides(old(self)@, x_start as int, y_start as int, sprite@, false),
                )
                &&& final(self)@ == drawn_pixels(
                    old(self)@,
                    x_start as int,
                    y_start as int,
                    sprite@,
                    false,
                )
                &&& final(self).is_dirty()
            },
            !on_screen(y_start as int, x_start as int) ==> {
                &&& res == Err::<bool, Chip8Error>(
                    Chip8Error::DisplayOutOfBounds { row: y_start, col: x_start },
                )
                &&& *final(self) == *old(self)
            },
    {
        self.draw_sprite_with_wrap(x_start, y_start, sprite, false)
    }

    /// Draw a sprite using XOR semantics and return whether a collision
    /// occurred; with `wrap`, parts of the sprite beyond an edge reappear on
    /// the opposite edge, otherwise they are clipped.
    pub fn draw_sprite_with_wrap(
        &mut self,
        x_start: usize,
        y_start: usize,
        sprite: &[u8],
        wrap: bool,
    ) -> (res: Result<bool, Chip8Error>)
        requires
            wrap ==> sprite@.len() <= DISPLAY_HEIGHT,
        ensures
            on_screen(y_start as int, x_start as int) ==> {
                &&& res == Ok::<bool, Chip8Error>(
                    sprite_collides(old(self)@, x_start as int, y_start as int, sprite@, wrap),
                )
                &&& final(self)@ == drawn_pixels(
                    old(self)@,
                    x_start as int,
                    y_start as int,
                    sprite@,
                    wrap,
                )
                &&& final(self).is_dirty()
            },
            !on_screen(y_start as int, x_start as int) ==> {
                &&& res == Err::<bool, Chip8Error>(
                    Chip8Error::DisplayOutOfBounds { row: y_start, col: x_start },
                )
                &&& *final(self) == *old(self)
            },
    {
        if self.out_of_bounds(y_start, x_start) {
            return Err(Chip8Error::DisplayOutOfBounds { row: y_start, col: x_start });
        }
        let ghost before = self@;
        let ghost x0 = x_start as int;
        let ghost y0 = y_start as int;
        let len = sprite.len();
        let rows: usize = if wrap || len < Self::HEIGHT - y_start {
            len
        } else {
            Self::HEIGHT - y_start
        };
        let cols: usize = if wrap || 8 < Self::WIDTH - x_start {
            8
        } else {
            Self::WIDTH - x_start
        };
        let mut collision = false;
        let mut i: usize = 0;
        while i < rows
            invariant
                0 <= i <= rows,
                rows <= len,
                len == sprite@.len(),
                !wrap ==> rows == len || rows == DISPLAY_HEIGHT - y_start,
                !wrap ==> rows <= DISPLAY_HEIGHT - y_start,
                !wrap ==> cols <= DISPLAY_WIDTH - x_start,
                wrap ==> rows == len && len <= DISPLAY_HEIGHT,
                !wrap ==> cols == 8 || cols == DISPLAY_WIDTH - x_start,
                wrap ==> cols == 8,
                cols <= 8,
                on_screen(y0, x0),
                x0 == x_start,
                y0 == y_start,
                well_shaped(before),
                forall|r: int, c: int|
                    on_screen(r, c) ==> #[trigger] self@[r][c] == partly_drawn(
                        before,
                        x0,
                        y0,
                        sprite@,
                        wrap,
                        i as int,
                        0,
                        r,
                        c,
                    ),
                collision == partly_collides(before, x0, y0, sprite@, wrap, i as int, 0),
            decreases rows - i,
        {
            let byte = sprite[i];
            let mut b: usize = 0;
            while b < cols
                invariant
                    0 <= i < rows,
                    0 <= b <= cols,
                    rows <= len,
                    len == sprite@.len(),
                    byte == sprite@[i as int],
                    !wrap ==> rows == len || rows == DISPLAY_HEIGHT - y_start,
                    !wrap ==> rows <= DISPLAY_HEIGHT - y_start,
                    !wrap ==> cols <= DISPLAY_WIDTH - x_start,
                    wrap ==> rows == len && len <= DISPLAY_HEIGHT,
                    !wrap ==> cols == 8 || cols == DISPLAY_WIDTH - x_start,
                    wrap ==> cols == 8,
                    cols <= 8,
                    on_screen(y0, x0),
                    x0 == x_start,
                    y0 == y_start,
                    well_shaped(before),
                    forall|r: int, c: int|
                        on_screen(r, c) ==> #[trigger] self@[r][c] == partly_drawn(
                            before,
                            x0,
                            y0,
                            sprite@,
                            wrap,
                            i as int,
                            b as int,
                            r,
                            c,
                        ),
                    collision == partly_collides(before, x0, y0, sprite@, wrap, i as int, b as int),
                decreases cols - b,
            {
                proof {
                    lemma_pixel_bit(byte, b as u8);
                }
                if (byte >> (7 - b as u8)) & 1 == 1 {
                    let y = if wrap {
                        (y_start + i) % Self::HEIGHT
                    } else {
                        y_start + i
                    };
                    let x = if wrap {
                        (x_start + b) % Self::WIDTH
                    } else {
                        x_start + b
                    };
                    proof {
                        self.lemma_target(before, x0, y0, sprite@, wrap, i as int, b as int, y as int, x as int);
                    }
                    let ghost mid = self@;
                    let on = self.content[y][x];
                    self.content[y][x] = !on;
                    if on {
                        collision = true;
                    }
                    proof {
                        assert(self@ =~~= mid.update(y as int, mid[y as int].update(x as int, !on)));
                        if !on {
                            assert forall|r: int, c: int|
                                !(on_screen(r, c) && #[trigger] before[r][c] && sprite_covers(x0, y0, sprite@, wrap, r, c)
                                    && drawn_before(x0, y0, wrap, r, c, i as int, b + 1)) implies
                                !(on_screen(r, c) && before[r][c] && sprite_covers(x0, y0, sprite@, wrap, r, c)
                                    && drawn_before(x0, y0, wrap, r, c, i as int, b as int)) by {}
                        } else {
                            assert(on_screen(y as int, x as int) && before[y as int][x as int] && sprite_covers(x0, y0, sprite@, wrap, y as int, x as int)
                                && drawn_before(x0, y0, wrap, y as int, x as int, i as int, b + 1));
                        }
                    }
                } else {
                    proof {
                        assert forall|r: int, c: int| on_screen(r, c) implies
                            drawn_before(x0, y0, wrap, r, c, i as int, b + 1) == drawn_before(x0, y0, wrap, r, c, i as int, b as int)
                            || !sprite_covers(x0, y0, sprite@, wrap, r, c) by {
                            if wrap {
                                lemma_wrap_position(y0, i as int, r, DISPLAY_HEIGHT as int);
                                lemma_wrap_position(x0, b as int, c, DISPLAY_WIDTH as int);
                            }
                        }
                    }
                }
                b += 1;
            }
            proof {
                assert forall|r: int, c: int| on_screen(r, c) implies
                    drawn_before(x0, y0, wrap, r, c, i + 1, 0) == drawn_before(x0, y0, wrap, r, c, i as int, cols as int)
                    || !sprite_covers(x0, y0, sprite@, wrap, r, c) by {
                    if wrap {
                        lemma_wrap_position(y0, i as int, r, DISPLAY_HEIGHT as int);
                    }
                }
            }
            i += 1;
        }
        proof {
            assert forall|r: int, c: int| on_screen(r, c) implies
                drawn_before(x0, y0, wrap, r, c, rows as int, 0)
                || !sprite_covers(x0, y0, sprite@, wrap, r, c) by {}
            assert forall|r: int, c: int| on_screen(r, c) implies
                #[trigger] self@[r][c] == drawn_pixels(before, x0, y0, sprite@, wrap)[r][c] by {}
            assert(collision == sprite_collides(before, x0, y0, sprite@, wrap));
            let drawn = drawn_pixels(before, x0, y0, sprite@, wrap);
            assert forall|r: int| 0 <= r < DISPLAY_HEIGHT implies #[trigger] self@[r] =~= drawn[r] by {
                assert forall|c: int| 0 <= c < DISPLAY_WIDTH implies self@[r][c] == drawn[r][c] by {
                    assert(on_screen(r, c));
                }
            }
            assert(self@ =~= drawn);
        }
        self.dirty = true;
        Ok(collision)
    }

    /// The pixel that sprite row `i`, bit `b` lands on, and no other on-screen
    /// pixel, has that row and bit as its source.
    proof fn lemma_target(
        &self,
        before: Seq<Seq<bool>>,
        x0: int,
        y0: int,
        sprite: Seq<u8>,
        wrap: bool,
        i: int,
        b: int,
        y: int,
        x: int,
    )
        requires
            on_screen(y0, x0),
            0 <= i < sprite.len(),
            0 <= b < 8,
            wrap ==> sprite.len() <= DISPLAY_HEIGHT,
            wrap ==> y == (y0 + i) % (DISPLAY_HEIGHT as int) && x == (x0 + b) % (DISPLAY_WIDTH as int),
            !wrap ==> y == y0 + i && x == x0 + b,
            on_screen(y, x),
        ensures
            source_row(y0, y, wrap) == i,
            source_col(x0, x, wrap) == b,
            forall|r: int, c: int|
                on_screen(r, c) && source_row(y0, r, wrap) == i && source_col(x0, c, wrap) == b
                    ==> r == y && c == x,
    {
        if wrap {
            lemma_wrap_position(y0, i, y, DISPLAY_HEIGHT as int);
            lemma_wrap_position(x0, b, x, DISPLAY_WIDTH as int);
            assert forall|r: int, c: int|
                on_screen(r, c) && source_row(y0, r, wrap) == i && source_col(x0, c, wrap) == b
                    implies r == y && c == x by {
                lemma_wrap_position(y0, i, r, DISPLAY_HEIGHT as int);
                lemma_wrap_position(x0, b, c, DISPLAY_WIDTH as int);
            }
        }
    }

    /// Check whether a display coordinate is outside the framebuffer.
    pub fn out_of_bounds(&self, row: usize, col: usize) -> (r: bool)
        ensures
            r == !on_screen(row as int, col as int),
    {
        row >= Self::HEIGHT || col >= Self::WIDTH
    }
}

} // verus!
