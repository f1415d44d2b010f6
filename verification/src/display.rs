//! The 64x32 monochrome display with XOR sprite drawing and collision
//! detection.
//!
//! Pixels are stored row-major: the pixel at column `x`, row `y` is slot
//! `y * 64 + x`.  Drawing XORs sprite bits onto the frame buffer, wrapping
//! coordinates modulo the display dimensions, and reports a collision when
//! any on-pixel is turned off.

use vstd::prelude::*;

use vstd::arithmetic::div_mod::{
    lemma_div_multiples_vanish_fancy, lemma_fundamental_div_mod, lemma_mod_multiples_vanish,
    lemma_small_mod,
};

verus! {

/// The display width in pixels.
pub const WIDTH: usize = 64;

/// The display height in pixels.
pub const HEIGHT: usize = 32;

/// The number of pixels on the display.
pub const PIXEL_COUNT: usize = 2048;

/// Whether bit `c` of a sprite row is set, counting from the most
/// significant bit: column 0 is the leftmost pixel of the row.
pub open spec fn row_bit(row: u8, c: u8) -> bool {
    row & (0x80u8 >> c) != 0
}

/// The sprite bit that lands on the display pixel `(px, py)` when a sprite
/// of rows `rows` is drawn at `(x0, y0)` with wrap-around, or false when no
/// sprite bit lands there.  Each row is 8 columns wide.
pub open spec fn sprite_bit(rows: Seq<u8>, x0: u8, y0: u8, px: int, py: int) -> bool {
    let c = (px - x0) % 64;
    let r = (py - y0) % 32;
    c < 8 && r < rows.len() && row_bit(rows[r], c as u8)
}

/// The frame buffer after XOR-drawing the sprite `rows` at `(x0, y0)`.
pub open spec fn spec_draw(d: Seq<bool>, rows: Seq<u8>, x0: u8, y0: u8) -> Seq<bool> {
    Seq::new(d.len(), |i: int| d[i] != sprite_bit(rows, x0, y0, i % 64, i / 64))
}

/// Whether XOR-drawing the sprite `rows` at `(x0, y0)` turns any on-pixel
/// off, i.e. some on sprite bit lands on an on pixel.
pub open spec fn spec_collision(d: Seq<bool>, rows: Seq<u8>, x0: u8, y0: u8) -> bool {
    exists|i: int| 0 <= i < d.len() && d[i] && sprite_bit(rows, x0, y0, i % 64, i / 64)
}

/// The character at column `x` of rendered line `y`: a newline after the
/// 64 pixel columns, `*` (42) for an on pixel, `-` (45) for an off pixel.
pub open spec fn frame_char(d: Seq<bool>, y: int, x: int) -> u8 {
    if x == 64 {
        10u8
    } else if d[y * 64 + x] {
        42u8
    } else {
        45u8
    }
}

/// The sprite bit that lands on `(px, py)`, restricted to the sprite
/// positions strictly before row `r`, column `c` in row-major order.
spec fn drawn_before(rows: Seq<u8>, x0: u8, y0: u8, px: int, py: int, r: int, c: int) -> bool {
    let cc = (px - x0) % 64;
    let rr = (py - y0) % 32;
    cc < 8 && rr < rows.len() && (rr < r || (rr == r && cc < c)) && row_bit(rows[rr], cc as u8)
}

/// Whether some sprite position strictly before row `r`, column `c` put an
/// on bit on an on pixel of `d`.
spec fn collision_before(d: Seq<bool>, rows: Seq<u8>, x0: u8, y0: u8, r: int, c: int) -> bool {
    exists|i: int| 0 <= i < d.len() && d[i] && drawn_before(rows, x0, y0, i % 64, i / 64, r, c)
}

/// With `0 <= p < n`, `p` is the wrapped coordinate `(a + off) % n` exactly
/// when unwrapping `p` recovers the offset: `(p - a) % n == off`.
proof fn lemma_wrap(a: int, off: int, p: int, n: int)
    requires
        n > 0,
        0 <= off < n,
        0 <= p < n,
        0 <= a,
    ensures
        (p == (a + off) % n) <==> ((p - a) % n == off),
{
    let s = a + off;
    lemma_fundamental_div_mod(s, n);
    if p == s % n {
        vstd::arithmetic::mul::lemma_mul_unary_negation(n, s / n);
        assert(p - a == n * (-(s / n)) + off);
        lemma_mod_multiples_vanish(-(s / n), off, n);
        lemma_small_mod(off as nat, n as nat);
    }
    if (p - a) % n == off {
        let d = p - a;
        lemma_fundamental_div_mod(d, n);
        assert(p == n * (d / n) + (a + off));
        lemma_mod_multiples_vanish(d / n, a + off, n);
        lemma_small_mod(p as nat, n as nat);
        assert(p % n == (a + off) % n);
    }
}

/// Sprite XOR drawing is an involution: drawing the same sprite at the
/// same coordinates twice restores the frame buffer.  The second draw
/// collides exactly when some on sprite bit lands on a pixel that the
/// first draw turned on, i.e. one that was off before it.
pub proof fn lemma_draw_involution(d: Seq<bool>, rows: Seq<u8>, x0: u8, y0: u8)
    requires
        d.len() == 2048,
    ensures
        spec_draw(spec_draw(d, rows, x0, y0), rows, x0, y0) == d,
        spec_collision(spec_draw(d, rows, x0, y0), rows, x0, y0) <==> (exists|i: int|
            0 <= i < 2048 && !d[i] && sprite_bit(rows, x0, y0, i % 64, i / 64)),
{
    let d1 = spec_draw(d, rows, x0, y0);
    assert(spec_draw(d1, rows, x0, y0) =~= d);
    if spec_collision(d1, rows, x0, y0) {
        let i = choose|i: int| 0 <= i < d1.len() && d1[i] && sprite_bit(rows, x0, y0, i % 64, i / 64);
        assert(!d[i] && sprite_bit(rows, x0, y0, i % 64, i / 64));
    }
    if exists|i: int| 0 <= i < 2048 && !d[i] && sprite_bit(rows, x0, y0, i % 64, i / 64) {
        let i = choose|i: int| 0 <= i < 2048 && !d[i] && sprite_bit(rows, x0, y0, i % 64, i / 64);
        assert(d1[i] && sprite_bit(rows, x0, y0, i % 64, i / 64));
        assert(spec_collision(d1, rows, x0, y0));
    }
}

/// The frame buffer.
pub struct Chip8Display {
    pixels: Vec<bool>,
}

impl View for Chip8Display {
    type V = Seq<bool>;

    closed spec fn view(&self) -> Seq<bool> {
        self.pixels@
    }
}

impl Chip8Display {
    /// The display always holds exactly 64 x 32 pixels.
    pub open spec fn wf(&self) -> bool {
        self@.len() == PIXEL_COUNT
    }

    /// Creates the display with every pixel off.
    pub fn new() -> (display: Chip8Display)
        ensures
            display.wf(),
            forall|i: int| 0 <= i < 2048 ==> !display@[i],
    {
        Chip8Display { pixels: vec![false; PIXEL_COUNT] }
    }

    /// Turns every pixel off.
    pub fn clear(&mut self)
        ensures
            final(self).wf(),
            forall|i: int| 0 <= i < 2048 ==> !final(self)@[i],
    {
        self.pixels = vec![false; PIXEL_COUNT];
    }

    /// Whether the pixel at column `x`, row `y` is on.
    pub fn pixel(&self, x: usize, y: usize) -> (on: bool)
        requires
            self.wf(),
            x < 64,
            y < 32,
        ensures
            on == self@[y * 64 + x],
    {
        self.pixels[y * WIDTH + x]
    }

    /// XORs one sprite bit onto the pixel at column `x`, row `y`, and
    /// reports whether an on pixel was turned off.
    pub fn draw_pixel(&mut self, x: usize, y: usize, pixel: bool) -> (collision: bool)
        requires
            old(self).wf(),
            x < 64,
            y < 32,
        ensures
            final(self).wf(),
            final(self)@ == old(self)@.update(y * 64 + x, old(self)@[y * 64 + x] != pixel),
            collision == (old(self)@[y * 64 + x] && pixel),
    {
        let idx = y * WIDTH + x;
        let current = self.pixels[idx];
        self.pixels[idx] = current != pixel;
        current && pixel
    }

    /// XOR-draws a sprite whose top-left corner is at `(x0, y0)`, wrapping
    /// coordinates modulo the display dimensions, and reports whether any
    /// on pixel was turned off.  With at most 32 rows no pixel is touched
    /// twice, so each target pixel is XORed with exactly one sprite bit.
    pub fn draw_sprite(&mut self, x0: u8, y0: u8, rows: &Vec<u8>) -> (collision: bool)
        requires
            old(self).wf(),
            rows@.len() <= 32,
        ensures
            final(self).wf(),
            final(self)@ == spec_draw(old(self)@, rows@, x0, y0),
            collision == spec_collision(old(self)@, rows@, x0, y0),
    {
        let mut collision = false;
        let mut r: usize = 0;
        while r < rows.len()
            invariant
                self.wf(),
                old(self).wf(),
                rows@.len() <= 32,
                r <= rows@.len(),
                forall|i: int|
                    0 <= i < 2048 ==> self@[i] == (old(self)@[i] != drawn_before(
                        rows@,
                        x0,
                        y0,
                        i % 64,
                        i / 64,
                        r as int,
                        0,
                    )),
                collision == collision_before(old(self)@, rows@, x0, y0, r as int, 0),
            decreases rows@.len() - r,
        {
            let row = rows[r];
            let mut c: u8 = 0;
            while c < 8
                invariant
                    self.wf(),
                    old(self).wf(),
                    rows@.len() <= 32,
                    r < rows@.len(),
                    row == rows@[r as int],
                    c <= 8,
                    forall|i: int|
                        0 <= i < 2048 ==> self@[i] == (old(self)@[i] != drawn_before(
                            rows@,
                            x0,
                            y0,
                            i % 64,
                            i / 64,
                            r as int,
                            c as int,
                        )),
                    collision == collision_before(old(self)@, rows@, x0, y0, r as int, c as int),
                decreases 8 - c,
            {
                let px = (x0 as usize + c as usize) % WIDTH;
                let py = (y0 as usize + r) % HEIGHT;
                let bit = row & (0x80u8 >> c) != 0;
                let ghost pre = self@;
                let hit = self.draw_pixel(px, py, bit);
                if hit {
                    collision = true;
                }
                proof {
                    let t = py * 64 + px;
                    lemma_wrap(x0 as int, c as int, px as int, 64);
                    lemma_wrap(y0 as int, r as int, py as int, 32);
                    lemma_div_multiples_vanish_fancy(py as int, px as int, 64);
                    lemma_mod_multiples_vanish(py as int, px as int, 64);
                    lemma_small_mod(px as nat, 64nat);
                    assert(t % 64 == px && t / 64 == py);
                    assert forall|i: int| 0 <= i < 2048 implies self@[i] == (old(self)@[i]
                        != drawn_before(
                        rows@,
                        x0,
                        y0,
                        i % 64,
                        i / 64,
                        r as int,
                        c + 1,
                    )) by {
                        lemma_fundamental_div_mod(i, 64);
                        if i != t {
                            if (i % 64 - x0) % 64 == c && (i / 64 - y0) % 32 == r {
                                lemma_wrap(x0 as int, c as int, i % 64, 64);
                                lemma_wrap(y0 as int, r as int, i / 64, 32);
                            }
                        }
                    };
                    assert(collision == collision_before(
                        old(self)@,
                        rows@,
                        x0,
                        y0,
                        r as int,
                        c + 1,
                    )) by {
                        if collision_before(old(self)@, rows@, x0, y0, r as int, c + 1) {
                            let i = choose|i: int|
                                0 <= i < 2048 && old(self)@[i] && drawn_before(
                                    rows@,
                                    x0,
                                    y0,
                                    i % 64,
                                    i / 64,
                                    r as int,
                                    c + 1,
                                );
                            if !drawn_before(rows@, x0, y0, i % 64, i / 64, r as int, c as int) {
                                lemma_fundamental_div_mod(i, 64);
                                lemma_wrap(x0 as int, c as int, i % 64, 64);
                                lemma_wrap(y0 as int, r as int, i / 64, 32);
                                assert(i == t);
                            }
                        }
                        if old(self)@[t] && bit {
                            assert(drawn_before(rows@, x0, y0, t % 64, t / 64, r as int, c + 1));
                            assert(collision_before(old(self)@, rows@, x0, y0, r as int, c + 1));
                        }
                    };
                }
                c += 1;
            }
            r += 1;
        }
        proof {
            assert(final(self)@ =~= spec_draw(old(self)@, rows@, x0, y0));
            assert(collision == spec_collision(old(self)@, rows@, x0, y0)) by {
                if collision_before(old(self)@, rows@, x0, y0, rows@.len() as int, 0) {
                    let i = choose|i: int|
                        0 <= i < 2048 && old(self)@[i] && drawn_before(
                            rows@,
                            x0,
                            y0,
                            i % 64,
                            i / 64,
                            rows@.len() as int,
                            0,
                        );
                    assert(sprite_bit(rows@, x0, y0, i % 64, i / 64));
                }
                if spec_collision(old(self)@, rows@, x0, y0) {
                    let i = choose|i: int|
                        0 <= i < 2048 && old(self)@[i] && sprite_bit(rows@, x0, y0, i % 64, i / 64);
                    assert(drawn_before(rows@, x0, y0, i % 64, i / 64, rows@.len() as int, 0));
                }
            };
        }
        collision
    }

    /// Renders the frame buffer as text: 32 lines of 64 characters, `*`
    /// for an on pixel and `-` for an off pixel, each line ended by a
    /// newline.  Line `y` occupies slots `y * 65 .. y * 65 + 65` of the
    /// result; slot `y * 65 + x` holds `frame_char(self@, y, x)`.
    pub fn draw(&self) -> (frame: Vec<u8>)
        requires
            self.wf(),
        ensures
            frame@.len() == 32 * 65,
            forall|y: int, x: int|
                0 <= y < 32 && 0 <= x <= 64 ==> frame@[y * 65 + x] == #[trigger] frame_char(
                    self@,
                    y,
                    x,
                ),
    {
        let mut frame: Vec<u8> = Vec::new();
        let mut y: usize = 0;
        while y < HEIGHT
            invariant
                self.wf(),
                y <= 32,
                frame@.len() == y * 65,
                forall|yy: int, xx: int|
                    0 <= yy < y && 0 <= xx <= 64 ==> frame@[yy * 65 + xx] == #[trigger] frame_char(
                        self@,
                        yy,
                        xx,
                    ),
            decreases 32 - y,
        {
            let mut x: usize = 0;
            while x < WIDTH
                invariant
                    self.wf(),
                    y < 32,
                    x <= 64,
                    frame@.len() == y * 65 + x,
                    forall|yy: int, xx: int|
                        0 <= yy < y && 0 <= xx <= 64 ==> frame@[yy * 65 + xx]
                            == #[trigger] frame_char(self@, yy, xx),
                    forall|xx: int|
                        0 <= xx < x ==> frame@[y * 65 + xx] == #[trigger] frame_char(
                            self@,
                            y as int,
                            xx,
                        ),
                decreases 64 - x,
            {
                if self.pixels[y * WIDTH + x] {
                    frame.push(42u8);
                } else {
                    frame.push(45u8);
                }
                x += 1;
            }
            frame.push(10u8);
            y += 1;
        }
        frame
    }
}

} // verus!
