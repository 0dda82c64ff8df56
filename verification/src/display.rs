//! The 64x32 one-bit display.
//!
//! A draw XORs sprite bits onto the grid at coordinates taken modulo the
//! width and height, and reports a collision exactly when some pixel went
//! from set to unset. The display never renders anything itself: every
//! change is published as a [`DisplayEvent`] for an outside subscriber
//! (a window, a terminal, a test) to consume.

use vstd::prelude::*;

verus! {

/// Width of the display in pixels.
pub const WIDTH: usize = 64;

/// Height of the display in pixels.
pub const HEIGHT: usize = 32;

/// Total number of pixels.
pub const NUM_PIXELS: usize = 2048;

/// A change notification emitted by the display.
#[derive(Debug, Clone, Copy, PartialEq, Eq, Structural)]
pub enum DisplayEvent {
    /// The pixel at (x, y) was XOR-ed; `value` is its value afterwards.
    PixelToggled { x: usize, y: usize, value: u8 },
    /// Every pixel was unset.
    Cleared,
    /// A frame finished; a renderer may present what it has drawn.
    FramePresented,
}

/// Index of the pixel at (x, y), with both coordinates wrapped.
pub open spec fn pix_idx(x: int, y: int) -> int {
    (y % (HEIGHT as int)) * (WIDTH as int) + x % (WIDTH as int)
}

/// XOR of two pixel bits (each 0 or 1).
pub open spec fn bit_xor(p: u8, v: u8) -> u8
    recommends
        p <= 1,
        v <= 1,
{
    if p == v {
        0u8
    } else {
        1u8
    }
}

/// AND of two pixel bits: 1 exactly when a set pixel is XOR-ed with a set
/// bit, that is, when the pixel goes from set to unset.
pub open spec fn bit_and(p: u8, v: u8) -> u8 {
    if p == 1 && v == 1 {
        1u8
    } else {
        0u8
    }
}

/// Every pixel value is a single bit.
pub open spec fn wf_pixels(p: Seq<u8>) -> bool {
    &&& p.len() == NUM_PIXELS
    &&& forall|k: int| 0 <= k < p.len() ==> p[k] <= 1
}

/// An all-unset pixel grid.
pub open spec fn blank_pixels() -> Seq<u8> {
    Seq::new(NUM_PIXELS as nat, |k: int| 0u8)
}

/// Bit `j` of a sprite row, most significant bit first.
pub open spec fn sprite_bit(b: u8, j: int) -> u8
    recommends
        0 <= j < 8,
{
    if j == 0 {
        (b / 128) as u8
    } else if j == 1 {
        ((b / 64) % 2) as u8
    } else if j == 2 {
        ((b / 32) % 2) as u8
    } else if j == 3 {
        ((b / 16) % 2) as u8
    } else if j == 4 {
        ((b / 8) % 2) as u8
    } else if j == 5 {
        ((b / 4) % 2) as u8
    } else if j == 6 {
        ((b / 2) % 2) as u8
    } else {
        (b % 2) as u8
    }
}

/// A draw of an n-row sprite walks positions in row-major order: step `t`
/// touches column `t % 8` of row `t / 8`. This is the pixel index that
/// step `t` of a draw at (x, y) touches.
pub open spec fn draw_pos(x: int, y: int, t: int) -> int
    recommends
        t >= 0,
{
    pix_idx(x + t % 8, y + t / 8)
}

/// The sprite bit that step `t` of a draw XORs onto the grid.
pub open spec fn draw_bit(rows: Seq<u8>, t: int) -> u8
    recommends
        0 <= t < 8 * rows.len(),
{
    sprite_bit(rows[t / 8], t % 8)
}

/// The pixel grid after the first `t` steps of a draw of `rows` at (x, y).
pub open spec fn draw_upto(p: Seq<u8>, rows: Seq<u8>, x: int, y: int, t: nat) -> Seq<u8>
    decreases t,
{
    if t == 0 {
        p
    } else {
        let q = draw_upto(p, rows, x, y, (t - 1) as nat);
        let idx = draw_pos(x, y, t - 1);
        q.update(idx, bit_xor(q[idx], draw_bit(rows, t - 1)))
    }
}

/// Whether any of the first `t` steps of a draw turned a set pixel unset.
pub open spec fn collide_upto(p: Seq<u8>, rows: Seq<u8>, x: int, y: int, t: nat) -> bool
    decreases t,
{
    if t == 0 {
        false
    } else {
        collide_upto(p, rows, x, y, (t - 1) as nat) || {
            let q = draw_upto(p, rows, x, y, (t - 1) as nat);
            draw_bit(rows, t - 1) == 1 && q[draw_pos(x, y, t - 1)] == 1
        }
    }
}

/// The pixel grid after drawing the whole sprite `rows` at (x, y).
pub open spec fn spec_draw(p: Seq<u8>, rows: Seq<u8>, x: int, y: int) -> Seq<u8> {
    draw_upto(p, rows, x, y, (8 * rows.len()) as nat)
}

/// Whether drawing the whole sprite `rows` at (x, y) collides: true
/// exactly when some pixel went from set to unset during the draw.
pub open spec fn spec_draw_collision(p: Seq<u8>, rows: Seq<u8>, x: int, y: int) -> bool {
    collide_upto(p, rows, x, y, (8 * rows.len()) as nat)
}

/// The change notifications a draw emits: one per step, carrying the
/// final value of the touched pixel.
pub open spec fn draw_events(p: Seq<u8>, rows: Seq<u8>, x: int, y: int) -> Seq<DisplayEvent> {
    Seq::new(
        (8 * rows.len()) as nat,
        |t: int|
            DisplayEvent::PixelToggled {
                x: ((x + t % 8) % (WIDTH as int)) as usize,
                y: ((y + t / 8) % (HEIGHT as int)) as usize,
                value: draw_upto(p, rows, x, y, (t + 1) as nat)[draw_pos(x, y, t)],
            },
    )
}

/// Distinct steps of one draw touch distinct pixels: the sprite is at
/// most 8 pixels wide and at most 32 rows tall, so neither coordinate
/// wraps onto itself.
proof fn lemma_draw_pos_injective(x: int, y: int, rows: Seq<u8>, t1: int, t2: int)
    requires
        rows.len() <= 32,
        0 <= t1 < 8 * rows.len(),
        0 <= t2 < 8 * rows.len(),
        t1 != t2,
    ensures
        draw_pos(x, y, t1) != draw_pos(x, y, t2),
{
    let w = WIDTH as int;
    let h = HEIGHT as int;
    let x0 = x % w;
    let y0 = y % h;
    assert(0 <= x0 < w);
    assert(0 <= y0 < h);
    let c1 = (x + t1 % 8) % w;
    let c2 = (x + t2 % 8) % w;
    let r1 = (y + t1 / 8) % h;
    let r2 = (y + t2 / 8) % h;
    assert(c1 == (x0 + t1 % 8) % w && c2 == (x0 + t2 % 8) % w) by {
        vstd::arithmetic::div_mod::lemma_add_mod_noop(x, t1 % 8, w);
        vstd::arithmetic::div_mod::lemma_add_mod_noop(x, t2 % 8, w);
        vstd::arithmetic::div_mod::lemma_mod_twice(x, w);
        vstd::arithmetic::div_mod::lemma_add_mod_noop(x0, t1 % 8, w);
        vstd::arithmetic::div_mod::lemma_add_mod_noop(x0, t2 % 8, w);
        vstd::arithmetic::div_mod::lemma_mod_twice(x0 + t1 % 8, w);
        vstd::arithmetic::div_mod::lemma_mod_twice(x0 + t2 % 8, w);
    }
    assert(r1 == (y0 + t1 / 8) % h && r2 == (y0 + t2 / 8) % h) by {
        vstd::arithmetic::div_mod::lemma_add_mod_noop(y, t1 / 8, h);
        vstd::arithmetic::div_mod::lemma_add_mod_noop(y, t2 / 8, h);
        vstd::arithmetic::div_mod::lemma_mod_twice(y, h);
        vstd::arithmetic::div_mod::lemma_add_mod_noop(y0, t1 / 8, h);
        vstd::arithmetic::div_mod::lemma_add_mod_noop(y0, t2 / 8, h);
        vstd::arithmetic::div_mod::lemma_mod_twice(y0 + t1 / 8, h);
        vstd::arithmetic::div_mod::lemma_mod_twice(y0 + t2 / 8, h);
    }
    // With x0 < 64 and the column offset below 8, the wrapped column is a
    // two-case linear function of the offset; likewise for rows.
    assert(c1 == if x0 + t1 % 8 < w { x0 + t1 % 8 } else { x0 + t1 % 8 - w }) by {
        vstd::arithmetic::div_mod::lemma_mod_bound(x0 + t1 % 8, w);
        if x0 + t1 % 8 < w {
            vstd::arithmetic::div_mod::lemma_small_mod((x0 + t1 % 8) as nat, w as nat);
        } else {
            vstd::arithmetic::div_mod::lemma_mod_sub_multiples_vanish(x0 + t1 % 8 - w, w);
            vstd::arithmetic::div_mod::lemma_small_mod((x0 + t1 % 8 - w) as nat, w as nat);
        }
    }
    assert(c2 == if x0 + t2 % 8 < w { x0 + t2 % 8 } else { x0 + t2 % 8 - w }) by {
        vstd::arithmetic::div_mod::lemma_mod_bound(x0 + t2 % 8, w);
        if x0 + t2 % 8 < w {
            vstd::arithmetic::div_mod::lemma_small_mod((x0 + t2 % 8) as nat, w as nat);
        } else {
            vstd::arithmetic::div_mod::lemma_mod_sub_multiples_vanish(x0 + t2 % 8 - w, w);
            vstd::arithmetic::div_mod::lemma_small_mod((x0 + t2 % 8 - w) as nat, w as nat);
        }
    }
    assert(r1 == if y0 + t1 / 8 < h { y0 + t1 / 8 } else { y0 + t1 / 8 - h }) by {
        vstd::arithmetic::div_mod::lemma_mod_bound(y0 + t1 / 8, h);
        if y0 + t1 / 8 < h {
            vstd::arithmetic::div_mod::lemma_small_mod((y0 + t1 / 8) as nat, h as nat);
        } else {
            vstd::arithmetic::div_mod::lemma_mod_sub_multiples_vanish(y0 + t1 / 8 - h, h);
            vstd::arithmetic::div_mod::lemma_small_mod((y0 + t1 / 8 - h) as nat, h as nat);
        }
    }
    assert(r2 == if y0 + t2 / 8 < h { y0 + t2 / 8 } else { y0 + t2 / 8 - h }) by {
        vstd::arithmetic::div_mod::lemma_mod_bound(y0 + t2 / 8, h);
        if y0 + t2 / 8 < h {
            vstd::arithmetic::div_mod::lemma_small_mod((y0 + t2 / 8) as nat, h as nat);
        } else {
            vstd::arithmetic::div_mod::lemma_mod_sub_multiples_vanish(y0 + t2 / 8 - h, h);
            vstd::arithmetic::div_mod::lemma_small_mod((y0 + t2 / 8 - h) as nat, h as nat);
        }
    }
    assert(0 <= c1 < w && 0 <= c2 < w && 0 <= r1 < h && 0 <= r2 < h);
    if t1 / 8 == t2 / 8 {
        assert(t1 % 8 != t2 % 8) by {
            vstd::arithmetic::div_mod::lemma_fundamental_div_mod(t1, 8);
            vstd::arithmetic::div_mod::lemma_fundamental_div_mod(t2, 8);
        }
        assert(c1 != c2);
    } else {
        assert(r1 != r2);
    }
}

/// Whether some step of a draw at (x, y) touches pixel `idx` with a set
/// sprite bit, among the first `t` steps.
pub open spec fn flipped_by(rows: Seq<u8>, x: int, y: int, t: nat, idx: int) -> bool {
    exists|s: int| 0 <= s < t && draw_pos(x, y, s) == idx && draw_bit(rows, s) == 1
}

/// Closed form of a partial draw: a pixel is flipped exactly when some
/// step reaches it with a set sprite bit, and no pixel is touched twice.
proof fn lemma_draw_upto_closed_form(p: Seq<u8>, rows: Seq<u8>, x: int, y: int, t: nat)
    requires
        wf_pixels(p),
        rows.len() <= 32,
        t <= 8 * rows.len(),
    ensures
        draw_upto(p, rows, x, y, t).len() == p.len(),
        forall|idx: int|
            0 <= idx < p.len() ==> draw_upto(p, rows, x, y, t)[idx] == (if flipped_by(
                rows,
                x,
                y,
                t,
                idx,
            ) {
                bit_xor(p[idx], 1)
            } else {
                p[idx]
            }),
    decreases t,
{
    if t > 0 {
        let t0 = (t - 1) as nat;
        lemma_draw_upto_closed_form(p, rows, x, y, t0);
        let q = draw_upto(p, rows, x, y, t0);
        let pos = draw_pos(x, y, t - 1);
        let bit = draw_bit(rows, t - 1);
        assert(0 <= pos < NUM_PIXELS) by {
            vstd::arithmetic::div_mod::lemma_mod_bound(x + (t - 1) % 8, WIDTH as int);
            vstd::arithmetic::div_mod::lemma_mod_bound(y + (t - 1) / 8, HEIGHT as int);
        }
        assert forall|idx: int| 0 <= idx < p.len() implies draw_upto(p, rows, x, y, t)[idx] == (
        if flipped_by(rows, x, y, t, idx) {
            bit_xor(p[idx], 1)
        } else {
            p[idx]
        }) by {
            if idx == pos {
                // No earlier step touches this pixel.
                assert(!flipped_by(rows, x, y, t0, idx)) by {
                    if flipped_by(rows, x, y, t0, idx) {
                        let s = choose|s: int|
                            0 <= s < t0 && draw_pos(x, y, s) == idx && draw_bit(rows, s) == 1;
                        lemma_draw_pos_injective(x, y, rows, s, t - 1);
                    }
                }
                assert(q[idx] == p[idx]);
                if bit == 1 {
                    assert(flipped_by(rows, x, y, t, idx)) by {
                        assert(draw_pos(x, y, t - 1) == idx && draw_bit(rows, t - 1) == 1);
                    }
                } else {
                    assert(bit_xor(p[idx], bit) == p[idx]);
                    assert(!flipped_by(rows, x, y, t, idx)) by {
                        if flipped_by(rows, x, y, t, idx) {
                            let s = choose|s: int|
                                0 <= s < t && draw_pos(x, y, s) == idx && draw_bit(rows, s) == 1;
                            if s < t - 1 {
                                lemma_draw_pos_injective(x, y, rows, s, t - 1);
                            }
                        }
                    }
                }
            } else {
                assert(flipped_by(rows, x, y, t, idx) == flipped_by(rows, x, y, t0, idx)) by {
                    if flipped_by(rows, x, y, t, idx) {
                        let s = choose|s: int|
                            0 <= s < t && draw_pos(x, y, s) == idx && draw_bit(rows, s) == 1;
                        assert(s != t - 1);
                        assert(0 <= s < t0 && draw_pos(x, y, s) == idx && draw_bit(rows, s) == 1);
                    }
                    if flipped_by(rows, x, y, t0, idx) {
                        let s = choose|s: int|
                            0 <= s < t0 && draw_pos(x, y, s) == idx && draw_bit(rows, s) == 1;
                        assert(0 <= s < t && draw_pos(x, y, s) == idx && draw_bit(rows, s) == 1);
                    }
                }
            }
        }
    }
}

/// A whole draw, pixel by pixel: flipped where a set sprite bit lands,
/// untouched elsewhere.
pub proof fn lemma_draw_pointwise(p: Seq<u8>, rows: Seq<u8>, x: int, y: int)
    requires
        wf_pixels(p),
        rows.len() <= 32,
    ensures
        spec_draw(p, rows, x, y).len() == p.len(),
        forall|idx: int|
            0 <= idx < p.len() ==> spec_draw(p, rows, x, y)[idx] == (if flipped_by(
                rows,
                x,
                y,
                (8 * rows.len()) as nat,
                idx,
            ) {
                bit_xor(p[idx], 1)
            } else {
                p[idx]
            }),
        wf_pixels(spec_draw(p, rows, x, y)),
{
    lemma_draw_upto_closed_form(p, rows, x, y, (8 * rows.len()) as nat);
}

/// Drawing the same sprite twice at the same coordinates restores the
/// pixel state exactly: XOR is an involution and no pixel is touched
/// twice within one draw.
pub proof fn lemma_draw_involution(p: Seq<u8>, rows: Seq<u8>, x: int, y: int)
    requires
        wf_pixels(p),
        rows.len() <= 32,
    ensures
        spec_draw(spec_draw(p, rows, x, y), rows, x, y) == p,
{
    let p1 = spec_draw(p, rows, x, y);
    lemma_draw_pointwise(p, rows, x, y);
    lemma_draw_pointwise(p1, rows, x, y);
    assert(spec_draw(p1, rows, x, y) =~= p);
}

/// The collision result of a draw, characterized without recursion: it is
/// true exactly when some sprite step lands a set bit on a pixel that was
/// set just before the draw.
pub proof fn lemma_draw_collision_exact(p: Seq<u8>, rows: Seq<u8>, x: int, y: int)
    requires
        wf_pixels(p),
        rows.len() <= 32,
    ensures
        spec_draw_collision(p, rows, x, y) == exists|s: int|
            0 <= s < 8 * rows.len() && draw_bit(rows, s) == 1 && p[draw_pos(x, y, s)] == 1,
{
    lemma_collide_upto_exact(p, rows, x, y, (8 * rows.len()) as nat);
}

proof fn lemma_collide_upto_exact(p: Seq<u8>, rows: Seq<u8>, x: int, y: int, t: nat)
    requires
        wf_pixels(p),
        rows.len() <= 32,
        t <= 8 * rows.len(),
    ensures
        collide_upto(p, rows, x, y, t) == exists|s: int|
            0 <= s < t && draw_bit(rows, s) == 1 && p[draw_pos(x, y, s)] == 1,
    decreases t,
{
    if t > 0 {
        let t0 = (t - 1) as nat;
        lemma_collide_upto_exact(p, rows, x, y, t0);
        lemma_draw_upto_closed_form(p, rows, x, y, t0);
        let q = draw_upto(p, rows, x, y, t0);
        let pos = draw_pos(x, y, t - 1);
        assert(0 <= pos < NUM_PIXELS) by {
            vstd::arithmetic::div_mod::lemma_mod_bound(x + (t - 1) % 8, WIDTH as int);
            vstd::arithmetic::div_mod::lemma_mod_bound(y + (t - 1) / 8, HEIGHT as int);
        }
        // The pixel inspected by step t-1 still has its pre-draw value.
        assert(!flipped_by(rows, x, y, t0, pos)) by {
            if flipped_by(rows, x, y, t0, pos) {
                let s = choose|s: int|
                    0 <= s < t0 && draw_pos(x, y, s) == pos && draw_bit(rows, s) == 1;
                lemma_draw_pos_injective(x, y, rows, s, t - 1);
            }
        }
        assert(q[pos] == p[pos]);
        if collide_upto(p, rows, x, y, t) {
            if collide_upto(p, rows, x, y, t0) {
                let s = choose|s: int|
                    0 <= s < t0 && draw_bit(rows, s) == 1 && p[draw_pos(x, y, s)] == 1;
                assert(0 <= s < t && draw_bit(rows, s) == 1 && p[draw_pos(x, y, s)] == 1);
            } else {
                assert(draw_bit(rows, t - 1) == 1 && p[draw_pos(x, y, t - 1)] == 1);
            }
        }
        if exists|s: int| 0 <= s < t && draw_bit(rows, s) == 1 && p[draw_pos(x, y, s)] == 1 {
            let s = choose|s: int|
                0 <= s < t && draw_bit(rows, s) == 1 && p[draw_pos(x, y, s)] == 1;
            if s < t0 {
                assert(collide_upto(p, rows, x, y, t0));
            } else {
                assert(s == t - 1);
                assert(collide_upto(p, rows, x, y, t));
            }
        }
    }
}

/// The display: a one-bit pixel grid in row-major order plus the queue of
/// change notifications not yet consumed by a subscriber.
#[derive(Debug)]
pub struct Display {
    pixels: Vec<u8>,
    events: Vec<DisplayEvent>,
}

impl Display {
    /// Structural invariant: one bit per pixel, 2048 pixels.
    pub closed spec fn wf(&self) -> bool {
        wf_pixels(self.pixels@)
    }

    /// The pixel grid, row-major: the pixel at (x, y) is entry
    /// `y * 64 + x`.
    pub closed spec fn grid(&self) -> Seq<u8> {
        self.pixels@
    }

    /// The pending change notifications, oldest first.
    pub closed spec fn pending(&self) -> Seq<DisplayEvent> {
        self.events@
    }

    /// A well-formed display has a well-formed grid: 2048 pixels, each a
    /// single bit.
    pub proof fn lemma_wf_grid(&self)
        requires
            self.wf(),
        ensures
            wf_pixels(self.grid()),
    {
    }

    /// Creates a display with no active pixels and no pending events.
    pub fn new() -> (r: Display)
        ensures
            r.wf(),
            r.grid() == blank_pixels(),
            r.pending() == Seq::<DisplayEvent>::empty(),
    {
        let mut pixels: Vec<u8> = Vec::new();
        let mut k: usize = 0;
        while k < NUM_PIXELS
            invariant
                k <= NUM_PIXELS,
                pixels@.len() == k,
                forall|j: int| 0 <= j < k ==> pixels@[j] == 0u8,
            decreases NUM_PIXELS - k,
        {
            pixels.push(0);
            k = k + 1;
        }
        let r = Display { pixels, events: Vec::new() };
        proof {
            assert(r.grid() =~= blank_pixels());
        }
        r
    }

    /// The current value of the pixel at (x, y).
    pub fn pixel(&self, x: usize, y: usize) -> (r: u8)
        requires
            self.wf(),
            x < WIDTH,
            y < HEIGHT,
        ensures
            r == self.grid()[y * WIDTH + x],
    {
        self.pixels[y * WIDTH + x]
    }

    /// XORs `val` (0 or 1) onto the pixel at (x, y), wrapping both
    /// coordinates. Returns 1 exactly when the pixel went from set to
    /// unset, and emits a notification carrying the pixel's new value.
    pub fn xor(&mut self, x: usize, y: usize, val: u8) -> (r: u8)
        requires
            old(self).wf(),
            val <= 1,
        ensures
            final(self).wf(),
            r == bit_and(old(self).grid()[pix_idx(x as int, y as int)], val),
            final(self).grid() == old(self).grid().update(
                pix_idx(x as int, y as int),
                bit_xor(old(self).grid()[pix_idx(x as int, y as int)], val),
            ),
            final(self).pending() == old(self).pending().push(
                DisplayEvent::PixelToggled {
                    x: (x % WIDTH) as usize,
                    y: (y % HEIGHT) as usize,
                    value: bit_xor(old(self).grid()[pix_idx(x as int, y as int)], val),
                },
            ),
    {
        let xi = x % WIDTH;
        let yi = y % HEIGHT;
        let idx = yi * WIDTH + xi;
        let prev = self.pixels[idx];
        let next = if prev == val {
            0
        } else {
            1
        };
        let collision = if prev == 1 && val == 1 {
            1
        } else {
            0
        };
        self.pixels.set(idx, next);
        self.events.push(DisplayEvent::PixelToggled { x: xi, y: yi, value: next });
        collision
    }

    /// Unsets every pixel and emits a single cleared notification.
    pub fn clear(&mut self)
        ensures
            final(self).wf(),
            final(self).grid() == blank_pixels(),
            final(self).pending() == old(self).pending().push(DisplayEvent::Cleared),
    {
        let mut pixels: Vec<u8> = Vec::new();
        let mut k: usize = 0;
        while k < NUM_PIXELS
            invariant
                k <= NUM_PIXELS,
                pixels@.len() == k,
                forall|j: int| 0 <= j < k ==> pixels@[j] == 0u8,
            decreases NUM_PIXELS - k,
        {
            pixels.push(0);
            k = k + 1;
        }
        self.pixels = pixels;
        self.events.push(DisplayEvent::Cleared);
        proof {
            assert(self.grid() =~= blank_pixels());
        }
    }

    /// Emits the frame-presented notification that ends a frame.
    pub fn present(&mut self)
        requires
            old(self).wf(),
        ensures
            final(self).wf(),
            final(self).grid() == old(self).grid(),
            final(self).pending() == old(self).pending().push(DisplayEvent::FramePresented),
    {
        self.events.push(DisplayEvent::FramePresented);
    }

    /// Hands the pending notifications to the subscriber and empties the
    /// queue.
    pub fn take_events(&mut self) -> (r: Vec<DisplayEvent>)
        requires
            old(self).wf(),
        ensures
            final(self).wf(),
            final(self).grid() == old(self).grid(),
            r@ == old(self).pending(),
            final(self).pending() == Seq::<DisplayEvent>::empty(),
    {
        let mut taken: Vec<DisplayEvent> = Vec::new();
        core::mem::swap(&mut taken, &mut self.events);
        proof {
            assert(self.pending() =~= Seq::<DisplayEvent>::empty());
        }
        taken
    }
}

} // verus!
