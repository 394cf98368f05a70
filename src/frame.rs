//! A monochrome framebuffer with wraparound sprite drawing.
use vstd::prelude::*;
use crate::{HEIGHT, WIDTH};

verus! {

/// Whether column `k` (0 is the leftmost) of the sprite row `b` is lit.
pub open spec fn lit(b: u8, k: int) -> bool {
    (b >> ((7 - k) as u8)) & 1u8 == 1u8
}

/// The column of pixel `p` counted from `x`, with wraparound.
pub open spec fn off_x(x: u8, p: int) -> int {
    (p % (WIDTH as int) - x) % (WIDTH as int)
}

/// The row of pixel `p` counted from `y`, with wraparound.
pub open spec fn off_y(y: u8, p: int) -> int {
    (p / (WIDTH as int) - y) % (HEIGHT as int)
}

/// Whether drawing `sprite` at `(x, y)` flips pixel `p`.
pub open spec fn covers(sprite: Seq<u8>, x: u8, y: u8, p: int) -> bool {
    off_x(x, p) < 8 && off_y(y, p) < sprite.len() && lit(sprite[off_y(y, p)], off_x(x, p))
}

/// The pixels after drawing `sprite` at `(x, y)`: each covered pixel flips.
pub open spec fn spec_drawn(pixels: Seq<bool>, sprite: Seq<u8>, x: u8, y: u8) -> Seq<bool> {
    Seq::new(pixels.len(), |p: int| pixels[p] != covers(sprite, x, y, p))
}

/// Whether drawing `sprite` at `(x, y)` clears a lit pixel.
pub open spec fn spec_collides(pixels: Seq<bool>, sprite: Seq<u8>, x: u8, y: u8) -> bool {
    exists|p: int| 0 <= p < pixels.len() && pixels[p] && #[trigger] covers(sprite, x, y, p)
}

/// Whether pixel `p` has been visited once rows before `dy`, and columns
/// before `dx` of row `dy`, have been drawn.
pub open spec fn visited(x: u8, y: u8, p: int, dy: int, dx: int) -> bool {
    off_y(y, p) < dy || (off_y(y, p) == dy && off_x(x, p) < dx)
}

/// `WIDTH * HEIGHT` pixels, row by row; `true` is lit.
pub struct Framebuffer {
    pub pixels: Vec<bool>,
}

impl View for Framebuffer {
    type V = Seq<bool>;

    open spec fn view(&self) -> Seq<bool> {
        self.pixels@
    }
}

proof fn lemma_cell(x: u8, y: u8, dx: int, dy: int, p: int)
    requires
        0 <= dx < 8,
        0 <= dy < HEIGHT,
        0 <= p < WIDTH * HEIGHT,
    ensures
        (p == ((y + dy) % (HEIGHT as int)) * (WIDTH as int) + (x + dx) % (WIDTH as int)) <==> (
        off_x(x, p) == dx && off_y(y, p) == dy),
{
}

impl Framebuffer {
    /// Holds exactly one pixel per position.
    pub open spec fn wf(&self) -> bool {
        self@.len() == WIDTH * HEIGHT
    }

    /// A blank framebuffer.
    pub fn new() -> (r: Framebuffer)
        ensures
            r.wf(),
            forall|p: int| 0 <= p < WIDTH * HEIGHT ==> !r@[p],
    {
        let mut pixels: Vec<bool> = Vec::new();
        let mut k: usize = 0;
        while k < WIDTH * HEIGHT
            invariant
                k <= WIDTH * HEIGHT,
                pixels@.len() == k,
                forall|p: int| 0 <= p < k ==> !pixels@[p],
            decreases WIDTH * HEIGHT - k,
        {
            pixels.push(false);
            k = k + 1;
        }
        Framebuffer { pixels }
    }

    /// Blanks every pixel.
    pub fn clear(&mut self)
        requires
            old(self).wf(),
        ensures
            final(self).wf(),
            forall|p: int| 0 <= p < WIDTH * HEIGHT ==> !final(self)@[p],
    {
        let mut k: usize = 0;
        while k < WIDTH * HEIGHT
            invariant
                k <= WIDTH * HEIGHT,
                self.wf(),
                forall|p: int| 0 <= p < k ==> !self@[p],
            decreases WIDTH * HEIGHT - k,
        {
            self.pixels.set(k, false);
            k = k + 1;
        }
    }

    /// Whether the pixel at column `x`, row `y` is lit.
    pub fn get(&self, x: usize, y: usize) -> (r: bool)
        requires
            self.wf(),
            x < WIDTH,
            y < HEIGHT,
        ensures
            r == self@[y * WIDTH + x],
    {
        self.pixels[y * WIDTH + x]
    }

    /// XORs `sprite`, one byte per 8-pixel row, onto the pixels with its top
    /// left corner at `(x mod WIDTH, y mod HEIGHT)` and wraparound, and tells
    /// whether a lit pixel was cleared.
    pub fn draw(&mut self, x: u8, y: u8, sprite: &[u8]) -> (r: bool)
        requires
            old(self).wf(),
            sprite@.len() <= HEIGHT,
        ensures
            final(self).wf(),
            final(self)@ == spec_drawn(old(self)@, sprite@, x, y),
            r == spec_collides(old(self)@, sprite@, x, y),
    {
        let ghost old_px = self@;
        let n = sprite.len();
        let mut collision = false;
        let mut dy: usize = 0;
        while dy < n
            invariant
                n == sprite@.len(),
                n <= HEIGHT,
                dy <= n,
                self.wf(),
                old_px.len() == WIDTH * HEIGHT,
                forall|p: int|
                    0 <= p < WIDTH * HEIGHT ==> #[trigger] self@[p] == (old_px[p] != (covers(sprite@, x, y, p)
                        && visited(x, y, p, dy as int, 0))),
                collision == exists|p: int|
                    0 <= p < WIDTH * HEIGHT && old_px[p] && #[trigger] covers(sprite@, x, y, p)
                        && visited(x, y, p, dy as int, 0),
            decreases n - dy,
        {
            let row = sprite[dy];
            let py = (y as usize + dy) % HEIGHT;
            let mut dx: usize = 0;
            while dx < 8
                invariant
                    n == sprite@.len(),
                    n <= HEIGHT,
                    dy < n,
                    dx <= 8,
                    row == sprite@[dy as int],
                    py == (y + dy) % (HEIGHT as int),
                    self.wf(),
                    old_px.len() == WIDTH * HEIGHT,
                    forall|p: int|
                        0 <= p < WIDTH * HEIGHT ==> #[trigger] self@[p] == (old_px[p] != (covers(
                            sprite@,
                            x,
                            y,
                            p,
                        ) && visited(x, y, p, dy as int, dx as int))),
                    collision == exists|p: int|
                        0 <= p < WIDTH * HEIGHT && old_px[p] && #[trigger] covers(sprite@, x, y, p)
                            && visited(x, y, p, dy as int, dx as int),
                decreases 8 - dx,
            {
                let px = (x as usize + dx) % WIDTH;
                let idx = py * WIDTH + px;
                let bit = (row >> (7 - dx) as u8) & 1u8 == 1u8;
                proof {
                    assert forall|p: int| 0 <= p < WIDTH * HEIGHT implies (p == idx <==> (off_x(
                        x,
                        p,
                    ) == dx && off_y(y, p) == dy)) by {
                        lemma_cell(x, y, dx as int, dy as int, p);
                    }
                    lemma_cell(x, y, dx as int, dy as int, idx as int);
                    assert(covers(sprite@, x, y, idx as int) == bit);
                    assert(!visited(x, y, idx as int, dy as int, dx as int));
                    assert forall|p: int| 0 <= p < WIDTH * HEIGHT implies #[trigger] visited(
                        x,
                        y,
                        p,
                        dy as int,
                        dx + 1,
                    ) == (visited(x, y, p, dy as int, dx as int) || p == idx) by {}
                }
                if bit {
                    let cur = self.pixels[idx];
                    if cur {
                        collision = true;
                    }
                    self.pixels.set(idx, !cur);
                }
                proof {
                    if collision {
                        if bit && old_px[idx as int] {
                            assert(visited(x, y, idx as int, dy as int, dx + 1));
                            assert(covers(sprite@, x, y, idx as int));
                        } else {
                            let q = choose|p: int|
                                0 <= p < WIDTH * HEIGHT && old_px[p] && #[trigger] covers(
                                    sprite@,
                                    x,
                                    y,
                                    p,
                                ) && visited(x, y, p, dy as int, dx as int);
                            assert(visited(x, y, q, dy as int, dx + 1));
                        }
                    }
                }
                dx = dx + 1;
            }
            proof {
                assert forall|p: int| 0 <= p < WIDTH * HEIGHT implies (#[trigger] visited(
                    x,
                    y,
                    p,
                    dy + 1,
                    0,
                ) && covers(sprite@, x, y, p)) == (covers(sprite@, x, y, p) && visited(x, y, p, dy as int, 8)) by {}
            }
            dy = dy + 1;
        }
        proof {
            assert forall|p: int| 0 <= p < WIDTH * HEIGHT && #[trigger] covers(
                sprite@,
                x,
                y,
                p,
            ) implies visited(x, y, p, n as int, 0) by {}
            assert(self@ =~= spec_drawn(old_px, sprite@, x, y));
        }
        collision
    }
}

/// A non-zero sprite row has a lit column.
proof fn lemma_row_lit(b: u8) -> (k: int)
    requires
        b != 0,
    ensures
        0 <= k < 8,
        lit(b, k),
{
    assert(b != 0 ==> (b >> 7u8) & 1u8 == 1u8 || (b >> 6u8) & 1u8 == 1u8 || (b >> 5u8) & 1u8 == 1u8
        || (b >> 4u8) & 1u8 == 1u8 || (b >> 3u8) & 1u8 == 1u8 || (b >> 2u8) & 1u8 == 1u8 || (b >> 1u8)
        & 1u8 == 1u8 || (b >> 0u8) & 1u8 == 1u8) by (bit_vector);
    if lit(b, 0) {
        0
    } else if lit(b, 1) {
        1
    } else if lit(b, 2) {
        2
    } else if lit(b, 3) {
        3
    } else if lit(b, 4) {
        4
    } else if lit(b, 5) {
        5
    } else if lit(b, 6) {
        6
    } else {
        7
    }
}

/// Drawing a sprite twice at the same place leaves every pixel as it was
/// before the first draw. Where the sprite has a lit pixel and every pixel it
/// covers was unlit before the first draw, the second draw reports a
/// collision.
pub proof fn lemma_draw_twice(pixels: Seq<bool>, sprite: Seq<u8>, x: u8, y: u8)
    requires
        pixels.len() == WIDTH * HEIGHT,
        sprite.len() <= HEIGHT,
    ensures
        spec_drawn(spec_drawn(pixels, sprite, x, y), sprite, x, y) == pixels,
        (exists|dy: int| 0 <= dy < sprite.len() && #[trigger] sprite[dy] != 0) && (forall|p: int|
            0 <= p < pixels.len() && #[trigger] covers(sprite, x, y, p) ==> !pixels[p])
            ==> spec_collides(spec_drawn(pixels, sprite, x, y), sprite, x, y),
{
    assert(spec_drawn(spec_drawn(pixels, sprite, x, y), sprite, x, y) =~= pixels);
    if (exists|dy: int| 0 <= dy < sprite.len() && #[trigger] sprite[dy] != 0) && (forall|p: int|
        0 <= p < pixels.len() && #[trigger] covers(sprite, x, y, p) ==> !pixels[p]) {
        let dy = choose|dy: int| 0 <= dy < sprite.len() && #[trigger] sprite[dy] != 0;
        let dx = lemma_row_lit(sprite[dy]);
        let p = ((y + dy) % (HEIGHT as int)) * (WIDTH as int) + (x + dx) % (WIDTH as int);
        lemma_cell(x, y, dx, dy, p);
        assert(covers(sprite, x, y, p));
        assert(spec_drawn(pixels, sprite, x, y)[p]);
    }
}

} // verus!
