//! The 64x32 monochrome framebuffer, and the list of tiles a host paints to
//! show it.

use vstd::prelude::*;

verus! {

/// Width of the screen in pixels.
pub const WIDTH: usize = 64;

/// Height of the screen in pixels.
pub const HEIGHT: usize = 32;

/// Number of pixels on the screen.
pub const PIXEL_COUNT: usize = 2048;

/// Side of the square a host paints for one pixel.
pub const SCALE_FACTOR: u32 = 20;

/// Width of the host's window.
pub const DISPLAY_WIDTH: u32 = 1280;

/// Height of the host's window.
pub const DISPLAY_HEIGHT: u32 = 640;

/// Width of a sprite in pixels: the bits of one byte.
pub const SPRITE_WIDTH: usize = 8;

/// Largest number of rows a sprite can have.
pub const MAX_SPRITE_HEIGHT: usize = 15;

/// Position of pixel (`x`, `y`) in the row-major pixel sequence.
pub open spec fn pixel_index(x: int, y: int) -> int {
    y * WIDTH + x
}

/// The screen with every pixel off.
pub open spec fn blank_screen() -> Seq<bool> {
    Seq::new(PIXEL_COUNT as nat, |k: int| false)
}

/// Whether the pixel in column `col` of a sprite row is set: bit 7 of the
/// byte is column 0.
pub open spec fn sprite_bit(row: u8, col: int) -> bool {
    (row >> ((7 - col) as u8)) & 1u8 == 1u8
}

/// The sprite column that falls on screen position `k` when the sprite's
/// left edge is at `vx` and columns wrap round the right edge.
pub open spec fn sprite_col(vx: int, k: int) -> int {
    (k % (WIDTH as int) - vx) % (WIDTH as int)
}

/// The sprite row that falls on screen position `k` when the sprite's top
/// edge is at `vy` and rows wrap round the bottom edge.
pub open spec fn sprite_row(vy: int, k: int) -> int {
    (k / (WIDTH as int) - vy) % (HEIGHT as int)
}

/// Whether the sprite of `n` rows at address `i`, drawn with its top-left
/// corner at (`vx`, `vy`) and wrapped round both edges, has a set pixel on
/// screen position `k`.
pub open spec fn sprite_covers(ram: Seq<u8>, i: int, n: int, vx: int, vy: int, k: int) -> bool {
    &&& sprite_col(vx, k) < SPRITE_WIDTH
    &&& sprite_row(vy, k) < n
    &&& sprite_bit(ram[i + sprite_row(vy, k)], sprite_col(vx, k))
}

/// The screen after drawing: each pixel under a set sprite pixel is
/// flipped, every other pixel stays.
pub open spec fn drawn_screen(screen: Seq<bool>, ram: Seq<u8>, i: int, n: int, vx: int, vy: int)
    -> Seq<bool> {
    Seq::new(PIXEL_COUNT as nat, |k: int| screen[k] != sprite_covers(ram, i, n, vx, vy, k))
}

/// Whether drawing erases a pixel: some lit pixel lies under a set sprite
/// pixel.
pub open spec fn draw_collides(
    screen: Seq<bool>,
    ram: Seq<u8>,
    i: int,
    n: int,
    vx: int,
    vy: int,
) -> bool {
    exists|k: int|
        0 <= k < PIXEL_COUNT && screen[k] && #[trigger] sprite_covers(ram, i, n, vx, vy, k)
}

/// The part of the sprite drawn so far: its rows before `rows_done`, and
/// of row `rows_done` the columns before `cols_done`.
pub open spec fn covered_so_far(
    ram: Seq<u8>,
    i: int,
    n: int,
    vx: int,
    vy: int,
    rows_done: int,
    cols_done: int,
    k: int,
) -> bool {
    &&& sprite_covers(ram, i, n, vx, vy, k)
    &&& sprite_row(vy, k) < rows_done || (sprite_row(vy, k) == rows_done && sprite_col(vx, k)
        < cols_done)
}

/// Whether the part of the sprite drawn so far lies on a pixel that was
/// lit before the drawing began.
pub open spec fn collided_so_far(
    screen: Seq<bool>,
    ram: Seq<u8>,
    i: int,
    n: int,
    vx: int,
    vy: int,
    rows_done: int,
    cols_done: int,
) -> bool {
    exists|k: int|
        0 <= k < PIXEL_COUNT && screen[k] && #[trigger] covered_so_far(
            ram,
            i,
            n,
            vx,
            vy,
            rows_done,
            cols_done,
            k,
        )
}

/// Wrapping round a screen edge, seen from both sides: position `p`
/// holds sprite offset `c` from origin `v` exactly when `p` is `v + c`
/// wrapped.
proof fn lemma_wrap_columns(v: int, c: int, p: int)
    requires
        0 <= v < 256,
        0 <= c < WIDTH,
        0 <= p < WIDTH,
    ensures
        ((p - v) % (WIDTH as int) == c) <==> (p == (v + c) % (WIDTH as int)),
{
}

proof fn lemma_wrap_rows(v: int, c: int, p: int)
    requires
        0 <= v < 256,
        0 <= c < HEIGHT,
        0 <= p < HEIGHT,
    ensures
        ((p - v) % (HEIGHT as int) == c) <==> (p == (v + c) % (HEIGHT as int)),
{
}

/// Sprite pixel (`col`, `row`) falls on the screen at column
/// (`vx` + `col`) mod 64 and row (`vy` + `row`) mod 32, and on no other
/// position: a sprite never overlaps itself.
pub proof fn lemma_sprite_position(vx: int, vy: int, row: int, col: int)
    requires
        0 <= vx < 256,
        0 <= vy < 256,
        0 <= row < HEIGHT,
        0 <= col < WIDTH,
    ensures
        ({
            let at = pixel_index((vx + col) % (WIDTH as int), (vy + row) % (HEIGHT as int));
            &&& 0 <= at < PIXEL_COUNT
            &&& sprite_col(vx, at) == col
            &&& sprite_row(vy, at) == row
            &&& forall|k: int|
                0 <= k < PIXEL_COUNT && #[trigger] sprite_col(vx, k) == col && sprite_row(vy, k)
                    == row ==> k == at
        }),
{
    let x = (vx + col) % (WIDTH as int);
    let y = (vy + row) % (HEIGHT as int);
    let at = pixel_index(x, y);
    assert(at % (WIDTH as int) == x && at / (WIDTH as int) == y);
    lemma_wrap_columns(vx, col, x);
    lemma_wrap_rows(vy, row, y);
    assert forall|k: int|
        0 <= k < PIXEL_COUNT && #[trigger] sprite_col(vx, k) == col && sprite_row(vy, k)
            == row implies k == at by {
        let px = k % (WIDTH as int);
        let py = k / (WIDTH as int);
        lemma_wrap_columns(vx, col, px);
        lemma_wrap_rows(vy, row, py);
        assert(k == py * WIDTH + px);
    }
}

pub struct Framebuffer {
    /// The pixels, row by row from the top; `true` is lit.
    pub pixels: Vec<bool>,
    /// Whether the grid was written since the flag was last cleared.
    pub changed: bool,
}

/// A square for the host to paint: its top-left corner and side in window
/// coordinates, and whether it is lit.
#[derive(Clone, Copy, Debug, PartialEq, Eq)]
pub struct Tile {
    pub x: i32,
    pub y: i32,
    pub side: u32,
    pub lit: bool,
}

/// The tile that shows pixel number `k` of `pixels`.
pub open spec fn tile_at(pixels: Seq<bool>, k: int) -> Tile {
    Tile {
        x: ((k % WIDTH as int) * SCALE_FACTOR) as i32,
        y: ((k / WIDTH as int) * SCALE_FACTOR) as i32,
        side: SCALE_FACTOR,
        lit: pixels[k],
    }
}

impl Framebuffer {
    /// The grid holds exactly 64x32 pixels.
    pub open spec fn wf(&self) -> bool {
        self.pixels@.len() == PIXEL_COUNT
    }

    /// Whether pixel (`x`, `y`) is lit.
    pub open spec fn lit(&self, x: int, y: int) -> bool {
        self.pixels@[pixel_index(x, y)]
    }

    /// A dark screen with the changed flag down.
    pub fn new() -> (screen: Self)
        ensures
            screen.wf(),
            screen.pixels@ == blank_screen(),
            !screen.changed,
    {
        Self { pixels: vec![false; 2048], changed: false }
    }

    /// Whether the value is well formed, for callers that fill the public
    /// fields themselves.
    pub fn is_well_formed(&self) -> (ok: bool)
        ensures
            ok == self.wf(),
    {
        self.pixels.len() == PIXEL_COUNT
    }

    /// Turns every pixel off and raises the changed flag.
    pub fn clear(&mut self)
        requires
            old(self).wf(),
        ensures
            final(self).wf(),
            final(self).pixels@ == blank_screen(),
            final(self).changed,
    {
        let mut k: usize = 0;
        while k < PIXEL_COUNT
            invariant
                k <= PIXEL_COUNT,
                self.wf(),
                forall|j: int| 0 <= j < k ==> !self.pixels@[j],
            decreases PIXEL_COUNT - k,
        {
            self.pixels[k] = false;
            k += 1;
        }
        self.changed = true;
    }

    /// Whether pixel (`x`, `y`) is lit.
    pub fn pixel(&self, x: usize, y: usize) -> (on: bool)
        requires
            self.wf(),
            x < WIDTH,
            y < HEIGHT,
        ensures
            on == self.lit(x as int, y as int),
    {
        self.pixels[y * WIDTH + x]
    }

    /// Flips pixel (`x`, `y`), raises the changed flag, and reports whether
    /// the pixel was lit before, that is, whether the flip erased it.
    pub fn xor_pixel(&mut self, x: usize, y: usize) -> (erased: bool)
        requires
            old(self).wf(),
            x < WIDTH,
            y < HEIGHT,
        ensures
            final(self).wf(),
            erased == old(self).lit(x as int, y as int),
            final(self).pixels@ == old(self).pixels@.update(
                pixel_index(x as int, y as int),
                !erased,
            ),
            final(self).changed,
    {
        let k: usize = y * WIDTH + x;
        let erased: bool = self.pixels[k];
        self.pixels[k] = !erased;
        self.changed = true;
        erased
    }

    /// Draws the sprite whose `n` rows are the bytes of `ram` from address
    /// `i`, with its top-left corner at (`vx`, `vy`). Each set sprite pixel
    /// flips the screen pixel under it; what runs over an edge comes back in
    /// on the opposite one. Reports whether a lit pixel was erased, and
    /// raises the changed flag even when nothing was flipped.
    pub fn draw_sprite(&mut self, ram: &Vec<u8>, i: usize, n: usize, vx: u8, vy: u8) -> (collision:
        bool)
        requires
            old(self).wf(),
            n <= MAX_SPRITE_HEIGHT,
            n > 0 ==> i + n <= ram@.len(),
        ensures
            final(self).wf(),
            final(self).pixels@ == drawn_screen(
                old(self).pixels@,
                ram@,
                i as int,
                n as int,
                vx as int,
                vy as int,
            ),
            collision == draw_collides(
                old(self).pixels@,
                ram@,
                i as int,
                n as int,
                vx as int,
                vy as int,
            ),
            final(self).changed,
    {
        let ghost before = self.pixels@;
        let size: usize = ram.len();
        let mut collision: bool = false;
        let mut row: usize = 0;
        while row < n
            invariant
                row <= n <= MAX_SPRITE_HEIGHT,
                size == ram@.len(),
                n > 0 ==> i + n <= size,
                self.wf(),
                before.len() == PIXEL_COUNT,
                forall|k: int|
                    0 <= k < PIXEL_COUNT ==> self.pixels@[k] == (before[k] != covered_so_far(
                        ram@,
                        i as int,
                        n as int,
                        vx as int,
                        vy as int,
                        row as int,
                        0,
                        k,
                    )),
                collision == collided_so_far(
                    before,
                    ram@,
                    i as int,
                    n as int,
                    vx as int,
                    vy as int,
                    row as int,
                    0,
                ),
            decreases n - row,
        {
            let byte: u8 = ram[i + row];
            let y: usize = (vy as usize + row) % HEIGHT;
            let mut col: usize = 0;
            while col < SPRITE_WIDTH
                invariant
                    col <= SPRITE_WIDTH,
                    row < n <= MAX_SPRITE_HEIGHT,
                    i + n <= ram@.len(),
                    byte == ram@[i + row],
                    y == (vy + row) % (HEIGHT as int),
                    self.wf(),
                    before.len() == PIXEL_COUNT,
                    forall|k: int|
                        0 <= k < PIXEL_COUNT ==> self.pixels@[k] == (before[k] != covered_so_far(
                            ram@,
                            i as int,
                            n as int,
                            vx as int,
                            vy as int,
                            row as int,
                            col as int,
                            k,
                        )),
                    collision == collided_so_far(
                        before,
                        ram@,
                        i as int,
                        n as int,
                        vx as int,
                        vy as int,
                        row as int,
                        col as int,
                    ),
                decreases SPRITE_WIDTH - col,
            {
                let x: usize = (vx as usize + col) % WIDTH;
                let shift: u8 = 7 - col as u8;
                let set: bool = (byte >> shift) & 1u8 == 1u8;
                let ghost at = pixel_index(x as int, y as int);
                let ghost collided = collision;
                proof {
                    lemma_sprite_position(vx as int, vy as int, row as int, col as int);
                    assert(set == sprite_bit(byte, col as int));
                }
                if set {
                    let erased: bool = self.xor_pixel(x, y);
                    collision = collision || erased;
                }
                proof {
                    assert forall|k: int| 0 <= k < PIXEL_COUNT implies #[trigger] covered_so_far(
                        ram@,
                        i as int,
                        n as int,
                        vx as int,
                        vy as int,
                        row as int,
                        col + 1,
                        k,
                    ) == (covered_so_far(
                        ram@,
                        i as int,
                        n as int,
                        vx as int,
                        vy as int,
                        row as int,
                        col as int,
                        k,
                    ) || (k == at && set)) by {
                        if sprite_col(vx as int, k) == col && sprite_row(vy as int, k) == row {
                            assert(k == at);
                        }
                    }
                    if collided {
                        let k = choose|k: int|
                            0 <= k < PIXEL_COUNT && before[k] && #[trigger] covered_so_far(
                                ram@,
                                i as int,
                                n as int,
                                vx as int,
                                vy as int,
                                row as int,
                                col as int,
                                k,
                            );
                        assert(covered_so_far(
                            ram@,
                            i as int,
                            n as int,
                            vx as int,
                            vy as int,
                            row as int,
                            col + 1,
                            k,
                        ));
                    }
                    if set && before[at] {
                        assert(covered_so_far(
                            ram@,
                            i as int,
                            n as int,
                            vx as int,
                            vy as int,
                            row as int,
                            col + 1,
                            at,
                        ));
                    }
                }
                col += 1;
            }
            proof {
                assert forall|k: int| 0 <= k < PIXEL_COUNT implies #[trigger] covered_so_far(
                    ram@,
                    i as int,
                    n as int,
                    vx as int,
                    vy as int,
                    row + 1,
                    0,
                    k,
                ) == covered_so_far(
                    ram@,
                    i as int,
                    n as int,
                    vx as int,
                    vy as int,
                    row as int,
                    SPRITE_WIDTH as int,
                    k,
                ) by {}
                if collision {
                    let k = choose|k: int|
                        0 <= k < PIXEL_COUNT && before[k] && #[trigger] covered_so_far(
                            ram@,
                            i as int,
                            n as int,
                            vx as int,
                            vy as int,
                            row as int,
                            SPRITE_WIDTH as int,
                            k,
                        );
                    assert(covered_so_far(
                        ram@,
                        i as int,
                        n as int,
                        vx as int,
                        vy as int,
                        row + 1,
                        0,
                        k,
                    ));
                }
            }
            row += 1;
        }
        proof {
            assert forall|k: int| 0 <= k < PIXEL_COUNT implies #[trigger] covered_so_far(
                ram@,
                i as int,
                n as int,
                vx as int,
                vy as int,
                n as int,
                0,
                k,
            ) == sprite_covers(ram@, i as int, n as int, vx as int, vy as int, k) by {}
            if collision {
                let k = choose|k: int|
                    0 <= k < PIXEL_COUNT && before[k] && #[trigger] covered_so_far(
                        ram@,
                        i as int,
                        n as int,
                        vx as int,
                        vy as int,
                        n as int,
                        0,
                        k,
                    );
                assert(sprite_covers(ram@, i as int, n as int, vx as int, vy as int, k));
            }
        }
        self.changed = true;
        collision
    }

    /// One tile per pixel, row by row from the top, each scaled to window
    /// coordinates.
    pub fn tiles(&self) -> (tiles: Vec<Tile>)
        requires
            self.wf(),
        ensures
            tiles@.len() == PIXEL_COUNT,
            forall|k: int| 0 <= k < PIXEL_COUNT ==> tiles@[k] == tile_at(self.pixels@, k),
    {
        let mut tiles: Vec<Tile> = Vec::new();
        let mut y: usize = 0;
        while y < HEIGHT
            invariant
                y <= HEIGHT,
                self.wf(),
                tiles@.len() == y * WIDTH,
                forall|k: int| 0 <= k < tiles@.len() ==> tiles@[k] == tile_at(self.pixels@, k),
            decreases HEIGHT - y,
        {
            let mut x: usize = 0;
            while x < WIDTH
                invariant
                    x <= WIDTH,
                    y < HEIGHT,
                    self.wf(),
                    tiles@.len() == y * WIDTH + x,
                    forall|k: int|
                        0 <= k < tiles@.len() ==> tiles@[k] == tile_at(self.pixels@, k),
                decreases WIDTH - x,
            {
                let tile = Tile {
                    x: (x as u32 * SCALE_FACTOR) as i32,
                    y: (y as u32 * SCALE_FACTOR) as i32,
                    side: SCALE_FACTOR,
                    lit: self.pixels[y * WIDTH + x],
                };
                tiles.push(tile);
                x += 1;
            }
            y += 1;
        }
        tiles
    }
}

} // verus!
