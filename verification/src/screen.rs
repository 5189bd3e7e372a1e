//! The display: a 64x32 grid of pixels, each lit or dark.
//!
//! Sprites are drawn by exclusive or: a set sprite bit flips the pixel under
//! it, a clear bit leaves it alone. A draw collides when it turns a lit pixel
//! dark. Coordinates never wrap: a sprite has to fit into the grid.

use vstd::prelude::*;

verus! {

/// Pixels in a row.
pub const WIDTH: usize = 64;

/// Rows on the display.
pub const HEIGHT: usize = 32;

/// Bit `column` of a sprite row, counted from the most significant bit.
pub open spec fn sprite_bit(byte: u8, column: int) -> bool {
    (byte >> ((7 - column) as u8)) & 1u8 == 1u8
}

/// Whether the sprite `rows`, placed with its top left corner at `(x, y)`,
/// covers the pixel `(px, py)` with a set bit.
pub open spec fn sprite_covers(rows: Seq<u8>, x: int, y: int, px: int, py: int) -> bool {
    &&& y <= py < y + rows.len()
    &&& x <= px < x + 8
    &&& sprite_bit(rows[py - y], px - x)
}

/// A grid of `HEIGHT` rows, each of `WIDTH` pixels.
pub open spec fn is_grid(grid: Seq<Seq<bool>>) -> bool {
    &&& grid.len() == HEIGHT
    &&& forall|py: int| 0 <= py < HEIGHT ==> (#[trigger] grid[py]).len() == WIDTH
}

/// The grid with every pixel dark.
pub open spec fn blank_grid() -> Seq<Seq<bool>> {
    Seq::new(HEIGHT as nat, |py: int| Seq::new(WIDTH as nat, |px: int| false))
}

/// The grid after the sprite `rows` was drawn at `(x, y)`: each pixel under a
/// set bit is flipped.
pub open spec fn drawn(grid: Seq<Seq<bool>>, rows: Seq<u8>, x: int, y: int) -> Seq<Seq<bool>> {
    Seq::new(
        HEIGHT as nat,
        |py: int|
            Seq::new(WIDTH as nat, |px: int| grid[py][px] != sprite_covers(rows, x, y, px, py)),
    )
}

/// Whether drawing the sprite `rows` at `(x, y)` turns a lit pixel dark.
pub open spec fn collides(grid: Seq<Seq<bool>>, rows: Seq<u8>, x: int, y: int) -> bool {
    exists|px: int, py: int|
        0 <= px < WIDTH && 0 <= py < HEIGHT && grid[py][px] && #[trigger] sprite_covers(
            rows,
            x,
            y,
            px,
            py,
        )
}

/// Whether the sprite turns dark a lit pixel in a column left of `limit`.
spec fn collides_left_of(grid: Seq<Seq<bool>>, rows: Seq<u8>, x: int, y: int, limit: int) -> bool {
    exists|px: int, py: int|
        0 <= px < limit && 0 <= py < HEIGHT && grid[py][px] && #[trigger] sprite_covers(
            rows,
            x,
            y,
            px,
            py,
        )
}

/// Whether a sprite of `height` rows at `(x, y)` lies within the grid.
pub open spec fn fits(x: int, y: int, height: int) -> bool {
    x + 8 <= WIDTH && y + height <= HEIGHT
}

/// The pixel grid. Its view is the sequence of its rows, top first, each
/// row the sequence of its pixels, left first.
pub struct Screen {
    pixels: [[bool; WIDTH]; HEIGHT],
}

impl View for Screen {
    type V = Seq<Seq<bool>>;

    closed spec fn view(&self) -> Seq<Seq<bool>> {
        Seq::new(HEIGHT as nat, |py: int| self.pixels@[py]@)
    }
}

impl Screen {
    /// A display with every pixel dark.
    pub fn new() -> (screen: Screen)
        ensures
            screen@ == blank_grid(),
    {
        let screen = Screen { pixels: [[false; WIDTH]; HEIGHT] };
        assert(screen@ =~~= blank_grid());
        screen
    }

    /// The view is always a grid.
    pub broadcast proof fn lemma_is_grid(&self)
        ensures
            #[trigger] is_grid(self@),
    {
    }

    /// Whether the pixel in column `x` of row `y` is lit.
    pub fn pixel(&self, x: usize, y: usize) -> (lit: bool)
        requires
            x < WIDTH,
            y < HEIGHT,
        ensures
            is_grid(self@),
            lit == self@[y as int][x as int],
    {
        self.pixels[y][x]
    }

    /// Draws one sprite row with its leftmost bit at `(x, y)` and reports
    /// whether a lit pixel went dark.
    pub fn debug_draw_byte(&mut self, x: u8, y: u8, byte: u8) -> (flipped: bool)
        requires
            fits(x as int, y as int, 1),
        ensures
            final(self)@ == drawn(old(self)@, seq![byte], x as int, y as int),
            flipped == collides(old(self)@, seq![byte], x as int, y as int),
    {
        let ghost before = self@;
        let ghost rows = seq![byte];
        let row = y as usize;
        let mut flipped = false;
        let mut column: u8 = 0;
        while column < 8
            invariant
                column <= 8,
                row == y,
                rows == seq![byte],
                before == old(self)@,
                fits(x as int, y as int, 1),
                forall|px: int, py: int|
                    0 <= px < WIDTH && 0 <= py < HEIGHT ==> #[trigger] self@[py][px] == (
                    before[py][px] != (px < x + column && sprite_covers(
                        rows,
                        x as int,
                        y as int,
                        px,
                        py,
                    ))),
                flipped == collides_left_of(before, rows, x as int, y as int, x + column),
            decreases 8 - column,
        {
            let ghost prev = self@;
            let bit = (byte >> (7 - column)) & 1 == 1;
            let at = x as usize + column as usize;
            assert(sprite_covers(rows, x as int, y as int, at as int, row as int) == bit);
            if bit {
                let lit = self.pixels[row][at];
                assert(lit == prev[row as int][at as int]);
                assert(lit == before[row as int][at as int]);
                if lit {
                    flipped = true;
                }
                self.pixels[row][at] = !lit;
            }
            assert(forall|px: int, py: int|
                0 <= px < WIDTH && 0 <= py < HEIGHT ==> #[trigger] self@[py][px] == (prev[py][px]
                    != (bit && px == at && py == row)));
            assert(forall|px: int, py: int|
                px != at ==> (px < x + column + 1 && #[trigger] sprite_covers(rows, x as int, y as int, px, py)) == (px < x + column && sprite_covers(rows, x as int, y as int, px, py)));
            assert(forall|px: int, py: int|
                py != row ==> !#[trigger] sprite_covers(rows, x as int, y as int, px, py));
            proof {
                let here = before[row as int][at as int] && bit;
                let was = collides_left_of(before, rows, x as int, y as int, x + column);
                let now = collides_left_of(before, rows, x as int, y as int, x + column + 1);
                if was {
                    let (px, py) = choose|px: int, py: int|
                        0 <= px < x + column && 0 <= py < HEIGHT && before[py][px]
                            && #[trigger] sprite_covers(rows, x as int, y as int, px, py);
                    assert(px < x + column + 1 && sprite_covers(rows, x as int, y as int, px, py));
                }
                if here {
                    assert(sprite_covers(rows, x as int, y as int, at as int, row as int));
                }
                if now {
                    let (px, py) = choose|px: int, py: int|
                        0 <= px < x + column + 1 && 0 <= py < HEIGHT && before[py][px]
                            && #[trigger] sprite_covers(rows, x as int, y as int, px, py);
                    if px != at {
                        assert(px < x + column && sprite_covers(rows, x as int, y as int, px, py));
                    }
                }
                assert(now == (was || here));
            }
            column += 1;
        }
        assert(self@ =~~= drawn(before, rows, x as int, y as int));
        assert(flipped == collides(before, rows, x as int, y as int)) by {
            if flipped {
                let (px, py) = choose|px: int, py: int|
                    0 <= px < x + 8 && 0 <= py < HEIGHT && before[py][px]
                        && #[trigger] sprite_covers(rows, x as int, y as int, px, py);
                assert(px < WIDTH && sprite_covers(rows, x as int, y as int, px, py));
            }
            if collides(before, rows, x as int, y as int) {
                let (px, py) = choose|px: int, py: int|
                    0 <= px < WIDTH && 0 <= py < HEIGHT && before[py][px]
                        && #[trigger] sprite_covers(rows, x as int, y as int, px, py);
                assert(px < x + 8 && sprite_covers(rows, x as int, y as int, px, py));
            }
        }
        flipped
    }

    /// Draws the sprite `sprite`, one byte per row, with its top left corner
    /// at `(x, y)` and reports whether a lit pixel went dark.
    pub fn draw_sprite(&mut self, x: u8, y: u8, sprite: &[u8]) -> (collided: bool)
        requires
            fits(x as int, y as int, sprite@.len() as int),
        ensures
            final(self)@ == drawn(old(self)@, sprite@, x as int, y as int),
            collided == collides(old(self)@, sprite@, x as int, y as int),
    {
        let ghost before = self@;
        let mut collided = false;
        let mut done: usize = 0;
        proof {
            lemma_draw_nothing(before, x as int, y as int);
            assert(sprite@.take(0) =~= Seq::<u8>::empty());
        }
        while done < sprite.len()
            invariant
                done <= sprite@.len(),
                before == old(self)@,
                is_grid(before),
                fits(x as int, y as int, sprite@.len() as int),
                self@ == drawn(before, sprite@.take(done as int), x as int, y as int),
                collided == collides(before, sprite@.take(done as int), x as int, y as int),
            decreases sprite@.len() - done,
        {
            let byte = sprite[done];
            proof {
                lemma_draw_next_row(before, sprite@.take(done as int), byte, x as int, y as int);
                assert(sprite@.take(done as int).push(byte) =~= sprite@.take(done + 1));
            }
            let flipped = self.debug_draw_byte(x, y + done as u8, byte);
            collided = collided || flipped;
            done += 1;
        }
        assert(sprite@.take(done as int) =~= sprite@);
        collided
    }

    /// Turns every pixel dark.
    pub fn clear_display(&mut self)
        ensures
            final(self)@ == blank_grid(),
    {
        self.pixels = [[false; WIDTH]; HEIGHT];
        assert(self@ =~~= blank_grid());
    }
}

impl Default for Screen {
    fn default() -> (screen: Screen)
        ensures
            screen@ == blank_grid(),
    {
        Screen::new()
    }
}

/// Drawing a sprite without rows changes nothing and collides with nothing.
pub proof fn lemma_draw_nothing(grid: Seq<Seq<bool>>, x: int, y: int)
    requires
        is_grid(grid),
    ensures
        drawn(grid, Seq::<u8>::empty(), x, y) == grid,
        !collides(grid, Seq::<u8>::empty(), x, y),
{
    assert(drawn(grid, Seq::<u8>::empty(), x, y) =~~= grid);
}

/// Drawing a sprite is drawing all its rows but the last, then the last row
/// one line below them; it collides when either of the two draws does.
pub proof fn lemma_draw_next_row(grid: Seq<Seq<bool>>, rows: Seq<u8>, byte: u8, x: int, y: int)
    requires
        is_grid(grid),
    ensures
        drawn(grid, rows.push(byte), x, y) == drawn(
            drawn(grid, rows, x, y),
            seq![byte],
            x,
            y + rows.len(),
        ),
        collides(grid, rows.push(byte), x, y) == (collides(grid, rows, x, y) || collides(
            drawn(grid, rows, x, y),
            seq![byte],
            x,
            y + rows.len(),
        )),
{
    let all = rows.push(byte);
    let last = seq![byte];
    let below = y + rows.len();
    let mid = drawn(grid, rows, x, y);
    assert forall|px: int, py: int|
        sprite_covers(all, x, y, px, py) == (sprite_covers(rows, x, y, px, py) || sprite_covers(
            last,
            x,
            below,
            px,
            py,
        )) by {}
    assert forall|px: int, py: int|
        !(sprite_covers(rows, x, y, px, py) && sprite_covers(last, x, below, px, py)) by {}
    assert(drawn(grid, all, x, y) =~~= drawn(mid, last, x, below));
    if collides(grid, all, x, y) {
        let (px, py) = choose|px: int, py: int|
            0 <= px < WIDTH && 0 <= py < HEIGHT && grid[py][px] && #[trigger] sprite_covers(
                all,
                x,
                y,
                px,
                py,
            );
        if sprite_covers(rows, x, y, px, py) {
        } else {
            assert(sprite_covers(last, x, below, px, py));
            assert(mid[py][px] == grid[py][px]);
        }
    }
    if collides(grid, rows, x, y) {
        let (px, py) = choose|px: int, py: int|
            0 <= px < WIDTH && 0 <= py < HEIGHT && grid[py][px] && #[trigger] sprite_covers(
                rows,
                x,
                y,
                px,
                py,
            );
        assert(sprite_covers(all, x, y, px, py));
    }
    if collides(mid, last, x, below) {
        let (px, py) = choose|px: int, py: int|
            0 <= px < WIDTH && 0 <= py < HEIGHT && mid[py][px] && #[trigger] sprite_covers(
                last,
                x,
                below,
                px,
                py,
            );
        assert(mid[py][px] == grid[py][px]);
        assert(sprite_covers(all, x, y, px, py));
    }
}

/// Drawing the same sprite twice at the same place restores the grid.
pub proof fn lemma_draw_twice(grid: Seq<Seq<bool>>, rows: Seq<u8>, x: int, y: int)
    requires
        is_grid(grid),
    ensures
        drawn(drawn(grid, rows, x, y), rows, x, y) == grid,
{
    assert(drawn(drawn(grid, rows, x, y), rows, x, y) =~~= grid);
}

/// On a grid without a lit pixel no sprite collides; drawn there a second
/// time, a sprite collides exactly if it covers a pixel of the grid.
pub proof fn lemma_redraw_collides(rows: Seq<u8>, x: int, y: int)
    ensures
        !collides(blank_grid(), rows, x, y),
        collides(drawn(blank_grid(), rows, x, y), rows, x, y) == exists|px: int, py: int|
            0 <= px < WIDTH && 0 <= py < HEIGHT && #[trigger] sprite_covers(rows, x, y, px, py),
{
    let once = drawn(blank_grid(), rows, x, y);
    if collides(once, rows, x, y) {
        let (px, py) = choose|px: int, py: int|
            0 <= px < WIDTH && 0 <= py < HEIGHT && once[py][px] && #[trigger] sprite_covers(
                rows,
                x,
                y,
                px,
                py,
            );
        assert(sprite_covers(rows, x, y, px, py));
    }
    if exists|px: int, py: int|
        0 <= px < WIDTH && 0 <= py < HEIGHT && #[trigger] sprite_covers(rows, x, y, px, py) {
        let (px, py) = choose|px: int, py: int|
            0 <= px < WIDTH && 0 <= py < HEIGHT && #[trigger] sprite_covers(rows, x, y, px, py);
        assert(once[py][px] && sprite_covers(rows, x, y, px, py));
    }
}

} // verus!
