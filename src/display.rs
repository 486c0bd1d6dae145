//! The monochrome display surface and the XOR sprite draw, as spec functions.
use vstd::prelude::*;

verus! {

/// Width of the display surface, in cells.
pub const WIDTH: usize = 64;

/// Height of the display surface, in cells.
pub const HEIGHT: usize = 32;

/// Number of cells of the display surface.
pub const CELLS: usize = 2048;

/// One cell of the display surface: column `x` (0..64), row `y` (0..32).
#[derive(Clone, Copy, Debug, PartialEq, Eq, Structural)]
pub struct Cell {
    pub x: u8,
    pub y: u8,
}

/// The cell at a row-major linear index.
pub open spec fn cell_of(t: int) -> Cell {
    Cell { x: (t % 64) as u8, y: (t / 64) as u8 }
}

/// The cells at a sequence of linear indices, in the same order.
pub open spec fn cells_of(ts: Seq<int>) -> Seq<Cell> {
    ts.map_values(|t: int| cell_of(t))
}

/// Whether column `c` (0 the leftmost, 7 the rightmost) of a sprite row is set.
pub open spec fn sprite_bit(row: u8, c: u8) -> bool {
    (row >> ((7 - c) as u8)) & 1u8 == 1u8
}

/// Linear index of the cell that column `c` of sprite row `r` covers when the
/// sprite is drawn at `(x, y)`. There is no wraparound: a column past the right
/// edge lands on the next row.
pub open spec fn pixel_index(x: u8, y: u8, r: int, c: int) -> int {
    x + c + (y + r) * 64
}

/// The cells toggled by the first `c` columns of sprite row `r`, left to right.
/// A cell whose linear index lies past the end of the display is left out.
pub open spec fn row_targets(row: u8, x: u8, y: u8, r: int, c: int) -> Seq<int>
    decreases c,
{
    if c <= 0 {
        Seq::empty()
    } else {
        let prev = row_targets(row, x, y, r, c - 1);
        let t = pixel_index(x, y, r, c - 1);
        if sprite_bit(row, (c - 1) as u8) && t < CELLS {
            prev.push(t)
        } else {
            prev
        }
    }
}

/// The cells toggled by the first `n` rows of `sprite` drawn at `(x, y)`, in
/// drawing order.
pub open spec fn sprite_targets(sprite: Seq<u8>, x: u8, y: u8, n: int) -> Seq<int>
    decreases n,
{
    if n <= 0 {
        Seq::empty()
    } else {
        sprite_targets(sprite, x, y, n - 1) + row_targets(sprite[n - 1], x, y, n - 1, 8)
    }
}

/// `d` with every cell listed in `ts` toggled.
pub open spec fn toggled(d: Seq<bool>, ts: Seq<int>) -> Seq<bool> {
    Seq::new(d.len(), |i: int| d[i] != ts.contains(i))
}

/// The cells of `ts`, in order, that are dark in `d`.
pub open spec fn dark_in(d: Seq<bool>, ts: Seq<int>) -> Seq<int>
    decreases ts.len(),
{
    if ts.len() == 0 {
        Seq::empty()
    } else {
        let prev = dark_in(d, ts.drop_last());
        if !d[ts.last()] {
            prev.push(ts.last())
        } else {
            prev
        }
    }
}

/// The cells of `ts`, in order, that are lit in `d`.
pub open spec fn lit_in(d: Seq<bool>, ts: Seq<int>) -> Seq<int>
    decreases ts.len(),
{
    if ts.len() == 0 {
        Seq::empty()
    } else {
        let prev = lit_in(d, ts.drop_last());
        if d[ts.last()] {
            prev.push(ts.last())
        } else {
            prev
        }
    }
}

/// The effect of drawing a sprite on a display: the new display, the cells
/// that were turned on and the cells that were turned off, in drawing order.
pub struct DrawResult {
    pub display: Seq<bool>,
    pub turned_on: Seq<int>,
    pub turned_off: Seq<int>,
}

/// XOR-draws the rows of `sprite` at `(x, y)` onto `d`.
pub open spec fn draw(d: Seq<bool>, sprite: Seq<u8>, x: u8, y: u8) -> DrawResult {
    let ts = sprite_targets(sprite, x, y, sprite.len() as int);
    DrawResult { display: toggled(d, ts), turned_on: dark_in(d, ts), turned_off: lit_in(d, ts) }
}

/// The cells `0..n` in order.
pub open spec fn every_index(n: int) -> Seq<int> {
    Seq::new(n as nat, |i: int| i)
}

/// Every cell of a row lies on that row's line of the display, left of column `c`.
pub proof fn lemma_row_targets_bounds(row: u8, x: u8, y: u8, r: int, c: int)
    requires
        0 <= r,
    ensures
        forall|i: int|
            0 <= i < row_targets(row, x, y, r, c).len() ==> {
                let t = #[trigger] row_targets(row, x, y, r, c)[i];
                &&& pixel_index(x, y, r, 0) <= t < pixel_index(x, y, r, c)
                &&& t < CELLS
            },
    decreases c,
{
    if c > 0 {
        let prev = row_targets(row, x, y, r, c - 1);
        lemma_row_targets_bounds(row, x, y, r, c - 1);
        assert forall|i: int| 0 <= i < row_targets(row, x, y, r, c).len() implies {
            let t = #[trigger] row_targets(row, x, y, r, c)[i];
            &&& pixel_index(x, y, r, 0) <= t < pixel_index(x, y, r, c)
            &&& t < CELLS
        } by {
            if i < prev.len() {
                assert(row_targets(row, x, y, r, c)[i] == prev[i]);
            }
        }
    }
}

/// The cells of the first `n` rows lie on the display, before the line of row `n`.
pub proof fn lemma_sprite_targets_bounds(sprite: Seq<u8>, x: u8, y: u8, n: int)
    requires
        0 <= n <= sprite.len(),
    ensures
        forall|i: int|
            0 <= i < sprite_targets(sprite, x, y, n).len() ==> {
                let t = #[trigger] sprite_targets(sprite, x, y, n)[i];
                &&& 0 <= t < CELLS
                &&& t < pixel_index(x, y, n, 0)
            },
    decreases n,
{
    if n > 0 {
        let prev = sprite_targets(sprite, x, y, n - 1);
        let row = row_targets(sprite[n - 1], x, y, n - 1, 8);
        lemma_sprite_targets_bounds(sprite, x, y, n - 1);
        lemma_row_targets_bounds(sprite[n - 1], x, y, n - 1, 8);
        assert forall|i: int| 0 <= i < sprite_targets(sprite, x, y, n).len() implies {
            let t = #[trigger] sprite_targets(sprite, x, y, n)[i];
            &&& 0 <= t < CELLS
            &&& t < pixel_index(x, y, n, 0)
        } by {
            if i < prev.len() {
                assert(sprite_targets(sprite, x, y, n)[i] == prev[i]);
            } else {
                assert(sprite_targets(sprite, x, y, n)[i] == row[i - prev.len()]);
            }
        }
    }
}

/// Toggling the same cells twice gives back the display.
pub proof fn lemma_toggled_twice(d: Seq<bool>, ts: Seq<int>)
    ensures
        toggled(toggled(d, ts), ts) == d,
{
    assert(toggled(toggled(d, ts), ts) =~= d);
}

/// Where every cell of `ts` has the opposite state in `e` and `d`, the cells
/// that are dark in `e` are the ones lit in `d`, and the other way round.
pub proof fn lemma_dark_lit_swap(d: Seq<bool>, e: Seq<bool>, ts: Seq<int>)
    requires
        forall|i: int| 0 <= i < ts.len() ==> e[#[trigger] ts[i]] != d[ts[i]],
    ensures
        dark_in(e, ts) == lit_in(d, ts),
        lit_in(e, ts) == dark_in(d, ts),
    decreases ts.len(),
{
    if ts.len() > 0 {
        let p = ts.drop_last();
        assert forall|i: int| 0 <= i < p.len() implies e[#[trigger] p[i]] != d[p[i]] by {
            assert(p[i] == ts[i]);
        }
        lemma_dark_lit_swap(d, e, p);
        assert(e[ts[ts.len() - 1]] != d[ts[ts.len() - 1]]);
    }
}

} // verus!
