use vstd::prelude::*;

verus! {

/// An RGB terminal color.
#[derive(Clone, Copy, Debug, PartialEq, Eq, Structural)]
pub struct Color(pub u8, pub u8, pub u8);

/// One terminal cell: a character, its foreground color and an optional background.
#[derive(Clone, Copy, Debug, PartialEq, Eq, Structural)]
pub struct Cell {
    pub ch: char,
    pub fg: Color,
    pub bg: Option<Color>,
}

/// A rendered frame: the tick it shows, its size, its text and its cells row by row.
#[derive(Clone, Debug)]
pub struct FrameSnapshot {
    pub tick: u64,
    pub width: u16,
    pub height: u16,
    pub text: String,
    pub cells: Vec<Vec<Cell>>,
}

/// A cell whose content differs between two frames.
#[derive(Clone, Copy, Debug)]
pub struct CellChange {
    pub x: u16,
    pub y: u16,
    pub old: Cell,
    pub new: Cell,
}

/// The cells that changed from one frame to the next.
#[derive(Clone, Debug)]
pub struct FrameDiff {
    pub from_tick: u64,
    pub to_tick: u64,
    pub changes: Vec<CellChange>,
}

pub open spec fn min_len(a: int, b: int) -> int {
    if a <= b {
        a
    } else {
        b
    }
}

/// Changes among the first `upto` cells of row `y`, left to right.
pub open spec fn row_diff(a: Seq<Cell>, b: Seq<Cell>, y: int, upto: int) -> Seq<CellChange>
    decreases upto,
{
    if upto <= 0 {
        Seq::empty()
    } else {
        let rest = row_diff(a, b, y, upto - 1);
        let x = upto - 1;
        if a[x] != b[x] {
            rest.push(CellChange { x: x as u16, y: y as u16, old: a[x], new: b[x] })
        } else {
            rest
        }
    }
}

/// Changes among the first `upto` rows, top to bottom; in each row only the
/// columns both frames have count.
pub open spec fn rows_diff(a: Seq<Seq<Cell>>, b: Seq<Seq<Cell>>, upto: int) -> Seq<CellChange>
    decreases upto,
{
    if upto <= 0 {
        Seq::empty()
    } else {
        let y = upto - 1;
        rows_diff(a, b, y) + row_diff(a[y], b[y], y, min_len(a[y].len() as int, b[y].len() as int))
    }
}

/// Every cell present in both frames whose content differs, in row-major order.
pub open spec fn frame_changes(a: Seq<Seq<Cell>>, b: Seq<Seq<Cell>>) -> Seq<CellChange> {
    rows_diff(a, b, min_len(a.len() as int, b.len() as int))
}

/// The rows of a snapshot as sequences of cells.
pub open spec fn grid(cells: Seq<Vec<Cell>>) -> Seq<Seq<Cell>> {
    cells.map_values(|row: Vec<Cell>| row@)
}

impl FrameSnapshot {
    /// Every cell that differs between this frame and `next`, with both contents.
    pub fn diff(&self, next: &FrameSnapshot) -> (d: FrameDiff)
        ensures
            d.from_tick == self.tick,
            d.to_tick == next.tick,
            d.changes@ == frame_changes(grid(self.cells@), grid(next.cells@)),
    {
        let ghost a = grid(self.cells@);
        let ghost b = grid(next.cells@);
        let mut changes: Vec<CellChange> = Vec::new();
        let rows = if self.cells.len() <= next.cells.len() {
            self.cells.len()
        } else {
            next.cells.len()
        };
        let mut y: usize = 0;
        while y < rows
            invariant
                a == grid(self.cells@),
                b == grid(next.cells@),
                rows == min_len(a.len() as int, b.len() as int),
                y <= rows,
                changes@ == rows_diff(a, b, y as int),
            decreases rows - y,
        {
            let old_row = &self.cells[y];
            let new_row = &next.cells[y];
            assert(a[y as int] == old_row@);
            assert(b[y as int] == new_row@);
            let cols = if old_row.len() <= new_row.len() {
                old_row.len()
            } else {
                new_row.len()
            };
            let ghost before = changes@;
            let mut x: usize = 0;
            while x < cols
                invariant
                    cols <= old_row@.len(),
                    cols <= new_row@.len(),
                    x <= cols,
                    changes@ == before + row_diff(old_row@, new_row@, y as int, x as int),
                decreases cols - x,
            {
                let old_cell = old_row[x];
                let new_cell = new_row[x];
                if old_cell != new_cell {
                    changes.push(CellChange { x: x as u16, y: y as u16, old: old_cell, new: new_cell });
                }
                proof {
                    assert(changes@ =~= before + row_diff(old_row@, new_row@, y as int, x + 1));
                }
                x = x + 1;
            }
            y = y + 1;
        }
        FrameDiff { from_tick: self.tick, to_tick: next.tick, changes }
    }
}

proof fn lemma_row_diff_same(r: Seq<Cell>, y: int, k: int)
    ensures
        row_diff(r, r, y, k) == Seq::<CellChange>::empty(),
    decreases k,
{
    if k > 0 {
        lemma_row_diff_same(r, y, k - 1);
    }
}

proof fn lemma_rows_diff_same(a: Seq<Seq<Cell>>, k: int)
    ensures
        rows_diff(a, a, k) == Seq::<CellChange>::empty(),
    decreases k,
{
    if k > 0 {
        lemma_rows_diff_same(a, k - 1);
        lemma_row_diff_same(a[k - 1], k - 1, min_len(a[k - 1].len() as int, a[k - 1].len() as int));
        assert(rows_diff(a, a, k - 1) + Seq::<CellChange>::empty() =~= Seq::<CellChange>::empty());
    }
}

/// Diffing a frame against an identical one finds no changes.
pub proof fn law_diff_identical_is_empty(a: Seq<Seq<Cell>>)
    ensures
        frame_changes(a, a) == Seq::<CellChange>::empty(),
{
    lemma_rows_diff_same(a, a.len() as int);
}

/// A reported change of cell `(x, y)`.
pub open spec fn reports(c: CellChange, a: Seq<Seq<Cell>>, b: Seq<Seq<Cell>>, x: int, y: int) -> bool {
    &&& c.x as int == x
    &&& c.y as int == y
    &&& c.old == a[y][x]
    &&& c.new == b[y][x]
}

/// Both frames have cell `(x, y)`.
pub open spec fn shared_cell(a: Seq<Seq<Cell>>, b: Seq<Seq<Cell>>, x: int, y: int) -> bool {
    0 <= y < a.len() && y < b.len() && 0 <= x < a[y].len() && x < b[y].len()
}

/// Frame coordinates fit the `u16` positions of a change.
pub open spec fn small_frame(a: Seq<Seq<Cell>>) -> bool {
    a.len() <= 0x10000 && forall|y: int| 0 <= y < a.len() ==> #[trigger] a[y].len() <= 0x10000
}

proof fn lemma_row_diff_exact(ra: Seq<Cell>, rb: Seq<Cell>, y: int, k: int)
    requires
        0 <= k <= ra.len(),
        k <= rb.len(),
        k <= 0x10000,
        0 <= y < 0x10000,
    ensures
        forall|i: int|
            0 <= i < row_diff(ra, rb, y, k).len() ==> {
                let c = #[trigger] row_diff(ra, rb, y, k)[i];
                &&& c.y as int == y
                &&& 0 <= c.x < k
                &&& c.old == ra[c.x as int]
                &&& c.new == rb[c.x as int]
                &&& c.old != c.new
            },
        forall|x: int|
            0 <= x < k && ra[x] != rb[x] ==> exists|i: int|
                0 <= i < row_diff(ra, rb, y, k).len() && (#[trigger] row_diff(ra, rb, y, k)[i]).x as int == x,
    decreases k,
{
    if k > 0 {
        lemma_row_diff_exact(ra, rb, y, k - 1);
        let rest = row_diff(ra, rb, y, k - 1);
        let cur = row_diff(ra, rb, y, k);
        assert forall|x: int| 0 <= x < k && ra[x] != rb[x] implies exists|i: int|
            0 <= i < cur.len() && (#[trigger] cur[i]).x as int == x by {
            if x < k - 1 {
                let i = choose|i: int| 0 <= i < rest.len() && (#[trigger] rest[i]).x as int == x;
                assert(cur[i] == rest[i]);
            } else {
                assert(cur[rest.len() as int].x as int == x);
            }
        }
        assert forall|i: int| 0 <= i < cur.len() implies {
            let c = #[trigger] cur[i];
            &&& c.y as int == y
            &&& 0 <= c.x < k
            &&& c.old == ra[c.x as int]
            &&& c.new == rb[c.x as int]
            &&& c.old != c.new
        } by {
            if i < rest.len() {
                assert(cur[i] == rest[i]);
            }
        }
    }
}

proof fn lemma_rows_diff_exact(a: Seq<Seq<Cell>>, b: Seq<Seq<Cell>>, k: int)
    requires
        0 <= k <= a.len(),
        k <= b.len(),
        small_frame(a),
    ensures
        forall|i: int|
            0 <= i < rows_diff(a, b, k).len() ==> {
                let c = #[trigger] rows_diff(a, b, k)[i];
                &&& 0 <= c.y < k
                &&& shared_cell(a, b, c.x as int, c.y as int)
                &&& reports(c, a, b, c.x as int, c.y as int)
                &&& c.old != c.new
            },
        forall|x: int, y: int|
            0 <= y < k && shared_cell(a, b, x, y) && a[y][x] != b[y][x] ==> exists|i: int|
                0 <= i < rows_diff(a, b, k).len() && reports(#[trigger] rows_diff(a, b, k)[i], a, b, x, y),
    decreases k,
{
    if k > 0 {
        let y = k - 1;
        lemma_rows_diff_exact(a, b, y);
        let cols = min_len(a[y].len() as int, b[y].len() as int);
        assert(a[y].len() <= 0x10000);
        lemma_row_diff_exact(a[y], b[y], y, cols);
        let rest = rows_diff(a, b, y);
        let row = row_diff(a[y], b[y], y, cols);
        let cur = rows_diff(a, b, k);
        assert(cur == rest + row);
        assert forall|i: int| 0 <= i < cur.len() implies {
            let c = #[trigger] cur[i];
            &&& 0 <= c.y < k
            &&& shared_cell(a, b, c.x as int, c.y as int)
            &&& reports(c, a, b, c.x as int, c.y as int)
            &&& c.old != c.new
        } by {
            if i < rest.len() {
                assert(cur[i] == rest[i]);
            } else {
                assert(cur[i] == row[i - rest.len()]);
            }
        }
        assert forall|x: int, yy: int|
            0 <= yy < k && shared_cell(a, b, x, yy) && a[yy][x] != b[yy][x] implies exists|i: int|
                0 <= i < cur.len() && reports(#[trigger] cur[i], a, b, x, yy) by {
            if yy < y {
                let i = choose|i: int| 0 <= i < rest.len() && reports(#[trigger] rest[i], a, b, x, yy);
                assert(cur[i] == rest[i]);
            } else {
                let j = choose|j: int| 0 <= j < row.len() && (#[trigger] row[j]).x as int == x;
                assert(cur[rest.len() + j] == row[j]);
            }
        }
    }
}

/// A diff reports exactly the cells present in both frames whose contents
/// differ, each with its position and both contents (for frames whose
/// coordinates fit in `u16`).
pub proof fn law_diff_reports_exactly_differences(a: Seq<Seq<Cell>>, b: Seq<Seq<Cell>>)
    requires
        small_frame(a),
    ensures
        forall|i: int|
            0 <= i < frame_changes(a, b).len() ==> {
                let c = #[trigger] frame_changes(a, b)[i];
                &&& shared_cell(a, b, c.x as int, c.y as int)
                &&& reports(c, a, b, c.x as int, c.y as int)
                &&& c.old != c.new
            },
        forall|x: int, y: int|
            shared_cell(a, b, x, y) && a[y][x] != b[y][x] ==> exists|i: int|
                0 <= i < frame_changes(a, b).len() && reports(#[trigger] frame_changes(a, b)[i], a, b, x, y),
{
    lemma_rows_diff_exact(a, b, min_len(a.len() as int, b.len() as int));
}

/// Frame `g` with change `c` applied: its cell takes the new content (a
/// change outside the frame does nothing).
pub open spec fn apply_change(g: Seq<Seq<Cell>>, c: CellChange) -> Seq<Seq<Cell>> {
    let (x, y) = (c.x as int, c.y as int);
    if y < g.len() && x < g[y].len() {
        g.update(y, g[y].update(x, c.new))
    } else {
        g
    }
}

/// Frame `g` with the changes `cs` applied in order.
pub open spec fn apply_changes(g: Seq<Seq<Cell>>, cs: Seq<CellChange>) -> Seq<Seq<Cell>>
    decreases cs.len(),
{
    if cs.len() == 0 {
        g
    } else {
        apply_change(apply_changes(g, cs.drop_last()), cs.last())
    }
}

/// Change `c` is about cell `(x, y)`.
pub open spec fn changes_cell(c: CellChange, x: int, y: int) -> bool {
    c.x as int == x && c.y as int == y
}

/// Applying changes keeps the frame's shape; a cell takes the new content of
/// one of the changes about it, or keeps its own when there is none.
proof fn lemma_apply_changes(g: Seq<Seq<Cell>>, cs: Seq<CellChange>)
    ensures
        apply_changes(g, cs).len() == g.len(),
        forall|y: int| 0 <= y < g.len() ==> #[trigger] apply_changes(g, cs)[y].len() == g[y].len(),
        forall|x: int, y: int|
            #![trigger apply_changes(g, cs)[y][x]]
            0 <= y < g.len() && 0 <= x < g[y].len() ==> {
                &&& (exists|j: int| 0 <= j < cs.len() && changes_cell(#[trigger] cs[j], x, y)) ==> exists|j: int|
                    0 <= j < cs.len() && changes_cell(#[trigger] cs[j], x, y) && apply_changes(g, cs)[y][x] == cs[j].new
                &&& (forall|j: int| 0 <= j < cs.len() ==> !changes_cell(#[trigger] cs[j], x, y)) ==> apply_changes(
                    g,
                    cs,
                )[y][x] == g[y][x]
            },
    decreases cs.len(),
{
    if cs.len() > 0 {
        let rest = cs.drop_last();
        let c = cs.last();
        lemma_apply_changes(g, rest);
        let r = apply_changes(g, rest);
        let n = apply_changes(g, cs);
        assert(n == apply_change(r, c));
        assert forall|y: int| 0 <= y < g.len() implies #[trigger] n[y].len() == g[y].len() by {
            assert(r[y].len() == g[y].len());
        }
        assert forall|x: int, y: int| #![trigger n[y][x]] 0 <= y < g.len() && 0 <= x < g[y].len() implies {
            &&& (exists|j: int| 0 <= j < cs.len() && changes_cell(#[trigger] cs[j], x, y)) ==> exists|j: int|
                0 <= j < cs.len() && changes_cell(#[trigger] cs[j], x, y) && n[y][x] == cs[j].new
            &&& (forall|j: int| 0 <= j < cs.len() ==> !changes_cell(#[trigger] cs[j], x, y)) ==> n[y][x] == g[y][x]
        } by {
            assert(r[y].len() == g[y].len());
            assert(r[y][x] == apply_changes(g, rest)[y][x]);
            if changes_cell(c, x, y) {
                assert(changes_cell(cs[cs.len() - 1], x, y));
                assert(n[y][x] == c.new);
            } else {
                assert(n[y][x] == r[y][x]);
                if exists|j: int| 0 <= j < cs.len() && changes_cell(#[trigger] cs[j], x, y) {
                    let j = choose|j: int| 0 <= j < cs.len() && changes_cell(#[trigger] cs[j], x, y);
                    assert(j < cs.len() - 1);
                    assert(rest[j] == cs[j]);
                    assert(changes_cell(rest[j], x, y));
                    let k = choose|k: int| 0 <= k < rest.len() && changes_cell(#[trigger] rest[k], x, y) && r[y][x] == rest[k].new;
                    assert(cs[k] == rest[k]);
                }
                if forall|j: int| 0 <= j < cs.len() ==> !changes_cell(#[trigger] cs[j], x, y) {
                    assert forall|j: int| 0 <= j < rest.len() implies !changes_cell(#[trigger] rest[j], x, y) by {
                        assert(rest[j] == cs[j]);
                    }
                }
            }
        }
    }
}

/// Applying the changes of a diff to the old frame gives the new frame (for
/// frames of the same shape whose coordinates fit in `u16`).
pub proof fn law_diff_rebuilds_next_frame(a: Seq<Seq<Cell>>, b: Seq<Seq<Cell>>)
    requires
        small_frame(a),
        a.len() == b.len(),
        forall|y: int| 0 <= y < a.len() ==> #[trigger] a[y].len() == b[y].len(),
    ensures
        apply_changes(a, frame_changes(a, b)) == b,
{
    let cs = frame_changes(a, b);
    law_diff_reports_exactly_differences(a, b);
    lemma_apply_changes(a, cs);
    let n = apply_changes(a, cs);
    assert forall|y: int| 0 <= y < b.len() implies #[trigger] n[y] == b[y] by {
        assert(n[y].len() == a[y].len());
        assert forall|x: int| 0 <= x < b[y].len() implies n[y][x] == b[y][x] by {
            assert(shared_cell(a, b, x, y));
            if exists|j: int| 0 <= j < cs.len() && changes_cell(#[trigger] cs[j], x, y) {
                let j = choose|j: int| 0 <= j < cs.len() && changes_cell(#[trigger] cs[j], x, y) && n[y][x] == cs[j].new;
                let c = cs[j];
                assert(reports(c, a, b, c.x as int, c.y as int));
            } else {
                if a[y][x] != b[y][x] {
                    let i = choose|i: int| 0 <= i < cs.len() && reports(#[trigger] cs[i], a, b, x, y);
                    assert(changes_cell(cs[i], x, y));
                }
            }
        }
        assert(n[y] =~= b[y]);
    }
    assert(n =~= b);
}

} // verus!
