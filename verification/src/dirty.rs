use vstd::prelude::*;

verus! {

/// Abstract state of a [`DirtyMap`]: its dimensions, whether everything is
/// dirty, and the set of individually marked in-bounds tiles.
pub struct DirtyView {
    pub width: nat,
    pub height: nat,
    pub all: bool,
    pub marked: Set<(int, int)>,
}

impl DirtyView {
    /// Whether tile `(x, y)` must be redrawn.
    pub open spec fn is_dirty(self, x: int, y: int) -> bool {
        self.all || self.marked.contains((x, y))
    }

    pub open spec fn in_bounds(self, x: int, y: int) -> bool {
        0 <= x < self.width && 0 <= y < self.height
    }

    /// After marking tile `(x, y)`; tiles off the map are ignored.
    pub open spec fn with_mark(self, x: int, y: int) -> DirtyView {
        DirtyView {
            marked: if self.in_bounds(x, y) {
                self.marked.insert((x, y))
            } else {
                self.marked
            },
            ..self
        }
    }

    /// After marking the in-bounds part of the `w` x `h` rectangle at `(x, y)`.
    pub open spec fn with_rect(self, x: int, y: int, w: int, h: int) -> DirtyView {
        DirtyView {
            marked: self.marked.union(
                Set::new(|p: (int, int)| x <= p.0 < x + w && y <= p.1 < y + h && self.in_bounds(p.0, p.1)),
            ),
            ..self
        }
    }

    /// After marking everything dirty.
    pub open spec fn with_all(self) -> DirtyView {
        DirtyView { all: true, ..self }
    }

    /// After a render pass reset: nothing dirty.
    pub open spec fn cleared(self) -> DirtyView {
        DirtyView { all: false, marked: Set::empty(), ..self }
    }
}

/// A fresh map is entirely dirty, so the first frame draws everything.
pub proof fn law_fresh_map_all_dirty(width: nat, height: nat, x: int, y: int)
    ensures
        (DirtyView { width, height, all: true, marked: Set::empty() }).is_dirty(x, y),
{
}

/// After a reset nothing is dirty; marking a tile then makes exactly that tile
/// dirty (if it is on the map).
pub proof fn law_clear_then_mark(d: DirtyView, x: int, y: int, qx: int, qy: int)
    ensures
        !d.cleared().is_dirty(qx, qy),
        d.cleared().with_mark(x, y).is_dirty(qx, qy) <==> (qx == x && qy == y && d.in_bounds(x, y)),
{
}

/// Marking a tile changes no other tile, and tiles off the map are never marked.
pub proof fn law_mark_is_local(d: DirtyView, x: int, y: int, qx: int, qy: int)
    ensures
        d.with_mark(x, y).is_dirty(qx, qy) == (d.is_dirty(qx, qy) || (qx == x && qy == y && d.in_bounds(x, y))),
{
}

/// Marking a rectangle makes dirty exactly its tiles on the map, as marking
/// them one by one would.
pub proof fn law_mark_rect_is_marks(d: DirtyView, x: int, y: int, w: int, h: int, qx: int, qy: int)
    ensures
        d.with_rect(x, y, w, h).is_dirty(qx, qy) == (d.is_dirty(qx, qy) || (x <= qx < x + w && y <= qy < y + h
            && d.in_bounds(qx, qy))),
        x <= qx < x + w && y <= qy < y + h ==> d.with_rect(x, y, w, h).is_dirty(qx, qy) == d.with_mark(
            qx,
            qy,
        ).is_dirty(qx, qy),
{
}

/// Marking everything overrides the per-tile state, on and off the map.
pub proof fn law_mark_all_overrides(d: DirtyView, qx: int, qy: int)
    ensures
        d.with_all().is_dirty(qx, qy),
        d.with_all().cleared() == d.cleared(),
{
}

/// An operation on a redraw map.
pub enum DirtyOp {
    Mark(usize, usize),
    MarkRect(usize, usize, usize, usize),
    MarkAll,
    Clear,
}

/// The state after operation `op`, as each operation's contract gives it.
pub open spec fn apply_op(d: DirtyView, op: DirtyOp) -> DirtyView {
    match op {
        DirtyOp::Mark(x, y) => d.with_mark(x as int, y as int),
        DirtyOp::MarkRect(x, y, w, h) => d.with_rect(x as int, y as int, w as int, h as int),
        DirtyOp::MarkAll => d.with_all(),
        DirtyOp::Clear => d.cleared(),
    }
}

/// The state after the operations `ops`, in order.
pub open spec fn apply_ops(d: DirtyView, ops: Seq<DirtyOp>) -> DirtyView
    decreases ops.len(),
{
    if ops.len() == 0 {
        d
    } else {
        apply_op(apply_ops(d, ops.drop_last()), ops.last())
    }
}

/// Index of the last reset among `ops`, or -1 when there is none.
pub open spec fn last_clear(ops: Seq<DirtyOp>) -> int
    decreases ops.len(),
{
    if ops.len() == 0 {
        -1
    } else if ops.last() is Clear {
        ops.len() - 1
    } else {
        last_clear(ops.drop_last())
    }
}

/// Operation `op` marks tile `(a, b)` by itself.
pub open spec fn covers(op: DirtyOp, a: int, b: int) -> bool {
    match op {
        DirtyOp::Mark(x, y) => a == x && b == y,
        DirtyOp::MarkRect(x, y, w, h) => x <= a < x + w && y <= b < y + h,
        _ => false,
    }
}

/// Whether tile `(a, b)` of a fresh `width` x `height` map is dirty after
/// `ops`: everything is dirty when no reset happened or everything was marked
/// since the last one; otherwise exactly the tiles on the map that a mark or
/// rectangle since the last reset covered.
pub open spec fn dirty_after_ops(width: nat, height: nat, ops: Seq<DirtyOp>, a: int, b: int) -> bool {
    let lc = last_clear(ops);
    ||| lc < 0
    ||| (exists|k: int| lc < k < ops.len() && #[trigger] ops[k] is MarkAll)
    ||| (0 <= a < width && 0 <= b < height && exists|k: int| lc < k < ops.len() && covers(#[trigger] ops[k], a, b))
}

proof fn lemma_last_clear_bounds(ops: Seq<DirtyOp>)
    ensures
        -1 <= last_clear(ops) < ops.len(),
        last_clear(ops) >= 0 ==> ops[last_clear(ops)] is Clear,
        forall|k: int| last_clear(ops) < k < ops.len() ==> !(#[trigger] ops[k] is Clear),
    decreases ops.len(),
{
    if ops.len() > 0 {
        lemma_last_clear_bounds(ops.drop_last());
        assert forall|k: int| last_clear(ops) < k < ops.len() implies !(#[trigger] ops[k] is Clear) by {
            if k < ops.len() - 1 {
                assert(ops[k] == ops.drop_last()[k]);
            }
        }
    }
}

/// What is dirty after any sequence of operations on a fresh map: a new map
/// is all dirty and stays so until a reset; after the last reset, marking
/// everything makes all tiles dirty again, and otherwise exactly the tiles on
/// the map that a later mark or rectangle covered are dirty.
pub proof fn law_dirty_after_any_operations(width: nat, height: nat, ops: Seq<DirtyOp>, a: int, b: int)
    ensures
        apply_ops(DirtyView { width, height, all: true, marked: Set::empty() }, ops).is_dirty(a, b)
            == dirty_after_ops(width, height, ops, a, b),
        apply_ops(DirtyView { width, height, all: true, marked: Set::empty() }, ops).width == width,
        apply_ops(DirtyView { width, height, all: true, marked: Set::empty() }, ops).height == height,
        forall|p: (int, int)|
            #[trigger] apply_ops(DirtyView { width, height, all: true, marked: Set::empty() }, ops).marked.contains(p)
                ==> 0 <= p.0 < width && 0 <= p.1 < height,
    decreases ops.len(),
{
    let d0 = DirtyView { width, height, all: true, marked: Set::empty() };
    if ops.len() > 0 {
        let rest = ops.drop_last();
        law_dirty_after_any_operations(width, height, rest, a, b);
        lemma_last_clear_bounds(ops);
        lemma_last_clear_bounds(rest);
        let prev = apply_ops(d0, rest);
        assert forall|p: (int, int)| #[trigger] prev.marked.contains(p) implies 0 <= p.0 < width && 0 <= p.1 < height by {
            law_dirty_after_any_operations(width, height, rest, p.0, p.1);
        }
        let n = ops.len() - 1;
        let op = ops.last();
        assert(forall|k: int| 0 <= k < n ==> ops[k] == rest[k]);
        if op is Clear {
            assert(last_clear(ops) == n);
        } else {
            assert(last_clear(ops) == last_clear(rest));
            let lc = last_clear(ops);
            if op is MarkAll {
                assert(ops[n] is MarkAll);
            } else {
                if dirty_after_ops(width, height, rest, a, b) {
                    if exists|k: int| lc < k < rest.len() && #[trigger] rest[k] is MarkAll {
                        let k = choose|k: int| lc < k < rest.len() && #[trigger] rest[k] is MarkAll;
                        assert(ops[k] is MarkAll);
                    }
                    if 0 <= a < width && 0 <= b < height && exists|k: int| lc < k < rest.len() && covers(#[trigger] rest[k], a, b) {
                        let k = choose|k: int| lc < k < rest.len() && covers(#[trigger] rest[k], a, b);
                        assert(covers(ops[k], a, b));
                    }
                }
                if dirty_after_ops(width, height, ops, a, b) && lc >= 0 {
                    if exists|k: int| lc < k < ops.len() && #[trigger] ops[k] is MarkAll {
                        let k = choose|k: int| lc < k < ops.len() && #[trigger] ops[k] is MarkAll;
                        assert(k < n);
                        assert(rest[k] is MarkAll);
                    } else {
                        let k = choose|k: int| lc < k < ops.len() && covers(#[trigger] ops[k], a, b);
                        if k < n {
                            assert(covers(rest[k], a, b));
                        } else {
                            assert(covers(op, a, b));
                        }
                    }
                }
            }
        }
    }
}

/// World-space dirty tileset for skipping unchanged tiles during rendering.
///
/// One bit per world tile. When a tile is marked dirty, the render pass will
/// recompute its appearance. Clean tiles are skipped.
pub struct DirtyMap {
    /// Bitset: one u64 holds 64 tile flags.
    bits: Vec<u64>,
    width: usize,
    height: usize,
    /// When true, skip per-tile checks: everything is dirty.
    all_dirty: bool,
}

/// Whether bit `b` of `word` is set.
pub open spec fn word_bit(word: u64, b: int) -> bool {
    (word >> (b as u64)) & 1u64 == 1u64
}

proof fn lemma_bit_set(w: u64, b: u64, c: u64)
    requires
        b < 64,
        c < 64,
    ensures
        ((w | (1u64 << b)) >> c) & 1u64 == 1u64 <==> (b == c || (w >> c) & 1u64 == 1u64),
{
    assert(((w | (1u64 << b)) >> c) & 1u64 == 1u64 <==> (b == c || (w >> c) & 1u64 == 1u64))
        by (bit_vector)
        requires
            b < 64,
            c < 64,
    ;
}

proof fn lemma_zero_word(c: u64)
    requires
        c < 64,
    ensures
        (0u64 >> c) & 1u64 != 1u64,
{
    assert((0u64 >> c) & 1u64 != 1u64) by (bit_vector);
}

proof fn lemma_index_bounds(x: int, y: int, w: int, h: int)
    requires
        0 <= x < w,
        0 <= y < h,
    ensures
        0 <= y * w + x < w * h,
{
    assert(0 <= y * w) by (nonlinear_arith)
        requires
            0 <= y,
            0 <= w,
    ;
    assert(y * w + x < w * h) by (nonlinear_arith)
        requires
            0 <= x < w,
            0 <= y < h,
    ;
}

proof fn lemma_index_injective(x1: int, y1: int, x2: int, y2: int, w: int)
    requires
        0 <= x1 < w,
        0 <= x2 < w,
        0 <= y1,
        0 <= y2,
        y1 * w + x1 == y2 * w + x2,
    ensures
        x1 == x2,
        y1 == y2,
{
    if y1 < y2 {
        assert(y1 * w + w <= y2 * w) by (nonlinear_arith)
            requires
                y1 < y2,
                0 <= w,
        ;
    } else if y2 < y1 {
        assert(y2 * w + w <= y1 * w) by (nonlinear_arith)
            requires
                y2 < y1,
                0 <= w,
        ;
    }
}

impl View for DirtyMap {
    type V = DirtyView;

    closed spec fn view(&self) -> DirtyView {
        DirtyView {
            width: self.width as nat,
            height: self.height as nat,
            all: self.all_dirty,
            marked: Set::new(
                |p: (int, int)|
                    0 <= p.0 < self.width && 0 <= p.1 < self.height && self.bit(
                        p.1 * self.width + p.0,
                    ),
            ),
        }
    }
}

impl DirtyMap {
    /// The internal shape is consistent: one bit per tile, rounded up to whole words.
    pub closed spec fn wf(&self) -> bool {
        &&& self.width * self.height + 63 <= usize::MAX
        &&& self.bits@.len() == (self.width * self.height + 63) / 64
    }

    spec fn bit(&self, i: int) -> bool {
        word_bit(self.bits@[i / 64], i % 64)
    }

    pub fn new(width: usize, height: usize) -> (dm: Self)
        requires
            width * height + 63 <= usize::MAX,
        ensures
            dm.wf(),
            dm@.width == width,
            dm@.height == height,
            dm@.all,
            dm@.marked == Set::<(int, int)>::empty(),
    {
        let num_bits = width * height;
        let num_words = (num_bits + 63) / 64;
        let dm = Self {
            bits: vec![0u64; num_words],
            width,
            height,
            // First frame must draw everything.
            all_dirty: true,
        };
        proof {
            assert forall|p: (int, int)| !dm@.marked.contains(p) by {
                if 0 <= p.0 < width && 0 <= p.1 < height {
                    let i = p.1 * width + p.0;
                    lemma_index_bounds(p.0, p.1, width as int, height as int);
                    assert(dm.bits@[i / 64] == 0);
                    lemma_zero_word((i % 64) as u64);
                }
            }
            assert(dm@.marked =~= Set::<(int, int)>::empty());
        }
        dm
    }

    /// Set the bit of tile index `idx`, leaving every other bit as it was.
    fn set_bit(&mut self, idx: usize)
        requires
            old(self).wf(),
            idx < old(self).width * old(self).height,
        ensures
            final(self).wf(),
            final(self).width == old(self).width,
            final(self).height == old(self).height,
            final(self).all_dirty == old(self).all_dirty,
            forall|i: int|
                0 <= i < old(self).width * old(self).height ==> #[trigger] final(self).bit(i) == (
                i == idx || old(self).bit(i)),
    {
        let word = idx / 64;
        let b = (idx % 64) as u64;
        let ghost before = self.bits@;
        self.bits.set(word, self.bits[word] | (1u64 << b));
        proof {
            assert forall|i: int|
                0 <= i < old(self).width * old(self).height implies #[trigger] self.bit(i) == (i
                == idx || old(self).bit(i)) by {
                if i / 64 == word as int {
                    lemma_bit_set(before[word as int], b, (i % 64) as u64);
                }
            }
        }
    }

    /// Mark a single world tile as needing redraw.
    pub fn mark(&mut self, x: usize, y: usize)
        requires
            old(self).wf(),
        ensures
            final(self).wf(),
            final(self)@ == old(self)@.with_mark(x as int, y as int),
    {
        if x < self.width && y < self.height {
            proof {
                lemma_index_bounds(x as int, y as int, self.width as int, self.height as int);
            }
            let idx = y * self.width + x;
            self.set_bit(idx);
            proof {
                let w = self.width as int;
                let h = self.height as int;
                assert forall|p: (int, int)|
                    #![trigger self@.marked.contains(p)]
                    self@.marked.contains(p) == old(self)@.marked.insert(
                        (x as int, y as int),
                    ).contains(p) by {
                    if 0 <= p.0 < w && 0 <= p.1 < h {
                        lemma_index_bounds(p.0, p.1, w, h);
                        if p.1 * w + p.0 == idx as int {
                            lemma_index_injective(p.0, p.1, x as int, y as int, w);
                        }
                    }
                }
                assert(self@.marked =~= old(self)@.marked.insert((x as int, y as int)));
            }
        }
    }

    /// Mark a rectangular region of world tiles as dirty.
    pub fn mark_rect(&mut self, x: usize, y: usize, w: usize, h: usize)
        requires
            old(self).wf(),
            x + w <= usize::MAX,
            y + h <= usize::MAX,
        ensures
            final(self).wf(),
            final(self)@ == old(self)@.with_rect(x as int, y as int, w as int, h as int),
    {
        let x_end = if x + w < self.width {
            x + w
        } else {
            self.width
        };
        let y_end = if y + h < self.height {
            y + h
        } else {
            self.height
        };
        let mut ty = y;
        while ty < y_end
            invariant
                self.wf(),
                self.width == old(self).width,
                self.height == old(self).height,
                self.all_dirty == old(self).all_dirty,
                x_end == if x + w < self.width { (x + w) as usize } else { self.width },
                y_end == if y + h < self.height { (y + h) as usize } else { self.height },
                y <= ty,
                ty <= y_end || ty == y,
                self@.marked == old(self)@.marked.union(
                    Set::new(|p: (int, int)| x <= p.0 < x_end && y <= p.1 < ty),
                ),
            decreases y_end - ty,
        {
            let mut tx = x;
            while tx < x_end
                invariant
                    self.wf(),
                    self.width == old(self).width,
                    self.height == old(self).height,
                    self.all_dirty == old(self).all_dirty,
                    x_end <= self.width,
                    y <= ty < y_end,
                    y_end <= self.height,
                    x <= tx,
                    tx <= x_end || tx == x,
                    self@.marked == old(self)@.marked.union(
                        Set::new(
                            |p: (int, int)|
                                (x <= p.0 < x_end && y <= p.1 < ty) || (x <= p.0 < tx && p.1
                                    == ty),
                        ),
                    ),
                decreases x_end - tx,
            {
                self.mark(tx, ty);
                proof {
                    assert(self@.marked =~= old(self)@.marked.union(
                        Set::new(
                            |p: (int, int)|
                                (x <= p.0 < x_end && y <= p.1 < ty) || (x <= p.0 < tx + 1 && p.1
                                    == ty),
                        ),
                    ));
                }
                tx = tx + 1;
            }
            proof {
                assert(self@.marked =~= old(self)@.marked.union(
                    Set::new(|p: (int, int)| x <= p.0 < x_end && y <= p.1 < ty + 1),
                ));
            }
            ty = ty + 1;
        }
        proof {
            assert(Set::new(|p: (int, int)| x <= p.0 < x_end && y <= p.1 < ty) =~= Set::new(
                |p: (int, int)| x <= p.0 < x + w && y <= p.1 < y + h && old(self)@.in_bounds(p.0, p.1),
            ));
        }
    }

    /// Mark everything dirty (e.g. camera scroll, mode toggle).
    pub fn mark_all(&mut self)
        requires
            old(self).wf(),
        ensures
            final(self).wf(),
            final(self)@ == old(self)@.with_all(),
    {
        self.all_dirty = true;
        proof {
            assert(self@.marked =~= old(self)@.marked);
        }
    }

    /// Check whether a world tile needs redraw.
    pub fn is_dirty(&self, x: usize, y: usize) -> (r: bool)
        requires
            self.wf(),
        ensures
            r == self@.is_dirty(x as int, y as int),
            !self@.in_bounds(x as int, y as int) ==> r == self@.all,
    {
        if self.all_dirty {
            return true;
        }
        if x >= self.width || y >= self.height {
            return false;
        }
        proof {
            lemma_index_bounds(x as int, y as int, self.width as int, self.height as int);
        }
        let idx = y * self.width + x;
        let b = (idx % 64) as u64;
        let word = self.bits[idx / 64];
        let r = (word >> b) & 1 != 0;
        proof {
            assert(((word >> b) & 1u64 != 0u64) == ((word >> b) & 1u64 == 1u64)) by (bit_vector);
        }
        r
    }

    /// Only tiles on the map are ever marked one by one: a tile off the map
    /// is dirty exactly when everything is.
    pub proof fn law_marked_tiles_on_map(&self)
        ensures
            forall|p: (int, int)| #[trigger] self@.marked.contains(p) ==> self@.in_bounds(p.0, p.1),
    {
    }

    /// Reset all dirty bits. Called at the end of each render pass.
    pub fn clear(&mut self)
        requires
            old(self).wf(),
        ensures
            final(self).wf(),
            final(self)@ == old(self)@.cleared(),
    {
        self.all_dirty = false;
        let n = self.bits.len();
        let mut i: usize = 0;
        while i < n
            invariant
                self.wf(),
                self.width == old(self).width,
                self.height == old(self).height,
                !self.all_dirty,
                n == self.bits@.len(),
                i <= n,
                forall|j: int| 0 <= j < i ==> self.bits@[j] == 0u64,
            decreases n - i,
        {
            self.bits.set(i, 0);
            i = i + 1;
        }
        proof {
            let w = self.width as int;
            let h = self.height as int;
            assert forall|p: (int, int)| !self@.marked.contains(p) by {
                if 0 <= p.0 < w && 0 <= p.1 < h {
                    let k = p.1 * w + p.0;
                    lemma_index_bounds(p.0, p.1, w, h);
                    lemma_zero_word((k % 64) as u64);
                }
            }
            assert(self@.marked =~= Set::<(int, int)>::empty());
        }
    }
}

} // verus!
