use vstd::prelude::*;

use std::collections::VecDeque;

use crate::chokepoint::fits_i32;
use crate::tilemap::{tile_index, lemma_tile_index_bounds, lemma_tile_index_injective};

verus! {

/// Tile `p` lies on the `w` x `h` grid and has a nonzero value in `s`.
pub open spec fn hot(s: Seq<u16>, w: int, h: int, p: (int, int)) -> bool {
    0 <= p.0 < w && 0 <= p.1 < h && s[tile_index(p.0, p.1, w)] > 0
}

/// There is a path of at most `k` steps from `a` to `b` through hot tiles,
/// each step going to one of the four orthogonal neighbours.
pub open spec fn linked(s: Seq<u16>, w: int, h: int, a: (int, int), b: (int, int), k: nat) -> bool
    decreases k,
{
    if k == 0 {
        a == b && hot(s, w, h, a)
    } else {
        let k1 = (k - 1) as nat;
        linked(s, w, h, a, b, k1) || (hot(s, w, h, b) && (linked(s, w, h, a, (b.0 - 1, b.1), k1)
            || linked(s, w, h, a, (b.0 + 1, b.1), k1) || linked(s, w, h, a, (b.0, b.1 - 1), k1)
            || linked(s, w, h, a, (b.0, b.1 + 1), k1)))
    }
}

/// `a` and `b` lie in the same 4-connected region of hot tiles.
pub open spec fn connected(s: Seq<u16>, w: int, h: int, a: (int, int), b: (int, int)) -> bool {
    exists|k: nat| #[trigger] linked(s, w, h, a, b, k)
}

/// The 4-connected region of hot tiles containing `a` (empty if `a` is not hot).
pub open spec fn component(s: Seq<u16>, w: int, h: int, a: (int, int)) -> Set<(int, int)> {
    Set::new(|b: (int, int)| connected(s, w, h, a, b))
}

/// Every flagged tile is hot, and every hot neighbour of a flagged tile is flagged.
pub open spec fn closed_grid(s: Seq<u16>, w: int, h: int, v: Seq<bool>) -> bool {
    forall|x: int, y: int|
        0 <= x < w && 0 <= y < h && #[trigger] v[tile_index(x, y, w)] ==> {
            &&& hot(s, w, h, (x, y))
            &&& hot(s, w, h, (x + 1, y)) ==> v[tile_index(x + 1, y, w)]
            &&& hot(s, w, h, (x - 1, y)) ==> v[tile_index(x - 1, y, w)]
            &&& hot(s, w, h, (x, y + 1)) ==> v[tile_index(x, y + 1, w)]
            &&& hot(s, w, h, (x, y - 1)) ==> v[tile_index(x, y - 1, w)]
        }
}

pub proof fn lemma_linked_hot(s: Seq<u16>, w: int, h: int, a: (int, int), b: (int, int), k: nat)
    requires
        linked(s, w, h, a, b, k),
    ensures
        hot(s, w, h, a),
        hot(s, w, h, b),
    decreases k,
{
    if k > 0 {
        let k1 = (k - 1) as nat;
        if linked(s, w, h, a, b, k1) {
            lemma_linked_hot(s, w, h, a, b, k1);
        } else if linked(s, w, h, a, (b.0 - 1, b.1), k1) {
            lemma_linked_hot(s, w, h, a, (b.0 - 1, b.1), k1);
        } else if linked(s, w, h, a, (b.0 + 1, b.1), k1) {
            lemma_linked_hot(s, w, h, a, (b.0 + 1, b.1), k1);
        } else if linked(s, w, h, a, (b.0, b.1 - 1), k1) {
            lemma_linked_hot(s, w, h, a, (b.0, b.1 - 1), k1);
        } else {
            lemma_linked_hot(s, w, h, a, (b.0, b.1 + 1), k1);
        }
    }
}

/// A closed flagged region that contains `a` contains everything linked to `a`.
pub proof fn lemma_closed_absorbs(s: Seq<u16>, w: int, h: int, v: Seq<bool>, a: (int, int), b: (int, int), k: nat)
    requires
        closed_grid(s, w, h, v),
        0 <= a.0 < w,
        0 <= a.1 < h,
        v[tile_index(a.0, a.1, w)],
        linked(s, w, h, a, b, k),
    ensures
        0 <= b.0 < w,
        0 <= b.1 < h,
        v[tile_index(b.0, b.1, w)],
    decreases k,
{
    lemma_linked_hot(s, w, h, a, b, k);
    if k > 0 {
        let k1 = (k - 1) as nat;
        if linked(s, w, h, a, b, k1) {
            lemma_closed_absorbs(s, w, h, v, a, b, k1);
        } else if linked(s, w, h, a, (b.0 - 1, b.1), k1) {
            lemma_closed_absorbs(s, w, h, v, a, (b.0 - 1, b.1), k1);
        } else if linked(s, w, h, a, (b.0 + 1, b.1), k1) {
            lemma_closed_absorbs(s, w, h, v, a, (b.0 + 1, b.1), k1);
        } else if linked(s, w, h, a, (b.0, b.1 - 1), k1) {
            lemma_closed_absorbs(s, w, h, v, a, (b.0, b.1 - 1), k1);
        } else {
            lemma_closed_absorbs(s, w, h, v, a, (b.0, b.1 + 1), k1);
        }
    }
}

proof fn lemma_linked_mono(s: Seq<u16>, w: int, h: int, a: (int, int), b: (int, int), k: nat, k2: nat)
    requires
        linked(s, w, h, a, b, k),
        k <= k2,
    ensures
        linked(s, w, h, a, b, k2),
    decreases k2 - k,
{
    if k < k2 {
        lemma_linked_mono(s, w, h, a, b, k, (k2 - 1) as nat);
    }
}

/// Extending a path by one step to a hot neighbour of its end.
pub proof fn lemma_linked_step(s: Seq<u16>, w: int, h: int, a: (int, int), b: (int, int), c: (int, int), k: nat)
    requires
        linked(s, w, h, a, b, k),
        hot(s, w, h, c),
        (c == (b.0 + 1, b.1) || c == (b.0 - 1, b.1) || c == (b.0, b.1 + 1) || c == (b.0, b.1 - 1)),
    ensures
        linked(s, w, h, a, c, k + 1),
{
}

/// Prepending a hot neighbour of the start to a path.
proof fn lemma_linked_prepend(s: Seq<u16>, w: int, h: int, c: (int, int), a: (int, int), b: (int, int), k: nat)
    requires
        linked(s, w, h, a, b, k),
        hot(s, w, h, c),
        (a == (c.0 + 1, c.1) || a == (c.0 - 1, c.1) || a == (c.0, c.1 + 1) || a == (c.0, c.1 - 1)),
    ensures
        linked(s, w, h, c, b, k + 1),
    decreases k,
{
    if k == 0 {
        assert(linked(s, w, h, c, c, 0));
    } else {
        let k1 = (k - 1) as nat;
        if linked(s, w, h, a, b, k1) {
            lemma_linked_prepend(s, w, h, c, a, b, k1);
        } else if linked(s, w, h, a, (b.0 - 1, b.1), k1) {
            lemma_linked_prepend(s, w, h, c, a, (b.0 - 1, b.1), k1);
        } else if linked(s, w, h, a, (b.0 + 1, b.1), k1) {
            lemma_linked_prepend(s, w, h, c, a, (b.0 + 1, b.1), k1);
        } else if linked(s, w, h, a, (b.0, b.1 - 1), k1) {
            lemma_linked_prepend(s, w, h, c, a, (b.0, b.1 - 1), k1);
        } else {
            lemma_linked_prepend(s, w, h, c, a, (b.0, b.1 + 1), k1);
        }
    }
}

pub proof fn lemma_linked_symmetric(s: Seq<u16>, w: int, h: int, a: (int, int), b: (int, int), k: nat)
    requires
        linked(s, w, h, a, b, k),
    ensures
        linked(s, w, h, b, a, k),
    decreases k,
{
    if k > 0 {
        let k1 = (k - 1) as nat;
        lemma_linked_hot(s, w, h, a, b, k);
        if linked(s, w, h, a, b, k1) {
            lemma_linked_symmetric(s, w, h, a, b, k1);
        } else if linked(s, w, h, a, (b.0 - 1, b.1), k1) {
            lemma_linked_symmetric(s, w, h, a, (b.0 - 1, b.1), k1);
            lemma_linked_prepend(s, w, h, b, (b.0 - 1, b.1), a, k1);
        } else if linked(s, w, h, a, (b.0 + 1, b.1), k1) {
            lemma_linked_symmetric(s, w, h, a, (b.0 + 1, b.1), k1);
            lemma_linked_prepend(s, w, h, b, (b.0 + 1, b.1), a, k1);
        } else if linked(s, w, h, a, (b.0, b.1 - 1), k1) {
            lemma_linked_symmetric(s, w, h, a, (b.0, b.1 - 1), k1);
            lemma_linked_prepend(s, w, h, b, (b.0, b.1 - 1), a, k1);
        } else {
            lemma_linked_symmetric(s, w, h, a, (b.0, b.1 + 1), k1);
            lemma_linked_prepend(s, w, h, b, (b.0, b.1 + 1), a, k1);
        }
    }
}

pub proof fn lemma_linked_transitive(
    s: Seq<u16>,
    w: int,
    h: int,
    a: (int, int),
    b: (int, int),
    c: (int, int),
    k1: nat,
    k2: nat,
)
    requires
        linked(s, w, h, a, b, k1),
        linked(s, w, h, b, c, k2),
    ensures
        linked(s, w, h, a, c, k1 + k2),
    decreases k2,
{
    if k2 > 0 {
        let j = (k2 - 1) as nat;
        if linked(s, w, h, b, c, j) {
            lemma_linked_transitive(s, w, h, a, b, c, k1, j);
        } else if linked(s, w, h, b, (c.0 - 1, c.1), j) {
            lemma_linked_transitive(s, w, h, a, b, (c.0 - 1, c.1), k1, j);
        } else if linked(s, w, h, b, (c.0 + 1, c.1), j) {
            lemma_linked_transitive(s, w, h, a, b, (c.0 + 1, c.1), k1, j);
        } else if linked(s, w, h, b, (c.0, c.1 - 1), j) {
            lemma_linked_transitive(s, w, h, a, b, (c.0, c.1 - 1), k1, j);
        } else {
            lemma_linked_transitive(s, w, h, a, b, (c.0, c.1 + 1), k1, j);
        }
    }
}

pub proof fn lemma_connected_symmetric(s: Seq<u16>, w: int, h: int, a: (int, int), b: (int, int))
    requires
        connected(s, w, h, a, b),
    ensures
        connected(s, w, h, b, a),
{
    let k = choose|k: nat| linked(s, w, h, a, b, k);
    lemma_linked_symmetric(s, w, h, a, b, k);
}

pub proof fn lemma_connected_transitive(s: Seq<u16>, w: int, h: int, a: (int, int), b: (int, int), c: (int, int))
    requires
        connected(s, w, h, a, b),
        connected(s, w, h, b, c),
    ensures
        connected(s, w, h, a, c),
{
    let k1 = choose|k: nat| linked(s, w, h, a, b, k);
    let k2 = choose|k: nat| linked(s, w, h, b, c, k);
    lemma_linked_transitive(s, w, h, a, b, c, k1, k2);
}

/// Connected tiles have the same component.
pub proof fn lemma_same_component(s: Seq<u16>, w: int, h: int, a: (int, int), b: (int, int))
    requires
        connected(s, w, h, a, b),
    ensures
        component(s, w, h, a) == component(s, w, h, b),
{
    assert forall|c: (int, int)| component(s, w, h, a).contains(c) == component(s, w, h, b).contains(c) by {
        lemma_connected_symmetric(s, w, h, a, b);
        if connected(s, w, h, a, c) {
            lemma_connected_transitive(s, w, h, b, a, c);
        }
        if connected(s, w, h, b, c) {
            lemma_connected_transitive(s, w, h, a, b, c);
        }
    }
    assert(component(s, w, h, a) =~= component(s, w, h, b));
}

/// Number of set flags in `v`.
pub open spec fn count_true(v: Seq<bool>) -> nat
    decreases v.len(),
{
    if v.len() == 0 {
        0
    } else {
        count_true(v.drop_last()) + if v.last() {
            1nat
        } else {
            0nat
        }
    }
}

proof fn lemma_count_true_bound(v: Seq<bool>)
    ensures
        count_true(v) <= v.len(),
    decreases v.len(),
{
    if v.len() > 0 {
        lemma_count_true_bound(v.drop_last());
    }
}

proof fn lemma_count_true_set(v: Seq<bool>, i: int)
    requires
        0 <= i < v.len(),
        !v[i],
    ensures
        count_true(v.update(i, true)) == count_true(v) + 1,
    decreases v.len(),
{
    let u = v.update(i, true);
    if i == v.len() - 1 {
        assert(u.drop_last() =~= v.drop_last());
    } else {
        assert(u.drop_last() =~= v.drop_last().update(i, true));
        lemma_count_true_set(v.drop_last(), i);
    }
}

/// A machine tile position as a pair of integers.
pub open spec fn ipair(p: (usize, usize)) -> (int, int) {
    (p.0 as int, p.1 as int)
}

/// A list of machine tile positions as integer pairs.
pub open spec fn ipairs(v: Seq<(usize, usize)>) -> Seq<(int, int)> {
    v.map_values(|p: (usize, usize)| ipair(p))
}

/// The breadth-first list `ord` after tile `n` is offered to it: appended if
/// hot and not yet listed.
pub open spec fn enqueue(s: Seq<u16>, w: int, h: int, ord: Seq<(int, int)>, n: (int, int)) -> Seq<(int, int)> {
    if hot(s, w, h, n) && !ord.contains(n) {
        ord.push(n)
    } else {
        ord
    }
}

/// The breadth-first list after tile `p` is taken from it: its west, east,
/// north and south neighbours are offered, in that order.
pub open spec fn expand(s: Seq<u16>, w: int, h: int, ord: Seq<(int, int)>, p: (int, int)) -> Seq<(int, int)> {
    let o1 = enqueue(s, w, h, ord, (p.0 - 1, p.1));
    let o2 = enqueue(s, w, h, o1, (p.0 + 1, p.1));
    let o3 = enqueue(s, w, h, o2, (p.0, p.1 - 1));
    enqueue(s, w, h, o3, (p.0, p.1 + 1))
}

/// The tiles listed by a breadth-first search from `start` once `k` of them
/// have been taken and expanded.
pub open spec fn bfs_prefix(s: Seq<u16>, w: int, h: int, start: (int, int), k: nat) -> Seq<(int, int)>
    decreases k,
{
    if k == 0 {
        seq![start]
    } else {
        let ord = bfs_prefix(s, w, h, start, (k - 1) as nat);
        if k - 1 < ord.len() {
            expand(s, w, h, ord, ord[k - 1])
        } else {
            ord
        }
    }
}

/// The visiting order of a breadth-first search from `start` through the hot
/// tiles of the `w` x `h` grid (it lists each tile at most once, so `w * h`
/// expansions exhaust it).
#[verifier::opaque]
pub open spec fn bfs_order(s: Seq<u16>, w: int, h: int, start: (int, int)) -> Seq<(int, int)> {
    bfs_prefix(s, w, h, start, (w * h) as nat)
}

/// Once every listed tile has been expanded, the list stays as it is.
proof fn lemma_bfs_settled(s: Seq<u16>, w: int, h: int, start: (int, int), k: nat, k2: nat)
    requires
        k <= k2,
        bfs_prefix(s, w, h, start, k).len() <= k,
    ensures
        bfs_prefix(s, w, h, start, k2) == bfs_prefix(s, w, h, start, k),
    decreases k2 - k,
{
    if k2 > k {
        lemma_bfs_settled(s, w, h, start, k, (k2 - 1) as nat);
    }
}

/// Every hot neighbour of `p` is flagged in `v`.
pub open spec fn neighbours_flagged(s: Seq<u16>, w: int, h: int, v: Seq<bool>, p: (int, int)) -> bool {
    &&& hot(s, w, h, (p.0 + 1, p.1)) ==> v[tile_index(p.0 + 1, p.1, w)]
    &&& hot(s, w, h, (p.0 - 1, p.1)) ==> v[tile_index(p.0 - 1, p.1, w)]
    &&& hot(s, w, h, (p.0, p.1 + 1)) ==> v[tile_index(p.0, p.1 + 1, w)]
    &&& hot(s, w, h, (p.0, p.1 - 1)) ==> v[tile_index(p.0, p.1 - 1, w)]
}

/// Breadth-first search state: `ord` lists the tiles enqueued so far (dequeued
/// ones first); they are new, distinct, connected to `start`, and exactly the
/// tiles flagged in `vis` beyond those of `v0`.
pub open spec fn bfs_inv(
    s: Seq<u16>,
    w: int,
    h: int,
    v0: Seq<bool>,
    start: (int, int),
    vis: Seq<bool>,
    ord: Seq<(usize, usize)>,
) -> bool {
    &&& vis.len() == w * h
    &&& v0.len() == w * h
    &&& ord.no_duplicates()
    &&& count_true(vis) == count_true(v0) + ord.len()
    &&& forall|i: int|
        0 <= i < ord.len() ==> {
            &&& (#[trigger] ord[i]).0 < w
            &&& ord[i].1 < h
            &&& !v0[tile_index(ord[i].0 as int, ord[i].1 as int, w)]
            &&& connected(s, w, h, start, ipair(ord[i]))
        }
    &&& forall|tx: int, ty: int|
        0 <= tx < w && 0 <= ty < h ==> #[trigger] vis[tile_index(tx, ty, w)] == (v0[tile_index(tx, ty, w)]
            || ord.contains((tx as usize, ty as usize)))
}

/// Enqueue the neighbour `(nx, ny)` of dequeued tile `p` if it is a new hot tile.
fn visit_neighbour(
    scores: &[u16],
    width: usize,
    height: usize,
    visited: &mut Vec<bool>,
    queue: &mut VecDeque<(usize, usize)>,
    comp: &Vec<(usize, usize)>,
    nx: i32,
    ny: i32,
    Ghost(v0): Ghost<Seq<bool>>,
    Ghost(start): Ghost<(int, int)>,
    Ghost(p): Ghost<(int, int)>,
)
    requires
        scores@.len() == width * height,
        width * height <= usize::MAX,
        fits_i32(width as int, height as int),
        connected(scores@, width as int, height as int, start, p),
        ({
            let n = (nx as int, ny as int);
            n == (p.0 + 1, p.1) || n == (p.0 - 1, p.1) || n == (p.0, p.1 + 1) || n == (p.0, p.1 - 1)
        }),
        bfs_inv(scores@, width as int, height as int, v0, start, old(visited)@, comp@ + old(queue)@),
        closed_grid(scores@, width as int, height as int, v0),
        hot(scores@, width as int, height as int, p),
        !v0[tile_index(p.0, p.1, width as int)],
    ensures
        bfs_inv(scores@, width as int, height as int, v0, start, final(visited)@, comp@ + final(queue)@),
        ipairs(comp@ + final(queue)@) == enqueue(
            scores@,
            width as int,
            height as int,
            ipairs(comp@ + old(queue)@),
            (nx as int, ny as int),
        ),
        (comp@ + old(queue)@).is_prefix_of(comp@ + final(queue)@),
        hot(scores@, width as int, height as int, (nx as int, ny as int)) ==> final(visited)@[tile_index(
            nx as int,
            ny as int,
            width as int,
        )],
        forall|i: int| 0 <= i < old(visited)@.len() && old(visited)@[i] ==> #[trigger] final(visited)@[i],
{
    let ghost s = scores@;
    let ghost w = width as int;
    let ghost h = height as int;
    let ghost n = (nx as int, ny as int);
    let ghost ord_in = comp@ + queue@;
    if nx >= 0 && ny >= 0 && (nx as usize) < width && (ny as usize) < height {
        proof {
            lemma_tile_index_bounds(nx as int, ny as int, w, h);
        }
        let nidx = ny as usize * width + nx as usize;
        let ghost q = (nx as usize, ny as usize);
        proof {
            if ipairs(ord_in).contains(n) {
                let j = choose|j: int| 0 <= j < ipairs(ord_in).len() && ipairs(ord_in)[j] == n;
                assert(ord_in[j] == q);
                assert(visited@[tile_index(nx as int, ny as int, w)]);
            }
            if visited@[nidx as int] && !ipairs(ord_in).contains(n) && hot(s, w, h, n) {
                assert(visited@[tile_index(nx as int, ny as int, w)]);
                if ord_in.contains(q) {
                    let j = choose|j: int| 0 <= j < ord_in.len() && ord_in[j] == q;
                    assert(ipairs(ord_in)[j] == n);
                }
                // a flagged tile of the old region would have flagged its hot neighbour p
                assert(v0[tile_index(nx as int, ny as int, w)]);
                assert(p == (n.0 + 1, n.1) || p == (n.0 - 1, n.1) || p == (n.0, n.1 + 1) || p == (n.0, n.1 - 1));
                assert(v0[tile_index(p.0, p.1, w)]);
            }
        }
        if !visited[nidx] && scores[nidx] > 0 {
            let ghost old_vis = visited@;
            let ghost old_ord = comp@ + queue@;
            let q = (nx as usize, ny as usize);
            visited.set(nidx, true);
            queue.push_back(q);
            proof {
                let ord = comp@ + queue@;
                assert(ord =~= old_ord.push(q));
                assert(ipairs(ord) =~= ipairs(old_ord).push(n));
                lemma_count_true_set(old_vis, nidx as int);
                // the new tile is connected to the start through p
                let k = choose|k: nat| linked(s, w, h, start, p, k);
                lemma_linked_step(s, w, h, start, p, (nx as int, ny as int), k);
                assert(linked(s, w, h, start, ipair(q), k + 1));
                // it was not flagged before, so it is new and not yet listed
                if old_ord.contains(q) {
                    let j = choose|j: int| 0 <= j < old_ord.len() && old_ord[j] == q;
                    assert(old_vis[tile_index(nx as int, ny as int, w)]);
                }
                assert(!v0[tile_index(nx as int, ny as int, w)]);
                assert forall|i: int, j: int|
                    0 <= i < ord.len() && 0 <= j < ord.len() && i != j implies ord[i] != ord[j] by {
                    if i == old_ord.len() as int || j == old_ord.len() as int {
                        if ord[i] == ord[j] {
                            let other = if i == old_ord.len() as int { j } else { i };
                            assert(old_ord[other] == q);
                        }
                    }
                }
                assert forall|i: int| 0 <= i < ord.len() implies {
                    &&& (#[trigger] ord[i]).0 < w
                    &&& ord[i].1 < h
                    &&& !v0[tile_index(ord[i].0 as int, ord[i].1 as int, w)]
                    &&& connected(s, w, h, start, ipair(ord[i]))
                } by {
                    if i < old_ord.len() {
                        assert(ord[i] == old_ord[i]);
                    }
                }
                assert forall|tx: int, ty: int|
                    0 <= tx < w && 0 <= ty < h implies #[trigger] visited@[tile_index(tx, ty, w)] == (
                    v0[tile_index(tx, ty, w)] || ord.contains((tx as usize, ty as usize))) by {
                    lemma_tile_index_bounds(tx, ty, w, h);
                    if tile_index(tx, ty, w) == nidx as int {
                        lemma_tile_index_injective(tx, ty, nx as int, ny as int, w);
                        assert(ord[old_ord.len() as int] == q);
                    } else {
                        if ord.contains((tx as usize, ty as usize)) {
                            let j = choose|j: int| 0 <= j < ord.len() && ord[j] == (tx as usize, ty as usize);
                            if j == old_ord.len() as int {
                                lemma_tile_index_injective(tx, ty, nx as int, ny as int, w);
                            } else {
                                assert(old_ord[j] == (tx as usize, ty as usize));
                            }
                        }
                        if old_ord.contains((tx as usize, ty as usize)) {
                            let j = choose|j: int| 0 <= j < old_ord.len() && old_ord[j] == (tx as usize, ty as usize);
                            assert(ord[j] == (tx as usize, ty as usize));
                        }
                    }
                }
            }
        }
    }
}

/// Flood-fill the 4-connected region of nonzero tiles around `(x, y)`,
/// breadth first, flagging each tile in `visited` as it is enqueued. Returns
/// the region's tiles in visiting order.
pub fn flood_fill(
    scores: &[u16],
    width: usize,
    height: usize,
    visited: &mut Vec<bool>,
    x: usize,
    y: usize,
) -> (comp: Vec<(usize, usize)>)
    requires
        scores@.len() == width * height,
        old(visited)@.len() == width * height,
        width * height <= usize::MAX,
        fits_i32(width as int, height as int),
        x < width,
        y < height,
        scores@[tile_index(x as int, y as int, width as int)] > 0,
        !old(visited)@[tile_index(x as int, y as int, width as int)],
        closed_grid(scores@, width as int, height as int, old(visited)@),
    ensures
        final(visited)@.len() == width * height,
        closed_grid(scores@, width as int, height as int, final(visited)@),
        count_true(final(visited)@) == count_true(old(visited)@) + comp@.len(),
        comp@.len() >= 1,
        comp@[0] == (x, y),
        comp@.no_duplicates(),
        forall|i: int|
            0 <= i < comp@.len() ==> {
                &&& (#[trigger] comp@[i]).0 < width
                &&& comp@[i].1 < height
                &&& !old(visited)@[tile_index(comp@[i].0 as int, comp@[i].1 as int, width as int)]
                &&& connected(scores@, width as int, height as int, (x as int, y as int), ipair(comp@[i]))
            },
        forall|tx: int, ty: int|
            0 <= tx < width && 0 <= ty < height ==> #[trigger] final(visited)@[tile_index(tx, ty, width as int)]
                == (old(visited)@[tile_index(tx, ty, width as int)] || comp@.contains((tx as usize, ty as usize))),
        comp@.map_values(|p: (usize, usize)| ipair(p)).to_set() == component(
            scores@,
            width as int,
            height as int,
            (x as int, y as int),
        ),
        ipairs(comp@) == bfs_order(scores@, width as int, height as int, (x as int, y as int)),
{
    let ghost s = scores@;
    let ghost w = width as int;
    let ghost h = height as int;
    let ghost v0 = visited@;
    let ghost start = (x as int, y as int);
    proof {
        lemma_tile_index_bounds(x as int, y as int, w, h);
    }
    let idx = y * width + x;
    let mut comp: Vec<(usize, usize)> = Vec::new();
    let mut queue: VecDeque<(usize, usize)> = VecDeque::new();
    queue.push_back((x, y));
    visited.set(idx, true);
    proof {
        lemma_count_true_set(v0, idx as int);
        assert(linked(s, w, h, start, start, 0));
        let ord = comp@ + queue@;
        assert(ord =~= seq![(x, y)]);
        assert(ord[0] == (x, y));
        assert(ipairs(ord) =~= bfs_prefix(s, w, h, start, 0));
        assert forall|tx: int, ty: int|
            0 <= tx < w && 0 <= ty < h implies #[trigger] visited@[tile_index(tx, ty, w)] == (v0[tile_index(tx, ty, w)]
                || ord.contains((tx as usize, ty as usize))) by {
            lemma_tile_index_bounds(tx, ty, w, h);
            if tile_index(tx, ty, w) == idx as int {
                lemma_tile_index_injective(tx, ty, x as int, y as int, w);
            }
            if ord.contains((tx as usize, ty as usize)) {
                assert(ord[0] == (tx as usize, ty as usize));
            }
        }
    }
    while queue.len() > 0
        invariant
            scores@ == s,
            s.len() == width * height,
            w == width,
            h == height,
            width * height <= usize::MAX,
            fits_i32(w, h),
            x < width,
            y < height,
            start == (x as int, y as int),
            v0.len() == width * height,
            !v0[tile_index(x as int, y as int, w)],
            closed_grid(s, w, h, v0),
            bfs_inv(s, w, h, v0, start, visited@, comp@ + queue@),
            (comp@ + queue@).len() >= 1,
            (comp@ + queue@)[0] == (x, y),
            forall|i: int| 0 <= i < comp@.len() ==> neighbours_flagged(s, w, h, visited@, #[trigger] ipair(comp@[i])),
            ipairs(comp@ + queue@) == bfs_prefix(s, w, h, start, comp@.len() as nat),
        decreases width * height - comp@.len(),
    {
        let ghost ord0 = comp@ + queue@;
        let ghost k = comp@.len();
        let p = queue.pop_front().unwrap();
        comp.push(p);
        proof {
            assert(comp@ + queue@ =~= ord0);
            lemma_count_true_bound(visited@);
        }
        let (cx, cy) = p;
        let ghost gp = ipair(p);
        proof {
            assert(ord0[comp@.len() - 1] == p);
            assert(ipairs(ord0)[k as int] == gp);
            let kk = choose|kk: nat| linked(s, w, h, start, gp, kk);
            lemma_linked_hot(s, w, h, start, gp, kk);
            assert(!v0[tile_index(gp.0, gp.1, w)]);
        }
        let xi = cx as i32;
        let yi = cy as i32;
        let ghost vis_before = visited@;
        visit_neighbour(scores, width, height, visited, &mut queue, &comp, xi - 1, yi, Ghost(v0), Ghost(start), Ghost(gp));
        let ghost v1 = visited@;
        visit_neighbour(scores, width, height, visited, &mut queue, &comp, xi + 1, yi, Ghost(v0), Ghost(start), Ghost(gp));
        let ghost v2 = visited@;
        visit_neighbour(scores, width, height, visited, &mut queue, &comp, xi, yi - 1, Ghost(v0), Ghost(start), Ghost(gp));
        let ghost v3 = visited@;
        visit_neighbour(scores, width, height, visited, &mut queue, &comp, xi, yi + 1, Ghost(v0), Ghost(start), Ghost(gp));
        proof {
            let ord = comp@ + queue@;
            assert(ord[0] == ord0[0]);
            assert(ipairs(ord) == expand(s, w, h, ipairs(ord0), gp));
            assert(ipairs(ord) == bfs_prefix(s, w, h, start, comp@.len() as nat));
            assert forall|i: int| 0 <= i < comp@.len() implies neighbours_flagged(s, w, h, visited@, #[trigger] ipair(comp@[i])) by {
                if i < comp@.len() - 1 {
                    assert(neighbours_flagged(s, w, h, vis_before, ipair(comp@[i])));
                }
            }
        }
    }
    proof {
        let vis = visited@;
        assert(comp@ + queue@ =~= comp@);
        // every listed tile has been expanded, so the search is complete
        lemma_count_true_bound(vis);
        lemma_bfs_settled(s, w, h, start, comp@.len() as nat, (w * h) as nat);
        reveal(bfs_order);
        // the flagged region is closed again
        assert forall|tx: int, ty: int|
            0 <= tx < w && 0 <= ty < h && #[trigger] vis[tile_index(tx, ty, w)] implies {
                &&& hot(s, w, h, (tx, ty))
                &&& hot(s, w, h, (tx + 1, ty)) ==> vis[tile_index(tx + 1, ty, w)]
                &&& hot(s, w, h, (tx - 1, ty)) ==> vis[tile_index(tx - 1, ty, w)]
                &&& hot(s, w, h, (tx, ty + 1)) ==> vis[tile_index(tx, ty + 1, w)]
                &&& hot(s, w, h, (tx, ty - 1)) ==> vis[tile_index(tx, ty - 1, w)]
            } by {
            if v0[tile_index(tx, ty, w)] {
                // neighbours of old tiles stay flagged
                if hot(s, w, h, (tx + 1, ty)) { assert(v0[tile_index(tx + 1, ty, w)]); }
                if hot(s, w, h, (tx - 1, ty)) { assert(v0[tile_index(tx - 1, ty, w)]); }
                if hot(s, w, h, (tx, ty + 1)) { assert(v0[tile_index(tx, ty + 1, w)]); }
                if hot(s, w, h, (tx, ty - 1)) { assert(v0[tile_index(tx, ty - 1, w)]); }
            } else {
                let j = choose|j: int| 0 <= j < comp@.len() && comp@[j] == (tx as usize, ty as usize);
                assert(neighbours_flagged(s, w, h, vis, ipair(comp@[j])));
                let kk = choose|k: nat| linked(s, w, h, start, ipair(comp@[j]), k);
                lemma_linked_hot(s, w, h, start, ipair(comp@[j]), kk);
            }
        }
        // the listed tiles are exactly the component of the start
        let f = |p: (usize, usize)| ipair(p);
        let listed = comp@.map_values(f).to_set();
        assert forall|t: (int, int)| listed.contains(t) == component(s, w, h, start).contains(t) by {
            if listed.contains(t) {
                let j = choose|j: int| 0 <= j < comp@.map_values(f).len() && comp@.map_values(f)[j] == t;
                assert(comp@[j] == comp@[j]);
            }
            if connected(s, w, h, start, t) {
                let k = choose|k: nat| linked(s, w, h, start, t, k);
                lemma_closed_absorbs(s, w, h, vis, start, t, k);
                if v0[tile_index(t.0, t.1, w)] {
                    lemma_linked_symmetric(s, w, h, start, t, k);
                    lemma_closed_absorbs(s, w, h, v0, t, start, k);
                }
                assert(comp@.contains((t.0 as usize, t.1 as usize)));
                let j = choose|j: int| 0 <= j < comp@.len() && comp@[j] == (t.0 as usize, t.1 as usize);
                assert(comp@.map_values(f)[j] == t);
            }
        }
        assert(listed =~= component(s, w, h, start));
    }
    comp
}

} // verus!
