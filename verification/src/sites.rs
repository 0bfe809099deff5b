use vstd::prelude::*;

use crate::tilemap::{tile_index, lemma_tile_index_bounds};

verus! {

// Resource sites (berry bushes on fertile ground, stone deposits) are picked
// from the square window of radius `r` around the settlement center. Each
// walkable tile with a nonzero amount is a candidate, scored by ten times its
// amount over its Manhattan distance (at least 1). The best candidate is
// picked first, then the best one at least three steps from it. Equal scores
// go to the tile scanned first: rows from the top, each row from the left.

/// Absolute value.
pub open spec fn iabs(v: int) -> int {
    if v < 0 {
        -v
    } else {
        v
    }
}

/// Offset `o` lies in the square window of radius `r`.
pub open spec fn in_window(r: int, o: (int, int)) -> bool {
    -r <= o.0 <= r && -r <= o.1 <= r
}

/// Offset `a` is scanned before offset `b`.
pub open spec fn scanned_before(a: (int, int), b: (int, int)) -> bool {
    a.1 < b.1 || (a.1 == b.1 && a.0 < b.0)
}

/// The tile at offset `o` from `(cx, cy)` is a candidate: in the window, on
/// the `w` x `h` map, walkable, with a nonzero amount.
pub open spec fn is_candidate(
    amount: Seq<u8>,
    walkable: Seq<bool>,
    w: int,
    h: int,
    cx: int,
    cy: int,
    r: int,
    o: (int, int),
) -> bool {
    let x = cx + o.0;
    let y = cy + o.1;
    &&& in_window(r, o)
    &&& 0 <= x < w
    &&& 0 <= y < h
    &&& amount[tile_index(x, y, w)] > 0
    &&& walkable[tile_index(x, y, w)]
}

/// Score of the tile at offset `o`: ten times its amount over its Manhattan
/// distance from the center, taken as at least 1.
pub open spec fn site_score(amount: Seq<u8>, w: int, cx: int, cy: int, o: (int, int)) -> int {
    let d = iabs(o.0) + iabs(o.1);
    (amount[tile_index(cx + o.0, cy + o.1, w)] as int * 10) / (if d < 1 {
        1
    } else {
        d
    })
}

/// Offset `a` ranks before offset `b`: a higher score, or an equal score and
/// scanned first.
pub open spec fn ranks_before(amount: Seq<u8>, w: int, cx: int, cy: int, a: (int, int), b: (int, int)) -> bool {
    site_score(amount, w, cx, cy, a) > site_score(amount, w, cx, cy, b) || (site_score(amount, w, cx, cy, a)
        == site_score(amount, w, cx, cy, b) && scanned_before(a, b))
}

/// Offset `o` is at least three steps from the first pick, if there is one.
pub open spec fn spaced(o: (int, int), first: Option<(int, int)>) -> bool {
    match first {
        Some(p) => iabs(o.0 - p.0) + iabs(o.1 - p.1) >= 3,
        None => true,
    }
}

/// Offset `o` can be picked after `first`.
pub open spec fn eligible(
    amount: Seq<u8>,
    walkable: Seq<bool>,
    w: int,
    h: int,
    cx: int,
    cy: int,
    r: int,
    first: Option<(int, int)>,
    o: (int, int),
) -> bool {
    is_candidate(amount, walkable, w, h, cx, cy, r, o) && spaced(o, first)
}

/// Offset `o` is the best pick after `first`: eligible, and ranked before
/// every other eligible offset.
pub open spec fn best_site(
    amount: Seq<u8>,
    walkable: Seq<bool>,
    w: int,
    h: int,
    cx: int,
    cy: int,
    r: int,
    first: Option<(int, int)>,
    o: (int, int),
) -> bool {
    &&& eligible(amount, walkable, w, h, cx, cy, r, first, o)
    &&& forall|o2: (int, int)|
        #[trigger] eligible(amount, walkable, w, h, cx, cy, r, first, o2) && o2 != o ==> ranks_before(
            amount,
            w,
            cx,
            cy,
            o,
            o2,
        )
}

/// Some offset can be picked after `first`.
pub open spec fn any_site(
    amount: Seq<u8>,
    walkable: Seq<bool>,
    w: int,
    h: int,
    cx: int,
    cy: int,
    r: int,
    first: Option<(int, int)>,
) -> bool {
    exists|o: (int, int)| #[trigger] eligible(amount, walkable, w, h, cx, cy, r, first, o)
}

/// A machine offset as an integer pair.
pub open spec fn ioffset(o: Option<(i32, i32)>) -> Option<(int, int)> {
    match o {
        Some(p) => Some((p.0 as int, p.1 as int)),
        None => None,
    }
}

/// The offset of site `p` from `(cx, cy)`.
pub open spec fn offset_of(p: (usize, usize), cx: int, cy: int) -> (int, int) {
    (p.0 - cx, p.1 - cy)
}

fn abs_i32(v: i32) -> (r: i32)
    requires
        v > i32::MIN,
    ensures
        r == iabs(v as int),
{
    if v < 0 {
        -v
    } else {
        v
    }
}

/// The best offset that can be picked after `first`, scanning the window.
fn best_in_window(
    amount: &[u8],
    walkable: &[bool],
    width: usize,
    height: usize,
    cx: usize,
    cy: usize,
    radius: i32,
    first: Option<(i32, i32)>,
) -> (best: Option<(i32, i32)>)
    requires
        amount@.len() == width * height,
        walkable@.len() == width * height,
        width * height <= usize::MAX,
        width <= i32::MAX,
        height <= i32::MAX,
        0 <= radius <= 0x0fff_ffff,
        cx + radius <= i32::MAX,
        cy + radius <= i32::MAX,
        match first {
            Some(p) => in_window(radius as int, (p.0 as int, p.1 as int)),
            None => true,
        },
    ensures
        ({
            let (a, wk, w, h, x, y, r, f) = (
                amount@,
                walkable@,
                width as int,
                height as int,
                cx as int,
                cy as int,
                radius as int,
                ioffset(first),
            );
            &&& best is None <==> !any_site(a, wk, w, h, x, y, r, f)
            &&& best matches Some(b) ==> best_site(a, wk, w, h, x, y, r, f, (b.0 as int, b.1 as int))
        }),
{
    let ghost a = amount@;
    let ghost wk = walkable@;
    let ghost w = width as int;
    let ghost h = height as int;
    let ghost x0 = cx as int;
    let ghost y0 = cy as int;
    let ghost r = radius as int;
    let ghost f = ioffset(first);
    let mut best: Option<(i32, i32)> = None;
    let mut best_score: u32 = 0;
    let mut dy: i32 = -radius;
    while dy <= radius
        invariant
            a == amount@,
            wk == walkable@,
            w == width,
            h == height,
            x0 == cx,
            y0 == cy,
            r == radius,
            f == ioffset(first),
            a.len() == w * h,
            wk.len() == w * h,
            width * height <= usize::MAX,
            width <= i32::MAX,
            height <= i32::MAX,
            0 <= radius <= 0x0fff_ffff,
            cx + radius <= i32::MAX,
            cy + radius <= i32::MAX,
            match first {
                Some(p) => in_window(r, (p.0 as int, p.1 as int)),
                None => true,
            },
            -radius <= dy <= radius + 1,
            best matches Some(b) ==> {
                &&& eligible(a, wk, w, h, x0, y0, r, f, (b.0 as int, b.1 as int))
                &&& b.1 < dy
                &&& best_score == site_score(a, w, x0, y0, (b.0 as int, b.1 as int))
            },
            forall|o2: (int, int)|
                #[trigger] eligible(a, wk, w, h, x0, y0, r, f, o2) && o2.1 < dy ==> (best matches Some(b) && (o2 == (
                    b.0 as int,
                    b.1 as int,
                ) || ranks_before(a, w, x0, y0, (b.0 as int, b.1 as int), o2))),
        decreases radius + 1 - dy,
    {
        let mut dx: i32 = -radius;
        while dx <= radius
            invariant
                a == amount@,
                wk == walkable@,
                w == width,
                h == height,
                x0 == cx,
                y0 == cy,
                r == radius,
                f == ioffset(first),
                a.len() == w * h,
                wk.len() == w * h,
                width * height <= usize::MAX,
                width <= i32::MAX,
                height <= i32::MAX,
                0 <= radius <= 0x0fff_ffff,
                cx + radius <= i32::MAX,
                cy + radius <= i32::MAX,
                match first {
                    Some(p) => in_window(r, (p.0 as int, p.1 as int)),
                    None => true,
                },
                -radius <= dy <= radius,
                -radius <= dx <= radius + 1,
                best matches Some(b) ==> {
                    &&& eligible(a, wk, w, h, x0, y0, r, f, (b.0 as int, b.1 as int))
                    &&& scanned_before((b.0 as int, b.1 as int), (dx as int, dy as int))
                    &&& best_score == site_score(a, w, x0, y0, (b.0 as int, b.1 as int))
                },
                forall|o2: (int, int)|
                    #[trigger] eligible(a, wk, w, h, x0, y0, r, f, o2) && scanned_before(o2, (dx as int, dy as int))
                        ==> (best matches Some(b) && (o2 == (b.0 as int, b.1 as int) || ranks_before(
                        a,
                        w,
                        x0,
                        y0,
                        (b.0 as int, b.1 as int),
                        o2,
                    ))),
            decreases radius + 1 - dx,
        {
            let ghost o = (dx as int, dy as int);
            let tx = cx as i32 + dx;
            let ty = cy as i32 + dy;
            let mut took = false;
            if tx >= 0 && ty >= 0 && tx < width as i32 && ty < height as i32 {
                proof {
                    lemma_tile_index_bounds(tx as int, ty as int, w, h);
                }
                let idx = ty as usize * width + tx as usize;
                let amt = amount[idx];
                let far = match first {
                    Some((px, py)) => abs_i32(dx - px) + abs_i32(dy - py) >= 3,
                    None => true,
                };
                if amt > 0 && walkable[idx] && far {
                    let d0 = abs_i32(dx) + abs_i32(dy);
                    let d = if d0 < 1 {
                        1
                    } else {
                        d0
                    };
                    let score = amt as u32 * 10 / d as u32;
                    proof {
                        assert(eligible(a, wk, w, h, x0, y0, r, f, o));
                        assert(score == site_score(a, w, x0, y0, o));
                    }
                    if best.is_none() || score > best_score {
                        best = Some((dx, dy));
                        best_score = score;
                        took = true;
                    }
                } else {
                    proof {
                        assert(!eligible(a, wk, w, h, x0, y0, r, f, o));
                    }
                }
            } else {
                proof {
                    assert(!eligible(a, wk, w, h, x0, y0, r, f, o));
                }
            }
            proof {
                assert forall|o2: (int, int)|
                    #[trigger] eligible(a, wk, w, h, x0, y0, r, f, o2) && scanned_before(o2, (dx + 1, dy as int))
                        implies (best matches Some(b) && (o2 == (b.0 as int, b.1 as int) || ranks_before(
                        a,
                        w,
                        x0,
                        y0,
                        (b.0 as int, b.1 as int),
                        o2,
                    ))) by {
                    if o2 != o {
                        assert(scanned_before(o2, o));
                    }
                }
            }
            dx = dx + 1;
        }
        proof {
            assert forall|o2: (int, int)|
                #[trigger] eligible(a, wk, w, h, x0, y0, r, f, o2) && o2.1 < dy + 1 implies (best matches Some(b) && (o2
                    == (b.0 as int, b.1 as int) || ranks_before(a, w, x0, y0, (b.0 as int, b.1 as int), o2))) by {
                assert(scanned_before(o2, (dx as int, dy as int)));
            }
        }
        dy = dy + 1;
    }
    proof {
        if any_site(a, wk, w, h, x0, y0, r, f) {
            let o2 = choose|o2: (int, int)| #[trigger] eligible(a, wk, w, h, x0, y0, r, f, o2);
            assert(o2.1 < dy);
        }
    }
    best
}

/// Pick up to two resource sites around `(cx, cy)` within `radius`: the best
/// candidate, then the best one at least three steps from it.
pub fn pick_resource_sites(
    amount: &[u8],
    walkable: &[bool],
    width: usize,
    height: usize,
    cx: usize,
    cy: usize,
    radius: i32,
) -> (sites: Vec<(usize, usize)>)
    requires
        amount@.len() == width * height,
        walkable@.len() == width * height,
        width * height <= usize::MAX,
        width <= i32::MAX,
        height <= i32::MAX,
        0 <= radius <= 0x0fff_ffff,
        cx + radius <= i32::MAX,
        cy + radius <= i32::MAX,
    ensures
        ({
            let (a, wk, w, h, x, y, r) = (
                amount@,
                walkable@,
                width as int,
                height as int,
                cx as int,
                cy as int,
                radius as int,
            );
            &&& sites@.len() <= 2
            &&& sites@.len() == 0 <==> !any_site(a, wk, w, h, x, y, r, None)
            &&& sites@.len() >= 1 ==> best_site(a, wk, w, h, x, y, r, None, offset_of(sites@[0], x, y))
            &&& sites@.len() >= 1 ==> (sites@.len() == 2 <==> any_site(
                a,
                wk,
                w,
                h,
                x,
                y,
                r,
                Some(offset_of(sites@[0], x, y)),
            ))
            &&& sites@.len() == 2 ==> best_site(
                a,
                wk,
                w,
                h,
                x,
                y,
                r,
                Some(offset_of(sites@[0], x, y)),
                offset_of(sites@[1], x, y),
            )
        }),
{
    let mut sites: Vec<(usize, usize)> = Vec::new();
    let first = best_in_window(amount, walkable, width, height, cx, cy, radius, None);
    match first {
        Some((dx1, dy1)) => {
            let p1 = ((cx as i32 + dx1) as usize, (cy as i32 + dy1) as usize);
            sites.push(p1);
            proof {
                assert(offset_of(sites@[0], cx as int, cy as int) == (dx1 as int, dy1 as int));
            }
            let second = best_in_window(amount, walkable, width, height, cx, cy, radius, Some((dx1, dy1)));
            match second {
                Some((dx2, dy2)) => {
                    let p2 = ((cx as i32 + dx2) as usize, (cy as i32 + dy2) as usize);
                    sites.push(p2);
                    proof {
                        assert(offset_of(sites@[1], cx as int, cy as int) == (dx2 as int, dy2 as int));
                    }
                },
                None => {},
            }
        },
        None => {},
    }
    sites
}

} // verus!
