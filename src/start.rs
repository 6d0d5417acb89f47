use vstd::prelude::*;

use crate::grid::{cells, is_grid};
use crate::tile::{passable, Tile};
use crate::world::{border_is_wall, max, valid_dims};

verus! {

/// The tile at `(x, y)`, or `None` outside the grid.
pub open spec fn tile_at(g: Seq<Seq<Tile>>, x: int, y: int) -> Option<Tile> {
    if 0 <= y < g.len() && 0 <= x < g[y].len() {
        Some(g[y][x])
    } else {
        None
    }
}

pub open spec fn passable_at(g: Seq<Seq<Tile>>, x: int, y: int) -> bool {
    match tile_at(g, x, y) {
        Some(t) => passable(t),
        None => false,
    }
}

/// Step `(radius, dy, dx)` of a ring search whose radii run below `bound`.
pub open spec fn search_step(radius: int, dy: int, dx: int, bound: int) -> bool {
    0 <= radius < bound && -radius <= dy <= radius && -radius <= dx <= radius
}

/// Search order: by radius, then row offset, then column offset.
pub open spec fn step_before(r1: int, dy1: int, dx1: int, r2: int, dy2: int, dx2: int) -> bool {
    r1 < r2 || (r1 == r2 && (dy1 < dy2 || (dy1 == dy2 && dx1 < dx2)))
}

/// `p` is the first passable cell that the search around `(cx, cy)` meets.
pub open spec fn first_passable(g: Seq<Seq<Tile>>, cx: int, cy: int, bound: int, p: (i32, i32)) -> bool {
    exists|radius: int, dy: int, dx: int|
        #![trigger search_step(radius, dy, dx, bound)]
        search_step(radius, dy, dx, bound) && p.0 == cx + dx && p.1 == cy + dy && passable_at(
            g,
            cx + dx,
            cy + dy,
        ) && forall|r2: int, dy2: int, dx2: int|
            #[trigger] search_step(r2, dy2, dx2, bound) && step_before(r2, dy2, dx2, radius, dy, dx)
                ==> !passable_at(g, cx + dx2, cy + dy2)
}

/// No step of the search meets a passable cell.
pub open spec fn search_misses(g: Seq<Seq<Tile>>, cx: int, cy: int, bound: int) -> bool {
    forall|radius: int, dy: int, dx: int|
        #[trigger] search_step(radius, dy, dx, bound) ==> !passable_at(g, cx + dx, cy + dy)
}

/// The outcome of the expanding-ring search from the grid's center: the first
/// passable cell met, or `(1, 1)` when there is none.
pub open spec fn ring_search(g: Seq<Seq<Tile>>, w: int, h: int, bound: int, p: (i32, i32)) -> bool {
    first_passable(g, w / 2, h / 2, bound, p) || (search_misses(g, w / 2, h / 2, bound) && p == (
    1i32,
    1i32,
    ))
}

fn passable_cell(tiles: &Vec<Vec<Tile>>, w: usize, h: usize, x: i64, y: i64) -> (r: bool)
    requires
        is_grid(cells(*tiles), w as int, h as int),
        valid_dims(w as int, h as int),
    ensures
        r == passable_at(cells(*tiles), x as int, y as int),
{
    if x < 0 || y < 0 || x >= w as i64 || y >= h as i64 {
        false
    } else {
        assert(cells(*tiles)[y as int].len() == w);
        tiles[y as usize][x as usize].is_passable()
    }
}

/// Expanding-ring search for a passable cell around the center of a `w` by
/// `h` grid, over radii below `bound`.
pub fn search_start(tiles: &Vec<Vec<Tile>>, w: usize, h: usize, bound: usize) -> (r: (i32, i32))
    requires
        is_grid(cells(*tiles), w as int, h as int),
        valid_dims(w as int, h as int),
        bound <= i32::MAX,
    ensures
        ring_search(cells(*tiles), w as int, h as int, bound as int, r),
{
    let ghost g = cells(*tiles);
    let cx = (w / 2) as i64;
    let cy = (h / 2) as i64;
    let ghost gcx = (w / 2) as int;
    let ghost gcy = (h / 2) as int;
    let mut radius: i64 = 0;
    while radius < bound as i64
        invariant
            g == cells(*tiles),
            is_grid(g, w as int, h as int),
            valid_dims(w as int, h as int),
            bound <= i32::MAX,
            cx == gcx,
            gcx == w as int / 2,
            gcy == h as int / 2,
            cy == gcy,
            0 <= gcx <= i32::MAX,
            0 <= gcy <= i32::MAX,
            0 <= radius <= bound,
            forall|r2: int, dy2: int, dx2: int|
                #[trigger] search_step(r2, dy2, dx2, bound as int) && r2 < radius ==> !passable_at(
                    g,
                    gcx + dx2,
                    gcy + dy2,
                ),
        decreases bound - radius,
    {
        let mut dy: i64 = -radius;
        while dy <= radius
            invariant
                g == cells(*tiles),
                is_grid(g, w as int, h as int),
                valid_dims(w as int, h as int),
                bound <= i32::MAX,
                cx == gcx,
                gcx == w as int / 2,
                gcy == h as int / 2,
                cy == gcy,
                0 <= gcx <= i32::MAX,
                0 <= gcy <= i32::MAX,
                0 <= radius < bound,
                -radius <= dy <= radius + 1,
                forall|r2: int, dy2: int, dx2: int|
                    #[trigger] search_step(r2, dy2, dx2, bound as int) && step_before(r2, dy2, dx2, radius as int, dy as int, -radius - 1)
                        ==> !passable_at(g, gcx + dx2, gcy + dy2),
            decreases radius + 1 - dy,
        {
            let mut dx: i64 = -radius;
            while dx <= radius
                invariant
                    g == cells(*tiles),
                    is_grid(g, w as int, h as int),
                    valid_dims(w as int, h as int),
                    bound <= i32::MAX,
                    cx == gcx,
                    gcx == w as int / 2,
                    gcy == h as int / 2,
                    cy == gcy,
                    0 <= gcx <= i32::MAX,
                    0 <= gcy <= i32::MAX,
                    0 <= radius < bound,
                    -radius <= dy <= radius,
                    -radius <= dx <= radius + 1,
                    forall|r2: int, dy2: int, dx2: int|
                        #[trigger] search_step(r2, dy2, dx2, bound as int) && step_before(r2, dy2, dx2, radius as int, dy as int, dx as int)
                            ==> !passable_at(g, gcx + dx2, gcy + dy2),
                decreases radius + 1 - dx,
            {
                if passable_cell(tiles, w, h, cx + dx, cy + dy) {
                    let p = ((cx + dx) as i32, (cy + dy) as i32);
                    assert(search_step(radius as int, dy as int, dx as int, bound as int));
                    assert(first_passable(g, gcx, gcy, bound as int, p));
                    assert(gcx == w as int / 2 && gcy == h as int / 2);
                    assert(ring_search(g, w as int, h as int, bound as int, p));
                    return p;
                }
                dx = dx + 1;
            }
            dy = dy + 1;
        }
        radius = radius + 1;
    }
    (1, 1)
}


/// On a grid whose outer ring is Wall, a search over every radius below
/// `max(w, h)` resolves to a passable cell strictly inside the border whenever
/// the grid holds any passable cell at all.
pub proof fn lemma_start_passable(g: Seq<Seq<Tile>>, w: int, h: int, p: (i32, i32), x: int, y: int)
    requires
        is_grid(g, w, h),
        1 <= w,
        1 <= h,
        border_is_wall(g, w, h),
        ring_search(g, w, h, max(w, h), p),
        passable_at(g, x, y),
    ensures
        passable_at(g, p.0 as int, p.1 as int),
        0 < p.0 < w - 1,
        0 < p.1 < h - 1,
{
    let dx = x - w / 2;
    let dy = y - h / 2;
    let radius = max(if dx < 0 { -dx } else { dx }, if dy < 0 { -dy } else { dy });
    assert(search_step(radius, dy, dx, max(w, h)));
    assert(passable_at(g, w / 2 + dx, h / 2 + dy));
    assert(!search_misses(g, w / 2, h / 2, max(w, h)));
    let px = p.0 as int;
    let py = p.1 as int;
    assert(passable_at(g, px, py));
    assert(g[py].len() == w);
    if px == 0 || px == w - 1 || py == 0 || py == h - 1 {
        assert(g[py][px] == Tile::Wall);
    }
}


/// The search has one outcome: the first passable cell it meets is the same
/// cell whichever way it is found, and a search that meets one never yields
/// the fallback.
pub proof fn lemma_search_unique(g: Seq<Seq<Tile>>, w: int, h: int, bound: int, p: (i32, i32), q: (i32, i32))
    requires
        ring_search(g, w, h, bound, p),
        ring_search(g, w, h, bound, q),
    ensures
        p == q,
{
    let cx = w / 2;
    let cy = h / 2;
    if first_passable(g, cx, cy, bound, p) {
        let (r1, dy1, dx1) = choose|radius: int, dy: int, dx: int|
            #![trigger search_step(radius, dy, dx, bound)]
            search_step(radius, dy, dx, bound) && p.0 == cx + dx && p.1 == cy + dy && passable_at(
                g,
                cx + dx,
                cy + dy,
            ) && forall|r2: int, dy2: int, dx2: int|
                #[trigger] search_step(r2, dy2, dx2, bound) && step_before(r2, dy2, dx2, radius, dy, dx)
                    ==> !passable_at(g, cx + dx2, cy + dy2);
        assert(search_step(r1, dy1, dx1, bound));
        if first_passable(g, cx, cy, bound, q) {
            let (r2, dy2, dx2) = choose|radius: int, dy: int, dx: int|
                #![trigger search_step(radius, dy, dx, bound)]
                search_step(radius, dy, dx, bound) && q.0 == cx + dx && q.1 == cy + dy && passable_at(
                    g,
                    cx + dx,
                    cy + dy,
                ) && forall|r3: int, dy3: int, dx3: int|
                    #[trigger] search_step(r3, dy3, dx3, bound) && step_before(r3, dy3, dx3, radius, dy, dx)
                        ==> !passable_at(g, cx + dx3, cy + dy3);
            assert(search_step(r2, dy2, dx2, bound));
            if step_before(r1, dy1, dx1, r2, dy2, dx2) {
                assert(!passable_at(g, cx + dx1, cy + dy1));
            } else if step_before(r2, dy2, dx2, r1, dy1, dx1) {
                assert(!passable_at(g, cx + dx2, cy + dy2));
            }
        } else {
            assert(!passable_at(g, cx + dx1, cy + dy1));
        }
    } else if first_passable(g, cx, cy, bound, q) {
        let (r2, dy2, dx2) = choose|radius: int, dy: int, dx: int|
            #![trigger search_step(radius, dy, dx, bound)]
            search_step(radius, dy, dx, bound) && q.0 == cx + dx && q.1 == cy + dy && passable_at(
                g,
                cx + dx,
                cy + dy,
            ) && forall|r3: int, dy3: int, dx3: int|
                #[trigger] search_step(r3, dy3, dx3, bound) && step_before(r3, dy3, dx3, radius, dy, dx)
                    ==> !passable_at(g, cx + dx3, cy + dy3);
        assert(search_step(r2, dy2, dx2, bound));
        assert(!passable_at(g, cx + dx2, cy + dy2));
    }
}

} // verus!
