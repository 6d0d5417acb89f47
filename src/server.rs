//! The map server: its variant of the generator (vertical passages every 30
//! columns, circular asteroid clusters and nebulae, no pillars) and the
//! answer to a map request.

use vstd::prelude::*;

use crate::grid::{cells, fill, fill_rect, is_grid, wall_grid, walls};
use crate::map::MapData;
use crate::rng::{draw, lcg_step, MapGenerator};
use crate::start::{lemma_search_unique, ring_search, search_start};
use crate::tile::Tile;
use crate::world::{
    border_is_wall, carve_row_bands, min, min_usize, pick, place, rem, repeat, row_bands, sat_sub, valid_dims, Stage,
};

verus! {

/// Seed used when a request names none.
pub const DEFAULT_SEED: u64 = 12345;

/// Radii that the server's start search covers.
pub const START_SEARCH_RADIUS: usize = 50;

/// Parameters of a map request.
pub struct MapQuery {
    pub width: usize,
    pub height: usize,
    pub seed: Option<u64>,
}

pub fn default_width() -> (r: usize)
    ensures
        r == 500,
{
    500
}

pub fn default_height() -> (r: usize)
    ensures
        r == 200,
{
    200
}

/// Vertical passages, one per 30 columns, starting with passage `i` of `n`.
pub open spec fn passages(st: Stage, i: int, n: int, w: int, h: int) -> Stage
    decreases n - i,
{
    if i < n {
        let (g, s0) = st;
        let x = i * 30 + 15 + (draw(s0) % 10) as int;
        let s1 = lcg_step(s0);
        let next = if x < w - 1 {
            let pw = (draw(s1) % 8) as int + 2;
            (fill(g, x, min(x + pw, w - 1), 1, h - 1, Tile::Floor), lcg_step(s1))
        } else {
            (g, s1)
        };
        passages(next, i + 1, n, w, h)
    } else {
        st
    }
}

/// One rectangular room of Floor.
pub open spec fn server_room(st: Stage, w: int, h: int) -> Stage {
    let (g, s0) = st;
    let rw = (draw(s0) % 20) as int + 5;
    let s1 = lcg_step(s0);
    let rh = (draw(s1) % 15) as int + 5;
    let s2 = lcg_step(s1);
    let rx = rem(draw(s2) as int, sat_sub(w, rw + 2)) + 1;
    let s3 = lcg_step(s2);
    let ry = rem(draw(s3) as int, sat_sub(h, rh + 2)) + 1;
    (fill(g, rx, min(rx + rw, w - 1), ry, min(ry + rh, h - 1), Tile::Floor), lcg_step(s3))
}

pub open spec fn server_room_step(w: int, h: int) -> spec_fn(Stage) -> Stage {
    |st: Stage| server_room(st, w, h)
}

/// `(x, y)` lies strictly inside the border of a `w` by `h` grid.
pub open spec fn interior(x: int, y: int, w: int, h: int) -> bool {
    0 < x < w - 1 && 0 < y < h - 1
}

/// Offset `(dx, dy)` lies within 0.7 of radius `r` in squared distance.
pub open spec fn in_cluster(dx: int, dy: int, r: int) -> bool {
    10 * (dx * dx + dy * dy) < 7 * (r * r)
}

/// Offset `(dx, dy)` of an asteroid cluster centered at `(cx, cy)`: a Floor
/// cell inside the cluster takes a draw and becomes Asteroid unless that draw
/// is a multiple of 3.
pub open spec fn cluster_cell(st: Stage, cx: int, cy: int, r: int, dx: int, dy: int, w: int, h: int) -> Stage {
    let (g, s) = st;
    let x = cx + dx;
    let y = cy + dy;
    if in_cluster(dx, dy, r) && interior(x, y, w, h) && g[y][x] == Tile::Floor {
        if draw(s) % 3 != 0 {
            (g.update(y, g[y].update(x, Tile::Asteroid)), lcg_step(s))
        } else {
            (g, lcg_step(s))
        }
    } else {
        st
    }
}

/// Offsets `dx..=r` of row `dy` of a cluster.
pub open spec fn cluster_row(st: Stage, cx: int, cy: int, r: int, dx: int, dy: int, w: int, h: int) -> Stage
    decreases r + 1 - dx,
{
    if dx <= r {
        cluster_row(cluster_cell(st, cx, cy, r, dx, dy, w, h), cx, cy, r, dx + 1, dy, w, h)
    } else {
        st
    }
}

/// Rows `dy..=r` of a cluster.
pub open spec fn cluster_rows(st: Stage, cx: int, cy: int, r: int, dy: int, w: int, h: int) -> Stage
    decreases r + 1 - dy,
{
    if dy <= r {
        cluster_rows(cluster_row(st, cx, cy, r, -r, dy, w, h), cx, cy, r, dy + 1, w, h)
    } else {
        st
    }
}

/// One circular asteroid cluster.
pub open spec fn asteroid_cluster(st: Stage, w: int, h: int) -> Stage {
    let (g, s0) = st;
    let cx = rem(draw(s0) as int, sat_sub(w, 20)) + 10;
    let s1 = lcg_step(s0);
    let cy = rem(draw(s1) as int, sat_sub(h, 10)) + 5;
    let s2 = lcg_step(s1);
    let r = (draw(s2) % 8) as int + 3;
    cluster_rows((g, lcg_step(s2)), cx, cy, r, -r, w, h)
}

pub open spec fn asteroid_cluster_step(w: int, h: int) -> spec_fn(Stage) -> Stage {
    |st: Stage| asteroid_cluster(st, w, h)
}

/// Offset `(dx, dy)` lies within 0.8 of radius `r` in squared distance.
pub open spec fn in_cloud(dx: int, dy: int, r: int) -> bool {
    -r <= dx <= r && -r <= dy <= r && 5 * (dx * dx + dy * dy) < 4 * (r * r)
}

/// `g` with the interior Floor cells of the cloud of radius `r` around
/// `(cx, cy)` turned to Nebula.
pub open spec fn cloud(g: Seq<Seq<Tile>>, cx: int, cy: int, r: int, w: int, h: int) -> Seq<Seq<Tile>> {
    Seq::new(
        g.len(),
        |y: int|
            Seq::new(
                g[y].len(),
                |x: int|
                    if in_cloud(x - cx, y - cy, r) && interior(x, y, w, h) && g[y][x] == Tile::Floor {
                        Tile::Nebula
                    } else {
                        g[y][x]
                    },
            ),
    )
}

/// One circular nebula.
pub open spec fn nebula_cloud(st: Stage, w: int, h: int) -> Stage {
    let (g, s0) = st;
    let cx = rem(draw(s0) as int, sat_sub(w, 30)) + 15;
    let s1 = lcg_step(s0);
    let cy = rem(draw(s1) as int, sat_sub(h, 15)) + 7;
    let s2 = lcg_step(s1);
    let r = (draw(s2) % 12) as int + 5;
    (cloud(g, cx, cy, r, w, h), lcg_step(s2))
}

pub open spec fn nebula_cloud_step(w: int, h: int) -> spec_fn(Stage) -> Stage {
    |st: Stage| nebula_cloud(st, w, h)
}

/// The server's world from generator state `seed`, with the generator state
/// after it.
pub open spec fn server_world(seed: u64, w: int, h: int) -> Stage {
    let area = w * h;
    let st1 = row_bands(walls(w, h), seed, 2, w, h);
    let st2 = passages(st1, 0, w / 30, w, h);
    let st3 = repeat(server_room_step(w, h), st2, (area / 2000) as nat);
    let st4 = repeat(asteroid_cluster_step(w, h), st3, (area / 5000) as nat);
    repeat(nebula_cloud_step(w, h), st4, (area / 8000) as nat)
}


fn carve_passages(tiles: &mut Vec<Vec<Tile>>, gen: &mut MapGenerator, w: usize, h: usize)
    requires
        valid_dims(w as int, h as int),
        is_grid(cells(*old(tiles)), w as int, h as int),
    ensures
        is_grid(cells(*final(tiles)), w as int, h as int),
        (cells(*final(tiles)), final(gen).rng_state) == passages(
            (cells(*old(tiles)), old(gen).rng_state),
            0,
            w as int / 30,
            w as int,
            h as int,
        ),
{
    let ghost st = (cells(*tiles), gen.rng_state);
    let n = w / 30;
    let mut i: usize = 0;
    while i < n
        invariant
            valid_dims(w as int, h as int),
            n == w / 30,
            i <= n,
            is_grid(cells(*tiles), w as int, h as int),
            passages((cells(*tiles), gen.rng_state), i as int, n as int, w as int, h as int)
                == passages(st, 0, n as int, w as int, h as int),
        decreases n - i,
    {
        assert(i * 30 < w) by (nonlinear_arith)
            requires
                i < n,
                n == w / 30,
        ;
        let x = i * 30 + 15 + pick(gen, 10, 0);
        if x < w - 1 {
            let pw = pick(gen, 8, 2);
            let end = min_usize(x + pw, w - 1);
            fill_rect(tiles, w, x, end, 1, h - 1, Tile::Floor);
        }
        i = i + 1;
    }
}

fn add_server_room(tiles: &mut Vec<Vec<Tile>>, gen: &mut MapGenerator, w: usize, h: usize)
    requires
        valid_dims(w as int, h as int),
        is_grid(cells(*old(tiles)), w as int, h as int),
    ensures
        is_grid(cells(*final(tiles)), w as int, h as int),
        (cells(*final(tiles)), final(gen).rng_state) == server_room(
            (cells(*old(tiles)), old(gen).rng_state),
            w as int,
            h as int,
        ),
{
    let rw = pick(gen, 20, 5);
    let rh = pick(gen, 15, 5);
    let mx = if w > rw + 2 { w - (rw + 2) } else { 0 };
    let rx = place(gen, mx) + 1;
    let my = if h > rh + 2 { h - (rh + 2) } else { 0 };
    let ry = place(gen, my) + 1;
    let ex = min_usize(rx + rw, w - 1);
    let ey = min_usize(ry + rh, h - 1);
    fill_rect(tiles, w, rx, ex, ry, ey, Tile::Floor);
}

fn add_asteroid_cluster(tiles: &mut Vec<Vec<Tile>>, gen: &mut MapGenerator, w: usize, h: usize)
    requires
        valid_dims(w as int, h as int),
        is_grid(cells(*old(tiles)), w as int, h as int),
    ensures
        is_grid(cells(*final(tiles)), w as int, h as int),
        (cells(*final(tiles)), final(gen).rng_state) == asteroid_cluster(
            (cells(*old(tiles)), old(gen).rng_state),
            w as int,
            h as int,
        ),
{
    let mx = if w > 20 { w - 20 } else { 0 };
    let cxu = place(gen, mx) + 10;
    let my = if h > 10 { h - 10 } else { 0 };
    let cyu = place(gen, my) + 5;
    let ru = pick(gen, 8, 3);
    let cx = cxu as i64;
    let cy = cyu as i64;
    let r = ru as i64;
    let ghost target = cluster_rows(
        (cells(*tiles), gen.rng_state),
        cx as int,
        cy as int,
        r as int,
        -r,
        w as int,
        h as int,
    );
    let mut dy: i64 = -r;
    while dy <= r
        invariant
            valid_dims(w as int, h as int),
            3 <= r <= 10,
            0 <= cx <= i32::MAX + 10,
            0 <= cy <= i32::MAX + 10,
            -r <= dy <= r + 1,
            is_grid(cells(*tiles), w as int, h as int),
            cluster_rows(
                (cells(*tiles), gen.rng_state),
                cx as int,
                cy as int,
                r as int,
                dy as int,
                w as int,
                h as int,
            ) == target,
        decreases r + 1 - dy,
    {
        let mut dx: i64 = -r;
        while dx <= r
            invariant
                valid_dims(w as int, h as int),
                3 <= r <= 10,
                0 <= cx <= i32::MAX + 10,
                0 <= cy <= i32::MAX + 10,
                -r <= dy <= r,
                -r <= dx <= r + 1,
                is_grid(cells(*tiles), w as int, h as int),
                cluster_rows(
                    cluster_row(
                        (cells(*tiles), gen.rng_state),
                        cx as int,
                        cy as int,
                        r as int,
                        dx as int,
                        dy as int,
                        w as int,
                        h as int,
                    ),
                    cx as int,
                    cy as int,
                    r as int,
                    dy + 1,
                    w as int,
                    h as int,
                ) == target,
            decreases r + 1 - dx,
        {
            let ghost before = (cells(*tiles), gen.rng_state);
            let x = cx + dx;
            let y = cy + dy;
            assert(0 <= dx * dx <= 10 * 10) by (nonlinear_arith)
                requires
                    -10 <= dx <= 10,
            ;
            assert(0 <= dy * dy <= 10 * 10) by (nonlinear_arith)
                requires
                    -10 <= dy <= 10,
            ;
            assert(0 <= r * r <= 10 * 10) by (nonlinear_arith)
                requires
                    0 <= r <= 10,
            ;
            if 10 * (dx * dx + dy * dy) < 7 * (r * r) && 0 < x && x < w as i64 - 1 && 0 < y && y
                < h as i64 - 1 {
                let xu = x as usize;
                let yu = y as usize;
                assert(cells(*tiles)[yu as int].len() == w);
                if tiles[yu][xu] == Tile::Floor {
                    let v = gen.rand();
                    if v % 3 != 0 {
                        tiles[yu][xu] = Tile::Asteroid;
                    }
                }
            }
            assert((cells(*tiles), gen.rng_state) =~~= cluster_cell(
                before,
                cx as int,
                cy as int,
                r as int,
                dx as int,
                dy as int,
                w as int,
                h as int,
            ));
            dx = dx + 1;
        }
        dy = dy + 1;
    }
}

/// Cells of the cloud whose offset comes before `(dy_end, dx_end)` in
/// row-major order have been converted.
spec fn cloud_upto(
    g: Seq<Seq<Tile>>,
    cx: int,
    cy: int,
    r: int,
    w: int,
    h: int,
    dy_end: int,
    dx_end: int,
) -> Seq<Seq<Tile>> {
    Seq::new(
        g.len(),
        |y: int|
            Seq::new(
                g[y].len(),
                |x: int|
                    if in_cloud(x - cx, y - cy, r) && interior(x, y, w, h) && g[y][x] == Tile::Floor && (
                    y - cy < dy_end || (y - cy == dy_end && x - cx < dx_end)) {
                        Tile::Nebula
                    } else {
                        g[y][x]
                    },
            ),
    )
}

fn add_nebula_cloud(tiles: &mut Vec<Vec<Tile>>, gen: &mut MapGenerator, w: usize, h: usize)
    requires
        valid_dims(w as int, h as int),
        is_grid(cells(*old(tiles)), w as int, h as int),
    ensures
        is_grid(cells(*final(tiles)), w as int, h as int),
        (cells(*final(tiles)), final(gen).rng_state) == nebula_cloud(
            (cells(*old(tiles)), old(gen).rng_state),
            w as int,
            h as int,
        ),
{
    let ghost g0 = cells(*tiles);
    let mx = if w > 30 { w - 30 } else { 0 };
    let cxu = place(gen, mx) + 15;
    let my = if h > 15 { h - 15 } else { 0 };
    let cyu = place(gen, my) + 7;
    let ru = pick(gen, 12, 5);
    let cx = cxu as i64;
    let cy = cyu as i64;
    let r = ru as i64;
    let mut dy: i64 = -r;
    assert(cells(*tiles) =~~= cloud_upto(g0, cx as int, cy as int, r as int, w as int, h as int, -r, -r));
    while dy <= r
        invariant
            valid_dims(w as int, h as int),
            is_grid(g0, w as int, h as int),
            is_grid(cells(*tiles), w as int, h as int),
            5 <= r <= 16,
            0 <= cx <= i32::MAX + 15,
            0 <= cy <= i32::MAX + 15,
            -r <= dy <= r + 1,
            cells(*tiles) =~~= cloud_upto(g0, cx as int, cy as int, r as int, w as int, h as int, dy as int, -r),
        decreases r + 1 - dy,
    {
        let mut dx: i64 = -r;
        while dx <= r
            invariant
                valid_dims(w as int, h as int),
                is_grid(g0, w as int, h as int),
                is_grid(cells(*tiles), w as int, h as int),
                5 <= r <= 16,
                0 <= cx <= i32::MAX + 15,
                0 <= cy <= i32::MAX + 15,
                -r <= dy <= r,
                -r <= dx <= r + 1,
                cells(*tiles) =~~= cloud_upto(
                    g0,
                    cx as int,
                    cy as int,
                    r as int,
                    w as int,
                    h as int,
                    dy as int,
                    dx as int,
                ),
            decreases r + 1 - dx,
        {
            let x = cx + dx;
            let y = cy + dy;
            assert(0 <= dx * dx <= 16 * 16) by (nonlinear_arith)
                requires
                    -16 <= dx <= 16,
            ;
            assert(0 <= dy * dy <= 16 * 16) by (nonlinear_arith)
                requires
                    -16 <= dy <= 16,
            ;
            assert(0 <= r * r <= 16 * 16) by (nonlinear_arith)
                requires
                    0 <= r <= 16,
            ;
            if 5 * (dx * dx + dy * dy) < 4 * (r * r) && 0 < x && x < w as i64 - 1 && 0 < y && y < h
                as i64 - 1 {
                let xu = x as usize;
                let yu = y as usize;
                assert(cells(*tiles)[yu as int].len() == w);
                assert(cells(*tiles)[yu as int][xu as int] == g0[yu as int][xu as int]);
                if tiles[yu][xu] == Tile::Floor {
                    tiles[yu][xu] = Tile::Nebula;
                }
            }
            assert(cells(*tiles) =~~= cloud_upto(
                g0,
                cx as int,
                cy as int,
                r as int,
                w as int,
                h as int,
                dy as int,
                dx + 1,
            ));
            dx = dx + 1;
        }
        assert(cells(*tiles) =~~= cloud_upto(g0, cx as int, cy as int, r as int, w as int, h as int, dy + 1, -r));
        dy = dy + 1;
    }
    assert(cells(*tiles) =~~= cloud(g0, cx as int, cy as int, r as int, w as int, h as int));
}


impl MapGenerator {
    /// Lays down the server's world of the given size from the current state.
    pub fn generate(&mut self, width: usize, height: usize) -> (r: MapData)
        requires
            valid_dims(width as int, height as int),
        ensures
            r.width == width,
            r.height == height,
            is_grid(cells(r.tiles), width as int, height as int),
            (cells(r.tiles), final(self).rng_state) == server_world(
                old(self).rng_state,
                width as int,
                height as int,
            ),
            border_is_wall(cells(r.tiles), width as int, height as int),
            ring_search(
                cells(r.tiles),
                width as int,
                height as int,
                START_SEARCH_RADIUS as int,
                (r.start_x, r.start_y),
            ),
    {
        let mut tiles = wall_grid(width, height);
        carve_row_bands(&mut tiles, self, width, height);
        carve_passages(&mut tiles, self, width, height);
        let area = width * height;

        let ghost st = (cells(tiles), self.rng_state);
        let n = area / 2000;
        let mut i: usize = 0;
        while i < n
            invariant
                valid_dims(width as int, height as int),
                i <= n,
                is_grid(cells(tiles), width as int, height as int),
                repeat(server_room_step(width as int, height as int), (cells(tiles), self.rng_state), (n - i) as nat)
                    == repeat(server_room_step(width as int, height as int), st, n as nat),
            decreases n - i,
        {
            add_server_room(&mut tiles, self, width, height);
            i = i + 1;
        }

        let ghost st = (cells(tiles), self.rng_state);
        let n = area / 5000;
        let mut i: usize = 0;
        while i < n
            invariant
                valid_dims(width as int, height as int),
                i <= n,
                is_grid(cells(tiles), width as int, height as int),
                repeat(asteroid_cluster_step(width as int, height as int), (cells(tiles), self.rng_state), (n - i) as nat)
                    == repeat(asteroid_cluster_step(width as int, height as int), st, n as nat),
            decreases n - i,
        {
            add_asteroid_cluster(&mut tiles, self, width, height);
            i = i + 1;
        }

        let ghost st = (cells(tiles), self.rng_state);
        let n = area / 8000;
        let mut i: usize = 0;
        while i < n
            invariant
                valid_dims(width as int, height as int),
                i <= n,
                is_grid(cells(tiles), width as int, height as int),
                repeat(nebula_cloud_step(width as int, height as int), (cells(tiles), self.rng_state), (n - i) as nat)
                    == repeat(nebula_cloud_step(width as int, height as int), st, n as nat),
            decreases n - i,
        {
            add_nebula_cloud(&mut tiles, self, width, height);
            i = i + 1;
        }

        proof {
            lemma_server_border(old(self).rng_state, width as int, height as int);
        }
        let start = self.find_start_position(&tiles, width, height);
        MapData { tiles, width, height, start_x: start.0, start_y: start.1 }
    }

    /// First passable cell of an expanding-ring search from the center over
    /// radii below `START_SEARCH_RADIUS`, or `(1, 1)` when there is none.
    pub fn find_start_position(&self, tiles: &Vec<Vec<Tile>>, width: usize, height: usize) -> (r: (
        i32,
        i32,
    ))
        requires
            valid_dims(width as int, height as int),
            is_grid(cells(*tiles), width as int, height as int),
        ensures
            ring_search(cells(*tiles), width as int, height as int, START_SEARCH_RADIUS as int, r),
    {
        search_start(tiles, width, height, START_SEARCH_RADIUS)
    }
}

impl MapQuery {
    /// The seed a request asks for, or `DEFAULT_SEED`.
    pub open spec fn seed_spec(&self) -> u64 {
        match self.seed {
            Some(s) => s,
            None => DEFAULT_SEED,
        }
    }

    pub fn effective_seed(&self) -> (r: u64)
        ensures
            r == self.seed_spec(),
    {
        match self.seed {
            Some(s) => s,
            None => DEFAULT_SEED,
        }
    }
}

/// The map that answers a request.
pub fn map_for_query(query: &MapQuery) -> (r: MapData)
    requires
        valid_dims(query.width as int, query.height as int),
    ensures
        r.width == query.width,
        r.height == query.height,
        cells(r.tiles) == server_world(query.seed_spec(), query.width as int, query.height as int).0,
        ring_search(
            cells(r.tiles),
            query.width as int,
            query.height as int,
            START_SEARCH_RADIUS as int,
            (r.start_x, r.start_y),
        ),
{
    let mut generator = MapGenerator::new(query.effective_seed());
    generator.generate(query.width, query.height)
}


/// Two answers to one context `(seed, width, height)` hold the same tiles and
/// the same start.
pub proof fn lemma_server_deterministic(seed: u64, width: int, height: int, a: MapData, b: MapData)
    requires
        cells(a.tiles) == server_world(seed, width, height).0,
        cells(b.tiles) == server_world(seed, width, height).0,
        ring_search(cells(a.tiles), width, height, START_SEARCH_RADIUS as int, (a.start_x, a.start_y)),
        ring_search(cells(b.tiles), width, height, START_SEARCH_RADIUS as int, (b.start_x, b.start_y)),
    ensures
        cells(a.tiles) == cells(b.tiles),
        a.start_x == b.start_x,
        a.start_y == b.start_y,
{
    lemma_search_unique(
        cells(a.tiles),
        width,
        height,
        START_SEARCH_RADIUS as int,
        (a.start_x, a.start_y),
        (b.start_x, b.start_y),
    );
}


/// A grid of the right shape whose outer ring is Wall.
pub open spec fn sealed(g: Seq<Seq<Tile>>, w: int, h: int) -> bool {
    is_grid(g, w, h) && border_is_wall(g, w, h)
}

proof fn lemma_fill_inside(g: Seq<Seq<Tile>>, x0: int, x1: int, y0: int, y1: int, t: Tile, w: int, h: int)
    requires
        sealed(g, w, h),
        1 <= x0,
        x1 <= w - 1,
        1 <= y0,
        y1 <= h - 1,
    ensures
        sealed(fill(g, x0, x1, y0, y1, t), w, h),
{
    let f = fill(g, x0, x1, y0, y1, t);
    assert forall|x: int, y: int|
        0 <= x < w && 0 <= y < h && (x == 0 || x == w - 1 || y == 0 || y == h - 1) implies #[trigger] f[y][x]
        == Tile::Wall by {
        assert(g[y].len() == w);
    }
}

proof fn lemma_row_bands_sealed(g: Seq<Seq<Tile>>, s: u64, y: int, w: int, h: int)
    requires
        sealed(g, w, h),
        y >= 1,
    ensures
        sealed(row_bands(g, s, y, w, h).0, w, h),
    decreases crate::world::max(h - y, 0),
{
    if y + 2 < h {
        let band = (draw(s) % 15) as int + 3;
        let s1 = lcg_step(s);
        let gap = (draw(s1) % 4) as int + 1;
        lemma_fill_inside(g, 1, w - 1, y, min(y + band, h - 1), Tile::Floor, w, h);
        lemma_row_bands_sealed(
            fill(g, 1, w - 1, y, min(y + band, h - 1), Tile::Floor),
            lcg_step(s1),
            y + band + gap,
            w,
            h,
        );
    }
}

proof fn lemma_passages_sealed(st: Stage, i: int, n: int, w: int, h: int)
    requires
        sealed(st.0, w, h),
        i >= 0,
    ensures
        sealed(passages(st, i, n, w, h).0, w, h),
    decreases n - i,
{
    if i < n {
        let (g, s0) = st;
        let x = i * 30 + 15 + (draw(s0) % 10) as int;
        let s1 = lcg_step(s0);
        if x < w - 1 {
            let pw = (draw(s1) % 8) as int + 2;
            assert(x >= 1) by (nonlinear_arith)
                requires
                    i >= 0,
                    x == i * 30 + 15 + (draw(s0) % 10) as int,
            ;
            lemma_fill_inside(g, x, min(x + pw, w - 1), 1, h - 1, Tile::Floor, w, h);
            lemma_passages_sealed(
                (fill(g, x, min(x + pw, w - 1), 1, h - 1, Tile::Floor), lcg_step(s1)),
                i + 1,
                n,
                w,
                h,
            );
        } else {
            lemma_passages_sealed((g, s1), i + 1, n, w, h);
        }
    }
}

proof fn lemma_cluster_row_sealed(st: Stage, cx: int, cy: int, r: int, dx: int, dy: int, w: int, h: int)
    requires
        sealed(st.0, w, h),
    ensures
        sealed(cluster_row(st, cx, cy, r, dx, dy, w, h).0, w, h),
    decreases r + 1 - dx,
{
    if dx <= r {
        let next = cluster_cell(st, cx, cy, r, dx, dy, w, h);
        let (g, s) = st;
        let x = cx + dx;
        let y = cy + dy;
        if in_cluster(dx, dy, r) && interior(x, y, w, h) && g[y][x] == Tile::Floor {
            let u = g.update(y, g[y].update(x, Tile::Asteroid));
            assert forall|i: int, j: int|
                0 <= i < w && 0 <= j < h && (i == 0 || i == w - 1 || j == 0 || j == h - 1) implies #[trigger] u[j][i]
                == Tile::Wall by {
                assert(g[j].len() == w);
            }
            assert forall|j: int| 0 <= j < h implies #[trigger] u[j].len() == w by {
                assert(g[j].len() == w);
            }
        }
        assert(sealed(next.0, w, h));
        lemma_cluster_row_sealed(next, cx, cy, r, dx + 1, dy, w, h);
    }
}

proof fn lemma_cluster_rows_sealed(st: Stage, cx: int, cy: int, r: int, dy: int, w: int, h: int)
    requires
        sealed(st.0, w, h),
    ensures
        sealed(cluster_rows(st, cx, cy, r, dy, w, h).0, w, h),
    decreases r + 1 - dy,
{
    if dy <= r {
        lemma_cluster_row_sealed(st, cx, cy, r, -r, dy, w, h);
        lemma_cluster_rows_sealed(cluster_row(st, cx, cy, r, -r, dy, w, h), cx, cy, r, dy + 1, w, h);
    }
}

proof fn lemma_repeat_sealed(step: spec_fn(Stage) -> Stage, st: Stage, n: nat, w: int, h: int)
    requires
        sealed(st.0, w, h),
        forall|t: Stage| sealed(t.0, w, h) ==> sealed(#[trigger] step(t).0, w, h),
    ensures
        sealed(repeat(step, st, n).0, w, h),
    decreases n,
{
    if n > 0 {
        lemma_repeat_sealed(step, step(st), (n - 1) as nat, w, h);
    }
}

/// Every world the server lays down is a `width` by `height` grid whose
/// first and last rows and columns are Wall.
pub proof fn lemma_server_border(seed: u64, width: int, height: int)
    requires
        valid_dims(width, height),
    ensures
        sealed(server_world(seed, width, height).0, width, height),
{
    let (w, h) = (width, height);
    let area = w * h;
    let g0 = walls(w, h);
    assert(sealed(g0, w, h));
    lemma_row_bands_sealed(g0, seed, 2, w, h);
    let st1 = row_bands(g0, seed, 2, w, h);
    lemma_passages_sealed(st1, 0, w / 30, w, h);
    let st2 = passages(st1, 0, w / 30, w, h);
    assert forall|t: Stage| sealed(t.0, w, h) implies sealed(#[trigger] server_room_step(w, h)(t).0, w, h) by {
        let (g, s0) = t;
        let rw = (draw(s0) % 20) as int + 5;
        let s1 = lcg_step(s0);
        let rh = (draw(s1) % 15) as int + 5;
        let s2 = lcg_step(s1);
        let rx = rem(draw(s2) as int, sat_sub(w, rw + 2)) + 1;
        let s3 = lcg_step(s2);
        let ry = rem(draw(s3) as int, sat_sub(h, rh + 2)) + 1;
        lemma_fill_inside(g, rx, min(rx + rw, w - 1), ry, min(ry + rh, h - 1), Tile::Floor, w, h);
    }
    lemma_repeat_sealed(server_room_step(w, h), st2, (area / 2000) as nat, w, h);
    let st3 = repeat(server_room_step(w, h), st2, (area / 2000) as nat);
    assert forall|t: Stage| sealed(t.0, w, h) implies sealed(#[trigger] asteroid_cluster_step(w, h)(t).0, w, h) by {
        let (g, s0) = t;
        let cx = rem(draw(s0) as int, sat_sub(w, 20)) + 10;
        let s1 = lcg_step(s0);
        let cy = rem(draw(s1) as int, sat_sub(h, 10)) + 5;
        let s2 = lcg_step(s1);
        let r = (draw(s2) % 8) as int + 3;
        lemma_cluster_rows_sealed((g, lcg_step(s2)), cx, cy, r, -r, w, h);
    }
    lemma_repeat_sealed(asteroid_cluster_step(w, h), st3, (area / 5000) as nat, w, h);
    let st4 = repeat(asteroid_cluster_step(w, h), st3, (area / 5000) as nat);
    assert forall|t: Stage| sealed(t.0, w, h) implies sealed(#[trigger] nebula_cloud_step(w, h)(t).0, w, h) by {
        let (g, s0) = t;
        let cx = rem(draw(s0) as int, sat_sub(w, 30)) + 15;
        let s1 = lcg_step(s0);
        let cy = rem(draw(s1) as int, sat_sub(h, 15)) + 7;
        let s2 = lcg_step(s1);
        let r = (draw(s2) % 12) as int + 5;
        let c = cloud(g, cx, cy, r, w, h);
        assert forall|x: int, y: int|
            0 <= x < w && 0 <= y < h && (x == 0 || x == w - 1 || y == 0 || y == h - 1) implies #[trigger] c[y][x]
            == Tile::Wall by {
            assert(g[y].len() == w);
        }
        assert forall|y: int| 0 <= y < h implies #[trigger] c[y].len() == w by {
            assert(g[y].len() == w);
        }
    }
    lemma_repeat_sealed(nebula_cloud_step(w, h), st4, (area / 8000) as nat, w, h);
}

} // verus!
