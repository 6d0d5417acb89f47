//! The client's world generator: a base of Wall, horizontal and vertical
//! bands of Floor, rooms, rectangular nebulae, pillars, asteroid fields, and
//! a sealed border, all driven by one seeded stream.

use vstd::prelude::*;

use crate::grid::{
    cells, convert, convert_rect, fill, fill_rect, has_wall, in_rect, is_grid, rect_has_wall, seal,
    wall_grid, walls,
};
use crate::rng::{draw, lcg_step, MapGenerator};
use crate::tile::Tile;

verus! {

/// The grid under construction together with the generator state.
pub type Stage = (Seq<Seq<Tile>>, u64);

pub open spec fn min(a: int, b: int) -> int {
    if a < b { a } else { b }
}

pub open spec fn max(a: int, b: int) -> int {
    if a < b { b } else { a }
}

/// `a - b`, or 0 where that would be negative.
pub open spec fn sat_sub(a: int, b: int) -> int {
    if a > b { a - b } else { 0 }
}

/// `a % m`, with a zero modulus giving 0 (a placement with no room left
/// collapses onto its lowest position).
pub open spec fn rem(a: int, m: int) -> int {
    if m <= 0 { 0 } else { a % m }
}

/// The state after `k` draws from `s`.
pub open spec fn advance(s: u64, k: nat) -> u64
    decreases k,
{
    if k == 0 { s } else { lcg_step(advance(s, (k - 1) as nat)) }
}

/// Applies `step` `n` times.
pub open spec fn repeat(step: spec_fn(Stage) -> Stage, st: Stage, n: nat) -> Stage
    decreases n,
{
    if n == 0 { st } else { repeat(step, step(st), (n - 1) as nat) }
}

/// Horizontal bands of Floor walking down from row `y`: each band's height and
/// the wall gap after it are drawn in that order.
pub open spec fn row_bands(g: Seq<Seq<Tile>>, s: u64, y: int, w: int, h: int) -> Stage
    decreases max(h - y, 0),
{
    if y + 2 < h {
        let band = (draw(s) % 15) as int + 3;
        let s1 = lcg_step(s);
        let gap = (draw(s1) % 4) as int + 1;
        row_bands(fill(g, 1, w - 1, y, min(y + band, h - 1), Tile::Floor), lcg_step(s1), y + band + gap, w, h)
    } else {
        (g, s)
    }
}

/// Vertical bands of Floor walking right from column `x`.
pub open spec fn col_bands(g: Seq<Seq<Tile>>, s: u64, x: int, w: int, h: int) -> Stage
    decreases max(w - x, 0),
{
    if x + 2 < w {
        let band = (draw(s) % 18) as int + 2;
        let s1 = lcg_step(s);
        let gap = (draw(s1) % 6) as int + 2;
        col_bands(fill(g, x, min(x + band, w - 1), 1, h - 1, Tile::Floor), lcg_step(s1), x + band + gap, w, h)
    } else {
        (g, s)
    }
}

/// One rectangular room of Floor.
pub open spec fn room(st: Stage, w: int, h: int) -> Stage {
    let (g, s0) = st;
    let rw = (draw(s0) % 20 + 5) as int;
    let s1 = lcg_step(s0);
    let rh = (draw(s1) % 15 + 4) as int;
    let s2 = lcg_step(s1);
    let rx = max(rem(draw(s2) as int, sat_sub(w, rw + 2)), 1);
    let s3 = lcg_step(s2);
    let ry = max(rem(draw(s3) as int, sat_sub(h, rh + 2)), 1);
    (fill(g, rx, min(rx + rw, w - 1), ry, min(ry + rh, h - 1), Tile::Floor), lcg_step(s3))
}

/// One rectangular nebula: the Floor cells under it become Nebula.
pub open spec fn nebula(st: Stage, w: int, h: int) -> Stage {
    let (g, s0) = st;
    let nw = (draw(s0) % 30 + 10) as int;
    let s1 = lcg_step(s0);
    let nh = (draw(s1) % 20 + 8) as int;
    let s2 = lcg_step(s1);
    let nx = max(rem(draw(s2) as int, sat_sub(w, nw + 2)), 1);
    let s3 = lcg_step(s2);
    let ny = max(rem(draw(s3) as int, sat_sub(h, nh + 2)), 1);
    (
        convert(g, nx, min(nx + nw, w - 1), ny, min(ny + nh, h - 1), Tile::Floor, Tile::Nebula),
        lcg_step(s3),
    )
}

/// One candidate pillar of Wall, placed only where its box grown by one cell
/// holds no Wall.
pub open spec fn pillar(st: Stage, w: int, h: int) -> Stage {
    let (g, s0) = st;
    let pw = (draw(s0) % 8 + 1) as int;
    let s1 = lcg_step(s0);
    let ph = (draw(s1) % 8 + 1) as int;
    let s2 = lcg_step(s1);
    let px = rem(draw(s2) as int, sat_sub(w, pw + 4)) + 2;
    let s3 = lcg_step(s2);
    let py = rem(draw(s3) as int, sat_sub(h, ph + 4)) + 2;
    let s4 = lcg_step(s3);
    if has_wall(g, px - 1, min(px + pw + 1, w), py - 1, min(py + ph + 1, h)) {
        (g, s4)
    } else {
        (fill(g, px, min(px + pw, w - 1), py, min(py + ph, h - 1), Tile::Wall), s4)
    }
}

/// Index of a cell in the row-major walk of a rectangle whose rows are `span` wide.
pub open spec fn walk_index(x: int, y: int, x0: int, y0: int, span: int) -> int {
    (y - y0) * span + (x - x0)
}

/// One draw per cell of `[x0, x1) × [y0, y1)` in row-major order; a Floor cell
/// whose draw is a multiple of 3 becomes Asteroid.
pub open spec fn scatter(g: Seq<Seq<Tile>>, s: u64, x0: int, x1: int, y0: int, y1: int) -> Stage {
    let span = max(x1 - x0, 0);
    (
        Seq::new(
            g.len(),
            |y: int|
                Seq::new(
                    g[y].len(),
                    |x: int|
                        if in_rect(x, y, x0, x1, y0, y1) && g[y][x] == Tile::Floor && draw(
                            advance(s, walk_index(x, y, x0, y0, span) as nat),
                        ) % 3 == 0 {
                            Tile::Asteroid
                        } else {
                            g[y][x]
                        },
                ),
        ),
        advance(s, (max(y1 - y0, 0) * span) as nat),
    )
}

/// One rectangular asteroid field.
pub open spec fn field(st: Stage, w: int, h: int) -> Stage {
    let (g, s0) = st;
    let fw = (draw(s0) % 15 + 5) as int;
    let s1 = lcg_step(s0);
    let fh = (draw(s1) % 10 + 4) as int;
    let s2 = lcg_step(s1);
    let fx = max(rem(draw(s2) as int, sat_sub(w, fw + 2)), 1);
    let s3 = lcg_step(s2);
    let fy = max(rem(draw(s3) as int, sat_sub(h, fh + 2)), 1);
    scatter(g, lcg_step(s3), fx, min(fx + fw, w - 1), fy, min(fy + fh, h - 1))
}

pub open spec fn room_step(w: int, h: int) -> spec_fn(Stage) -> Stage {
    |st: Stage| room(st, w, h)
}

pub open spec fn nebula_step(w: int, h: int) -> spec_fn(Stage) -> Stage {
    |st: Stage| nebula(st, w, h)
}

pub open spec fn pillar_step(w: int, h: int) -> spec_fn(Stage) -> Stage {
    |st: Stage| pillar(st, w, h)
}

pub open spec fn field_step(w: int, h: int) -> spec_fn(Stage) -> Stage {
    |st: Stage| field(st, w, h)
}

/// Sizes that a world can have: at least one cell each way, coordinates that
/// fit an `i32`, and a cell count that fits a `usize`.
pub open spec fn valid_dims(w: int, h: int) -> bool {
    &&& 1 <= w <= i32::MAX
    &&& 1 <= h <= i32::MAX
    &&& w * h <= usize::MAX
}

/// The feature passes of generation, before the border is sealed.
pub open spec fn carved_world(seed: u64, w: int, h: int) -> Seq<Seq<Tile>> {
    let area = w * h;
    let st1 = row_bands(walls(w, h), seed, 2, w, h);
    let st2 = col_bands(st1.0, st1.1, 2, w, h);
    let st3 = repeat(room_step(w, h), st2, (area / 2000) as nat);
    let st4 = repeat(nebula_step(w, h), st3, (area / 5000) as nat);
    let st5 = repeat(pillar_step(w, h), st4, (area / 500) as nat);
    repeat(field_step(w, h), st5, (area / 3000) as nat).0
}

/// The world that the generation context `(seed, w, h)` determines.
pub open spec fn local_world(seed: u64, w: int, h: int) -> Seq<Seq<Tile>> {
    seal(carved_world(seed, w, h), w, h)
}


pub proof fn lemma_advance_add(s: u64, a: nat, b: nat)
    ensures
        advance(advance(s, a), b) == advance(s, a + b),
    decreases b,
{
    if b > 0 {
        lemma_advance_add(s, a, (b - 1) as nat);
    }
}

pub(crate) fn pick(gen: &mut MapGenerator, m: u64, base: usize) -> (r: usize)
    requires
        0 < m <= 100,
        base <= 100,
    ensures
        r == (draw(old(gen).rng_state) % m) as int + base,
        final(gen).rng_state == lcg_step(old(gen).rng_state),
        r < 200,
{
    let v = gen.rand();
    (v % m) as usize + base
}

/// Draws a position in `[0, m)`, or 0 where `m` is 0.
pub(crate) fn place(gen: &mut MapGenerator, m: usize) -> (r: usize)
    ensures
        r == rem(draw(old(gen).rng_state) as int, m as int),
        final(gen).rng_state == lcg_step(old(gen).rng_state),
        m > 0 ==> r < m,
        m == 0 ==> r == 0,
{
    let v = gen.rand() as usize;
    if m == 0 {
        0
    } else {
        v % m
    }
}

pub(crate) fn min_usize(a: usize, b: usize) -> (r: usize)
    ensures
        r == min(a as int, b as int),
{
    if a < b { a } else { b }
}

pub(crate) fn carve_row_bands(tiles: &mut Vec<Vec<Tile>>, gen: &mut MapGenerator, w: usize, h: usize)
    requires
        valid_dims(w as int, h as int),
        is_grid(cells(*old(tiles)), w as int, h as int),
    ensures
        is_grid(cells(*final(tiles)), w as int, h as int),
        (cells(*final(tiles)), final(gen).rng_state) == row_bands(
            cells(*old(tiles)),
            old(gen).rng_state,
            2,
            w as int,
            h as int,
        ),
{
    let ghost g0 = cells(*tiles);
    let ghost s0 = gen.rng_state;
    let mut y: usize = 2;
    while y + 2 < h
        invariant
            valid_dims(w as int, h as int),
            y <= h + 30,
            is_grid(cells(*tiles), w as int, h as int),
            row_bands(cells(*tiles), gen.rng_state, y as int, w as int, h as int) == row_bands(
                g0,
                s0,
                2,
                w as int,
                h as int,
            ),
        decreases h + 30 - y,
    {
        let band = pick(gen, 15, 3);
        let gap = pick(gen, 4, 1);
        let end = min_usize(y + band, h - 1);
        fill_rect(tiles, w, 1, w - 1, y, end, Tile::Floor);
        y = y + band + gap;
    }
}

fn carve_col_bands(tiles: &mut Vec<Vec<Tile>>, gen: &mut MapGenerator, w: usize, h: usize)
    requires
        valid_dims(w as int, h as int),
        is_grid(cells(*old(tiles)), w as int, h as int),
    ensures
        is_grid(cells(*final(tiles)), w as int, h as int),
        (cells(*final(tiles)), final(gen).rng_state) == col_bands(
            cells(*old(tiles)),
            old(gen).rng_state,
            2,
            w as int,
            h as int,
        ),
{
    let ghost g0 = cells(*tiles);
    let ghost s0 = gen.rng_state;
    let mut x: usize = 2;
    while x + 2 < w
        invariant
            valid_dims(w as int, h as int),
            x <= w + 30,
            is_grid(cells(*tiles), w as int, h as int),
            col_bands(cells(*tiles), gen.rng_state, x as int, w as int, h as int) == col_bands(
                g0,
                s0,
                2,
                w as int,
                h as int,
            ),
        decreases w + 30 - x,
    {
        let band = pick(gen, 18, 2);
        let gap = pick(gen, 6, 2);
        let end = min_usize(x + band, w - 1);
        fill_rect(tiles, w, x, end, 1, h - 1, Tile::Floor);
        x = x + band + gap;
    }
}

fn add_room(tiles: &mut Vec<Vec<Tile>>, gen: &mut MapGenerator, w: usize, h: usize)
    requires
        valid_dims(w as int, h as int),
        is_grid(cells(*old(tiles)), w as int, h as int),
    ensures
        is_grid(cells(*final(tiles)), w as int, h as int),
        (cells(*final(tiles)), final(gen).rng_state) == room(
            (cells(*old(tiles)), old(gen).rng_state),
            w as int,
            h as int,
        ),
{
    let rw = pick(gen, 20, 5);
    let rh = pick(gen, 15, 4);
    let mx = if w > rw + 2 { w - (rw + 2) } else { 0 };
    let rx0 = place(gen, mx);
    let rx = if rx0 < 1 { 1 } else { rx0 };
    let my = if h > rh + 2 { h - (rh + 2) } else { 0 };
    let ry0 = place(gen, my);
    let ry = if ry0 < 1 { 1 } else { ry0 };
    let ex = min_usize(rx + rw, w - 1);
    let ey = min_usize(ry + rh, h - 1);
    fill_rect(tiles, w, rx, ex, ry, ey, Tile::Floor);
}

fn add_nebula(tiles: &mut Vec<Vec<Tile>>, gen: &mut MapGenerator, w: usize, h: usize)
    requires
        valid_dims(w as int, h as int),
        is_grid(cells(*old(tiles)), w as int, h as int),
    ensures
        is_grid(cells(*final(tiles)), w as int, h as int),
        (cells(*final(tiles)), final(gen).rng_state) == nebula(
            (cells(*old(tiles)), old(gen).rng_state),
            w as int,
            h as int,
        ),
{
    let nw = pick(gen, 30, 10);
    let nh = pick(gen, 20, 8);
    let mx = if w > nw + 2 { w - (nw + 2) } else { 0 };
    let nx0 = place(gen, mx);
    let nx = if nx0 < 1 { 1 } else { nx0 };
    let my = if h > nh + 2 { h - (nh + 2) } else { 0 };
    let ny0 = place(gen, my);
    let ny = if ny0 < 1 { 1 } else { ny0 };
    let ex = min_usize(nx + nw, w - 1);
    let ey = min_usize(ny + nh, h - 1);
    convert_rect(tiles, w, nx, ex, ny, ey, Tile::Floor, Tile::Nebula);
}

fn add_pillar(tiles: &mut Vec<Vec<Tile>>, gen: &mut MapGenerator, w: usize, h: usize)
    requires
        valid_dims(w as int, h as int),
        is_grid(cells(*old(tiles)), w as int, h as int),
    ensures
        is_grid(cells(*final(tiles)), w as int, h as int),
        (cells(*final(tiles)), final(gen).rng_state) == pillar(
            (cells(*old(tiles)), old(gen).rng_state),
            w as int,
            h as int,
        ),
{
    let pw = pick(gen, 8, 1);
    let ph = pick(gen, 8, 1);
    let mx = if w > pw + 4 { w - (pw + 4) } else { 0 };
    let px = place(gen, mx) + 2;
    let my = if h > ph + 4 { h - (ph + 4) } else { 0 };
    let py = place(gen, my) + 2;
    let blocked = rect_has_wall(
        tiles,
        w,
        px - 1,
        min_usize(px + pw + 1, w),
        py - 1,
        min_usize(py + ph + 1, h),
    );
    if !blocked {
        let ex = min_usize(px + pw, w - 1);
        let ey = min_usize(py + ph, h - 1);
        fill_rect(tiles, w, px, ex, py, ey, Tile::Wall);
    }
}

/// The row-major walk of `scatter` over one row.
fn scatter_row(row: &mut Vec<Tile>, gen: &mut MapGenerator, x0: usize, x1: usize)
    requires
        x0 <= x1 <= old(row)@.len(),
    ensures
        final(row)@ == Seq::new(
            old(row)@.len(),
            |x: int|
                if x0 <= x < x1 && old(row)@[x] == Tile::Floor && draw(
                    advance(old(gen).rng_state, (x - x0) as nat),
                ) % 3 == 0 {
                    Tile::Asteroid
                } else {
                    old(row)@[x]
                },
        ),
        final(gen).rng_state == advance(old(gen).rng_state, (x1 - x0) as nat),
{
    let ghost r0 = row@;
    let ghost s0 = gen.rng_state;
    let mut x: usize = x0;
    while x < x1
        invariant
            x0 <= x <= x1 <= row@.len(),
            row@.len() == r0.len(),
            gen.rng_state == advance(s0, (x - x0) as nat),
            forall|i: int| x <= i < row@.len() ==> row@[i] == r0[i],
            row@ =~= Seq::new(
                r0.len(),
                |i: int|
                    if x0 <= i < x && r0[i] == Tile::Floor && draw(advance(s0, (i - x0) as nat)) % 3
                        == 0 {
                        Tile::Asteroid
                    } else {
                        r0[i]
                    },
            ),
        decreases x1 - x,
    {
        let v = gen.rand();
        if v % 3 == 0 && row[x] == Tile::Floor {
            row.set(x, Tile::Asteroid);
        }
        x = x + 1;
    }
}

fn scatter_rect(
    tiles: &mut Vec<Vec<Tile>>,
    gen: &mut MapGenerator,
    w: usize,
    x0: usize,
    x1: usize,
    y0: usize,
    y1: usize,
)
    requires
        is_grid(cells(*old(tiles)), w as int, old(tiles)@.len() as int),
        x1 <= w,
        y1 <= old(tiles)@.len(),
    ensures
        is_grid(cells(*final(tiles)), w as int, old(tiles)@.len() as int),
        (cells(*final(tiles)), final(gen).rng_state) == scatter(
            cells(*old(tiles)),
            old(gen).rng_state,
            x0 as int,
            x1 as int,
            y0 as int,
            y1 as int,
        ),
{
    let ghost g0 = cells(*tiles);
    let ghost s0 = gen.rng_state;
    if x1 <= x0 || y1 <= y0 {
        assert(max(y1 - y0, 0) * max(x1 - x0, 0) == 0) by (nonlinear_arith)
            requires
                x1 <= x0 || y1 <= y0,
        ;
        assert(advance(s0, 0) == s0);
        assert(cells(*tiles) =~~= scatter(g0, s0, x0 as int, x1 as int, y0 as int, y1 as int).0);
        return;
    }
    let span = x1 - x0;
    let h = tiles.len();
    let mut y: usize = y0;
    assert(((y - y0) * span) as nat == 0nat);
    assert(advance(s0, 0) == s0);
    assert(cells(*tiles) =~~= scatter(g0, s0, x0 as int, x1 as int, y0 as int, y as int).0);
    while y < y1
        invariant
            h == tiles@.len(),
            x0 < x1 <= w,
            span == x1 - x0,
            y0 <= y <= y1 <= h,
            is_grid(g0, w as int, h as int),
            gen.rng_state == advance(s0, ((y - y0) * span) as nat),
            cells(*tiles) =~~= scatter(g0, s0, x0 as int, x1 as int, y0 as int, y as int).0,
        decreases y1 - y,
    {
        assert(cells(*tiles)[y as int].len() == w);
        let ghost before = cells(*tiles);
        let ghost sb = gen.rng_state;
        assert(before[y as int] == g0[y as int]);
        scatter_row(&mut tiles[y], gen, x0, x1);
        proof {
            lemma_advance_add(s0, ((y - y0) * span) as nat, span as nat);
            assert((y - y0) * span + span == (y + 1 - y0) * span) by (nonlinear_arith);
            assert forall|i: int| x0 <= i < x1 implies advance(sb, (i - x0) as nat) == advance(
                s0,
                walk_index(i, y as int, x0 as int, y0 as int, span as int) as nat,
            ) by {
                lemma_advance_add(s0, ((y - y0) * span) as nat, (i - x0) as nat);
            }
        }
        let ghost next = scatter(g0, s0, x0 as int, x1 as int, y0 as int, y as int + 1).0;
        let ghost prev = scatter(g0, s0, x0 as int, x1 as int, y0 as int, y as int).0;
        assert forall|j: int| 0 <= j < h implies #[trigger] cells(*tiles)[j] =~= next[j] by {
            assert(before[j] =~= prev[j]);
            if j != y as int {
                assert(cells(*tiles)[j] == before[j]);
                assert forall|i: int| 0 <= i < w implies prev[j][i] == next[j][i] by {}
            } else {
                assert forall|i: int| 0 <= i < w implies cells(*tiles)[j][i] == next[j][i] by {
                    if x0 <= i < x1 {
                        assert(advance(sb, (i - x0) as nat) == advance(
                            s0,
                            walk_index(i, y as int, x0 as int, y0 as int, span as int) as nat,
                        ));
                    }
                }
            }
        }
        assert(cells(*tiles) =~~= next);
        y = y + 1;
    }
}

fn add_field(tiles: &mut Vec<Vec<Tile>>, gen: &mut MapGenerator, w: usize, h: usize)
    requires
        valid_dims(w as int, h as int),
        is_grid(cells(*old(tiles)), w as int, h as int),
    ensures
        is_grid(cells(*final(tiles)), w as int, h as int),
        (cells(*final(tiles)), final(gen).rng_state) == field(
            (cells(*old(tiles)), old(gen).rng_state),
            w as int,
            h as int,
        ),
{
    let fw = pick(gen, 15, 5);
    let fh = pick(gen, 10, 4);
    let mx = if w > fw + 2 { w - (fw + 2) } else { 0 };
    let fx0 = place(gen, mx);
    let fx = if fx0 < 1 { 1 } else { fx0 };
    let my = if h > fh + 2 { h - (fh + 2) } else { 0 };
    let fy0 = place(gen, my);
    let fy = if fy0 < 1 { 1 } else { fy0 };
    let ex = min_usize(fx + fw, w - 1);
    let ey = min_usize(fy + fh, h - 1);
    scatter_rect(tiles, gen, w, fx, ex, fy, ey);
}


/// Forces the outer ring of cells to Wall.
fn seal_border(tiles: &mut Vec<Vec<Tile>>, w: usize, h: usize)
    requires
        valid_dims(w as int, h as int),
        is_grid(cells(*old(tiles)), w as int, h as int),
    ensures
        is_grid(cells(*final(tiles)), w as int, h as int),
        cells(*final(tiles)) == seal(cells(*old(tiles)), w as int, h as int),
{
    let ghost g0 = cells(*tiles);
    fill_rect(tiles, w, 0, w, 0, 1, Tile::Wall);
    fill_rect(tiles, w, 0, w, h - 1, h, Tile::Wall);
    fill_rect(tiles, w, 0, 1, 0, h, Tile::Wall);
    fill_rect(tiles, w, w - 1, w, 0, h, Tile::Wall);
    assert(cells(*tiles) =~~= seal(g0, w as int, h as int));
}

/// Lays down the world of the generation context `(seed, w, h)`.
pub fn generate_world(seed: u64, w: usize, h: usize) -> (r: Vec<Vec<Tile>>)
    requires
        valid_dims(w as int, h as int),
    ensures
        is_grid(cells(r), w as int, h as int),
        cells(r) == local_world(seed, w as int, h as int),
{
    let mut tiles = wall_grid(w, h);
    let mut gen = MapGenerator::new(seed);
    carve_row_bands(&mut tiles, &mut gen, w, h);
    carve_col_bands(&mut tiles, &mut gen, w, h);
    let area = w * h;

    let ghost st = (cells(tiles), gen.rng_state);
    let n = area / 2000;
    let mut i: usize = 0;
    while i < n
        invariant
            valid_dims(w as int, h as int),
            i <= n,
            is_grid(cells(tiles), w as int, h as int),
            repeat(room_step(w as int, h as int), (cells(tiles), gen.rng_state), (n - i) as nat)
                == repeat(room_step(w as int, h as int), st, n as nat),
        decreases n - i,
    {
        add_room(&mut tiles, &mut gen, w, h);
        i = i + 1;
    }

    let ghost st = (cells(tiles), gen.rng_state);
    let n = area / 5000;
    let mut i: usize = 0;
    while i < n
        invariant
            valid_dims(w as int, h as int),
            i <= n,
            is_grid(cells(tiles), w as int, h as int),
            repeat(nebula_step(w as int, h as int), (cells(tiles), gen.rng_state), (n - i) as nat)
                == repeat(nebula_step(w as int, h as int), st, n as nat),
        decreases n - i,
    {
        add_nebula(&mut tiles, &mut gen, w, h);
        i = i + 1;
    }

    let ghost st = (cells(tiles), gen.rng_state);
    let n = area / 500;
    let mut i: usize = 0;
    while i < n
        invariant
            valid_dims(w as int, h as int),
            i <= n,
            is_grid(cells(tiles), w as int, h as int),
            repeat(pillar_step(w as int, h as int), (cells(tiles), gen.rng_state), (n - i) as nat)
                == repeat(pillar_step(w as int, h as int), st, n as nat),
        decreases n - i,
    {
        add_pillar(&mut tiles, &mut gen, w, h);
        i = i + 1;
    }

    let ghost st = (cells(tiles), gen.rng_state);
    let n = area / 3000;
    let mut i: usize = 0;
    while i < n
        invariant
            valid_dims(w as int, h as int),
            i <= n,
            is_grid(cells(tiles), w as int, h as int),
            repeat(field_step(w as int, h as int), (cells(tiles), gen.rng_state), (n - i) as nat)
                == repeat(field_step(w as int, h as int), st, n as nat),
        decreases n - i,
    {
        add_field(&mut tiles, &mut gen, w, h);
        i = i + 1;
    }

    seal_border(&mut tiles, w, h);
    tiles
}


proof fn lemma_row_bands_shape(g: Seq<Seq<Tile>>, s: u64, y: int, w: int, h: int)
    requires
        is_grid(g, w, h),
    ensures
        is_grid(row_bands(g, s, y, w, h).0, w, h),
    decreases max(h - y, 0),
{
    if y + 2 < h {
        let band = (draw(s) % 15) as int + 3;
        let s1 = lcg_step(s);
        let gap = (draw(s1) % 4) as int + 1;
        lemma_row_bands_shape(
            fill(g, 1, w - 1, y, min(y + band, h - 1), Tile::Floor),
            lcg_step(s1),
            y + band + gap,
            w,
            h,
        );
    }
}

proof fn lemma_col_bands_shape(g: Seq<Seq<Tile>>, s: u64, x: int, w: int, h: int)
    requires
        is_grid(g, w, h),
    ensures
        is_grid(col_bands(g, s, x, w, h).0, w, h),
    decreases max(w - x, 0),
{
    if x + 2 < w {
        let band = (draw(s) % 18) as int + 2;
        let s1 = lcg_step(s);
        let gap = (draw(s1) % 6) as int + 2;
        lemma_col_bands_shape(
            fill(g, x, min(x + band, w - 1), 1, h - 1, Tile::Floor),
            lcg_step(s1),
            x + band + gap,
            w,
            h,
        );
    }
}

proof fn lemma_repeat_shape(step: spec_fn(Stage) -> Stage, st: Stage, n: nat, w: int, h: int)
    requires
        is_grid(st.0, w, h),
        forall|t: Stage| is_grid(t.0, w, h) ==> is_grid(#[trigger] step(t).0, w, h),
    ensures
        is_grid(repeat(step, st, n).0, w, h),
    decreases n,
{
    if n > 0 {
        lemma_repeat_shape(step, step(st), (n - 1) as nat, w, h);
    }
}

/// A generated world is a `w` by `h` grid.
pub proof fn lemma_world_shape(seed: u64, w: int, h: int)
    requires
        valid_dims(w, h),
    ensures
        is_grid(carved_world(seed, w, h), w, h),
        is_grid(local_world(seed, w, h), w, h),
{
    let area = w * h;
    let st1 = row_bands(walls(w, h), seed, 2, w, h);
    lemma_row_bands_shape(walls(w, h), seed, 2, w, h);
    let st2 = col_bands(st1.0, st1.1, 2, w, h);
    lemma_col_bands_shape(st1.0, st1.1, 2, w, h);
    let st3 = repeat(room_step(w, h), st2, (area / 2000) as nat);
    lemma_repeat_shape(room_step(w, h), st2, (area / 2000) as nat, w, h);
    let st4 = repeat(nebula_step(w, h), st3, (area / 5000) as nat);
    lemma_repeat_shape(nebula_step(w, h), st3, (area / 5000) as nat, w, h);
    let st5 = repeat(pillar_step(w, h), st4, (area / 500) as nat);
    lemma_repeat_shape(pillar_step(w, h), st4, (area / 500) as nat, w, h);
    lemma_repeat_shape(field_step(w, h), st5, (area / 3000) as nat, w, h);
}

/// Every cell of the outer ring of `g` is Wall.
pub open spec fn border_is_wall(g: Seq<Seq<Tile>>, w: int, h: int) -> bool {
    forall|x: int, y: int|
        0 <= x < w && 0 <= y < h && (x == 0 || x == w - 1 || y == 0 || y == h - 1) ==> #[trigger] g[y][x]
            == Tile::Wall
}

/// Every generated world is sealed: each cell in its first or last row or
/// column is Wall.
pub proof fn lemma_world_border(seed: u64, w: int, h: int)
    requires
        valid_dims(w, h),
    ensures
        border_is_wall(local_world(seed, w, h), w, h),
{
    lemma_world_shape(seed, w, h);
    let g = carved_world(seed, w, h);
    assert forall|x: int, y: int|
        0 <= x < w && 0 <= y < h && (x == 0 || x == w - 1 || y == 0 || y == h - 1) implies #[trigger] local_world(
        seed,
        w,
        h,
    )[y][x] == Tile::Wall by {
        assert(g[y].len() == w);
    }
}

} // verus!
