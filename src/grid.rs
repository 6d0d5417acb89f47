use vstd::prelude::*;

use crate::tile::Tile;

verus! {

/// The cells of a row-major grid, as a sequence of rows.
pub open spec fn cells(tiles: Vec<Vec<Tile>>) -> Seq<Seq<Tile>> {
    Seq::new(tiles@.len(), |y: int| tiles@[y]@)
}

/// `g` has `h` rows of `w` cells each.
pub open spec fn is_grid(g: Seq<Seq<Tile>>, w: int, h: int) -> bool {
    &&& g.len() == h
    &&& forall|y: int| 0 <= y < h ==> #[trigger] g[y].len() == w
}

/// A `w` by `h` grid of Wall.
pub open spec fn walls(w: int, h: int) -> Seq<Seq<Tile>> {
    Seq::new(h as nat, |y: int| Seq::new(w as nat, |x: int| Tile::Wall))
}

pub open spec fn in_rect(x: int, y: int, x0: int, x1: int, y0: int, y1: int) -> bool {
    x0 <= x < x1 && y0 <= y < y1
}

/// `g` with every cell of `[x0, x1) × [y0, y1)` set to `t`.
pub open spec fn fill(g: Seq<Seq<Tile>>, x0: int, x1: int, y0: int, y1: int, t: Tile) -> Seq<
    Seq<Tile>,
> {
    Seq::new(
        g.len(),
        |y: int|
            Seq::new(g[y].len(), |x: int| if in_rect(x, y, x0, x1, y0, y1) { t } else { g[y][x] }),
    )
}

/// `g` with every cell of `[x0, x1) × [y0, y1)` that holds `from` set to `to`.
pub open spec fn convert(
    g: Seq<Seq<Tile>>,
    x0: int,
    x1: int,
    y0: int,
    y1: int,
    from: Tile,
    to: Tile,
) -> Seq<Seq<Tile>> {
    Seq::new(
        g.len(),
        |y: int|
            Seq::new(
                g[y].len(),
                |x: int|
                    if in_rect(x, y, x0, x1, y0, y1) && g[y][x] == from {
                        to
                    } else {
                        g[y][x]
                    },
            ),
    )
}

/// Some cell of `[x0, x1) × [y0, y1)` inside `g` is Wall.
pub open spec fn has_wall(g: Seq<Seq<Tile>>, x0: int, x1: int, y0: int, y1: int) -> bool {
    exists|x: int, y: int|
        in_rect(x, y, x0, x1, y0, y1) && 0 <= y < g.len() && 0 <= x < g[y].len() && #[trigger] g[y][x]
            == Tile::Wall
}

/// `g` with its outer ring of cells set to Wall.
pub open spec fn seal(g: Seq<Seq<Tile>>, w: int, h: int) -> Seq<Seq<Tile>> {
    Seq::new(
        g.len(),
        |y: int|
            Seq::new(
                g[y].len(),
                |x: int|
                    if x == 0 || x == w - 1 || y == 0 || y == h - 1 {
                        Tile::Wall
                    } else {
                        g[y][x]
                    },
            ),
    )
}

pub fn wall_grid(w: usize, h: usize) -> (r: Vec<Vec<Tile>>)
    ensures
        cells(r) == walls(w as int, h as int),
{
    let mut rows: Vec<Vec<Tile>> = Vec::new();
    let mut j: usize = 0;
    while j < h
        invariant
            j <= h,
            cells(rows) =~~= walls(w as int, j as int),
        decreases h - j,
    {
        let mut row: Vec<Tile> = Vec::new();
        let mut i: usize = 0;
        while i < w
            invariant
                i <= w,
                row@ =~= Seq::new(i as nat, |x: int| Tile::Wall),
            decreases w - i,
        {
            row.push(Tile::Wall);
            i = i + 1;
        }
        let ghost before = cells(rows);
        rows.push(row);
        assert(cells(rows) =~~= before.push(row@));
        j = j + 1;
    }
    rows
}

/// `row` with every cell of `[x0, x1)` set to `t`.
pub open spec fn fill_span(row: Seq<Tile>, x0: int, x1: int, t: Tile) -> Seq<Tile> {
    Seq::new(row.len(), |x: int| if x0 <= x < x1 { t } else { row[x] })
}

fn fill_row(row: &mut Vec<Tile>, x0: usize, x1: usize, t: Tile)
    requires
        x1 <= old(row)@.len(),
    ensures
        final(row)@ == fill_span(old(row)@, x0 as int, x1 as int, t),
{
    let ghost r0 = row@;
    let mut x: usize = x0;
    while x < x1
        invariant
            x1 <= row@.len(),
            x0 <= x,
            x <= x1 || x == x0,
            row@ =~= fill_span(r0, x0 as int, x as int, t),
        decreases x1 - x,
    {
        row.set(x, t);
        x = x + 1;
    }
    assert(row@ =~= fill_span(r0, x0 as int, x1 as int, t));
}

/// Sets every cell of `[x0, x1) × [y0, y1)` to `t`.
pub fn fill_rect(tiles: &mut Vec<Vec<Tile>>, w: usize, x0: usize, x1: usize, y0: usize, y1: usize, t: Tile)
    requires
        is_grid(cells(*old(tiles)), w as int, old(tiles)@.len() as int),
        x1 <= w,
        y1 <= old(tiles)@.len(),
    ensures
        cells(*final(tiles)) == fill(cells(*old(tiles)), x0 as int, x1 as int, y0 as int, y1 as int, t),
        is_grid(cells(*final(tiles)), w as int, old(tiles)@.len() as int),
{
    let ghost g0 = cells(*tiles);
    let h = tiles.len();
    let mut y: usize = y0;
    while y < y1
        invariant
            h == tiles@.len(),
            y1 <= h,
            x1 <= w,
            y0 <= y,
            y <= y1 || y == y0,
            is_grid(g0, w as int, h as int),
            cells(*tiles) =~~= fill(g0, x0 as int, x1 as int, y0 as int, y as int, t),
        decreases y1 - y,
    {
        assert(cells(*tiles)[y as int].len() == w);
        let ghost before = cells(*tiles);
        fill_row(&mut tiles[y], x0, x1, t);
        assert(cells(*tiles) =~~= before.update(y as int, fill_span(before[y as int], x0 as int, x1 as int, t)));
        y = y + 1;
    }
    assert(cells(*tiles) =~~= fill(g0, x0 as int, x1 as int, y0 as int, y1 as int, t));
}

/// `row` with every cell of `[x0, x1)` that holds `from` set to `to`.
pub open spec fn convert_span(row: Seq<Tile>, x0: int, x1: int, from: Tile, to: Tile) -> Seq<Tile> {
    Seq::new(row.len(), |x: int| if x0 <= x < x1 && row[x] == from { to } else { row[x] })
}

fn convert_row(row: &mut Vec<Tile>, x0: usize, x1: usize, from: Tile, to: Tile)
    requires
        x1 <= old(row)@.len(),
    ensures
        final(row)@ == convert_span(old(row)@, x0 as int, x1 as int, from, to),
{
    let ghost r0 = row@;
    let mut x: usize = x0;
    while x < x1
        invariant
            x1 <= row@.len(),
            x0 <= x,
            x <= x1 || x == x0,
            row@.len() == r0.len(),
            forall|i: int| x <= i < row@.len() ==> row@[i] == r0[i],
            row@ =~= convert_span(r0, x0 as int, x as int, from, to),
        decreases x1 - x,
    {
        if row[x] == from {
            row.set(x, to);
        }
        x = x + 1;
    }
    assert(row@ =~= convert_span(r0, x0 as int, x1 as int, from, to));
}

/// Turns every cell of `[x0, x1) × [y0, y1)` that holds `from` into `to`.
pub fn convert_rect(
    tiles: &mut Vec<Vec<Tile>>,
    w: usize,
    x0: usize,
    x1: usize,
    y0: usize,
    y1: usize,
    from: Tile,
    to: Tile,
)
    requires
        is_grid(cells(*old(tiles)), w as int, old(tiles)@.len() as int),
        x1 <= w,
        y1 <= old(tiles)@.len(),
    ensures
        cells(*final(tiles)) == convert(
            cells(*old(tiles)),
            x0 as int,
            x1 as int,
            y0 as int,
            y1 as int,
            from,
            to,
        ),
        is_grid(cells(*final(tiles)), w as int, old(tiles)@.len() as int),
{
    let ghost g0 = cells(*tiles);
    let h = tiles.len();
    let mut y: usize = y0;
    while y < y1
        invariant
            h == tiles@.len(),
            y1 <= h,
            x1 <= w,
            y0 <= y,
            y <= y1 || y == y0,
            is_grid(g0, w as int, h as int),
            cells(*tiles) =~~= convert(g0, x0 as int, x1 as int, y0 as int, y as int, from, to),
        decreases y1 - y,
    {
        assert(cells(*tiles)[y as int].len() == w);
        let ghost before = cells(*tiles);
        assert(before[y as int] == g0[y as int]);
        convert_row(&mut tiles[y], x0, x1, from, to);
        assert(cells(*tiles) =~~= before.update(
            y as int,
            convert_span(before[y as int], x0 as int, x1 as int, from, to),
        ));
        y = y + 1;
    }
    assert(cells(*tiles) =~~= convert(g0, x0 as int, x1 as int, y0 as int, y1 as int, from, to));
}

/// Whether some cell of `[x0, x1) × [y0, y1)` is Wall.
pub fn rect_has_wall(tiles: &Vec<Vec<Tile>>, w: usize, x0: usize, x1: usize, y0: usize, y1: usize) -> (r: bool)
    requires
        is_grid(cells(*tiles), w as int, tiles@.len() as int),
        x1 <= w,
        y1 <= tiles@.len(),
    ensures
        r == has_wall(cells(*tiles), x0 as int, x1 as int, y0 as int, y1 as int),
{
    let ghost g = cells(*tiles);
    let mut y: usize = y0;
    while y < y1
        invariant
            y1 <= tiles@.len(),
            x1 <= w,
            y0 <= y,
            g == cells(*tiles),
            is_grid(g, w as int, tiles@.len() as int),
            forall|i: int, j: int|
                x0 <= i < x1 && y0 <= j < y ==> #[trigger] g[j][i] != Tile::Wall,
        decreases y1 - y,
    {
        assert(g[y as int].len() == w);
        let mut x: usize = x0;
        while x < x1
            invariant
                y0 <= y < y1 <= tiles@.len(),
                x1 <= w,
                x0 <= x,
                g == cells(*tiles),
                g[y as int].len() == w,
                forall|i: int, j: int|
                    x0 <= i < x1 && y0 <= j < y ==> #[trigger] g[j][i] != Tile::Wall,
                forall|i: int| x0 <= i < x ==> #[trigger] g[y as int][i] != Tile::Wall,
            decreases x1 - x,
        {
            if tiles[y][x] == Tile::Wall {
                assert(in_rect(x as int, y as int, x0 as int, x1 as int, y0 as int, y1 as int));
                assert(g[y as int][x as int] == Tile::Wall);
                return true;
            }
            x = x + 1;
        }
        y = y + 1;
    }
    false
}

} // verus!
