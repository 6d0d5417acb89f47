use vstd::prelude::*;

use crate::direction::{facing_of, Direction};
use crate::grid::{cells, is_grid};
use crate::map::GameMap;
use crate::start::passable_at;
use crate::tile::Tile;
use crate::world::{border_is_wall, valid_dims};

verus! {

/// The viewer: a position and the facing of its last attempted move.
#[derive(Clone, Copy, PartialEq, Eq, Debug, Structural)]
pub struct Player {
    pub x: i32,
    pub y: i32,
    pub direction: Direction,
}

/// The outcome of an attempt to move `p` by `(dx, dy)` on `g`: the full step
/// if it lands on a passable cell; else, for a diagonal step, the horizontal
/// part, then the vertical part; else no move. The facing follows the
/// attempted step whenever that step is a unit one.
pub open spec fn attempt(p: Player, dx: int, dy: int, g: Seq<Seq<Tile>>) -> (Player, bool) {
    if dx == 0 && dy == 0 {
        (p, false)
    } else {
        let q = match facing_of(dx, dy) {
            Some(d) => Player { direction: d, ..p },
            None => p,
        };
        let (x, y) = (p.x as int, p.y as int);
        if passable_at(g, x + dx, y + dy) {
            (Player { x: (x + dx) as i32, y: (y + dy) as i32, ..q }, true)
        } else if dx != 0 && dy != 0 && passable_at(g, x + dx, y) {
            (Player { x: (x + dx) as i32, ..q }, true)
        } else if dx != 0 && dy != 0 && passable_at(g, x, y + dy) {
            (Player { y: (y + dy) as i32, ..q }, true)
        } else {
            (q, false)
        }
    }
}

fn passable_wide(map: &GameMap, x: i64, y: i64) -> (r: bool)
    ensures
        r == passable_at(cells(map.tiles), x as int, y as int),
{
    if x < 0 || y < 0 || y as u64 >= map.tiles.len() as u64 {
        false
    } else {
        let row = &map.tiles[y as usize];
        if x as u64 >= row.len() as u64 {
            false
        } else {
            row[x as usize].is_passable()
        }
    }
}

impl Player {
    pub fn new(x: i32, y: i32) -> (r: Player)
        ensures
            r == (Player { x, y, direction: Direction::Up }),
    {
        Player { x, y, direction: Direction::Up }
    }

    /// Moves straight to `(x, y)` if that cell is passable; says whether it did.
    pub fn teleport(&mut self, x: i32, y: i32, map: &GameMap) -> (r: bool)
        ensures
            r == passable_at(cells(map.tiles), x as int, y as int),
            r ==> *final(self) == (Player { x, y, ..*old(self) }),
            !r ==> *final(self) == *old(self),
    {
        if map.is_passable(x, y) {
            self.x = x;
            self.y = y;
            true
        } else {
            false
        }
    }

    /// Tries to move by `(dx, dy)`, sliding along walls on a blocked
    /// diagonal; says whether the position changed.
    pub fn try_move(&mut self, dx: i32, dy: i32, map: &GameMap) -> (r: bool)
        ensures
            (*final(self), r) == attempt(*old(self), dx as int, dy as int, cells(map.tiles)),
    {
        if dx == 0 && dy == 0 {
            return false;
        }
        if let Some(dir) = Direction::from_delta(dx, dy) {
            self.direction = dir;
        }
        let x = self.x as i64;
        let y = self.y as i64;
        let new_x = x + dx as i64;
        let new_y = y + dy as i64;
        if passable_wide(map, new_x, new_y) {
            self.x = new_x as i32;
            self.y = new_y as i32;
            return true;
        }
        if dx != 0 && dy != 0 {
            if passable_wide(map, new_x, y) {
                self.x = new_x as i32;
                return true;
            }
            if passable_wide(map, x, new_y) {
                self.y = new_y as i32;
                return true;
            }
        }
        false
    }
}

/// A viewer at `(1, 1)` on a grid whose border is Wall cannot step left onto
/// the border: the move is refused, the position stays, and the facing turns
/// left.
pub proof fn lemma_border_blocks(p: Player, g: Seq<Seq<Tile>>, w: int, h: int)
    requires
        p.x == 1 && p.y == 1,
        is_grid(g, w, h),
        w > 1,
        h > 1,
        border_is_wall(g, w, h),
    ensures
        attempt(p, -1, 0, g) == (Player { x: 1, y: 1, direction: Direction::Left }, false),
{
    assert(g[1].len() == w);
    assert(g[1][0] == Tile::Wall);
}

/// On a diagonal step whose target is blocked but whose horizontal part is
/// open, the viewer advances horizontally only and the move counts as made.
pub proof fn lemma_wall_slide(p: Player, dx: int, dy: int, g: Seq<Seq<Tile>>, w: int, h: int)
    requires
        is_grid(g, w, h),
        valid_dims(w, h),
        dx == 1 || dx == -1,
        dy == 1 || dy == -1,
        !passable_at(g, p.x + dx, p.y + dy),
        passable_at(g, p.x + dx, p.y as int),
    ensures
        attempt(p, dx, dy, g).1,
        attempt(p, dx, dy, g).0.x == p.x + dx,
        attempt(p, dx, dy, g).0.y == p.y,
        facing_of(dx, dy) matches Some(d) && attempt(p, dx, dy, g).0.direction == d,
{
    assert(g[p.y as int].len() == w);
}

} // verus!
