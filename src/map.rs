use vstd::prelude::*;

use crate::grid::{cells, is_grid};
use crate::start::{lemma_search_unique, passable_at, ring_search, search_start, tile_at};
use crate::tile::Tile;
use crate::world::{border_is_wall, generate_world, local_world, max, valid_dims};

verus! {

/// Seed of the world that the client lays down when no server answers.
pub const LOCAL_SEED: u64 = 12345;

/// A world as it travels between server and client.
pub struct MapData {
    pub tiles: Vec<Vec<Tile>>,
    pub width: usize,
    pub height: usize,
    pub start_x: i32,
    pub start_y: i32,
}

/// Where a map came from.
#[derive(Clone, Copy, PartialEq, Eq, Debug, Structural)]
pub enum MapSource {
    Server,
    Local,
}

/// The world the viewer moves in.
pub struct GameMap {
    pub tiles: Vec<Vec<Tile>>,
    pub width: usize,
    pub height: usize,
    /// A start handed over with the map, trusted as it is.
    pub start_position: Option<(i32, i32)>,
}

impl GameMap {
    /// The tiles form a `width` by `height` grid of a size a world can have.
    pub open spec fn wf(&self) -> bool {
        &&& valid_dims(self.width as int, self.height as int)
        &&& is_grid(cells(self.tiles), self.width as int, self.height as int)
    }

    /// Where a viewer starts on this map.
    pub open spec fn resolved_start(&self, p: (i32, i32)) -> bool {
        match self.start_position {
            Some(q) => p == q,
            None => ring_search(
                cells(self.tiles),
                self.width as int,
                self.height as int,
                max(self.width as int, self.height as int),
                p,
            ),
        }
    }

    /// The world of `(seed, width, height)`, with its start left to the search.
    pub fn generate_seeded(seed: u64, width: usize, height: usize) -> (r: GameMap)
        requires
            valid_dims(width as int, height as int),
        ensures
            r.wf(),
            r.width == width,
            r.height == height,
            r.start_position is None,
            cells(r.tiles) == local_world(seed, width as int, height as int),
            border_is_wall(cells(r.tiles), width as int, height as int),
    {
        let tiles = generate_world(seed, width, height);
        proof {
            crate::world::lemma_world_border(seed, width as int, height as int);
        }
        GameMap { tiles, width, height, start_position: None }
    }

    /// The client's own world of the given size.
    pub fn generate_local(width: usize, height: usize) -> (r: GameMap)
        requires
            valid_dims(width as int, height as int),
        ensures
            r.wf(),
            r.width == width,
            r.height == height,
            r.start_position is None,
            cells(r.tiles) == local_world(LOCAL_SEED, width as int, height as int),
            border_is_wall(cells(r.tiles), width as int, height as int),
    {
        GameMap::generate_seeded(LOCAL_SEED, width, height)
    }

    /// A map received from the server, whose start is taken as given.
    pub fn from_data(data: MapData) -> (r: GameMap)
        ensures
            r.tiles == data.tiles,
            r.width == data.width,
            r.height == data.height,
            r.start_position == Some((data.start_x, data.start_y)),
    {
        GameMap {
            tiles: data.tiles,
            width: data.width,
            height: data.height,
            start_position: Some((data.start_x, data.start_y)),
        }
    }

    /// The map a session starts with: the one fetched, if any, else the
    /// client's own world of the fallback size.
    pub fn bootstrap(fetched: Option<MapData>, fallback_width: usize, fallback_height: usize) -> (r: (
        GameMap,
        MapSource,
    ))
        requires
            valid_dims(fallback_width as int, fallback_height as int),
        ensures
            match fetched {
                Some(d) => r.1 == MapSource::Server && r.0.tiles == d.tiles && r.0.width == d.width
                    && r.0.height == d.height && r.0.start_position == Some((d.start_x, d.start_y)),
                None => r.1 == MapSource::Local && r.0.wf() && r.0.width == fallback_width
                    && r.0.height == fallback_height && r.0.start_position is None && cells(r.0.tiles)
                    == local_world(LOCAL_SEED, fallback_width as int, fallback_height as int),
            },
    {
        match fetched {
            Some(data) => (GameMap::from_data(data), MapSource::Server),
            None => (GameMap::generate_local(fallback_width, fallback_height), MapSource::Local),
        }
    }

    /// The tile at `(x, y)`, or `None` outside the grid.
    pub fn get(&self, x: i32, y: i32) -> (r: Option<Tile>)
        ensures
            r == tile_at(cells(self.tiles), x as int, y as int),
    {
        if x < 0 || y < 0 {
            return None;
        }
        let yu = y as usize;
        let xu = x as usize;
        if yu < self.tiles.len() && xu < self.tiles[yu].len() {
            Some(self.tiles[yu][xu])
        } else {
            None
        }
    }

    pub fn is_passable(&self, x: i32, y: i32) -> (r: bool)
        ensures
            r == passable_at(cells(self.tiles), x as int, y as int),
    {
        match self.get(x, y) {
            Some(t) => t.is_passable(),
            None => false,
        }
    }

    /// The start handed over with the map, or else the first passable cell
    /// of an expanding-ring search from the center over radii below
    /// `max(width, height)`, or `(1, 1)` when that search finds none.
    pub fn find_start_position(&self) -> (r: (i32, i32))
        requires
            self.start_position is Some || self.wf(),
        ensures
            self.resolved_start(r),
    {
        match self.start_position {
            Some(p) => p,
            None => {
                let bound = if self.width < self.height { self.height } else { self.width };
                search_start(&self.tiles, self.width, self.height, bound)
            },
        }
    }
}

/// Two maps laid down from one context `(seed, width, height)` hold the same
/// tiles and resolve the same start.
pub proof fn lemma_local_deterministic(
    seed: u64,
    width: usize,
    height: usize,
    a: GameMap,
    b: GameMap,
    pa: (i32, i32),
    pb: (i32, i32),
)
    requires
        a.width == width && a.height == height && a.start_position is None,
        b.width == width && b.height == height && b.start_position is None,
        cells(a.tiles) == local_world(seed, width as int, height as int),
        cells(b.tiles) == local_world(seed, width as int, height as int),
        a.resolved_start(pa),
        b.resolved_start(pb),
    ensures
        cells(a.tiles) == cells(b.tiles),
        pa == pb,
{
    lemma_search_unique(
        cells(a.tiles),
        width as int,
        height as int,
        max(width as int, height as int),
        pa,
        pb,
    );
}

} // verus!
