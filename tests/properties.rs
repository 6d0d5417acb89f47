use exospace::direction::Direction;
use exospace::hash::hash_position;
use exospace::input::{InputState, Key, KeyEvent, MoveTimer};
use exospace::map::{GameMap, MapData, MapSource};
use exospace::player::Player;
use exospace::render::Renderer;
use exospace::rng::MapGenerator;
use exospace::server::{default_height, default_width, map_for_query, MapQuery};
use exospace::sprite::ShipCell;
use exospace::tile::Tile;

fn grid_from(rows: &[&str]) -> Vec<Vec<Tile>> {
    rows.iter()
        .map(|r| r.chars().map(|c| if c == '#' { Tile::Wall } else { Tile::Floor }).collect())
        .collect()
}

fn custom_map(rows: &[&str]) -> GameMap {
    let tiles = grid_from(rows);
    let height = tiles.len();
    let width = tiles[0].len();
    GameMap { tiles, width, height, start_position: None }
}

fn border_is_wall(tiles: &[Vec<Tile>], w: usize, h: usize) -> bool {
    (0..h).all(|y| {
        (0..w).all(|x| !(x == 0 || y == 0 || x == w - 1 || y == h - 1) || tiles[y][x] == Tile::Wall)
    })
}

#[test]
fn hash_known_values() {
    assert_eq!(hash_position(10, 20, 42), 2219732112);
    assert_eq!(hash_position(0, 0, 0), 0);
    assert_eq!(hash_position(-1, -1, 7), 984171738);
}

#[test]
fn hash_changes_with_each_input() {
    let base = hash_position(10, 20, 42);
    assert_ne!(base, hash_position(11, 20, 42));
    assert_ne!(base, hash_position(10, 21, 42));
    assert_ne!(base, hash_position(10, 20, 43));
    assert_ne!(hash_position(11, 20, 42), hash_position(10, 21, 42));
}

#[test]
fn generator_stream_known_values() {
    let mut g = MapGenerator::new(12345);
    assert_eq!(g.rand(), 21468);
    assert_eq!(g.rand(), 9988);
    assert_eq!(g.rand(), 22117);

    let mut z = MapGenerator::new(0);
    assert_eq!(z.rand(), 0);
    assert_eq!(z.rng_state, 12345);
}

#[test]
fn generator_values_stay_below_window() {
    let mut g = MapGenerator::new(987654321);
    for _ in 0..1000 {
        assert!(g.rand() < 32768);
    }
}

#[test]
fn end_to_end_local_world() {
    let map = GameMap::generate_seeded(12345, 100, 50);
    assert_eq!(map.tiles.len(), 50);
    assert_eq!(map.tiles[0].len(), 100);
    assert!(map.tiles.iter().flatten().any(|t| *t == Tile::Wall));
    assert!(map.tiles.iter().flatten().any(|t| *t == Tile::Floor));
    let (x, y) = map.find_start_position();
    assert!(map.is_passable(x, y));
}

#[test]
fn end_to_end_server_world() {
    let mut generator = MapGenerator::new(12345);
    let data = generator.generate(100, 50);
    assert_eq!(data.tiles.len(), 50);
    assert_eq!(data.tiles[0].len(), 100);
    assert!(data.tiles.iter().flatten().any(|t| *t == Tile::Wall));
    assert!(data.tiles.iter().flatten().any(|t| *t == Tile::Floor));
    let map = GameMap::from_data(data);
    let (x, y) = map.find_start_position();
    assert!(map.is_passable(x, y));
}

#[test]
fn local_generation_is_deterministic() {
    let a = GameMap::generate_seeded(77, 120, 60);
    let b = GameMap::generate_seeded(77, 120, 60);
    assert_eq!(a.tiles, b.tiles);
    assert_eq!(a.find_start_position(), b.find_start_position());
    let c = GameMap::generate_seeded(78, 120, 60);
    assert_ne!(a.tiles, c.tiles);
}

#[test]
fn local_default_seed_matches_seeded() {
    let a = GameMap::generate_local(90, 45);
    let b = GameMap::generate_seeded(12345, 90, 45);
    assert_eq!(a.tiles, b.tiles);
}

#[test]
fn server_generation_is_deterministic() {
    let a = MapGenerator::new(4242).generate(150, 80);
    let b = MapGenerator::new(4242).generate(150, 80);
    assert_eq!(a.tiles, b.tiles);
    assert_eq!((a.start_x, a.start_y), (b.start_x, b.start_y));
}

#[test]
fn borders_are_sealed_for_many_sizes() {
    for &(w, h) in &[(1usize, 1usize), (2, 3), (5, 4), (30, 20), (100, 50), (13, 90), (260, 12)] {
        let map = GameMap::generate_seeded(9, w, h);
        assert_eq!(map.tiles.len(), h);
        assert!(map.tiles.iter().all(|r| r.len() == w));
        assert!(border_is_wall(&map.tiles, w, h), "border open at {}x{}", w, h);
    }
    for &(w, h) in &[(2usize, 2usize), (40, 30), (100, 50)] {
        let data = MapGenerator::new(5).generate(w, h);
        assert!(border_is_wall(&data.tiles, w, h), "server border open at {}x{}", w, h);
    }
}

#[test]
fn start_is_interior_and_passable() {
    for seed in [1u64, 2, 3, 500, 12345] {
        let map = GameMap::generate_seeded(seed, 100, 50);
        let (x, y) = map.find_start_position();
        assert!(map.is_passable(x, y));
        assert!(x > 0 && x < 99 && y > 0 && y < 49);
    }
}

#[test]
fn start_falls_back_when_nothing_is_passable() {
    let map = GameMap::generate_seeded(1, 3, 3);
    assert!(map.tiles.iter().flatten().all(|t| *t == Tile::Wall));
    assert_eq!(map.find_start_position(), (1, 1));
}

#[test]
fn start_search_takes_center_first() {
    let map = custom_map(&["#####", "#...#", "#...#", "#...#", "#####"]);
    assert_eq!(map.find_start_position(), (2, 2));
    let ring = custom_map(&["#####", "#..##", "#.#.#", "#####", "#####"]);
    assert_eq!(ring.find_start_position(), (1, 1));
}

#[test]
fn handed_over_start_is_kept() {
    let data = MapData { tiles: grid_from(&["###", "###"]), width: 3, height: 2, start_x: 7, start_y: 9 };
    let map = GameMap::from_data(data);
    assert_eq!(map.find_start_position(), (7, 9));
}

#[test]
fn render_is_pure() {
    let mut r = Renderer::new(true);
    for _ in 0..40 {
        for tile in [Some(Tile::Wall), Some(Tile::Floor), Some(Tile::Asteroid), Some(Tile::Nebula), None] {
            assert_eq!(r.render_tile(tile, 10, 20), r.render_tile(tile, 10, 20));
            assert_eq!(r.render_tile(tile, -33, 71), r.render_tile(tile, -33, 71));
        }
        r.tick();
    }
}

#[test]
fn render_known_values() {
    let on = Renderer::new(true);
    assert_eq!(on.render_tile(Some(Tile::Wall), 10, 20), ('█', 0x2060C0));
    assert_eq!(on.render_tile(None, 54, 0), ('.', 0x202030));
    let off = Renderer::new(false);
    assert_eq!(off.render_tile(Some(Tile::Wall), 3, 3), ('█', 0x4060A0));
    assert_eq!(off.render_tile(Some(Tile::Asteroid), 3, 3), ('@', 0x808080));
    assert_eq!(off.render_tile(Some(Tile::Nebula), 3, 3), (' ', 0x000000));
    assert_eq!(off.render_tile(None, 54, 0), (' ', 0x000000));
}

#[test]
fn render_extreme_positions() {
    let mut r = Renderer::new(true);
    r.frame = u64::MAX;
    for tile in [Some(Tile::Wall), Some(Tile::Floor), Some(Tile::Asteroid), Some(Tile::Nebula), None] {
        let _ = r.render_tile(tile, i32::MIN, i32::MAX);
        let _ = r.render_tile(tile, i32::MAX, i32::MIN);
    }
    r.tick();
    assert_eq!(r.frame, 0);
}

#[test]
fn ship_overlay_known_cells() {
    let r = Renderer::new(true);
    assert_eq!(r.get_ship_cell(Direction::Up, 0, -1), Some(ShipCell::new('^', 0x80FFFF)));
    assert_eq!(r.get_ship_cell(Direction::Up, -1, -1), None);
    assert_eq!(r.get_ship_cell(Direction::Up, 0, 2), Some(ShipCell::new('|', 0xFF6600)));
    assert_eq!(r.get_ship_cell(Direction::Up, -1, 2), Some(ShipCell::new('o', 0xCC5500)));
    assert_eq!(r.get_ship_cell(Direction::Up, i32::MIN, i32::MAX), None);
}

#[test]
fn wall_blocks_step_onto_border() {
    let map = GameMap::generate_local(100, 50);
    let mut p = Player::new(1, 1);
    p.direction = Direction::Down;
    assert!(!p.try_move(-1, 0, &map));
    assert_eq!((p.x, p.y), (1, 1));
    assert_eq!(p.direction, Direction::Left);
}

#[test]
fn blocked_diagonal_slides_horizontally() {
    let map = custom_map(&["#####", "#...#", "#.#.#", "#...#", "#####"]);
    let mut p = Player::new(1, 1);
    assert!(p.try_move(1, 1, &map));
    assert_eq!((p.x, p.y), (2, 1));
    assert_eq!(p.direction, Direction::DownRight);
}

#[test]
fn blocked_diagonal_slides_vertically() {
    let map = custom_map(&["####", "#.##", "#.##", "####"]);
    let mut p = Player::new(1, 1);
    assert!(p.try_move(1, 1, &map));
    assert_eq!((p.x, p.y), (1, 2));
}

#[test]
fn fully_blocked_diagonal_stays() {
    let map = custom_map(&["####", "#.##", "####"]);
    let mut p = Player::new(1, 1);
    assert!(!p.try_move(1, 1, &map));
    assert_eq!((p.x, p.y), (1, 1));
    assert_eq!(p.direction, Direction::DownRight);
}

#[test]
fn moves_far_outside_the_map_are_refused() {
    let map = custom_map(&["###", "#.#", "###"]);
    let mut p = Player::new(i32::MAX, i32::MIN);
    assert!(!p.try_move(1, -1, &map));
    assert_eq!((p.x, p.y), (i32::MAX, i32::MIN));
    assert!(!p.try_move(5, 0, &map));
    assert_eq!(p.direction, Direction::UpRight);
}

#[test]
fn pressed_key_times_out_without_release_support() {
    let mut s = InputState::default();
    s.update_key(Key::Up, KeyEvent::Press, 1000);
    assert!(s.up.held);
    s.timeout_stale_keys(1300);
    assert!(s.up.held);
    s.timeout_stale_keys(1301);
    assert!(!s.up.held);
}

#[test]
fn repeat_refreshes_a_held_key() {
    let mut s = InputState::default();
    s.update_key(Key::Left, KeyEvent::Press, 0);
    s.update_key(Key::Left, KeyEvent::Repeat, 250);
    s.timeout_stale_keys(500);
    assert!(s.left.held);
    assert_eq!(s.movement_delta(), (-1, 0));
}

#[test]
fn release_disables_timeouts_for_good() {
    let mut s = InputState::default();
    s.update_key(Key::Down, KeyEvent::Release, 10);
    assert!(s.has_release_support);
    s.update_key(Key::Up, KeyEvent::Press, 1000);
    s.update_key(Key::Right, KeyEvent::Press, 1000);
    s.timeout_stale_keys(100_000);
    assert!(s.up.held && s.right.held);
    assert_eq!(s.movement_delta(), (1, -1));
    s.update_key(Key::Up, KeyEvent::Release, 100_001);
    assert!(!s.up.held);
    assert!(s.has_release_support);
}

#[test]
fn opposite_keys_cancel() {
    let mut s = InputState::default();
    s.update_key(Key::Left, KeyEvent::Press, 0);
    s.update_key(Key::Right, KeyEvent::Press, 0);
    assert_eq!(s.movement_delta(), (0, 0));
    assert!(s.any_movement());
}

#[test]
fn bootstrap_falls_back_to_local_world() {
    let (map, source) = GameMap::bootstrap(None, 60, 30);
    assert_eq!(source, MapSource::Local);
    assert_eq!(map.tiles, GameMap::generate_local(60, 30).tiles);
    assert_eq!(map.start_position, None);
}

#[test]
fn bootstrap_takes_fetched_map() {
    let data = MapGenerator::new(3).generate(40, 30);
    let expected = data.tiles.clone();
    let start = (data.start_x, data.start_y);
    let (map, source) = GameMap::bootstrap(Some(data), 60, 30);
    assert_eq!(source, MapSource::Server);
    assert_eq!(map.tiles, expected);
    assert_eq!(map.find_start_position(), start);
}

#[test]
fn query_defaults_and_seed() {
    assert_eq!(default_width(), 500);
    assert_eq!(default_height(), 200);
    let q = MapQuery { width: default_width(), height: default_height(), seed: None };
    assert_eq!(q.effective_seed(), 12345);
    let custom = MapQuery { width: 80, height: 40, seed: Some(9) };
    assert_eq!(custom.effective_seed(), 9);
    let answer = map_for_query(&custom);
    assert_eq!(answer.tiles, MapGenerator::new(9).generate(80, 40).tiles);
}

#[test]
fn small_server_worlds_do_not_fail() {
    for &(w, h) in &[(1usize, 1usize), (1, 5000), (5000, 1), (25, 300), (40, 20)] {
        let data = MapGenerator::new(1).generate(w, h);
        assert_eq!(data.tiles.len(), h);
        assert!(data.tiles.iter().all(|r| r.len() == w));
    }
}

#[test]
fn steps_are_paced() {
    let mut s = InputState::default();
    let mut t = MoveTimer::new(0);
    assert_eq!(t.interval, 33);
    assert_eq!(s.next_step(&mut t, 10), None);
    s.update_key(Key::Right, KeyEvent::Press, 10);
    assert_eq!(s.next_step(&mut t, 20), None);
    assert_eq!(s.next_step(&mut t, 33), Some((1, 0)));
    assert_eq!(t.last_step, 33);
    assert_eq!(s.next_step(&mut t, 60), None);
    assert_eq!(s.next_step(&mut t, 66), Some((1, 0)));
}

#[test]
fn stale_key_stops_stepping() {
    let mut s = InputState::default();
    let mut t = MoveTimer::new(0);
    s.update_key(Key::Up, KeyEvent::Press, 0);
    assert_eq!(s.next_step(&mut t, 40), Some((0, -1)));
    assert_eq!(s.next_step(&mut t, 400), None);
    assert!(!s.up.held);
}

#[test]
fn teleport_only_onto_open_cells() {
    let map = custom_map(&["#####", "#...#", "#####"]);
    let mut p = Player::new(1, 1);
    p.direction = Direction::Left;
    assert!(!p.teleport(0, 0, &map));
    assert_eq!((p.x, p.y), (1, 1));
    assert!(p.teleport(3, 1, &map));
    assert_eq!((p.x, p.y, p.direction), (3, 1, Direction::Left));
    assert!(!p.teleport(-7, 40, &map));
}
