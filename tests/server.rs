use exospace::hash::hash_position;
use exospace::rng::MapGenerator;
use exospace::tile::Tile;

#[test]
fn main_test_tile_passability() {
    assert!(Tile::Floor.is_passable());
    assert!(Tile::Nebula.is_passable());
    assert!(!Tile::Wall.is_passable());
    assert!(!Tile::Asteroid.is_passable());
}

#[test]
fn test_map_generator_deterministic() {
    let mut generator1 = MapGenerator::new(12345);
    let mut generator2 = MapGenerator::new(12345);

    let map1 = generator1.generate(100, 50);
    let map2 = generator2.generate(100, 50);

    assert_eq!(map1.tiles, map2.tiles);
    assert_eq!(map1.start_x, map2.start_x);
    assert_eq!(map1.start_y, map2.start_y);
}

#[test]
fn test_map_generator_different_seeds() {
    let mut generator1 = MapGenerator::new(12345);
    let mut generator2 = MapGenerator::new(54321);

    let map1 = generator1.generate(100, 50);
    let map2 = generator2.generate(100, 50);

    assert_ne!(map1.tiles, map2.tiles);
}

#[test]
fn main_test_map_dimensions() {
    let mut generator = MapGenerator::new(12345);
    let map = generator.generate(100, 50);

    assert_eq!(map.width, 100);
    assert_eq!(map.height, 50);
    assert_eq!(map.tiles.len(), 50);
    assert_eq!(map.tiles[0].len(), 100);
}

#[test]
fn test_map_has_all_tile_types() {
    let mut generator = MapGenerator::new(12345);
    let map = generator.generate(500, 200);

    let has_walls = map.tiles.iter().flatten().any(|t| *t == Tile::Wall);
    let has_floors = map.tiles.iter().flatten().any(|t| *t == Tile::Floor);
    let has_asteroids = map.tiles.iter().flatten().any(|t| *t == Tile::Asteroid);
    let has_nebulae = map.tiles.iter().flatten().any(|t| *t == Tile::Nebula);

    assert!(has_walls, "Map should contain walls");
    assert!(has_floors, "Map should contain floors");
    assert!(has_asteroids, "Map should contain asteroids");
    assert!(has_nebulae, "Map should contain nebulae");
}

#[test]
fn test_start_position_is_passable() {
    let mut generator = MapGenerator::new(12345);
    let map = generator.generate(100, 50);

    let start_tile = map.tiles[map.start_y as usize][map.start_x as usize];
    assert!(start_tile.is_passable(), "Start position must be passable");
}

#[test]
fn main_test_hash_position_deterministic() {
    let hash1 = hash_position(10, 20, 42);
    let hash2 = hash_position(10, 20, 42);
    assert_eq!(hash1, hash2);
}
