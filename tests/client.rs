use exospace::config::{Config, SERVER_URL};
use exospace::direction::Direction;
use exospace::hash::hash_position;
use exospace::input::InputState;
use exospace::map::GameMap;
use exospace::player::Player;
use exospace::render::Renderer;
use exospace::sprite::{ExhaustSprite, ShipCell, ShipSprite};
use exospace::tile::Tile;

const ALL_DIRECTIONS: [Direction; 8] = [
    Direction::Up,
    Direction::Down,
    Direction::Left,
    Direction::Right,
    Direction::UpRight,
    Direction::UpLeft,
    Direction::DownRight,
    Direction::DownLeft,
];

#[test]
fn test_tile_passability() {
    assert!(Tile::Floor.is_passable(), "Floor should be passable");
    assert!(Tile::Nebula.is_passable(), "Nebula should be passable");
    assert!(!Tile::Wall.is_passable(), "Wall should not be passable");
    assert!(!Tile::Asteroid.is_passable(), "Asteroid should not be passable");
}

#[test]
fn test_direction_from_delta_cardinal() {
    assert_eq!(Direction::from_delta(0, -1), Some(Direction::Up));
    assert_eq!(Direction::from_delta(0, 1), Some(Direction::Down));
    assert_eq!(Direction::from_delta(-1, 0), Some(Direction::Left));
    assert_eq!(Direction::from_delta(1, 0), Some(Direction::Right));
}

#[test]
fn test_direction_from_delta_diagonal() {
    assert_eq!(Direction::from_delta(1, -1), Some(Direction::UpRight));
    assert_eq!(Direction::from_delta(-1, -1), Some(Direction::UpLeft));
    assert_eq!(Direction::from_delta(1, 1), Some(Direction::DownRight));
    assert_eq!(Direction::from_delta(-1, 1), Some(Direction::DownLeft));
}

#[test]
fn test_direction_from_delta_zero() {
    assert_eq!(Direction::from_delta(0, 0), None);
}

#[test]
fn test_direction_to_char() {
    assert_eq!(Direction::Up.to_char(), '↑');
    assert_eq!(Direction::Down.to_char(), '↓');
    assert_eq!(Direction::Left.to_char(), '←');
    assert_eq!(Direction::Right.to_char(), '→');
    assert_eq!(Direction::UpRight.to_char(), '↗');
    assert_eq!(Direction::UpLeft.to_char(), '↖');
    assert_eq!(Direction::DownRight.to_char(), '↘');
    assert_eq!(Direction::DownLeft.to_char(), '↙');
}

#[test]
fn test_direction_name() {
    assert_eq!(Direction::Up.name(), "N");
    assert_eq!(Direction::UpRight.name(), "NE");
    assert_eq!(Direction::Right.name(), "E");
    assert_eq!(Direction::DownRight.name(), "SE");
    assert_eq!(Direction::Down.name(), "S");
    assert_eq!(Direction::DownLeft.name(), "SW");
    assert_eq!(Direction::Left.name(), "W");
    assert_eq!(Direction::UpLeft.name(), "NW");
}

#[test]
fn test_hash_position_deterministic() {
    let hash1 = hash_position(10, 20, 42);
    let hash2 = hash_position(10, 20, 42);
    assert_eq!(hash1, hash2, "hash_position should be deterministic");
}

#[test]
fn test_hash_position_different_inputs() {
    let hash1 = hash_position(10, 20, 42);
    let hash2 = hash_position(11, 20, 42);
    let hash3 = hash_position(10, 21, 42);
    let hash4 = hash_position(10, 20, 43);

    assert_ne!(hash1, hash2, "Different x should produce different hash");
    assert_ne!(hash1, hash3, "Different y should produce different hash");
    assert_ne!(hash1, hash4, "Different seed should produce different hash");
}

#[test]
fn test_map_dimensions() {
    let map = GameMap::generate_local(100, 50);
    assert_eq!(map.width, 100);
    assert_eq!(map.height, 50);
    assert_eq!(map.tiles.len(), 50);
    assert_eq!(map.tiles[0].len(), 100);
}

#[test]
fn test_map_has_walls_and_floors() {
    let map = GameMap::generate_local(100, 50);

    let has_walls = map.tiles.iter().flatten().any(|t| *t == Tile::Wall);
    let has_floors = map.tiles.iter().flatten().any(|t| *t == Tile::Floor);

    assert!(has_walls, "Map should contain walls");
    assert!(has_floors, "Map should contain floors");
}

#[test]
fn test_map_border_is_walls() {
    let map = GameMap::generate_local(100, 50);

    for x in 0..100 {
        assert_eq!(map.get(x, 0), Some(Tile::Wall), "Top border should be wall at x={}", x);
        assert_eq!(map.get(x, 49), Some(Tile::Wall), "Bottom border should be wall at x={}", x);
    }

    for y in 0..50 {
        assert_eq!(map.get(0, y), Some(Tile::Wall), "Left border should be wall at y={}", y);
        assert_eq!(map.get(99, y), Some(Tile::Wall), "Right border should be wall at y={}", y);
    }
}

#[test]
fn test_map_get_out_of_bounds() {
    let map = GameMap::generate_local(100, 50);

    assert_eq!(map.get(-1, 0), None);
    assert_eq!(map.get(0, -1), None);
    assert_eq!(map.get(100, 0), None);
    assert_eq!(map.get(0, 50), None);
}

#[test]
fn test_map_is_passable() {
    let map = GameMap::generate_local(100, 50);

    assert!(!map.is_passable(0, 0));
    assert!(!map.is_passable(-1, 0));

    let start = map.find_start_position();
    assert!(map.is_passable(start.0, start.1), "Start position should be passable");
}

#[test]
fn test_map_find_start_position_is_passable() {
    let map = GameMap::generate_local(100, 50);
    let (x, y) = map.find_start_position();

    assert!(map.is_passable(x, y), "Start position must be passable");
    assert!(x > 0 && x < 100, "Start x should be within bounds");
    assert!(y > 0 && y < 50, "Start y should be within bounds");
}

#[test]
fn test_player_new() {
    let player = Player::new(10, 20);
    assert_eq!(player.x, 10);
    assert_eq!(player.y, 20);
    assert_eq!(player.direction, Direction::Up);
}

#[test]
fn test_player_move_updates_direction() {
    let map = GameMap::generate_local(100, 50);
    let start = map.find_start_position();
    let mut player = Player::new(start.0, start.1);

    player.try_move(1, 0, &map);
    assert_eq!(player.direction, Direction::Right);

    player.try_move(0, 1, &map);
    assert_eq!(player.direction, Direction::Down);
}

#[test]
fn test_player_no_move_on_zero_delta() {
    let map = GameMap::generate_local(100, 50);
    let start = map.find_start_position();
    let mut player = Player::new(start.0, start.1);
    let original_dir = player.direction;

    let moved = player.try_move(0, 0, &map);
    assert!(!moved, "Should not move with zero delta");
    assert_eq!(player.direction, original_dir, "Direction should not change");
}

#[test]
fn test_player_collision_with_wall() {
    let map = GameMap::generate_local(100, 50);
    let mut player = Player::new(1, 1);

    let moved = player.try_move(-1, 0, &map);
    assert!(!moved, "Should not move into wall");
    assert_eq!(player.x, 1, "X position should not change");
}

#[test]
fn test_renderer_new_with_effects_enabled() {
    let renderer = Renderer::new(true);
    assert_eq!(renderer.frame, 0);
    assert!(renderer.effects_enabled);
}

#[test]
fn test_renderer_new_with_effects_disabled() {
    let renderer = Renderer::new(false);
    assert_eq!(renderer.frame, 0);
    assert!(!renderer.effects_enabled);
}

#[test]
fn test_renderer_toggle_effects() {
    let mut renderer = Renderer::new(true);
    assert!(renderer.effects_enabled);

    renderer.toggle_effects();
    assert!(!renderer.effects_enabled);

    renderer.toggle_effects();
    assert!(renderer.effects_enabled);
}

#[test]
fn test_renderer_tick() {
    let mut renderer = Renderer::new(true);
    assert_eq!(renderer.frame, 0);

    renderer.tick();
    assert_eq!(renderer.frame, 1);

    renderer.tick();
    assert_eq!(renderer.frame, 2);
}

#[test]
fn test_renderer_effects_disabled_returns_simple_tiles() {
    let renderer = Renderer::new(false);

    let (ch, color) = renderer.render_tile(Some(Tile::Floor), 0, 0);
    assert_eq!(ch, ' ');
    assert_eq!(color, 0x000000);

    let (ch, _) = renderer.render_tile(Some(Tile::Wall), 0, 0);
    assert_eq!(ch, '█');
}

#[test]
fn test_renderer_render_tile_deterministic() {
    let renderer = Renderer::new(true);

    let result1 = renderer.render_tile(Some(Tile::Wall), 10, 20);
    let result2 = renderer.render_tile(Some(Tile::Wall), 10, 20);
    assert_eq!(result1, result2, "Render should be deterministic for same position");
}

#[test]
fn test_input_state_default() {
    let state = InputState::default();
    assert!(!state.up.held);
    assert!(!state.down.held);
    assert!(!state.left.held);
    assert!(!state.right.held);
    assert!(!state.has_release_support);
}

#[test]
fn test_input_state_movement_delta_cardinal() {
    let mut state = InputState::default();
    state.up.held = true;
    assert_eq!(state.movement_delta(), (0, -1));

    state.up.held = false;
    state.down.held = true;
    assert_eq!(state.movement_delta(), (0, 1));

    state.down.held = false;
    state.left.held = true;
    assert_eq!(state.movement_delta(), (-1, 0));

    state.left.held = false;
    state.right.held = true;
    assert_eq!(state.movement_delta(), (1, 0));
}

#[test]
fn test_input_state_movement_delta_diagonal() {
    let mut state = InputState::default();

    state.up.held = true;
    state.right.held = true;
    assert_eq!(state.movement_delta(), (1, -1));

    state.right.held = false;
    state.left.held = true;
    assert_eq!(state.movement_delta(), (-1, -1));
}

#[test]
fn test_input_state_any_movement() {
    let mut state = InputState::default();
    assert!(!state.any_movement());

    state.up.held = true;
    assert!(state.any_movement());
}

#[test]
fn test_ship_cell_new() {
    let cell = ShipCell::new('^', 0xFF0000);
    assert_eq!(cell.ch, '^');
    assert_eq!(cell.fg, 0xFF0000);
    assert!(cell.bg.is_none());
}

#[test]
fn test_ship_cell_with_bg() {
    let cell = ShipCell::with_bg('X', 0xFF0000, 0x00FF00);
    assert_eq!(cell.ch, 'X');
    assert_eq!(cell.fg, 0xFF0000);
    assert_eq!(cell.bg, Some(0x00FF00));
}

#[test]
fn test_ship_cell_empty() {
    let cell = ShipCell::empty();
    assert_eq!(cell.ch, ' ');
    assert_eq!(cell.fg, 0x000000);
    assert!(cell.bg.is_none());
}

#[test]
fn test_ship_sprite_all_directions() {
    for dir in ALL_DIRECTIONS {
        let sprite = ShipSprite::for_direction(dir);
        assert_eq!(sprite.cells.len(), 3);
        for row in &sprite.cells {
            assert_eq!(row.len(), 3);
        }
    }
}

#[test]
fn test_ship_sprite_center_not_empty() {
    for dir in ALL_DIRECTIONS {
        let sprite = ShipSprite::for_direction(dir);
        let center = sprite.cells[1][1];
        assert_ne!(center.ch, ' ', "Center of ship should not be empty for {:?}", dir);
    }
}

#[test]
fn test_ship_sprite_has_cockpit() {
    let cockpit_color = 0x80FFFF;
    for dir in ALL_DIRECTIONS {
        let sprite = ShipSprite::for_direction(dir);
        let has_cockpit = sprite.cells.iter().flatten().any(|cell| cell.fg == cockpit_color);
        assert!(has_cockpit, "Ship should have cockpit for {:?}", dir);
    }
}

#[test]
fn test_exhaust_sprite_all_directions() {
    for dir in ALL_DIRECTIONS {
        let sprite = ExhaustSprite::for_direction(dir, 0);
        assert_eq!(sprite.cells.len(), 4);
        for row in &sprite.cells {
            assert_eq!(row.len(), 3);
        }
    }
}

#[test]
fn test_exhaust_sprite_animation() {
    let sprite1 = ExhaustSprite::for_direction(Direction::Up, 0);
    let sprite2 = ExhaustSprite::for_direction(Direction::Up, 4);
    let sprite3 = ExhaustSprite::for_direction(Direction::Up, 8);

    let cells_match = |s1: &ExhaustSprite, s2: &ExhaustSprite| {
        s1.cells
            .iter()
            .flatten()
            .zip(s2.cells.iter().flatten())
            .all(|(c1, c2)| c1.ch == c2.ch && c1.fg == c2.fg)
    };

    assert!(
        !cells_match(&sprite1, &sprite2) || !cells_match(&sprite2, &sprite3),
        "Exhaust should animate"
    );
}

#[test]
fn test_exhaust_offset_opposite_to_direction() {
    let (_x, y) = ExhaustSprite::offset_for_direction(Direction::Up);
    assert!(y > 0, "Up-facing ship exhaust should be below (positive y)");

    let (_x, y) = ExhaustSprite::offset_for_direction(Direction::Down);
    assert!(y < 0, "Down-facing ship exhaust should be above (negative y)");

    let (x, _y) = ExhaustSprite::offset_for_direction(Direction::Left);
    assert!(x > 0, "Left-facing ship exhaust should be to right (positive x)");

    let (x, _y) = ExhaustSprite::offset_for_direction(Direction::Right);
    assert!(x < 0, "Right-facing ship exhaust should be to left (negative x)");
}

#[test]
fn test_renderer_get_ship_cell_center() {
    let renderer = Renderer::new(true);
    let cell = renderer.get_ship_cell(Direction::Up, 0, 0);
    assert!(cell.is_some(), "Ship center should exist");
}

#[test]
fn test_renderer_get_ship_cell_bounds() {
    let renderer = Renderer::new(true);

    let corners = [(-1, -1), (1, -1), (-1, 1), (1, 1)];
    for (ox, oy) in corners {
        let _ = renderer.get_ship_cell(Direction::Up, ox, oy);
    }

    let cell = renderer.get_ship_cell(Direction::Up, 10, 10);
    assert!(cell.is_none(), "Far from ship should be None");
}

#[test]
fn test_renderer_get_ship_cell_exhaust_area() {
    let renderer = Renderer::new(true);

    let (ex, ey) = ExhaustSprite::offset_for_direction(Direction::Up);
    let cell = renderer.get_ship_cell(Direction::Up, ex + 1, ey);
    assert!(cell.is_some(), "Exhaust area should have content");
}

#[test]
fn test_renderer_get_ship_cell_all_directions() {
    let renderer = Renderer::new(true);
    for dir in ALL_DIRECTIONS {
        let cell = renderer.get_ship_cell(dir, 0, 0);
        assert!(cell.is_some(), "Ship center should exist for {:?}", dir);
    }
}

#[test]
fn test_config_default() {
    let config = Config::default();
    assert!(!config.effects_enabled, "Effects should be disabled by default");
    assert!(config.server_url.is_none(), "Server URL should be None by default");
}

#[test]
fn test_config_server_url_default() {
    let config = Config::default();
    assert_eq!(config.server_url(), SERVER_URL);
}

#[test]
fn test_config_server_url_override() {
    let config = Config { effects_enabled: false, server_url: Some("http://custom:8080".to_string()) };
    assert_eq!(config.server_url(), "http://custom:8080");
}
