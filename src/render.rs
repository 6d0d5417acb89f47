use vstd::prelude::*;
use vstd::wrapping::i32_specs;
use vstd::wrapping::u32_specs;

use crate::direction::Direction;
use crate::hash::{hash_position, position_hash};
use crate::sprite::{body_cell, exhaust_cell, exhaust_offset, ExhaustSprite, ShipCell, ShipSprite};
use crate::tile::Tile;

verus! {

/// Seed of the per-cell visual hash.
pub const CELL_SEED: u32 = 42;

/// Seed of the hash that gives a nebula patch its hue.
pub const REGION_SEED: u32 = 123;

/// Integer division rounding toward zero, as Rust's `/` on signed integers.
pub open spec fn quot(a: int, d: int) -> int {
    if a >= 0 {
        a / d
    } else {
        -((-a) / d)
    }
}

/// Remainder of `quot`, with the sign of `a`, as Rust's `%` on signed integers.
pub open spec fn rem_toward_zero(a: int, d: int) -> int {
    a - d * quot(a, d)
}

pub open spec fn clamp_channel(v: int) -> int {
    if v < 0 {
        0
    } else if v > 255 {
        255
    } else {
        v
    }
}

/// The flat look of each tile when effects are off.
pub open spec fn plain_look(tile: Option<Tile>) -> (char, u32) {
    match tile {
        Some(Tile::Wall) => ('█', 0x4060A0),
        Some(Tile::Asteroid) => ('@', 0x808080),
        _ => (' ', 0x000000),
    }
}

/// Mostly blue solid blocks, some cyan or purple, some lighter shading.
pub open spec fn wall_look(ph: u32) -> (char, u32) {
    let variant = ph % 100;
    let color: u32 = if variant < 70 {
        (0x200000 + (0x50 + ph % 0x20) * 0x100 + 0xC0) as u32
    } else if variant < 85 {
        0x3090A0
    } else {
        0x604080
    };
    let shade = ph % 12;
    let ch = if shade <= 9 {
        '█'
    } else if shade == 10 {
        '▓'
    } else {
        '▒'
    };
    (ch, color)
}

/// A sparse starfield: one cell in 50 twinkles, two more hold fixed stars.
pub open spec fn floor_look(ph: u32, frame: u64) -> (char, u32) {
    let chance = ph % 50;
    if chance == 0 {
        let twinkle = ((frame / 16) + ph as u64) % 4;
        if twinkle == 0 {
            ('.', 0xC0C0C0)
        } else if twinkle == 1 {
            ('+', 0xD0D0A0)
        } else if twinkle == 2 {
            ('*', 0xA0C0C0)
        } else {
            ('o', 0xC0C0C0)
        }
    } else if chance == 1 {
        ('.', 0x5070C0)
    } else if chance == 2 {
        ('.', 0x505050)
    } else {
        (' ', 0x000000)
    }
}

/// A slowly turning rock in one of four muted colors.
pub open spec fn asteroid_look(ph: u32, frame: u64) -> (char, u32) {
    let rotation = ((frame / 24) + (ph as u64 / 3)) % 4;
    let ch = if rotation == 0 {
        'o'
    } else if rotation == 1 {
        'O'
    } else if rotation == 2 {
        '0'
    } else {
        '@'
    };
    let variant = ph % 4;
    let color: u32 = if variant == 0 {
        0x907050
    } else if variant == 1 {
        0x707070
    } else if variant == 2 {
        0x806040
    } else {
        0x808080
    };
    (ch, color)
}

/// The base hue of a nebula region.
pub open spec fn region_hue(region: u32) -> (int, int, int) {
    let hue = region % 6;
    if hue == 0 {
        (0x80, 0x40, 0x80)
    } else if hue == 1 {
        (0x40, 0x70, 0x80)
    } else if hue == 2 {
        (0x80, 0x50, 0x40)
    } else if hue == 3 {
        (0x50, 0x40, 0x80)
    } else if hue == 4 {
        (0x40, 0x70, 0x50)
    } else {
        (0x50, 0x50, 0x70)
    }
}

/// The phase of a nebula cell's slow pulse.
pub open spec fn nebula_flow(x: i32, y: i32, frame: u64) -> i32 {
    let sum = i32_specs::wrapping_add(
        i32_specs::wrapping_add((frame / 12) as i32, quot(x as int, 5) as i32),
        quot(y as int, 4) as i32,
    );
    rem_toward_zero(sum as int, 20) as i32
}

/// A patch-wide hue from the 20 by 20 region, dimmed per cell and pulsing
/// with the frame, with sparse flickering dust.
pub open spec fn nebula_look(ph: u32, x: i32, y: i32, frame: u64) -> (char, u32) {
    let flow = nebula_flow(x, y, frame);
    let region = position_hash(quot(x as int, 20) as i32, quot(y as int, 20) as i32, REGION_SEED);
    let (r, g, b) = region_hue(region);
    let pulse = ((flow as u32) % 10) * 3;
    let dim = 20 + ph % 20;
    let color = clamp_channel(r - dim + pulse) * 0x10000 + clamp_channel(g - dim + pulse) * 0x100
        + clamp_channel(b - dim + pulse);
    let dust = u32_specs::wrapping_add(ph, ((frame as u32) / 12) as u32) % 8;
    let ch = if dust == 0 {
        '.'
    } else if dust == 1 {
        ':'
    } else {
        ' '
    };
    (ch, color as u32)
}

/// Beyond the map: empty space with a rare faint marker.
pub open spec fn void_look(ph: u32) -> (char, u32) {
    if ph % 100 == 0 {
        ('.', 0x202030)
    } else {
        (' ', 0x000000)
    }
}

/// What a cell shows: its glyph and foreground color.
pub open spec fn tile_look(tile: Option<Tile>, x: i32, y: i32, frame: u64, effects: bool) -> (char, u32) {
    let ph = position_hash(x, y, CELL_SEED);
    if !effects {
        plain_look(tile)
    } else {
        match tile {
            Some(Tile::Wall) => wall_look(ph),
            Some(Tile::Floor) => floor_look(ph, frame),
            Some(Tile::Asteroid) => asteroid_look(ph, frame),
            Some(Tile::Nebula) => nebula_look(ph, x, y, frame),
            None => void_look(ph),
        }
    }
}

/// The ship or exhaust cell at offset `(ox, oy)` from the ship's center, if
/// that cell is not blank: the body first, then the exhaust.
pub open spec fn ship_overlay(d: Direction, frame: u64, ox: int, oy: int) -> Option<ShipCell> {
    let (ex, ey) = exhaust_offset(d);
    let rx = ox - ex;
    let ry = oy - ey;
    if -1 <= ox <= 1 && -1 <= oy <= 1 && body_cell(d, oy + 1, ox + 1).ch != ' ' {
        Some(body_cell(d, oy + 1, ox + 1))
    } else if 0 <= rx < 3 && 0 <= ry < 4 && exhaust_cell(d, frame, ry, rx).ch != ' ' {
        Some(exhaust_cell(d, frame, ry, rx))
    } else {
        None
    }
}

/// Animation clock and effects switch.
pub struct Renderer {
    pub frame: u64,
    pub effects_enabled: bool,
}

impl Renderer {
    pub fn new(effects_enabled: bool) -> (r: Renderer)
        ensures
            r.frame == 0,
            r.effects_enabled == effects_enabled,
    {
        Renderer { frame: 0, effects_enabled }
    }

    pub fn toggle_effects(&mut self)
        ensures
            final(self).effects_enabled == !old(self).effects_enabled,
            final(self).frame == old(self).frame,
    {
        self.effects_enabled = !self.effects_enabled;
    }

    /// Advances the clock by one frame, wrapping on overflow.
    pub fn tick(&mut self)
        ensures
            final(self).frame == vstd::wrapping::u64_specs::wrapping_add(old(self).frame, 1),
            final(self).effects_enabled == old(self).effects_enabled,
    {
        self.frame = self.frame.wrapping_add(1);
    }

    pub fn render_tile(&self, tile: Option<Tile>, x: i32, y: i32) -> (r: (char, u32))
        ensures
            r == tile_look(tile, x, y, self.frame, self.effects_enabled),
    {
        let pos_hash = hash_position(x, y, CELL_SEED);
        if !self.effects_enabled {
            return match tile {
                Some(Tile::Wall) => ('█', 0x4060A0),
                Some(Tile::Floor) => (' ', 0x000000),
                Some(Tile::Asteroid) => ('@', 0x808080),
                Some(Tile::Nebula) => (' ', 0x000000),
                None => (' ', 0x000000),
            };
        }
        match tile {
            Some(Tile::Wall) => {
                let wall_variant = pos_hash % 100;
                let base_color: u32 = if wall_variant < 70 {
                    let intensity = 0x50 + pos_hash % 0x20;
                    0x200000 + intensity * 0x100 + 0xC0
                } else if wall_variant < 85 {
                    0x3090A0
                } else {
                    0x604080
                };
                let ch = match pos_hash % 12 {
                    0..=9 => '█',
                    10 => '▓',
                    _ => '▒',
                };
                (ch, base_color)
            },
            Some(Tile::Floor) => {
                let star_chance = pos_hash % 50;
                if star_chance == 0 {
                    let twinkle = ((self.frame / 16) + (pos_hash as u64)) % 4;
                    let star_chars: [char; 4] = ['.', '+', '*', 'o'];
                    let colors: [u32; 4] = [0xC0C0C0, 0xD0D0A0, 0xA0C0C0, 0xC0C0C0];
                    (star_chars[twinkle as usize], colors[twinkle as usize])
                } else if star_chance == 1 {
                    ('.', 0x5070C0)
                } else if star_chance == 2 {
                    ('.', 0x505050)
                } else {
                    (' ', 0x000000)
                }
            },
            Some(Tile::Asteroid) => {
                let rotation = ((self.frame / 24) + (pos_hash as u64 / 3)) % 4;
                let asteroid_chars: [char; 4] = ['o', 'O', '0', '@'];
                let ch = asteroid_chars[rotation as usize];
                let color: u32 = match pos_hash % 4 {
                    0 => 0x907050,
                    1 => 0x707070,
                    2 => 0x806040,
                    _ => 0x808080,
                };
                (ch, color)
            },
            Some(Tile::Nebula) => {
                let flow = ((self.frame / 12) as i32).wrapping_add(x / 5).wrapping_add(y / 4) % 20;
                let region = hash_position(x / 20, y / 20, REGION_SEED);
                let (r, g, b): (i32, i32, i32) = match region % 6 {
                    0 => (0x80, 0x40, 0x80),
                    1 => (0x40, 0x70, 0x80),
                    2 => (0x80, 0x50, 0x40),
                    3 => (0x50, 0x40, 0x80),
                    4 => (0x40, 0x70, 0x50),
                    _ => (0x50, 0x50, 0x70),
                };
                let pulse = ((flow as u32 % 10) * 3) as i32;
                let dim = 20 + (pos_hash % 20) as i32;
                let rc = clamp(r - dim + pulse);
                let gc = clamp(g - dim + pulse);
                let bc = clamp(b - dim + pulse);
                let color = rc * 0x10000 + gc * 0x100 + bc;
                let ch = match pos_hash.wrapping_add(self.frame as u32 / 12) % 8 {
                    0 => '.',
                    1 => ':',
                    _ => ' ',
                };
                (ch, color)
            },
            None => {
                if pos_hash % 100 == 0 {
                    ('.', 0x202030)
                } else {
                    (' ', 0x000000)
                }
            },
        }
    }

    /// The ship or exhaust cell at screen offset `(offset_x, offset_y)` from
    /// the ship's center, or `None` where the world shows through.
    pub fn get_ship_cell(&self, direction: Direction, offset_x: i32, offset_y: i32) -> (r: Option<
        ShipCell,
    >)
        ensures
            r == ship_overlay(direction, self.frame, offset_x as int, offset_y as int),
    {
        if offset_x >= -1 && offset_x <= 1 && offset_y >= -1 && offset_y <= 1 {
            let ship = ShipSprite::for_direction(direction);
            let row = (offset_y + 1) as usize;
            let col = (offset_x + 1) as usize;
            let cell = ship.cells[row][col];
            assert(cell == body_cell(direction, row as int, col as int));
            if cell.ch != ' ' {
                return Some(cell);
            }
        }
        let (exhaust_offset_x, exhaust_offset_y) = ExhaustSprite::offset_for_direction(direction);
        let exhaust = ExhaustSprite::for_direction(direction, self.frame);
        let rel_x = offset_x as i64 - exhaust_offset_x as i64;
        let rel_y = offset_y as i64 - exhaust_offset_y as i64;
        if rel_x >= 0 && rel_x < 3 && rel_y >= 0 && rel_y < 4 {
            let cell = exhaust.cells[rel_y as usize][rel_x as usize];
            assert(cell == exhaust_cell(direction, self.frame, rel_y as int, rel_x as int));
            if cell.ch != ' ' {
                return Some(cell);
            }
        }
        None
    }
}

fn clamp(v: i32) -> (r: u32)
    ensures
        r == clamp_channel(v as int),
{
    if v < 0 {
        0
    } else if v > 255 {
        255
    } else {
        v as u32
    }
}


/// What a cell shows depends on the tile, the position, the frame and the
/// effects switch alone: two renderings with the same inputs agree.
pub proof fn lemma_render_pure(
    tile: Option<Tile>,
    x: i32,
    y: i32,
    frame: u64,
    effects: bool,
    a: (char, u32),
    b: (char, u32),
)
    requires
        a == tile_look(tile, x, y, frame, effects),
        b == tile_look(tile, x, y, frame, effects),
    ensures
        a == b,
{
}

} // verus!
