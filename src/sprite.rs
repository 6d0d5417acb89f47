use vstd::prelude::*;

use crate::direction::Direction;

verus! {

/// One character cell of the ship or its exhaust.
#[derive(Clone, Copy, PartialEq, Eq, Debug, Structural)]
pub struct ShipCell {
    pub ch: char,
    pub fg: u32,
    pub bg: Option<u32>,
}

/// The blank cell, which lets the world show through.
pub open spec fn blank() -> ShipCell {
    ShipCell { ch: ' ', fg: 0, bg: None }
}

impl ShipCell {
    pub fn new(ch: char, fg: u32) -> (r: ShipCell)
        ensures
            r == (ShipCell { ch, fg, bg: None }),
    {
        ShipCell { ch, fg, bg: None }
    }

    pub fn with_bg(ch: char, fg: u32, bg: u32) -> (r: ShipCell)
        ensures
            r == (ShipCell { ch, fg, bg: Some(bg) }),
    {
        ShipCell { ch, fg, bg: Some(bg) }
    }

    pub fn empty() -> (r: ShipCell)
        ensures
            r == blank(),
    {
        ShipCell { ch: ' ', fg: 0x000000, bg: None }
    }
}

/// The role of a body cell, which fixes its color.
#[derive(Clone, Copy, PartialEq, Eq, Debug, Structural)]
pub enum Part {
    Hull,
    Cockpit,
    Wing,
    Accent,
}

pub open spec fn part_color(p: Part) -> u32 {
    match p {
        Part::Hull => 0x40C080,
        Part::Cockpit => 0x80FFFF,
        Part::Wing => 0x3090A0,
        Part::Accent => 0x60A0C0,
    }
}

/// The glyph of an exhaust cell: a spark that cycles with the animation
/// phase (shifted by the given number of steps), or a fixed stroke.
#[derive(Clone, Copy, PartialEq, Eq, Debug, Structural)]
pub enum Flame {
    Spark(u8),
    Stroke(char),
}

/// How far down the trail an exhaust cell lies, which sets its brightness.
#[derive(Clone, Copy, PartialEq, Eq, Debug, Structural)]
pub enum Shade {
    Bright,
    Mid,
    Dim,
    Faint,
}

/// The four spark glyphs in cycling order.
pub open spec fn spark(i: int) -> char {
    if i == 0 {
        '*'
    } else if i == 1 {
        '+'
    } else if i == 2 {
        'o'
    } else {
        '.'
    }
}

pub open spec fn flame_char(f: Flame, phase: int) -> char {
    match f {
        Flame::Spark(k) => spark((phase + k) % 4),
        Flame::Stroke(c) => c,
    }
}

/// Orange to yellow, dimming down the trail.
pub open spec fn shade_color(s: Shade, phase: int) -> u32 {
    let (bright, mid, dim, faint) = if phase == 0 {
        (0xFF6600u32, 0xCC5500u32, 0x803300u32, 0x401800u32)
    } else if phase == 1 {
        (0xFFAA00u32, 0xCC8800u32, 0x805500u32, 0x402800u32)
    } else if phase == 2 {
        (0xFFFF00u32, 0xCCCC00u32, 0x808000u32, 0x404000u32)
    } else {
        (0xFF8800u32, 0xCC6600u32, 0x804400u32, 0x402200u32)
    };
    match s {
        Shade::Bright => bright,
        Shade::Mid => mid,
        Shade::Dim => dim,
        Shade::Faint => faint,
    }
}

/// The 3 by 3 ship body of each facing, row by row; `None` is blank.
pub open spec fn body_layout(d: Direction) -> Seq<Seq<Option<(char, Part)>>> {
    match d {
        Direction::Up => seq![
            seq![None, Some(('^', Part::Cockpit)), None],
            seq![Some(('/', Part::Wing)), Some(('|', Part::Hull)), Some(('\\', Part::Wing))],
            seq![Some(('<', Part::Accent)), Some(('=', Part::Hull)), Some(('>', Part::Accent))],
        ],
        Direction::Down => seq![
            seq![Some(('>', Part::Accent)), Some(('=', Part::Hull)), Some(('<', Part::Accent))],
            seq![Some(('\\', Part::Wing)), Some(('|', Part::Hull)), Some(('/', Part::Wing))],
            seq![None, Some(('v', Part::Cockpit)), None],
        ],
        Direction::Left => seq![
            seq![None, Some(('/', Part::Wing)), Some(('^', Part::Accent))],
            seq![Some(('<', Part::Cockpit)), Some(('-', Part::Hull)), Some(('=', Part::Hull))],
            seq![None, Some(('\\', Part::Wing)), Some(('v', Part::Accent))],
        ],
        Direction::Right => seq![
            seq![Some(('v', Part::Accent)), Some(('\\', Part::Wing)), None],
            seq![Some(('=', Part::Hull)), Some(('-', Part::Hull)), Some(('>', Part::Cockpit))],
            seq![Some(('^', Part::Accent)), Some(('/', Part::Wing)), None],
        ],
        Direction::UpRight => seq![
            seq![None, Some(('/', Part::Wing)), Some(('>', Part::Cockpit))],
            seq![Some(('/', Part::Wing)), Some(('/', Part::Hull)), Some(('/', Part::Wing))],
            seq![Some(('<', Part::Accent)), Some(('/', Part::Wing)), None],
        ],
        Direction::UpLeft => seq![
            seq![Some(('<', Part::Cockpit)), Some(('\\', Part::Wing)), None],
            seq![Some(('\\', Part::Wing)), Some(('\\', Part::Hull)), Some(('\\', Part::Wing))],
            seq![None, Some(('\\', Part::Wing)), Some(('>', Part::Accent))],
        ],
        Direction::DownRight => seq![
            seq![Some(('^', Part::Accent)), Some(('\\', Part::Wing)), None],
            seq![Some(('\\', Part::Wing)), Some(('\\', Part::Hull)), Some(('\\', Part::Wing))],
            seq![None, Some(('\\', Part::Wing)), Some(('v', Part::Cockpit))],
        ],
        Direction::DownLeft => seq![
            seq![None, Some(('/', Part::Wing)), Some(('^', Part::Accent))],
            seq![Some(('/', Part::Wing)), Some(('/', Part::Hull)), Some(('/', Part::Wing))],
            seq![Some(('v', Part::Cockpit)), Some(('/', Part::Wing)), None],
        ],
    }
}

pub open spec fn exhaust_layout(d: Direction) -> Seq<Seq<Option<(Flame, Shade)>>> {
    match d {
        Direction::Up => seq![
            seq![Some((Flame::Spark(2), Shade::Mid)), Some((Flame::Stroke('|'), Shade::Bright)), Some((Flame::Spark(2), Shade::Mid))],
            seq![Some((Flame::Spark(0), Shade::Dim)), Some((Flame::Spark(0), Shade::Mid)), Some((Flame::Spark(0), Shade::Dim))],
            seq![None, Some((Flame::Spark(1), Shade::Dim)), None],
            seq![None, Some((Flame::Spark(3), Shade::Faint)), None],
        ],
        Direction::Down => seq![
            seq![None, Some((Flame::Spark(3), Shade::Faint)), None],
            seq![None, Some((Flame::Spark(1), Shade::Dim)), None],
            seq![Some((Flame::Spark(0), Shade::Dim)), Some((Flame::Spark(0), Shade::Mid)), Some((Flame::Spark(0), Shade::Dim))],
            seq![Some((Flame::Spark(2), Shade::Mid)), Some((Flame::Stroke('|'), Shade::Bright)), Some((Flame::Spark(2), Shade::Mid))],
        ],
        Direction::Left => seq![
            seq![Some((Flame::Spark(2), Shade::Mid)), Some((Flame::Stroke('-'), Shade::Bright)), Some((Flame::Spark(0), Shade::Dim))],
            seq![Some((Flame::Spark(2), Shade::Mid)), Some((Flame::Stroke('-'), Shade::Bright)), Some((Flame::Spark(0), Shade::Dim))],
            seq![Some((Flame::Spark(1), Shade::Dim)), Some((Flame::Spark(1), Shade::Mid)), Some((Flame::Spark(3), Shade::Faint))],
            seq![Some((Flame::Spark(3), Shade::Faint)), None, None],
        ],
        Direction::Right => seq![
            seq![Some((Flame::Spark(0), Shade::Dim)), Some((Flame::Stroke('-'), Shade::Bright)), Some((Flame::Spark(2), Shade::Mid))],
            seq![Some((Flame::Spark(0), Shade::Dim)), Some((Flame::Stroke('-'), Shade::Bright)), Some((Flame::Spark(2), Shade::Mid))],
            seq![Some((Flame::Spark(3), Shade::Faint)), Some((Flame::Spark(1), Shade::Mid)), Some((Flame::Spark(1), Shade::Dim))],
            seq![None, None, Some((Flame::Spark(3), Shade::Faint))],
        ],
        Direction::UpRight => seq![
            seq![Some((Flame::Spark(0), Shade::Mid)), Some((Flame::Spark(2), Shade::Dim)), None],
            seq![Some((Flame::Stroke('\\'), Shade::Bright)), Some((Flame::Spark(0), Shade::Mid)), None],
            seq![Some((Flame::Spark(1), Shade::Dim)), Some((Flame::Stroke('\\'), Shade::Dim)), None],
            seq![Some((Flame::Spark(3), Shade::Faint)), Some((Flame::Spark(1), Shade::Faint)), None],
        ],
        Direction::UpLeft => seq![
            seq![None, Some((Flame::Spark(2), Shade::Dim)), Some((Flame::Spark(0), Shade::Mid))],
            seq![None, Some((Flame::Spark(0), Shade::Mid)), Some((Flame::Stroke('/'), Shade::Bright))],
            seq![None, Some((Flame::Stroke('/'), Shade::Dim)), Some((Flame::Spark(1), Shade::Dim))],
            seq![None, Some((Flame::Spark(1), Shade::Faint)), Some((Flame::Spark(3), Shade::Faint))],
        ],
        Direction::DownRight => seq![
            seq![Some((Flame::Spark(3), Shade::Faint)), Some((Flame::Spark(1), Shade::Faint)), None],
            seq![Some((Flame::Spark(1), Shade::Dim)), Some((Flame::Stroke('/'), Shade::Dim)), None],
            seq![Some((Flame::Stroke('/'), Shade::Bright)), Some((Flame::Spark(0), Shade::Mid)), None],
            seq![Some((Flame::Spark(0), Shade::Mid)), Some((Flame::Spark(2), Shade::Dim)), None],
        ],
        Direction::DownLeft => seq![
            seq![None, Some((Flame::Spark(1), Shade::Faint)), Some((Flame::Spark(3), Shade::Faint))],
            seq![None, Some((Flame::Stroke('\\'), Shade::Dim)), Some((Flame::Spark(1), Shade::Dim))],
            seq![None, Some((Flame::Spark(0), Shade::Mid)), Some((Flame::Stroke('\\'), Shade::Bright))],
            seq![None, Some((Flame::Spark(2), Shade::Dim)), Some((Flame::Spark(0), Shade::Mid))],
        ],
    }
}

/// The exhaust's animation phase at a frame: it advances every 4 frames.
pub open spec fn exhaust_phase(frame: u64) -> int {
    ((frame / 4) % 4) as int
}

/// Body cell `(row, col)` of the ship facing `d`.
pub open spec fn body_cell(d: Direction, row: int, col: int) -> ShipCell {
    match body_layout(d)[row][col] {
        Some((c, p)) => ShipCell { ch: c, fg: part_color(p), bg: None },
        None => blank(),
    }
}

/// Exhaust cell `(row, col)` behind the ship facing `d` at a frame.
pub open spec fn exhaust_cell(d: Direction, frame: u64, row: int, col: int) -> ShipCell {
    let phase = exhaust_phase(frame);
    match exhaust_layout(d)[row][col] {
        Some((f, s)) => ShipCell { ch: flame_char(f, phase), fg: shade_color(s, phase), bg: None },
        None => blank(),
    }
}

/// Where the exhaust's top-left cell sits relative to the ship's center.
pub open spec fn exhaust_offset(d: Direction) -> (int, int) {
    match d {
        Direction::Up => (-1, 2),
        Direction::Down => (-1, -5),
        Direction::Left => (2, -1),
        Direction::Right => (-5, -1),
        Direction::UpRight => (-3, 1),
        Direction::UpLeft => (1, 1),
        Direction::DownRight => (-3, -4),
        Direction::DownLeft => (1, -4),
    }
}

/// The ship body, a 3 by 3 grid indexed `[row][col]`.
pub struct ShipSprite {
    pub cells: [[ShipCell; 3]; 3],
}

/// The exhaust trail, 4 rows of 3 cells.
pub struct ExhaustSprite {
    pub cells: [[ShipCell; 3]; 4],
}

impl ShipSprite {
    pub fn for_direction(direction: Direction) -> (r: ShipSprite)
        ensures
            forall|row: int, col: int|
                0 <= row < 3 && 0 <= col < 3 ==> #[trigger] r.cells@[row]@[col] == body_cell(
                    direction,
                    row,
                    col,
                ),
    {
        let hull: u32 = 0x40C080;
        let cockpit: u32 = 0x80FFFF;
        let wing: u32 = 0x3090A0;
        let accent: u32 = 0x60A0C0;
        let e = ShipCell::empty();
        let cells = match direction {
            Direction::Up => [
                [e, ShipCell::new('^', cockpit), e],
                [ShipCell::new('/', wing), ShipCell::new('|', hull), ShipCell::new('\\', wing)],
                [ShipCell::new('<', accent), ShipCell::new('=', hull), ShipCell::new('>', accent)],
            ],
            Direction::Down => [
                [ShipCell::new('>', accent), ShipCell::new('=', hull), ShipCell::new('<', accent)],
                [ShipCell::new('\\', wing), ShipCell::new('|', hull), ShipCell::new('/', wing)],
                [e, ShipCell::new('v', cockpit), e],
            ],
            Direction::Left => [
                [e, ShipCell::new('/', wing), ShipCell::new('^', accent)],
                [ShipCell::new('<', cockpit), ShipCell::new('-', hull), ShipCell::new('=', hull)],
                [e, ShipCell::new('\\', wing), ShipCell::new('v', accent)],
            ],
            Direction::Right => [
                [ShipCell::new('v', accent), ShipCell::new('\\', wing), e],
                [ShipCell::new('=', hull), ShipCell::new('-', hull), ShipCell::new('>', cockpit)],
                [ShipCell::new('^', accent), ShipCell::new('/', wing), e],
            ],
            Direction::UpRight => [
                [e, ShipCell::new('/', wing), ShipCell::new('>', cockpit)],
                [ShipCell::new('/', wing), ShipCell::new('/', hull), ShipCell::new('/', wing)],
                [ShipCell::new('<', accent), ShipCell::new('/', wing), e],
            ],
            Direction::UpLeft => [
                [ShipCell::new('<', cockpit), ShipCell::new('\\', wing), e],
                [ShipCell::new('\\', wing), ShipCell::new('\\', hull), ShipCell::new('\\', wing)],
                [e, ShipCell::new('\\', wing), ShipCell::new('>', accent)],
            ],
            Direction::DownRight => [
                [ShipCell::new('^', accent), ShipCell::new('\\', wing), e],
                [ShipCell::new('\\', wing), ShipCell::new('\\', hull), ShipCell::new('\\', wing)],
                [e, ShipCell::new('\\', wing), ShipCell::new('v', cockpit)],
            ],
            Direction::DownLeft => [
                [e, ShipCell::new('/', wing), ShipCell::new('^', accent)],
                [ShipCell::new('/', wing), ShipCell::new('/', hull), ShipCell::new('/', wing)],
                [ShipCell::new('v', cockpit), ShipCell::new('/', wing), e],
            ],
        };
        let r = ShipSprite { cells };
        assert forall|row: int, col: int|
            0 <= row < 3 && 0 <= col < 3 implies #[trigger] r.cells@[row]@[col] == body_cell(
            direction,
            row,
            col,
        ) by {
            assert(row == 0 || row == 1 || row == 2);
            assert(col == 0 || col == 1 || col == 2);
        }
        r
    }
}

impl ExhaustSprite {
    pub fn for_direction(direction: Direction, frame: u64) -> (r: ExhaustSprite)
        ensures
            forall|row: int, col: int|
                0 <= row < 4 && 0 <= col < 3 ==> #[trigger] r.cells@[row]@[col] == exhaust_cell(
                    direction,
                    frame,
                    row,
                    col,
                ),
    {
        let phase = (frame / 4) % 4;
        let colors: [u32; 4] = [0xFF6600, 0xFFAA00, 0xFFFF00, 0xFF8800];
        let mid_colors: [u32; 4] = [0xCC5500, 0xCC8800, 0xCCCC00, 0xCC6600];
        let dim_colors: [u32; 4] = [0x803300, 0x805500, 0x808000, 0x804400];
        let faint_colors: [u32; 4] = [0x401800, 0x402800, 0x404000, 0x402200];
        let bright = colors[phase as usize];
        let mid = mid_colors[phase as usize];
        let dim = dim_colors[phase as usize];
        let faint = faint_colors[phase as usize];
        let e = ShipCell::empty();
        let exhaust_chars: [char; 4] = ['*', '+', 'o', '.'];
        let ch1 = exhaust_chars[phase as usize];
        let ch2 = exhaust_chars[((phase + 2) % 4) as usize];
        let ch3 = exhaust_chars[((phase + 1) % 4) as usize];
        let ch4 = exhaust_chars[((phase + 3) % 4) as usize];
        proof {
            let p = exhaust_phase(frame);
            assert(p == phase as int);
            assert(bright == shade_color(Shade::Bright, p));
            assert(mid == shade_color(Shade::Mid, p));
            assert(dim == shade_color(Shade::Dim, p));
            assert(faint == shade_color(Shade::Faint, p));
            assert(ch1 == flame_char(Flame::Spark(0), p));
            assert(ch2 == flame_char(Flame::Spark(2), p));
            assert(ch3 == flame_char(Flame::Spark(1), p));
            assert(ch4 == flame_char(Flame::Spark(3), p));
        }
        let cells = match direction {
            Direction::Up => [
                [ShipCell::new(ch2, mid), ShipCell::new('|', bright), ShipCell::new(ch2, mid)],
                [ShipCell::new(ch1, dim), ShipCell::new(ch1, mid), ShipCell::new(ch1, dim)],
                [e, ShipCell::new(ch3, dim), e],
                [e, ShipCell::new(ch4, faint), e],
            ],
            Direction::Down => [
                [e, ShipCell::new(ch4, faint), e],
                [e, ShipCell::new(ch3, dim), e],
                [ShipCell::new(ch1, dim), ShipCell::new(ch1, mid), ShipCell::new(ch1, dim)],
                [ShipCell::new(ch2, mid), ShipCell::new('|', bright), ShipCell::new(ch2, mid)],
            ],
            Direction::Left => [
                [ShipCell::new(ch2, mid), ShipCell::new('-', bright), ShipCell::new(ch1, dim)],
                [ShipCell::new(ch2, mid), ShipCell::new('-', bright), ShipCell::new(ch1, dim)],
                [ShipCell::new(ch3, dim), ShipCell::new(ch3, mid), ShipCell::new(ch4, faint)],
                [ShipCell::new(ch4, faint), e, e],
            ],
            Direction::Right => [
                [ShipCell::new(ch1, dim), ShipCell::new('-', bright), ShipCell::new(ch2, mid)],
                [ShipCell::new(ch1, dim), ShipCell::new('-', bright), ShipCell::new(ch2, mid)],
                [ShipCell::new(ch4, faint), ShipCell::new(ch3, mid), ShipCell::new(ch3, dim)],
                [e, e, ShipCell::new(ch4, faint)],
            ],
            Direction::UpRight => [
                [ShipCell::new(ch1, mid), ShipCell::new(ch2, dim), e],
                [ShipCell::new('\\', bright), ShipCell::new(ch1, mid), e],
                [ShipCell::new(ch3, dim), ShipCell::new('\\', dim), e],
                [ShipCell::new(ch4, faint), ShipCell::new(ch3, faint), e],
            ],
            Direction::UpLeft => [
                [e, ShipCell::new(ch2, dim), ShipCell::new(ch1, mid)],
                [e, ShipCell::new(ch1, mid), ShipCell::new('/', bright)],
                [e, ShipCell::new('/', dim), ShipCell::new(ch3, dim)],
                [e, ShipCell::new(ch3, faint), ShipCell::new(ch4, faint)],
            ],
            Direction::DownRight => [
                [ShipCell::new(ch4, faint), ShipCell::new(ch3, faint), e],
                [ShipCell::new(ch3, dim), ShipCell::new('/', dim), e],
                [ShipCell::new('/', bright), ShipCell::new(ch1, mid), e],
                [ShipCell::new(ch1, mid), ShipCell::new(ch2, dim), e],
            ],
            Direction::DownLeft => [
                [e, ShipCell::new(ch3, faint), ShipCell::new(ch4, faint)],
                [e, ShipCell::new('\\', dim), ShipCell::new(ch3, dim)],
                [e, ShipCell::new(ch1, mid), ShipCell::new('\\', bright)],
                [e, ShipCell::new(ch2, dim), ShipCell::new(ch1, mid)],
            ],
        };
        let r = ExhaustSprite { cells };
        assert forall|row: int, col: int|
            0 <= row < 4 && 0 <= col < 3 implies #[trigger] r.cells@[row]@[col] == exhaust_cell(
            direction,
            frame,
            row,
            col,
        ) by {
            assert(row == 0 || row == 1 || row == 2 || row == 3);
            assert(col == 0 || col == 1 || col == 2);
        }
        r
    }

    pub fn offset_for_direction(direction: Direction) -> (r: (i32, i32))
        ensures
            (r.0 as int, r.1 as int) == exhaust_offset(direction),
    {
        match direction {
            Direction::Up => (-1, 2),
            Direction::Down => (-1, -5),
            Direction::Left => (2, -1),
            Direction::Right => (-5, -1),
            Direction::UpRight => (-3, 1),
            Direction::UpLeft => (1, 1),
            Direction::DownRight => (-3, -4),
            Direction::DownLeft => (1, -4),
        }
    }
}

} // verus!
