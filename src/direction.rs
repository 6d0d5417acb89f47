use vstd::prelude::*;

verus! {

/// One of eight facings, clockwise from up.
#[derive(Clone, Copy, PartialEq, Eq, Debug, Structural)]
pub enum Direction {
    Up,
    UpRight,
    Right,
    DownRight,
    Down,
    DownLeft,
    Left,
    UpLeft,
}

/// The unit step `(dx, dy)` of a facing, with y growing downward.
pub open spec fn step_of(d: Direction) -> (int, int) {
    match d {
        Direction::Up => (0, -1),
        Direction::UpRight => (1, -1),
        Direction::Right => (1, 0),
        Direction::DownRight => (1, 1),
        Direction::Down => (0, 1),
        Direction::DownLeft => (-1, 1),
        Direction::Left => (-1, 0),
        Direction::UpLeft => (-1, -1),
    }
}

/// The facing whose unit step is `(dx, dy)`, if any.
pub open spec fn facing_of(dx: int, dy: int) -> Option<Direction> {
    if (dx, dy) == step_of(Direction::Up) {
        Some(Direction::Up)
    } else if (dx, dy) == step_of(Direction::UpRight) {
        Some(Direction::UpRight)
    } else if (dx, dy) == step_of(Direction::Right) {
        Some(Direction::Right)
    } else if (dx, dy) == step_of(Direction::DownRight) {
        Some(Direction::DownRight)
    } else if (dx, dy) == step_of(Direction::Down) {
        Some(Direction::Down)
    } else if (dx, dy) == step_of(Direction::DownLeft) {
        Some(Direction::DownLeft)
    } else if (dx, dy) == step_of(Direction::Left) {
        Some(Direction::Left)
    } else if (dx, dy) == step_of(Direction::UpLeft) {
        Some(Direction::UpLeft)
    } else {
        None
    }
}

/// The arrow glyph of a facing.
pub open spec fn arrow_of(d: Direction) -> char {
    match d {
        Direction::Up => '↑',
        Direction::UpRight => '↗',
        Direction::Right => '→',
        Direction::DownRight => '↘',
        Direction::Down => '↓',
        Direction::DownLeft => '↙',
        Direction::Left => '←',
        Direction::UpLeft => '↖',
    }
}

/// The compass abbreviation of a facing.
pub open spec fn compass_of(d: Direction) -> Seq<char> {
    match d {
        Direction::Up => seq!['N'],
        Direction::UpRight => seq!['N', 'E'],
        Direction::Right => seq!['E'],
        Direction::DownRight => seq!['S', 'E'],
        Direction::Down => seq!['S'],
        Direction::DownLeft => seq!['S', 'W'],
        Direction::Left => seq!['W'],
        Direction::UpLeft => seq!['N', 'W'],
    }
}

impl Default for Direction {
    fn default() -> (r: Direction)
        ensures
            r == Direction::Up,
    {
        Direction::Up
    }
}

impl Direction {
    pub fn from_delta(dx: i32, dy: i32) -> (r: Option<Direction>)
        ensures
            r == facing_of(dx as int, dy as int),
            r matches Some(d) ==> step_of(d) == (dx as int, dy as int),
    {
        if dx == 0 && dy == -1 {
            Some(Direction::Up)
        } else if dx == 1 && dy == -1 {
            Some(Direction::UpRight)
        } else if dx == 1 && dy == 0 {
            Some(Direction::Right)
        } else if dx == 1 && dy == 1 {
            Some(Direction::DownRight)
        } else if dx == 0 && dy == 1 {
            Some(Direction::Down)
        } else if dx == -1 && dy == 1 {
            Some(Direction::DownLeft)
        } else if dx == -1 && dy == 0 {
            Some(Direction::Left)
        } else if dx == -1 && dy == -1 {
            Some(Direction::UpLeft)
        } else {
            None
        }
    }

    pub fn to_char(self) -> (r: char)
        ensures
            r == arrow_of(self),
    {
        match self {
            Direction::Up => '↑',
            Direction::UpRight => '↗',
            Direction::Right => '→',
            Direction::DownRight => '↘',
            Direction::Down => '↓',
            Direction::DownLeft => '↙',
            Direction::Left => '←',
            Direction::UpLeft => '↖',
        }
    }

    pub fn name(self) -> (r: &'static str)
        ensures
            r@ == compass_of(self),
    {
        proof {
            reveal_strlit("N");
            reveal_strlit("NE");
            reveal_strlit("E");
            reveal_strlit("SE");
            reveal_strlit("S");
            reveal_strlit("SW");
            reveal_strlit("W");
            reveal_strlit("NW");
        }
        match self {
            Direction::Up => "N",
            Direction::UpRight => "NE",
            Direction::Right => "E",
            Direction::DownRight => "SE",
            Direction::Down => "S",
            Direction::DownLeft => "SW",
            Direction::Left => "W",
            Direction::UpLeft => "NW",
        }
    }
}

} // verus!
