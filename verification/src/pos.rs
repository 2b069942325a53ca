//! Board coordinates and the direction descriptors used to derive
//! neighbouring squares. Every per-piece rule funnels through
//! `square_in_dir`, so bounds checking exists exactly once.

use vstd::prelude::*;

verus! {

pub const BOARD_WIDTH: usize = 8;
pub const BOARD_HEIGHT: usize = 8;

/// Raised when a coordinate pair lies outside the grid.
#[derive(Clone, Copy, PartialEq, Eq, Structural, Debug)]
pub enum ConstructionError {
    OutOfBounds,
}

/// A coordinate pair on the board, (column, row), each in `[0, 8)` when
/// built through `new`.
#[derive(Clone, Copy, PartialEq, Eq, Structural, Debug)]
pub struct BoardPos {
    pub x: usize,
    pub y: usize,
}

/// One of the eight ray directions, or an arbitrary offset (used for
/// knight jumps and castling distances).
#[derive(Clone, Copy, PartialEq, Eq, Structural, Debug)]
pub enum Dir {
    Up,
    Down,
    Left,
    Right,
    UpRight,
    UpLeft,
    DownRight,
    DownLeft,
    Custom(i32, i32),
}

impl Dir {
    /// Horizontal displacement of one step in this direction.
    pub open spec fn dx(self) -> int {
        match self {
            Dir::Up => 0,
            Dir::Down => 0,
            Dir::Left => -1,
            Dir::Right => 1,
            Dir::UpRight => 1,
            Dir::UpLeft => -1,
            Dir::DownRight => 1,
            Dir::DownLeft => -1,
            Dir::Custom(a, _) => a as int,
        }
    }

    /// Vertical displacement of one step in this direction.
    pub open spec fn dy(self) -> int {
        match self {
            Dir::Up => 1,
            Dir::Down => -1,
            Dir::Left => 0,
            Dir::Right => 0,
            Dir::UpRight => 1,
            Dir::UpLeft => 1,
            Dir::DownRight => -1,
            Dir::DownLeft => -1,
            Dir::Custom(_, b) => b as int,
        }
    }

    /// The offsets the rules ever use are small; this keeps the step
    /// arithmetic inside `i32`.
    pub open spec fn small_offset(self) -> bool {
        -8 <= self.dx() <= 8 && -8 <= self.dy() <= 8
    }
}

impl BoardPos {
    /// Both coordinates lie on the grid.
    pub open spec fn valid(self) -> bool {
        self.x < BOARD_WIDTH && self.y < BOARD_HEIGHT
    }

    /// Builds a position, rejecting out-of-bounds coordinates.
    pub fn new(x: usize, y: usize) -> (r: Result<Self, ConstructionError>)
        ensures
            x < BOARD_WIDTH && y < BOARD_HEIGHT ==> r == Ok::<BoardPos, ConstructionError>(
                (BoardPos { x, y }),
            ),
            x >= BOARD_WIDTH || y >= BOARD_HEIGHT ==> r == Err::<BoardPos, ConstructionError>(
                ConstructionError::OutOfBounds,
            ),
    {
        if x >= BOARD_WIDTH || y >= BOARD_HEIGHT {
            return Err(ConstructionError::OutOfBounds);
        }
        Ok(Self { x, y })
    }

    /// The square one step away in `dir`, or `None` when that square
    /// would leave the grid.
    pub open spec fn square_in_dir_spec(self, dir: Dir) -> Option<BoardPos> {
        let nx = self.x as int + dir.dx();
        let ny = self.y as int + dir.dy();
        if 0 <= nx < BOARD_WIDTH as int && 0 <= ny < BOARD_HEIGHT as int {
            Some(BoardPos { x: nx as usize, y: ny as usize })
        } else {
            None
        }
    }

    pub fn square_in_dir(&self, dir: Dir) -> (r: Option<BoardPos>)
        requires
            self.valid(),
            dir.small_offset(),
        ensures
            r == self.square_in_dir_spec(dir),
            r matches Some(p) ==> p.valid(),
    {
        let (dx, dy): (i32, i32) = match dir {
            Dir::Up => (0, 1),
            Dir::Down => (0, -1),
            Dir::Left => (-1, 0),
            Dir::Right => (1, 0),
            Dir::UpRight => (1, 1),
            Dir::UpLeft => (-1, 1),
            Dir::DownRight => (1, -1),
            Dir::DownLeft => (-1, -1),
            Dir::Custom(a, b) => (a, b),
        };
        let nx = self.x as i32 + dx;
        let ny = self.y as i32 + dy;
        if 0 <= nx && nx < BOARD_WIDTH as i32 && 0 <= ny && ny < BOARD_HEIGHT as i32 {
            Some(BoardPos { x: nx as usize, y: ny as usize })
        } else {
            None
        }
    }
}

} // verus!
