//! Pieces, sides, and the tagged board-change variants that the move
//! generator emits and `Board::apply_board_change` consumes.

use vstd::prelude::*;

use crate::pos::BoardPos;

verus! {

#[derive(Clone, Copy, PartialEq, Eq, Structural, Debug)]
pub enum Side {
    White,
    Black,
}

#[derive(Clone, Copy, PartialEq, Eq, Structural, Debug)]
pub enum PieceType {
    King,
    Queen,
    Rook,
    Bishop,
    Knight,
    Pawn,
}

/// One live unit on the grid. `distance_moved` accumulates Manhattan
/// distance; `turn_last_moved` records the turn index of the last
/// relocation, which en passant legality depends on.
#[derive(Clone, Copy, PartialEq, Eq, Structural, Debug)]
pub struct Piece {
    pub piece_type: PieceType,
    pub side: Side,
    pub board_pos: BoardPos,
    pub distance_moved: u32,
    pub num_moves: u32,
    pub turn_last_moved: u32,
}

/// One committed board transition.
///
/// `MoveDestroy` removes the piece at `target`, which may differ from
/// `end` (en passant). `BothMove` relocates two pieces at once (castling
/// and the rook push). `PushPremote` is the push variant in which the
/// displaced pawn is promoted to a rook.
#[derive(Clone, Copy, PartialEq, Eq, Structural, Debug)]
pub enum BChange {
    Move { start: BoardPos, end: BoardPos },
    MoveDestroy { start: BoardPos, end: BoardPos, target: BoardPos },
    BothMove { start1: BoardPos, start2: BoardPos, end1: BoardPos, end2: BoardPos },
    Promotion { start: BoardPos, end: BoardPos },
    PushPremote { start1: BoardPos, start2: BoardPos, end1: BoardPos, end2: BoardPos },
}

impl Side {
    /// The other side.
    pub open spec fn opposite(self) -> Side {
        match self {
            Side::White => Side::Black,
            Side::Black => Side::White,
        }
    }

    pub fn is_friendly(&self, other: &Self) -> (r: bool)
        ensures
            r == (*self == *other),
    {
        match (self, other) {
            (Side::White, Side::White) => true,
            (Side::Black, Side::Black) => true,
            _ => false,
        }
    }

    pub fn is_enemy(&self, other: &Self) -> (r: bool)
        ensures
            r == (*self != *other),
    {
        !self.is_friendly(other)
    }
}

/// Manhattan distance between two squares.
pub open spec fn manhattan(a: BoardPos, b: BoardPos) -> int {
    let dx = if a.x >= b.x {
        a.x - b.x
    } else {
        b.x - a.x
    };
    let dy = if a.y >= b.y {
        a.y - b.y
    } else {
        b.y - a.y
    };
    dx + dy
}

/// The piece `p` after relocating to `target` on turn `turn_num`.
pub open spec fn moved_piece(p: Piece, target: BoardPos, turn_num: u32) -> Piece {
    Piece {
        piece_type: p.piece_type,
        side: p.side,
        board_pos: target,
        distance_moved: (p.distance_moved + manhattan(p.board_pos, target)) as u32,
        num_moves: (p.num_moves + 1) as u32,
        turn_last_moved: turn_num,
    }
}

/// The piece `p` with its type replaced by `t`.
pub open spec fn promoted_piece(p: Piece, t: PieceType) -> Piece {
    Piece {
        piece_type: t,
        side: p.side,
        board_pos: p.board_pos,
        distance_moved: p.distance_moved,
        num_moves: p.num_moves,
        turn_last_moved: p.turn_last_moved,
    }
}

impl Piece {
    /// Relocates this piece to `target`, updating the travelled distance,
    /// the move counter and the turn stamp.
    pub fn move_piece(&mut self, target: BoardPos, turn_num: u32)
        requires
            old(self).board_pos.valid(),
            target.valid(),
            old(self).num_moves < u32::MAX,
            old(self).distance_moved <= u32::MAX - 14,
        ensures
            *final(self) == moved_piece(*old(self), target, turn_num),
    {
        let dx = if self.board_pos.x >= target.x {
            self.board_pos.x - target.x
        } else {
            target.x - self.board_pos.x
        };
        let dy = if self.board_pos.y >= target.y {
            self.board_pos.y - target.y
        } else {
            target.y - self.board_pos.y
        };
        self.distance_moved = self.distance_moved + (dx + dy) as u32;
        self.board_pos = target;
        self.num_moves = self.num_moves + 1;
        self.turn_last_moved = turn_num;
    }

    /// How many turns ago this piece last relocated.
    pub fn turns_since_last_move(&self, turn_num: u32) -> (r: u32)
        requires
            self.turn_last_moved <= turn_num,
        ensures
            r == turn_num - self.turn_last_moved,
    {
        turn_num - self.turn_last_moved
    }
}

/// The square a user must click to trigger this change: the destination
/// for single-piece changes, the secondary piece's origin for the
/// two-piece changes.
pub open spec fn activation_spec(c: BChange) -> BoardPos {
    match c {
        BChange::Move { end, .. } => end,
        BChange::MoveDestroy { end, .. } => end,
        BChange::BothMove { start2, .. } => start2,
        BChange::Promotion { end, .. } => end,
        BChange::PushPremote { start2, .. } => start2,
    }
}

/// The promotion-carrying counterpart of a change: single-piece changes
/// become `Promotion`, `BothMove` becomes `PushPremote`, and the two
/// promotion variants are unchanged.
pub open spec fn convert_spec(c: BChange) -> BChange {
    match c {
        BChange::Move { start, end } => BChange::Promotion { start, end },
        BChange::MoveDestroy { start, end, .. } => BChange::Promotion { start, end },
        BChange::BothMove { start1, start2, end1, end2 } => BChange::PushPremote {
            start1,
            start2,
            end1,
            end2,
        },
        BChange::Promotion { .. } => c,
        BChange::PushPremote { .. } => c,
    }
}

/// Every position carried by the change lies on the grid.
pub open spec fn positions_valid(c: BChange) -> bool {
    match c {
        BChange::Move { start, end } => start.valid() && end.valid(),
        BChange::MoveDestroy { start, end, target } => start.valid() && end.valid()
            && target.valid(),
        BChange::BothMove { start1, start2, end1, end2 } => start1.valid() && start2.valid()
            && end1.valid() && end2.valid(),
        BChange::Promotion { start, end } => start.valid() && end.valid(),
        BChange::PushPremote { start1, start2, end1, end2 } => start1.valid() && start2.valid()
            && end1.valid() && end2.valid(),
    }
}

impl BChange {
    pub fn click_pos_to_activate_change(&self) -> (r: BoardPos)
        ensures
            r == activation_spec(*self),
    {
        match self {
            BChange::Move { end, .. } => *end,
            BChange::MoveDestroy { end, .. } => *end,
            BChange::BothMove { start2, .. } => *start2,
            BChange::Promotion { end, .. } => *end,
            BChange::PushPremote { start2, .. } => *start2,
        }
    }

    pub fn convert_to_promotion(&self) -> (r: BChange)
        ensures
            r == convert_spec(*self),
    {
        match self {
            BChange::Move { start, end } => BChange::Promotion { start: *start, end: *end },
            BChange::MoveDestroy { start, end, .. } => BChange::Promotion {
                start: *start,
                end: *end,
            },
            BChange::BothMove { start1, end1, start2, end2 } => BChange::PushPremote {
                start1: *start1,
                end1: *end1,
                start2: *start2,
                end2: *end2,
            },
            BChange::Promotion { .. } => *self,
            BChange::PushPremote { .. } => *self,
        }
    }
}

} // verus!
