//! The move generator: pure enumeration of every reachable board change
//! for the piece occupying a given square, respecting turn ownership.
//!
//! Each generated change is proved to stay on the grid and to satisfy
//! `Board::can_apply`, so a change picked from the enumeration can
//! always be committed.

use vstd::prelude::*;

use crate::board::Board;
use crate::piece::{activation_spec, convert_spec, positions_valid, BChange, Piece, PieceType, Side};
use crate::pos::{BoardPos, Dir, BOARD_HEIGHT, BOARD_WIDTH};

verus! {

/// An upper bound on how many steps a ray in `dir` can still take from
/// `p` before leaving the grid; drives termination of `slide_spec`.
pub open spec fn ray_fuel(p: BoardPos, dir: Dir) -> int {
    match dir {
        Dir::Up | Dir::UpRight | Dir::UpLeft => BOARD_HEIGHT - p.y,
        Dir::Down | Dir::DownRight | Dir::DownLeft => p.y + 1,
        Dir::Right => BOARD_WIDTH - p.x,
        Dir::Left => p.x + 1,
        Dir::Custom(_, _) => 0,
    }
}

/// The changes a slider standing on `start` generates along `dir`,
/// walking onward from `cur`: a `Move` for each empty square, then on
/// the first occupied square a `MoveDestroy` if it holds an enemy, and
/// a stop in every case. Only the eight unit directions slide.
pub open spec fn slide_spec(b: Board, dir: Dir, side: Side, start: BoardPos, cur: BoardPos) -> Seq<
    BChange,
>
    decreases ray_fuel(cur, dir),
{
    if dir is Custom {
        Seq::empty()
    } else {
        match cur.square_in_dir_spec(dir) {
            None => Seq::empty(),
            Some(sq) => match b.piece_at(sq) {
                Some(target_piece) => if target_piece.side != side {
                    seq![BChange::MoveDestroy { start, end: sq, target: sq }]
                } else {
                    Seq::empty()
                },
                None => seq![BChange::Move { start, end: sq }] + slide_spec(b, dir, side, start, sq),
            },
        }
    }
}

/// Structure of every change a slide emits: `Move`s onto empty squares
/// and at most one final `MoveDestroy` onto an enemy, with each
/// destination strictly farther along the ray than `cur`.
proof fn lemma_slide_elements(b: Board, dir: Dir, side: Side, start: BoardPos, cur: BoardPos)
    requires
        b.wf(),
        cur.valid(),
        !(dir is Custom),
    ensures
        forall|i: int|
            0 <= i < slide_spec(b, dir, side, start, cur).len() ==> slide_element_ok(
                b,
                dir,
                side,
                start,
                cur,
                #[trigger] slide_spec(b, dir, side, start, cur)[i],
            ),
    decreases ray_fuel(cur, dir),
{
    let s = slide_spec(b, dir, side, start, cur);
    match cur.square_in_dir_spec(dir) {
        None => {},
        Some(sq) => {
            match b.piece_at(sq) {
                Some(_) => {},
                None => {
                    lemma_slide_elements(b, dir, side, start, sq);
                    let rest = slide_spec(b, dir, side, start, sq);
                    assert forall|i: int| 0 <= i < s.len() implies slide_element_ok(
                        b,
                        dir,
                        side,
                        start,
                        cur,
                        s[i],
                    ) by {
                        if i > 0 {
                            assert(s[i] == rest[i - 1]);
                            assert(slide_element_ok(b, dir, side, start, sq, rest[i - 1]));
                        }
                    }
                },
            }
        },
    }
}

/// What holds of one change emitted by a slide from `cur`.
pub open spec fn slide_element_ok(
    b: Board,
    dir: Dir,
    side: Side,
    start: BoardPos,
    cur: BoardPos,
    c: BChange,
) -> bool {
    match c {
        BChange::Move { start: s, end: e } => {
            &&& s == start
            &&& e.valid()
            &&& b.piece_at(e) is None
            &&& ray_fuel(e, dir) < ray_fuel(cur, dir)
        },
        BChange::MoveDestroy { start: s, end: e, target: t } => {
            &&& s == start
            &&& e.valid()
            &&& t == e
            &&& b.piece_at(e) matches Some(q) && q.side != side
            &&& ray_fuel(e, dir) < ray_fuel(cur, dir)
        },
        _ => false,
    }
}

/// The guarantee carried by every generated change: its positions lie
/// on the grid and `Board::can_apply` accepts it.
pub open spec fn change_ok(b: Board, c: BChange) -> bool {
    positions_valid(c) && b.can_apply(c)
}

/// Every change of the sequence carries the generator's guarantee.
pub open spec fn changes_ok(b: Board, s: Seq<BChange>) -> bool {
    forall|i: int| 0 <= i < s.len() ==> change_ok(b, #[trigger] s[i])
}

/// Concatenation preserves the generator's guarantee.
proof fn lemma_concat_ok(b: Board, s1: Seq<BChange>, s2: Seq<BChange>)
    requires
        changes_ok(b, s1),
        changes_ok(b, s2),
    ensures
        changes_ok(b, s1 + s2),
{
    assert forall|i: int| 0 <= i < (s1 + s2).len() implies change_ok(b, #[trigger] (s1 + s2)[i]) by {
        if i < s1.len() {
            assert((s1 + s2)[i] == s1[i]);
            assert(change_ok(b, s1[i]));
        } else {
            assert((s1 + s2)[i] == s2[i - s1.len()]);
            assert(change_ok(b, s2[i - s1.len()]));
        }
    }
}

/// Every change of a full slide from an occupied square stays on the
/// grid and can be applied.
proof fn lemma_slide_ok(b: Board, dir: Dir, side: Side, start: BoardPos)
    requires
        b.wf(),
        start.valid(),
        b.piece_at(start) is Some,
        !(dir is Custom),
    ensures
        changes_ok(b, slide_spec(b, dir, side, start, start)),
        forall|i: int|
            0 <= i < slide_spec(b, dir, side, start, start).len() ==> {
                let c = #[trigger] slide_spec(b, dir, side, start, start)[i];
                c is Move || c is MoveDestroy
            },
{
    lemma_slide_elements(b, dir, side, start, start);
}

/// Walks `dir` from `start`, pushing a `Move` for each empty square and
/// stopping at the first occupied one, with a `MoveDestroy` if it holds
/// an enemy.
fn slide(dir: Dir, side: Side, start: BoardPos, board: &Board) -> (moves: Vec<BChange>)
    requires
        board.wf(),
        start.valid(),
        !(dir is Custom),
    ensures
        moves@ == slide_spec(*board, dir, side, start, start),
{
    let mut moves: Vec<BChange> = Vec::new();
    let mut current_square = start;
    proof {
        assert(Seq::<BChange>::empty() + slide_spec(*board, dir, side, start, start) =~= slide_spec(
            *board,
            dir,
            side,
            start,
            start,
        ));
    }
    loop
        invariant_except_break
            board.wf(),
            current_square.valid(),
            !(dir is Custom),
            slide_spec(*board, dir, side, start, start) == moves@ + slide_spec(
                *board,
                dir,
                side,
                start,
                current_square,
            ),
        ensures
            moves@ == slide_spec(*board, dir, side, start, start),
        decreases ray_fuel(current_square, dir),
    {
        let ghost tail = slide_spec(*board, dir, side, start, current_square);
        match current_square.square_in_dir(dir) {
            None => {
                proof {
                    assert(tail =~= Seq::<BChange>::empty());
                    assert(moves@ + tail =~= moves@);
                }
                break ;
            },
            Some(square) => {
                match board.get_piece(square) {
                    Some(target_piece) => {
                        if side.is_enemy(&target_piece.side) {
                            moves.push(
                                BChange::MoveDestroy { start, end: square, target: square },
                            );
                            proof {
                                assert(tail =~= seq![
                                    BChange::MoveDestroy { start, end: square, target: square },
                                ]);
                            }
                        } else {
                            proof {
                                assert(tail =~= Seq::<BChange>::empty());
                            }
                        }
                        proof {
                            assert(slide_spec(*board, dir, side, start, start) =~= moves@);
                        }
                        break ;
                    },
                    None => {
                        moves.push(BChange::Move { start, end: square });
                        proof {
                            assert(tail == seq![BChange::Move { start, end: square }] + slide_spec(
                                *board,
                                dir,
                                side,
                                start,
                                square,
                            ));
                            assert(slide_spec(*board, dir, side, start, start) =~= moves@
                                + slide_spec(*board, dir, side, start, square));
                        }
                        current_square = square;
                    },
                }
            },
        }
    }
    moves
}

/// The (at most one) change of a single step from `start` in `dir`: a
/// `Move` onto an empty square, a `MoveDestroy` onto an enemy, nothing
/// onto a friend or off the grid. Shared by the king steps and the
/// knight jumps.
pub open spec fn step_moves(b: Board, side: Side, start: BoardPos, dir: Dir) -> Seq<BChange> {
    match start.square_in_dir_spec(dir) {
        None => Seq::empty(),
        Some(sq) => match b.piece_at(sq) {
            Some(target_piece) => if target_piece.side != side {
                seq![BChange::MoveDestroy { start, end: sq, target: sq }]
            } else {
                Seq::empty()
            },
            None => seq![BChange::Move { start, end: sq }],
        },
    }
}

/// A step in a direction that actually displaces stays on the grid and
/// can be applied when its origin is occupied.
proof fn lemma_step_ok(b: Board, side: Side, start: BoardPos, dir: Dir)
    requires
        b.wf(),
        start.valid(),
        b.piece_at(start) is Some,
        dir.dx() != 0 || dir.dy() != 0,
    ensures
        changes_ok(b, step_moves(b, side, start, dir)),
        forall|i: int|
            0 <= i < step_moves(b, side, start, dir).len() ==> {
                let c = #[trigger] step_moves(b, side, start, dir)[i];
                c is Move || c is MoveDestroy
            },
{
}

/// Appends the single-step change, if any, to `moves`.
fn push_step(board: &Board, moves: &mut Vec<BChange>, side: Side, start: BoardPos, dir: Dir)
    requires
        board.wf(),
        start.valid(),
        dir.small_offset(),
    ensures
        final(moves)@ == old(moves)@ + step_moves(*board, side, start, dir),
{
    let ghost step = step_moves(*board, side, start, dir);
    match start.square_in_dir(dir) {
        None => {
            proof {
                assert(moves@ =~= old(moves)@ + step);
            }
        },
        Some(square) => {
            match board.get_piece(square) {
                Some(target_piece) => {
                    if side.is_enemy(&target_piece.side) {
                        moves.push(BChange::MoveDestroy { start, end: square, target: square });
                        proof {
                            assert(moves@ =~= old(moves)@ + step);
                        }
                    } else {
                        proof {
                            assert(moves@ =~= old(moves)@ + step);
                        }
                    }
                },
                None => {
                    moves.push(BChange::Move { start, end: square });
                    proof {
                        assert(moves@ =~= old(moves)@ + step);
                    }
                },
            }
        },
    }
}

/// The king's eight single-step changes, in a fixed order.
pub open spec fn king_steps_spec(b: Board, sel: BoardPos, side: Side) -> Seq<BChange> {
    step_moves(b, side, sel, Dir::Up) + step_moves(b, side, sel, Dir::Down) + step_moves(
        b,
        side,
        sel,
        Dir::Left,
    ) + step_moves(b, side, sel, Dir::Right) + step_moves(b, side, sel, Dir::UpRight) + step_moves(
        b,
        side,
        sel,
        Dir::UpLeft,
    ) + step_moves(b, side, sel, Dir::DownRight) + step_moves(b, side, sel, Dir::DownLeft)
}

/// The king's changes: the eight single steps, then the right castle,
/// then the left castle, where offered.
pub open spec fn king_moves_spec(b: Board, sel: BoardPos, p: Piece) -> Seq<BChange> {
    king_steps_spec(b, sel, p.side) + castle_right_spec(b, sel, p) + castle_left_spec(b, sel, p)
}

/// The two squares the king crosses to its right are clear (a square
/// off the grid ends the scan early and does not block).
pub open spec fn right_open_spec(b: Board, sel: BoardPos) -> bool {
    match sel.square_in_dir_spec(Dir::Custom(1i32, 0i32)) {
        None => true,
        Some(s1) => b.piece_at(s1) is None && match sel.square_in_dir_spec(
            Dir::Custom(2i32, 0i32),
        ) {
            None => true,
            Some(s2) => b.piece_at(s2) is None,
        },
    }
}

/// The three squares to the king's left are clear (same early-exit
/// convention as on the right).
pub open spec fn left_open_spec(b: Board, sel: BoardPos) -> bool {
    match sel.square_in_dir_spec(Dir::Custom(-1i32, 0i32)) {
        None => true,
        Some(s1) => b.piece_at(s1) is None && match sel.square_in_dir_spec(
            Dir::Custom(-2i32, 0i32),
        ) {
            None => true,
            Some(s2) => b.piece_at(s2) is None && match sel.square_in_dir_spec(
                Dir::Custom(-3i32, 0i32),
            ) {
                None => true,
                Some(s3) => b.piece_at(s3) is None,
            },
        },
    }
}

/// Castling to the right: the king must never have moved, the two
/// squares it crosses must be clear, and a same-side rook that never
/// moved must stand three squares away. The king lands two squares
/// over; the rook lands beside the king's origin.
pub open spec fn castle_right_spec(b: Board, sel: BoardPos, p: Piece) -> Seq<BChange> {
    if p.num_moves > 0 {
        Seq::empty()
    } else if right_open_spec(b, sel) {
        match sel.square_in_dir_spec(Dir::Custom(3i32, 0i32)) {
            Some(rook_square) => match b.piece_at(rook_square) {
                Some(rook) => if rook.piece_type == PieceType::Rook && rook.side == p.side
                    && rook.num_moves == 0 {
                    seq![
                        (BChange::BothMove {
                            start1: sel,
                            end1: sel.square_in_dir_spec(Dir::Custom(2i32, 0i32))->0,
                            start2: rook_square,
                            end2: sel.square_in_dir_spec(Dir::Right)->0,
                        }),
                    ]
                } else {
                    Seq::empty()
                },
                None => Seq::empty(),
            },
            None => Seq::empty(),
        }
    } else {
        Seq::empty()
    }
}

/// Castling to the left, with the rook four squares away and three
/// squares to clear.
pub open spec fn castle_left_spec(b: Board, sel: BoardPos, p: Piece) -> Seq<BChange> {
    if p.num_moves > 0 {
        Seq::empty()
    } else if left_open_spec(b, sel) {
        match sel.square_in_dir_spec(Dir::Custom(-4i32, 0i32)) {
            Some(rook_square) => match b.piece_at(rook_square) {
                Some(rook) => if rook.piece_type == PieceType::Rook && rook.side == p.side
                    && rook.num_moves == 0 {
                    seq![
                        (BChange::BothMove {
                            start1: sel,
                            end1: sel.square_in_dir_spec(Dir::Custom(-2i32, 0i32))->0,
                            start2: rook_square,
                            end2: sel.square_in_dir_spec(Dir::Left)->0,
                        }),
                    ]
                } else {
                    Seq::empty()
                },
                None => Seq::empty(),
            },
            None => Seq::empty(),
        }
    } else {
        Seq::empty()
    }
}

/// Every king single step from an occupied square stays on the grid and
/// can be applied.
proof fn lemma_king_steps_ok(b: Board, sel: BoardPos, side: Side)
    requires
        b.wf(),
        sel.valid(),
        b.piece_at(sel) is Some,
    ensures
        changes_ok(b, king_steps_spec(b, sel, side)),
{
    let s1 = step_moves(b, side, sel, Dir::Up);
    let s2 = step_moves(b, side, sel, Dir::Down);
    let s3 = step_moves(b, side, sel, Dir::Left);
    let s4 = step_moves(b, side, sel, Dir::Right);
    let s5 = step_moves(b, side, sel, Dir::UpRight);
    let s6 = step_moves(b, side, sel, Dir::UpLeft);
    let s7 = step_moves(b, side, sel, Dir::DownRight);
    let s8 = step_moves(b, side, sel, Dir::DownLeft);
    lemma_step_ok(b, side, sel, Dir::Up);
    lemma_step_ok(b, side, sel, Dir::Down);
    lemma_step_ok(b, side, sel, Dir::Left);
    lemma_step_ok(b, side, sel, Dir::Right);
    lemma_step_ok(b, side, sel, Dir::UpRight);
    lemma_step_ok(b, side, sel, Dir::UpLeft);
    lemma_step_ok(b, side, sel, Dir::DownRight);
    lemma_step_ok(b, side, sel, Dir::DownLeft);
    lemma_concat_ok(b, s1, s2);
    lemma_concat_ok(b, s1 + s2, s3);
    lemma_concat_ok(b, s1 + s2 + s3, s4);
    lemma_concat_ok(b, s1 + s2 + s3 + s4, s5);
    lemma_concat_ok(b, s1 + s2 + s3 + s4 + s5, s6);
    lemma_concat_ok(b, s1 + s2 + s3 + s4 + s5 + s6, s7);
    lemma_concat_ok(b, s1 + s2 + s3 + s4 + s5 + s6 + s7, s8);
}

/// Concatenation preserves being made of single-piece changes.
proof fn lemma_concat_single(s1: Seq<BChange>, s2: Seq<BChange>)
    requires
        forall|i: int| 0 <= i < s1.len() ==> #[trigger] s1[i] is Move || s1[i] is MoveDestroy,
        forall|i: int| 0 <= i < s2.len() ==> #[trigger] s2[i] is Move || s2[i] is MoveDestroy,
    ensures
        forall|i: int|
            0 <= i < (s1 + s2).len() ==> #[trigger] (s1 + s2)[i] is Move || (s1 + s2)[i]
                is MoveDestroy,
{
    assert forall|i: int| 0 <= i < (s1 + s2).len() implies #[trigger] (s1 + s2)[i] is Move || (s1
        + s2)[i] is MoveDestroy by {
        if i < s1.len() {
            assert((s1 + s2)[i] == s1[i]);
        } else {
            assert((s1 + s2)[i] == s2[i - s1.len()]);
        }
    }
}

/// The king's eight single steps are all single-piece changes.
pub proof fn lemma_king_steps_shape(b: Board, sel: BoardPos, side: Side)
    ensures
        forall|i: int|
            0 <= i < king_steps_spec(b, sel, side).len() ==> #[trigger] king_steps_spec(
                b,
                sel,
                side,
            )[i] is Move || king_steps_spec(b, sel, side)[i] is MoveDestroy,
{
    let s1 = step_moves(b, side, sel, Dir::Up);
    let s2 = step_moves(b, side, sel, Dir::Down);
    let s3 = step_moves(b, side, sel, Dir::Left);
    let s4 = step_moves(b, side, sel, Dir::Right);
    let s5 = step_moves(b, side, sel, Dir::UpRight);
    let s6 = step_moves(b, side, sel, Dir::UpLeft);
    let s7 = step_moves(b, side, sel, Dir::DownRight);
    let s8 = step_moves(b, side, sel, Dir::DownLeft);
    lemma_concat_single(s1, s2);
    lemma_concat_single(s1 + s2, s3);
    lemma_concat_single(s1 + s2 + s3, s4);
    lemma_concat_single(s1 + s2 + s3 + s4, s5);
    lemma_concat_single(s1 + s2 + s3 + s4 + s5, s6);
    lemma_concat_single(s1 + s2 + s3 + s4 + s5 + s6, s7);
    lemma_concat_single(s1 + s2 + s3 + s4 + s5 + s6 + s7, s8);
}

/// The pawn's base changes are all single-piece changes.
pub proof fn lemma_pawn_base_shape(b: Board, sel: BoardPos, side: Side)
    ensures
        forall|i: int|
            0 <= i < pawn_base_spec(b, sel, side).len() ==> #[trigger] pawn_base_spec(
                b,
                sel,
                side,
            )[i] is Move || pawn_base_spec(b, sel, side)[i] is MoveDestroy,
{
    let s1 = pawn_forward_spec(b, sel, pawn_fwd_dir(side));
    let s2 = pawn_diag_spec(b, side, sel, pawn_diag_right_dir(side));
    let s3 = pawn_diag_spec(b, side, sel, pawn_diag_left_dir(side));
    lemma_concat_single(s1, s2);
    lemma_concat_single(s1 + s2, s3);
}

/// The row from which this side's pawn promotes on its next forward
/// step.
pub open spec fn promo_row(side: Side) -> int {
    match side {
        Side::White => BOARD_HEIGHT - 2,
        Side::Black => 1,
    }
}

/// The forward direction of this side's pawns.
pub open spec fn pawn_fwd_dir(side: Side) -> Dir {
    match side {
        Side::White => Dir::Up,
        Side::Black => Dir::Down,
    }
}

/// This side's pawn capture direction toward higher columns.
pub open spec fn pawn_diag_right_dir(side: Side) -> Dir {
    match side {
        Side::White => Dir::UpRight,
        Side::Black => Dir::DownRight,
    }
}

/// This side's pawn capture direction toward lower columns.
pub open spec fn pawn_diag_left_dir(side: Side) -> Dir {
    match side {
        Side::White => Dir::UpLeft,
        Side::Black => Dir::DownLeft,
    }
}

/// A pawn's plain forward step: only onto an empty square, never a
/// capture.
pub open spec fn pawn_forward_spec(b: Board, sel: BoardPos, dir: Dir) -> Seq<BChange> {
    match sel.square_in_dir_spec(dir) {
        None => Seq::empty(),
        Some(sq) => if b.piece_at(sq) is None {
            seq![BChange::Move { start: sel, end: sq }]
        } else {
            Seq::empty()
        },
    }
}

/// A pawn's diagonal step: only a capture of an enemy, never a move
/// onto an empty square.
pub open spec fn pawn_diag_spec(b: Board, side: Side, sel: BoardPos, dir: Dir) -> Seq<BChange> {
    match sel.square_in_dir_spec(dir) {
        None => Seq::empty(),
        Some(sq) => match b.piece_at(sq) {
            Some(target_piece) => if target_piece.side != side {
                seq![BChange::MoveDestroy { start: sel, end: sq, target: sq }]
            } else {
                Seq::empty()
            },
            None => Seq::empty(),
        },
    }
}

/// The double advance: only for a pawn that has never moved, with both
/// the crossed and the destination square empty.
pub open spec fn double_spec(b: Board, sel: BoardPos, p: Piece, dir: Dir) -> Seq<BChange> {
    if p.num_moves != 0 {
        Seq::empty()
    } else {
        match sel.square_in_dir_spec(dir) {
            None => Seq::empty(),
            Some(one) => match one.square_in_dir_spec(dir) {
                None => Seq::empty(),
                Some(two) => if b.piece_at(one) is Some || b.piece_at(two) is Some {
                    Seq::empty()
                } else {
                    seq![BChange::Move { start: sel, end: two }]
                },
            },
        }
    }
}

/// En passant toward `side_dir`: the adjacent square must hold an enemy
/// pawn that has moved exactly once, on the immediately preceding turn.
/// The capture lands diagonally behind it and removes the pawn from its
/// own square, not from the landing square.
pub open spec fn ep_spec(b: Board, sel: BoardPos, p: Piece, side_dir: Dir, diag_dir: Dir) -> Seq<
    BChange,
> {
    match sel.square_in_dir_spec(side_dir) {
        None => Seq::empty(),
        Some(sq) => match b.piece_at(sq) {
            Some(target_piece) => if target_piece.side != p.side && target_piece.piece_type
                == PieceType::Pawn && target_piece.num_moves == 1 && b.turn_index()
                - target_piece.turn_last_moved == 1 {
                match sel.square_in_dir_spec(diag_dir) {
                    Some(d) => seq![(BChange::MoveDestroy { start: sel, end: d, target: sq })],
                    None => Seq::empty(),
                }
            } else {
                Seq::empty()
            },
            None => Seq::empty(),
        },
    }
}

/// The pawn's ordinary changes before promotion handling: forward, then
/// the right diagonal, then the left diagonal.
pub open spec fn pawn_base_spec(b: Board, sel: BoardPos, side: Side) -> Seq<BChange> {
    pawn_forward_spec(b, sel, pawn_fwd_dir(side)) + pawn_diag_spec(
        b,
        side,
        sel,
        pawn_diag_right_dir(side),
    ) + pawn_diag_spec(b, side, sel, pawn_diag_left_dir(side))
}

/// The pawn's changes. On the row one step short of the far rank every
/// base change is converted to its promotion form and nothing else is
/// offered; otherwise the double advance and the two en passant
/// captures follow the base changes.
pub open spec fn pawn_moves_spec(b: Board, sel: BoardPos, p: Piece) -> Seq<BChange> {
    let base = pawn_base_spec(b, sel, p.side);
    if sel.y == promo_row(p.side) {
        base.map_values(|c: BChange| convert_spec(c))
    } else {
        base + double_spec(b, sel, p, pawn_fwd_dir(p.side)) + ep_spec(
            b,
            sel,
            p,
            Dir::Right,
            pawn_diag_right_dir(p.side),
        ) + ep_spec(b, sel, p, Dir::Left, pawn_diag_left_dir(p.side))
    }
}

/// Every change of the sequence is a single-piece `Move` or
/// `MoveDestroy` that carries the generator's guarantee, so converting
/// it to its promotion form is sound.
pub open spec fn convertible_ok(b: Board, s: Seq<BChange>) -> bool {
    forall|i: int|
        0 <= i < s.len() ==> change_ok(b, #[trigger] s[i]) && (s[i] is Move || s[i] is MoveDestroy)
}

/// The pawn's base changes from an occupied square carry the guarantee
/// and are all single-piece changes.
proof fn lemma_pawn_base_ok(b: Board, sel: BoardPos, side: Side)
    requires
        b.wf(),
        sel.valid(),
        b.piece_at(sel) is Some,
    ensures
        convertible_ok(b, pawn_base_spec(b, sel, side)),
        changes_ok(b, pawn_base_spec(b, sel, side)),
{
    let s1 = pawn_forward_spec(b, sel, pawn_fwd_dir(side));
    let s2 = pawn_diag_spec(b, side, sel, pawn_diag_right_dir(side));
    let s3 = pawn_diag_spec(b, side, sel, pawn_diag_left_dir(side));
    let base = pawn_base_spec(b, sel, side);
    assert forall|i: int| 0 <= i < base.len() implies change_ok(b, #[trigger] base[i]) && (base[i]
        is Move || base[i] is MoveDestroy) by {
        if i < s1.len() {
            assert(base[i] == s1[i]);
        } else if i < s1.len() + s2.len() {
            assert(base[i] == s2[i - s1.len()]);
        } else {
            assert(base[i] == s3[i - s1.len() - s2.len()]);
        }
    }
}

/// Converting guaranteed single-piece changes element-wise yields
/// guaranteed promotion changes.
proof fn lemma_convert_ok(b: Board, s: Seq<BChange>, t: Seq<BChange>)
    requires
        convertible_ok(b, s),
        t.len() == s.len(),
        forall|i: int| 0 <= i < s.len() ==> #[trigger] t[i] == convert_spec(s[i]),
    ensures
        changes_ok(b, t),
{
    assert forall|i: int| 0 <= i < t.len() implies change_ok(b, #[trigger] t[i]) by {
        assert(change_ok(b, s[i]) && (s[i] is Move || s[i] is MoveDestroy));
    }
}

/// Maps each change to its promotion-carrying counterpart.
fn convert_all(v: &Vec<BChange>) -> (out: Vec<BChange>)
    ensures
        out@.len() == v@.len(),
        forall|i: int| 0 <= i < v@.len() ==> #[trigger] out@[i] == convert_spec(v@[i]),
{
    let mut out: Vec<BChange> = Vec::new();
    let mut i: usize = 0;
    while i < v.len()
        invariant
            i <= v@.len(),
            out@.len() == i,
            forall|j: int| 0 <= j < i ==> #[trigger] out@[j] == convert_spec(v@[j]),
        decreases v@.len() - i,
    {
        out.push(v[i].convert_to_promotion());
        i = i + 1;
    }
    out
}

/// Appends the pawn's forward step, if any, to `moves`.
fn push_pawn_forward(board: &Board, moves: &mut Vec<BChange>, sel: BoardPos, dir: Dir)
    requires
        board.wf(),
        sel.valid(),
        dir.small_offset(),
    ensures
        final(moves)@ == old(moves)@ + pawn_forward_spec(*board, sel, dir),
{
    let ghost step = pawn_forward_spec(*board, sel, dir);
    match sel.square_in_dir(dir) {
        None => {
            proof {
                assert(moves@ =~= old(moves)@ + step);
            }
        },
        Some(square) => {
            if !board.is_occupied(square) {
                moves.push(BChange::Move { start: sel, end: square });
                proof {
                    assert(moves@ =~= old(moves)@ + step);
                }
            } else {
                proof {
                    assert(moves@ =~= old(moves)@ + step);
                }
            }
        },
    }
}

/// Appends the pawn's diagonal capture, if any, to `moves`.
fn push_pawn_diag(board: &Board, moves: &mut Vec<BChange>, side: Side, sel: BoardPos, dir: Dir)
    requires
        board.wf(),
        sel.valid(),
        dir.small_offset(),
    ensures
        final(moves)@ == old(moves)@ + pawn_diag_spec(*board, side, sel, dir),
{
    let ghost step = pawn_diag_spec(*board, side, sel, dir);
    match sel.square_in_dir(dir) {
        None => {
            proof {
                assert(moves@ =~= old(moves)@ + step);
            }
        },
        Some(square) => {
            match board.get_piece(square) {
                Some(target_piece) => {
                    if side.is_enemy(&target_piece.side) {
                        moves.push(BChange::MoveDestroy { start: sel, end: square, target: square });
                        proof {
                            assert(moves@ =~= old(moves)@ + step);
                        }
                    } else {
                        proof {
                            assert(moves@ =~= old(moves)@ + step);
                        }
                    }
                },
                None => {
                    proof {
                        assert(moves@ =~= old(moves)@ + step);
                    }
                },
            }
        },
    }
}

/// The queen's changes: slides along all eight directions.
pub open spec fn queen_moves_spec(b: Board, sel: BoardPos, side: Side) -> Seq<BChange> {
    slide_spec(b, Dir::Up, side, sel, sel) + slide_spec(b, Dir::Down, side, sel, sel) + slide_spec(
        b,
        Dir::Left,
        side,
        sel,
        sel,
    ) + slide_spec(b, Dir::Right, side, sel, sel) + slide_spec(b, Dir::UpRight, side, sel, sel)
        + slide_spec(b, Dir::UpLeft, side, sel, sel) + slide_spec(b, Dir::DownRight, side, sel, sel)
        + slide_spec(b, Dir::DownLeft, side, sel, sel)
}

/// The bishop's changes: slides along the four diagonals.
pub open spec fn bishop_moves_spec(b: Board, sel: BoardPos, side: Side) -> Seq<BChange> {
    slide_spec(b, Dir::UpRight, side, sel, sel) + slide_spec(b, Dir::UpLeft, side, sel, sel)
        + slide_spec(b, Dir::DownRight, side, sel, sel) + slide_spec(
        b,
        Dir::DownLeft,
        side,
        sel,
        sel,
    )
}

/// One step along a unit direction strictly shrinks the remaining ray
/// fuel.
proof fn lemma_fuel_step(p: BoardPos, dir: Dir)
    requires
        !(dir is Custom),
    ensures
        p.square_in_dir_spec(dir) matches Some(q) ==> ray_fuel(q, dir) < ray_fuel(p, dir),
{
}

/// The change a rook push produces: the rook takes the friendly
/// neighbour's square and the neighbour is displaced one further; a
/// pushed pawn standing one step short of its far rank is promoted (to
/// a rook) by the push.
pub open spec fn rook_push_change(
    sel: BoardPos,
    next_square: BoardPos,
    push_square: BoardPos,
    fp: Piece,
) -> BChange {
    let base = BChange::BothMove {
        start1: sel,
        start2: next_square,
        end1: next_square,
        end2: push_square,
    };
    if fp.piece_type == PieceType::Pawn && ((fp.side == Side::White && fp.board_pos.y
        == BOARD_HEIGHT - 2) || (fp.side == Side::Black && fp.board_pos.y == 1)) {
        convert_spec(base)
    } else {
        base
    }
}

/// The rook's changes along one direction: the plain slide, preceded by
/// a push change when the slide ends against a friendly piece with an
/// empty square beyond it.
pub open spec fn rook_dir_spec(b: Board, side: Side, sel: BoardPos, dir: Dir) -> Seq<BChange> {
    let sm = slide_spec(b, dir, side, sel, sel);
    let last_sq = if sm.len() == 0 {
        sel
    } else {
        activation_spec(sm.last())
    };
    if b.piece_at(last_sq) is Some && sm.len() > 0 {
        sm
    } else {
        match last_sq.square_in_dir_spec(dir) {
            None => sm,
            Some(next_square) => match b.piece_at(next_square) {
                Some(fp) => if fp.side == side {
                    match next_square.square_in_dir_spec(dir) {
                        None => sm,
                        Some(push_square) => if b.piece_at(push_square) is None {
                            seq![rook_push_change(sel, next_square, push_square, fp)] + sm
                        } else {
                            sm
                        },
                    }
                } else {
                    sm
                },
                None => sm,
            },
        }
    }
}

/// The rook's changes: the four orthogonal directions in a fixed
/// order, each with its slide and possible push.
pub open spec fn rook_moves_spec(b: Board, sel: BoardPos, side: Side) -> Seq<BChange> {
    rook_dir_spec(b, side, sel, Dir::Up) + rook_dir_spec(b, side, sel, Dir::Down) + rook_dir_spec(
        b,
        side,
        sel,
        Dir::Left,
    ) + rook_dir_spec(b, side, sel, Dir::Right)
}

/// The knight's changes: the eight L-shaped jumps, in a fixed order.
pub open spec fn knight_moves_spec(b: Board, sel: BoardPos, side: Side) -> Seq<BChange> {
    step_moves(b, side, sel, Dir::Custom(1i32, 2i32)) + step_moves(b, side, sel, Dir::Custom(2i32, 1i32))
        + step_moves(b, side, sel, Dir::Custom(1i32, -2i32)) + step_moves(
        b,
        side,
        sel,
        Dir::Custom(2i32, -1i32),
    ) + step_moves(b, side, sel, Dir::Custom(-1i32, 2i32)) + step_moves(
        b,
        side,
        sel,
        Dir::Custom(-2i32, 1i32),
    ) + step_moves(b, side, sel, Dir::Custom(-1i32, -2i32)) + step_moves(
        b,
        side,
        sel,
        Dir::Custom(-2i32, -1i32),
    )
}

/// All pseudo-legal changes for the piece occupying `sel`: empty when
/// it is not that piece's turn, otherwise the per-type rule. Opaque so
/// that callers reason through it only where they reveal it.
#[verifier::opaque]
pub open spec fn possible_moves_spec(b: Board, sel: BoardPos) -> Seq<BChange> {
    match b.piece_at(sel) {
        None => Seq::empty(),
        Some(p) => if p.side != b.cur_turn() {
            Seq::empty()
        } else {
            match p.piece_type {
                PieceType::King => king_moves_spec(b, sel, p),
                PieceType::Queen => queen_moves_spec(b, sel, p.side),
                PieceType::Rook => rook_moves_spec(b, sel, p.side),
                PieceType::Bishop => bishop_moves_spec(b, sel, p.side),
                PieceType::Knight => knight_moves_spec(b, sel, p.side),
                PieceType::Pawn => pawn_moves_spec(b, sel, p),
            }
        },
    }
}

/// The first change of `s` whose activation square is `click`.
pub open spec fn first_match(s: Seq<BChange>, click: BoardPos) -> Option<BChange>
    decreases s.len(),
{
    if s.len() == 0 {
        None
    } else if activation_spec(s[0]) == click {
        Some(s[0])
    } else {
        first_match(s.subrange(1, s.len() as int), click)
    }
}

/// When no change among the first `i` matches, the search outcome is
/// decided by the remainder.
proof fn lemma_first_match_skip(s: Seq<BChange>, click: BoardPos, i: int)
    requires
        0 <= i <= s.len(),
        forall|j: int| 0 <= j < i ==> activation_spec(#[trigger] s[j]) != click,
    ensures
        first_match(s, click) == first_match(s.subrange(i, s.len() as int), click),
    decreases i,
{
    if i == 0 {
        assert(s.subrange(0, s.len() as int) =~= s);
    } else {
        lemma_first_match_skip(s, click, i - 1);
        let rest = s.subrange(i - 1, s.len() as int);
        assert(rest[0] == s[i - 1]);
        assert(rest.subrange(1, rest.len() as int) =~= s.subrange(i, s.len() as int));
    }
}

impl Board {
    /// The right castle, if this position offers it.
    fn check_castle_right(&self, selected_square: BoardPos, piece: Piece) -> (r: Option<BChange>)
        requires
            self.wf(),
            selected_square.valid(),
            self.piece_at(selected_square) is Some,
        ensures
            r matches Some(c) ==> castle_right_spec(*self, selected_square, piece) == seq![c]
                && change_ok(*self, c),
            r is None ==> castle_right_spec(*self, selected_square, piece) == Seq::<
                BChange,
            >::empty(),
    {
        if piece.num_moves > 0 {
            return None;
        }
        let mut open_squares = true;
        match selected_square.square_in_dir(Dir::Custom(1, 0)) {
            Some(s1) => {
                if self.is_occupied(s1) {
                    open_squares = false;
                } else {
                    match selected_square.square_in_dir(Dir::Custom(2, 0)) {
                        Some(s2) => {
                            if self.is_occupied(s2) {
                                open_squares = false;
                            }
                        },
                        None => {},
                    }
                }
            },
            None => {},
        }
        if !open_squares {
            return None;
        }
        match selected_square.square_in_dir(Dir::Custom(3, 0)) {
            Some(rook_square) => {
                match self.get_piece(rook_square) {
                    Some(rook) => {
                        if rook.piece_type == PieceType::Rook && rook.side.is_friendly(&piece.side)
                            && rook.num_moves == 0 {
                            proof {
                                assert(selected_square.square_in_dir_spec(Dir::Custom(2i32, 0i32))
                                    is Some);
                                assert(selected_square.square_in_dir_spec(Dir::Right) is Some);
                            }
                            let end1 = selected_square.square_in_dir(Dir::Custom(2, 0)).unwrap();
                            let end2 = selected_square.square_in_dir(Dir::Right).unwrap();
                            Some(
                                BChange::BothMove {
                                    start1: selected_square,
                                    end1,
                                    start2: rook_square,
                                    end2,
                                },
                            )
                        } else {
                            None
                        }
                    },
                    None => None,
                }
            },
            None => None,
        }
    }

    /// The left castle, if this position offers it.
    fn check_castle_left(&self, selected_square: BoardPos, piece: Piece) -> (r: Option<BChange>)
        requires
            self.wf(),
            selected_square.valid(),
            self.piece_at(selected_square) is Some,
        ensures
            r matches Some(c) ==> castle_left_spec(*self, selected_square, piece) == seq![c]
                && change_ok(*self, c),
            r is None ==> castle_left_spec(*self, selected_square, piece) == Seq::<
                BChange,
            >::empty(),
    {
        if piece.num_moves > 0 {
            return None;
        }
        let mut open_squares = true;
        match selected_square.square_in_dir(Dir::Custom(-1, 0)) {
            Some(s1) => {
                if self.is_occupied(s1) {
                    open_squares = false;
                } else {
                    match selected_square.square_in_dir(Dir::Custom(-2, 0)) {
                        Some(s2) => {
                            if self.is_occupied(s2) {
                                open_squares = false;
                            } else {
                                match selected_square.square_in_dir(Dir::Custom(-3, 0)) {
                                    Some(s3) => {
                                        if self.is_occupied(s3) {
                                            open_squares = false;
                                        }
                                    },
                                    None => {},
                                }
                            }
                        },
                        None => {},
                    }
                }
            },
            None => {},
        }
        if !open_squares {
            return None;
        }
        match selected_square.square_in_dir(Dir::Custom(-4, 0)) {
            Some(rook_square) => {
                match self.get_piece(rook_square) {
                    Some(rook) => {
                        if rook.piece_type == PieceType::Rook && rook.side.is_friendly(&piece.side)
                            && rook.num_moves == 0 {
                            proof {
                                assert(selected_square.square_in_dir_spec(Dir::Custom(-2i32, 0i32))
                                    is Some);
                                assert(selected_square.square_in_dir_spec(Dir::Left) is Some);
                            }
                            let end1 = selected_square.square_in_dir(Dir::Custom(-2, 0)).unwrap();
                            let end2 = selected_square.square_in_dir(Dir::Left).unwrap();
                            Some(
                                BChange::BothMove {
                                    start1: selected_square,
                                    end1,
                                    start2: rook_square,
                                    end2,
                                },
                            )
                        } else {
                            None
                        }
                    },
                    None => None,
                }
            },
            None => None,
        }
    }

    /// King: one step in each direction, plus castling to either side.
    fn get_king_moves(&self, selected_square: BoardPos, piece: Piece) -> (moves: Vec<BChange>)
        requires
            self.wf(),
            selected_square.valid(),
            self.piece_at(selected_square) is Some,
        ensures
            moves@ == king_moves_spec(*self, selected_square, piece),
            changes_ok(*self, moves@),
    {
        let side = piece.side;
        let mut moves: Vec<BChange> = Vec::new();
        push_step(self, &mut moves, side, selected_square, Dir::Up);
        push_step(self, &mut moves, side, selected_square, Dir::Down);
        push_step(self, &mut moves, side, selected_square, Dir::Left);
        push_step(self, &mut moves, side, selected_square, Dir::Right);
        push_step(self, &mut moves, side, selected_square, Dir::UpRight);
        push_step(self, &mut moves, side, selected_square, Dir::UpLeft);
        push_step(self, &mut moves, side, selected_square, Dir::DownRight);
        push_step(self, &mut moves, side, selected_square, Dir::DownLeft);
        proof {
            assert(moves@ == king_steps_spec(*self, selected_square, side));
            lemma_king_steps_ok(*self, selected_square, side);
        }
        let ghost steps = moves@;
        let ghost cr = castle_right_spec(*self, selected_square, piece);
        match self.check_castle_right(selected_square, piece) {
            Some(c) => {
                moves.push(c);
                proof {
                    assert(moves@ =~= steps + cr);
                    assert(changes_ok(*self, seq![c])) by {
                        assert(seq![c][0] == c);
                    }
                    lemma_concat_ok(*self, steps, seq![c]);
                }
            },
            None => {
                proof {
                    assert(moves@ =~= steps + cr);
                }
            },
        }
        proof {
            assert(changes_ok(*self, moves@));
        }
        let ghost mid = moves@;
        let ghost cl = castle_left_spec(*self, selected_square, piece);
        match self.check_castle_left(selected_square, piece) {
            Some(c) => {
                moves.push(c);
                proof {
                    assert(moves@ =~= mid + cl);
                    assert(changes_ok(*self, seq![c])) by {
                        assert(seq![c][0] == c);
                    }
                    lemma_concat_ok(*self, mid, seq![c]);
                }
            },
            None => {
                proof {
                    assert(moves@ =~= mid + cl);
                }
            },
        }
        proof {
            assert(moves@ == king_moves_spec(*self, selected_square, piece));
        }
        moves
    }

    /// The pawn's double advance, if this position offers it.
    fn check_double_move(&self, sel: BoardPos, piece: Piece, dir: Dir) -> (r: Option<BChange>)
        requires
            self.wf(),
            sel.valid(),
            self.piece_at(sel) is Some,
            dir == Dir::Up || dir == Dir::Down,
        ensures
            r matches Some(c) ==> double_spec(*self, sel, piece, dir) == seq![c] && change_ok(
                *self,
                c,
            ),
            r is None ==> double_spec(*self, sel, piece, dir) == Seq::<BChange>::empty(),
    {
        if piece.num_moves != 0 {
            return None;
        }
        let one_square = match sel.square_in_dir(dir) {
            Some(square) => square,
            None => {
                return None;
            },
        };
        let two_square = match one_square.square_in_dir(dir) {
            Some(square) => square,
            None => {
                return None;
            },
        };
        if self.is_occupied(one_square) || self.is_occupied(two_square) {
            return None;
        }
        Some(BChange::Move { start: sel, end: two_square })
    }

    /// Whether the square toward `side_dir` holds an enemy pawn that
    /// advanced two squares on the immediately preceding turn.
    fn check_en_passant(&self, sel: BoardPos, side: Side, side_dir: Dir) -> (r: bool)
        requires
            self.wf(),
            sel.valid(),
            side_dir == Dir::Right || side_dir == Dir::Left,
        ensures
            r == (sel.square_in_dir_spec(side_dir) matches Some(sq) && self.piece_at(sq) matches
                Some(tp) && tp.side != side && tp.piece_type == PieceType::Pawn && tp.num_moves == 1
                && self.turn_index() - tp.turn_last_moved == 1),
    {
        let square = match sel.square_in_dir(side_dir) {
            Some(square) => square,
            None => {
                return false;
            },
        };
        if let Some(target_piece) = self.get_piece(square) {
            proof {
                crate::board::lemma_square_stamped(*self, square);
            }
            if target_piece.side.is_enemy(&side) && target_piece.piece_type == PieceType::Pawn
                && target_piece.num_moves == 1 && target_piece.turns_since_last_move(
                self.turn_number(),
            ) == 1 {
                return true;
            }
        }
        false
    }

    /// The en passant capture toward `side_dir`, if this position
    /// offers it.
    fn check_en_passant_move(
        &self,
        sel: BoardPos,
        piece: Piece,
        side_dir: Dir,
        diag_dir: Dir,
    ) -> (r: Option<BChange>)
        requires
            self.wf(),
            sel.valid(),
            self.piece_at(sel) is Some,
            side_dir == Dir::Right || side_dir == Dir::Left,
            diag_dir.dx() == side_dir.dx() && (diag_dir.dy() == 1 || diag_dir.dy() == -1),
        ensures
            r matches Some(c) ==> ep_spec(*self, sel, piece, side_dir, diag_dir) == seq![c]
                && change_ok(*self, c),
            r is None ==> ep_spec(*self, sel, piece, side_dir, diag_dir) == Seq::<
                BChange,
            >::empty(),
    {
        if !self.check_en_passant(sel, piece.side, side_dir) {
            return None;
        }
        let target = sel.square_in_dir(side_dir).unwrap();
        match sel.square_in_dir(diag_dir) {
            Some(end) => Some(BChange::MoveDestroy { start: sel, end, target }),
            None => None,
        }
    }

    /// Pawn: forward step, diagonal captures, double advance, en
    /// passant, and conversion to promotion changes on the row before
    /// the far rank.
    fn get_pawn_moves(&self, selected_square: BoardPos, piece: Piece) -> (moves: Vec<BChange>)
        requires
            self.wf(),
            selected_square.valid(),
            self.piece_at(selected_square) is Some,
        ensures
            moves@ == pawn_moves_spec(*self, selected_square, piece),
            changes_ok(*self, moves@),
    {
        let side = piece.side;
        let fwd = match side {
            Side::White => Dir::Up,
            Side::Black => Dir::Down,
        };
        let diag_r = match side {
            Side::White => Dir::UpRight,
            Side::Black => Dir::DownRight,
        };
        let diag_l = match side {
            Side::White => Dir::UpLeft,
            Side::Black => Dir::DownLeft,
        };
        let mut moves: Vec<BChange> = Vec::new();
        push_pawn_forward(self, &mut moves, selected_square, fwd);
        push_pawn_diag(self, &mut moves, side, selected_square, diag_r);
        push_pawn_diag(self, &mut moves, side, selected_square, diag_l);
        proof {
            assert(moves@ == pawn_base_spec(*self, selected_square, side));
            lemma_pawn_base_ok(*self, selected_square, side);
        }
        let promotion_row: usize = match side {
            Side::White => BOARD_HEIGHT - 2,
            Side::Black => 1,
        };
        if selected_square.y == promotion_row {
            let converted = convert_all(&moves);
            proof {
                lemma_convert_ok(*self, moves@, converted@);
                assert(converted@ =~= pawn_moves_spec(*self, selected_square, piece));
            }
            return converted;
        }
        let ghost base = moves@;
        let ghost dbl = double_spec(*self, selected_square, piece, pawn_fwd_dir(side));
        match self.check_double_move(selected_square, piece, fwd) {
            Some(c) => {
                moves.push(c);
                proof {
                    assert(moves@ =~= base + dbl);
                    assert(changes_ok(*self, seq![c])) by {
                        assert(seq![c][0] == c);
                    }
                    lemma_concat_ok(*self, base, seq![c]);
                }
            },
            None => {
                proof {
                    assert(moves@ =~= base + dbl);
                }
            },
        }
        let ghost with_dbl = moves@;
        let ghost epr = ep_spec(*self, selected_square, piece, Dir::Right, pawn_diag_right_dir(side));
        match self.check_en_passant_move(selected_square, piece, Dir::Right, diag_r) {
            Some(c) => {
                moves.push(c);
                proof {
                    assert(moves@ =~= with_dbl + epr);
                    assert(changes_ok(*self, seq![c])) by {
                        assert(seq![c][0] == c);
                    }
                    lemma_concat_ok(*self, with_dbl, seq![c]);
                }
            },
            None => {
                proof {
                    assert(moves@ =~= with_dbl + epr);
                }
            },
        }
        let ghost with_epr = moves@;
        let ghost epl = ep_spec(*self, selected_square, piece, Dir::Left, pawn_diag_left_dir(side));
        match self.check_en_passant_move(selected_square, piece, Dir::Left, diag_l) {
            Some(c) => {
                moves.push(c);
                proof {
                    assert(moves@ =~= with_epr + epl);
                    assert(changes_ok(*self, seq![c])) by {
                        assert(seq![c][0] == c);
                    }
                    lemma_concat_ok(*self, with_epr, seq![c]);
                }
            },
            None => {
                proof {
                    assert(moves@ =~= with_epr + epl);
                }
            },
        }
        proof {
            assert(moves@ == pawn_moves_spec(*self, selected_square, piece));
        }
        moves
    }

    /// Queen: slide in every direction.
    fn get_queen_moves(&self, selected_square: BoardPos, piece: Piece) -> (moves: Vec<BChange>)
        requires
            self.wf(),
            selected_square.valid(),
            self.piece_at(selected_square) is Some,
        ensures
            moves@ == queen_moves_spec(*self, selected_square, piece.side),
            changes_ok(*self, moves@),
    {
        let side = piece.side;
        let mut moves: Vec<BChange> = Vec::new();
        let mut m = slide(Dir::Up, side, selected_square, self);
        moves.append(&mut m);
        let mut m = slide(Dir::Down, side, selected_square, self);
        moves.append(&mut m);
        let mut m = slide(Dir::Left, side, selected_square, self);
        moves.append(&mut m);
        let mut m = slide(Dir::Right, side, selected_square, self);
        moves.append(&mut m);
        let mut m = slide(Dir::UpRight, side, selected_square, self);
        moves.append(&mut m);
        let mut m = slide(Dir::UpLeft, side, selected_square, self);
        moves.append(&mut m);
        let mut m = slide(Dir::DownRight, side, selected_square, self);
        moves.append(&mut m);
        let mut m = slide(Dir::DownLeft, side, selected_square, self);
        moves.append(&mut m);
        proof {
            lemma_queen_ok(*self, selected_square, side);
        }
        moves
    }

    /// Bishop: slide along the diagonals.
    fn get_bishop_moves(&self, selected_square: BoardPos, piece: Piece) -> (moves: Vec<BChange>)
        requires
            self.wf(),
            selected_square.valid(),
            self.piece_at(selected_square) is Some,
        ensures
            moves@ == bishop_moves_spec(*self, selected_square, piece.side),
            changes_ok(*self, moves@),
    {
        let side = piece.side;
        let mut moves: Vec<BChange> = Vec::new();
        let mut m = slide(Dir::UpRight, side, selected_square, self);
        moves.append(&mut m);
        let mut m = slide(Dir::UpLeft, side, selected_square, self);
        moves.append(&mut m);
        let mut m = slide(Dir::DownRight, side, selected_square, self);
        moves.append(&mut m);
        let mut m = slide(Dir::DownLeft, side, selected_square, self);
        moves.append(&mut m);
        proof {
            lemma_bishop_ok(*self, selected_square, side);
        }
        moves
    }

    /// Appends the rook's changes along one direction to `moves`.
    fn rook_dir(&self, moves: &mut Vec<BChange>, side: Side, sel: BoardPos, dir: Dir)
        requires
            self.wf(),
            sel.valid(),
            self.piece_at(sel) is Some,
            dir == Dir::Up || dir == Dir::Down || dir == Dir::Left || dir == Dir::Right,
        ensures
            final(moves)@ == old(moves)@ + rook_dir_spec(*self, side, sel, dir),
            changes_ok(*self, rook_dir_spec(*self, side, sel, dir)),
    {
        let ghost spec_moves = rook_dir_spec(*self, side, sel, dir);
        let mut slide_moves = slide(dir, side, sel, self);
        proof {
            lemma_slide_elements(*self, dir, side, sel, sel);
            lemma_slide_ok(*self, dir, side, sel);
        }
        let ghost sm = slide_moves@;
        let last_square = if slide_moves.len() == 0 {
            sel
        } else {
            proof {
                assert(slide_element_ok(*self, dir, side, sel, sel, sm[sm.len() - 1]));
            }
            slide_moves[slide_moves.len() - 1].click_pos_to_activate_change()
        };
        proof {
            assert(last_square.valid());
            assert(ray_fuel(last_square, dir) <= ray_fuel(sel, dir));
        }
        if self.is_occupied(last_square) && slide_moves.len() > 0 {
            moves.append(&mut slide_moves);
            proof {
                assert(spec_moves == sm);
            }
            return ;
        }
        if let Some(next_square) = last_square.square_in_dir(dir) {
            if self.is_occupied_and_friendly(next_square, side) {
                if let Some(push_square) = next_square.square_in_dir(dir) {
                    if !self.is_occupied(push_square) {
                        let mut new_move = BChange::BothMove {
                            start1: sel,
                            start2: next_square,
                            end1: next_square,
                            end2: push_square,
                        };
                        let pushed_piece = self.get_piece(next_square).unwrap();
                        if pushed_piece.piece_type == PieceType::Pawn {
                            match pushed_piece.side {
                                Side::White => {
                                    if pushed_piece.board_pos.y == BOARD_HEIGHT - 2 {
                                        new_move = new_move.convert_to_promotion();
                                    }
                                },
                                Side::Black => {
                                    if pushed_piece.board_pos.y == 1 {
                                        new_move = new_move.convert_to_promotion();
                                    }
                                },
                            }
                        }
                        proof {
                            lemma_fuel_step(last_square, dir);
                            lemma_fuel_step(next_square, dir);
                            assert(new_move == rook_push_change(
                                sel,
                                next_square,
                                push_square,
                                pushed_piece,
                            ));
                            assert(next_square != sel);
                            assert(push_square != next_square);
                            assert(change_ok(*self, new_move));
                            assert(spec_moves == seq![new_move] + sm);
                            assert(changes_ok(*self, seq![new_move])) by {
                                assert(seq![new_move][0] == new_move);
                            }
                            lemma_concat_ok(*self, seq![new_move], sm);
                        }
                        moves.push(new_move);
                        moves.append(&mut slide_moves);
                        proof {
                            assert(moves@ =~= old(moves)@ + spec_moves);
                        }
                        return ;
                    }
                }
            }
        }
        moves.append(&mut slide_moves);
        proof {
            assert(spec_moves == sm);
        }
    }

    /// Rook: slides along the four orthogonal directions, each followed
    /// by the non-standard push of a blocking friendly piece one square
    /// further when that square is empty.
    fn get_rook_moves(&self, selected_square: BoardPos, piece: Piece) -> (moves: Vec<BChange>)
        requires
            self.wf(),
            selected_square.valid(),
            self.piece_at(selected_square) is Some,
        ensures
            moves@ == rook_moves_spec(*self, selected_square, piece.side),
            changes_ok(*self, moves@),
    {
        let side = piece.side;
        let mut moves: Vec<BChange> = Vec::new();
        self.rook_dir(&mut moves, side, selected_square, Dir::Up);
        self.rook_dir(&mut moves, side, selected_square, Dir::Down);
        self.rook_dir(&mut moves, side, selected_square, Dir::Left);
        self.rook_dir(&mut moves, side, selected_square, Dir::Right);
        proof {
            let r1 = rook_dir_spec(*self, side, selected_square, Dir::Up);
            let r2 = rook_dir_spec(*self, side, selected_square, Dir::Down);
            let r3 = rook_dir_spec(*self, side, selected_square, Dir::Left);
            let r4 = rook_dir_spec(*self, side, selected_square, Dir::Right);
            lemma_concat_ok(*self, r1, r2);
            lemma_concat_ok(*self, r1 + r2, r3);
            lemma_concat_ok(*self, r1 + r2 + r3, r4);
        }
        moves
    }

    /// Knight: the eight fixed L-shaped offsets.
    fn get_knight_moves(&self, selected_square: BoardPos, piece: Piece) -> (moves: Vec<BChange>)
        requires
            self.wf(),
            selected_square.valid(),
            self.piece_at(selected_square) is Some,
        ensures
            moves@ == knight_moves_spec(*self, selected_square, piece.side),
            changes_ok(*self, moves@),
    {
        let side = piece.side;
        let mut moves: Vec<BChange> = Vec::new();
        push_step(self, &mut moves, side, selected_square, Dir::Custom(1, 2));
        push_step(self, &mut moves, side, selected_square, Dir::Custom(2, 1));
        push_step(self, &mut moves, side, selected_square, Dir::Custom(1, -2));
        push_step(self, &mut moves, side, selected_square, Dir::Custom(2, -1));
        push_step(self, &mut moves, side, selected_square, Dir::Custom(-1, 2));
        push_step(self, &mut moves, side, selected_square, Dir::Custom(-2, 1));
        push_step(self, &mut moves, side, selected_square, Dir::Custom(-1, -2));
        push_step(self, &mut moves, side, selected_square, Dir::Custom(-2, -1));
        proof {
            lemma_knight_ok(*self, selected_square, side);
        }
        moves
    }

    /// Enumerates every pseudo-legal change for the piece occupying
    /// `selected_square`. Fails closed: when it is not that piece's
    /// side's turn the result is empty. The square must be occupied
    /// (the caller is required to have verified occupancy).
    ///
    /// Every returned change keeps all its positions on the grid and
    /// satisfies `can_apply`, so it can be committed with
    /// `apply_board_change`.
    pub fn get_possible_moves(&self, selected_square: BoardPos) -> (moves: Vec<BChange>)
        requires
            self.wf(),
            selected_square.valid(),
            self.piece_at(selected_square) is Some,
        ensures
            moves@ == possible_moves_spec(*self, selected_square),
            changes_ok(*self, moves@),
            forall|i: int| 0 <= i < moves@.len() ==> positions_valid(#[trigger] moves@[i]),
            forall|i: int| 0 <= i < moves@.len() ==> self.can_apply(#[trigger] moves@[i]),
    {
        proof {
            reveal(possible_moves_spec);
        }
        let piece = self.get_piece(selected_square).unwrap();
        if !self.is_turn(piece.side) {
            let moves: Vec<BChange> = Vec::new();
            return moves;
        }
        let moves = match piece.piece_type {
            PieceType::King => self.get_king_moves(selected_square, piece),
            PieceType::Queen => self.get_queen_moves(selected_square, piece),
            PieceType::Rook => self.get_rook_moves(selected_square, piece),
            PieceType::Bishop => self.get_bishop_moves(selected_square, piece),
            PieceType::Knight => self.get_knight_moves(selected_square, piece),
            PieceType::Pawn => self.get_pawn_moves(selected_square, piece),
        };
        moves
    }

    /// The first enumerated change for the piece at `start` whose
    /// activation square is `click_pos`, if any: this is the change a
    /// click on `click_pos` commits.
    #[verifier::loop_isolation(false)]
    pub fn check_valid_change(&self, start: BoardPos, click_pos: BoardPos) -> (r: Option<BChange>)
        requires
            self.wf(),
            start.valid(),
            self.piece_at(start) is Some,
        ensures
            r == first_match(possible_moves_spec(*self, start), click_pos),
            r matches Some(c) ==> change_ok(*self, c) && activation_spec(c) == click_pos,
    {
        let moves = self.get_possible_moves(start);
        let ghost s = moves@;
        let mut i: usize = 0;
        while i < moves.len()
            invariant
                i <= s.len(),
                moves@ == s,
                changes_ok(*self, s),
                forall|j: int| 0 <= j < i ==> activation_spec(#[trigger] s[j]) != click_pos,
            decreases s.len() - i,
        {
            let change = moves[i];
            if change.click_pos_to_activate_change() == click_pos {
                proof {
                    lemma_first_match_skip(s, click_pos, i as int);
                    let rest = s.subrange(i as int, s.len() as int);
                    assert(rest[0] == s[i as int]);
                    assert(first_match(rest, click_pos) == Some(change));
                }
                return Some(change);
            }
            i = i + 1;
        }
        proof {
            lemma_first_match_skip(s, click_pos, s.len() as int);
            assert(s.subrange(s.len() as int, s.len() as int).len() == 0);
        }
        None
    }
}

/// Every knight jump from an occupied square stays on the grid and can
/// be applied.
proof fn lemma_knight_ok(b: Board, sel: BoardPos, side: Side)
    requires
        b.wf(),
        sel.valid(),
        b.piece_at(sel) is Some,
    ensures
        changes_ok(b, knight_moves_spec(b, sel, side)),
{
    let s1 = step_moves(b, side, sel, Dir::Custom(1i32, 2i32));
    let s2 = step_moves(b, side, sel, Dir::Custom(2i32, 1i32));
    let s3 = step_moves(b, side, sel, Dir::Custom(1i32, -2i32));
    let s4 = step_moves(b, side, sel, Dir::Custom(2i32, -1i32));
    let s5 = step_moves(b, side, sel, Dir::Custom(-1i32, 2i32));
    let s6 = step_moves(b, side, sel, Dir::Custom(-2i32, 1i32));
    let s7 = step_moves(b, side, sel, Dir::Custom(-1i32, -2i32));
    let s8 = step_moves(b, side, sel, Dir::Custom(-2i32, -1i32));
    lemma_step_ok(b, side, sel, Dir::Custom(1i32, 2i32));
    lemma_step_ok(b, side, sel, Dir::Custom(2i32, 1i32));
    lemma_step_ok(b, side, sel, Dir::Custom(1i32, -2i32));
    lemma_step_ok(b, side, sel, Dir::Custom(2i32, -1i32));
    lemma_step_ok(b, side, sel, Dir::Custom(-1i32, 2i32));
    lemma_step_ok(b, side, sel, Dir::Custom(-2i32, 1i32));
    lemma_step_ok(b, side, sel, Dir::Custom(-1i32, -2i32));
    lemma_step_ok(b, side, sel, Dir::Custom(-2i32, -1i32));
    lemma_concat_ok(b, s1, s2);
    lemma_concat_ok(b, s1 + s2, s3);
    lemma_concat_ok(b, s1 + s2 + s3, s4);
    lemma_concat_ok(b, s1 + s2 + s3 + s4, s5);
    lemma_concat_ok(b, s1 + s2 + s3 + s4 + s5, s6);
    lemma_concat_ok(b, s1 + s2 + s3 + s4 + s5 + s6, s7);
    lemma_concat_ok(b, s1 + s2 + s3 + s4 + s5 + s6 + s7, s8);
}

/// Every queen slide from an occupied square stays on the grid and can
/// be applied.
proof fn lemma_queen_ok(b: Board, sel: BoardPos, side: Side)
    requires
        b.wf(),
        sel.valid(),
        b.piece_at(sel) is Some,
    ensures
        changes_ok(b, queen_moves_spec(b, sel, side)),
{
    let s1 = slide_spec(b, Dir::Up, side, sel, sel);
    let s2 = slide_spec(b, Dir::Down, side, sel, sel);
    let s3 = slide_spec(b, Dir::Left, side, sel, sel);
    let s4 = slide_spec(b, Dir::Right, side, sel, sel);
    let s5 = slide_spec(b, Dir::UpRight, side, sel, sel);
    let s6 = slide_spec(b, Dir::UpLeft, side, sel, sel);
    let s7 = slide_spec(b, Dir::DownRight, side, sel, sel);
    let s8 = slide_spec(b, Dir::DownLeft, side, sel, sel);
    lemma_slide_ok(b, Dir::Up, side, sel);
    lemma_slide_ok(b, Dir::Down, side, sel);
    lemma_slide_ok(b, Dir::Left, side, sel);
    lemma_slide_ok(b, Dir::Right, side, sel);
    lemma_slide_ok(b, Dir::UpRight, side, sel);
    lemma_slide_ok(b, Dir::UpLeft, side, sel);
    lemma_slide_ok(b, Dir::DownRight, side, sel);
    lemma_slide_ok(b, Dir::DownLeft, side, sel);
    lemma_concat_ok(b, s1, s2);
    lemma_concat_ok(b, s1 + s2, s3);
    lemma_concat_ok(b, s1 + s2 + s3, s4);
    lemma_concat_ok(b, s1 + s2 + s3 + s4, s5);
    lemma_concat_ok(b, s1 + s2 + s3 + s4 + s5, s6);
    lemma_concat_ok(b, s1 + s2 + s3 + s4 + s5 + s6, s7);
    lemma_concat_ok(b, s1 + s2 + s3 + s4 + s5 + s6 + s7, s8);
}

/// Every bishop slide from an occupied square stays on the grid and can
/// be applied.
proof fn lemma_bishop_ok(b: Board, sel: BoardPos, side: Side)
    requires
        b.wf(),
        sel.valid(),
        b.piece_at(sel) is Some,
    ensures
        changes_ok(b, bishop_moves_spec(b, sel, side)),
{
    let s1 = slide_spec(b, Dir::UpRight, side, sel, sel);
    let s2 = slide_spec(b, Dir::UpLeft, side, sel, sel);
    let s3 = slide_spec(b, Dir::DownRight, side, sel, sel);
    let s4 = slide_spec(b, Dir::DownLeft, side, sel, sel);
    lemma_slide_ok(b, Dir::UpRight, side, sel);
    lemma_slide_ok(b, Dir::UpLeft, side, sel);
    lemma_slide_ok(b, Dir::DownRight, side, sel);
    lemma_slide_ok(b, Dir::DownLeft, side, sel);
    lemma_concat_ok(b, s1, s2);
    lemma_concat_ok(b, s1 + s2, s3);
    lemma_concat_ok(b, s1 + s2 + s3, s4);
}

} // verus!
