//! Game-level laws, proved from the contracts of the state machine and
//! the move generator: turn alternation, undo as the exact inverse of
//! apply, forced promotion, en passant availability, and castling.

use vstd::prelude::*;

use crate::board::{apply_rel, undo_rel, Board};
use crate::logic::possible_moves_spec;
use crate::piece::{activation_spec, BChange, PieceType, Side};
use crate::pos::{BoardPos, Dir, BOARD_HEIGHT, BOARD_WIDTH};

verus! {

/// After a committed change the mover who just moved is no longer on
/// turn, the opponent is, and the turn counter advanced by exactly 1.
pub proof fn lemma_turn_alternation(pre: Board, c: BChange, post: Board)
    requires
        apply_rel(pre, c, post),
    ensures
        post.cur_turn() != pre.cur_turn(),
        post.cur_turn() == pre.cur_turn().opposite(),
        post.turn_index() == pre.turn_index() + 1,
{
}

/// Undo is the exact inverse of apply: committing any change and then
/// undoing restores the grid, the mover, the turn counter and the
/// history to exactly the state before the change.
pub proof fn lemma_undo_inverts_apply(pre: Board, c: BChange, mid: Board, post: Board)
    requires
        apply_rel(pre, c, mid),
        undo_rel(mid, post),
    ensures
        post.grid() == pre.grid(),
        post.cur_turn() == pre.cur_turn(),
        post.turn_index() == pre.turn_index(),
        post.history() == pre.history(),
{
    assert(mid.history().len() == pre.history().len() + 1);
    assert(mid.history().last() == pre.grid());
    assert(mid.history().drop_last() =~= pre.history());
}

/// A White pawn one row short of the far rank generates only promotion
/// changes, and when the square ahead is empty the first of them is the
/// plain forward promotion.
pub proof fn lemma_pawn_promotion_row(b: Board, sel: BoardPos)
    requires
        b.wf(),
        sel.valid(),
        b.piece_at(sel) matches Some(p) && p.side == Side::White && p.piece_type
            == PieceType::Pawn,
        b.cur_turn() == Side::White,
        sel.y == BOARD_HEIGHT - 2,
    ensures
        forall|i: int|
            0 <= i < possible_moves_spec(b, sel).len() ==> (#[trigger] possible_moves_spec(
                b,
                sel,
            )[i] is Promotion || possible_moves_spec(b, sel)[i] is PushPremote),
        b.piece_at((BoardPos { x: sel.x, y: (BOARD_HEIGHT - 1) as usize })) is None ==> {
            &&& possible_moves_spec(b, sel).len() > 0
            &&& possible_moves_spec(b, sel)[0] == (BChange::Promotion {
                start: sel,
                end: (BoardPos { x: sel.x, y: (BOARD_HEIGHT - 1) as usize }),
            })
        },
{
    reveal(possible_moves_spec);
    let p = b.piece_at(sel)->0;
    let base = crate::logic::pawn_base_spec(b, sel, Side::White);
    crate::logic::lemma_pawn_base_shape(b, sel, Side::White);
    let moves = possible_moves_spec(b, sel);
    assert(moves =~= base.map_values(|c: BChange| crate::piece::convert_spec(c)));
    assert forall|i: int| 0 <= i < moves.len() implies (#[trigger] moves[i] is Promotion
        || moves[i] is PushPremote) by {
        assert(moves[i] == crate::piece::convert_spec(base[i]));
        assert(base[i] is Move || base[i] is MoveDestroy);
    }
    let above = BoardPos { x: sel.x, y: (BOARD_HEIGHT - 1) as usize };
    if b.piece_at(above) is None {
        assert(sel.square_in_dir_spec(Dir::Up) == Some(above));
        let fwd = crate::logic::pawn_forward_spec(b, sel, Dir::Up);
        assert(fwd == seq![BChange::Move { start: sel, end: above }]);
        assert(base[0] == fwd[0]);
        assert(moves[0] == crate::piece::convert_spec(base[0]));
    }
}

/// En passant: a Black pawn that advanced two squares on the
/// immediately preceding turn, standing beside a White pawn, gives the
/// White pawn a capture whose target is the Black pawn's own square and
/// whose destination is the square diagonally behind it.
pub proof fn lemma_en_passant(b: Board, sel: BoardPos)
    requires
        b.wf(),
        sel.valid(),
        b.piece_at(sel) matches Some(p) && p.side == Side::White && p.piece_type
            == PieceType::Pawn,
        b.cur_turn() == Side::White,
        sel.y != BOARD_HEIGHT - 2,
        sel.y + 1 < BOARD_HEIGHT,
        sel.x + 1 < BOARD_WIDTH,
        b.piece_at((BoardPos { x: (sel.x + 1) as usize, y: sel.y })) matches Some(tp) && tp.side
            == Side::Black && tp.piece_type == PieceType::Pawn && tp.num_moves == 1
            && b.turn_index() - tp.turn_last_moved == 1,
    ensures
        exists|i: int|
            0 <= i < possible_moves_spec(b, sel).len() && possible_moves_spec(b, sel)[i] == (
            BChange::MoveDestroy {
                start: sel,
                end: (BoardPos { x: (sel.x + 1) as usize, y: (sel.y + 1) as usize }),
                target: (BoardPos { x: (sel.x + 1) as usize, y: sel.y }),
            }),
{
    reveal(possible_moves_spec);
    let p = b.piece_at(sel)->0;
    let beside = BoardPos { x: (sel.x + 1) as usize, y: sel.y };
    let diag = BoardPos { x: (sel.x + 1) as usize, y: (sel.y + 1) as usize };
    let base = crate::logic::pawn_base_spec(b, sel, Side::White);
    let dbl = crate::logic::double_spec(b, sel, p, Dir::Up);
    let epr = crate::logic::ep_spec(b, sel, p, Dir::Right, Dir::UpRight);
    let epl = crate::logic::ep_spec(b, sel, p, Dir::Left, Dir::UpLeft);
    let moves = possible_moves_spec(b, sel);
    assert(moves == base + dbl + epr + epl);
    assert(sel.square_in_dir_spec(Dir::Right) == Some(beside));
    assert(sel.square_in_dir_spec(Dir::UpRight) == Some(diag));
    assert(epr == seq![(BChange::MoveDestroy { start: sel, end: diag, target: beside })]);
    let i = base.len() + dbl.len();
    assert(moves[i as int] == epr[0]);
}

/// En passant with the enemy pawn on the other side: the mirror image
/// of `lemma_en_passant`, for a Black pawn standing one column below.
pub proof fn lemma_en_passant_left(b: Board, sel: BoardPos)
    requires
        b.wf(),
        sel.valid(),
        b.piece_at(sel) matches Some(p) && p.side == Side::White && p.piece_type
            == PieceType::Pawn,
        b.cur_turn() == Side::White,
        sel.y != BOARD_HEIGHT - 2,
        sel.y + 1 < BOARD_HEIGHT,
        sel.x >= 1,
        b.piece_at((BoardPos { x: (sel.x - 1) as usize, y: sel.y })) matches Some(tp) && tp.side
            == Side::Black && tp.piece_type == PieceType::Pawn && tp.num_moves == 1
            && b.turn_index() - tp.turn_last_moved == 1,
    ensures
        exists|i: int|
            0 <= i < possible_moves_spec(b, sel).len() && possible_moves_spec(b, sel)[i] == (
            BChange::MoveDestroy {
                start: sel,
                end: (BoardPos { x: (sel.x - 1) as usize, y: (sel.y + 1) as usize }),
                target: (BoardPos { x: (sel.x - 1) as usize, y: sel.y }),
            }),
{
    reveal(possible_moves_spec);
    let p = b.piece_at(sel)->0;
    let beside = BoardPos { x: (sel.x - 1) as usize, y: sel.y };
    let diag = BoardPos { x: (sel.x - 1) as usize, y: (sel.y + 1) as usize };
    let base = crate::logic::pawn_base_spec(b, sel, Side::White);
    let dbl = crate::logic::double_spec(b, sel, p, Dir::Up);
    let epr = crate::logic::ep_spec(b, sel, p, Dir::Right, Dir::UpRight);
    let epl = crate::logic::ep_spec(b, sel, p, Dir::Left, Dir::UpLeft);
    let moves = possible_moves_spec(b, sel);
    assert(moves == base + dbl + epr + epl);
    assert(sel.square_in_dir_spec(Dir::Left) == Some(beside));
    assert(sel.square_in_dir_spec(Dir::UpLeft) == Some(diag));
    assert(epl == seq![(BChange::MoveDestroy { start: sel, end: diag, target: beside })]);
    let i = (base + dbl + epr).len();
    assert(moves[i as int] == epl[0]);
}

/// Castling to the right: a king that never moved, two clear squares to
/// its right, and a same-side rook that never moved three squares away
/// yield a two-piece change whose activation square is the rook's own
/// square.
pub proof fn lemma_castling_right_available(b: Board, sel: BoardPos)
    requires
        b.wf(),
        sel.valid(),
        b.piece_at(sel) matches Some(king) && king.piece_type == PieceType::King
            && king.num_moves == 0,
        b.cur_turn() == (b.piece_at(sel)->0).side,
        sel.x + 3 < BOARD_WIDTH,
        b.piece_at((BoardPos { x: (sel.x + 1) as usize, y: sel.y })) is None,
        b.piece_at((BoardPos { x: (sel.x + 2) as usize, y: sel.y })) is None,
        b.piece_at((BoardPos { x: (sel.x + 3) as usize, y: sel.y })) matches Some(rook)
            && rook.piece_type == PieceType::Rook && rook.side == (b.piece_at(sel)->0).side
            && rook.num_moves == 0,
    ensures
        exists|i: int|
            0 <= i < possible_moves_spec(b, sel).len() && possible_moves_spec(b, sel)[i] == (
            BChange::BothMove {
                start1: sel,
                end1: (BoardPos { x: (sel.x + 2) as usize, y: sel.y }),
                start2: (BoardPos { x: (sel.x + 3) as usize, y: sel.y }),
                end2: (BoardPos { x: (sel.x + 1) as usize, y: sel.y }),
            }),
        activation_spec(
            (BChange::BothMove {
                start1: sel,
                end1: (BoardPos { x: (sel.x + 2) as usize, y: sel.y }),
                start2: (BoardPos { x: (sel.x + 3) as usize, y: sel.y }),
                end2: (BoardPos { x: (sel.x + 1) as usize, y: sel.y }),
            }),
        ) == (BoardPos { x: (sel.x + 3) as usize, y: sel.y }),
{
    reveal(possible_moves_spec);
    let king = b.piece_at(sel)->0;
    let s1 = BoardPos { x: (sel.x + 1) as usize, y: sel.y };
    let s2 = BoardPos { x: (sel.x + 2) as usize, y: sel.y };
    let rook_square = BoardPos { x: (sel.x + 3) as usize, y: sel.y };
    let steps = crate::logic::king_steps_spec(b, sel, king.side);
    let cr = crate::logic::castle_right_spec(b, sel, king);
    let cl = crate::logic::castle_left_spec(b, sel, king);
    let moves = possible_moves_spec(b, sel);
    assert(moves == steps + cr + cl);
    assert(sel.square_in_dir_spec(Dir::Custom(1i32, 0i32)) == Some(s1));
    assert(sel.square_in_dir_spec(Dir::Custom(2i32, 0i32)) == Some(s2));
    assert(sel.square_in_dir_spec(Dir::Custom(3i32, 0i32)) == Some(rook_square));
    assert(sel.square_in_dir_spec(Dir::Right) == Some(s1));
    assert(crate::logic::right_open_spec(b, sel));
    let change = BChange::BothMove { start1: sel, end1: s2, start2: rook_square, end2: s1 };
    assert(cr == seq![change]);
    let i = steps.len();
    assert(moves[i as int] == cr[0]);
}

/// Castling to the left: a king that never moved, three clear squares
/// to its left, and a same-side rook that never moved four squares away
/// yield a two-piece change whose activation square is the rook's own
/// square.
pub proof fn lemma_castling_left_available(b: Board, sel: BoardPos)
    requires
        b.wf(),
        sel.valid(),
        b.piece_at(sel) matches Some(king) && king.piece_type == PieceType::King
            && king.num_moves == 0,
        b.cur_turn() == (b.piece_at(sel)->0).side,
        sel.x >= 4,
        b.piece_at((BoardPos { x: (sel.x - 1) as usize, y: sel.y })) is None,
        b.piece_at((BoardPos { x: (sel.x - 2) as usize, y: sel.y })) is None,
        b.piece_at((BoardPos { x: (sel.x - 3) as usize, y: sel.y })) is None,
        b.piece_at((BoardPos { x: (sel.x - 4) as usize, y: sel.y })) matches Some(rook)
            && rook.piece_type == PieceType::Rook && rook.side == (b.piece_at(sel)->0).side
            && rook.num_moves == 0,
    ensures
        exists|i: int|
            0 <= i < possible_moves_spec(b, sel).len() && possible_moves_spec(b, sel)[i] == (
            BChange::BothMove {
                start1: sel,
                end1: (BoardPos { x: (sel.x - 2) as usize, y: sel.y }),
                start2: (BoardPos { x: (sel.x - 4) as usize, y: sel.y }),
                end2: (BoardPos { x: (sel.x - 1) as usize, y: sel.y }),
            }),
        activation_spec(
            (BChange::BothMove {
                start1: sel,
                end1: (BoardPos { x: (sel.x - 2) as usize, y: sel.y }),
                start2: (BoardPos { x: (sel.x - 4) as usize, y: sel.y }),
                end2: (BoardPos { x: (sel.x - 1) as usize, y: sel.y }),
            }),
        ) == (BoardPos { x: (sel.x - 4) as usize, y: sel.y }),
{
    reveal(possible_moves_spec);
    let king = b.piece_at(sel)->0;
    let s1 = BoardPos { x: (sel.x - 1) as usize, y: sel.y };
    let s2 = BoardPos { x: (sel.x - 2) as usize, y: sel.y };
    let s3 = BoardPos { x: (sel.x - 3) as usize, y: sel.y };
    let rook_square = BoardPos { x: (sel.x - 4) as usize, y: sel.y };
    let steps = crate::logic::king_steps_spec(b, sel, king.side);
    let cr = crate::logic::castle_right_spec(b, sel, king);
    let cl = crate::logic::castle_left_spec(b, sel, king);
    let moves = possible_moves_spec(b, sel);
    assert(moves == steps + cr + cl);
    assert(sel.square_in_dir_spec(Dir::Custom(-1i32, 0i32)) == Some(s1));
    assert(sel.square_in_dir_spec(Dir::Custom(-2i32, 0i32)) == Some(s2));
    assert(sel.square_in_dir_spec(Dir::Custom(-3i32, 0i32)) == Some(s3));
    assert(sel.square_in_dir_spec(Dir::Custom(-4i32, 0i32)) == Some(rook_square));
    assert(sel.square_in_dir_spec(Dir::Left) == Some(s1));
    assert(crate::logic::left_open_spec(b, sel));
    let change = BChange::BothMove { start1: sel, end1: s2, start2: rook_square, end2: s1 };
    assert(cl == seq![change]);
    let i = (steps + cr).len();
    assert(moves[i as int] == cl[0]);
}

/// A king that has moved offers no castling: every change the king
/// generates is a single-piece change.
pub proof fn lemma_castling_needs_unmoved_king(b: Board, sel: BoardPos)
    requires
        b.wf(),
        sel.valid(),
        b.piece_at(sel) matches Some(king) && king.piece_type == PieceType::King
            && king.num_moves > 0,
    ensures
        forall|i: int|
            0 <= i < possible_moves_spec(b, sel).len() ==> !(#[trigger] possible_moves_spec(
                b,
                sel,
            )[i] is BothMove),
{
    reveal(possible_moves_spec);
    let king = b.piece_at(sel)->0;
    if king.side == b.cur_turn() {
        let steps = crate::logic::king_steps_spec(b, sel, king.side);
        crate::logic::lemma_king_steps_shape(b, sel, king.side);
        let moves = possible_moves_spec(b, sel);
        assert(moves =~= steps);
        assert forall|i: int| 0 <= i < moves.len() implies !(#[trigger] moves[i] is BothMove) by {
            assert(steps[i] is Move || steps[i] is MoveDestroy);
        }
    }
}

/// A castle rook that has moved closes the right castle: the right
/// castle is not offered when the rook three squares to the king's
/// right has moved before.
pub proof fn lemma_castling_right_needs_unmoved_rook(b: Board, sel: BoardPos)
    requires
        b.wf(),
        sel.valid(),
        b.piece_at(sel) matches Some(king) && king.piece_type == PieceType::King,
        sel.x + 3 < BOARD_WIDTH,
        b.piece_at((BoardPos { x: (sel.x + 3) as usize, y: sel.y })) matches Some(rook)
            && rook.num_moves > 0,
    ensures
        crate::logic::castle_right_spec(b, sel, b.piece_at(sel)->0) == Seq::<BChange>::empty(),
{
    let king = b.piece_at(sel)->0;
    let rook_square = BoardPos { x: (sel.x + 3) as usize, y: sel.y };
    assert(sel.square_in_dir_spec(Dir::Custom(3i32, 0i32)) == Some(rook_square));
}

} // verus!
