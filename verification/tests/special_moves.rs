//! Castling, en passant, promotion, and the rook push rule.

use chess_core::board::Board;
use chess_core::piece::{BChange, Piece, PieceType, Side};
use chess_core::pos::{BoardPos, BOARD_HEIGHT};

fn pos(x: usize, y: usize) -> BoardPos {
    BoardPos::new(x, y).unwrap()
}

fn fresh_piece(piece_type: PieceType, side: Side, x: usize, y: usize) -> Piece {
    Piece {
        piece_type,
        side,
        board_pos: pos(x, y),
        distance_moved: 0,
        num_moves: 0,
        turn_last_moved: 0,
    }
}

fn opening_board() -> Board {
    let mut board = Board::new();
    board.restart_game();
    board
}

fn play(board: &mut Board, start: (usize, usize), click: (usize, usize)) {
    let change = board
        .check_valid_change(pos(start.0, start.1), pos(click.0, click.1))
        .expect("expected a legal change");
    board.apply_board_change(change);
}

#[test]
fn castling_right_offered_and_applied() {
    let mut board = Board::new();
    board.set_piece(Some(fresh_piece(PieceType::King, Side::White, 4, 0)), pos(4, 0));
    board.set_piece(Some(fresh_piece(PieceType::Rook, Side::White, 7, 0)), pos(7, 0));
    let moves = board.get_possible_moves(pos(4, 0));
    let castle = BChange::BothMove {
        start1: pos(4, 0),
        end1: pos(6, 0),
        start2: pos(7, 0),
        end2: pos(5, 0),
    };
    assert!(moves.contains(&castle));
    // The activation square is the rook's own square.
    assert_eq!(castle.click_pos_to_activate_change(), pos(7, 0));
    play(&mut board, (4, 0), (7, 0));
    let king = board.get_piece(pos(6, 0)).unwrap();
    let rook = board.get_piece(pos(5, 0)).unwrap();
    assert_eq!(king.piece_type, PieceType::King);
    assert_eq!(rook.piece_type, PieceType::Rook);
    assert!(board.get_piece(pos(4, 0)).is_none());
    assert!(board.get_piece(pos(7, 0)).is_none());
}

#[test]
fn castling_left_offered_and_applied() {
    let mut board = Board::new();
    board.set_piece(Some(fresh_piece(PieceType::King, Side::White, 4, 0)), pos(4, 0));
    board.set_piece(Some(fresh_piece(PieceType::Rook, Side::White, 0, 0)), pos(0, 0));
    let moves = board.get_possible_moves(pos(4, 0));
    let castle = BChange::BothMove {
        start1: pos(4, 0),
        end1: pos(2, 0),
        start2: pos(0, 0),
        end2: pos(3, 0),
    };
    assert!(moves.contains(&castle));
    play(&mut board, (4, 0), (0, 0));
    assert_eq!(board.get_piece(pos(2, 0)).unwrap().piece_type, PieceType::King);
    assert_eq!(board.get_piece(pos(3, 0)).unwrap().piece_type, PieceType::Rook);
}

#[test]
fn castling_blocked_by_intervening_piece() {
    let mut board = Board::new();
    board.set_piece(Some(fresh_piece(PieceType::King, Side::White, 4, 0)), pos(4, 0));
    board.set_piece(Some(fresh_piece(PieceType::Rook, Side::White, 7, 0)), pos(7, 0));
    board.set_piece(Some(fresh_piece(PieceType::Bishop, Side::White, 5, 0)), pos(5, 0));
    let moves = board.get_possible_moves(pos(4, 0));
    for m in &moves {
        assert!(!matches!(m, BChange::BothMove { .. }));
    }
}

#[test]
fn castling_gone_after_king_moved_and_returned() {
    let mut board = Board::new();
    board.set_piece(Some(fresh_piece(PieceType::King, Side::White, 4, 0)), pos(4, 0));
    board.set_piece(Some(fresh_piece(PieceType::Rook, Side::White, 7, 0)), pos(7, 0));
    board.set_piece(Some(fresh_piece(PieceType::Knight, Side::Black, 0, 7)), pos(0, 7));
    // Castling is offered at the start.
    assert!(board.check_valid_change(pos(4, 0), pos(7, 0)).is_some());
    // King steps away and back, the black knight shuttles in between.
    play(&mut board, (4, 0), (4, 1));
    play(&mut board, (0, 7), (1, 5));
    play(&mut board, (4, 1), (4, 0));
    play(&mut board, (1, 5), (0, 7));
    // Same placement, but the king has moved: no castling any more.
    assert!(board.get_piece(pos(4, 0)).unwrap().num_moves > 0);
    assert!(board.check_valid_change(pos(4, 0), pos(7, 0)).is_none());
    let moves = board.get_possible_moves(pos(4, 0));
    for m in &moves {
        assert!(!matches!(m, BChange::BothMove { .. }));
    }
}

#[test]
fn castling_gone_after_rook_moved_and_returned() {
    let mut board = Board::new();
    board.set_piece(Some(fresh_piece(PieceType::King, Side::White, 4, 0)), pos(4, 0));
    board.set_piece(Some(fresh_piece(PieceType::Rook, Side::White, 7, 0)), pos(7, 0));
    board.set_piece(Some(fresh_piece(PieceType::Knight, Side::Black, 0, 7)), pos(0, 7));
    play(&mut board, (7, 0), (7, 3));
    play(&mut board, (0, 7), (1, 5));
    play(&mut board, (7, 3), (7, 0));
    play(&mut board, (1, 5), (0, 7));
    assert!(board.check_valid_change(pos(4, 0), pos(7, 0)).is_none());
}

#[test]
fn en_passant_right_after_double_advance() {
    let mut board = opening_board();
    play(&mut board, (0, 1), (0, 3)); // white a-pawn double
    play(&mut board, (7, 6), (7, 5)); // black waits
    play(&mut board, (0, 3), (0, 4)); // white advances
    play(&mut board, (1, 6), (1, 4)); // black b-pawn double, lands beside
    let moves = board.get_possible_moves(pos(0, 4));
    let en_passant = BChange::MoveDestroy {
        start: pos(0, 4),
        end: pos(1, 5),
        target: pos(1, 4),
    };
    assert!(moves.contains(&en_passant));
    play(&mut board, (0, 4), (1, 5));
    assert!(board.get_piece(pos(1, 4)).is_none(), "captured pawn removed from its own square");
    let pawn = board.get_piece(pos(1, 5)).unwrap();
    assert_eq!(pawn.piece_type, PieceType::Pawn);
    assert_eq!(pawn.side, Side::White);
}

#[test]
fn en_passant_left_after_double_advance() {
    let mut board = opening_board();
    play(&mut board, (2, 1), (2, 3)); // white c-pawn double
    play(&mut board, (7, 6), (7, 5)); // black waits
    play(&mut board, (2, 3), (2, 4)); // white advances
    play(&mut board, (1, 6), (1, 4)); // black b-pawn double, lands on the left
    let moves = board.get_possible_moves(pos(2, 4));
    let en_passant = BChange::MoveDestroy {
        start: pos(2, 4),
        end: pos(1, 5),
        target: pos(1, 4),
    };
    assert!(moves.contains(&en_passant));
}

fn positions_match(a: &Board, b: &Board) -> bool {
    for x in 0..chess_core::pos::BOARD_WIDTH {
        for y in 0..BOARD_HEIGHT {
            if a.get_piece(pos(x, y)) != b.get_piece(pos(x, y)) {
                return false;
            }
        }
    }
    a.is_turn(Side::White) == b.is_turn(Side::White)
        && a.turn_number() == b.turn_number()
        && a.history_len() == b.history_len()
}

#[test]
fn undo_after_castling_restores_position() {
    let mut board = Board::new();
    board.set_piece(Some(fresh_piece(PieceType::King, Side::White, 4, 0)), pos(4, 0));
    board.set_piece(Some(fresh_piece(PieceType::Rook, Side::White, 7, 0)), pos(7, 0));
    let mut reference = Board::new();
    reference.set_piece(Some(fresh_piece(PieceType::King, Side::White, 4, 0)), pos(4, 0));
    reference.set_piece(Some(fresh_piece(PieceType::Rook, Side::White, 7, 0)), pos(7, 0));
    play(&mut board, (4, 0), (7, 0));
    board.undo_last_change();
    assert!(positions_match(&board, &reference));
    // The restored king still counts as never moved, so castling is
    // offered again.
    assert!(board.check_valid_change(pos(4, 0), pos(7, 0)).is_some());
}

#[test]
fn undo_after_en_passant_restores_position() {
    let mut board = opening_board();
    play(&mut board, (0, 1), (0, 3));
    play(&mut board, (7, 6), (7, 5));
    play(&mut board, (0, 3), (0, 4));
    play(&mut board, (1, 6), (1, 4));
    let mut reference = opening_board();
    play(&mut reference, (0, 1), (0, 3));
    play(&mut reference, (7, 6), (7, 5));
    play(&mut reference, (0, 3), (0, 4));
    play(&mut reference, (1, 6), (1, 4));
    play(&mut board, (0, 4), (1, 5)); // capture en passant
    board.undo_last_change();
    assert!(positions_match(&board, &reference));
    // The capture is offered again after the undo.
    let en_passant = BChange::MoveDestroy {
        start: pos(0, 4),
        end: pos(1, 5),
        target: pos(1, 4),
    };
    assert!(board.get_possible_moves(pos(0, 4)).contains(&en_passant));
}

#[test]
fn en_passant_expires_after_one_turn() {
    let mut board = opening_board();
    play(&mut board, (0, 1), (0, 3));
    play(&mut board, (1, 6), (1, 4)); // black b-pawn double early
    play(&mut board, (0, 3), (0, 4)); // white lands beside it a turn later
    play(&mut board, (7, 6), (7, 5)); // black waits
    // The double advance is now two turns old: no en passant.
    let moves = board.get_possible_moves(pos(0, 4));
    for m in &moves {
        assert!(!matches!(m, BChange::MoveDestroy { .. }));
    }
}

#[test]
fn white_pawn_on_seventh_row_only_promotes() {
    let mut board = Board::new();
    board.set_piece(
        Some(fresh_piece(PieceType::Pawn, Side::White, 1, BOARD_HEIGHT - 2)),
        pos(1, BOARD_HEIGHT - 2),
    );
    board.set_piece(
        Some(fresh_piece(PieceType::Knight, Side::Black, 0, BOARD_HEIGHT - 1)),
        pos(0, BOARD_HEIGHT - 1),
    );
    let moves = board.get_possible_moves(pos(1, BOARD_HEIGHT - 2));
    assert!(!moves.is_empty());
    for m in &moves {
        assert!(matches!(m, BChange::Promotion { .. } | BChange::PushPremote { .. }));
    }
    assert_eq!(
        moves[0],
        BChange::Promotion { start: pos(1, 6), end: pos(1, 7) }
    );
    // The diagonal capture is promoted too.
    assert!(moves.contains(&BChange::Promotion { start: pos(1, 6), end: pos(0, 7) }));
}

#[test]
fn promotion_produces_a_queen() {
    let mut board = Board::new();
    board.set_piece(Some(fresh_piece(PieceType::Pawn, Side::White, 1, 6)), pos(1, 6));
    play(&mut board, (1, 6), (1, 7));
    let queen = board.get_piece(pos(1, 7)).unwrap();
    assert_eq!(queen.piece_type, PieceType::Queen);
    assert_eq!(queen.side, Side::White);
    assert!(board.get_piece(pos(1, 6)).is_none());
}

#[test]
fn black_pawn_promotes_on_second_row() {
    let mut board = Board::new();
    board.set_piece(Some(fresh_piece(PieceType::Pawn, Side::Black, 3, 1)), pos(3, 1));
    board.set_piece(Some(fresh_piece(PieceType::Pawn, Side::White, 7, 1)), pos(7, 1));
    play(&mut board, (7, 1), (7, 2)); // white moves first
    let moves = board.get_possible_moves(pos(3, 1));
    for m in &moves {
        assert!(matches!(m, BChange::Promotion { .. } | BChange::PushPremote { .. }));
    }
    play(&mut board, (3, 1), (3, 0));
    let queen = board.get_piece(pos(3, 0)).unwrap();
    assert_eq!(queen.piece_type, PieceType::Queen);
    assert_eq!(queen.side, Side::Black);
}

#[test]
fn rook_push_moves_friendly_piece_one_further() {
    let mut board = Board::new();
    board.set_piece(Some(fresh_piece(PieceType::Rook, Side::White, 0, 0)), pos(0, 0));
    board.set_piece(Some(fresh_piece(PieceType::Knight, Side::White, 0, 2)), pos(0, 2));
    let moves = board.get_possible_moves(pos(0, 0));
    let push = BChange::BothMove {
        start1: pos(0, 0),
        start2: pos(0, 2),
        end1: pos(0, 2),
        end2: pos(0, 3),
    };
    assert!(moves.contains(&push));
    // The push precedes that ray's slide moves in the enumeration.
    assert_eq!(moves[0], push);
    assert_eq!(moves[1], BChange::Move { start: pos(0, 0), end: pos(0, 1) });
    play(&mut board, (0, 0), (0, 2));
    assert_eq!(board.get_piece(pos(0, 2)).unwrap().piece_type, PieceType::Rook);
    assert_eq!(board.get_piece(pos(0, 3)).unwrap().piece_type, PieceType::Knight);
    assert!(board.get_piece(pos(0, 0)).is_none());
}

#[test]
fn rook_push_does_not_pass_through_enemy() {
    let mut board = Board::new();
    board.set_piece(Some(fresh_piece(PieceType::Rook, Side::White, 0, 0)), pos(0, 0));
    board.set_piece(Some(fresh_piece(PieceType::Knight, Side::Black, 0, 2)), pos(0, 2));
    let moves = board.get_possible_moves(pos(0, 0));
    for m in &moves {
        assert!(!matches!(m, BChange::BothMove { .. }));
    }
}

#[test]
fn pushed_pawn_promotes_to_rook() {
    let mut board = Board::new();
    board.set_piece(Some(fresh_piece(PieceType::Rook, Side::White, 0, 5)), pos(0, 5));
    board.set_piece(
        Some(fresh_piece(PieceType::Pawn, Side::White, 0, BOARD_HEIGHT - 2)),
        pos(0, BOARD_HEIGHT - 2),
    );
    let moves = board.get_possible_moves(pos(0, 5));
    let push = BChange::PushPremote {
        start1: pos(0, 5),
        start2: pos(0, 6),
        end1: pos(0, 6),
        end2: pos(0, 7),
    };
    assert!(moves.contains(&push));
    play(&mut board, (0, 5), (0, 6));
    // The pushed pawn became a rook (not a queen) on the far rank.
    let promoted = board.get_piece(pos(0, 7)).unwrap();
    assert_eq!(promoted.piece_type, PieceType::Rook);
    assert_eq!(promoted.side, Side::White);
    assert_eq!(board.get_piece(pos(0, 6)).unwrap().piece_type, PieceType::Rook);
}
