//! Board construction, accessors, turn bookkeeping, apply/undo/restart.

use chess_core::board::Board;
use chess_core::piece::{BChange, Piece, PieceType, Side};
use chess_core::pos::{BoardPos, ConstructionError, BOARD_HEIGHT, BOARD_WIDTH};

fn pos(x: usize, y: usize) -> BoardPos {
    BoardPos::new(x, y).unwrap()
}

fn fresh_piece(piece_type: PieceType, side: Side, x: usize, y: usize) -> Piece {
    Piece {
        piece_type,
        side,
        board_pos: pos(x, y),
        distance_moved: 0,
        num_moves: 0,
        turn_last_moved: 0,
    }
}

fn opening_board() -> Board {
    let mut board = Board::new();
    board.restart_game();
    board
}

/// Commits the change triggered by clicking `click` for the piece at
/// `start`; panics if that click triggers nothing.
fn play(board: &mut Board, start: (usize, usize), click: (usize, usize)) {
    let change = board
        .check_valid_change(pos(start.0, start.1), pos(click.0, click.1))
        .expect("expected a legal change");
    board.apply_board_change(change);
}

fn boards_equal(a: &Board, b: &Board) -> bool {
    for x in 0..BOARD_WIDTH {
        for y in 0..BOARD_HEIGHT {
            if a.get_piece(pos(x, y)) != b.get_piece(pos(x, y)) {
                return false;
            }
        }
    }
    a.is_turn(Side::White) == b.is_turn(Side::White)
        && a.turn_number() == b.turn_number()
        && a.history_len() == b.history_len()
}

#[test]
fn board_pos_in_bounds_succeeds() {
    for x in 0..BOARD_WIDTH {
        for y in 0..BOARD_HEIGHT {
            let p = BoardPos::new(x, y).unwrap();
            assert_eq!(p.x, x);
            assert_eq!(p.y, y);
        }
    }
}

#[test]
fn board_pos_out_of_bounds_fails() {
    assert_eq!(BoardPos::new(BOARD_WIDTH, 0), Err(ConstructionError::OutOfBounds));
    assert_eq!(BoardPos::new(0, BOARD_HEIGHT), Err(ConstructionError::OutOfBounds));
    assert_eq!(BoardPos::new(100, 3), Err(ConstructionError::OutOfBounds));
    assert_eq!(BoardPos::new(2, 100), Err(ConstructionError::OutOfBounds));
    assert_eq!(
        BoardPos::new(BOARD_WIDTH, BOARD_HEIGHT),
        Err(ConstructionError::OutOfBounds)
    );
}

#[test]
fn new_board_is_empty_and_white_to_move() {
    let board = Board::new();
    for x in 0..BOARD_WIDTH {
        for y in 0..BOARD_HEIGHT {
            assert!(board.get_piece(pos(x, y)).is_none());
        }
    }
    assert!(board.is_turn(Side::White));
    assert!(!board.is_turn(Side::Black));
    assert_eq!(board.turn_number(), 0);
    assert_eq!(board.history_len(), 0);
}

#[test]
fn restart_game_sets_opening_layout() {
    let board = opening_board();
    let back = [
        PieceType::Rook,
        PieceType::Knight,
        PieceType::Bishop,
        PieceType::Queen,
        PieceType::King,
        PieceType::Bishop,
        PieceType::Knight,
        PieceType::Rook,
    ];
    for x in 0..BOARD_WIDTH {
        let white_back = board.get_piece(pos(x, 0)).unwrap();
        assert_eq!(white_back.piece_type, back[x]);
        assert_eq!(white_back.side, Side::White);
        assert_eq!(white_back.num_moves, 0);

        let white_pawn = board.get_piece(pos(x, 1)).unwrap();
        assert_eq!(white_pawn.piece_type, PieceType::Pawn);
        assert_eq!(white_pawn.side, Side::White);

        let black_pawn = board.get_piece(pos(x, BOARD_HEIGHT - 2)).unwrap();
        assert_eq!(black_pawn.piece_type, PieceType::Pawn);
        assert_eq!(black_pawn.side, Side::Black);

        let black_back = board.get_piece(pos(x, BOARD_HEIGHT - 1)).unwrap();
        assert_eq!(black_back.piece_type, back[x]);
        assert_eq!(black_back.side, Side::Black);

        for y in 2..(BOARD_HEIGHT - 2) {
            assert!(board.get_piece(pos(x, y)).is_none());
        }
    }
    assert!(board.is_turn(Side::White));
    assert_eq!(board.turn_number(), 0);
    assert_eq!(board.history_len(), 0);
}

#[test]
fn set_take_and_occupancy() {
    let mut board = Board::new();
    let knight = fresh_piece(PieceType::Knight, Side::Black, 3, 3);
    board.set_piece(Some(knight), pos(3, 3));
    assert!(board.is_occupied(pos(3, 3)));
    assert!(board.is_occupied_and_friendly(pos(3, 3), Side::Black));
    assert!(!board.is_occupied_and_friendly(pos(3, 3), Side::White));
    assert_eq!(board.get_piece(pos(3, 3)), Some(knight));

    let taken = board.take(pos(3, 3));
    assert_eq!(taken, Some(knight));
    assert!(!board.is_occupied(pos(3, 3)));
    assert!(board.take(pos(3, 3)).is_none());
}

#[test]
fn side_relations_are_symmetric() {
    assert!(Side::White.is_friendly(&Side::White));
    assert!(Side::Black.is_friendly(&Side::Black));
    assert!(!Side::White.is_friendly(&Side::Black));
    assert!(!Side::Black.is_friendly(&Side::White));
    assert!(Side::White.is_enemy(&Side::Black));
    assert!(Side::Black.is_enemy(&Side::White));
    assert!(!Side::White.is_enemy(&Side::White));
}

#[test]
fn apply_flips_turn_and_advances_counter() {
    let mut board = opening_board();
    assert!(board.is_turn(Side::White));
    play(&mut board, (4, 1), (4, 2));
    assert!(!board.is_turn(Side::White));
    assert!(board.is_turn(Side::Black));
    assert_eq!(board.turn_number(), 1);
    assert_eq!(board.history_len(), 1);

    play(&mut board, (4, 6), (4, 5));
    assert!(board.is_turn(Side::White));
    assert_eq!(board.turn_number(), 2);
}

#[test]
fn move_updates_piece_counters() {
    let mut board = opening_board();
    play(&mut board, (4, 1), (4, 3));
    let moved = board.get_piece(pos(4, 3)).unwrap();
    assert_eq!(moved.piece_type, PieceType::Pawn);
    assert_eq!(moved.num_moves, 1);
    assert_eq!(moved.distance_moved, 2);
    assert_eq!(moved.turn_last_moved, 0);
    assert_eq!(moved.board_pos, pos(4, 3));
    assert!(board.get_piece(pos(4, 1)).is_none());
}

#[test]
fn undo_restores_previous_position() {
    let mut board = opening_board();
    let reference = opening_board();
    play(&mut board, (4, 1), (4, 3));
    assert!(!boards_equal(&board, &reference));
    board.undo_last_change();
    assert!(boards_equal(&board, &reference));
}

#[test]
fn undo_is_exact_inverse_over_a_sequence() {
    let mut board = opening_board();
    let reference = opening_board();
    // A short game: pawn advances, a capture, knight out.
    play(&mut board, (4, 1), (4, 3));
    play(&mut board, (3, 6), (3, 4));
    play(&mut board, (4, 3), (3, 4)); // pawn takes pawn
    play(&mut board, (1, 7), (2, 5)); // knight out
    assert_eq!(board.turn_number(), 4);
    assert_eq!(board.history_len(), 4);
    for _ in 0..4 {
        board.undo_last_change();
    }
    assert!(boards_equal(&board, &reference));
    assert_eq!(board.turn_number(), 0);
    assert_eq!(board.history_len(), 0);
    assert!(board.is_turn(Side::White));
}

#[test]
fn undo_with_empty_history_is_a_no_op() {
    let mut board = opening_board();
    let reference = opening_board();
    board.undo_last_change();
    assert!(boards_equal(&board, &reference));
}

#[test]
fn restart_after_moves_resets_everything() {
    let mut board = opening_board();
    play(&mut board, (4, 1), (4, 3));
    play(&mut board, (4, 6), (4, 4));
    board.restart_game();
    let reference = opening_board();
    assert!(boards_equal(&board, &reference));
}

#[test]
fn promote_piece_rewrites_type_in_place() {
    let mut board = Board::new();
    let mut pawn = fresh_piece(PieceType::Pawn, Side::White, 2, 2);
    board.promote_piece(&mut pawn, PieceType::Queen);
    assert_eq!(pawn.piece_type, PieceType::Queen);
    assert_eq!(pawn.side, Side::White);
    assert_eq!(pawn.board_pos, pos(2, 2));
}

#[test]
fn capture_removes_the_target_piece() {
    let mut board = Board::new();
    board.set_piece(
        Some(fresh_piece(PieceType::Rook, Side::White, 0, 0)),
        pos(0, 0),
    );
    board.set_piece(
        Some(fresh_piece(PieceType::Pawn, Side::Black, 0, 3)),
        pos(0, 3),
    );
    play(&mut board, (0, 0), (0, 3));
    let rook = board.get_piece(pos(0, 3)).unwrap();
    assert_eq!(rook.piece_type, PieceType::Rook);
    assert_eq!(rook.side, Side::White);
    assert!(board.get_piece(pos(0, 0)).is_none());
    // exactly one piece remains
    let mut count = 0;
    for x in 0..BOARD_WIDTH {
        for y in 0..BOARD_HEIGHT {
            if board.is_occupied(pos(x, y)) {
                count += 1;
            }
        }
    }
    assert_eq!(count, 1);
}

#[test]
fn click_positions_follow_the_variant() {
    let a = pos(0, 0);
    let b = pos(1, 1);
    let c = pos(2, 2);
    let d = pos(3, 3);
    assert_eq!(
        BChange::Move { start: a, end: b }.click_pos_to_activate_change(),
        b
    );
    assert_eq!(
        BChange::MoveDestroy { start: a, end: b, target: c }.click_pos_to_activate_change(),
        b
    );
    assert_eq!(
        BChange::BothMove { start1: a, start2: b, end1: c, end2: d }
            .click_pos_to_activate_change(),
        b
    );
    assert_eq!(
        BChange::Promotion { start: a, end: b }.click_pos_to_activate_change(),
        b
    );
    assert_eq!(
        BChange::PushPremote { start1: a, start2: b, end1: c, end2: d }
            .click_pos_to_activate_change(),
        b
    );
}

#[test]
fn convert_to_promotion_rewrites_variants() {
    let a = pos(0, 0);
    let b = pos(1, 1);
    let c = pos(2, 2);
    let d = pos(3, 3);
    assert_eq!(
        BChange::Move { start: a, end: b }.convert_to_promotion(),
        BChange::Promotion { start: a, end: b }
    );
    assert_eq!(
        BChange::MoveDestroy { start: a, end: b, target: b }.convert_to_promotion(),
        BChange::Promotion { start: a, end: b }
    );
    assert_eq!(
        BChange::BothMove { start1: a, start2: b, end1: c, end2: d }.convert_to_promotion(),
        BChange::PushPremote { start1: a, start2: b, end1: c, end2: d }
    );
    let promotion = BChange::Promotion { start: a, end: b };
    assert_eq!(promotion.convert_to_promotion(), promotion);
}

#[test]
fn piece_move_accumulates_manhattan_distance() {
    let mut piece = fresh_piece(PieceType::Knight, Side::White, 1, 0);
    piece.move_piece(pos(2, 2), 5);
    assert_eq!(piece.board_pos, pos(2, 2));
    assert_eq!(piece.distance_moved, 3);
    assert_eq!(piece.num_moves, 1);
    assert_eq!(piece.turn_last_moved, 5);
    assert_eq!(piece.turns_since_last_move(7), 2);
}
