//! Move generation: the concrete scenarios and per-piece rules.

use chess_core::board::Board;
use chess_core::piece::{BChange, Piece, PieceType, Side};
use chess_core::pos::{BoardPos, BOARD_HEIGHT, BOARD_WIDTH};

fn pos(x: usize, y: usize) -> BoardPos {
    BoardPos::new(x, y).unwrap()
}

fn fresh_piece(piece_type: PieceType, side: Side, x: usize, y: usize) -> Piece {
    Piece {
        piece_type,
        side,
        board_pos: pos(x, y),
        distance_moved: 0,
        num_moves: 0,
        turn_last_moved: 0,
    }
}

fn opening_board() -> Board {
    let mut board = Board::new();
    board.restart_game();
    board
}

fn change_in_bounds(change: &BChange) -> bool {
    let ok = |p: &BoardPos| p.x < BOARD_WIDTH && p.y < BOARD_HEIGHT;
    match change {
        BChange::Move { start, end } => ok(start) && ok(end),
        BChange::MoveDestroy { start, end, target } => ok(start) && ok(end) && ok(target),
        BChange::BothMove { start1, start2, end1, end2 } => {
            ok(start1) && ok(start2) && ok(end1) && ok(end2)
        }
        BChange::Promotion { start, end } => ok(start) && ok(end),
        BChange::PushPremote { start1, start2, end1, end2 } => {
            ok(start1) && ok(start2) && ok(end1) && ok(end2)
        }
    }
}

#[test]
fn opening_pawn_has_exactly_single_and_double_advance() {
    let board = opening_board();
    let moves = board.get_possible_moves(pos(0, 1));
    assert_eq!(moves.len(), 2);
    assert_eq!(moves[0], BChange::Move { start: pos(0, 1), end: pos(0, 2) });
    assert_eq!(moves[1], BChange::Move { start: pos(0, 1), end: pos(0, 3) });
}

#[test]
fn rook_slide_stops_at_enemy_with_capture() {
    let mut board = Board::new();
    board.set_piece(Some(fresh_piece(PieceType::Rook, Side::White, 0, 0)), pos(0, 0));
    board.set_piece(Some(fresh_piece(PieceType::Pawn, Side::Black, 0, 3)), pos(0, 3));
    let moves = board.get_possible_moves(pos(0, 0));
    assert_eq!(moves[0], BChange::Move { start: pos(0, 0), end: pos(0, 1) });
    assert_eq!(moves[1], BChange::Move { start: pos(0, 0), end: pos(0, 2) });
    assert_eq!(
        moves[2],
        BChange::MoveDestroy { start: pos(0, 0), end: pos(0, 3), target: pos(0, 3) }
    );
    // Nothing beyond the capture square on that ray; the other rays add
    // the seven moves along the bottom row.
    assert_eq!(moves.len(), 10);
    for m in moves.iter().skip(3) {
        match m {
            BChange::Move { start, end } => {
                assert_eq!(*start, pos(0, 0));
                assert_eq!(end.y, 0);
            }
            _ => panic!("expected only plain moves along the bottom row"),
        }
    }
}

#[test]
fn generated_moves_stay_on_the_grid() {
    let board = opening_board();
    for x in 0..BOARD_WIDTH {
        for y in 0..BOARD_HEIGHT {
            if board.is_occupied(pos(x, y)) {
                for change in board.get_possible_moves(pos(x, y)) {
                    assert!(change_in_bounds(&change));
                }
            }
        }
    }
}

#[test]
fn moves_for_the_side_not_on_turn_are_empty() {
    let board = opening_board();
    // Black pawn while White is to move.
    assert!(board.get_possible_moves(pos(0, 6)).is_empty());
    assert!(board.get_possible_moves(pos(4, 7)).is_empty());
}

#[test]
fn blocked_pawn_has_no_moves() {
    let mut board = opening_board();
    // Block the a-file pawn with a black pawn directly in front.
    board.set_piece(Some(fresh_piece(PieceType::Pawn, Side::Black, 0, 2)), pos(0, 2));
    let moves = board.get_possible_moves(pos(0, 1));
    // Forward blocked, double blocked by the same piece, one diagonal
    // capture at (1, 2)? No: that square is empty, so nothing at all.
    assert!(moves.is_empty());
}

#[test]
fn pawn_captures_diagonally() {
    let mut board = opening_board();
    board.set_piece(Some(fresh_piece(PieceType::Knight, Side::Black, 1, 2)), pos(1, 2));
    let moves = board.get_possible_moves(pos(0, 1));
    assert!(moves.contains(&BChange::MoveDestroy {
        start: pos(0, 1),
        end: pos(1, 2),
        target: pos(1, 2)
    }));
    // The friendly-looking forward moves are still offered.
    assert!(moves.contains(&BChange::Move { start: pos(0, 1), end: pos(0, 2) }));
}

#[test]
fn knight_jumps_from_opening() {
    let board = opening_board();
    let moves = board.get_possible_moves(pos(1, 0));
    assert_eq!(moves.len(), 2);
    assert_eq!(moves[0], BChange::Move { start: pos(1, 0), end: pos(2, 2) });
    assert_eq!(moves[1], BChange::Move { start: pos(1, 0), end: pos(0, 2) });
}

#[test]
fn bishop_slides_diagonally_only() {
    let mut board = Board::new();
    board.set_piece(Some(fresh_piece(PieceType::Bishop, Side::White, 3, 3)), pos(3, 3));
    let moves = board.get_possible_moves(pos(3, 3));
    for m in &moves {
        match m {
            BChange::Move { start, end } => {
                assert_eq!(*start, pos(3, 3));
                let dx = (end.x as i32 - 3).abs();
                let dy = (end.y as i32 - 3).abs();
                assert_eq!(dx, dy);
            }
            _ => panic!("expected only plain moves on an otherwise empty board"),
        }
    }
    assert_eq!(moves.len(), 13);
}

#[test]
fn queen_covers_both_rook_and_bishop_rays() {
    let mut board = Board::new();
    board.set_piece(Some(fresh_piece(PieceType::Queen, Side::White, 3, 3)), pos(3, 3));
    let moves = board.get_possible_moves(pos(3, 3));
    assert_eq!(moves.len(), 27);
}

#[test]
fn king_steps_one_square_every_direction() {
    let mut board = Board::new();
    board.set_piece(Some(fresh_piece(PieceType::King, Side::White, 3, 3)), pos(3, 3));
    let moves = board.get_possible_moves(pos(3, 3));
    assert_eq!(moves.len(), 8);
    for m in &moves {
        match m {
            BChange::Move { start, end } => {
                assert_eq!(*start, pos(3, 3));
                let dx = (end.x as i32 - 3).abs();
                let dy = (end.y as i32 - 3).abs();
                assert!(dx <= 1 && dy <= 1 && dx + dy > 0);
            }
            _ => panic!("expected only plain moves on an otherwise empty board"),
        }
    }
}

#[test]
fn check_valid_change_picks_the_clicked_move() {
    let board = opening_board();
    let change = board.check_valid_change(pos(0, 1), pos(0, 3)).unwrap();
    assert_eq!(change, BChange::Move { start: pos(0, 1), end: pos(0, 3) });
    assert!(board.check_valid_change(pos(0, 1), pos(5, 5)).is_none());
    // Clicking a square that is not an activation square of any change
    // of that piece yields nothing.
    assert!(board.check_valid_change(pos(0, 1), pos(0, 4)).is_none());
}
