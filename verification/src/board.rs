//! The board: an 8x8 grid of optional pieces, the turn tracker, and the
//! move-history stack of full grid snapshots that drives undo.

use vstd::prelude::*;

use crate::piece::{moved_piece, promoted_piece, BChange, Piece, PieceType, Side};
use crate::pos::{BoardPos, BOARD_HEIGHT, BOARD_WIDTH};

verus! {

/// Turn indices stay below this bound so that the per-piece counters
/// (`num_moves`, and `distance_moved`, which grows by at most 14 per
/// relocation) can never overflow a `u32`.
pub const TURN_LIMIT: u32 = 306783377;

/// The mathematical model of the grid: column `x`, then row `y`.
pub type GridView = Seq<Seq<Option<Piece>>>;

/// The grid is exactly `BOARD_WIDTH` columns of `BOARD_HEIGHT` squares.
pub open spec fn grid_dims(g: GridView) -> bool {
    &&& g.len() == BOARD_WIDTH
    &&& forall|x: int| 0 <= x < g.len() ==> (#[trigger] g[x]).len() == BOARD_HEIGHT
}

pub open spec fn grid_get(g: GridView, p: BoardPos) -> Option<Piece> {
    g[p.x as int][p.y as int]
}

pub open spec fn grid_set(g: GridView, p: BoardPos, v: Option<Piece>) -> GridView {
    g.update(p.x as int, g[p.x as int].update(p.y as int, v))
}

/// The square at (x, y) is either empty or holds a piece that knows its
/// own position and whose counters are consistent with having played at
/// most `turn` turns.
pub open spec fn square_ok(g: GridView, x: int, y: int, turn: int) -> bool {
    match g[x][y] {
        Some(p) => {
            &&& p.board_pos.x == x
            &&& p.board_pos.y == y
            &&& p.turn_last_moved <= turn
            &&& p.num_moves <= turn
            &&& p.distance_moved <= 14 * turn
        },
        None => true,
    }
}

/// A well-formed grid at turn index `turn`.
pub open spec fn grid_wf(g: GridView, turn: int) -> bool {
    &&& grid_dims(g)
    &&& forall|x: int, y: int|
        0 <= x < BOARD_WIDTH && 0 <= y < BOARD_HEIGHT ==> #[trigger] square_ok(g, x, y, turn)
}

/// Spec view of one column of the executable grid.
pub open spec fn rows_view(v: Vec<Vec<Option<Piece>>>) -> GridView {
    v@.map_values(|r: Vec<Option<Piece>>| r@)
}

/// Pieces placed with counters fit for turn index `t1` also fit any
/// later turn index.
pub proof fn lemma_square_ok_mono(g: GridView, t1: int, t2: int)
    requires
        t1 <= t2,
        forall|x: int, y: int|
            0 <= x < BOARD_WIDTH && 0 <= y < BOARD_HEIGHT ==> #[trigger] square_ok(g, x, y, t1),
    ensures
        forall|x: int, y: int|
            0 <= x < BOARD_WIDTH && 0 <= y < BOARD_HEIGHT ==> #[trigger] square_ok(g, x, y, t2),
{
    assert forall|x: int, y: int|
        0 <= x < BOARD_WIDTH && 0 <= y < BOARD_HEIGHT implies #[trigger] square_ok(g, x, y, t2) by {
        assert(square_ok(g, x, y, t1));
        assert(14 * t1 <= 14 * t2);
    }
}

/// Overwriting one square with an empty value, or with a piece whose
/// fields fit that square at turn `turn`, keeps the grid well formed.
pub proof fn lemma_grid_set_wf(g: GridView, p: BoardPos, v: Option<Piece>, turn: int)
    requires
        grid_wf(g, turn),
        p.valid(),
        v matches Some(q) ==> q.board_pos == p && q.turn_last_moved <= turn && q.num_moves <= turn
            && q.distance_moved <= 14 * turn,
    ensures
        grid_wf(grid_set(g, p, v), turn),
{
    let g2 = grid_set(g, p, v);
    assert forall|x: int, y: int|
        0 <= x < BOARD_WIDTH && 0 <= y < BOARD_HEIGHT implies #[trigger] square_ok(g2, x, y, turn) by {
        assert(square_ok(g, x, y, turn));
    }
}

/// The grid after performing `c` at turn index `turn_num`. Relocated
/// pieces are stamped with `moved_piece`; the two promotion variants
/// first rewrite the promoted piece's type (queen for a pawn's own
/// promotion, rook for a pushed pawn).
pub open spec fn apply_change_grid(g: GridView, c: BChange, turn_num: u32) -> GridView {
    match c {
        BChange::Move { start, end } => match grid_get(g, start) {
            Some(p) => grid_set(grid_set(g, start, None), end, Some(moved_piece(p, end, turn_num))),
            None => g,
        },
        BChange::MoveDestroy { start, end, target } => match grid_get(g, start) {
            Some(p) => grid_set(
                grid_set(grid_set(g, target, None), start, None),
                end,
                Some(moved_piece(p, end, turn_num)),
            ),
            None => g,
        },
        BChange::BothMove { start1, start2, end1, end2 } => match (
            grid_get(g, start1),
            grid_get(g, start2),
        ) {
            (Some(p1), Some(p2)) => grid_set(
                grid_set(
                    grid_set(grid_set(g, start1, None), start2, None),
                    end1,
                    Some(moved_piece(p1, end1, turn_num)),
                ),
                end2,
                Some(moved_piece(p2, end2, turn_num)),
            ),
            _ => g,
        },
        BChange::Promotion { start, end } => match grid_get(g, start) {
            Some(p) => grid_set(
                grid_set(g, start, None),
                end,
                Some(moved_piece(promoted_piece(p, PieceType::Queen), end, turn_num)),
            ),
            None => g,
        },
        BChange::PushPremote { start1, start2, end1, end2 } => match (
            grid_get(g, start1),
            grid_get(g, start2),
        ) {
            (Some(p1), Some(p2)) => grid_set(
                grid_set(
                    grid_set(grid_set(g, start1, None), start2, None),
                    end1,
                    Some(moved_piece(p1, end1, turn_num)),
                ),
                end2,
                Some(moved_piece(promoted_piece(p2, PieceType::Rook), end2, turn_num)),
            ),
            _ => g,
        },
    }
}

/// The standard opening occupant of square (x, y): pawns on rows 1 and
/// 6, the usual back ranks on rows 0 (White) and 7 (Black), with fresh
/// counters everywhere.
pub open spec fn opening_piece(x: int, y: int) -> Option<Piece> {
    if y == 1 {
        Some(opening_unit(PieceType::Pawn, Side::White, x, y))
    } else if y == BOARD_HEIGHT - 2 {
        Some(opening_unit(PieceType::Pawn, Side::Black, x, y))
    } else if y == 0 {
        Some(opening_unit(back_rank_type(x), Side::White, x, y))
    } else if y == BOARD_HEIGHT - 1 {
        Some(opening_unit(back_rank_type(x), Side::Black, x, y))
    } else {
        None
    }
}

/// The back-rank piece type of column `x`.
pub open spec fn back_rank_type(x: int) -> PieceType {
    if x == 0 || x == BOARD_WIDTH - 1 {
        PieceType::Rook
    } else if x == 1 || x == BOARD_WIDTH - 2 {
        PieceType::Knight
    } else if x == 2 || x == BOARD_WIDTH - 3 {
        PieceType::Bishop
    } else if x == 3 {
        PieceType::Queen
    } else {
        PieceType::King
    }
}

/// A freshly spawned piece on square (x, y).
pub open spec fn opening_unit(t: PieceType, s: Side, x: int, y: int) -> Piece {
    Piece {
        piece_type: t,
        side: s,
        board_pos: (BoardPos { x: x as usize, y: y as usize }),
        distance_moved: 0,
        num_moves: 0,
        turn_last_moved: 0,
    }
}

/// Exactly what one committed change does to a board: the grid is
/// rewritten by `apply_change_grid`, the mover flips, the turn counter
/// advances, and the pre-change grid is pushed onto the history.
pub open spec fn apply_rel(pre: Board, c: BChange, post: Board) -> bool {
    &&& post.grid() == apply_change_grid(pre.grid(), c, pre.turn_index())
    &&& post.cur_turn() == pre.cur_turn().opposite()
    &&& post.turn_index() == pre.turn_index() + 1
    &&& post.history() == pre.history().push(pre.grid())
}

/// Exactly what undo does: pop the newest snapshot back into the grid
/// and rewind the turn; with no history the board is untouched.
pub open spec fn undo_rel(pre: Board, post: Board) -> bool {
    if pre.history().len() == 0 {
        &&& post.grid() == pre.grid()
        &&& post.history() == pre.history()
        &&& post.cur_turn() == pre.cur_turn()
        &&& post.turn_index() == pre.turn_index()
    } else {
        &&& post.grid() == pre.history().last()
        &&& post.history() == pre.history().drop_last()
        &&& post.cur_turn() == pre.cur_turn().opposite()
        &&& post.turn_index() == if pre.turn_index() > 0 {
            pre.turn_index() - 1
        } else {
            0
        }
    }
}

/// A piece on a well-formed board was last moved no later than the
/// current turn index.
pub proof fn lemma_square_stamped(b: Board, p: BoardPos)
    requires
        b.wf(),
        p.valid(),
    ensures
        b.piece_at(p) matches Some(q) ==> q.turn_last_moved <= b.turn_index(),
{
    assert(square_ok(b.grid(), p.x as int, p.y as int, b.turn_index() as int));
}

/// On a well-formed board below the turn bound, a piece on the grid
/// knows its square and its counters have room for one more move.
proof fn lemma_piece_fits(b: Board, p: BoardPos)
    requires
        grid_wf(b.grid(), b.turn_index() as int),
        b.turn_index() < TURN_LIMIT,
        p.valid(),
    ensures
        b.piece_at(p) matches Some(q) ==> q.board_pos == p && q.turn_last_moved <= b.turn_index()
            && q.num_moves < u32::MAX && q.distance_moved <= u32::MAX - 14,
{
    assert(square_ok(b.grid(), p.x as int, p.y as int, b.turn_index() as int));
}

/// Applying a change that meets `can_apply` keeps the grid well formed
/// at the advanced turn index.
proof fn lemma_apply_change_wf(pre: Board, c: BChange)
    requires
        grid_wf(pre.grid(), pre.turn_index() as int),
        pre.can_apply(c),
        pre.turn_index() < TURN_LIMIT,
    ensures
        grid_wf(
            apply_change_grid(pre.grid(), c, pre.turn_index()),
            pre.turn_index() as int + 1,
        ),
{
    let g = pre.grid();
    let tn = pre.turn_index();
    let t1 = tn as int + 1;
    lemma_square_ok_mono(g, tn as int, t1);
    assert(grid_wf(g, t1));
    match c {
        BChange::Move { start, end } => {
            let p = grid_get(g, start)->0;
            assert(square_ok(g, start.x as int, start.y as int, tn as int));
            let g1 = grid_set(g, start, None);
            lemma_grid_set_wf(g, start, None, t1);
            lemma_grid_set_wf(g1, end, Some(moved_piece(p, end, tn)), t1);
        },
        BChange::MoveDestroy { start, end, target } => {
            let p = grid_get(g, start)->0;
            assert(square_ok(g, start.x as int, start.y as int, tn as int));
            let g0 = grid_set(g, target, None);
            let g1 = grid_set(g0, start, None);
            lemma_grid_set_wf(g, target, None, t1);
            lemma_grid_set_wf(g0, start, None, t1);
            lemma_grid_set_wf(g1, end, Some(moved_piece(p, end, tn)), t1);
        },
        BChange::BothMove { start1, start2, end1, end2 } => {
            let p1 = grid_get(g, start1)->0;
            let p2 = grid_get(g, start2)->0;
            assert(square_ok(g, start1.x as int, start1.y as int, tn as int));
            assert(square_ok(g, start2.x as int, start2.y as int, tn as int));
            let g1 = grid_set(g, start1, None);
            let g2 = grid_set(g1, start2, None);
            let g3 = grid_set(g2, end1, Some(moved_piece(p1, end1, tn)));
            lemma_grid_set_wf(g, start1, None, t1);
            lemma_grid_set_wf(g1, start2, None, t1);
            lemma_grid_set_wf(g2, end1, Some(moved_piece(p1, end1, tn)), t1);
            lemma_grid_set_wf(g3, end2, Some(moved_piece(p2, end2, tn)), t1);
        },
        BChange::Promotion { start, end } => {
            let p = grid_get(g, start)->0;
            assert(square_ok(g, start.x as int, start.y as int, tn as int));
            let pq = promoted_piece(p, PieceType::Queen);
            let g1 = grid_set(g, start, None);
            lemma_grid_set_wf(g, start, None, t1);
            lemma_grid_set_wf(g1, end, Some(moved_piece(pq, end, tn)), t1);
        },
        BChange::PushPremote { start1, start2, end1, end2 } => {
            let p1 = grid_get(g, start1)->0;
            let p2 = grid_get(g, start2)->0;
            assert(square_ok(g, start1.x as int, start1.y as int, tn as int));
            assert(square_ok(g, start2.x as int, start2.y as int, tn as int));
            let pr = promoted_piece(p2, PieceType::Rook);
            let g1 = grid_set(g, start1, None);
            let g2 = grid_set(g1, start2, None);
            let g3 = grid_set(g2, end1, Some(moved_piece(p1, end1, tn)));
            lemma_grid_set_wf(g, start1, None, t1);
            lemma_grid_set_wf(g1, start2, None, t1);
            lemma_grid_set_wf(g2, end1, Some(moved_piece(p1, end1, tn)), t1);
            lemma_grid_set_wf(g3, end2, Some(moved_piece(pr, end2, tn)), t1);
        },
    }
}

/// A fresh column of `BOARD_HEIGHT` empty squares.
fn empty_row() -> (r: Vec<Option<Piece>>)
    ensures
        r@.len() == BOARD_HEIGHT,
        forall|y: int| 0 <= y < BOARD_HEIGHT ==> r@[y] is None,
{
    let mut row: Vec<Option<Piece>> = Vec::new();
    let mut y: usize = 0;
    while y < BOARD_HEIGHT
        invariant
            y <= BOARD_HEIGHT,
            row@.len() == y,
            forall|j: int| 0 <= j < y ==> row@[j] is None,
        decreases BOARD_HEIGHT - y,
    {
        row.push(None);
        y = y + 1;
    }
    row
}

/// A fresh, completely empty grid.
fn empty_grid() -> (r: Vec<Vec<Option<Piece>>>)
    ensures
        grid_dims(rows_view(r)),
        forall|x: int, y: int|
            0 <= x < BOARD_WIDTH && 0 <= y < BOARD_HEIGHT ==> rows_view(r)[x][y] is None,
{
    let mut g: Vec<Vec<Option<Piece>>> = Vec::new();
    let mut x: usize = 0;
    while x < BOARD_WIDTH
        invariant
            x <= BOARD_WIDTH,
            g@.len() == x,
            forall|i: int| 0 <= i < x ==> (#[trigger] g@[i])@.len() == BOARD_HEIGHT,
            forall|i: int, j: int|
                0 <= i < x && 0 <= j < BOARD_HEIGHT ==> #[trigger] g@[i]@[j] is None,
        decreases BOARD_WIDTH - x,
    {
        g.push(empty_row());
        x = x + 1;
    }
    g
}

/// An element-wise copy of one column.
fn clone_row(r: &Vec<Option<Piece>>) -> (out: Vec<Option<Piece>>)
    ensures
        out@ == r@,
{
    let mut out: Vec<Option<Piece>> = Vec::new();
    let mut y: usize = 0;
    while y < r.len()
        invariant
            y <= r@.len(),
            out@.len() == y,
            forall|j: int| 0 <= j < y ==> out@[j] == r@[j],
        decreases r@.len() - y,
    {
        out.push(r[y]);
        y = y + 1;
    }
    proof {
        assert(out@ =~= r@);
    }
    out
}

/// An element-wise copy of the whole grid.
fn clone_grid(g: &Vec<Vec<Option<Piece>>>) -> (out: Vec<Vec<Option<Piece>>>)
    ensures
        rows_view(out) == rows_view(*g),
{
    let mut out: Vec<Vec<Option<Piece>>> = Vec::new();
    let mut x: usize = 0;
    while x < g.len()
        invariant
            x <= g@.len(),
            out@.len() == x,
            forall|i: int| 0 <= i < x ==> (#[trigger] out@[i])@ == g@[i]@,
        decreases g@.len() - x,
    {
        out.push(clone_row(&g[x]));
        x = x + 1;
    }
    proof {
        assert(rows_view(out) =~~= rows_view(*g));
    }
    out
}

/// Owns the grid, the turn tracker and the history stack. The only
/// mutating entry points a caller is meant to use are
/// `apply_board_change`, `undo_last_change` and `restart_game`.
pub struct Board {
    board: Vec<Vec<Option<Piece>>>,
    turn: Side,
    turn_num: u32,
    previous: Vec<Vec<Vec<Option<Piece>>>>,
}

impl Board {
    /// The current grid.
    pub closed spec fn grid(self) -> GridView {
        rows_view(self.board)
    }

    /// Whose move it is.
    pub closed spec fn cur_turn(self) -> Side {
        self.turn
    }

    /// Monotonic counter of committed changes.
    pub closed spec fn turn_index(self) -> u32 {
        self.turn_num
    }

    /// The stack of grid snapshots, oldest first.
    pub closed spec fn history(self) -> Seq<GridView> {
        self.previous@.map_values(|g: Vec<Vec<Option<Piece>>>| rows_view(g))
    }

    /// The piece occupying `p`, if any.
    pub open spec fn piece_at(self, p: BoardPos) -> Option<Piece>
        recommends
            p.valid(),
    {
        grid_get(self.grid(), p)
    }

    /// Whole-board well-formedness: the grid and every snapshot are
    /// well formed, and the turn index always equals the history depth
    /// (snapshot `i` was taken at turn `i`).
    pub open spec fn wf(self) -> bool {
        &&& grid_wf(self.grid(), self.turn_index() as int)
        &&& self.turn_index() as int == self.history().len()
        &&& forall|i: int|
            0 <= i < self.history().len() ==> grid_wf(#[trigger] self.history()[i], i)
    }

    pub fn get_piece(&self, board_pos: BoardPos) -> (r: Option<Piece>)
        requires
            self.wf(),
            board_pos.valid(),
        ensures
            r == self.piece_at(board_pos),
    {
        self.board[board_pos.x][board_pos.y]
    }

    pub fn is_occupied(&self, board_pos: BoardPos) -> (r: bool)
        requires
            self.wf(),
            board_pos.valid(),
        ensures
            r == (self.piece_at(board_pos) is Some),
    {
        self.board[board_pos.x][board_pos.y].is_some()
    }

    pub fn is_occupied_and_friendly(&self, board_pos: BoardPos, other: Side) -> (r: bool)
        requires
            self.wf(),
            board_pos.valid(),
        ensures
            r == (self.piece_at(board_pos) matches Some(p) && p.side == other),
    {
        if let Some(piece) = self.get_piece(board_pos) {
            if piece.side.is_friendly(&other) {
                return true;
            }
        }
        false
    }

    pub fn is_turn(&self, side: Side) -> (r: bool)
        ensures
            r == (side == self.cur_turn()),
    {
        side.is_friendly(&self.turn)
    }

    /// The number of committed changes since the last restart.
    pub fn turn_number(&self) -> (r: u32)
        ensures
            r == self.turn_index(),
    {
        self.turn_num
    }

    /// How many snapshots undo can still pop.
    pub fn history_len(&self) -> (r: usize)
        ensures
            r == self.history().len(),
    {
        self.previous.len()
    }

    /// Low-level write of one square; callers are responsible for
    /// re-establishing the counter bounds of `wf`.
    fn put(&mut self, board_pos: BoardPos, piece: Option<Piece>)
        requires
            grid_dims(old(self).grid()),
            board_pos.valid(),
        ensures
            final(self).grid() == grid_set(old(self).grid(), board_pos, piece),
            grid_dims(final(self).grid()),
            final(self).cur_turn() == old(self).cur_turn(),
            final(self).turn_index() == old(self).turn_index(),
            final(self).history() == old(self).history(),
    {
        proof {
            assert(self.board@.len() == self.grid().len());
            assert(self.board@[board_pos.x as int]@ == self.grid()[board_pos.x as int]);
        }
        self.board[board_pos.x][board_pos.y] = piece;
        proof {
            assert(final(self).grid() =~~= grid_set(old(self).grid(), board_pos, piece));
        }
    }

    /// Low-level removal of one square's occupant.
    fn grab(&mut self, board_pos: BoardPos) -> (r: Option<Piece>)
        requires
            grid_dims(old(self).grid()),
            board_pos.valid(),
        ensures
            r == grid_get(old(self).grid(), board_pos),
            final(self).grid() == grid_set(old(self).grid(), board_pos, None),
            grid_dims(final(self).grid()),
            final(self).cur_turn() == old(self).cur_turn(),
            final(self).turn_index() == old(self).turn_index(),
            final(self).history() == old(self).history(),
    {
        proof {
            assert(self.board@.len() == self.grid().len());
            assert(self.board@[board_pos.x as int]@ == self.grid()[board_pos.x as int]);
        }
        let r = self.board[board_pos.x][board_pos.y];
        self.board[board_pos.x][board_pos.y] = None;
        proof {
            assert(final(self).grid() =~~= grid_set(old(self).grid(), board_pos, None));
        }
        r
    }

    /// Places a piece (or clears with `None`) at `board_pos`. A placed
    /// piece must know its position and carry counters consistent with
    /// the current turn index, so the board invariant is preserved.
    pub fn set_piece(&mut self, piece: Option<Piece>, board_pos: BoardPos)
        requires
            old(self).wf(),
            board_pos.valid(),
            piece matches Some(p) ==> p.board_pos == board_pos && p.turn_last_moved <= old(
                self,
            ).turn_index() && p.num_moves <= old(self).turn_index() && p.distance_moved <= 14 * (
            old(self).turn_index() as int),
        ensures
            final(self).grid() == grid_set(old(self).grid(), board_pos, piece),
            final(self).cur_turn() == old(self).cur_turn(),
            final(self).turn_index() == old(self).turn_index(),
            final(self).history() == old(self).history(),
            final(self).wf(),
    {
        proof {
            lemma_grid_set_wf(
                self.grid(),
                board_pos,
                piece,
                self.turn_index() as int,
            );
        }
        self.put(board_pos, piece);
    }

    /// Removes and returns the piece at `board_pos`, leaving the square
    /// empty.
    pub fn take(&mut self, board_pos: BoardPos) -> (r: Option<Piece>)
        requires
            old(self).wf(),
            board_pos.valid(),
        ensures
            r == old(self).piece_at(board_pos),
            final(self).grid() == grid_set(old(self).grid(), board_pos, None),
            final(self).cur_turn() == old(self).cur_turn(),
            final(self).turn_index() == old(self).turn_index(),
            final(self).history() == old(self).history(),
            final(self).wf(),
    {
        proof {
            lemma_grid_set_wf(self.grid(), board_pos, None, self.turn_index() as int);
        }
        self.grab(board_pos)
    }

    /// An empty board: no pieces, White to move, no history.
    pub fn new() -> (b: Board)
        ensures
            b.wf(),
            forall|x: int, y: int|
                0 <= x < BOARD_WIDTH && 0 <= y < BOARD_HEIGHT ==> b.grid()[x][y] is None,
            b.cur_turn() == Side::White,
            b.turn_index() == 0,
            b.history().len() == 0,
    {
        let b = Board {
            board: empty_grid(),
            turn: Side::White,
            turn_num: 0,
            previous: Vec::new(),
        };
        proof {
            assert(b.history() =~= Seq::<GridView>::empty());
        }
        b
    }

    /// Pushes a snapshot of the current grid onto the history stack.
    fn save(&mut self)
        requires
            grid_dims(old(self).grid()),
        ensures
            final(self).history() == old(self).history().push(old(self).grid()),
            final(self).grid() == old(self).grid(),
            final(self).cur_turn() == old(self).cur_turn(),
            final(self).turn_index() == old(self).turn_index(),
    {
        let snapshot = clone_grid(&self.board);
        self.previous.push(snapshot);
        proof {
            assert(final(self).history() =~~= old(self).history().push(old(self).grid()));
        }
    }

    /// Flips the mover and advances the turn counter.
    fn next_turn(&mut self)
        requires
            old(self).turn_index() < u32::MAX,
        ensures
            final(self).cur_turn() == old(self).cur_turn().opposite(),
            final(self).turn_index() == old(self).turn_index() + 1,
            final(self).grid() == old(self).grid(),
            final(self).history() == old(self).history(),
    {
        self.turn = match self.turn {
            Side::White => Side::Black,
            Side::Black => Side::White,
        };
        self.turn_num = self.turn_num + 1;
    }

    /// What the move generator guarantees of every change it emits, and
    /// what applying a change relies on: positions on the grid, the moved
    /// squares occupied, and the pairs of squares that must differ.
    pub open spec fn can_apply(self, c: BChange) -> bool {
        match c {
            BChange::Move { start, end } => start.valid() && end.valid() && start != end
                && self.piece_at(start) is Some,
            BChange::MoveDestroy { start, end, target } => start.valid() && end.valid()
                && target.valid() && start != end && target != start && self.piece_at(start)
                is Some && self.piece_at(target) is Some,
            BChange::BothMove { start1, start2, end1, end2 } => start1.valid() && start2.valid()
                && end1.valid() && end2.valid() && start1 != start2 && end1 != end2
                && self.piece_at(start1) is Some && self.piece_at(start2) is Some,
            BChange::Promotion { start, end } => start.valid() && end.valid() && start != end
                && self.piece_at(start) is Some,
            BChange::PushPremote { start1, start2, end1, end2 } => start1.valid()
                && start2.valid() && end1.valid() && end2.valid() && start1 != start2 && end1
                != end2 && self.piece_at(start1) is Some && self.piece_at(start2) is Some,
        }
    }

    /// Relocates the piece at `start` to `end`, leaving `start` empty.
    fn move_piece(&mut self, start: BoardPos, end: BoardPos)
        requires
            grid_dims(old(self).grid()),
            start.valid(),
            end.valid(),
            grid_get(old(self).grid(), start) matches Some(p) && p.board_pos.valid()
                && p.num_moves < u32::MAX && p.distance_moved <= u32::MAX - 14,
        ensures
            final(self).grid() == grid_set(
                grid_set(old(self).grid(), start, None),
                end,
                Some(moved_piece(grid_get(old(self).grid(), start)->0, end, old(self).turn_index())),
            ),
            grid_dims(final(self).grid()),
            final(self).cur_turn() == old(self).cur_turn(),
            final(self).turn_index() == old(self).turn_index(),
            final(self).history() == old(self).history(),
    {
        let mut piece = self.grab(start).unwrap();
        let turn_num = self.turn_num;
        piece.move_piece(end, turn_num);
        self.put(end, Some(piece));
    }

    /// Relocates two pieces at once, reading both out before writing
    /// either, so the pairs of squares may overlap (as in castling,
    /// where the rook lands beside the king's origin).
    fn move_both_pieces(&mut self, start1: BoardPos, start2: BoardPos, end1: BoardPos, end2: BoardPos)
        requires
            grid_dims(old(self).grid()),
            start1.valid(),
            start2.valid(),
            end1.valid(),
            end2.valid(),
            start1 != start2,
            grid_get(old(self).grid(), start1) matches Some(p1) && p1.board_pos.valid()
                && p1.num_moves < u32::MAX && p1.distance_moved <= u32::MAX - 14,
            grid_get(old(self).grid(), start2) matches Some(p2) && p2.board_pos.valid()
                && p2.num_moves < u32::MAX && p2.distance_moved <= u32::MAX - 14,
        ensures
            final(self).grid() == grid_set(
                grid_set(
                    grid_set(grid_set(old(self).grid(), start1, None), start2, None),
                    end1,
                    Some(
                        moved_piece(
                            grid_get(old(self).grid(), start1)->0,
                            end1,
                            old(self).turn_index(),
                        ),
                    ),
                ),
                end2,
                Some(
                    moved_piece(grid_get(old(self).grid(), start2)->0, end2, old(self).turn_index()),
                ),
            ),
            grid_dims(final(self).grid()),
            final(self).cur_turn() == old(self).cur_turn(),
            final(self).turn_index() == old(self).turn_index(),
            final(self).history() == old(self).history(),
    {
        let mut piece1 = self.grab(start1).unwrap();
        let mut piece2 = self.grab(start2).unwrap();
        let turn_num = self.turn_num;
        piece1.move_piece(end1, turn_num);
        piece2.move_piece(end2, turn_num);
        self.put(end1, Some(piece1));
        self.put(end2, Some(piece2));
    }

    /// Rewrites a piece's type in place; the board itself is untouched.
    pub fn promote_piece(&mut self, piece: &mut Piece, new_type: PieceType)
        ensures
            *final(piece) == promoted_piece(*old(piece), new_type),
            *final(self) == *old(self),
    {
        piece.piece_type = new_type;
    }

    /// Performs a `Promotion`: the pawn at `start` becomes a queen,
    /// whatever occupies `end` is removed, and the new queen relocates
    /// to `end`.
    fn apply_promotion(&mut self, start: BoardPos, end: BoardPos)
        requires
            grid_dims(old(self).grid()),
            start.valid(),
            end.valid(),
            start != end,
            grid_get(old(self).grid(), start) matches Some(p) && p.board_pos == start
                && p.num_moves < u32::MAX && p.distance_moved <= u32::MAX - 14,
        ensures
            final(self).grid() == apply_change_grid(
                old(self).grid(),
                BChange::Promotion { start, end },
                old(self).turn_index(),
            ),
            grid_dims(final(self).grid()),
            final(self).cur_turn() == old(self).cur_turn(),
            final(self).turn_index() == old(self).turn_index(),
            final(self).history() == old(self).history(),
    {
        let mut piece = self.grab(start).unwrap();
        self.promote_piece(&mut piece, PieceType::Queen);
        self.put(start, Some(piece));
        let _captured = self.grab(end);
        self.move_piece(start, end);
        proof {
            let g = old(self).grid();
            let tn = old(self).turn_index();
            let p = grid_get(g, start)->0;
            let pq = promoted_piece(p, PieceType::Queen);
            let g_a = grid_set(g, start, None);
            let g_b = grid_set(g_a, start, Some(pq));
            let g_c = grid_set(g_b, end, None);
            assert(grid_get(g_c, start) == Some(pq));
            assert(self.grid() == grid_set(
                grid_set(g_c, start, None),
                end,
                Some(moved_piece(pq, end, tn)),
            ));
            assert(self.grid() =~~= grid_set(
                grid_set(g, start, None),
                end,
                Some(moved_piece(pq, end, tn)),
            ));
        }
    }

    /// Performs a `PushPremote`: the pushed pawn at `start2` becomes a
    /// rook, then both pieces relocate as in `BothMove`.
    fn apply_push_premote(
        &mut self,
        start1: BoardPos,
        start2: BoardPos,
        end1: BoardPos,
        end2: BoardPos,
    )
        requires
            grid_dims(old(self).grid()),
            start1.valid(),
            start2.valid(),
            end1.valid(),
            end2.valid(),
            start1 != start2,
            grid_get(old(self).grid(), start1) matches Some(p1) && p1.board_pos == start1
                && p1.num_moves < u32::MAX && p1.distance_moved <= u32::MAX - 14,
            grid_get(old(self).grid(), start2) matches Some(p2) && p2.board_pos == start2
                && p2.num_moves < u32::MAX && p2.distance_moved <= u32::MAX - 14,
        ensures
            final(self).grid() == apply_change_grid(
                old(self).grid(),
                BChange::PushPremote { start1, start2, end1, end2 },
                old(self).turn_index(),
            ),
            grid_dims(final(self).grid()),
            final(self).cur_turn() == old(self).cur_turn(),
            final(self).turn_index() == old(self).turn_index(),
            final(self).history() == old(self).history(),
    {
        let mut piece = self.grab(start2).unwrap();
        self.promote_piece(&mut piece, PieceType::Rook);
        self.put(start2, Some(piece));
        self.move_both_pieces(start1, start2, end1, end2);
        proof {
            let g = old(self).grid();
            let tn = old(self).turn_index();
            let p1 = grid_get(g, start1)->0;
            let p2 = grid_get(g, start2)->0;
            let pr = promoted_piece(p2, PieceType::Rook);
            let g_a = grid_set(g, start2, None);
            let g_b = grid_set(g_a, start2, Some(pr));
            assert(grid_get(g_b, start1) == Some(p1));
            assert(grid_get(g_b, start2) == Some(pr));
            assert(self.grid() == grid_set(
                grid_set(
                    grid_set(grid_set(g_b, start1, None), start2, None),
                    end1,
                    Some(moved_piece(p1, end1, tn)),
                ),
                end2,
                Some(moved_piece(pr, end2, tn)),
            ));
            assert(self.grid() =~~= grid_set(
                grid_set(
                    grid_set(grid_set(g, start1, None), start2, None),
                    end1,
                    Some(moved_piece(p1, end1, tn)),
                ),
                end2,
                Some(moved_piece(pr, end2, tn)),
            ));
        }
    }

    /// Commits one enumerated change: snapshots the grid onto the
    /// history, performs the structural update of the variant, then
    /// advances the turn counter and flips the mover. The change must
    /// come from the move generator for the currently occupying piece.
    pub fn apply_board_change(&mut self, board_change: BChange)
        requires
            old(self).wf(),
            old(self).can_apply(board_change),
            old(self).turn_index() < TURN_LIMIT,
        ensures
            apply_rel(*old(self), board_change, *final(self)),
            final(self).wf(),
    {
        self.save();
        match board_change {
            BChange::Move { start, end } => {
                proof {
                    lemma_piece_fits(*old(self), start);
                }
                self.move_piece(start, end);
            },
            BChange::MoveDestroy { start, end, target } => {
                proof {
                    lemma_piece_fits(*old(self), start);
                }
                let _removed = self.grab(target);
                self.move_piece(start, end);
            },
            BChange::BothMove { start1, start2, end1, end2 } => {
                proof {
                    lemma_piece_fits(*old(self), start1);
                    lemma_piece_fits(*old(self), start2);
                }
                self.move_both_pieces(start1, start2, end1, end2);
            },
            BChange::Promotion { start, end } => {
                proof {
                    lemma_piece_fits(*old(self), start);
                }
                self.apply_promotion(start, end);
            },
            BChange::PushPremote { start1, start2, end1, end2 } => {
                proof {
                    lemma_piece_fits(*old(self), start1);
                    lemma_piece_fits(*old(self), start2);
                }
                self.apply_push_premote(start1, start2, end1, end2);
            },
        }
        self.next_turn();
        proof {
            lemma_apply_change_wf(*old(self), board_change);
            let post = *final(self);
            let pre = *old(self);
            assert(post.history() == pre.history().push(pre.grid()));
            assert forall|i: int| 0 <= i < post.history().len() implies grid_wf(
                #[trigger] post.history()[i],
                i,
            ) by {
                if i < pre.history().len() {
                    assert(post.history()[i] == pre.history()[i]);
                } else {
                    assert(post.history()[i] == pre.grid());
                }
            }
        }
    }

    /// Flips the mover back and rewinds the turn counter, floored at 0.
    fn previous_turn(&mut self)
        ensures
            final(self).cur_turn() == old(self).cur_turn().opposite(),
            final(self).turn_index() == if old(self).turn_index() > 0 {
                (old(self).turn_index() - 1) as u32
            } else {
                0u32
            },
            final(self).grid() == old(self).grid(),
            final(self).history() == old(self).history(),
    {
        self.turn = match self.turn {
            Side::White => Side::Black,
            Side::Black => Side::White,
        };
        if self.turn_num > 0 {
            self.turn_num = self.turn_num - 1;
        }
    }

    /// Pops the most recent snapshot, restoring grid and turn to the
    /// position before the last committed change; does nothing when
    /// there is nothing to undo.
    pub fn undo_last_change(&mut self)
        requires
            old(self).wf(),
        ensures
            undo_rel(*old(self), *final(self)),
            final(self).wf(),
    {
        let ghost pre = *old(self);
        match self.previous.pop() {
            Some(restored) => {
                self.board = restored;
                self.previous_turn();
                proof {
                    let n = pre.history().len() as int;
                    assert(self.grid() == pre.history()[n - 1]);
                    assert(self.history() =~= pre.history().drop_last());
                    assert(grid_wf(pre.history()[n - 1], n - 1));
                }
            },
            None => {
                proof {
                    assert(pre.history().len() == 0);
                }
            },
        }
    }

    /// Clears the grid, resets turn and history, and repopulates the
    /// standard opening layout.
    pub fn restart_game(&mut self)
        ensures
            final(self).wf(),
            final(self).cur_turn() == Side::White,
            final(self).turn_index() == 0,
            final(self).history().len() == 0,
            forall|x: int, y: int|
                0 <= x < BOARD_WIDTH && 0 <= y < BOARD_HEIGHT ==> final(self).grid()[x][y]
                    == opening_piece(x, y),
    {
        self.board = empty_grid();
        self.turn = Side::White;
        self.turn_num = 0;
        self.previous = Vec::new();
        proof {
            assert(self.history() =~= Seq::<GridView>::empty());
            assert forall|x: int, y: int|
                0 <= x < BOARD_WIDTH && 0 <= y < BOARD_HEIGHT implies #[trigger] square_ok(
                self.grid(),
                x,
                y,
                0,
            ) by {
                assert(self.grid()[x][y] is None);
            }
        }
        self.spawn_pieces();
    }

    /// Populates the standard opening layout: pawns on the second row of
    /// each side, rooks, knights, bishops, queen and king on the back
    /// ranks. Squares outside those four rows are left as they are.
    pub fn spawn_pieces(&mut self)
        requires
            old(self).wf(),
        ensures
            final(self).wf(),
            final(self).cur_turn() == old(self).cur_turn(),
            final(self).turn_index() == old(self).turn_index(),
            final(self).history() == old(self).history(),
            forall|x: int, y: int|
                0 <= x < BOARD_WIDTH && 0 <= y < BOARD_HEIGHT ==> final(self).grid()[x][y] == (
                if y == 0 || y == 1 || y == BOARD_HEIGHT - 2 || y == BOARD_HEIGHT - 1 {
                    opening_piece(x, y)
                } else {
                    old(self).grid()[x][y]
                }),
    {
        let ghost g0 = self.grid();
        let ghost side0 = self.cur_turn();
        let ghost turn0 = self.turn_index();
        let ghost hist0 = self.history();
        let mut x: usize = 0;
        while x < BOARD_WIDTH
            invariant
                x <= BOARD_WIDTH,
                self.wf(),
                self.cur_turn() == side0,
                self.turn_index() == turn0,
                self.history() == hist0,
                forall|a: int, b: int|
                    0 <= a < BOARD_WIDTH && 0 <= b < BOARD_HEIGHT ==> self.grid()[a][b] == (
                    if a < x && (b == 0 || b == 1 || b == BOARD_HEIGHT - 2 || b == BOARD_HEIGHT
                        - 1) {
                        opening_piece(a, b)
                    } else {
                        g0[a][b]
                    }),
            decreases BOARD_WIDTH - x,
        {
            let white_back = Piece {
                piece_type: back_rank(x),
                side: Side::White,
                board_pos: BoardPos { x, y: 0 },
                distance_moved: 0,
                num_moves: 0,
                turn_last_moved: 0,
            };
            self.set_piece(Some(white_back), BoardPos { x, y: 0 });
            let white_pawn = Piece {
                piece_type: PieceType::Pawn,
                side: Side::White,
                board_pos: BoardPos { x, y: 1 },
                distance_moved: 0,
                num_moves: 0,
                turn_last_moved: 0,
            };
            self.set_piece(Some(white_pawn), BoardPos { x, y: 1 });
            let black_pawn = Piece {
                piece_type: PieceType::Pawn,
                side: Side::Black,
                board_pos: BoardPos { x, y: BOARD_HEIGHT - 2 },
                distance_moved: 0,
                num_moves: 0,
                turn_last_moved: 0,
            };
            self.set_piece(Some(black_pawn), BoardPos { x, y: BOARD_HEIGHT - 2 });
            let black_back = Piece {
                piece_type: back_rank(x),
                side: Side::Black,
                board_pos: BoardPos { x, y: BOARD_HEIGHT - 1 },
                distance_moved: 0,
                num_moves: 0,
                turn_last_moved: 0,
            };
            self.set_piece(Some(black_back), BoardPos { x, y: BOARD_HEIGHT - 1 });
            x = x + 1;
        }
    }
}

/// The back-rank piece type of column `x`, as executable code.
fn back_rank(x: usize) -> (t: PieceType)
    ensures
        t == back_rank_type(x as int),
{
    if x == 0 || x == BOARD_WIDTH - 1 {
        PieceType::Rook
    } else if x == 1 || x == BOARD_WIDTH - 2 {
        PieceType::Knight
    } else if x == 2 || x == BOARD_WIDTH - 3 {
        PieceType::Bishop
    } else if x == 3 {
        PieceType::Queen
    } else {
        PieceType::King
    }
}

} // verus!
