//! A deliberately minimal chess board: an 8 x 8 grid of spaces, an initial
//! layout, and a movement rule that only checks bounds and occupancy.
use vstd::prelude::*;

verus! {

use vstd::pervasive::VecAdditionalExecFns;

#[derive(Copy, Clone, Debug, PartialEq, Eq, Structural)]
pub enum Color {
    B,
    W,
}

#[derive(Copy, Clone, Debug, PartialEq, Eq, Structural)]
pub enum Piece {
    K(Color),
    Q(Color),
    B(Color),
    N(Color),
    R(Color),
    P(Color),
}

#[derive(Copy, Clone, Debug, PartialEq, Eq, Structural)]
pub enum Space {
    Empty,
    Piece(Piece),
}

/// The glyph that renders one space of the board.
pub open spec fn space_unicode(s: Space) -> Seq<char> {
    match s {
        Space::Empty => "■"@,
        Space::Piece(p) => match p {
            Piece::K(c) => match c {
                Color::W => "♔"@,
                Color::B => "♚"@,
            },
            Piece::Q(c) => match c {
                Color::W => "♕"@,
                Color::B => "♛"@,
            },
            Piece::R(c) => match c {
                Color::W => "♖"@,
                Color::B => "♜"@,
            },
            Piece::B(c) => match c {
                Color::W => "♗"@,
                Color::B => "♝"@,
            },
            Piece::N(c) => match c {
                Color::W => "♘"@,
                Color::B => "♞"@,
            },
            Piece::P(c) => match c {
                Color::W => "♙"@,
                Color::B => "♟︎"@,
            },
        },
    }
}

pub fn space_to_unicode(s: &Space) -> (r: String)
    ensures
        r@ == space_unicode(*s),
{
    match s {
        Space::Empty => String::from_str("■"),
        Space::Piece(p) => match p {
            Piece::K(c) => match c {
                Color::W => String::from_str("♔"),
                Color::B => String::from_str("♚"),
            },
            Piece::Q(c) => match c {
                Color::W => String::from_str("♕"),
                Color::B => String::from_str("♛"),
            },
            Piece::R(c) => match c {
                Color::W => String::from_str("♖"),
                Color::B => String::from_str("♜"),
            },
            Piece::B(c) => match c {
                Color::W => String::from_str("♗"),
                Color::B => String::from_str("♝"),
            },
            Piece::N(c) => match c {
                Color::W => String::from_str("♘"),
                Color::B => String::from_str("♞"),
            },
            Piece::P(c) => match c {
                Color::W => String::from_str("♙"),
                Color::B => String::from_str("♟︎"),
            },
        },
    }
}

#[derive(Debug, Copy, Clone, PartialEq, Eq, Structural)]
pub struct Position {
    pub x: u8,
    pub y: u8,
}

/// Index of a position in the row-major board sequence.
pub open spec fn board_index(p: Position) -> int {
    p.y * 8 + p.x
}

pub open spec fn position_in_bounds(p: Position) -> bool {
    p.x <= 7 && p.y <= 7
}

pub fn in_bounds(p: &Position) -> (r: bool)
    ensures
        r == position_in_bounds(*p),
{
    p.x <= 7 && p.y <= 7
}

pub open spec fn spec_king_row(c: Color) -> Seq<Space> {
    seq![
        Space::Piece(Piece::R(c)),
        Space::Piece(Piece::N(c)),
        Space::Piece(Piece::B(c)),
        Space::Piece(Piece::Q(c)),
        Space::Piece(Piece::K(c)),
        Space::Piece(Piece::B(c)),
        Space::Piece(Piece::N(c)),
        Space::Piece(Piece::R(c)),
    ]
}

pub open spec fn spec_pawn_row(c: Color) -> Seq<Space> {
    Seq::new(8, |i: int| Space::Piece(Piece::P(c)))
}

pub open spec fn spec_empty_row() -> Seq<Space> {
    Seq::new(8, |i: int| Space::Empty)
}

pub fn king_row(c: Color) -> (r: Vec<Space>)
    ensures
        r@ == spec_king_row(c),
{
    let r = vec![
        Space::Piece(Piece::R(c)),
        Space::Piece(Piece::N(c)),
        Space::Piece(Piece::B(c)),
        Space::Piece(Piece::Q(c)),
        Space::Piece(Piece::K(c)),
        Space::Piece(Piece::B(c)),
        Space::Piece(Piece::N(c)),
        Space::Piece(Piece::R(c)),
    ];
    proof {
        assert(r@ =~= spec_king_row(c));
    }
    r
}

pub fn pawn_row(c: Color) -> (r: Vec<Space>)
    ensures
        r@ == spec_pawn_row(c),
{
    let r = vec![
        Space::Piece(Piece::P(c)),
        Space::Piece(Piece::P(c)),
        Space::Piece(Piece::P(c)),
        Space::Piece(Piece::P(c)),
        Space::Piece(Piece::P(c)),
        Space::Piece(Piece::P(c)),
        Space::Piece(Piece::P(c)),
        Space::Piece(Piece::P(c)),
    ];
    proof {
        assert(r@ =~= spec_pawn_row(c));
    }
    r
}

pub fn empty_row() -> (r: Vec<Space>)
    ensures
        r@ == spec_empty_row(),
{
    let r = vec![
        Space::Empty,
        Space::Empty,
        Space::Empty,
        Space::Empty,
        Space::Empty,
        Space::Empty,
        Space::Empty,
        Space::Empty,
    ];
    proof {
        assert(r@ =~= spec_empty_row());
    }
    r
}

/// The opening layout: black's back rank and pawns on top, then four empty
/// rows, then white's pawns and back rank.
pub open spec fn initial_spaces() -> Seq<Space> {
    spec_king_row(Color::B) + spec_pawn_row(Color::B) + spec_empty_row() + spec_empty_row()
        + spec_empty_row() + spec_empty_row() + spec_pawn_row(Color::W) + spec_king_row(Color::W)
}

#[derive(Debug, PartialEq, Eq)]
pub enum GameError {
    OutOfBoundsMove,
    InvalidMove { from: (Position, Space), to: (Position, Space) },
}

/// The rendering of row `y` from column `x` on: glyphs, then a newline.
pub open spec fn spec_render_row(b: Seq<Space>, y: int, x: int) -> Seq<char>
    recommends
        b.len() == 64,
        0 <= y < 8,
        0 <= x <= 8,
    decreases 8 - x,
{
    if x < 0 || x >= 8 {
        "\n"@
    } else {
        space_unicode(b[y * 8 + x]) + spec_render_row(b, y, x + 1)
    }
}

/// The rendering of the board from row `y` down.
pub open spec fn spec_render_board(b: Seq<Space>, y: int) -> Seq<char>
    recommends
        b.len() == 64,
        0 <= y <= 8,
    decreases 8 - y,
{
    if y < 0 || y >= 8 {
        Seq::empty()
    } else {
        spec_render_row(b, y, 0) + spec_render_board(b, y + 1)
    }
}

/// Moving a piece: both positions must be on the board, the source must
/// hold a piece, and the destination must be empty; then the piece moves
/// and its source is left empty.
pub open spec fn spec_move_result(spaces: Seq<Space>, from: Position, to: Position) -> (
    Seq<Space>,
    Result<(), GameError>,
)
    recommends
        spaces.len() == 64,
{
    if !(position_in_bounds(from) && position_in_bounds(to)) {
        (spaces, Err(GameError::OutOfBoundsMove))
    } else {
        let fs = spaces[board_index(from)];
        let ts = spaces[board_index(to)];
        if fs is Piece && ts is Empty {
            (spaces.update(board_index(to), fs).update(board_index(from), Space::Empty), Ok(()))
        } else {
            (spaces, Err(GameError::InvalidMove { from: (from, fs), to: (to, ts) }))
        }
    }
}

#[derive(Debug)]
pub struct Game {
    board: Vec<Space>,
    turn: Color,
}

impl Game {
    /// The spaces of the board, row-major: row `y`, column `x` at `y * 8 + x`.
    pub closed spec fn spaces(&self) -> Seq<Space> {
        self.board@
    }

    pub closed spec fn turn(&self) -> Color {
        self.turn
    }

    pub open spec fn wf(&self) -> bool {
        self.spaces().len() == 64
    }

    pub fn new() -> (g: Game)
        ensures
            g.wf(),
            g.spaces() == initial_spaces(),
            g.turn() == Color::W,
    {
        let mut board = king_row(Color::B);
        let mut row = pawn_row(Color::B);
        board.append(&mut row);
        let mut row = empty_row();
        board.append(&mut row);
        let mut row = empty_row();
        board.append(&mut row);
        let mut row = empty_row();
        board.append(&mut row);
        let mut row = empty_row();
        board.append(&mut row);
        let mut row = pawn_row(Color::W);
        board.append(&mut row);
        let mut row = king_row(Color::W);
        board.append(&mut row);
        proof {
            assert(board@ =~= initial_spaces());
        }
        Game { board, turn: Color::W }
    }

    /// The board drawn as eight lines of glyphs, one row per line, as the
    /// text display of the original printed it.
    pub fn board_string(&self) -> (r: String)
        requires
            self.wf(),
        ensures
            r@ == spec_render_board(self.spaces(), 0),
    {
        let ghost b = self.spaces();
        let mut out = String::new();
        let mut y: usize = 0;
        while y < 8
            invariant
                self.wf(),
                b == self.spaces(),
                y <= 8,
                out@ + spec_render_board(b, y as int) == spec_render_board(b, 0),
            decreases 8 - y,
        {
            let mut x: usize = 0;
            proof {
                assert(out@ + (spec_render_row(b, y as int, 0) + spec_render_board(b, y + 1)) =~= (
                out@ + spec_render_row(b, y as int, 0)) + spec_render_board(b, y + 1));
            }
            while x < 8
                invariant
                    self.wf(),
                    b == self.spaces(),
                    y < 8,
                    x <= 8,
                    (out@ + spec_render_row(b, y as int, x as int)) + spec_render_board(b, y + 1)
                        == spec_render_board(b, 0),
                decreases 8 - x,
            {
                let glyph = space_to_unicode(&self.board[y * 8 + x]);
                let ghost out0 = out@;
                out.append(glyph.as_str());
                proof {
                    assert(spec_render_row(b, y as int, x as int) == space_unicode(
                        b[y as int * 8 + x as int],
                    ) + spec_render_row(b, y as int, x + 1));
                    assert(out@ + spec_render_row(b, y as int, x + 1) =~= out0 + spec_render_row(
                        b,
                        y as int,
                        x as int,
                    ));
                }
                x = x + 1;
            }
            let ghost out1 = out@;
            out.append("\n");
            proof {
                assert(spec_render_row(b, y as int, 8) == "\n"@);
                assert(out@ =~= out1 + spec_render_row(b, y as int, 8));
                assert(out@ + spec_render_board(b, y + 1) =~= (out1 + spec_render_row(
                    b,
                    y as int,
                    8,
                )) + spec_render_board(b, y + 1));
            }
            y = y + 1;
        }
        proof {
            assert(spec_render_board(b, 8) == Seq::<char>::empty());
            assert(out@ + Seq::<char>::empty() =~= out@);
        }
        out
    }

    /// Moves whatever stands on `from` to `to`. Only bounds and occupancy are
    /// checked: the source must hold a piece and the destination must be empty.
    pub fn move_piece(&mut self, from: Position, to: Position) -> (r: Result<(), GameError>)
        requires
            old(self).wf(),
        ensures
            final(self).wf(),
            final(self).turn() == old(self).turn(),
            (final(self).spaces(), r) == spec_move_result(old(self).spaces(), from, to),
    {
        if !in_bounds(&from) || !in_bounds(&to) {
            return Err(GameError::OutOfBoundsMove);
        }
        let from_index: usize = from.y as usize * 8 + from.x as usize;
        let to_index: usize = to.y as usize * 8 + to.x as usize;
        let from_space = self.board[from_index];
        let to_space = self.board[to_index];
        let error = GameError::InvalidMove { from: (from, from_space), to: (to, to_space) };
        match (from_space, to_space) {
            (Space::Empty, _) => Err(error),
            (_, Space::Piece(_)) => Err(error),
            (Space::Piece(_), Space::Empty) => {
                self.board.set(to_index, from_space);
                self.board.set(from_index, Space::Empty);
                Ok(())
            },
        }
    }
}

} // verus!
