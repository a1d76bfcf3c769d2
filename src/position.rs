use vstd::prelude::*;

verus! {

/// The side a piece belongs to, or the side to move.
#[derive(Clone, Copy, PartialEq, Eq, Debug, Structural)]
pub enum Color {
    White,
    Black,
}

impl Color {
    pub open spec fn index(self) -> int {
        match self {
            Color::White => 0,
            Color::Black => 1,
        }
    }

    pub open spec fn other(self) -> Color {
        match self {
            Color::White => Color::Black,
            Color::Black => Color::White,
        }
    }

    /// The opposing side.
    pub fn opponent(self) -> (r: Color)
        ensures
            r == self.other(),
    {
        match self {
            Color::White => Color::Black,
            Color::Black => Color::White,
        }
    }

    pub fn to_index(self) -> (r: usize)
        ensures
            r == self.index(),
    {
        match self {
            Color::White => 0,
            Color::Black => 1,
        }
    }
}

pub const PAWN: usize = 0;
pub const KNIGHT: usize = 1;
pub const BISHOP: usize = 2;
pub const ROOK: usize = 3;
pub const QUEEN: usize = 4;
pub const KING: usize = 5;
pub const PIECE_KINDS: usize = 6;

/// A chess position as plain bitboards: bit `sq` of a board is square `sq`,
/// with `sq = rank * 8 + file` (a1 = 0, h8 = 63).
pub struct Position {
    /// Occupancy of each side, indexed by `Color::to_index`.
    pub colors: [u64; 2],
    /// Occupancy of each piece kind, indexed `PAWN ..= KING`.
    pub pieces: [u64; 6],
    pub side_to_move: Color,
}

/// Whether square `sq` is set in bitboard `bb`.
pub open spec fn has_square(bb: u64, sq: int) -> bool {
    (bb >> (sq as u64)) & 1u64 == 1u64
}

/// The squares of `bb` below `n`, in ascending order.
pub open spec fn squares_below(bb: u64, n: int) -> Seq<int>
    decreases n,
{
    if n <= 0 {
        Seq::empty()
    } else if has_square(bb, n - 1) {
        squares_below(bb, n - 1).push(n - 1)
    } else {
        squares_below(bb, n - 1)
    }
}

/// The squares of `bb`, in ascending order.
pub open spec fn squares(bb: u64) -> Seq<int> {
    squares_below(bb, 64)
}

/// More squares below a larger bound.
pub proof fn lemma_squares_below_mono(bb: u64, n: int, m: int)
    requires
        0 <= n <= m,
    ensures
        squares_below(bb, n).len() <= squares_below(bb, m).len(),
    decreases m - n,
{
    if n < m {
        lemma_squares_below_mono(bb, n, m - 1);
    }
}

/// Whether `sq` is set in `bb`, for `sq < 64`.
pub fn bit_set(bb: u64, sq: u64) -> (r: bool)
    requires
        sq < 64,
    ensures
        r == has_square(bb, sq as int),
{
    (bb >> sq) & 1u64 == 1u64
}

/// The number of squares set in `bb`.
pub fn count_squares(bb: u64) -> (r: u32)
    ensures
        r == squares(bb).len(),
        r <= 64,
{
    let mut n: u32 = 0;
    let mut sq: u64 = 0;
    while sq < 64
        invariant
            sq <= 64,
            n == squares_below(bb, sq as int).len(),
            n <= sq,
        decreases 64 - sq,
    {
        if bit_set(bb, sq) {
            n = n + 1;
        }
        sq = sq + 1;
    }
    n
}

impl Position {
    /// The squares holding piece kind `piece` of either side.
    pub open spec fn kind_board(&self, piece: int) -> u64 {
        self.pieces@[piece]
    }

    /// The squares holding piece kind `piece` of side `color`.
    pub open spec fn piece_board(&self, color: Color, piece: int) -> u64 {
        self.pieces@[piece] & self.colors@[color.index()]
    }

    /// How many pieces of kind `piece` stand on the board, both sides together.
    pub open spec fn kind_count(&self, piece: int) -> int {
        squares(self.pieces@[piece]).len() as int
    }

    pub fn pieces_of(&self, piece: usize) -> (r: u64)
        requires
            piece < PIECE_KINDS,
        ensures
            r == self.kind_board(piece as int),
    {
        self.pieces[piece]
    }

    pub fn colored_pieces(&self, color: Color, piece: usize) -> (r: u64)
        requires
            piece < PIECE_KINDS,
        ensures
            r == self.piece_board(color, piece as int),
    {
        self.pieces[piece] & self.colors[color.to_index()]
    }

    pub fn count_kind(&self, piece: usize) -> (r: u32)
        requires
            piece < PIECE_KINDS,
        ensures
            r == self.kind_count(piece as int),
            r <= 64,
    {
        count_squares(self.pieces[piece])
    }
}

} // verus!
