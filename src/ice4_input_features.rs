use vstd::prelude::*;

use crate::attacks::{
    bishop_board, bishop_moves, king_board, king_moves, knight_board, knight_moves,
    pawn_capture_board, pawn_captures, pawn_push_board, pawn_quiets, rook_board, rook_moves,
};
use crate::batch::{zeros, Batch, BatchError, SparseFeature, WEIGHT_DENOMINATOR};
use crate::position::{
    bit_set, count_squares, has_square, squares, Color, Position, BISHOP, KING, KNIGHT, PAWN, PIECE_KINDS, QUEEN, ROOK,
};

verus! {

/// Hand-crafted evaluation terms, counted White minus Black into one dense
/// table, written as its nonzero entries into tensor 0, with the game phase
/// as the single feature of tensor 1.
pub struct Ice4InputFeatures;

pub const PAWN_PST: usize = 0;
pub const KNIGHT_PST: usize = 48;
pub const KNIGHT_QUADRANT: usize = 64;
pub const BISHOP_PST: usize = 67;
pub const BISHOP_QUADRANT: usize = 83;
pub const ROOK_PST: usize = 86;
pub const ROOK_QUADRANT: usize = 102;
pub const QUEEN_PST: usize = 105;
pub const QUEEN_QUADRANT: usize = 121;
pub const KING_PST: usize = 124;
pub const PASSED_PAWN_PST: usize = 140;
pub const BISHOP_PAIR: usize = 188;
pub const DOUBLED_PAWN: usize = 189;
pub const TEMPO: usize = 197;
pub const ISOLATED_PAWN: usize = 198;
pub const SINGLE_PROTECTED_PAWN: usize = 199;
pub const DOUBLE_PROTECTED_PAWN: usize = 200;
pub const ROOK_ON_OPEN_FILE: usize = 201;
pub const ROOK_ON_SEMIOPEN_FILE: usize = 202;
pub const SHIELD_PAWNS: usize = 203;
pub const KING_ON_OPEN_FILE: usize = 207;
pub const KING_ON_SEMIOPEN_FILE: usize = 208;
pub const MOBILITY: usize = 209;
pub const KING_RING_ATTACKS: usize = 215;
/// The length of the dense table.
pub const ICE4_FEATURE_COUNT: usize = 216;

pub const FILE_A: u64 = 0x0101_0101_0101_0101;
pub const FILE_H: u64 = 0x8080_8080_8080_8080;

/// Every count of `v` is at most `64 * steps` in size: each step adds at most 64.
pub open spec fn within(v: Seq<i32>, steps: int) -> bool {
    forall|i: int| 0 <= i < v.len() ==> -64 * steps <= #[trigger] v[i] <= 64 * steps
}

/// Upper bound on the steps of one position.
pub const STEP_LIMIT: i32 = 2700;

/// `d` with `delta` added to slot `i`.
pub open spec fn bumped(d: Seq<i32>, i: int, delta: int) -> Seq<i32> {
    d.update(i, (d[i] + delta) as i32)
}

/// The number of squares of `bb`.
pub open spec fn count(bb: u64) -> int {
    squares(bb).len() as int
}

/// The squares of file `file`.
pub open spec fn file_bb(file: int) -> u64 {
    FILE_A << (file as u64)
}

/// The squares of rank `rank`.
pub open spec fn rank_bb(rank: int) -> u64 {
    0xffu64 << ((rank * 8) as u64)
}

/// The squares of the files beside `file`.
pub open spec fn adjacent_bb(file: int) -> u64 {
    (if file > 0 {
        file_bb(file - 1)
    } else {
        0u64
    }) | (if file < 7 {
        file_bb(file + 1)
    } else {
        0u64
    })
}

/// `sq` mirrored top to bottom.
pub open spec fn flip_rank_sq(sq: int) -> int {
    (7 - sq / 8) * 8 + sq % 8
}

/// `sq` mirrored left to right.
pub open spec fn flip_file_sq(sq: int) -> int {
    sq / 8 * 8 + 7 - sq % 8
}

/// The lowest square of `bb` from `n` on, or 0 if there is none.
pub open spec fn first_square_from(bb: u64, n: int) -> int
    decreases 64 - n,
{
    if n < 0 || n >= 64 {
        0
    } else if has_square(bb, n) {
        n
    } else {
        first_square_from(bb, n + 1)
    }
}

/// The lowest square holding `color`'s king, or a1 if it has none.
pub open spec fn king_sq(board: Position, color: Color) -> int {
    first_square_from(board.piece_board(color, KING as int), 0)
}

/// A square folded into the a1-d4 quadrant: rank and file each mirrored
/// when past the middle.
pub open spec fn hm_index(sq: int) -> int {
    (if sq / 8 > 3 {
        7 - sq / 8
    } else {
        sq / 8
    }) * 4 + (if sq % 8 > 3 {
        7 - sq % 8
    } else {
        sq % 8
    })
}

/// 1 for White, -1 for Black.
pub open spec fn side_sign(color: Color) -> int {
    if color == Color::White {
        1
    } else {
        -1
    }
}

/// The side of the piece on `sq`: White if White occupies it, else Black.
pub open spec fn color_at(board: Position, sq: int) -> Color {
    if has_square(board.colors@[0], sq) {
        Color::White
    } else {
        Color::Black
    }
}

/// `sq` seen from `color`'s side: ranks flipped for Black.
pub open spec fn oriented_sq(color: Color, sq: int) -> int {
    if color == Color::White {
        sq
    } else {
        flip_rank_sq(sq)
    }
}

pub open spec fn occupied(board: Position) -> u64 {
    board.colors@[0] | board.colors@[1]
}

/// The squares a `color` `piece` on `sq` moves to or attacks.
pub open spec fn mobility_board(board: Position, piece: int, sq: int, color: Color) -> u64 {
    let occ = occupied(board);
    if piece == PAWN {
        pawn_push_board(sq, color.index(), occ) | (pawn_capture_board(sq, color.index())
            & board.colors@[color.other().index()])
    } else if piece == KNIGHT {
        knight_board(sq)
    } else if piece == BISHOP {
        bishop_board(sq, occ)
    } else if piece == ROOK {
        rook_board(sq, occ)
    } else if piece == QUEEN {
        bishop_board(sq, occ) | rook_board(sq, occ)
    } else {
        king_board(sq)
    }
}

pub open spec fn pst_offset_spec(piece: int) -> int {
    if piece == PAWN {
        PAWN_PST as int
    } else if piece == KNIGHT {
        KNIGHT_PST as int
    } else if piece == BISHOP {
        BISHOP_PST as int
    } else if piece == ROOK {
        ROOK_PST as int
    } else if piece == QUEEN {
        QUEEN_PST as int
    } else {
        KING_PST as int
    }
}

pub open spec fn quadrant_offset_spec(piece: int) -> int {
    if piece == KNIGHT {
        KNIGHT_QUADRANT as int
    } else if piece == BISHOP {
        BISHOP_QUADRANT as int
    } else if piece == ROOK {
        ROOK_QUADRANT as int
    } else {
        QUEEN_QUADRANT as int
    }
}

/// The piece-square slot of a `color` `piece` on its oriented square `sq`:
/// folded for minor and major pieces, 2x2 blocks for the king, and for a
/// pawn its square above the first rank, mirrored when its king is on the
/// king side (216, no slot, for a pawn on a back rank).
pub open spec fn pst_slot(board: Position, piece: int, color: Color, sq: int) -> int {
    if KNIGHT <= piece <= QUEEN {
        hm_index(sq)
    } else if piece == KING {
        sq / 8 / 2 * 4 + sq % 8 / 2
    } else {
        let p = if king_sq(board, color) % 8 > 3 {
            flip_file_sq(sq)
        } else {
            sq
        };
        if 8 <= p < 56 {
            p - 8
        } else {
            ICE4_FEATURE_COUNT as int
        }
    }
}

/// The open-file or half-open-file term of a rook or king of `color` on `file`.
pub open spec fn open_file_step(board: Position, d: Seq<i32>, piece: int, color: Color, file: int) -> Seq<i32> {
    if piece == ROOK || piece == KING {
        let open = if piece == ROOK {
            ROOK_ON_OPEN_FILE as int
        } else {
            KING_ON_OPEN_FILE as int
        };
        let semiopen = if piece == ROOK {
            ROOK_ON_SEMIOPEN_FILE as int
        } else {
            KING_ON_SEMIOPEN_FILE as int
        };
        if board.pieces@[PAWN as int] & file_bb(file) == 0 {
            bumped(d, open, side_sign(color))
        } else if board.piece_board(color, PAWN as int) & file_bb(file) == 0 {
            bumped(d, semiopen, side_sign(color))
        } else {
            d
        }
    } else {
        d
    }
}

/// The quadrant term of a minor or major piece on the oriented square `sq`:
/// none in the a1-d4 quadrant.
pub open spec fn quadrant_step(d: Seq<i32>, piece: int, color: Color, sq: int) -> Seq<i32> {
    let quad = (if sq % 8 > 3 {
        2int
    } else {
        0int
    }) + (if sq / 8 > 3 {
        1int
    } else {
        0int
    });
    if KNIGHT <= piece <= QUEEN && quad != 0 {
        bumped(d, quadrant_offset_spec(piece) + quad - 1, side_sign(color))
    } else {
        d
    }
}

/// The piece-square term of a `color` `piece` on the oriented square `sq`.
pub open spec fn pst_step(board: Position, d: Seq<i32>, piece: int, color: Color, sq: int) -> Seq<i32> {
    let slot = pst_slot(board, piece, color, sq);
    if slot < 48 {
        bumped(d, pst_offset_spec(piece) + slot, side_sign(color))
    } else {
        d
    }
}

/// The king-ring and mobility terms of a `color` `piece` on square `usq`.
pub open spec fn mobility_step(board: Position, d: Seq<i32>, piece: int, color: Color, usq: int) -> Seq<i32> {
    let inc = side_sign(color);
    let mob = mobility_board(board, piece, usq, color);
    let ring = king_board(king_sq(board, color.other())) & mob;
    let d1 = bumped(d, KING_RING_ATTACKS as int, inc * count(ring));
    bumped(d1, MOBILITY + piece, inc * count(mob & !board.colors@[color.index()]))
}

/// The terms of the `piece` on square `usq`: open and half-open files for rooks
/// and kings, quadrant and piece-square slots, king-ring attacks and mobility.
pub open spec fn piece_square_table(board: Position, d: Seq<i32>, piece: int, usq: int) -> Seq<i32> {
    let color = color_at(board, usq);
    let sq = oriented_sq(color, usq);
    let d1 = open_file_step(board, d, piece, color, sq % 8);
    let d2 = quadrant_step(d1, piece, color, sq);
    let d3 = pst_step(board, d2, piece, color, sq);
    mobility_step(board, d3, piece, color, usq)
}

/// The terms of the pieces of kind `piece` on squares below `n`.
pub open spec fn piece_kind_terms(board: Position, d: Seq<i32>, piece: int, n: int) -> Seq<i32>
    decreases n,
{
    if n <= 0 {
        d
    } else {
        let prev = piece_kind_terms(board, d, piece, n - 1);
        if has_square(board.pieces@[piece], n - 1) {
            piece_square_table(board, prev, piece, n - 1)
        } else {
            prev
        }
    }
}

/// The piece terms of the first `k` piece kinds.
pub open spec fn piece_terms(board: Position, d: Seq<i32>, k: int) -> Seq<i32>
    decreases k,
{
    if k <= 0 {
        d
    } else {
        piece_kind_terms(board, piece_terms(board, d, k - 1), k - 1, 64)
    }
}

/// The side of index `c`: 0 White, else Black.
pub open spec fn side_of(c: int) -> Color {
    if c == 0 {
        Color::White
    } else {
        Color::Black
    }
}

/// `mask` without the ranks below `r` that are not ahead of a `color` pawn on `rank`.
pub open spec fn clear_ranks(mask: u64, color: Color, rank: int, r: int) -> u64
    decreases r,
{
    if r <= 0 {
        mask
    } else {
        let m = clear_ranks(mask, color, rank, r - 1);
        let ahead = if color == Color::White {
            r - 1 > rank
        } else {
            r - 1 < rank
        };
        if !ahead {
            m & !rank_bb(r - 1)
        } else {
            m
        }
    }
}

/// The squares ahead of a `color` pawn on `sq`, on its file and the files beside it.
pub open spec fn passer_mask(color: Color, sq: int) -> u64 {
    clear_ranks(adjacent_bb(sq % 8) | file_bb(sq % 8), color, sq / 8, 8)
}

/// The passed-pawn term of a `color` pawn on `sq`, if there is one.
pub open spec fn passed_square_table(board: Position, d: Seq<i32>, color: Color, sq: int) -> Seq<i32> {
    if has_square(board.piece_board(color, PAWN as int), sq) && passer_mask(color, sq)
        & board.piece_board(color.other(), PAWN as int) == 0 {
        let folded = if king_sq(board, color) % 8 > 3 {
            flip_file_sq(sq)
        } else {
            sq
        };
        let idx = oriented_sq(color, folded);
        if 8 <= idx < 56 {
            bumped(d, PASSED_PAWN_PST + idx - 8, side_sign(color))
        } else {
            d
        }
    } else {
        d
    }
}

/// The passed-pawn terms of `color`'s pawns below square `n`.
pub open spec fn passed_color(board: Position, d: Seq<i32>, color: Color, n: int) -> Seq<i32>
    decreases n,
{
    if n <= 0 {
        d
    } else {
        passed_square_table(board, passed_color(board, d, color, n - 1), color, n - 1)
    }
}

/// The passed-pawn terms of the first `c` sides.
pub open spec fn passed_upto(board: Position, d: Seq<i32>, c: int) -> Seq<i32>
    decreases c,
{
    if c <= 0 {
        d
    } else {
        passed_color(board, passed_upto(board, d, c - 1), side_of(c - 1), 64)
    }
}

/// `x` spread `n` ranks down (`down`) or up.
pub open spec fn smear(x: u64, n: int, down: bool) -> u64
    decreases n,
{
    if n <= 0 {
        x
    } else {
        let y = smear(x, n - 1, down);
        if down {
            y | (y >> 8u64)
        } else {
            y | (y << 8u64)
        }
    }
}

/// White's squares behind a white pawn, and Black's behind a black pawn.
pub open spec fn white_behind(board: Position) -> u64 {
    smear(board.piece_board(Color::White, PAWN as int) >> 8u64, 6, true)
}

pub open spec fn black_behind(board: Position) -> u64 {
    smear(board.piece_board(Color::Black, PAWN as int) << 8u64, 6, false)
}

/// The doubled-pawn terms of squares below `n`.
pub open spec fn doubled_upto(board: Position, d: Seq<i32>, n: int) -> Seq<i32>
    decreases n,
{
    if n <= 0 {
        d
    } else {
        let p = doubled_upto(board, d, n - 1);
        let p1 = if has_square(board.piece_board(Color::White, PAWN as int) & white_behind(board), n - 1) {
            bumped(p, DOUBLED_PAWN + (n - 1) % 8, 1)
        } else {
            p
        };
        if has_square(board.piece_board(Color::Black, PAWN as int) & black_behind(board), n - 1) {
            bumped(p1, DOUBLED_PAWN + (n - 1) % 8, -1)
        } else {
            p1
        }
    }
}

/// Doubled pawns, and pawns protected by one or two pawns, White minus Black.
pub open spec fn pawn_structure(board: Position, d: Seq<i32>) -> Seq<i32> {
    let white = board.piece_board(Color::White, PAWN as int);
    let black = board.piece_board(Color::Black, PAWN as int);
    let d1 = doubled_upto(board, d, 64);
    let wr = (white & !FILE_A) << 7u64;
    let wl = (white & !FILE_H) << 9u64;
    let d2 = bumped(d1, SINGLE_PROTECTED_PAWN as int, count((wl ^ wr) & white));
    let d3 = bumped(d2, DOUBLE_PROTECTED_PAWN as int, count((wl & wr) & white));
    let br = (black & !FILE_A) >> 9u64;
    let bl = (black & !FILE_H) >> 7u64;
    let d4 = bumped(d3, SINGLE_PROTECTED_PAWN as int, -count((bl ^ br) & black));
    bumped(d4, DOUBLE_PROTECTED_PAWN as int, -count((bl & br) & black))
}

/// The isolated-pawn terms of `color`'s pawns below square `n`.
pub open spec fn isolated_upto(board: Position, d: Seq<i32>, color: Color, n: int) -> Seq<i32>
    decreases n,
{
    if n <= 0 {
        d
    } else {
        let p = isolated_upto(board, d, color, n - 1);
        let pawns = board.piece_board(color, PAWN as int);
        if has_square(pawns, n - 1) && adjacent_bb((n - 1) % 8) & pawns == 0 {
            bumped(p, ISOLATED_PAWN as int, side_sign(color))
        } else {
            p
        }
    }
}

/// Whether a `color` pawn stands `dy` ranks ahead of `rank` on file `f`.
pub open spec fn pawn_ahead(pawns: u64, color: Color, rank: int, f: int, dy: int) -> bool {
    if color == Color::White {
        rank + dy < 8 && has_square(pawns, (rank + dy) * 8 + f)
    } else {
        rank >= dy && has_square(pawns, (rank - dy) * 8 + f)
    }
}

/// Of the first `n` files from `file - 1` on, those on the board with a
/// shield pawn one or two ranks ahead of `rank`.
pub open spec fn shield_upto(pawns: u64, color: Color, file: int, rank: int, n: int) -> int
    decreases n,
{
    if n <= 0 {
        0
    } else {
        let f = file + n - 2;
        shield_upto(pawns, color, file, rank, n - 1) + if 0 <= f < 8 && (pawn_ahead(pawns, color, rank, f, 1)
            || pawn_ahead(pawns, color, rank, f, 2)) {
            1int
        } else {
            0int
        }
    }
}

/// The files next to and of a king on `king` with a shield pawn.
pub open spec fn shield_count(board: Position, color: Color, king: int) -> int {
    shield_upto(board.piece_board(color, PAWN as int), color, king % 8, king / 8, 3)
}

/// Bishop pair, tempo, isolated pawns and king shelter of `color`.
pub open spec fn side_color(board: Position, d: Seq<i32>, color: Color) -> Seq<i32> {
    let inc = side_sign(color);
    let d1 = if count(board.piece_board(color, BISHOP as int)) >= 2 {
        bumped(d, BISHOP_PAIR as int, inc)
    } else {
        d
    };
    let d2 = if color == board.side_to_move {
        bumped(d1, TEMPO as int, inc)
    } else {
        d1
    };
    let d3 = isolated_upto(board, d2, color, 64);
    let king = king_sq(board, color);
    let home = if color == Color::White {
        0int
    } else {
        7int
    };
    if king / 8 == home {
        bumped(d3, SHIELD_PAWNS + shield_count(board, color, king), inc)
    } else {
        d3
    }
}

/// The side terms of the first `c` sides.
pub open spec fn side_upto(board: Position, d: Seq<i32>, c: int) -> Seq<i32>
    decreases c,
{
    if c <= 0 {
        d
    } else {
        side_color(board, side_upto(board, d, c - 1), side_of(c - 1))
    }
}

/// A table of zeros.
pub open spec fn empty_table() -> Seq<i32> {
    Seq::new(ICE4_FEATURE_COUNT as nat, |i: int| 0i32)
}

/// The dense table of `board`: piece terms, passed pawns, pawn structure,
/// then side terms, each counted White minus Black.
pub open spec fn ice4_dense(board: Position) -> Seq<i32> {
    side_upto(
        board,
        pawn_structure(board, passed_upto(board, piece_terms(board, empty_table(), 6), 2)),
        2,
    )
}

/// Folding is blind to left-right and top-bottom mirroring.
pub proof fn lemma_hm_mirror(sq: int)
    requires
        0 <= sq < 64,
    ensures
        hm_index(flip_file_sq(sq)) == hm_index(sq),
        hm_index(flip_rank_sq(sq)) == hm_index(sq),
        0 <= hm_index(sq) < 16,
{
    assert(flip_file_sq(sq) / 8 == sq / 8 && flip_file_sq(sq) % 8 == 7 - sq % 8);
    assert(flip_rank_sq(sq) / 8 == 7 - sq / 8 && flip_rank_sq(sq) % 8 == sq % 8);
}

fn bump(features: &mut Vec<i32>, index: usize, delta: i32, Ghost(steps): Ghost<int>)
    requires
        index < old(features)@.len(),
        within(old(features)@, steps),
        0 <= steps < STEP_LIMIT,
        -64 <= delta <= 64,
    ensures
        final(features)@ == bumped(old(features)@, index as int, delta as int),
        within(final(features)@, steps + 1),
{
    let v = features[index];
    features.set(index, v + delta);
    assert forall|i: int| 0 <= i < features@.len() implies -64 * (steps + 1) <= #[trigger] features@[i]
        <= 64 * (steps + 1) by {
        if i != index {
            assert(features@[i] == old(features)@[i]);
        }
    }
}

/// `within` is kept when the allowance grows.
proof fn lemma_within_grow(v: Seq<i32>, s: int, t: int)
    requires
        within(v, s),
        0 <= s <= t,
    ensures
        within(v, t),
{
    assert forall|i: int| 0 <= i < v.len() implies -64 * t <= #[trigger] v[i] <= 64 * t by {}
}

fn file_board(file: u64) -> (r: u64)
    requires
        file < 8,
    ensures
        r == file_bb(file as int),
{
    FILE_A << file
}

fn rank_board(rank: u64) -> (r: u64)
    requires
        rank < 8,
    ensures
        r == rank_bb(rank as int),
{
    0xffu64 << (rank * 8)
}

fn adjacent_files(file: u64) -> (r: u64)
    requires
        file < 8,
    ensures
        r == adjacent_bb(file as int),
{
    let left = if file > 0 {
        file_board(file - 1)
    } else {
        0
    };
    let right = if file < 7 {
        file_board(file + 1)
    } else {
        0
    };
    left | right
}

fn flip_rank(sq: u64) -> (r: u64)
    requires
        sq < 64,
    ensures
        r == flip_rank_sq(sq as int),
        r < 64,
        r % 8 == sq % 8,
        r / 8 == 7 - sq / 8,
{
    (7 - sq / 8) * 8 + sq % 8
}

fn flip_file(sq: u64) -> (r: u64)
    requires
        sq < 64,
    ensures
        r == flip_file_sq(sq as int),
        r < 64,
        r / 8 == sq / 8,
        r % 8 == 7 - sq % 8,
{
    sq / 8 * 8 + 7 - sq % 8
}

fn king_square(board: &Position, color: Color) -> (r: u64)
    ensures
        r == king_sq(*board, color),
        r < 64,
{
    let kings = board.colored_pieces(color, KING);
    let mut sq: u64 = 0;
    while sq < 64
        invariant
            sq <= 64,
            kings == board.piece_board(color, KING as int),
            first_square_from(kings, 0) == first_square_from(kings, sq as int),
        decreases 64 - sq,
    {
        if bit_set(kings, sq) {
            return sq;
        }
        sq = sq + 1;
    }
    0
}

/// A square folded into the a1-d4 quadrant, as an index below 16.
pub fn hm_feature(square: u64) -> (r: usize)
    requires
        square < 64,
    ensures
        r == hm_index(square as int),
        r < 16,
{
    let sq = if square % 8 > 3 {
        flip_file(square)
    } else {
        square
    };
    let sq = if sq / 8 > 3 {
        flip_rank(sq)
    } else {
        sq
    };
    (sq / 8 * 4 + sq % 8) as usize
}

fn pst_offset(piece: usize) -> (r: usize)
    requires
        piece < PIECE_KINDS,
    ensures
        r == pst_offset_spec(piece as int),
        r <= KING_PST,
{
    if piece == PAWN {
        PAWN_PST
    } else if piece == KNIGHT {
        KNIGHT_PST
    } else if piece == BISHOP {
        BISHOP_PST
    } else if piece == ROOK {
        ROOK_PST
    } else if piece == QUEEN {
        QUEEN_PST
    } else {
        KING_PST
    }
}

fn quadrant_offset(piece: usize) -> (r: usize)
    requires
        KNIGHT <= piece <= QUEEN,
    ensures
        r == quadrant_offset_spec(piece as int),
        r <= QUEEN_QUADRANT,
{
    if piece == KNIGHT {
        KNIGHT_QUADRANT
    } else if piece == BISHOP {
        BISHOP_QUADRANT
    } else if piece == ROOK {
        ROOK_QUADRANT
    } else {
        QUEEN_QUADRANT
    }
}

fn mobility(board: &Position, piece: usize, sq: u64, color: Color) -> (r: u64)
    requires
        piece < PIECE_KINDS,
        sq < 64,
    ensures
        r == mobility_board(*board, piece as int, sq as int, color),
{
    let occupied = board.colors[0] | board.colors[1];
    if piece == PAWN {
        pawn_quiets(sq, color, occupied) | (pawn_captures(sq, color) & board.colors[color.opponent().to_index()])
    } else if piece == KNIGHT {
        knight_moves(sq)
    } else if piece == BISHOP {
        bishop_moves(sq, occupied)
    } else if piece == ROOK {
        rook_moves(sq, occupied)
    } else if piece == QUEEN {
        bishop_moves(sq, occupied) | rook_moves(sq, occupied)
    } else {
        king_moves(sq)
    }
}

/// The piece-square slot of a `color` `piece` on its oriented square `sq`.
fn pst_square(board: &Position, piece: usize, color: Color, sq: u64) -> (r: usize)
    requires
        piece < PIECE_KINDS,
        sq < 64,
    ensures
        r == pst_slot(*board, piece as int, color, sq as int),
        piece != PAWN ==> r < 16,
{
    if KNIGHT <= piece && piece <= QUEEN {
        hm_feature(sq)
    } else if piece == KING {
        (sq / 8 / 2 * 4 + sq % 8 / 2) as usize
    } else {
        let pawn_sq = if king_square(board, color) % 8 > 3 {
            flip_file(sq)
        } else {
            sq
        };
        // Pawns stand on the middle six ranks of a legal position.
        if 8 <= pawn_sq && pawn_sq < 56 {
            (pawn_sq - 8) as usize
        } else {
            ICE4_FEATURE_COUNT
        }
    }
}

/// The terms of the piece of kind `piece` on `usq`.
fn add_piece_square_terms(
    board: &Position,
    features: &mut Vec<i32>,
    piece: usize,
    usq: u64,
    Ghost(s): Ghost<int>,
)
    requires
        piece < PIECE_KINDS,
        usq < 64,
        old(features)@.len() == ICE4_FEATURE_COUNT,
        within(old(features)@, s),
        0 <= s,
        s + 6 <= STEP_LIMIT,
    ensures
        final(features)@.len() == ICE4_FEATURE_COUNT,
        within(final(features)@, s + 6),
        final(features)@ == piece_square_table(*board, old(features)@, piece as int, usq as int),
{
    let ghost mut steps = s;
    let color = if bit_set(board.colors[0], usq) {
        Color::White
    } else {
        Color::Black
    };
    let (sq, inc) = match color {
        Color::White => (usq, 1i32),
        Color::Black => (flip_rank(usq), -1i32),
    };
    let file = sq % 8;
    let rank = sq / 8;
    if piece == ROOK || piece == KING {
        let file_bb = file_board(file);
        let (open, semiopen) = if piece == ROOK {
            (ROOK_ON_OPEN_FILE, ROOK_ON_SEMIOPEN_FILE)
        } else {
            (KING_ON_OPEN_FILE, KING_ON_SEMIOPEN_FILE)
        };
        if board.pieces[PAWN] & file_bb == 0 {
            bump(features, open, inc, Ghost(steps));
            proof { steps = steps + 1; }
        } else if board.colored_pieces(color, PAWN) & file_bb == 0 {
            bump(features, semiopen, inc, Ghost(steps));
            proof { steps = steps + 1; }
        }
    }
    assert(color == color_at(*board, usq as int));
    assert(sq == oriented_sq(color, usq as int));
    assert(inc == side_sign(color));
    let ghost d1 = features@;
    assert(d1 == open_file_step(*board, old(features)@, piece as int, color, file as int));
    if KNIGHT <= piece && piece <= QUEEN {
        let quad: usize = (if file > 3 { 2 } else { 0 }) + (if rank > 3 { 1 } else { 0 });
        if quad != 0 {
            bump(features, quadrant_offset(piece) + quad - 1, inc, Ghost(steps));
            proof { steps = steps + 1; }
        }
    }
    let ghost d2 = features@;
    assert(d2 == quadrant_step(d1, piece as int, color, sq as int));
    let square = pst_square(board, piece, color, sq);
    if square < 48 {
        bump(features, pst_offset(piece) + square, inc, Ghost(steps));
        proof { steps = steps + 1; }
    }
    let ghost d3 = features@;
    assert(d3 == pst_step(*board, d2, piece as int, color, sq as int));
    let mob = mobility(board, piece, usq, color);
    let ring = king_moves(king_square(board, color.opponent())) & mob;
    let ring_count = count_squares(ring) as i32;
    let ring_delta = if inc > 0 {
        ring_count
    } else {
        -ring_count
    };
    bump(features, KING_RING_ATTACKS, ring_delta, Ghost(steps));
    proof { steps = steps + 1; }
    let free = mob & !board.colors[color.to_index()];
    let mob_count = count_squares(free) as i32;
    let mob_delta = if inc > 0 {
        mob_count
    } else {
        -mob_count
    };
    bump(features, MOBILITY + piece, mob_delta, Ghost(steps));
    proof {
        steps = steps + 1;
        lemma_within_grow(features@, steps, s + 6);
    }
}

/// Piece-square, quadrant, open-file, mobility and king-ring terms of every piece.
fn add_piece_terms(board: &Position, features: &mut Vec<i32>, Ghost(s): Ghost<int>)
    requires
        old(features)@.len() == ICE4_FEATURE_COUNT,
        within(old(features)@, s),
        0 <= s,
        s + 2304 <= STEP_LIMIT,
    ensures
        final(features)@.len() == ICE4_FEATURE_COUNT,
        within(final(features)@, s + 2304),
        final(features)@ == piece_terms(*board, old(features)@, 6),
{
    let ghost mut steps = s;
    let mut piece: usize = 0;
    while piece < PIECE_KINDS
        invariant
            piece <= PIECE_KINDS,
            features@.len() == ICE4_FEATURE_COUNT,
            s <= steps <= s + 384 * piece,
            within(features@, steps),
            0 <= s,
            s + 2304 <= STEP_LIMIT,
            features@ == piece_terms(*board, old(features)@, piece as int),
        decreases PIECE_KINDS - piece,
    {
        let bb = board.pieces[piece];
        let ghost start = features@;
        let mut usq: u64 = 0;
        while usq < 64
            invariant
                usq <= 64,
                piece < PIECE_KINDS,
                bb == board.pieces@[piece as int],
                start == piece_terms(*board, old(features)@, piece as int),
                features@.len() == ICE4_FEATURE_COUNT,
                s <= steps <= s + 384 * piece + 6 * usq,
                within(features@, steps),
                0 <= s,
                s + 2304 <= STEP_LIMIT,
                features@ == piece_kind_terms(*board, start, piece as int, usq as int),
            decreases 64 - usq,
        {
            assert(384 * piece + 6 * usq <= 2298) by (nonlinear_arith)
                requires
                    piece < 6,
                    usq < 64,
            ;
            if bit_set(bb, usq) {
                add_piece_square_terms(board, features, piece, usq, Ghost(steps));
                proof {
                    steps = steps + 6;
                }
            }
            usq = usq + 1;
        }
        piece = piece + 1;
    }
    proof {
        lemma_within_grow(features@, steps, s + 2304);
    }
}

/// Passed pawns by square, folded to the side of the board their king is on.
fn add_passed_pawns(board: &Position, features: &mut Vec<i32>, Ghost(s): Ghost<int>)
    requires
        old(features)@.len() == ICE4_FEATURE_COUNT,
        within(old(features)@, s),
        0 <= s,
        s + 128 <= STEP_LIMIT,
    ensures
        final(features)@.len() == ICE4_FEATURE_COUNT,
        within(final(features)@, s + 128),
        final(features)@ == passed_upto(*board, old(features)@, 2),
{
    let ghost mut steps = s;
    let mut c: usize = 0;
    while c < 2
        invariant
            c <= 2,
            features@.len() == ICE4_FEATURE_COUNT,
            s <= steps <= s + 64 * c,
            within(features@, steps),
            0 <= s,
            s + 128 <= STEP_LIMIT,
            features@ == passed_upto(*board, old(features)@, c as int),
        decreases 2 - c,
    {
        let color = if c == 0 {
            Color::White
        } else {
            Color::Black
        };
        let own = board.colored_pieces(color, PAWN);
        let theirs = board.colored_pieces(color.opponent(), PAWN);
        let king_file = king_square(board, color) % 8;
        let ghost start = features@;
        let mut sq: u64 = 0;
        while sq < 64
            invariant
                sq <= 64,
                c < 2,
                color == side_of(c as int),
                own == board.piece_board(color, PAWN as int),
                theirs == board.piece_board(color.other(), PAWN as int),
                king_file == king_sq(*board, color) % 8,
                start == passed_upto(*board, old(features)@, c as int),
                features@.len() == ICE4_FEATURE_COUNT,
                s <= steps <= s + 64 * c + sq,
                within(features@, steps),
                0 <= s,
                s + 128 <= STEP_LIMIT,
                features@ == passed_color(*board, start, color, sq as int),
            decreases 64 - sq,
        {
            if bit_set(own, sq) {
                let rank = sq / 8;
                let init = adjacent_files(sq % 8) | file_board(sq % 8);
                let mut mask = init;
                let mut r: u64 = 0;
                while r < 8
                    invariant
                        r <= 8,
                        rank == sq / 8,
                        mask == clear_ranks(init, color, rank as int, r as int),
                    decreases 8 - r,
                {
                    let ahead = match color {
                        Color::White => r > rank,
                        Color::Black => r < rank,
                    };
                    if !ahead {
                        mask = mask & !rank_board(r);
                    }
                    r = r + 1;
                }
                if mask & theirs == 0 {
                    let folded = if king_file > 3 {
                        flip_file(sq)
                    } else {
                        sq
                    };
                    let (idx, inc) = match color {
                        Color::White => (folded, 1i32),
                        Color::Black => (flip_rank(folded), -1i32),
                    };
                    // Pawns stand on the middle six ranks of a legal position.
                    if 8 <= idx && idx < 56 {
                        bump(features, PASSED_PAWN_PST + (idx - 8) as usize, inc, Ghost(steps));
                        proof { steps = steps + 1; }
                    }
                }
            }
            sq = sq + 1;
        }
        c = c + 1;
    }
}

/// Doubled pawns by file, and pawns protected by one or two pawns.
fn add_pawn_structure(board: &Position, features: &mut Vec<i32>, Ghost(s): Ghost<int>)
    requires
        old(features)@.len() == ICE4_FEATURE_COUNT,
        within(old(features)@, s),
        0 <= s,
        s + 132 <= STEP_LIMIT,
    ensures
        final(features)@.len() == ICE4_FEATURE_COUNT,
        within(final(features)@, s + 132),
        final(features)@ == pawn_structure(*board, old(features)@),
{
    let white = board.colored_pieces(Color::White, PAWN);
    let black = board.colored_pieces(Color::Black, PAWN);
    let mut white_mask = white >> 8u64;
    let mut black_mask = black << 8u64;
    let mut i: usize = 0;
    while i < 6
        invariant
            i <= 6,
            white_mask == smear(white >> 8u64, i as int, true),
            black_mask == smear(black << 8u64, i as int, false),
        decreases 6 - i,
    {
        white_mask = white_mask | (white_mask >> 8u64);
        black_mask = black_mask | (black_mask << 8u64);
        i = i + 1;
    }
    let ghost mut steps = s;
    let mut sq: u64 = 0;
    while sq < 64
        invariant
            sq <= 64,
            white == board.piece_board(Color::White, PAWN as int),
            black == board.piece_board(Color::Black, PAWN as int),
            white_mask == white_behind(*board),
            black_mask == black_behind(*board),
            features@.len() == ICE4_FEATURE_COUNT,
            s <= steps <= s + 2 * sq,
            within(features@, steps),
            0 <= s,
            s + 132 <= STEP_LIMIT,
            features@ == doubled_upto(*board, old(features)@, sq as int),
        decreases 64 - sq,
    {
        if bit_set(white & white_mask, sq) {
            bump(features, DOUBLED_PAWN + (sq % 8) as usize, 1, Ghost(steps));
            proof { steps = steps + 1; }
        }
        if bit_set(black & black_mask, sq) {
            bump(features, DOUBLED_PAWN + (sq % 8) as usize, -1, Ghost(steps));
            proof { steps = steps + 1; }
        }
        sq = sq + 1;
    }

    let right = (white & !FILE_A) << 7u64;
    let left = (white & !FILE_H) << 9u64;
    let single = count_squares((left ^ right) & white) as i32;
    let double = count_squares((left & right) & white) as i32;
    bump(features, SINGLE_PROTECTED_PAWN, single, Ghost(steps));
    bump(features, DOUBLE_PROTECTED_PAWN, double, Ghost(steps + 1));

    let right = (black & !FILE_A) >> 9u64;
    let left = (black & !FILE_H) >> 7u64;
    let single = count_squares((left ^ right) & black) as i32;
    let double = count_squares((left & right) & black) as i32;
    bump(features, SINGLE_PROTECTED_PAWN, -single, Ghost(steps + 2));
    bump(features, DOUBLE_PROTECTED_PAWN, -double, Ghost(steps + 3));
    proof {
        lemma_within_grow(features@, steps + 4, s + 132);
    }
}

/// Whether a `color` pawn stands `dy` ranks ahead of `rank` on file `f`.
fn has_pawn_ahead(pawns: u64, color: Color, rank: u64, f: u64, dy: u64) -> (r: bool)
    requires
        rank < 8,
        f < 8,
        1 <= dy <= 2,
    ensures
        r == pawn_ahead(pawns, color, rank as int, f as int, dy as int),
{
    match color {
        Color::White => rank + dy < 8 && bit_set(pawns, (rank + dy) * 8 + f),
        Color::Black => rank >= dy && bit_set(pawns, (rank - dy) * 8 + f),
    }
}

/// The files next to and of a king on `king` with a pawn one or two ranks ahead.
fn shield_pawns(board: &Position, color: Color, king: u64) -> (r: usize)
    requires
        king < 64,
    ensures
        r == shield_count(*board, color, king as int),
        r <= 3,
{
    let pawns = board.colored_pieces(color, PAWN);
    let file = king % 8;
    let rank = king / 8;
    let mut shield: usize = 0;
    let mut dx: u64 = 0;
    while dx < 3
        invariant
            dx <= 3,
            shield <= dx,
            king < 64,
            file == king % 8,
            rank == king / 8,
            pawns == board.piece_board(color, PAWN as int),
            shield == shield_upto(pawns, color, file as int, rank as int, dx as int),
        decreases 3 - dx,
    {
        // The file `file + dx - 1`, if it is on the board.
        if file + dx >= 1 && file + dx - 1 < 8 {
            let f = file + dx - 1;
            if has_pawn_ahead(pawns, color, rank, f, 1) || has_pawn_ahead(pawns, color, rank, f, 2) {
                shield = shield + 1;
            }
        }
        dx = dx + 1;
    }
    shield
}

/// Bishop pair, tempo, isolated pawns and king shelter of each side.
fn add_side_terms(board: &Position, features: &mut Vec<i32>, Ghost(s): Ghost<int>)
    requires
        old(features)@.len() == ICE4_FEATURE_COUNT,
        within(old(features)@, s),
        0 <= s,
        s + 134 <= STEP_LIMIT,
    ensures
        final(features)@.len() == ICE4_FEATURE_COUNT,
        within(final(features)@, s + 134),
        final(features)@ == side_upto(*board, old(features)@, 2),
{
    let ghost mut steps = s;
    let mut c: usize = 0;
    while c < 2
        invariant
            c <= 2,
            features@.len() == ICE4_FEATURE_COUNT,
            s <= steps <= s + 67 * c,
            within(features@, steps),
            0 <= s,
            s + 134 <= STEP_LIMIT,
            features@ == side_upto(*board, old(features)@, c as int),
        decreases 2 - c,
    {
        let (color, inc) = if c == 0 {
            (Color::White, 1i32)
        } else {
            (Color::Black, -1i32)
        };
        let ghost start = features@;
        if count_squares(board.colored_pieces(color, BISHOP)) >= 2 {
            bump(features, BISHOP_PAIR, inc, Ghost(steps));
            proof { steps = steps + 1; }
        }
        if color == board.side_to_move {
            bump(features, TEMPO, inc, Ghost(steps));
            proof { steps = steps + 1; }
        }
        let pawns = board.colored_pieces(color, PAWN);
        let ghost mid = features@;
        let mut sq: u64 = 0;
        while sq < 64
            invariant
                sq <= 64,
                c < 2,
                color == side_of(c as int),
                pawns == board.piece_board(color, PAWN as int),
                features@.len() == ICE4_FEATURE_COUNT,
                s <= steps <= s + 67 * c + 2 + sq,
                inc == 1 || inc == -1,
                inc == side_sign(color),
                within(features@, steps),
                0 <= s,
                s + 134 <= STEP_LIMIT,
                features@ == isolated_upto(*board, mid, color, sq as int),
            decreases 64 - sq,
        {
            if bit_set(pawns, sq) && adjacent_files(sq % 8) & pawns == 0 {
                bump(features, ISOLATED_PAWN, inc, Ghost(steps));
                proof { steps = steps + 1; }
            }
            sq = sq + 1;
        }
        let king = king_square(board, color);
        let home_rank: u64 = match color {
            Color::White => 0,
            Color::Black => 7,
        };
        if king / 8 == home_rank {
            let shield = shield_pawns(board, color, king);
            bump(features, SHIELD_PAWNS + shield, inc, Ghost(steps));
            proof { steps = steps + 1; }
        }
        c = c + 1;
    }
}

/// The dense table of `board`: each term counted White minus Black.
pub fn dense_features(board: &Position) -> (r: Vec<i32>)
    ensures
        r@ == ice4_dense(*board),
        within(r@, STEP_LIMIT as int),
{
    let mut features: Vec<i32> = Vec::new();
    let mut i: usize = 0;
    while i < ICE4_FEATURE_COUNT
        invariant
            i <= ICE4_FEATURE_COUNT,
            features@ == Seq::new(i as nat, |j: int| 0i32),
        decreases ICE4_FEATURE_COUNT - i,
    {
        features.push(0);
        i = i + 1;
        assert(features@ =~= Seq::new(i as nat, |j: int| 0i32));
    }
    assert(features@ =~= empty_table());
    assert(within(features@, 0));
    add_piece_terms(board, &mut features, Ghost(0));
    add_passed_pawns(board, &mut features, Ghost(2304));
    add_pawn_structure(board, &mut features, Ghost(2432));
    add_side_terms(board, &mut features, Ghost(2564));
    proof {
        lemma_within_grow(features@, 2698, STEP_LIMIT as int);
    }
    features
}

/// The nonzero counts of `d` below `n`, in order, as tensor 0 features of entry `e`.
pub open spec fn sparse_upto(d: Seq<i32>, n: int, e: usize) -> Seq<SparseFeature>
    decreases n,
{
    if n <= 0 {
        Seq::empty()
    } else if d[n - 1] != 0 {
        sparse_upto(d, n - 1, e).push(
            SparseFeature {
                tensor: 0,
                entry: e,
                index: (n - 1) as i64,
                weight: (d[n - 1] * WEIGHT_DENOMINATOR) as i32,
            },
        )
    } else {
        sparse_upto(d, n - 1, e)
    }
}

/// How many counts of `d` below `n` are nonzero.
pub open spec fn nonzero_upto(d: Seq<i32>, n: int) -> int
    decreases n,
{
    if n <= 0 {
        0
    } else if d[n - 1] != 0 {
        nonzero_upto(d, n - 1) + 1
    } else {
        nonzero_upto(d, n - 1)
    }
}

/// Everything written for the dense table `d` and the phase `phase`.
pub open spec fn ice4_sparse(d: Seq<i32>, phase: int, e: usize) -> Seq<SparseFeature> {
    sparse_upto(d, d.len() as int, e).push(
        SparseFeature { tensor: 1, entry: e, index: 0, weight: phase as i32 },
    )
}

/// Whether the table `d` fits a batch whose per-tensor limit is `max`.
pub open spec fn dense_fits(d: Seq<i32>, max: int) -> bool {
    nonzero_upto(d, d.len() as int) <= max && 1 <= max
}

/// The game phase in 24ths: `knights + bishops + 2 * rooks + 4 * queens`,
/// not clamped, so above 24 when promotions add material.
pub open spec fn phase_of(board: Position) -> int {
    board.kind_count(KNIGHT as int) + board.kind_count(BISHOP as int) + 2 * board.kind_count(
        ROOK as int,
    ) + 4 * board.kind_count(QUEEN as int)
}

proof fn lemma_nonzero_mono(d: Seq<i32>, n: int, m: int)
    requires
        0 <= n <= m,
    ensures
        nonzero_upto(d, n) <= nonzero_upto(d, m),
    decreases m - n,
{
    if n < m {
        lemma_nonzero_mono(d, n, m - 1);
    }
}

/// The game phase of `board`, in 24ths.
pub fn phase(board: &Position) -> (r: i32)
    ensures
        r == phase_of(*board),
{
    (board.count_kind(KNIGHT) + board.count_kind(BISHOP) + 2 * board.count_kind(ROOK) + 4
        * board.count_kind(QUEEN)) as i32
}

/// Writes the nonzero counts of `dense` into tensor 0 of the newest entry,
/// each weighing its count, then `phase` (in 24ths) at index 0 of tensor 1.
pub fn add_dense_features(dense: &Vec<i32>, phase: i32, batch: &mut Batch) -> (r: Result<
    (),
    BatchError,
>)
    requires
        old(batch).wf(),
        old(batch).len_spec() > 0,
        old(batch).tensor_count_spec() >= 2,
        old(batch).counts_spec() == zeros(old(batch).tensor_count_spec() as int),
        within(dense@, STEP_LIMIT as int),
    ensures
        final(batch).wf(),
        final(batch).same_config(old(batch)),
        final(batch).labels_spec() == old(batch).labels_spec(),
        r is Ok <==> dense_fits(dense@, old(batch).max_features_spec() as int),
        r is Ok ==> final(batch).features_spec() == old(batch).features_spec() + ice4_sparse(
            dense@,
            phase as int,
            (old(batch).len_spec() - 1) as usize,
        ),
{
    let entry = batch.len() - 1;
    let ghost max = old(batch).max_features_spec() as int;
    let ghost d = dense@;
    let mut i: usize = 0;
    assert(batch.features_spec() =~= old(batch).features_spec() + sparse_upto(d, 0, entry));
    assert(batch.counts_spec() =~= zeros(batch.tensor_count_spec() as int).update(0, 0usize));
    while i < dense.len()
        invariant
            i <= dense@.len(),
            d == dense@,
            within(d, STEP_LIMIT as int),
            batch.wf(),
            batch.same_config(old(batch)),
            batch.labels_spec() == old(batch).labels_spec(),
            entry == batch.len_spec() - 1,
            max == batch.max_features_spec(),
            batch.tensor_count_spec() >= 2,
            0 <= nonzero_upto(d, i as int) <= max,
            batch.counts_spec() == zeros(batch.tensor_count_spec() as int).update(
                0,
                nonzero_upto(d, i as int) as usize,
            ),
            batch.features_spec() == old(batch).features_spec() + sparse_upto(d, i as int, entry),
        decreases dense@.len() - i,
    {
        let v = dense[i];
        assert(nonzero_upto(d, i as int + 1) == if v != 0 {
            nonzero_upto(d, i as int) + 1
        } else {
            nonzero_upto(d, i as int)
        });
        if v != 0 {
            assert(-64 * 2700 <= v <= 64 * 2700);
            match batch.add_feature(0, i as i64, v * WEIGHT_DENOMINATOR) {
                Ok(()) => {},
                Err(err) => {
                    proof {
                        lemma_nonzero_mono(d, i as int + 1, d.len() as int);
                    }
                    return Err(err);
                },
            }
        }
        i = i + 1;
        assert(batch.features_spec() =~= old(batch).features_spec() + sparse_upto(d, i as int, entry));
        assert(batch.counts_spec() =~= zeros(batch.tensor_count_spec() as int).update(
            0,
            nonzero_upto(d, i as int) as usize,
        ));
    }
    assert(d.len() == i);
    assert(batch.counts_spec()[1] == 0);
    let res = batch.add_feature(1, 0, phase);
    proof {
        if res is Ok {
            assert(batch.features_spec() =~= old(batch).features_spec() + ice4_sparse(d, phase as int, entry));
        }
    }
    res
}

impl Ice4InputFeatures {
    /// Writes the features of `board` into the newest entry of `batch`: the
    /// nonzero counts of its dense table, then its phase.
    pub fn add_features(board: &Position, batch: &mut Batch) -> (r: Result<(), BatchError>)
        requires
            old(batch).wf(),
            old(batch).len_spec() > 0,
            old(batch).tensor_count_spec() >= 2,
            old(batch).counts_spec() == zeros(old(batch).tensor_count_spec() as int),
        ensures
            final(batch).wf(),
            final(batch).same_config(old(batch)),
            final(batch).labels_spec() == old(batch).labels_spec(),
            r is Ok <==> dense_fits(ice4_dense(*board), old(batch).max_features_spec() as int),
            r is Ok ==> final(batch).features_spec() == old(batch).features_spec() + ice4_sparse(
                ice4_dense(*board),
                phase_of(*board),
                (old(batch).len_spec() - 1) as usize,
            ),
    {
        let dense = dense_features(board);
        let p = phase(board);
        add_dense_features(&dense, p, batch)
    }
}

} // verus!
