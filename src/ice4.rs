use vstd::prelude::*;

use crate::batch::{zeros, Batch, BatchError, SparseFeature, WEIGHT_DENOMINATOR};
use crate::board_768::{group_color, group_piece, lemma_pieces_upto_mono, piece_total, pieces_upto};
use crate::ice4_input_features::{phase, phase_of};
use crate::position::{
    bit_set, has_square, lemma_squares_below_mono, squares_below, Color, Position, PIECE_KINDS,
};

verus! {

/// Piece-square features from both sides' points of view (tensors 0 and 1),
/// and phase-blended piece-square tables of the opponent's pieces (tensor 2)
/// and of the side to move's pieces (tensor 3).
pub struct Ice4Features;

/// The index of a `color` `piece` on `sq` from `perspective`: mixed radix over
/// (piece, file, color, rank), ranks flipped and colors swapped for Black.
pub open spec fn board_index(perspective: Color, color: Color, piece: int, sq: int) -> int {
    let rank = if perspective == Color::White {
        sq / 8
    } else {
        7 - sq / 8
    };
    let c = if perspective == Color::White {
        color.index()
    } else {
        1 - color.index()
    };
    ((piece * 8 + sq % 8) * 2 + c) * 8 + rank
}

/// The piece-square table index of a `color` `piece` on `sq`, for the
/// middlegame (`ph == 0`) or the endgame (`ph == 1`), ranks flipped for Black.
pub open spec fn pst_index(color: Color, piece: int, sq: int, ph: int) -> int {
    let rank = if color == Color::White {
        sq / 8
    } else {
        7 - sq / 8
    };
    ((piece * 8 + sq % 8) * 2 + ph) * 8 + rank
}

/// The tensor that holds the tables of a `color` piece.
pub open spec fn pst_tensor(pos: Position, color: Color) -> usize {
    if color == pos.side_to_move {
        3
    } else {
        2
    }
}

pub open spec fn board_piece(pos: Position, color: Color, piece: int, sq: int, e: usize) -> Seq<
    SparseFeature,
> {
    let stm = pos.side_to_move;
    seq![
        SparseFeature { tensor: 0, entry: e, index: board_index(stm, color, piece, sq) as i64, weight: WEIGHT_DENOMINATOR },
        SparseFeature { tensor: 1, entry: e, index: board_index(stm.other(), color, piece, sq) as i64, weight: WEIGHT_DENOMINATOR },
    ]
}

pub open spec fn pst_piece(pos: Position, color: Color, piece: int, sq: int, e: usize) -> Seq<
    SparseFeature,
> {
    let t = pst_tensor(pos, color);
    let p = phase_of(pos);
    seq![
        SparseFeature { tensor: t, entry: e, index: pst_index(color, piece, sq, 0) as i64, weight: p as i32 },
        SparseFeature { tensor: t, entry: e, index: pst_index(color, piece, sq, 1) as i64, weight: (WEIGHT_DENOMINATOR - p) as i32 },
    ]
}

/// The features of one piece in the first pass (`pass == 0`) or the second.
pub open spec fn piece_features(pos: Position, pass: int, color: Color, piece: int, sq: int, e: usize) -> Seq<SparseFeature> {
    if pass == 0 {
        board_piece(pos, color, piece, sq, e)
    } else {
        pst_piece(pos, color, piece, sq, e)
    }
}

/// One pass's features of group `k`'s pieces on squares below `n`.
pub open spec fn pass_group(pos: Position, pass: int, k: int, n: int, e: usize) -> Seq<SparseFeature>
    decreases n,
{
    if n <= 0 {
        Seq::empty()
    } else if has_square(pos.piece_board(group_color(k), group_piece(k)), n - 1) {
        pass_group(pos, pass, k, n - 1, e) + piece_features(pos, pass, group_color(k), group_piece(k), n - 1, e)
    } else {
        pass_group(pos, pass, k, n - 1, e)
    }
}

/// One pass's features of the first `k` piece groups.
pub open spec fn pass_upto(pos: Position, pass: int, k: int, e: usize) -> Seq<SparseFeature>
    decreases k,
{
    if k <= 0 {
        Seq::empty()
    } else {
        pass_upto(pos, pass, k - 1, e) + pass_group(pos, pass, k - 1, 64, e)
    }
}

/// Every feature of `pos` for entry `e`: both passes over White's pieces then
/// Black's, by kind, squares ascending.
pub open spec fn ice4_features(pos: Position, e: usize) -> Seq<SparseFeature> {
    pass_upto(pos, 0, 12, e) + pass_upto(pos, 1, 12, e)
}

/// The number of `color`'s pieces in the first `k` piece groups.
pub open spec fn side_upto(pos: Position, color: Color, k: int) -> int
    decreases k,
{
    if k <= 0 {
        0
    } else if group_color(k - 1) == color {
        side_upto(pos, color, k - 1) + squares_below(pos.piece_board(color, group_piece(k - 1)), 64).len()
    } else {
        side_upto(pos, color, k - 1)
    }
}

/// Whether the features of `pos` fit a per-tensor limit of `max`.
pub open spec fn ice4_features_fit(pos: Position, max: int) -> bool {
    &&& piece_total(pos) <= max
    &&& 2 * side_upto(pos, Color::White, 12) <= max
    &&& 2 * side_upto(pos, Color::Black, 12) <= max
}

proof fn lemma_side_upto_mono(pos: Position, color: Color, k: int, j: int)
    requires
        0 <= k <= j,
    ensures
        side_upto(pos, color, k) <= side_upto(pos, color, j),
        0 <= side_upto(pos, color, k),
    decreases j - k,
{
    if k < j {
        lemma_side_upto_mono(pos, color, k, j - 1);
    } else {
        lemma_side_upto_nonneg(pos, color, k);
    }
}

proof fn lemma_side_upto_nonneg(pos: Position, color: Color, k: int)
    ensures
        0 <= side_upto(pos, color, k),
    decreases k,
{
    if k > 0 {
        lemma_side_upto_nonneg(pos, color, k - 1);
    }
}

/// The index of a `color` `piece` on `square` from `perspective`.
pub fn board_feature(perspective: Color, color: Color, piece: usize, square: u64) -> (r: usize)
    requires
        piece < PIECE_KINDS,
        square < 64,
    ensures
        r == board_index(perspective, color, piece as int, square as int),
        r < 768,
{
    let (rank, c) = match perspective {
        Color::White => (square / 8, color.to_index() as u64),
        Color::Black => (7 - square / 8, 1 - color.to_index() as u64),
    };
    let mut index: u64 = 0;
    index = index * 6 + piece as u64;
    index = index * 8 + square % 8;
    index = index * 2 + c;
    index = index * 8 + rank;
    index as usize
}

/// The table index of a `color` `piece` on `square` for phase half `ph`.
pub fn pst_feature(color: Color, piece: usize, square: u64, ph: u64) -> (r: usize)
    requires
        piece < PIECE_KINDS,
        square < 64,
        ph < 2,
    ensures
        r == pst_index(color, piece as int, square as int, ph as int),
        r < 768,
{
    let rank = match color {
        Color::White => square / 8,
        Color::Black => 7 - square / 8,
    };
    let mut index: u64 = 0;
    index = index * 6 + piece as u64;
    index = index * 8 + square % 8;
    index = index * 2 + ph;
    index = index * 8 + rank;
    index as usize
}

impl Ice4Features {
    /// Writes the features of `board` into the newest entry of `batch`.
    /// Fails exactly when a tensor would exceed the batch's feature limit.
    pub fn add_features(board: &Position, batch: &mut Batch) -> (r: Result<(), BatchError>)
        requires
            old(batch).wf(),
            old(batch).len_spec() > 0,
            old(batch).tensor_count_spec() >= 4,
            old(batch).counts_spec() == zeros(old(batch).tensor_count_spec() as int),
        ensures
            final(batch).wf(),
            final(batch).same_config(old(batch)),
            final(batch).labels_spec() == old(batch).labels_spec(),
            r is Ok <==> ice4_features_fit(*board, old(batch).max_features_spec() as int),
            r is Ok ==> final(batch).features_spec() == old(batch).features_spec()
                + ice4_features(*board, (old(batch).len_spec() - 1) as usize),
    {
        let entry = batch.len() - 1;
        let ghost e = entry;
        let ghost max = old(batch).max_features_spec() as int;
        let stm = board.side_to_move;
        let ph = phase(board);
        let ghost mut done: int = 0;
        assert(batch.counts_spec() =~= zeros(batch.tensor_count_spec() as int).update(0, 0usize).update(1, 0usize));
        assert(batch.features_spec() =~= old(batch).features_spec() + pass_upto(*board, 0, 0, e));
        let mut k: usize = 0;
        while k < 12
            invariant
                k <= 12,
                stm == board.side_to_move,
                e == entry,
                batch.wf(),
                batch.same_config(old(batch)),
                batch.labels_spec() == old(batch).labels_spec(),
                e == batch.len_spec() - 1,
                max == batch.max_features_spec(),
                batch.features_spec() == old(batch).features_spec() + pass_upto(*board, 0, k as int, e),
                done == pieces_upto(*board, k as int),
                0 <= done <= max,
                batch.counts_spec() == zeros(batch.tensor_count_spec() as int).update(0, done as usize).update(1, done as usize),
                batch.tensor_count_spec() >= 4,
            decreases 12 - k,
        {
            let color = if k < 6 { Color::White } else { Color::Black };
            let piece = if k < 6 { k } else { k - 6 };
            let bb = board.colored_pieces(color, piece);
            let mut sq: u64 = 0;
            assert(batch.features_spec() =~= old(batch).features_spec() + pass_upto(*board, 0, k as int, e)
                + pass_group(*board, 0, k as int, 0, e));
            while sq < 64
                invariant
                    sq <= 64,
                    stm == board.side_to_move,
                    e == entry,
                    k < 12,
                    color == group_color(k as int),
                    piece == group_piece(k as int),
                    bb == board.piece_board(color, piece as int),
                    batch.wf(),
                    batch.same_config(old(batch)),
                    batch.labels_spec() == old(batch).labels_spec(),
                    e == batch.len_spec() - 1,
                    max == batch.max_features_spec(),
                    batch.features_spec() == old(batch).features_spec() + pass_upto(*board, 0, k as int, e)
                        + pass_group(*board, 0, k as int, sq as int, e),
                    done == pieces_upto(*board, k as int) + squares_below(bb, sq as int).len(),
                    0 <= done <= max,
                    batch.counts_spec() == zeros(batch.tensor_count_spec() as int).update(0, done as usize).update(1, done as usize),
                    batch.tensor_count_spec() >= 4,
                decreases 64 - sq,
            {
                if bit_set(bb, sq) {
                    let stm_feature = board_feature(stm, color, piece, sq);
                    let nstm_feature = board_feature(stm.opponent(), color, piece, sq);
                    match batch.add_feature(0, stm_feature as i64, WEIGHT_DENOMINATOR) {
                        Ok(()) => {},
                        Err(err) => {
                            proof {
                                lemma_squares_below_mono(bb, sq as int + 1, 64);
                                lemma_pieces_upto_mono(*board, k as int + 1, 12);
                            }
                            return Err(err);
                        },
                    }
                    match batch.add_feature(1, nstm_feature as i64, WEIGHT_DENOMINATOR) {
                        Ok(()) => {},
                        Err(err) => {
                            return Err(err);
                        },
                    }
                    proof {
                        done = done + 1;
                        let prev = old(batch).features_spec() + pass_upto(*board, 0, k as int, e)
                            + pass_group(*board, 0, k as int, sq as int, e);
                        assert(batch.features_spec() =~= prev + board_piece(*board, color, piece as int, sq as int, e));
                    }
                }
                sq = sq + 1;
                assert(batch.features_spec() =~= old(batch).features_spec() + pass_upto(*board, 0, k as int, e)
                        + pass_group(*board, 0, k as int, sq as int, e));
                assert(batch.counts_spec() =~= zeros(batch.tensor_count_spec() as int).update(0, done as usize).update(1, done as usize));
            }
            k = k + 1;
            assert(batch.features_spec() =~= old(batch).features_spec() + pass_upto(*board, 0, k as int, e));
        }
        let ghost first = batch.features_spec();
        let ghost mut own: int = 0;
        let ghost mut opp: int = 0;
        proof {
            lemma_pieces_upto_mono(*board, 0, 12);
        }
        assert(batch.features_spec() =~= first + pass_upto(*board, 1, 0, e));
        let mut k: usize = 0;
        while k < 12
            invariant
                k <= 12,
                stm == board.side_to_move,
                ph == phase_of(*board),
                e == entry,
                batch.wf(),
                batch.same_config(old(batch)),
                batch.labels_spec() == old(batch).labels_spec(),
                e == batch.len_spec() - 1,
                max == batch.max_features_spec(),
                first == old(batch).features_spec() + pass_upto(*board, 0, 12, e),
                piece_total(*board) <= max,
                batch.features_spec() == first + pass_upto(*board, 1, k as int, e),
                own == side_upto(*board, stm, k as int),
                opp == side_upto(*board, stm.other(), k as int),
                0 <= 2 * own <= max,
                0 <= 2 * opp <= max,
                batch.counts_spec()[2] == 2 * opp,
                batch.counts_spec()[3] == 2 * own,
                batch.tensor_count_spec() >= 4,
            decreases 12 - k,
        {
            let color = if k < 6 { Color::White } else { Color::Black };
            let piece = if k < 6 { k } else { k - 6 };
            let bb = board.colored_pieces(color, piece);
            let tensor: usize = if color == stm { 3 } else { 2 };
            let mut sq: u64 = 0;
            assert(batch.features_spec() =~= first + pass_upto(*board, 1, k as int, e)
                + pass_group(*board, 1, k as int, 0, e));
            while sq < 64
                invariant
                    sq <= 64,
                    stm == board.side_to_move,
                    ph == phase_of(*board),
                    e == entry,
                    k < 12,
                    color == group_color(k as int),
                    piece == group_piece(k as int),
                    bb == board.piece_board(color, piece as int),
                    tensor == pst_tensor(*board, color),
                    batch.wf(),
                    batch.same_config(old(batch)),
                    batch.labels_spec() == old(batch).labels_spec(),
                    e == batch.len_spec() - 1,
                    max == batch.max_features_spec(),
                    first == old(batch).features_spec() + pass_upto(*board, 0, 12, e),
                    piece_total(*board) <= max,
                    batch.features_spec() == first + pass_upto(*board, 1, k as int, e)
                        + pass_group(*board, 1, k as int, sq as int, e),
                    color == stm ==> own == side_upto(*board, stm, k as int) + squares_below(bb, sq as int).len(),
                    color != stm ==> own == side_upto(*board, stm, k as int),
                    color != stm ==> opp == side_upto(*board, stm.other(), k as int) + squares_below(bb, sq as int).len(),
                    color == stm ==> opp == side_upto(*board, stm.other(), k as int),
                    0 <= 2 * own <= max,
                    0 <= 2 * opp <= max,
                    batch.counts_spec()[2] == 2 * opp,
                    batch.counts_spec()[3] == 2 * own,
                    batch.tensor_count_spec() >= 4,
                decreases 64 - sq,
            {
                if bit_set(bb, sq) {
                    let mg = pst_feature(color, piece, sq, 0);
                    let eg = pst_feature(color, piece, sq, 1);
                    let r1 = batch.add_feature(tensor, mg as i64, ph);
                    let r2 = match r1 {
                        Ok(()) => batch.add_feature(tensor, eg as i64, WEIGHT_DENOMINATOR - ph),
                        Err(err) => Err(err),
                    };
                    match r2 {
                        Ok(()) => {},
                        Err(err) => {
                            proof {
                                lemma_squares_below_mono(bb, sq as int + 1, 64);
                                lemma_side_upto_mono(*board, color, k as int + 1, 12);
                            }
                            return Err(err);
                        },
                    }
                    proof {
                        if color == stm {
                            own = own + 1;
                        } else {
                            opp = opp + 1;
                        }
                        let prev = first + pass_upto(*board, 1, k as int, e)
                            + pass_group(*board, 1, k as int, sq as int, e);
                        assert(batch.features_spec() =~= prev + pst_piece(*board, color, piece as int, sq as int, e));
                    }
                }
                sq = sq + 1;
                assert(batch.features_spec() =~= first + pass_upto(*board, 1, k as int, e)
                        + pass_group(*board, 1, k as int, sq as int, e));
            }
            k = k + 1;
            assert(batch.features_spec() =~= first + pass_upto(*board, 1, k as int, e));
        }
        assert(batch.features_spec() =~= old(batch).features_spec() + ice4_features(*board, e));
        Ok(())
    }
}

proof fn lemma_pieces_split(pos: Position, k: int)
    ensures
        pieces_upto(pos, k) == side_upto(pos, Color::White, k) + side_upto(pos, Color::Black, k),
    decreases k,
{
    if k > 0 {
        lemma_pieces_split(pos, k - 1);
    }
}

/// With at most 16 pieces a side, as in every legal position, both one-hot
/// encoders stay within their declared feature limit of 32 per tensor.
pub proof fn lemma_legal_positions_fit(pos: Position)
    requires
        side_upto(pos, Color::White, 12) <= 16,
        side_upto(pos, Color::Black, 12) <= 16,
    ensures
        crate::input_features::InputFeatureSetType::Board768.fits(
            pos,
            crate::input_features::InputFeatureSetType::Board768.max_features_spec() as int,
        ),
        crate::input_features::InputFeatureSetType::Ice4Features.fits(
            pos,
            crate::input_features::InputFeatureSetType::Ice4Features.max_features_spec() as int,
        ),
{
    lemma_pieces_split(pos, 12);
}

} // verus!
