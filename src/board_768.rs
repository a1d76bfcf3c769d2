use vstd::prelude::*;

use crate::batch::{zeros, Batch, BatchError, SparseFeature, WEIGHT_DENOMINATOR};
use crate::position::{
    bit_set, has_square, lemma_squares_below_mono, squares_below, Color, Position, PIECE_KINDS,
};

verus! {

/// One-hot piece-square features from both sides' points of view: tensor 0
/// for the side to move, tensor 1 for its opponent.
pub struct Board768;

/// The side of piece group `k` (`0 <= k < 12`): White first.
pub open spec fn group_color(k: int) -> Color {
    if k < 6 {
        Color::White
    } else {
        Color::Black
    }
}

/// The piece kind of piece group `k` (`0 <= k < 12`).
pub open spec fn group_piece(k: int) -> int {
    if k < 6 {
        k
    } else {
        k - 6
    }
}

/// The flat index of a `color` `piece` on `sq` seen from `perspective`:
/// mixed radix over (piece, rank, color, file), with ranks flipped and
/// colors swapped for Black.
pub open spec fn board_768_index(perspective: Color, color: Color, piece: int, sq: int) -> int {
    let rank = if perspective == Color::White {
        sq / 8
    } else {
        7 - sq / 8
    };
    let c = if perspective == Color::White {
        color.index()
    } else {
        1 - color.index()
    };
    ((piece * 8 + rank) * 2 + c) * 8 + sq % 8
}

/// The two features of one piece, for entry `e`.
pub open spec fn board_768_piece(pos: Position, color: Color, piece: int, sq: int, e: usize) -> Seq<
    SparseFeature,
> {
    let stm = pos.side_to_move;
    seq![
        SparseFeature { tensor: 0, entry: e, index: board_768_index(stm, color, piece, sq) as i64, weight: WEIGHT_DENOMINATOR },
        SparseFeature { tensor: 1, entry: e, index: board_768_index(stm.other(), color, piece, sq) as i64, weight: WEIGHT_DENOMINATOR },
    ]
}

/// The features of group `k`'s pieces on squares below `n`.
pub open spec fn board_768_group(pos: Position, k: int, n: int, e: usize) -> Seq<SparseFeature>
    decreases n,
{
    if n <= 0 {
        Seq::empty()
    } else if has_square(pos.piece_board(group_color(k), group_piece(k)), n - 1) {
        board_768_group(pos, k, n - 1, e) + board_768_piece(
            pos,
            group_color(k),
            group_piece(k),
            n - 1,
            e,
        )
    } else {
        board_768_group(pos, k, n - 1, e)
    }
}

/// The features of the first `k` piece groups.
pub open spec fn board_768_upto(pos: Position, k: int, e: usize) -> Seq<SparseFeature>
    decreases k,
{
    if k <= 0 {
        Seq::empty()
    } else {
        board_768_upto(pos, k - 1, e) + board_768_group(pos, k - 1, 64, e)
    }
}

/// Every feature of `pos` for entry `e`: White's pieces then Black's, by kind,
/// squares ascending, two features per piece.
pub open spec fn board_768_features(pos: Position, e: usize) -> Seq<SparseFeature> {
    board_768_upto(pos, 12, e)
}

/// The number of pieces in the first `k` piece groups.
pub open spec fn pieces_upto(pos: Position, k: int) -> int
    decreases k,
{
    if k <= 0 {
        0
    } else {
        pieces_upto(pos, k - 1) + squares_below(
            pos.piece_board(group_color(k - 1), group_piece(k - 1)),
            64,
        ).len()
    }
}

/// The number of pieces on the board.
pub open spec fn piece_total(pos: Position) -> int {
    pieces_upto(pos, 12)
}

pub(crate) proof fn lemma_pieces_upto_mono(pos: Position, k: int, j: int)
    requires
        0 <= k <= j,
    ensures
        pieces_upto(pos, k) <= pieces_upto(pos, j),
    decreases j - k,
{
    if k < j {
        lemma_pieces_upto_mono(pos, k, j - 1);
    }
}

/// The index of a `color` `piece` on `sq` from `perspective`.
pub fn feature(perspective: Color, color: Color, piece: usize, square: u64) -> (r: usize)
    requires
        piece < PIECE_KINDS,
        square < 64,
    ensures
        r == board_768_index(perspective, color, piece as int, square as int),
        r < 768,
{
    let (rank, c) = match perspective {
        Color::White => (square / 8, color.to_index() as u64),
        Color::Black => (7 - square / 8, 1 - color.to_index() as u64),
    };
    let mut index: u64 = 0;
    index = index * 6 + piece as u64;
    index = index * 8 + rank;
    index = index * 2 + c;
    index = index * 8 + square % 8;
    index as usize
}

impl Board768 {
    /// Writes the features of `board` into the newest entry of `batch`.
    /// Fails exactly when the board holds more pieces than the batch's
    /// per-tensor feature limit.
    pub fn add_features(board: &Position, batch: &mut Batch) -> (r: Result<(), BatchError>)
        requires
            old(batch).wf(),
            old(batch).len_spec() > 0,
            old(batch).tensor_count_spec() >= 2,
            old(batch).counts_spec() == zeros(old(batch).tensor_count_spec() as int),
        ensures
            final(batch).wf(),
            final(batch).same_config(old(batch)),
            final(batch).labels_spec() == old(batch).labels_spec(),
            r is Ok <==> piece_total(*board) <= old(batch).max_features_spec(),
            r is Ok ==> final(batch).features_spec() == old(batch).features_spec()
                + board_768_features(*board, (old(batch).len_spec() - 1) as usize),
    {
        let entry = batch.len() - 1;
        let ghost e = entry;
        let ghost max = old(batch).max_features_spec();
        let stm = board.side_to_move;
        let ghost mut done: int = 0;
        assert(batch.counts_spec() =~= zeros(batch.tensor_count_spec() as int).update(0, 0usize).update(1, 0usize));
        assert(batch.features_spec() =~= old(batch).features_spec() + board_768_upto(*board, 0, e));
        let mut k: usize = 0;
        while k < 12
            invariant
                k <= 12,
                stm == board.side_to_move,
                e == entry,
                batch.wf(),
                batch.same_config(old(batch)),
                batch.labels_spec() == old(batch).labels_spec(),
                e == batch.len_spec() - 1,
                max == batch.max_features_spec(),
                batch.features_spec() == old(batch).features_spec() + board_768_upto(*board, k as int, e),
                done == pieces_upto(*board, k as int),
                0 <= done <= max,
                batch.counts_spec() == zeros(batch.tensor_count_spec() as int).update(0, done as usize).update(1, done as usize),
                batch.tensor_count_spec() >= 2,
            decreases 12 - k,
        {
            let color = if k < 6 { Color::White } else { Color::Black };
            let piece = if k < 6 { k } else { k - 6 };
            let bb = board.colored_pieces(color, piece);
            let mut sq: u64 = 0;
            assert(batch.features_spec() =~= old(batch).features_spec() + board_768_upto(*board, k as int, e)
                + board_768_group(*board, k as int, 0, e));
            while sq < 64
                invariant
                    sq <= 64,
                    stm == board.side_to_move,
                    e == entry,
                    k < 12,
                    color == group_color(k as int),
                    piece == group_piece(k as int),
                    bb == board.piece_board(color, piece as int),
                    batch.wf(),
                    batch.same_config(old(batch)),
                    batch.labels_spec() == old(batch).labels_spec(),
                    e == batch.len_spec() - 1,
                    max == batch.max_features_spec(),
                    batch.features_spec() == old(batch).features_spec() + board_768_upto(*board, k as int, e)
                        + board_768_group(*board, k as int, sq as int, e),
                    done == pieces_upto(*board, k as int) + squares_below(bb, sq as int).len(),
                    0 <= done <= max,
                    batch.counts_spec() == zeros(batch.tensor_count_spec() as int).update(0, done as usize).update(1, done as usize),
                    batch.tensor_count_spec() >= 2,
                decreases 64 - sq,
            {
                if bit_set(bb, sq) {
                    let stm_feature = feature(stm, color, piece, sq);
                    let nstm_feature = feature(stm.opponent(), color, piece, sq);
                    match batch.add_feature(0, stm_feature as i64, WEIGHT_DENOMINATOR) {
                        Ok(()) => {},
                        Err(err) => {
                            proof {
                                lemma_squares_below_mono(bb, sq as int + 1, 64);
                                lemma_pieces_upto_mono(*board, k as int + 1, 12);
                            }
                            return Err(err);
                        },
                    }
                    match batch.add_feature(1, nstm_feature as i64, WEIGHT_DENOMINATOR) {
                        Ok(()) => {},
                        Err(err) => {
                            return Err(err);
                        },
                    }
                    proof {
                        done = done + 1;
                        let prev = old(batch).features_spec() + board_768_upto(*board, k as int, e)
                            + board_768_group(*board, k as int, sq as int, e);
                        let piece_features = board_768_piece(*board, color, piece as int, sq as int, e);
                        assert(batch.features_spec() =~= prev + piece_features);
                    }
                }
                proof {
                    assert(board_768_group(*board, k as int, sq as int + 1, e) == if has_square(bb, sq as int) {
                        board_768_group(*board, k as int, sq as int, e) + board_768_piece(*board, color, piece as int, sq as int, e)
                    } else {
                        board_768_group(*board, k as int, sq as int, e)
                    });
                }
                sq = sq + 1;
                assert(batch.features_spec() =~= old(batch).features_spec() + board_768_upto(*board, k as int, e)
                        + board_768_group(*board, k as int, sq as int, e));
                assert(batch.counts_spec() =~= zeros(batch.tensor_count_spec() as int).update(0, done as usize).update(1, done as usize));
            }
            k = k + 1;
            assert(batch.features_spec() =~= old(batch).features_spec() + board_768_upto(*board, k as int, e));
        }
        Ok(())
    }
}

} // verus!
