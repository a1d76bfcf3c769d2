use vstd::prelude::*;

use crate::position::{Position, BISHOP, KNIGHT, PAWN, QUEEN, ROOK};

verus! {

/// Maps a position to a small bucket used to stratify the training loss.
pub trait BucketingScheme {
    /// The number of buckets.
    spec fn bucket_count() -> int;

    /// The bucket of `board`.
    spec fn bucket_of(board: Position) -> int;

    fn buckets() -> (r: usize)
        ensures
            r == Self::bucket_count(),
    ;

    /// The bucket of `board`, always in `[0, bucket_count())`.
    fn bucket(board: &Position) -> (r: i32)
        ensures
            r == Self::bucket_of(*board),
            0 <= r < Self::bucket_count(),
    ;
}

/// One bucket for every position.
pub struct NoBucketing;

impl BucketingScheme for NoBucketing {
    open spec fn bucket_count() -> int {
        1
    }

    open spec fn bucket_of(board: Position) -> int {
        0
    }

    fn buckets() -> (r: usize) {
        1
    }

    fn bucket(_board: &Position) -> (r: i32) {
        0
    }
}

/// Sixteen buckets by weighted material.
pub struct ModifiedMaterial;

/// `pawns + 3 * (bishops + knights) + 5 * rooks + 8 * queens`, both sides together.
pub open spec fn material(board: Position) -> int {
    board.kind_count(PAWN as int) + 3 * board.kind_count(BISHOP as int) + 3 * board.kind_count(
        KNIGHT as int,
    ) + 5 * board.kind_count(ROOK as int) + 8 * board.kind_count(QUEEN as int)
}

impl BucketingScheme for ModifiedMaterial {
    open spec fn bucket_count() -> int {
        16
    }

    open spec fn bucket_of(board: Position) -> int {
        let b = material(board) * 16 / 76;
        if b < 15 {
            b
        } else {
            15
        }
    }

    fn buckets() -> (r: usize) {
        16
    }

    fn bucket(board: &Position) -> (r: i32) {
        let material: i32 = board.count_kind(PAWN) as i32 + 3 * board.count_kind(BISHOP) as i32
            + 3 * board.count_kind(KNIGHT) as i32 + 5 * board.count_kind(ROOK) as i32 + 8
            * board.count_kind(QUEEN) as i32;
        let b = material * 16 / 76;
        if b < 15 {
            b
        } else {
            15
        }
    }
}

} // verus!
