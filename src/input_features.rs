use vstd::prelude::*;

use crate::batch::{zeros, Batch, BatchError, Label, SparseFeature};
use crate::board_768::{board_768_features, piece_total, Board768};
use crate::ice4::{ice4_features, ice4_features_fit, Ice4Features};
use crate::ice4_input_features::{dense_fits, ice4_dense, ice4_sparse, phase_of, Ice4InputFeatures};
use crate::position::Position;

verus! {

/// The encoders a batch can be filled with.
#[derive(Clone, Copy, PartialEq, Eq, Debug, Structural)]
pub enum InputFeatureSetType {
    Board768,
    Ice4Features,
    Ice4InputFeatures,
}

impl InputFeatureSetType {
    pub open spec fn max_features_spec(self) -> usize {
        match self {
            InputFeatureSetType::Board768 => 32,
            InputFeatureSetType::Ice4Features => 32,
            InputFeatureSetType::Ice4InputFeatures => 64,
        }
    }

    pub open spec fn tensors_spec(self) -> usize {
        match self {
            InputFeatureSetType::Board768 => 2,
            InputFeatureSetType::Ice4Features => 4,
            InputFeatureSetType::Ice4InputFeatures => 2,
        }
    }

    /// Whether the features of `board` fit a batch whose per-tensor limit is `max`.
    pub open spec fn fits(self, board: Position, max: int) -> bool {
        match self {
            InputFeatureSetType::Board768 => piece_total(board) <= max,
            InputFeatureSetType::Ice4Features => ice4_features_fit(board, max),
            InputFeatureSetType::Ice4InputFeatures => dense_fits(ice4_dense(board), max),
        }
    }

    /// The features of `board` for entry `e`, in the order they are written.
    pub open spec fn encoded(self, board: Position, e: usize) -> Seq<SparseFeature> {
        match self {
            InputFeatureSetType::Board768 => board_768_features(board, e),
            InputFeatureSetType::Ice4Features => ice4_features(board, e),
            InputFeatureSetType::Ice4InputFeatures => ice4_sparse(ice4_dense(board), phase_of(board), e),
        }
    }

    /// The per-tensor feature limit that batches for this encoder are sized with.
    pub fn max_features(self) -> (r: usize)
        ensures
            r == self.max_features_spec(),
    {
        match self {
            InputFeatureSetType::Board768 => 32,
            InputFeatureSetType::Ice4Features => 32,
            InputFeatureSetType::Ice4InputFeatures => 64,
        }
    }

    /// The arity of each stored index: the entry's row and the feature index.
    pub fn indices_per_feature(self) -> (r: usize)
        ensures
            r == 2,
    {
        match self {
            InputFeatureSetType::Board768 => 2,
            InputFeatureSetType::Ice4Features => 2,
            InputFeatureSetType::Ice4InputFeatures => 2,
        }
    }

    /// The number of tensors the encoder writes.
    pub fn tensors_per_board(self) -> (r: usize)
        ensures
            r == self.tensors_spec(),
    {
        match self {
            InputFeatureSetType::Board768 => 2,
            InputFeatureSetType::Ice4Features => 4,
            InputFeatureSetType::Ice4InputFeatures => 2,
        }
    }

    /// An empty batch of `capacity` entries laid out for this encoder.
    pub fn new_batch(self, capacity: usize) -> (r: Batch)
        ensures
            r.wf(),
            r.capacity_spec() == capacity,
            r.max_features_spec() == self.max_features_spec(),
            r.indices_per_feature_spec() == 2,
            r.tensor_count_spec() == self.tensors_spec(),
            r.labels_spec() == Seq::<Label>::empty(),
            r.features_spec() == Seq::<SparseFeature>::empty(),
    {
        Batch::new(capacity, self.max_features(), self.indices_per_feature(), self.tensors_per_board())
    }

    /// Writes the features of `board` into the newest entry of `batch`.
    pub fn add_features(self, board: &Position, batch: &mut Batch) -> (r: Result<(), BatchError>)
        requires
            old(batch).wf(),
            old(batch).len_spec() > 0,
            old(batch).tensor_count_spec() == self.tensors_spec(),
            old(batch).counts_spec() == zeros(old(batch).tensor_count_spec() as int),
        ensures
            final(batch).wf(),
            final(batch).same_config(old(batch)),
            final(batch).labels_spec() == old(batch).labels_spec(),
            r is Ok <==> self.fits(*board, old(batch).max_features_spec() as int),
            r is Ok ==> final(batch).features_spec() == old(batch).features_spec() + self.encoded(
                *board,
                (old(batch).len_spec() - 1) as usize,
            ),
    {
        match self {
            InputFeatureSetType::Board768 => Board768::add_features(board, batch),
            InputFeatureSetType::Ice4Features => Ice4Features::add_features(board, batch),
            InputFeatureSetType::Ice4InputFeatures => Ice4InputFeatures::add_features(board, batch),
        }
    }
}

} // verus!
