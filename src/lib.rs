mod attacks;
pub mod batch;
pub mod board_768;
pub mod bucketing;
pub mod data_loader;
pub mod ice4;
pub mod ice4_input_features;
pub mod input_features;
pub mod position;

pub use batch::{Batch, BatchError, Label, SparseFeature, WEIGHT_DENOMINATOR};
pub use board_768::Board768;
pub use bucketing::{BucketingScheme, ModifiedMaterial, NoBucketing};
pub use data_loader::{dataset_size, next_nonempty, process, Sample, BUFFERED_BATCHES, RECORD_SIZE};
pub use ice4::Ice4Features;
pub use ice4_input_features::{Ice4InputFeatures, ICE4_FEATURE_COUNT};
pub use input_features::InputFeatureSetType;
pub use position::{Color, Position};
