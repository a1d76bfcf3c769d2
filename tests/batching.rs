use parse::batch::{Batch, BatchError, Label, WEIGHT_DENOMINATOR};
use parse::bucketing::{BucketingScheme, ModifiedMaterial, NoBucketing};
use parse::data_loader::{dataset_size, next_nonempty, process, Sample};
use parse::input_features::InputFeatureSetType;
use parse::position::{Color, Position};

fn start_position(side_to_move: Color) -> Position {
    Position {
        colors: [0xFFFF, 0xFFFF_0000_0000_0000],
        pieces: [
            0x00FF_0000_0000_FF00,
            0x4200_0000_0000_0042,
            0x2400_0000_0000_0024,
            0x8100_0000_0000_0081,
            0x0800_0000_0000_0008,
            0x1000_0000_0000_0010,
        ],
        side_to_move,
    }
}

fn kings_only() -> Position {
    Position {
        colors: [1 << 4, 1 << 60],
        pieces: [0, 0, 0, 0, 0, (1 << 4) | (1 << 60)],
        side_to_move: Color::White,
    }
}

fn sample(side_to_move: Color, cp: i32, wdl: u8) -> Option<Sample> {
    Some(Sample { position: start_position(side_to_move), cp, wdl })
}

fn entry_features(batch: &Batch, entry: usize, tensor: usize) -> Vec<(i64, i32)> {
    batch
        .features()
        .iter()
        .filter(|f| f.entry == entry && f.tensor == tensor)
        .map(|f| (f.index, f.weight))
        .collect()
}

#[test]
fn no_bucketing_is_always_zero() {
    assert_eq!(NoBucketing::bucket(&start_position(Color::White)), 0);
    assert_eq!(NoBucketing::bucket(&kings_only()), 0);
    assert_eq!(NoBucketing::buckets(), 1);
}

#[test]
fn modified_material_buckets() {
    assert_eq!(ModifiedMaterial::buckets(), 16);
    // 76 points of material: 76 * 16 / 76 = 16, clamped to 15.
    assert_eq!(ModifiedMaterial::bucket(&start_position(Color::White)), 15);
    assert_eq!(ModifiedMaterial::bucket(&kings_only()), 0);
    // 16 pawns, 4 rooks and a queen: 44 points, 44 * 16 / 76 = 9.
    let mut pos = start_position(Color::White);
    pos.pieces[1] = 0;
    pos.pieces[2] = 0;
    pos.pieces[4] = 0x8;
    pos.colors = [0xFF00 | 0x81 | 0x8 | 0x10, 0x1000_0000_0000_0000];
    assert_eq!(ModifiedMaterial::bucket(&pos), 9);
}

#[test]
fn two_record_batch_one_hot() {
    let kind = InputFeatureSetType::Board768;
    let mut batch = kind.new_batch(2);
    let records = vec![sample(Color::White, 50, 2), sample(Color::Black, 120, 0)];
    assert_eq!(process::<NoBucketing>(&mut batch, &records, kind), Ok(()));
    assert_eq!(batch.len(), 2);
    assert_eq!(batch.capacity(), 2);
    assert_eq!(batch.labels()[0], Label { cp: 50, wdl_halves: 2, bucket: 0 });
    assert_eq!(batch.labels()[1], Label { cp: -120, wdl_halves: 2, bucket: 0 });
    for entry in 0..2 {
        for tensor in 0..2 {
            let feats = entry_features(&batch, entry, tensor);
            assert_eq!(feats.len(), 32);
            assert!(feats.iter().all(|&(_, w)| w == WEIGHT_DENOMINATOR));
        }
    }
    // White's a2 pawn comes first: index 16 for White, 104 seen from Black.
    assert_eq!(entry_features(&batch, 0, 0)[0], (16, WEIGHT_DENOMINATOR));
    assert_eq!(entry_features(&batch, 0, 1)[0], (104, WEIGHT_DENOMINATOR));
    // With Black to move the two views swap.
    assert_eq!(entry_features(&batch, 1, 0)[0], (104, WEIGHT_DENOMINATOR));
    assert_eq!(entry_features(&batch, 1, 1)[0], (16, WEIGHT_DENOMINATOR));
}

#[test]
fn reorientation_for_black_to_move() {
    let kind = InputFeatureSetType::Board768;
    let mut batch = kind.new_batch(3);
    let records = vec![
        sample(Color::Black, 300, 2),
        sample(Color::Black, -40, 1),
        sample(Color::White, -40, 0),
    ];
    assert_eq!(process::<ModifiedMaterial>(&mut batch, &records, kind), Ok(()));
    assert_eq!(batch.labels()[0], Label { cp: -300, wdl_halves: 0, bucket: 15 });
    assert_eq!(batch.labels()[1], Label { cp: 40, wdl_halves: 1, bucket: 15 });
    assert_eq!(batch.labels()[2], Label { cp: -40, wdl_halves: 0, bucket: 15 });
}

#[test]
fn outliers_and_undecodable_records_are_skipped() {
    let kind = InputFeatureSetType::Board768;
    let mut batch = kind.new_batch(6);
    let records = vec![
        sample(Color::White, 3001, 2),
        None,
        sample(Color::White, 3000, 1),
        sample(Color::White, -3001, 0),
        sample(Color::White, 10, 3),
        sample(Color::White, -3000, 0),
    ];
    assert_eq!(process::<NoBucketing>(&mut batch, &records, kind), Ok(()));
    assert_eq!(batch.len(), 2);
    assert_eq!(batch.labels()[0].cp, 3000);
    assert_eq!(batch.labels()[1].cp, -3000);
    assert!(batch.features().iter().all(|f| f.entry < 2));
}

#[test]
fn all_filtered_batch_is_empty() {
    let kind = InputFeatureSetType::Board768;
    let mut batch = kind.new_batch(2);
    let records = vec![sample(Color::White, 5000, 2), None];
    assert_eq!(process::<NoBucketing>(&mut batch, &records, kind), Ok(()));
    assert_eq!(batch.len(), 0);
    assert_eq!(batch.features().len(), 0);
}

#[test]
fn clear_and_refill_is_identical() {
    let kind = InputFeatureSetType::Ice4Features;
    let mut batch = kind.new_batch(2);
    let records = vec![sample(Color::White, 50, 2), sample(Color::Black, 120, 0)];
    assert_eq!(process::<ModifiedMaterial>(&mut batch, &records, kind), Ok(()));
    let labels = batch.labels().clone();
    let features = batch.features().clone();
    batch.clear();
    assert_eq!(batch.len(), 0);
    assert_eq!(batch.features().len(), 0);
    assert_eq!(batch.capacity(), 2);
    assert_eq!(process::<ModifiedMaterial>(&mut batch, &records, kind), Ok(()));
    assert_eq!(batch.labels(), &labels);
    assert_eq!(batch.features(), &features);
}

#[test]
fn feature_limit_is_reported() {
    let mut batch = Batch::new(1, 1, 2, 1);
    batch.make_entry(0, 1, 0);
    assert_eq!(batch.add_feature(0, 7, 24), Ok(()));
    assert_eq!(batch.add_feature(0, 8, 24), Err(BatchError::FeatureCapacity));
    assert_eq!(batch.features().len(), 1);
}

#[test]
fn too_many_pieces_overflow_one_hot() {
    let kind = InputFeatureSetType::Board768;
    let mut pos = start_position(Color::White);
    // A 33rd piece: a white knight on e4.
    pos.pieces[1] |= 1 << 28;
    pos.colors[0] |= 1 << 28;
    let mut batch = kind.new_batch(1);
    let records = vec![Some(Sample { position: pos, cp: 0, wdl: 1 })];
    assert_eq!(
        process::<NoBucketing>(&mut batch, &records, kind),
        Err(BatchError::FeatureCapacity)
    );
}

#[test]
fn dataset_size_counts_whole_records() {
    assert_eq!(dataset_size(0), 0);
    assert_eq!(dataset_size(31), 0);
    assert_eq!(dataset_size(64), 2);
    assert_eq!(dataset_size(65), 2);
    assert_eq!(dataset_size(32 * 1000 + 31), 1000);
}

#[test]
fn next_nonempty_skips_empty_batches() {
    let kind = InputFeatureSetType::Board768;
    let mut batches = vec![kind.new_batch(1), kind.new_batch(1), kind.new_batch(1)];
    let records = vec![sample(Color::White, 0, 1)];
    assert_eq!(process::<NoBucketing>(&mut batches[1], &records, kind), Ok(()));
    assert_eq!(next_nonempty(&batches, 0), Some(1));
    assert_eq!(next_nonempty(&batches, 1), Some(1));
    assert_eq!(next_nonempty(&batches, 2), None);
    assert_eq!(next_nonempty(&batches, 5), None);
}

#[test]
fn batches_keep_record_order() {
    let kind = InputFeatureSetType::Board768;
    let records: Vec<Option<Sample>> = (0..10)
        .map(|i| sample(Color::White, if i % 3 == 0 { 4000 } else { i * 10 }, 1))
        .collect();
    let mut seen = vec![];
    for chunk in records.chunks(4) {
        let mut batch = kind.new_batch(4);
        assert_eq!(process::<NoBucketing>(&mut batch, chunk, kind), Ok(()));
        seen.extend(batch.labels().iter().map(|l| l.cp));
    }
    assert_eq!(seen, vec![10, 20, 40, 50, 70, 80]);
}

#[test]
fn encoder_layouts() {
    assert_eq!(InputFeatureSetType::Board768.max_features(), 32);
    assert_eq!(InputFeatureSetType::Ice4Features.max_features(), 32);
    assert_eq!(InputFeatureSetType::Ice4InputFeatures.max_features(), 64);
    assert_eq!(InputFeatureSetType::Board768.indices_per_feature(), 2);
    assert_eq!(InputFeatureSetType::Ice4InputFeatures.indices_per_feature(), 2);
    assert_eq!(InputFeatureSetType::Board768.tensors_per_board(), 2);
    assert_eq!(InputFeatureSetType::Ice4Features.tensors_per_board(), 4);
    assert_eq!(InputFeatureSetType::Ice4InputFeatures.tensors_per_board(), 2);
    let batch = InputFeatureSetType::Ice4Features.new_batch(8);
    assert_eq!(batch.tensor_count(), 4);
    assert_eq!(batch.max_features(), 32);
    assert_eq!(batch.indices_per_feature(), 2);
}
